//! Constant pool: collects literal values encountered during parsing,
//! assigns each a byte offset and length within the future data section,
//! and resolves those to absolute virtual addresses once section placement
//! is known.
//!
//! Inserting a literal a second time returns the placement recorded the
//! first time and leaves the blob untouched.

use crate::strutil::str_eq;
use vstd::prelude::*;
use vstd::string::StrSliceExecFns;
use vstd::string::StringSliceAdditionalSpecFns;
use vstd::utf8::encode_utf8;

verus! {

/// The placement of one recorded literal within the data blob.
pub ghost struct ConstEntryModel {
    pub name: Seq<char>,
    pub offset: int,
    pub length: int,
}

/// The sum of the lengths recorded by `entries`.
pub open spec fn total_length(entries: Seq<ConstEntryModel>) -> int
    decreases entries.len(),
{
    if entries.len() == 0 {
        0
    } else {
        total_length(entries.drop_last()) + entries.last().length
    }
}

/// The index of the entry recording `name`, or -1 when none does.
pub open spec fn find_entry(entries: Seq<ConstEntryModel>, name: Seq<char>) -> int
    decreases entries.len(),
{
    if entries.len() == 0 {
        -1
    } else if entries[0].name == name {
        0
    } else {
        let rest = find_entry(entries.drop_first(), name);
        if rest == -1 {
            -1
        } else {
            rest + 1
        }
    }
}

/// `find_entry` returns -1 exactly when no entry records `name`; otherwise
/// it returns the first index recording it.
pub proof fn lemma_find_entry(entries: Seq<ConstEntryModel>, name: Seq<char>)
    ensures
        find_entry(entries, name) == -1 <==> (forall|k: int|
            0 <= k < entries.len() ==> entries[k].name != name),
        find_entry(entries, name) != -1 ==> {
            &&& 0 <= find_entry(entries, name) < entries.len()
            &&& entries[find_entry(entries, name)].name == name
            &&& forall|k: int| 0 <= k < find_entry(entries, name) ==> entries[k].name != name
        },
    decreases entries.len(),
{
    if entries.len() == 0 {
    } else if entries[0].name == name {
    } else {
        let rest = entries.drop_first();
        lemma_find_entry(rest, name);
        let r = find_entry(rest, name);
        if r == -1 {
            assert forall|k: int| 0 <= k < entries.len() implies entries[k].name != name by {
                if k > 0 {
                    assert(rest[k - 1] == entries[k]);
                }
            }
        } else {
            assert(entries[r + 1] == rest[r]);
            assert forall|k: int| 0 <= k < r + 1 implies entries[k].name != name by {
                if k > 0 {
                    assert(rest[k - 1] == entries[k]);
                }
            }
        }
    }
}

/// The default virtual address of the data section: the data-segment base
/// plus the fixed file offset of the section's first byte.
pub const DEFAULT_DATA_SECTION_ADDRESS: u64 = 0x800000 + 0xb0;

struct ConstEntry {
    name: String,
    offset: u64,
    length: u64,
}

/// The compile-time table tracking each literal's placement within the
/// data blob, plus the blob itself.
pub struct ConstData {
    data: Vec<u8>,
    length: u64,
    entries: Vec<ConstEntry>,
    data_section_address: u64,
}

impl ConstData {
    /// The recorded entries, in first-seen insertion order.
    pub closed spec fn spec_entries(&self) -> Seq<ConstEntryModel> {
        self.entries@.map_values(
            |e: ConstEntry|
                ConstEntryModel { name: e.name@, offset: e.offset as int, length: e.length as int },
        )
    }

    /// The data blob collected so far.
    pub closed spec fn spec_data(&self) -> Seq<u8> {
        self.data@
    }

    /// The virtual address the data section will be mapped at.
    pub closed spec fn spec_base(&self) -> u64 {
        self.data_section_address
    }

    /// Whether `name` has been registered.
    pub open spec fn spec_contains(&self, name: Seq<char>) -> bool {
        find_entry(self.spec_entries(), name) >= 0
    }

    /// The blob offset recorded for `name`.
    pub open spec fn spec_offset_of(&self, name: Seq<char>) -> int {
        self.spec_entries()[find_entry(self.spec_entries(), name)].offset
    }

    /// The byte length recorded for `name`.
    pub open spec fn spec_length_of(&self, name: Seq<char>) -> int {
        self.spec_entries()[find_entry(self.spec_entries(), name)].length
    }

    /// The absolute virtual address of `name`'s bytes.
    pub open spec fn spec_address_of(&self, name: Seq<char>) -> int {
        self.spec_base() + self.spec_offset_of(name)
    }

    /// The virtual address immediately following all recorded constants.
    pub open spec fn spec_end_of_section(&self) -> int {
        self.spec_base() + self.spec_data().len()
    }

    /// Offsets are assigned cumulatively in insertion order, each entry's
    /// length is the byte length of its literal, the blob holds each
    /// literal's bytes at its recorded range, the recorded lengths sum to
    /// the blob's total length, and no literal is recorded twice.
    pub closed spec fn wf(&self) -> bool {
        &&& self.length as int == self.data@.len()
        &&& total_length(self.spec_entries()) == self.data@.len()
        &&& forall|i: int|
            0 <= i < self.spec_entries().len() ==> {
                let e = #[trigger] self.spec_entries()[i];
                &&& e.offset == total_length(self.spec_entries().take(i))
                &&& e.length == encode_utf8(e.name).len()
                &&& self.data@.subrange(e.offset, e.offset + e.length) == encode_utf8(e.name)
            }
        &&& forall|i: int, j: int|
            0 <= i < j < self.spec_entries().len() ==> #[trigger] self.spec_entries()[i].name
                != #[trigger] self.spec_entries()[j].name
    }

    /// An empty pool placed at the default data-section address.
    pub fn new() -> (cd: ConstData)
        ensures
            cd.wf(),
            cd.spec_entries() == Seq::<ConstEntryModel>::empty(),
            cd.spec_data() == Seq::<u8>::empty(),
            cd.spec_base() == DEFAULT_DATA_SECTION_ADDRESS,
    {
        let cd = ConstData {
            data: Vec::new(),
            length: 0,
            entries: Vec::new(),
            data_section_address: DEFAULT_DATA_SECTION_ADDRESS,
        };
        proof {
            assert(cd.spec_entries() =~= Seq::<ConstEntryModel>::empty());
            assert(cd.spec_data() =~= Seq::<u8>::empty());
        }
        cd
    }

    /// Shift the data section's virtual address by `offset`.
    pub fn set_data_section_offset(&mut self, offset: u64)
        requires
            old(self).spec_base() + offset <= u64::MAX,
        ensures
            final(self).spec_base() == old(self).spec_base() + offset,
            final(self).spec_entries() == old(self).spec_entries(),
            final(self).spec_data() == old(self).spec_data(),
            old(self).wf() ==> final(self).wf(),
    {
        self.data_section_address = self.data_section_address + offset;
    }

    fn find_index(&self, constant: &str) -> (r: Option<usize>)
        ensures
            match r {
                Some(i) => 0 <= i < self.spec_entries().len() && find_entry(
                    self.spec_entries(),
                    constant@,
                ) == i,
                None => find_entry(self.spec_entries(), constant@) == -1,
            },
    {
        let n = self.entries.len();
        let mut i: usize = 0;
        while i < n
            invariant
                i <= n,
                n == self.entries@.len(),
                forall|k: int| 0 <= k < i ==> self.spec_entries()[k].name != constant@,
            decreases n - i,
        {
            if str_eq(self.entries[i].name.as_str(), constant) {
                proof {
                    assert(self.spec_entries()[i as int].name == constant@);
                    lemma_find_entry(self.spec_entries(), constant@);
                    let found = find_entry(self.spec_entries(), constant@);
                    assert(found != -1);
                    assert(found >= i) by {
                        if found < i as int {
                            assert(self.spec_entries()[found].name != constant@);
                        }
                    }
                    assert(found == i as int);
                }
                return Some(i);
            }
            i += 1;
        }
        proof {
            lemma_find_entry(self.spec_entries(), constant@);
        }
        None
    }

    /// Register a literal. A literal seen for the first time has its bytes
    /// appended to the blob and its placement recorded; a literal already
    /// known is returned as recorded, with the pool left untouched. Either
    /// way the returned pair is the literal's `(offset, length)`.
    pub fn insert(&mut self, constant: &str) -> (r: (u64, u64))
        requires
            old(self).wf(),
            old(self).spec_data().len() + constant.spec_bytes().len() <= u64::MAX,
        ensures
            final(self).wf(),
            final(self).spec_base() == old(self).spec_base(),
            final(self).spec_contains(constant@),
            r.0 as int == final(self).spec_offset_of(constant@),
            r.1 as int == final(self).spec_length_of(constant@),
            old(self).spec_contains(constant@) ==> *final(self) == *old(self),
            !old(self).spec_contains(constant@) ==> {
                &&& final(self).spec_data() == old(self).spec_data() + constant.spec_bytes()
                &&& final(self).spec_entries() == old(self).spec_entries().push(
                    ConstEntryModel {
                        name: constant@,
                        offset: old(self).spec_data().len() as int,
                        length: constant.spec_bytes().len() as int,
                    },
                )
                &&& r.0 as int == old(self).spec_data().len()
                &&& r.1 as int == constant.spec_bytes().len()
            },
    {
        match self.find_index(constant) {
            Some(i) => {
                proof {
                    lemma_find_entry(self.spec_entries(), constant@);
                }
                let offset = self.entries[i].offset;
                let length = self.entries[i].length;
                (offset, length)
            },
            None => {
                let ghost old_self = *self;
                let ghost new_model = ConstEntryModel {
                    name: constant@,
                    offset: self.data@.len() as int,
                    length: constant.spec_bytes().len() as int,
                };
                let mut str_bytes = constant.as_bytes_vec();
                let str_length = str_bytes.len() as u64;
                let start_index = self.length;
                self.data.append(&mut str_bytes);
                self.length = self.length + str_length;
                let entry = ConstEntry {
                    name: constant.to_owned(),
                    offset: start_index,
                    length: str_length,
                };
                self.entries.push(entry);
                proof {
                    assert(self.spec_entries() =~= old_self.spec_entries().push(new_model));
                    lemma_insert_preserves_wf(old_self, *self, new_model);
                    lemma_find_entry(self.spec_entries(), constant@);
                }
                (start_index, str_length)
            },
        }
    }

    /// The data blob collected so far.
    pub fn get_data(&self) -> (data: &Vec<u8>)
        ensures
            data@ == self.spec_data(),
    {
        &self.data
    }

    /// The blob offset of a registered literal.
    pub fn get_const_index(&self, constant: &str) -> (index: u64)
        requires
            self.wf(),
            self.spec_contains(constant@),
        ensures
            index as int == self.spec_offset_of(constant@),
    {
        match self.find_index(constant) {
            Some(i) => self.entries[i].offset,
            None => unreached(),
        }
    }

    /// The byte length of a registered literal.
    pub fn get_const_length(&self, constant: &str) -> (length: u64)
        requires
            self.wf(),
            self.spec_contains(constant@),
        ensures
            length as int == self.spec_length_of(constant@),
    {
        match self.find_index(constant) {
            Some(i) => self.entries[i].length,
            None => unreached(),
        }
    }

    /// The absolute virtual address of a registered literal's bytes.
    pub fn get_const_address(&self, constant: &str) -> (address: u64)
        requires
            self.wf(),
            self.spec_contains(constant@),
            self.spec_base() + self.spec_offset_of(constant@) <= u64::MAX,
        ensures
            address as int == self.spec_address_of(constant@),
    {
        proof {
            lemma_entry_bounds(self, constant@);
        }
        let index = self.get_const_index(constant);
        self.data_section_address + index
    }

    /// The virtual address immediately following all recorded constants.
    pub fn get_end_of_section(&self) -> (address: u64)
        requires
            self.wf(),
            self.spec_base() + self.spec_data().len() <= u64::MAX,
        ensures
            address as int == self.spec_end_of_section(),
    {
        self.data_section_address + self.length
    }
}

/// `total_length` over one more entry of a prefix.
proof fn lemma_total_take_succ(entries: Seq<ConstEntryModel>, i: int)
    requires
        0 <= i < entries.len(),
    ensures
        total_length(entries.take(i + 1)) == total_length(entries.take(i)) + entries[i].length,
{
    assert(entries.take(i + 1).drop_last() =~= entries.take(i));
    assert(entries.take(i + 1).last() == entries[i]);
}

/// `total_length` of a prefix grows with the prefix when no length is
/// negative.
proof fn lemma_total_monotone(entries: Seq<ConstEntryModel>, i: int, j: int)
    requires
        0 <= i <= j <= entries.len(),
        forall|k: int| 0 <= k < entries.len() ==> #[trigger] entries[k].length >= 0,
    ensures
        total_length(entries.take(i)) <= total_length(entries.take(j)),
    decreases j - i,
{
    if i < j {
        lemma_total_monotone(entries, i, j - 1);
        lemma_total_take_succ(entries, j - 1);
    }
}

/// A registered literal's recorded range lies within the blob and holds
/// exactly the literal's bytes.
pub proof fn lemma_entry_bounds(cd: &ConstData, name: Seq<char>)
    requires
        cd.wf(),
        cd.spec_contains(name),
    ensures
        0 <= cd.spec_offset_of(name),
        cd.spec_offset_of(name) + cd.spec_length_of(name) <= cd.spec_data().len(),
        cd.spec_length_of(name) == encode_utf8(name).len(),
        cd.spec_data().subrange(
            cd.spec_offset_of(name),
            cd.spec_offset_of(name) + cd.spec_length_of(name),
        ) == encode_utf8(name),
{
    let entries = cd.spec_entries();
    lemma_find_entry(entries, name);
    let i = find_entry(entries, name);
    assert(forall|k: int| 0 <= k < entries.len() ==> #[trigger] entries[k].length >= 0);
    lemma_total_monotone(entries, 0, i);
    lemma_total_take_succ(entries, i);
    lemma_total_monotone(entries, i + 1, entries.len() as int);
    assert(entries.take(0) =~= Seq::<ConstEntryModel>::empty());
    assert(entries.take(entries.len() as int) =~= entries);
}

/// Appending a fresh literal preserves the pool's well-formedness.
proof fn lemma_insert_preserves_wf(
    old_cd: ConstData,
    new_cd: ConstData,
    new_entry: ConstEntryModel,
)
    requires
        old_cd.wf(),
        find_entry(old_cd.spec_entries(), new_entry.name) == -1,
        new_entry.offset == old_cd.spec_data().len(),
        new_entry.length == encode_utf8(new_entry.name).len(),
        new_cd.spec_entries() == old_cd.spec_entries().push(new_entry),
        new_cd.spec_data() == old_cd.spec_data() + encode_utf8(new_entry.name),
        new_cd.length as int == new_cd.spec_data().len(),
    ensures
        new_cd.wf(),
{
    let old_entries = old_cd.spec_entries();
    let new_entries = new_cd.spec_entries();
    lemma_find_entry(old_entries, new_entry.name);
    assert forall|i: int| 0 <= i < new_entries.len() implies {
        let e = #[trigger] new_entries[i];
        &&& e.offset == total_length(new_entries.take(i))
        &&& e.length == encode_utf8(e.name).len()
        &&& new_cd.spec_data().subrange(e.offset, e.offset + e.length) == encode_utf8(e.name)
    } by {
        assert(forall|k: int|
            0 <= k < old_entries.len() ==> #[trigger] old_entries[k].length >= 0);
        if i < old_entries.len() {
            assert(new_entries.take(i) =~= old_entries.take(i));
            assert(new_entries[i] == old_entries[i]);
            let e = old_entries[i];
            lemma_total_take_succ(old_entries, i);
            lemma_total_monotone(old_entries, i + 1, old_entries.len() as int);
            assert(old_entries.take(old_entries.len() as int) =~= old_entries);
            assert(new_cd.spec_data().subrange(e.offset, e.offset + e.length)
                =~= old_cd.spec_data().subrange(e.offset, e.offset + e.length));
        } else {
            assert(new_entries.take(i) =~= old_entries);
            assert(new_entries[i] == new_entry);
            assert(new_cd.spec_data().subrange(
                new_entry.offset,
                new_entry.offset + new_entry.length,
            ) =~= encode_utf8(new_entry.name));
        }
    }
    assert(new_entries.drop_last() =~= old_entries);
    assert(forall|k: int|
        0 <= k < old_entries.len() ==> #[trigger] new_entries[k] == old_entries[k]);
}

/// A name found among some entries is still found after more entries are
/// appended.
pub proof fn lemma_contains_preserved(
    old_entries: Seq<ConstEntryModel>,
    new_entries: Seq<ConstEntryModel>,
    name: Seq<char>,
)
    requires
        old_entries.len() <= new_entries.len(),
        forall|k: int| 0 <= k < old_entries.len() ==> new_entries[k] == old_entries[k],
        find_entry(old_entries, name) >= 0,
    ensures
        find_entry(new_entries, name) >= 0,
{
    lemma_find_entry(old_entries, name);
    lemma_find_entry(new_entries, name);
    let f = find_entry(old_entries, name);
    assert(new_entries[f].name == name);
}

/// The lengths recorded in a well-formed pool sum to the blob's total
/// length, and no two entries' `(offset, length)` ranges overlap.
pub proof fn lemma_pool_ranges(cd: &ConstData)
    requires
        cd.wf(),
    ensures
        total_length(cd.spec_entries()) == cd.spec_data().len(),
        forall|i: int, j: int|
            0 <= i < j < cd.spec_entries().len() ==> #[trigger] cd.spec_entries()[i].offset
                + cd.spec_entries()[i].length <= #[trigger] cd.spec_entries()[j].offset,
{
    let entries = cd.spec_entries();
    assert forall|i: int, j: int| 0 <= i < j < entries.len() implies #[trigger] entries[i].offset
        + entries[i].length <= #[trigger] entries[j].offset by {
        assert(forall|k: int| 0 <= k < entries.len() ==> #[trigger] entries[k].length >= 0);
        lemma_total_take_succ(entries, i);
        lemma_total_monotone(entries, i + 1, j);
    }
}

} // verus!
