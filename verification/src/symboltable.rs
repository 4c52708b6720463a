//! Symbol table: records each variable's name bytes, placement and type
//! within a future symbol storage area. Re-inserting a name appends fresh
//! storage and makes the new record the one lookups find.

use crate::strutil::str_eq;
use vstd::prelude::*;
use vstd::string::StrSliceExecFns;
use vstd::string::StringSliceAdditionalSpecFns;
use vstd::utf8::encode_utf8;

verus! {

/// The type a recorded variable holds.
#[derive(Debug, PartialEq, Eq, Structural, Clone, Copy)]
pub enum VariableType {
    Integer,
}

/// The record kept for one inserted variable.
pub ghost struct SymbolEntryModel {
    pub name: Seq<char>,
    pub offset: int,
    pub length: int,
    pub var_type: VariableType,
}

/// The sum of the lengths recorded by `entries`.
pub open spec fn symbols_total_length(entries: Seq<SymbolEntryModel>) -> int
    decreases entries.len(),
{
    if entries.len() == 0 {
        0
    } else {
        symbols_total_length(entries.drop_last()) + entries.last().length
    }
}

/// The index of the latest entry recording `name`, or -1 when none does.
pub open spec fn find_last_symbol(entries: Seq<SymbolEntryModel>, name: Seq<char>) -> int
    decreases entries.len(),
{
    if entries.len() == 0 {
        -1
    } else if entries.last().name == name {
        entries.len() - 1
    } else {
        find_last_symbol(entries.drop_last(), name)
    }
}

/// `find_last_symbol` returns -1 exactly when no entry records `name`;
/// otherwise it returns the last index recording it.
pub proof fn lemma_find_last_symbol(entries: Seq<SymbolEntryModel>, name: Seq<char>)
    ensures
        find_last_symbol(entries, name) == -1 <==> (forall|k: int|
            0 <= k < entries.len() ==> entries[k].name != name),
        find_last_symbol(entries, name) != -1 ==> {
            &&& 0 <= find_last_symbol(entries, name) < entries.len()
            &&& entries[find_last_symbol(entries, name)].name == name
            &&& forall|k: int|
                find_last_symbol(entries, name) < k < entries.len() ==> entries[k].name != name
        },
    decreases entries.len(),
{
    if entries.len() == 0 {
    } else if entries.last().name == name {
    } else {
        let rest = entries.drop_last();
        lemma_find_last_symbol(rest, name);
        assert(forall|k: int| 0 <= k < rest.len() ==> rest[k] == entries[k]);
    }
}

struct SymbolEntry {
    name: String,
    offset: u64,
    length: u64,
    var_type: VariableType,
}

/// The table of recorded variables plus their name-byte storage.
pub struct SymbolTable {
    data: Vec<u8>,
    length: u64,
    entries: Vec<SymbolEntry>,
    symbol_section_address: u64,
}

impl SymbolTable {
    /// The recorded entries, in insertion order.
    pub closed spec fn spec_entries(&self) -> Seq<SymbolEntryModel> {
        self.entries@.map_values(
            |e: SymbolEntry|
                SymbolEntryModel {
                    name: e.name@,
                    offset: e.offset as int,
                    length: e.length as int,
                    var_type: e.var_type,
                },
        )
    }

    /// The name-byte storage collected so far.
    pub closed spec fn spec_data(&self) -> Seq<u8> {
        self.data@
    }

    /// The virtual address the symbol storage will be placed at.
    pub closed spec fn spec_base(&self) -> u64 {
        self.symbol_section_address
    }

    /// Whether some entry records `name`.
    pub open spec fn spec_contains(&self, name: Seq<char>) -> bool {
        find_last_symbol(self.spec_entries(), name) >= 0
    }

    /// The offset recorded by the latest entry for `name`.
    pub open spec fn spec_offset_of(&self, name: Seq<char>) -> int {
        self.spec_entries()[find_last_symbol(self.spec_entries(), name)].offset
    }

    /// The length recorded by the latest entry for `name`.
    pub open spec fn spec_length_of(&self, name: Seq<char>) -> int {
        self.spec_entries()[find_last_symbol(self.spec_entries(), name)].length
    }

    /// The type recorded by the latest entry for `name`.
    pub open spec fn spec_type_of(&self, name: Seq<char>) -> VariableType {
        self.spec_entries()[find_last_symbol(self.spec_entries(), name)].var_type
    }

    /// Offsets are assigned cumulatively in insertion order, each entry's
    /// length is the byte length of its name, and the recorded lengths sum
    /// to the storage's total length.
    pub closed spec fn wf(&self) -> bool {
        &&& self.length as int == self.data@.len()
        &&& symbols_total_length(self.spec_entries()) == self.data@.len()
        &&& forall|i: int|
            0 <= i < self.spec_entries().len() ==> {
                let e = #[trigger] self.spec_entries()[i];
                &&& e.offset == symbols_total_length(self.spec_entries().take(i))
                &&& e.length == encode_utf8(e.name).len()
            }
    }

    /// An empty table placed at address zero.
    pub fn new() -> (table: SymbolTable)
        ensures
            table.wf(),
            table.spec_entries() == Seq::<SymbolEntryModel>::empty(),
            table.spec_data() == Seq::<u8>::empty(),
            table.spec_base() == 0,
    {
        let table = SymbolTable {
            data: Vec::new(),
            length: 0,
            entries: Vec::new(),
            symbol_section_address: 0,
        };
        proof {
            assert(table.spec_entries() =~= Seq::<SymbolEntryModel>::empty());
            assert(table.spec_data() =~= Seq::<u8>::empty());
        }
        table
    }

    /// Place the symbol storage at `address`.
    pub fn set_symbol_section_address(&mut self, address: u64)
        ensures
            final(self).spec_base() == address,
            final(self).spec_entries() == old(self).spec_entries(),
            final(self).spec_data() == old(self).spec_data(),
            old(self).wf() ==> final(self).wf(),
    {
        self.symbol_section_address = address;
    }

    /// Record a variable: append its name bytes to the storage and record
    /// their placement and the variable's type.
    pub fn insert(&mut self, var_name: &str, var_type: VariableType)
        requires
            old(self).wf(),
            old(self).spec_data().len() + var_name.spec_bytes().len() <= u64::MAX,
        ensures
            final(self).wf(),
            final(self).spec_base() == old(self).spec_base(),
            final(self).spec_data() == old(self).spec_data() + var_name.spec_bytes(),
            final(self).spec_entries() == old(self).spec_entries().push(
                SymbolEntryModel {
                    name: var_name@,
                    offset: old(self).spec_data().len() as int,
                    length: var_name.spec_bytes().len() as int,
                    var_type,
                },
            ),
            final(self).spec_contains(var_name@),
            final(self).spec_offset_of(var_name@) == old(self).spec_data().len(),
            final(self).spec_length_of(var_name@) == var_name.spec_bytes().len(),
            final(self).spec_type_of(var_name@) == var_type,
    {
        let ghost old_self = *self;
        let ghost new_model = SymbolEntryModel {
            name: var_name@,
            offset: self.data@.len() as int,
            length: var_name.spec_bytes().len() as int,
            var_type,
        };
        let mut var_bytes = var_name.as_bytes_vec();
        let var_length = var_bytes.len() as u64;
        let start_index = self.get_length();
        self.data.append(&mut var_bytes);
        self.length = self.length + var_length;
        let entry = SymbolEntry {
            name: var_name.to_owned(),
            offset: start_index,
            length: var_length,
            var_type,
        };
        self.entries.push(entry);
        proof {
            let new_entries = self.spec_entries();
            let old_entries = old_self.spec_entries();
            assert(new_entries =~= old_entries.push(new_model));
            assert(new_entries.drop_last() =~= old_entries);
            assert forall|i: int| 0 <= i < new_entries.len() implies {
                let e = #[trigger] new_entries[i];
                &&& e.offset == symbols_total_length(new_entries.take(i))
                &&& e.length == encode_utf8(e.name).len()
            } by {
                if i < old_entries.len() {
                    assert(new_entries.take(i) =~= old_entries.take(i));
                    assert(new_entries[i] == old_entries[i]);
                } else {
                    assert(new_entries.take(i) =~= old_entries);
                    assert(new_entries[i] == new_model);
                }
            }
        }
    }

    /// The total byte length of the name storage.
    pub fn get_length(&self) -> (length: u64)
        ensures
            self.wf() ==> length as int == self.spec_data().len(),
    {
        self.length
    }

    fn find_last_index(&self, var: &str) -> (r: Option<usize>)
        ensures
            match r {
                Some(i) => 0 <= i < self.spec_entries().len() && find_last_symbol(
                    self.spec_entries(),
                    var@,
                ) == i,
                None => find_last_symbol(self.spec_entries(), var@) == -1,
            },
    {
        let n = self.entries.len();
        let mut i: usize = n;
        while i > 0
            invariant
                i <= n,
                n == self.entries@.len(),
                forall|k: int| i <= k < n ==> self.spec_entries()[k].name != var@,
            decreases i,
        {
            i = i - 1;
            if str_eq(self.entries[i].name.as_str(), var) {
                proof {
                    assert(self.spec_entries()[i as int].name == var@);
                    lemma_find_last_symbol(self.spec_entries(), var@);
                    let found = find_last_symbol(self.spec_entries(), var@);
                    assert(found != -1);
                    assert(found <= i) by {
                        if found > i as int {
                            assert(self.spec_entries()[found].name != var@);
                        }
                    }
                    assert(found == i as int);
                }
                return Some(i);
            }
        }
        proof {
            lemma_find_last_symbol(self.spec_entries(), var@);
        }
        None
    }

    /// The storage offset recorded for a known variable.
    pub fn get_var_index(&self, var: &str) -> (index: u64)
        requires
            self.wf(),
            self.spec_contains(var@),
        ensures
            index as int == self.spec_offset_of(var@),
    {
        match self.find_last_index(var) {
            Some(i) => self.entries[i].offset,
            None => unreached(),
        }
    }

    /// The name-byte length recorded for a known variable.
    pub fn get_var_length(&self, var: &str) -> (length: u64)
        requires
            self.wf(),
            self.spec_contains(var@),
        ensures
            length as int == self.spec_length_of(var@),
    {
        match self.find_last_index(var) {
            Some(i) => self.entries[i].length,
            None => unreached(),
        }
    }

    /// The type recorded for a known variable.
    pub fn get_var_type(&self, var: &str) -> (var_type: &VariableType)
        requires
            self.wf(),
            self.spec_contains(var@),
        ensures
            *var_type == self.spec_type_of(var@),
    {
        match self.find_last_index(var) {
            Some(i) => &self.entries[i].var_type,
            None => unreached(),
        }
    }
}

} // verus!
