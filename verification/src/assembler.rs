//! Instruction emitter: a stateful byte buffer offering named macro
//! operations. The running length counter always equals the number of
//! bytes in the buffer; the ELF writer trusts this counter for its offset
//! arithmetic.

use crate::asm_macro as asm_macros;
use crate::constdata::ConstData;
use crate::strutil::str_eq;
use vstd::prelude::*;

verus! {

/// The growable instruction buffer, its running length, and a read-only
/// view of the constant pool used to resolve literal addresses.
pub struct Assembler<'a> {
    pub output: Vec<u8>,
    pub length: u64,
    pub const_data: &'a ConstData,
}

impl<'a> Assembler<'a> {
    /// The length counter equals the number of bytes emitted.
    pub open spec fn wf(&self) -> bool {
        self.length as int == self.output@.len()
    }

    /// Emit the process-exit sequence (22 bytes).
    pub fn exit(&mut self)
        requires
            old(self).wf(),
            old(self).output@.len() + 22 <= u64::MAX,
        ensures
            final(self).wf(),
            final(self).output@ == old(self).output@ + asm_macros::spec_exit_bytes(),
            final(self).length == old(self).length + 22,
            final(self).const_data == old(self).const_data,
    {
        self.length = self.length + asm_macros::exit(&mut self.output);
    }

    /// Emit the print-string sequence (32 bytes) for `str_len` bytes at
    /// absolute address `str_offset`.
    pub fn print_str(&mut self, str_offset: u64, str_len: u64)
        requires
            old(self).wf(),
            old(self).output@.len() + 32 <= u64::MAX,
        ensures
            final(self).wf(),
            final(self).output@ == old(self).output@ + asm_macros::spec_print_str_bytes(
                str_offset,
                str_len,
            ),
            final(self).length == old(self).length + 32,
            final(self).const_data == old(self).const_data,
    {
        self.length = self.length + asm_macros::print_str(&mut self.output, str_offset, str_len);
    }

    /// Realize a built-in call. `print` resolves its argument literal in
    /// the constant pool and emits the print-string sequence; any other
    /// name emits nothing.
    pub fn builtin_function(&mut self, func_name: &str, param: &str)
        requires
            old(self).wf(),
            old(self).const_data.wf(),
            func_name@ == "print"@ ==> {
                &&& old(self).const_data.spec_contains(param@)
                &&& old(self).const_data.spec_base() + old(self).const_data.spec_offset_of(param@)
                    <= u64::MAX
                &&& old(self).output@.len() + 32 <= u64::MAX
            },
        ensures
            final(self).wf(),
            final(self).const_data == old(self).const_data,
            func_name@ == "print"@ ==> final(self).output@ == old(self).output@
                + asm_macros::spec_print_str_bytes(
                old(self).const_data.spec_address_of(param@) as u64,
                old(self).const_data.spec_length_of(param@) as u64,
            ),
            func_name@ != "print"@ ==> *final(self) == *old(self),
    {
        if str_eq(func_name, "print") {
            let index = self.const_data.get_const_address(param);
            let length = self.const_data.get_const_length(param);
            self.print_str(index, length);
        }
    }

    /// Realize a variable assignment: emit the store-integer sequence (20
    /// bytes) targeting the address just past the recorded constants. The
    /// variable's name does not yet pick a distinct storage slot.
    pub fn assignment_statement(&mut self, variable: &str, value: u64)
        requires
            old(self).wf(),
            old(self).const_data.wf(),
            old(self).const_data.spec_base() + old(self).const_data.spec_data().len() <= u64::MAX,
            old(self).output@.len() + 20 <= u64::MAX,
        ensures
            final(self).wf(),
            final(self).const_data == old(self).const_data,
            final(self).output@ == old(self).output@ + asm_macros::spec_store_int_bytes(
                old(self).const_data.spec_end_of_section() as u64,
                value,
            ),
            final(self).length == old(self).length + 20,
    {
        let offset: u64 = self.const_data.get_end_of_section();
        self.length = self.length + asm_macros::store_int(&mut self.output, offset, value);
    }

    /// The running emitted-length counter.
    pub fn get_length(&self) -> (length: u64)
        ensures
            length == self.length,
    {
        self.length
    }

    /// The emitted instruction bytes.
    pub fn get_output(&self) -> (output: &Vec<u8>)
        ensures
            output@ == self.output@,
    {
        &self.output
    }
}

} // verus!
