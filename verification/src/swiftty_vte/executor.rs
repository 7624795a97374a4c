use vstd::prelude::*;

use super::param::Params;
use super::parser::DispatchV;

verus! {

/// The parameter strings of an OSC dispatch as values.
pub open spec fn osc_strings(params: Seq<&[u8]>) -> Seq<Seq<u8>> {
    params.map_values(|p: &[u8]| p@)
}

/// Receives what the parser recognizes in the byte stream.
///
/// `dispatched` is the record of what an executor has received so far,
/// oldest first: each method adds what it was handed. An implementation
/// that does not define the record (the closed default is always empty)
/// does not meet these contracts.
pub trait Executor {
    closed spec fn dispatched(&self) -> Seq<DispatchV> {
        Seq::empty()
    }

    /// A character to display.
    fn print(&mut self, c: char)
        ensures
            final(self).dispatched() == old(self).dispatched().push(DispatchV::Print(c)),
    ;

    /// A C0 or C1 control function to execute.
    fn execute(&mut self, byte: u8)
        ensures
            final(self).dispatched() == old(self).dispatched().push(DispatchV::Execute(byte)),
    ;

    /// A byte of the data string of a device control string.
    fn put(&mut self, byte: u8)
        ensures
            final(self).dispatched() == old(self).dispatched().push(DispatchV::Put(byte)),
    ;

    /// The header of a device control string was read.
    fn hook(&mut self, params: &Params, intermediates: &[u8], ignore: bool, action: char)
        ensures
            final(self).dispatched() == old(self).dispatched().push(
                DispatchV::Hook { params: params@, intermediates: intermediates@, ignore, action },
            ),
    ;

    /// A device control string ended.
    fn unhook(&mut self)
        ensures
            final(self).dispatched() == old(self).dispatched().push(DispatchV::Unhook),
    ;

    /// An operating system command ended.
    fn osc_dispatch(&mut self, params: &[&[u8]], bell_terminated: bool)
        ensures
            final(self).dispatched() == old(self).dispatched().push(
                DispatchV::Osc { params: osc_strings(params@), bell_terminated },
            ),
    ;

    /// An escape sequence ended.
    fn esc_dispatch(&mut self, intermediates: &[u8], ignore: bool, byte: u8)
        ensures
            final(self).dispatched() == old(self).dispatched().push(
                DispatchV::Esc { intermediates: intermediates@, ignore, byte },
            ),
    ;

    /// A control sequence ended.
    fn csi_dispatch(&mut self, params: &Params, intermediates: &[u8], ignore: bool, action: char)
        ensures
            final(self).dispatched() == old(self).dispatched().push(
                DispatchV::Csi { params: params@, intermediates: intermediates@, ignore, action },
            ),
    ;
}

} // verus!
