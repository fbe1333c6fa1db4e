//! Walking the registry entries of a service class.

use crate::error::{Failure, WithError};
use crate::text::{c_string, lossy_text, until_nul};
use vstd::prelude::*;
use vstd::utf8::*;

verus! {

/// The size of the buffer that a registry name is read into.
pub const NAME_SIZE: usize = 128;

/// A walk over the entries of one service class: the kernel's iterator, which
/// the walk's owner releases at its end. The entries that the walk hands out
/// belong to whoever takes them.
pub struct IOServiceIterator {
    existing: u32,
}

impl IOServiceIterator {
    /// The kernel's iterator.
    pub closed spec fn handle(&self) -> u32 {
        self.existing
    }

    /// Takes in what the matching call returned: its code and the iterator.
    pub fn new(rs: i32, existing: u32) -> (r: WithError<IOServiceIterator>)
        ensures
            rs != 0 ==> r is Err && r->Err_0 == Failure::NotFound,
            rs == 0 ==> r is Ok && r->Ok_0.handle() == existing,
    {
        if rs != 0 {
            return Err(Failure::NotFound);
        }
        Ok(IOServiceIterator { existing })
    }

    /// The kernel's iterator.
    pub fn existing(&self) -> (h: u32)
        ensures
            h == self.handle(),
    {
        self.existing
    }

    /// What the walk yields for the entry that the kernel gave next: nothing
    /// for the entry 0, which ends the walk, and nothing where the name could
    /// not be read (`name_rs` is not 0); else the entry with its name, the C
    /// string in `name`.
    pub fn next(&self, entry: u32, name_rs: i32, name: &[u8]) -> (r: Option<(u32, String)>)
        ensures
            r is Some <==> entry != 0 && name_rs == 0,
            r is Some ==> r->Some_0.0 == entry && r->Some_0.1@ == lossy_text(until_nul(name@)),
            r is Some && valid_utf8(until_nul(name@)) ==> r->Some_0.1@ == decode_utf8(
                until_nul(name@),
            ),
    {
        if entry == 0 {
            return None;
        }
        if name_rs != 0 {
            return None;
        }
        Some((entry, c_string(name)))
    }
}

} // verus!
