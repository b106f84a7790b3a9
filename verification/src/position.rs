use vstd::prelude::*;

verus! {

/// The last-read byte offset into the watched file.
///
/// An offset of zero is the sentinel meaning "uninitialized": the tailer has
/// not yet performed its first read. On every successful read the tailer sets
/// the offset to the file's length at the time of that read.
pub struct PositionStore {
    offset: u64,
}

impl View for PositionStore {
    type V = u64;

    closed spec fn view(&self) -> u64 {
        self.offset
    }
}

impl PositionStore {
    /// A fresh store, holding the sentinel offset zero.
    pub fn new() -> (s: Self)
        ensures
            s@ == 0,
    {
        PositionStore { offset: 0 }
    }

    pub fn get(&self) -> (r: u64)
        ensures
            r == self@,
    {
        self.offset
    }

    pub fn set(&mut self, offset: u64)
        ensures
            final(self)@ == offset,
    {
        self.offset = offset;
    }
}

} // verus!
