use vstd::prelude::*;

use crate::position::PositionStore;

verus! {

/// Why a read of the watched file had to be abandoned.
///
/// The watched file is assumed to be append-only. A stored offset that lies
/// more than one byte past the end of the file means the file shrank or was
/// replaced; the read is abandoned and the offset left unchanged, so the next
/// cycle retries from the same point.
#[derive(Debug, Clone, Copy, PartialEq, Eq, Structural)]
pub enum TailError {
    SeekOutOfRange,
}

/// Return the newly available bytes of the watched file and advance the
/// stored offset.
///
/// `file` is the file's full contents at the time of the read.
///
/// First-poll rule: a stored offset of zero (the "uninitialized" sentinel)
/// yields empty text and sets the offset to the file's current length, so
/// content that existed before watching began is never replayed.
///
/// Steady-state rule: a stored offset of `n >= 1` yields the bytes from
/// position `n - 1` (one byte before the recorded position) to end-of-file,
/// and sets the offset to the file's current length.
///
/// On error the offset is left unchanged.
pub fn read_new(file: &Vec<u8>, store: &mut PositionStore) -> (r: Result<
    Vec<u8>,
    TailError,
>)
    ensures
        old(store)@ == 0 ==> (r matches Ok(t) && t@.len() == 0 && final(store)@ as int
            == file@.len() as int),
        1 <= old(store)@ && old(store)@ as int - 1 <= file@.len() as int ==> (r matches Ok(t)
            && t@ == file@.subrange(old(store)@ as int - 1, file@.len() as int)
            && final(store)@ as int == file@.len() as int),
        old(store)@ as int - 1 > file@.len() as int ==> (r matches Err(e) && e
            == TailError::SeekOutOfRange && final(store)@ == old(store)@),
        r is Ok && old(store)@ as int <= file@.len() as int ==> final(store)@ >= old(store)@,
{
    let len: usize = file.len();
    let offset: u64 = store.get();
    if offset == 0 {
        store.set(len as u64);
        return Ok(Vec::new());
    }
    if offset - 1 > len as u64 {
        return Err(TailError::SeekOutOfRange);
    }
    let start: usize = (offset - 1) as usize;
    let mut tail: Vec<u8> = Vec::new();
    let mut i: usize = start;
    while i < len
        invariant
            start <= i <= len,
            len == file@.len(),
            tail@ == file@.subrange(start as int, i as int),
        decreases len - i,
    {
        assert(file@.subrange(start as int, i as int + 1) =~= file@.subrange(
            start as int,
            i as int,
        ).push(file@[i as int]));
        tail.push(file[i]);
        i += 1;
    }
    store.set(len as u64);
    Ok(tail)
}

} // verus!
