//! The buffer that string reads from the device are copied into, with a
//! guard pattern behind it that shows whether the driver wrote past its end.
use vstd::prelude::*;

verus! {

/// Number of bytes a string read may fill.
pub const STRING_BUFFER_LENGTH: usize = 30;

/// The guard pattern behind the buffer.
pub open spec fn overflow_guard() -> Seq<u8> {
    seq![0b10011001u8, 0b10101010u8, 0b11111111u8, 0b10010010u8]
}

/// The buffer handed to a string read: 30 zero bytes followed by the guard
/// pattern.
pub fn guarded_buffer() -> (data: Vec<u8>)
    ensures
        data@ == Seq::new(STRING_BUFFER_LENGTH as nat, |i: int| 0u8) + overflow_guard(),
{
    let mut data: Vec<u8> = Vec::new();
    let mut i: usize = 0;
    while i < STRING_BUFFER_LENGTH
        invariant
            0 <= i <= STRING_BUFFER_LENGTH,
            data@ == Seq::new(i as nat, |k: int| 0u8),
        decreases STRING_BUFFER_LENGTH - i,
    {
        data.push(0);
        i = i + 1;
        assert(data@ =~= Seq::new(i as nat, |k: int| 0u8));
    }
    data.push(0b10011001);
    data.push(0b10101010);
    data.push(0b11111111);
    data.push(0b10010010);
    assert(data@ =~= Seq::new(STRING_BUFFER_LENGTH as nat, |i: int| 0u8) + overflow_guard());
    data
}

/// The bytes the driver wrote, when the guard pattern behind them is
/// intact; `None` when it was overwritten (a buffer overflow).
pub fn strip_overflow_guard(data: Vec<u8>) -> (res: Option<Vec<u8>>)
    ensures
        data@.len() >= 4 && data@.subrange(data@.len() - 4, data@.len() as int)
            == overflow_guard() <==> res is Some,
        res matches Some(bytes) ==> bytes@ == data@.subrange(0, data@.len() - 4),
{
    let n = data.len();
    if n < 4 {
        return None;
    }
    let intact = data[n - 4] == 0b10011001 && data[n - 3] == 0b10101010 && data[n - 2]
        == 0b11111111 && data[n - 1] == 0b10010010;
    let ghost tail = data@.subrange(n - 4, n as int);
    if !intact {
        assert(tail != overflow_guard()) by {
            if tail == overflow_guard() {
                assert(tail[0] == data@[n - 4]);
                assert(tail[1] == data@[n - 3]);
                assert(tail[2] == data@[n - 2]);
                assert(tail[3] == data@[n - 1]);
            }
        }
        return None;
    }
    assert(tail =~= overflow_guard());
    let mut bytes = data;
    bytes.truncate(n - 4);
    Some(bytes)
}

/// A buffer that the driver filled within its bounds passes the check and
/// yields its 30 bytes.
pub proof fn lemma_guard_round_trip(filled: Seq<u8>)
    requires
        filled.len() == STRING_BUFFER_LENGTH,
    ensures
        ({
            let data = filled + overflow_guard();
            data.subrange(data.len() - 4, data.len() as int) == overflow_guard() && data.subrange(
                0,
                data.len() - 4,
            ) == filled
        }),
{
    let data = filled + overflow_guard();
    assert(data.subrange(data.len() - 4, data.len() as int) =~= overflow_guard());
    assert(data.subrange(0, data.len() - 4) =~= filled);
}

} // verus!
