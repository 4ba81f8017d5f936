//! Cursors in byte contents: what a read takes, what a write leaves, and
//! where a seek goes.

use crate::node::SeekFrom;
use vstd::prelude::*;

verus! {

/// How many bytes a read takes: what is left behind the cursor, as far as
/// there is room for it.
pub open spec fn read_amount(len: nat, cursor: nat, room: nat) -> nat {
    if cursor >= len {
        0
    } else if len - cursor <= room {
        (len - cursor) as nat
    } else {
        room
    }
}

/// A buffer after a read: the bytes that the read takes at its front, and
/// behind them what the buffer held.
pub open spec fn filled_by(content: Seq<u8>, cursor: nat, room: Seq<u8>) -> Seq<u8> {
    let amount = read_amount(content.len(), cursor, room.len());
    if amount == 0 {
        room
    } else {
        content.subrange(cursor as int, (cursor + amount) as int) + room.skip(amount as int)
    }
}

/// The content after a write at the cursor: written over what is there and
/// on beyond the end. A cursor behind the end writes at the end.
pub open spec fn written(content: Seq<u8>, cursor: nat, data: Seq<u8>) -> Seq<u8> {
    if cursor >= content.len() {
        content + data
    } else if cursor + data.len() <= content.len() {
        content.subrange(0, cursor as int) + data + content.subrange(
            (cursor + data.len()) as int,
            content.len() as int,
        )
    } else {
        content.subrange(0, cursor as int) + data
    }
}

/// The cursor after a write: behind what was written.
pub open spec fn written_cursor(content: Seq<u8>, cursor: nat, data: Seq<u8>) -> nat {
    if cursor >= content.len() {
        content.len() + data.len()
    } else {
        cursor + data.len()
    }
}

/// Where a seek leaves the cursor: the place asked for, held within the
/// content.
pub open spec fn seek_target(len: nat, cursor: nat, pos: SeekFrom) -> nat {
    match pos {
        SeekFrom::Start(place) => if place > len {
            len
        } else {
            place as nat
        },
        SeekFrom::End(offset) => if offset > 0 {
            len
        } else if -offset > len {
            0
        } else {
            (len + offset) as nat
        },
        SeekFrom::Current(offset) => if cursor + offset < 0 {
            0
        } else if cursor + offset > len {
            len
        } else {
            (cursor + offset) as nat
        },
    }
}

/// What is left of a content behind a cursor.
pub open spec fn rest(content: Seq<u8>, cursor: nat) -> Seq<u8> {
    if cursor >= content.len() {
        Seq::empty()
    } else {
        content.skip(cursor as int)
    }
}

/// Copies what a read takes from a content into the front of a buffer.
pub fn copy_out(content: &Vec<u8>, cursor: usize, buf: &mut [u8]) -> (amount: usize)
    ensures
        amount == read_amount(content@.len(), cursor as nat, old(buf)@.len()),
        cursor + amount <= usize::MAX,
        final(buf)@ == filled_by(content@, cursor as nat, old(buf)@),
{
    let total = content.len();
    if cursor >= total {
        return 0;
    }
    let left = total - cursor;
    let amount = if left <= buf.len() {
        left
    } else {
        buf.len()
    };
    let mut i: usize = 0;
    while i < amount
        invariant
            i <= amount,
            total == content@.len(),
            cursor + amount <= total,
            amount <= buf@.len(),
            buf@.len() == old(buf)@.len(),
            forall|j: int| 0 <= j < i ==> buf@[j] == content@[cursor + j],
            forall|j: int| i <= j < buf@.len() ==> buf@[j] == old(buf)@[j],
        decreases amount - i,
    {
        buf[i] = content[cursor + i];
        i += 1;
    }
    assert(buf@ =~= filled_by(content@, cursor as nat, old(buf)@));
    amount
}

/// Writes data into a content at a cursor, as `written` says.
pub fn splice(content: &mut Vec<u8>, cursor: usize, data: &[u8])
    ensures
        final(content)@ == written(old(content)@, cursor as nat, data@),
{
    let start = if cursor >= content.len() {
        content.len()
    } else {
        cursor
    };
    let mut i: usize = 0;
    while i < data.len()
        invariant
            i <= data@.len(),
            start <= old(content)@.len(),
            start + i <= content@.len(),
            content@.len() == (if start + i <= old(content)@.len() {
                old(content)@.len() as int
            } else {
                start + i
            }),
            forall|j: int| 0 <= j < start ==> content@[j] == old(content)@[j],
            forall|j: int| start <= j < start + i ==> content@[j] == data@[j - start],
            forall|j: int| start + i <= j < old(content)@.len() ==> content@[j] == old(content)@[j],
        decreases data@.len() - i,
    {
        let total = content.len();
        let at = start + i;
        if at < total {
            content[at] = data[i];
        } else {
            content.push(data[i]);
        }
        i += 1;
    }
    assert(content@ =~= written(old(content)@, cursor as nat, data@));
}

/// Where a seek leaves a cursor, as `seek_target` says.
pub fn seek_to(len: usize, cursor: usize, pos: SeekFrom) -> (r: usize)
    ensures
        r == seek_target(len as nat, cursor as nat, pos),
{
    match pos {
        SeekFrom::Start(place) => {
            if place > len as u64 {
                len
            } else {
                place as usize
            }
        },
        SeekFrom::End(offset) => {
            if offset > 0 {
                len
            } else {
                let back: u64 = if offset == i64::MIN {
                    0x8000_0000_0000_0000u64
                } else {
                    (-offset) as u64
                };
                if back > len as u64 {
                    0
                } else {
                    len - back as usize
                }
            }
        },
        SeekFrom::Current(offset) => {
            if offset >= 0 {
                let on: u64 = offset as u64;
                if cursor >= len {
                    len
                } else if on > (len - cursor) as u64 {
                    len
                } else {
                    cursor + on as usize
                }
            } else {
                let back: u64 = if offset == i64::MIN {
                    0x8000_0000_0000_0000u64
                } else {
                    (-offset) as u64
                };
                if back > cursor as u64 {
                    0
                } else {
                    let place = cursor - back as usize;
                    if place > len {
                        len
                    } else {
                        place
                    }
                }
            }
        },
    }
}

} // verus!
