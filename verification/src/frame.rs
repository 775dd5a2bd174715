//! The length-prefixed frame that carries one message: a byte that flags
//! compression, the length of the message in four bytes, most significant
//! first, and the message.

use vstd::prelude::*;
use vstd::slice::slice_subrange;
use crate::error::{LogicError, LogicErrorView};

verus! {

/// How many bytes of a frame stand before its message.
pub const PREFIX_LENGTH: usize = 5;

/// The number that four bytes write, most significant first.
pub open spec fn big_endian_value(bytes: Seq<u8>) -> nat
    recommends
        bytes.len() == 4,
{
    (bytes[0] * 0x100_0000 + bytes[1] * 0x1_0000 + bytes[2] * 0x100 + bytes[3]) as nat
}

/// The four bytes that write `n`, most significant first.
pub open spec fn big_endian(n: nat) -> Seq<u8>
    recommends
        n <= u32::MAX,
{
    seq![
        (n / 0x100_0000) as u8,
        (n / 0x1_0000 % 0x100) as u8,
        (n / 0x100 % 0x100) as u8,
        (n % 0x100) as u8,
    ]
}

/// The frame of `message`, which is not flagged compressed.
pub open spec fn framed(message: Seq<u8>) -> Result<Seq<u8>, LogicErrorView> {
    if message.len() <= u32::MAX {
        Ok(seq![0u8] + big_endian(message.len()) + message)
    } else {
        Err(LogicErrorView::Oversized)
    }
}

/// The first message in `body`, and whether it is flagged compressed.
pub open spec fn unframed(body: Seq<u8>) -> Result<(Seq<u8>, bool), LogicErrorView> {
    if body.len() < PREFIX_LENGTH {
        Err(LogicErrorView::ShortPrefix)
    } else {
        let length = big_endian_value(body.subrange(1, 5));
        if body.len() < PREFIX_LENGTH + length {
            Err(LogicErrorView::ShortFrame { length: length as u32 })
        } else {
            Ok((body.subrange(5, (5 + length) as int), body[0] != 0))
        }
    }
}

/// The first message in a length-prefixed body, and whether it was flagged
/// compressed.
pub fn unframe(body: &[u8]) -> (read: Result<(&[u8], bool), LogicError>)
    ensures
        match read {
            Ok((message, compressed)) => unframed(body@) == Ok::<(Seq<u8>, bool), LogicErrorView>(
                (message@, compressed),
            ),
            Err(error) => unframed(body@) == Err::<(Seq<u8>, bool), LogicErrorView>(error@),
        },
{
    if body.len() < PREFIX_LENGTH {
        return Err(LogicError::ShortPrefix);
    }
    let length: u32 = body[1] as u32 * 0x100_0000 + body[2] as u32 * 0x1_0000 + body[3] as u32
        * 0x100 + body[4] as u32;
    if (body.len() - PREFIX_LENGTH) < length as usize {
        return Err(LogicError::ShortFrame { length });
    }
    let message = slice_subrange(body, PREFIX_LENGTH, PREFIX_LENGTH + length as usize);
    Ok((message, body[0] != 0))
}

/// The frame of a message.
pub fn frame(message: &[u8]) -> (written: Result<Vec<u8>, LogicError>)
    ensures
        match written {
            Ok(bytes) => framed(message@) == Ok::<Seq<u8>, LogicErrorView>(bytes@),
            Err(error) => framed(message@) == Err::<Seq<u8>, LogicErrorView>(error@),
        },
{
    if message.len() as u64 > u32::MAX as u64 {
        return Err(LogicError::Oversized);
    }
    let length: u32 = message.len() as u32;
    let mut bytes: Vec<u8> = Vec::new();
    bytes.push(0);
    bytes.push((length / 0x100_0000) as u8);
    bytes.push((length / 0x1_0000 % 0x100) as u8);
    bytes.push((length / 0x100 % 0x100) as u8);
    bytes.push((length % 0x100) as u8);
    bytes.extend_from_slice(message);
    assert(bytes@ =~= seq![0u8] + big_endian(message@.len()) + message@);
    Ok(bytes)
}

} // verus!
