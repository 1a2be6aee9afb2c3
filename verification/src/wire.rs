//! The fields packets are made of: bytes, big-endian 16-bit numbers,
//! length-prefixed blocks of bytes and length-prefixed UTF-8 text.
//!
//! A reader is stated as a function from a byte sequence to the value at its
//! front and the bytes that follow it.

use vstd::prelude::*;
use vstd::slice::*;
use vstd::string::*;
use vstd::utf8::*;
use crate::error::DecodeError;

verus! {

/// The longest block or text, in bytes, that a length prefix can announce.
pub const MAX_FIELD_LENGTH: usize = 65_535;

/// A 16-bit number on the wire: its high byte, then its low byte.
pub open spec fn encode_u16(x: u16) -> Seq<u8> {
    seq![(x / 256) as u8, (x % 256) as u8]
}

/// The byte at the front, if there is one.
pub open spec fn take_u8(b: Seq<u8>) -> Option<(u8, Seq<u8>)> {
    if b.len() >= 1 {
        Some((b[0], b.skip(1)))
    } else {
        None
    }
}

/// The 16-bit number at the front, if two bytes are there.
pub open spec fn take_u16(b: Seq<u8>) -> Option<(u16, Seq<u8>)> {
    if b.len() >= 2 {
        Some(((b[0] * 256 + b[1]) as u16, b.skip(2)))
    } else {
        None
    }
}

/// A block on the wire: its length, then its bytes.
pub open spec fn encode_block(data: Seq<u8>) -> Seq<u8> {
    encode_u16(data.len() as u16) + data
}

/// The block at the front, if its length and as many bytes as the length
/// announces are there.
pub open spec fn take_block(b: Seq<u8>) -> Option<(Seq<u8>, Seq<u8>)> {
    match take_u16(b) {
        Some((n, rest)) => if rest.len() >= n {
            Some((rest.take(n as int), rest.skip(n as int)))
        } else {
            None
        },
        None => None,
    }
}

/// Text on the wire: the block of its UTF-8 bytes.
pub open spec fn encode_text(text: Seq<char>) -> Seq<u8> {
    encode_block(encode_utf8(text))
}

/// The text at the front: the block at the front, read as UTF-8. Without a
/// whole block there the packet is malformed; a block that is not UTF-8 is
/// an error of its own.
#[verifier::opaque]
pub open spec fn take_text(b: Seq<u8>) -> Result<(Seq<char>, Seq<u8>), DecodeError> {
    match take_block(b) {
        Some((raw, rest)) => if valid_utf8(raw) {
            Ok((decode_utf8(raw), rest))
        } else {
            Err(DecodeError::InvalidUtf8)
        },
        None => Err(DecodeError::MalformedPacket),
    }
}

/// Whether a text fits behind a length prefix.
pub open spec fn text_fits(text: Seq<char>) -> bool {
    encode_utf8(text).len() <= MAX_FIELD_LENGTH
}

/// Whether a block fits behind a length prefix.
pub open spec fn block_fits(data: Seq<u8>) -> bool {
    data.len() <= MAX_FIELD_LENGTH
}

pub(crate) fn write_u16(out: &mut Vec<u8>, x: u16)
    ensures
        final(out)@ == old(out)@ + encode_u16(x),
{
    let ghost before = out@;
    out.push((x / 256) as u8);
    out.push((x % 256) as u8);
    assert(out@ =~= before + encode_u16(x));
}

pub(crate) fn write_block(out: &mut Vec<u8>, data: &[u8])
    requires
        block_fits(data@),
    ensures
        final(out)@ == old(out)@ + encode_block(data@),
{
    let ghost before = out@;
    write_u16(out, data.len() as u16);
    out.extend_from_slice(data);
    assert(out@ =~= before + encode_block(data@));
}

pub(crate) fn write_text(out: &mut Vec<u8>, text: &str)
    requires
        text_fits(text@),
    ensures
        final(out)@ == old(out)@ + encode_text(text@),
{
    write_block(out, text.as_bytes());
}

pub(crate) fn read_u8(buf: &[u8], pos: usize) -> (r: Option<(u8, usize)>)
    requires
        pos <= buf.len(),
    ensures
        match take_u8(buf@.skip(pos as int)) {
            Some((x, rest)) => r matches Some((y, next)) && y == x && pos < next <= buf.len()
                && rest == buf@.skip(next as int),
            None => r is None,
        },
{
    if buf.len() - pos >= 1 {
        assert(buf@.skip(pos as int).skip(1) =~= buf@.skip(pos + 1));
        Some((buf[pos], pos + 1))
    } else {
        None
    }
}

pub(crate) fn read_u16(buf: &[u8], pos: usize) -> (r: Option<(u16, usize)>)
    requires
        pos <= buf.len(),
    ensures
        match take_u16(buf@.skip(pos as int)) {
            Some((x, rest)) => r matches Some((y, next)) && y == x && pos < next <= buf.len()
                && rest == buf@.skip(next as int),
            None => r is None,
        },
{
    if buf.len() - pos >= 2 {
        assert(buf@.skip(pos as int).skip(2) =~= buf@.skip(pos + 2));
        let hi: u16 = buf[pos] as u16;
        let lo: u16 = buf[pos + 1] as u16;
        Some((hi * 256 + lo, pos + 2))
    } else {
        None
    }
}

pub(crate) fn read_block<'a>(buf: &'a [u8], pos: usize) -> (r: Option<(&'a [u8], usize)>)
    requires
        pos <= buf.len(),
    ensures
        match take_block(buf@.skip(pos as int)) {
            Some((data, rest)) => r matches Some((found, next)) && found@ == data && pos < next
                <= buf.len() && rest == buf@.skip(next as int),
            None => r is None,
        },
{
    match read_u16(buf, pos) {
        Some((n, start)) => {
            let n: usize = n as usize;
            if buf.len() - start >= n {
                let found = slice_subrange(buf, start, start + n);
                assert(found@ =~= buf@.skip(start as int).take(n as int));
                assert(buf@.skip(start as int).skip(n as int) =~= buf@.skip(start + n));
                Some((found, start + n))
            } else {
                None
            }
        },
        None => None,
    }
}

/// `core::str::from_utf8`, with its error dropped: the bytes are handed back
/// as text exactly when they are well-formed UTF-8, and the text then has
/// those very bytes.
#[verifier::external_body]
pub(crate) fn utf8_text(bytes: &[u8]) -> (text: Option<&str>)
    ensures
        text is Some <==> valid_utf8(bytes@),
        text matches Some(t) ==> t.spec_bytes() == bytes@,
{
    core::str::from_utf8(bytes).ok()
}

pub(crate) fn read_text(buf: &[u8], pos: usize) -> (r: Result<(String, usize), DecodeError>)
    requires
        pos <= buf.len(),
    ensures
        match take_text(buf@.skip(pos as int)) {
            Ok((text, rest)) => r matches Ok((found, next)) && found@ == text && pos < next
                <= buf.len() && rest == buf@.skip(next as int),
            Err(e) => r == Err::<(String, usize), DecodeError>(e),
        },
{
    proof {
        reveal(take_text);
    }
    match read_block(buf, pos) {
        Some((raw, next)) => match utf8_text(raw) {
            Some(t) => {
                proof {
                    encode_utf8_decode_utf8(t@);
                }
                Ok((t.to_owned(), next))
            },
            None => Err(DecodeError::InvalidUtf8),
        },
        None => Err(DecodeError::MalformedPacket),
    }
}

/// Text at the front of a sequence takes at least its two bytes of length.
pub proof fn lemma_text_consumes(b: Seq<u8>)
    ensures
        take_text(b) matches Ok((_, rest)) ==> rest.len() + 2 <= b.len(),
{
    reveal(take_text);
}

/// A number that was written is read back, and what follows it is left.
pub proof fn lemma_u16_roundtrip(x: u16, rest: Seq<u8>)
    ensures
        take_u16(encode_u16(x) + rest) == Some((x, rest)),
{
    let b = encode_u16(x) + rest;
    assert(b[0] == (x / 256) as u8);
    assert(b[1] == (x % 256) as u8);
    assert(b.skip(2) =~= rest);
}

/// A block that was written is read back, and what follows it is left.
pub proof fn lemma_block_roundtrip(data: Seq<u8>, rest: Seq<u8>)
    requires
        block_fits(data),
    ensures
        take_block(encode_block(data) + rest) == Some((data, rest)),
{
    let n = data.len() as u16;
    assert(encode_block(data) + rest =~= encode_u16(n) + (data + rest));
    lemma_u16_roundtrip(n, data + rest);
    assert((data + rest).take(n as int) =~= data);
    assert((data + rest).skip(n as int) =~= rest);
}

/// A text that was written is read back, and what follows it is left.
pub proof fn lemma_text_roundtrip(text: Seq<char>, rest: Seq<u8>)
    requires
        text_fits(text),
    ensures
        take_text(encode_text(text) + rest) == Ok::<(Seq<char>, Seq<u8>), DecodeError>(
            (text, rest),
        ),
{
    reveal(take_text);
    lemma_block_roundtrip(encode_utf8(text), rest);
    encode_utf8_valid_utf8(text);
    encode_utf8_decode_utf8(text);
}

} // verus!
