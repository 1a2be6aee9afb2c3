//! The "remaining length" field of the fixed header: a base-128 number of
//! one to four bytes, least significant group first, whose high bit says that
//! another byte follows.

use vstd::prelude::*;
use crate::bits::{lemma_base128_split, lemma_base128_sum};

verus! {

/// The largest remaining length that four bytes can carry.
pub const MAX_REMAINING_LENGTH: u32 = 268_435_455;

/// How many bytes the encoding of `n` takes.
pub open spec fn varint_len(n: nat) -> nat {
    if n < 128 {
        1
    } else if n < 16_384 {
        2
    } else if n < 2_097_152 {
        3
    } else {
        4
    }
}

/// The encoding of `n`, for `n` up to `MAX_REMAINING_LENGTH`.
pub open spec fn encode_varint(n: nat) -> Seq<u8> {
    if n < 128 {
        seq![n as u8]
    } else if n < 16_384 {
        seq![(n % 128 + 128) as u8, (n / 128) as u8]
    } else if n < 2_097_152 {
        seq![(n % 128 + 128) as u8, (n / 128 % 128 + 128) as u8, (n / 16_384) as u8]
    } else {
        seq![
            (n % 128 + 128) as u8,
            (n / 128 % 128 + 128) as u8,
            (n / 16_384 % 128 + 128) as u8,
            (n / 2_097_152) as u8,
        ]
    }
}

/// What the start of a byte sequence says when read as a remaining length.
pub enum VarintRead {
    /// Every byte so far announces another one, and fewer than four are there.
    Incomplete,
    /// The fourth byte announces a fifth.
    Malformed,
    /// The first `used` bytes encode `value`.
    Value { value: nat, used: nat },
}

/// Reads a remaining length from the front of `b`.
pub open spec fn decode_varint(b: Seq<u8>) -> VarintRead {
    if b.len() >= 1 && b[0] < 128 {
        VarintRead::Value { value: b[0] as nat, used: 1 }
    } else if b.len() >= 2 && b[1] < 128 {
        VarintRead::Value { value: (b[0] - 128 + 128 * b[1]) as nat, used: 2 }
    } else if b.len() >= 3 && b[2] < 128 {
        VarintRead::Value {
            value: (b[0] - 128 + 128 * (b[1] - 128) + 16_384 * b[2]) as nat,
            used: 3,
        }
    } else if b.len() >= 4 && b[3] < 128 {
        VarintRead::Value {
            value: (b[0] - 128 + 128 * (b[1] - 128) + 16_384 * (b[2] - 128) + 2_097_152
                * b[3]) as nat,
            used: 4,
        }
    } else if b.len() >= 4 {
        VarintRead::Malformed
    } else {
        VarintRead::Incomplete
    }
}

/// Appends the encoding of `n` to `out`.
pub fn write_varint(out: &mut Vec<u8>, n: u32)
    requires
        n <= MAX_REMAINING_LENGTH,
    ensures
        final(out)@ == old(out)@ + encode_varint(n as nat),
{
    let ghost before = out@;
    proof {
        lemma_base128_split(n);
    }
    if n < 128 {
        out.push(n as u8);
    } else if n < 16_384 {
        out.push((n % 128 + 128) as u8);
        out.push((n / 128) as u8);
    } else if n < 2_097_152 {
        out.push((n % 128 + 128) as u8);
        out.push((n / 128 % 128 + 128) as u8);
        out.push((n / 16_384) as u8);
    } else {
        out.push((n % 128 + 128) as u8);
        out.push((n / 128 % 128 + 128) as u8);
        out.push((n / 16_384 % 128 + 128) as u8);
        out.push((n / 2_097_152) as u8);
    }
    assert(out@ =~= before + encode_varint(n as nat));
}

/// What `read_varint` found: the executable form of `VarintRead`.
pub enum VarintOutcome {
    Incomplete,
    Malformed,
    Value { value: u32, used: usize },
}

impl View for VarintOutcome {
    type V = VarintRead;

    open spec fn view(&self) -> VarintRead {
        match self {
            VarintOutcome::Incomplete => VarintRead::Incomplete,
            VarintOutcome::Malformed => VarintRead::Malformed,
            VarintOutcome::Value { value, used } => VarintRead::Value {
                value: *value as nat,
                used: *used as nat,
            },
        }
    }
}

/// Reads a remaining length from `buf`, starting at `start`.
pub fn read_varint(buf: &[u8], start: usize) -> (r: VarintOutcome)
    requires
        start <= buf.len(),
    ensures
        r@ == decode_varint(buf@.skip(start as int)),
        r matches VarintOutcome::Value { value, used } ==> value <= MAX_REMAINING_LENGTH && 1
            <= used <= 4 && start + used <= buf.len(),
{
    let ghost b = buf@.skip(start as int);
    let avail: usize = buf.len() - start;
    let mut value: u32 = 0;
    let mut scale: u32 = 1;
    let mut i: usize = 0;
    while i < 4 && i < avail
        invariant
            start + avail == buf.len(),
            b == buf@.skip(start as int),
            i <= 4,
            i <= avail,
            forall|j: int| 0 <= j < i ==> b[j] >= 128,
            i == 0 ==> scale == 1 && value == 0,
            i == 1 ==> scale == 128 && value == b[0] - 128,
            i == 2 ==> scale == 16_384 && value == b[0] - 128 + 128 * (b[1] - 128),
            i == 3 ==> scale == 2_097_152 && value == b[0] - 128 + 128 * (b[1] - 128) + 16_384 * (
            b[2] - 128),
        decreases 4 - i,
    {
        let byte: u8 = buf[start + i];
        assert(byte == b[i as int]);
        if byte < 128 {
            return VarintOutcome::Value { value: value + scale * (byte as u32), used: i + 1 };
        }
        value = value + scale * ((byte - 128) as u32);
        if i < 3 {
            scale = scale * 128;
        }
        i = i + 1;
    }
    if i == 4 {
        VarintOutcome::Malformed
    } else {
        VarintOutcome::Incomplete
    }
}

/// A length that is read is at most `MAX_REMAINING_LENGTH`.
pub proof fn lemma_varint_bound(b: Seq<u8>)
    ensures
        decode_varint(b) matches VarintRead::Value { value, used } ==> value
            <= MAX_REMAINING_LENGTH && 1 <= used <= 4 && used <= b.len(),
{
}

/// Reading back what was written gives the number, whatever follows it.
pub proof fn lemma_varint_roundtrip(n: nat, rest: Seq<u8>)
    requires
        n <= MAX_REMAINING_LENGTH,
    ensures
        encode_varint(n).len() == varint_len(n),
        decode_varint(encode_varint(n) + rest) == (VarintRead::Value {
            value: n,
            used: varint_len(n),
        }),
{
    let e = encode_varint(n);
    let b = e + rest;
    lemma_base128_split(n as u32);
    assert(forall|i: int| 0 <= i < e.len() ==> b[i] == e[i]);
}

/// Writing what was read gives back the bytes, where they are as few as the
/// number needs.
pub proof fn lemma_varint_shortest(b: Seq<u8>)
    ensures
        decode_varint(b) matches VarintRead::Value { value, used } ==> (used == varint_len(value)
            ==> encode_varint(value) == b.take(used as int)),
{
    if let VarintRead::Value { value, used } = decode_varint(b) {
        if used == varint_len(value) {
            if used == 1 {
            } else if used == 2 {
                lemma_base128_sum((b[0] - 128) as u8, b[1], 0, 0);
            } else if used == 3 {
                lemma_base128_sum((b[0] - 128) as u8, (b[1] - 128) as u8, b[2], 0);
            } else {
                lemma_base128_sum((b[0] - 128) as u8, (b[1] - 128) as u8, (b[2] - 128) as u8, b[3]);
            }
            assert(encode_varint(value) =~= b.take(used as int));
        }
    }
}

/// A remaining length that can be read from a sequence can be read from
/// any prefix that holds its bytes; a shorter prefix is incomplete, and not
/// malformed.
pub proof fn lemma_varint_prefix(b: Seq<u8>, k: int)
    requires
        decode_varint(b) is Value,
        0 <= k <= b.len(),
    ensures
        k >= decode_varint(b)->used ==> decode_varint(b.take(k)) == decode_varint(b),
        k < decode_varint(b)->used ==> decode_varint(b.take(k)) is Incomplete,
{
    let p = b.take(k);
    assert(forall|i: int| 0 <= i < k ==> p[i] == b[i]);
}

/// Once a remaining length is read, or found malformed, bytes added behind
/// it change nothing.
pub proof fn lemma_varint_stable(b: Seq<u8>, more: Seq<u8>)
    requires
        !(decode_varint(b) is Incomplete),
    ensures
        decode_varint(b + more) == decode_varint(b),
{
    let e = b + more;
    assert(forall|i: int| 0 <= i < b.len() ==> e[i] == b[i]);
}

/// The byte counts at the edges of each length: 0, 127, 128, 16 383, 16 384,
/// 2 097 151, 2 097 152 and 268 435 455 take 1, 1, 2, 2, 3, 3, 4 and 4 bytes.
pub proof fn law_varint_boundaries()
    ensures
        encode_varint(0) == seq![0u8],
        encode_varint(127) == seq![0x7fu8],
        encode_varint(128) == seq![0x80u8, 0x01u8],
        encode_varint(16_383) == seq![0xffu8, 0x7fu8],
        encode_varint(16_384) == seq![0x80u8, 0x80u8, 0x01u8],
        encode_varint(2_097_151) == seq![0xffu8, 0xffu8, 0x7fu8],
        encode_varint(2_097_152) == seq![0x80u8, 0x80u8, 0x80u8, 0x01u8],
        encode_varint(268_435_455) == seq![0xffu8, 0xffu8, 0xffu8, 0x7fu8],
{
}

} // verus!
