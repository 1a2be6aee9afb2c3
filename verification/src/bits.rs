//! The arithmetic of bytes that pack several fields, and of numbers written
//! in base 128.

use vstd::prelude::*;

verus! {

/// A CONNECT flag byte whose lowest bit is clear is the sum of its fields.
pub proof fn lemma_connect_flags_split(flags: u8)
    by (bit_vector)
    requires
        flags % 2 == 0,
    ensures
        flags == 128 * (flags / 128) + 64 * (flags / 64 % 2) + 32 * (flags / 32 % 2) + 8 * (flags
            / 8 % 4) + 4 * (flags / 4 % 2) + 2 * (flags / 2 % 2),
        flags / 128 <= 1,
        flags / 64 % 2 <= 1,
        flags / 32 % 2 <= 1,
        flags / 8 % 4 <= 3,
        flags / 4 % 2 <= 1,
        flags / 2 % 2 <= 1,
{
}

/// The fields of a CONNECT flag byte can be read off their sum.
pub proof fn lemma_connect_flags_sum(
    username: u8,
    password: u8,
    retain: u8,
    level: u8,
    will: u8,
    clean: u8,
)
    by (bit_vector)
    requires
        username <= 1,
        password <= 1,
        retain <= 1,
        level <= 3,
        will <= 1,
        clean <= 1,
    ensures
        128 * username + 64 * password + 32 * retain + 8 * level + 4 * will + 2 * clean < 256,
        ({
            let flags = (128 * username + 64 * password + 32 * retain + 8 * level + 4 * will + 2
                * clean) as u8;
            &&& flags / 128 == username
            &&& flags / 64 % 2 == password
            &&& flags / 32 % 2 == retain
            &&& flags / 8 % 4 == level
            &&& flags / 4 % 2 == will
            &&& flags / 2 % 2 == clean
            &&& flags % 2 == 0
        }),
{
}

/// The first byte of a PUBLISH is the sum of its type code and its flags.
pub proof fn lemma_publish_byte_split(first: u8)
    by (bit_vector)
    requires
        first / 16 == 3,
    ensures
        first == 48 + 8 * (first % 16 / 8) + 2 * (first % 16 / 2 % 4) + first % 16 % 2,
        first % 16 / 8 <= 1,
        first % 16 / 2 % 4 <= 3,
        first % 16 % 2 <= 1,
{
}

/// The flags of a PUBLISH can be read off its first byte.
pub proof fn lemma_publish_byte_sum(dup: u8, level: u8, retain: u8)
    by (bit_vector)
    requires
        dup <= 1,
        level <= 3,
        retain <= 1,
    ensures
        48 + 8 * dup + 2 * level + retain < 64,
        ({
            let first = (48 + 8 * dup + 2 * level + retain) as u8;
            &&& first / 16 == 3
            &&& first % 16 / 8 == dup
            &&& first % 16 / 2 % 4 == level
            &&& first % 16 % 2 == retain
        }),
{
}

/// A number of up to 28 bits is the sum of its four digits in base 128.
pub proof fn lemma_base128_split(n: u32)
    by (bit_vector)
    requires
        n <= 268_435_455,
    ensures
        n == n % 128 + 128 * (n / 128 % 128) + 16_384 * (n / 16_384 % 128) + 2_097_152 * (n
            / 2_097_152),
        n / 2_097_152 < 128,
        n < 128 <==> n / 128 == 0,
        n < 16_384 <==> n / 16_384 == 0,
        n < 2_097_152 <==> n / 2_097_152 == 0,
        n < 16_384 ==> n / 128 % 128 == n / 128,
        n < 2_097_152 ==> n / 16_384 % 128 == n / 16_384,
{
}

/// Four digits in base 128 can be read off the number they add up to.
pub proof fn lemma_base128_sum(d0: u8, d1: u8, d2: u8, d3: u8)
    by (bit_vector)
    requires
        d0 < 128,
        d1 < 128,
        d2 < 128,
        d3 < 128,
    ensures
        d0 + 128 * d1 + 16_384 * d2 + 2_097_152 * d3 <= 268_435_455,
        ({
            let n = (d0 + 128 * d1 + 16_384 * d2 + 2_097_152 * d3) as u32;
            &&& n % 128 == d0
            &&& n / 128 % 128 == d1
            &&& n / 16_384 % 128 == d2
            &&& n / 2_097_152 == d3
            &&& n / 128 == d1 + 128 * d2 + 16_384 * d3
            &&& n / 16_384 == d2 + 128 * d3
        }),
{
}

} // verus!
