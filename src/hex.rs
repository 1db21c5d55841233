//! Hex digits and the two base16 codecs that the CRUID format is built on.
use crate::error::{Error, Result};
use vstd::prelude::*;

verus! {

/// The lowercase hex digit of a nibble.
pub open spec fn hex_digit(n: u8) -> u8 {
    if n < 10 {
        (n + 48) as u8
    } else {
        (n + 87) as u8
    }
}

/// Whether `c` is a hex digit of either case.
pub open spec fn is_hex(c: u8) -> bool {
    (48 <= c <= 57) || (65 <= c <= 70) || (97 <= c <= 102)
}

/// The value of a hex digit of either case.
pub open spec fn hex_value(c: u8) -> u8 {
    if 48 <= c <= 57 {
        (c - 48) as u8
    } else if 65 <= c <= 70 {
        (c - 55) as u8
    } else {
        (c - 87) as u8
    }
}

/// Whether every byte of `s` is a hex digit.
pub open spec fn all_hex(s: Seq<u8>) -> bool {
    forall|i: int| 0 <= i < s.len() ==> #[trigger] is_hex(s[i])
}

/// Lowercase hex encoding: two digits per byte, high nibble first.
pub open spec fn lower_hex(b: Seq<u8>) -> Seq<u8> {
    Seq::new(
        2 * b.len(),
        |j: int|
            if j % 2 == 0 {
                hex_digit(b[j / 2] / 16)
            } else {
                hex_digit(b[j / 2] % 16)
            },
    )
}

/// Hex decoding: one byte from each pair of digits.
pub open spec fn hex_decoded(s: Seq<u8>) -> Seq<u8> {
    Seq::new(
        s.len() / 2,
        |i: int| (hex_value(s[2 * i]) * 16 + hex_value(s[2 * i + 1])) as u8,
    )
}

/// Every lowercase digit is a hex digit, and it reads back as its nibble.
pub proof fn lemma_hex_digit_value(n: u8)
    requires
        n < 16,
    ensures
        is_hex(hex_digit(n)),
        hex_value(hex_digit(n)) == n,
{
}

/// Relies on base16ct::lower::encode: it fails with `InvalidLength` exactly
/// when `dst` is shorter than twice `src`, and otherwise writes two lowercase
/// digits per byte of `src` at the start of `dst`, leaving the rest alone.
#[verifier::external_body]
pub(crate) fn lower_encode(src: &[u8], dst: &mut Vec<u8>) -> (r: Result<()>)
    requires
        src@.len() <= usize::MAX / 2,
    ensures
        final(dst)@.len() == old(dst)@.len(),
        r is Ok <==> old(dst)@.len() >= 2 * src@.len(),
        r is Err ==> r == Result::<()>::Err(Error::Length),
        r is Ok ==> final(dst)@.subrange(0, 2 * src@.len() as int) == lower_hex(src@),
        r is Ok ==> final(dst)@.subrange(2 * src@.len() as int, old(dst)@.len() as int)
            == old(dst)@.subrange(2 * src@.len() as int, old(dst)@.len() as int),
{
    match base16ct::lower::encode(src, dst) {
        Ok(_) => Ok(()),
        Err(base16ct::Error::InvalidEncoding) => Err(Error::Encoding),
        Err(base16ct::Error::InvalidLength) => Err(Error::Length),
    }
}

/// Relies on base16ct::mixed::decode: `InvalidLength` when `src` has an odd
/// length or `dst` is shorter than half of it; otherwise `InvalidEncoding`
/// when a byte of `src` is not a hex digit of either case; otherwise the
/// decoded bytes are written at the start of `dst` and the rest is left alone.
#[verifier::external_body]
pub(crate) fn mixed_decode(src: &[u8], dst: &mut Vec<u8>) -> (r: Result<()>)
    ensures
        final(dst)@.len() == old(dst)@.len(),
        (src@.len() % 2 != 0 || old(dst)@.len() < (src@.len() / 2) as int) ==> r == Result::<()>::Err(
            Error::Length,
        ),
        (src@.len() % 2 == 0 && old(dst)@.len() >= src@.len() / 2 && !all_hex(src@)) ==> r
            == Result::<()>::Err(Error::Encoding),
        (src@.len() % 2 == 0 && old(dst)@.len() >= src@.len() / 2 && all_hex(src@)) ==> r is Ok,
        r is Ok ==> final(dst)@.subrange(0, (src@.len() / 2) as int) == hex_decoded(src@),
        r is Ok ==> final(dst)@.subrange((src@.len() / 2) as int, old(dst)@.len() as int) == old(
            dst,
        )@.subrange((src@.len() / 2) as int, old(dst)@.len() as int),
{
    match base16ct::mixed::decode(src, dst) {
        Ok(_) => Ok(()),
        Err(base16ct::Error::InvalidEncoding) => Err(Error::Encoding),
        Err(base16ct::Error::InvalidLength) => Err(Error::Length),
    }
}

} // verus!
