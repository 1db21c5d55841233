//! Cryptographically Random Unique IDentifier (CRUID).
use crate::error::{Error, Result};
use crate::hex::{
    hex_decoded, hex_digit, hex_value, is_hex, lemma_hex_digit_value, lower_encode, lower_hex,
    mixed_decode,
};
use crate::Bytes;
use vstd::prelude::*;
use vstd::slice::slice_subrange;
use vstd::string::StringSliceAdditionalSpecFns;

verus! {

/// Size of a serialized CRUID in bytes.
pub const SERIALIZED_SIZE: usize = 36;

/// Number of hex fields in a CRUID.
pub const FIELD_COUNT: usize = 5;

/// The ASCII hyphen that separates the fields.
pub const HYPHEN: u8 = 45;

/// Start, within the raw 16 bytes, of field `i`; field `i` spans
/// `byte_start(i)..byte_start(i + 1)`.
pub open spec fn byte_start(i: int) -> int {
    if i <= 0 {
        0
    } else if i == 1 {
        4
    } else if i == 2 {
        6
    } else if i == 3 {
        8
    } else if i == 4 {
        10
    } else {
        16
    }
}

/// Start, within the text, of field `i`: its hex digits span
/// `text_start(i)..text_start(i) + 2 * (byte_start(i + 1) - byte_start(i))`,
/// and a hyphen follows each field but the last.
pub open spec fn text_start(i: int) -> int {
    2 * byte_start(i) + i
}

/// The hex digits of field `i` within the text `t`.
pub open spec fn field_text(t: Seq<u8>, i: int) -> Seq<u8> {
    t.subrange(text_start(i), text_start(i) + 2 * (byte_start(i + 1) - byte_start(i)))
}

/// Whether text position `j` holds a hyphen.
pub open spec fn is_separator(j: int) -> bool {
    j == 8 || j == 13 || j == 18 || j == 23
}

/// The field that text position `j` belongs to.
pub open spec fn text_field(j: int) -> int {
    if j < 8 {
        0
    } else if j < 13 {
        1
    } else if j < 18 {
        2
    } else if j < 23 {
        3
    } else {
        4
    }
}

/// The field that hex digit number `k` (in reading order) belongs to.
pub open spec fn digit_field(k: int) -> int {
    if k < 8 {
        0
    } else if k < 12 {
        1
    } else if k < 16 {
        2
    } else if k < 20 {
        3
    } else {
        4
    }
}

/// Whether `t` is the text of a CRUID: 36 bytes, hyphens at the four
/// separator positions and a hex digit of either case everywhere else.
pub open spec fn valid_text(t: Seq<u8>) -> bool {
    &&& t.len() == SERIALIZED_SIZE
    &&& forall|j: int|
        0 <= j < SERIALIZED_SIZE ==> if is_separator(j) {
            t[j] == HYPHEN
        } else {
            is_hex(#[trigger] t[j])
        }
}

/// The text that formats the 16 raw bytes `raw`: their lowercase hex digits,
/// in order, with hyphens at the separator positions.
pub open spec fn format_text(raw: Seq<u8>) -> Seq<u8> {
    Seq::new(
        SERIALIZED_SIZE as nat,
        |j: int|
            if is_separator(j) {
                HYPHEN
            } else {
                lower_hex(raw)[j - text_field(j)]
            },
    )
}

/// The 16 raw bytes that the hex fields of the text `t` decode to.
pub open spec fn text_raw(t: Seq<u8>) -> Seq<u8> {
    Seq::new(
        16,
        |i: int|
            (hex_value(t[2 * i + digit_field(2 * i)]) * 16 + hex_value(
                t[2 * i + 1 + digit_field(2 * i + 1)],
            )) as u8,
    )
}

/// The ranges of field `i`: raw start, raw end and text start.
fn field_ranges(i: usize) -> (r: (usize, usize, usize))
    requires
        i < FIELD_COUNT,
    ensures
        r.0 == byte_start(i as int),
        r.1 == byte_start(i + 1),
        r.2 == text_start(i as int),
{
    if i == 0 {
        (0, 4, 0)
    } else if i == 1 {
        (4, 6, 9)
    } else if i == 2 {
        (6, 8, 14)
    } else if i == 3 {
        (8, 10, 19)
    } else {
        (10, 16, 24)
    }
}

/// Cryptographically Random Unique IDentifier (CRUID).
#[derive(Copy, Clone, Debug, PartialEq, Eq, PartialOrd, Ord)]
pub struct Cruid {
    /// ASCII bytes which comprise a serialized CRUID.
    bytes: [u8; 36],
}

impl View for Cruid {
    type V = Seq<u8>;

    /// The text of the CRUID.
    closed spec fn view(&self) -> Seq<u8> {
        self.bytes@
    }
}

impl Cruid {
    #[verifier::type_invariant]
    spec fn well_formed(self) -> bool {
        valid_text(self.bytes@)
    }

    /// Encode the provided 16-byte value into a CRUID.
    pub fn from_bytes(input: &Bytes) -> (r: Cruid)
        ensures
            r@ == format_text(input@),
            valid_text(r@),
    {
        let mut output: [u8; 36] = [HYPHEN; 36];
        let mut i: usize = 0;
        while i < FIELD_COUNT
            invariant
                i <= FIELD_COUNT,
                input@.len() == 16,
                output@.len() == SERIALIZED_SIZE,
                forall|j: int|
                    0 <= j < SERIALIZED_SIZE && is_separator(j) ==> #[trigger] output@[j]
                        == HYPHEN,
                forall|j: int|
                    0 <= j < text_start(i as int) && j < SERIALIZED_SIZE && !is_separator(j)
                        ==> #[trigger] output@[j] == format_text(input@)[j],
            decreases FIELD_COUNT - i,
        {
            let (lo, hi, at) = field_ranges(i);
            let src = slice_subrange(input.as_slice(), lo, hi);
            let width: usize = 2 * (hi - lo);
            let mut buf: Vec<u8> = vec![0u8; width];
            let res = lower_encode(src, &mut buf);
            assert(res is Ok);
            assert(buf@ == buf@.subrange(0, width as int));
            let mut k: usize = 0;
            while k < width
                invariant
                    0 <= k <= width,
                    width == 2 * (hi - lo),
                    at == text_start(i as int),
                    lo == byte_start(i as int),
                    hi == byte_start(i + 1),
                    i < FIELD_COUNT,
                    input@.len() == 16,
                    src@ == input@.subrange(lo as int, hi as int),
                    buf@ == lower_hex(src@),
                    output@.len() == SERIALIZED_SIZE,
                    forall|j: int|
                        0 <= j < SERIALIZED_SIZE && is_separator(j) ==> #[trigger] output@[j]
                            == HYPHEN,
                    forall|j: int|
                        0 <= j < text_start(i as int) && j < SERIALIZED_SIZE && !is_separator(j)
                            ==> #[trigger] output@[j] == format_text(input@)[j],
                    forall|j: int|
                        at <= j < at + k ==> #[trigger] output@[j] == format_text(input@)[j],
                decreases width - k,
            {
                proof {
                    let j = at + k;
                    let d = j - text_field(j);
                    assert(text_field(j) == i);
                    assert(d == 2 * lo + k);
                    assert(d / 2 == lo + k / 2);
                    assert(d % 2 == k % 2);
                    assert(lower_hex(input@)[d] == lower_hex(src@)[k as int]);
                }
                output[at + k] = buf[k];
                k = k + 1;
            }
            i = i + 1;
        }
        proof {
            assert forall|j: int| 0 <= j < SERIALIZED_SIZE implies output@[j] == format_text(
                input@,
            )[j] by {
                if !is_separator(j) {
                    assert(j < text_start(5));
                }
            }
            assert(output@ =~= format_text(input@));
            lemma_format_valid(input@);
        }
        Cruid { bytes: output }
    }

    /// Parse a CRUID from a UUID-like string, given as its bytes.
    pub fn parse(string: &[u8]) -> (r: Result<Cruid>)
        ensures
            r is Ok <==> valid_text(string@),
            r matches Ok(c) ==> c@ == string@,
            string@.len() != SERIALIZED_SIZE ==> r == Result::<Cruid>::Err(Error::Length),
            string@.len() == SERIALIZED_SIZE && !valid_text(string@) ==> r == Result::<
                Cruid,
            >::Err(Error::Encoding),
    {
        if string.len() != SERIALIZED_SIZE {
            return Err(Error::Length);
        }
        let mut bytes: [u8; 36] = [0u8; 36];
        let mut j: usize = 0;
        while j < SERIALIZED_SIZE
            invariant
                j <= SERIALIZED_SIZE,
                string@.len() == SERIALIZED_SIZE,
                bytes@.len() == SERIALIZED_SIZE,
                forall|m: int| 0 <= m < j ==> #[trigger] bytes@[m] == string@[m],
            decreases SERIALIZED_SIZE - j,
        {
            bytes[j] = string[j];
            j = j + 1;
        }
        assert(bytes@ =~= string@);
        // Validate characters that are expected to be hyphens
        if bytes[8] != HYPHEN || bytes[13] != HYPHEN || bytes[18] != HYPHEN || bytes[23]
            != HYPHEN {
            return Err(Error::Encoding);
        }
        // Buffer which is the maximum size of a field in a CRUID
        let mut buf: Vec<u8> = vec![0u8; 6];
        // Ensure all fields will decode successfully
        let mut i: usize = 0;
        while i < FIELD_COUNT
            invariant
                i <= FIELD_COUNT,
                bytes@ == string@,
                bytes@.len() == SERIALIZED_SIZE,
                buf@.len() == 6,
                forall|j: int|
                    0 <= j < SERIALIZED_SIZE && is_separator(j) ==> #[trigger] bytes@[j]
                        == HYPHEN,
                forall|j: int|
                    0 <= j < text_start(i as int) && j < SERIALIZED_SIZE && !is_separator(j)
                        ==> is_hex(#[trigger] bytes@[j]),
            decreases FIELD_COUNT - i,
        {
            let (lo, hi, at) = field_ranges(i);
            let width: usize = 2 * (hi - lo);
            let src = slice_subrange(bytes.as_slice(), at, at + width);
            match mixed_decode(src, &mut buf) {
                Err(e) => {
                    proof {
                        let m = choose|m: int| 0 <= m < src@.len() && !is_hex(#[trigger] src@[m]);
                        assert(src@[m] == bytes@[at + m]);
                        assert(!is_separator(at + m));
                    }
                    return Err(e);
                },
                Ok(()) => {},
            }
            assert forall|j: int|
                0 <= j < text_start(i + 1) && j < SERIALIZED_SIZE && !is_separator(
                    j,
                ) implies is_hex(#[trigger] bytes@[j]) by {
                if j >= at {
                    assert(src@[j - at] == bytes@[j]);
                }
            }
            i = i + 1;
        }
        proof {
            assert forall|j: int| 0 <= j < SERIALIZED_SIZE && !is_separator(j) implies is_hex(
                #[trigger] bytes@[j],
            ) by {
                assert(j < text_start(5));
            }
        }
        Ok(Cruid { bytes })
    }

    /// Borrow the bytes of this CRUID as a string.
    pub fn as_str(&self) -> (r: &str)
        ensures
            r@ == ascii_chars(self@),
            valid_text(self@),
    {
        proof {
            use_type_invariant(self);
            assert forall|j: int| 0 <= j < self.bytes@.len() implies #[trigger] self.bytes@[j]
                < 128 by {
                if !is_separator(j) {
                    assert(is_hex(self.bytes@[j]));
                }
            }
        }
        ascii_str(self.bytes.as_slice())
    }

    /// The fields of this CRUID, in order, as slices of its text.
    pub fn iter_fields(&self) -> (r: Vec<&[u8]>)
        ensures
            valid_text(self@),
            r@.len() == FIELD_COUNT,
            forall|i: int| 0 <= i < FIELD_COUNT ==> #[trigger] r@[i]@ == field_text(self@, i),
    {
        proof {
            use_type_invariant(self);
        }
        let mut r: Vec<&[u8]> = Vec::new();
        let mut i: usize = 0;
        while i < FIELD_COUNT
            invariant
                i <= FIELD_COUNT,
                r@.len() == i,
                forall|f: int| 0 <= f < i ==> #[trigger] r@[f]@ == field_text(self@, f),
            decreases FIELD_COUNT - i,
        {
            let (lo, hi, at) = field_ranges(i);
            let width: usize = 2 * (hi - lo);
            r.push(slice_subrange(self.bytes.as_slice(), at, at + width));
            i = i + 1;
        }
        r
    }

    /// Decode the hex fields in a CRUID into raw bytes.
    pub fn to_bytes(&self) -> (r: Bytes)
        ensures
            valid_text(self@),
            r@ == text_raw(self@),
    {
        proof {
            use_type_invariant(self);
        }
        let fields = self.iter_fields();
        let mut ret: [u8; 16] = [0u8; 16];
        let mut i: usize = 0;
        while i < FIELD_COUNT
            invariant
                i <= FIELD_COUNT,
                valid_text(self.bytes@),
                fields@.len() == FIELD_COUNT,
                forall|f: int| 0 <= f < FIELD_COUNT ==> #[trigger] fields@[f]@ == field_text(self@, f),
                ret@.len() == 16,
                forall|b: int| 0 <= b < byte_start(i as int) ==> #[trigger] ret@[b] == text_raw(
                    self.bytes@,
                )[b],
            decreases FIELD_COUNT - i,
        {
            let (lo, hi, at) = field_ranges(i);
            let width: usize = 2 * (hi - lo);
            let src: &[u8] = fields[i];
            assert forall|m: int| 0 <= m < src@.len() implies is_hex(#[trigger] src@[m]) by {
                assert(src@[m] == self.bytes@[at + m]);
                assert(!is_separator(at + m));
            }
            let len: usize = hi - lo;
            let mut buf: Vec<u8> = vec![0u8; len];
            let _ = mixed_decode(src, &mut buf);
            assert(buf@ =~= buf@.subrange(0, len as int));
            let mut k: usize = 0;
            while k < len
                invariant
                    0 <= k <= len,
                    len == hi - lo,
                    at == text_start(i as int),
                    lo == byte_start(i as int),
                    hi == byte_start(i + 1),
                    i < FIELD_COUNT,
                    width == 2 * (hi - lo),
                    src@ == self.bytes@.subrange(at as int, at + width),
                    buf@ == hex_decoded(src@),
                    valid_text(self.bytes@),
                    ret@.len() == 16,
                    forall|b: int| 0 <= b < lo + k ==> #[trigger] ret@[b] == text_raw(
                        self.bytes@,
                    )[b],
                decreases len - k,
            {
                proof {
                    let b = lo + k;
                    assert(digit_field(2 * b) == i);
                    assert(digit_field(2 * b + 1) == i);
                    assert(src@[2 * k] == self.bytes@[2 * b + i]);
                    assert(src@[2 * k + 1] == self.bytes@[2 * b + 1 + i]);
                }
                ret[lo + k] = buf[k];
                k = k + 1;
            }
            i = i + 1;
        }
        assert(ret@ =~= text_raw(self.bytes@));
        ret
    }
}

impl AsRef<str> for Cruid {
    fn as_ref(&self) -> (r: &str)
        ensures
            r@ == ascii_chars(self@),
            valid_text(self@),
    {
        self.as_str()
    }
}

impl core::str::FromStr for Cruid {
    type Err = Error;

    fn from_str(s: &str) -> (r: Result<Self>)
        ensures
            r is Ok <==> valid_text(s.spec_bytes()),
            r matches Ok(c) ==> c@ == s.spec_bytes(),
            s.spec_bytes().len() != SERIALIZED_SIZE ==> r == Result::<Cruid>::Err(Error::Length),
            s.spec_bytes().len() == SERIALIZED_SIZE && !valid_text(s.spec_bytes()) ==> r
                == Result::<Cruid>::Err(Error::Encoding),
    {
        Self::parse(s.as_bytes())
    }
}

/// A 36-byte text with anything but a hyphen at one of the separator
/// positions is not the text of a CRUID, so `parse` rejects it with an
/// encoding error.
pub proof fn lemma_bad_separator_rejected(t: Seq<u8>, j: int)
    requires
        t.len() == SERIALIZED_SIZE,
        is_separator(j),
        t[j] != HYPHEN,
    ensures
        !valid_text(t),
{
}

/// A 36-byte text with a byte that is not a hex digit inside one of its
/// fields is not the text of a CRUID, so `parse` rejects it with an encoding
/// error.
pub proof fn lemma_non_hex_rejected(t: Seq<u8>, j: int)
    requires
        t.len() == SERIALIZED_SIZE,
        0 <= j < SERIALIZED_SIZE,
        !is_separator(j),
        !is_hex(t[j]),
    ensures
        !valid_text(t),
{
}

/// Whether every hex digit of the CRUID text `t` is lowercase.
pub open spec fn is_lowercase_text(t: Seq<u8>) -> bool {
    forall|j: int| 0 <= j < t.len() && !is_separator(j) ==> !(65 <= #[trigger] t[j] <= 70)
}

/// Formatting the bytes that a well-formed lowercase text decodes to gives
/// that text back; parsing accepts either case, formatting writes lowercase.
pub proof fn lemma_lowercase_text_round_trip(t: Seq<u8>)
    requires
        valid_text(t),
        is_lowercase_text(t),
    ensures
        format_text(text_raw(t)) == t,
{
    let raw = text_raw(t);
    assert forall|j: int| 0 <= j < SERIALIZED_SIZE implies #[trigger] format_text(raw)[j]
        == t[j] by {
        if !is_separator(j) {
            let d = j - text_field(j);
            let i = d / 2;
            assert(0 <= i < 16);
            let hi = t[2 * i + digit_field(2 * i)];
            let lo = t[2 * i + 1 + digit_field(2 * i + 1)];
            assert(!is_separator(2 * i + digit_field(2 * i)));
            assert(!is_separator(2 * i + 1 + digit_field(2 * i + 1)));
            assert(is_hex(hi) && is_hex(lo));
            let h = hex_value(hi);
            let l = hex_value(lo);
            assert(h < 16 && l < 16);
            assert(raw[i] == (h * 16 + l) as u8);
            assert((h * 16 + l) / 16 == h) by (nonlinear_arith)
                requires
                    h < 16,
                    l < 16,
            ;
            assert((h * 16 + l) % 16 == l) by (nonlinear_arith)
                requires
                    h < 16,
                    l < 16,
            ;
            assert(hex_digit(h) == hi);
            assert(hex_digit(l) == lo);
            if d % 2 == 0 {
                assert(j == 2 * i + digit_field(2 * i));
            } else {
                assert(j == 2 * i + 1 + digit_field(2 * i + 1));
            }
        }
    }
    assert(format_text(raw) =~= t);
}

/// Two CRUIDs with the same text are the same CRUID.
pub proof fn lemma_view_injective(a: Cruid, b: Cruid)
    requires
        a@ == b@,
    ensures
        a == b,
{
    broadcast use vstd::array::group_array_axioms;

    assert(a.bytes =~= b.bytes);
}

/// Decoding the text that formats 16 raw bytes gives those bytes back.
pub proof fn lemma_format_round_trip(raw: Seq<u8>)
    requires
        raw.len() == 16,
    ensures
        text_raw(format_text(raw)) == raw,
{
    let t = format_text(raw);
    assert forall|i: int| 0 <= i < 16 implies #[trigger] text_raw(t)[i] == raw[i] by {
        let p = 2 * i + digit_field(2 * i);
        let q = 2 * i + 1 + digit_field(2 * i + 1);
        assert(!is_separator(p) && text_field(p) == digit_field(2 * i));
        assert(!is_separator(q) && text_field(q) == digit_field(2 * i + 1));
        assert(t[p] == hex_digit(raw[i] / 16));
        assert(t[q] == hex_digit(raw[i] % 16));
        lemma_hex_digit_value(raw[i] / 16);
        lemma_hex_digit_value(raw[i] % 16);
    }
    assert(text_raw(t) =~= raw);
}

/// The characters of an ASCII byte string.
pub open spec fn ascii_chars(b: Seq<u8>) -> Seq<char> {
    Seq::new(b.len(), |i: int| b[i] as char)
}

/// Relies on std::str::from_utf8: bytes below 128 are valid UTF-8, each the
/// character of the same code.
#[verifier::external_body]
fn ascii_str(b: &[u8]) -> (r: &str)
    requires
        forall|i: int| 0 <= i < b@.len() ==> #[trigger] b@[i] < 128,
    ensures
        r@ == ascii_chars(b@),
{
    match std::str::from_utf8(b) {
        Ok(s) => s,
        Err(_) => "",
    }
}


pub proof fn lemma_format_valid(raw: Seq<u8>)
    requires
        raw.len() == 16,
    ensures
        valid_text(format_text(raw)),
{
    let t = format_text(raw);
    assert forall|j: int| 0 <= j < SERIALIZED_SIZE implies if is_separator(j) {
        t[j] == HYPHEN
    } else {
        is_hex(#[trigger] t[j])
    } by {
        if !is_separator(j) {
            let d = j - text_field(j);
            assert(0 <= d < 32);
            let b = raw[d / 2];
            assert(b / 16 < 16);
            assert(b % 16 < 16);
        }
    }
}

} // verus!
