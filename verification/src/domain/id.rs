use vstd::prelude::*;

use crate::error::SillokError;
use crate::text::{decimal, push_char, push_decimal, push_str};

verus! {

/// The `i`-th byte (most significant first) of a 128-bit id.
pub open spec fn id_byte(v: u128, i: int) -> u8 {
    ((v >> ((120 - 8 * i) as u128)) & 0xffu128) as u8
}

/// The sixteen big-endian bytes of a 128-bit id.
pub open spec fn id_bytes(v: u128) -> Seq<u8> {
    Seq::new(16, |i: int| id_byte(v, i))
}

/// The 128-bit value of sixteen big-endian bytes.
pub open spec fn bytes_value(s: Seq<u8>) -> u128 {
    ((s[0] as u128) << 120u128) | ((s[1] as u128) << 112u128) | ((s[2] as u128) << 104u128) | ((s[3] as u128) << 96u128) | ((s[4] as u128) << 88u128) | ((s[5] as u128) << 80u128) | ((s[6] as u128) << 72u128) | ((s[7] as u128) << 64u128) | ((s[8] as u128) << 56u128) | ((s[9] as u128) << 48u128) | ((s[10] as u128) << 40u128) | ((s[11] as u128) << 32u128) | ((s[12] as u128) << 24u128) | ((s[13] as u128) << 16u128) | ((s[14] as u128) << 8u128) | ((s[15] as u128) << 0u128)
}

/// Lowercase hexadecimal digit for a value below sixteen.
pub open spec fn hex_char(n: u8) -> char {
    if n < 10 {
        (48 + n) as char
    } else {
        (87 + n) as char
    }
}

/// Hyphenated text of the first `i` bytes of an id: 8-4-4-4-12 hex digits.
pub open spec fn id_text_prefix(b: Seq<u8>, i: nat) -> Seq<char>
    decreases i,
{
    if i == 0 {
        Seq::empty()
    } else {
        let k = (i - 1) as int;
        let before = id_text_prefix(b, (i - 1) as nat);
        let sep = if k == 4 || k == 6 || k == 8 || k == 10 {
            before.push('-')
        } else {
            before
        };
        sep.push(hex_char(b[k] >> 4u8)).push(hex_char(b[k] & 0x0fu8))
    }
}

/// Canonical hyphenated lowercase text of an id, as `uuid::Uuid` displays it.
pub open spec fn id_text(v: u128) -> Seq<char> {
    id_text_prefix(id_bytes(v), 16)
}

/// What `uuid::Uuid::parse_str` accepts, and the 128-bit value it yields.
pub uninterp spec fn uuid_parse(s: Seq<char>) -> Option<u128>;

/// Canonical hyphenated text is accepted and gives back the value it spells.
pub open spec fn canonical_text_accepted(input: Seq<char>, r: Result<u128, String>) -> bool {
    forall|v: u128| input == id_text(v) ==> (r matches Ok(w) && w == v)
}

/// UUIDv7-backed id used for archive, event, day, task, and objective records.
#[derive(Debug, Clone, Copy, PartialEq, Eq, Structural, PartialOrd, Ord, Hash)]
pub struct ChronicleId(u128);

impl View for ChronicleId {
    type V = u128;

    closed spec fn view(&self) -> u128 {
        self.0
    }
}

/// The id carries the version-7 nibble and the RFC 4122 variant bits.
pub open spec fn is_v7(v: u128) -> bool {
    &&& (v >> 76u128) & 0xfu128 == 7
    &&& (v >> 62u128) & 0x3u128 == 2
}

/// Draws a fresh time-ordered UUIDv7 (`uuid::Uuid::now_v7`). The time and
/// random parts vary from call to call; the version nibble and the variant
/// bits are fixed by the crate.
#[verifier::external_body]
fn fresh_v7_value() -> (v: u128)
    ensures
        is_v7(v),
{
    uuid::Uuid::now_v7().as_u128()
}

/// The lengths of text that `uuid::Uuid::parse_str` can accept: simple,
/// hyphenated, braced and URN forms, all of ASCII characters.
pub open spec fn uuid_text_length(n: nat) -> bool {
    n == 32 || n == 36 || n == 38 || n == 45
}

/// Parses UUID text (`uuid::Uuid::parse_str`); on failure returns the parser's
/// message. The parser accepts only ASCII text of the lengths of its four
/// forms, so any other length is refused.
#[verifier::external_body]
fn parse_uuid_text(input: &str) -> (r: Result<u128, String>)
    ensures
        r.is_ok() == uuid_parse(input@).is_some(),
        r is Ok ==> uuid_text_length(input@.len()),
        r matches Ok(v) ==> uuid_parse(input@) == Some(v),
        canonical_text_accepted(input@, r),
{
    match uuid::Uuid::parse_str(input) {
        Ok(value) => Ok(value.as_u128()),
        Err(error) => Err(error.to_string()),
    }
}

impl ChronicleId {
    /// Generates a new UUIDv7 id.
    pub fn new_v7() -> (id: Self)
        ensures
            is_v7(id@),
    {
        ChronicleId(fresh_v7_value())
    }

    /// Builds an id from its 128-bit value.
    pub fn from_u128(v: u128) -> (id: Self)
        ensures
            id@ == v,
    {
        ChronicleId(v)
    }

    /// Returns the 128-bit value.
    pub fn as_u128(&self) -> (v: u128)
        ensures
            v == self@,
    {
        self.0
    }

    /// Builds an id from raw UUID bytes.
    pub fn from_bytes(b: [u8; 16]) -> (id: Self)
        ensures
            id@ == bytes_value(b@),
    {
        ChronicleId(((b[0] as u128) << 120u128) | ((b[1] as u128) << 112u128) | ((b[2] as u128) << 104u128) | ((b[3] as u128) << 96u128) | ((b[4] as u128) << 88u128) | ((b[5] as u128) << 80u128) | ((b[6] as u128) << 72u128) | ((b[7] as u128) << 64u128) | ((b[8] as u128) << 56u128) | ((b[9] as u128) << 48u128) | ((b[10] as u128) << 40u128) | ((b[11] as u128) << 32u128) | ((b[12] as u128) << 24u128) | ((b[13] as u128) << 16u128) | ((b[14] as u128) << 8u128) | ((b[15] as u128) << 0u128))
    }

    /// Parses raw UUID bytes into a chronicle id.
    pub fn from_slice(bytes: &[u8]) -> (r: Result<Self, SillokError>)
        ensures
            r is Ok <==> bytes@.len() == 16,
            r matches Ok(id) ==> id@ == bytes_value(bytes@),
            r matches Err(e) ==> e.code == "invalid_id" && e.message@
                == "expected 16 UUID bytes, got "@ + decimal(bytes@.len()),
    {
        let n = bytes.len();
        if n != 16 {
            let mut message = String::from_str("expected 16 UUID bytes, got ");
            push_decimal(&mut message, n as u64);
            return Err(SillokError::new("invalid_id", message));
        }
        let b: [u8; 16] = [
            bytes[0], bytes[1], bytes[2], bytes[3], bytes[4], bytes[5], bytes[6], bytes[7],
            bytes[8], bytes[9], bytes[10], bytes[11], bytes[12], bytes[13], bytes[14], bytes[15],
        ];
        assert(b@ =~= bytes@);
        Ok(Self::from_bytes(b))
    }

    /// Parses a UUID string into a chronicle id.
    pub fn parse(input: &str) -> (r: Result<Self, SillokError>)
        ensures
            r is Ok <==> uuid_parse(input@) is Some,
            r matches Ok(id) ==> uuid_parse(input@) == Some(id@),
            !uuid_text_length(input@.len()) ==> (r matches Err(e) && e.code == "invalid_id"),
            forall|v: u128| input@ == id_text(v) ==> (r matches Ok(id) && id@ == v),
            r matches Err(e) ==> e.code == "invalid_id" && e.message@.len() >= ("invalid UUID `"@
                + input@ + "`: "@).len() && e.message@.subrange(
                0,
                ("invalid UUID `"@ + input@ + "`: "@).len() as int,
            ) == "invalid UUID `"@ + input@ + "`: "@,
    {
        match parse_uuid_text(input) {
            Ok(v) => Ok(ChronicleId(v)),
            Err(detail) => {
                let mut message = String::from_str("invalid UUID `");
                push_str(&mut message, input);
                push_str(&mut message, "`: ");
                let ghost head = message@;
                push_str(&mut message, detail.as_str());
                assert(message@.subrange(0, head.len() as int) =~= head);
                Err(SillokError::new("invalid_id", message))
            },
        }
    }

    /// Returns raw UUID bytes for compact database storage.
    pub fn as_bytes(&self) -> (b: [u8; 16])
        ensures
            b@ == id_bytes(self@),
    {
        let v = self.0;
        let b: [u8; 16] = [((v >> 120u128) & 0xffu128) as u8, ((v >> 112u128) & 0xffu128) as u8, ((v >> 104u128) & 0xffu128) as u8, ((v >> 96u128) & 0xffu128) as u8, ((v >> 88u128) & 0xffu128) as u8, ((v >> 80u128) & 0xffu128) as u8, ((v >> 72u128) & 0xffu128) as u8, ((v >> 64u128) & 0xffu128) as u8, ((v >> 56u128) & 0xffu128) as u8, ((v >> 48u128) & 0xffu128) as u8, ((v >> 40u128) & 0xffu128) as u8, ((v >> 32u128) & 0xffu128) as u8, ((v >> 24u128) & 0xffu128) as u8, ((v >> 16u128) & 0xffu128) as u8, ((v >> 8u128) & 0xffu128) as u8, ((v >> 0u128) & 0xffu128) as u8];
        assert(b@ =~= id_bytes(v));
        b
    }

    /// Returns raw UUID bytes as an owned vector for SQL parameters.
    pub fn to_vec(&self) -> (b: Vec<u8>)
        ensures
            b@ == id_bytes(self@),
    {
        let a = self.as_bytes();
        let mut out: Vec<u8> = Vec::new();
        let mut i: usize = 0;
        while i < 16
            invariant
                i <= 16,
                a@ == id_bytes(self@),
                out@ =~= a@.take(i as int),
            decreases 16 - i,
        {
            out.push(a[i]);
            i = i + 1;
        }
        assert(out@ =~= a@);
        out
    }

    /// Canonical hyphenated lowercase text of the id.
    pub fn to_string(&self) -> (s: String)
        ensures
            s@ == id_text(self@),
    {
        let b = self.as_bytes();
        let mut s = String::new();
        let mut i: usize = 0;
        while i < 16
            invariant
                i <= 16,
                b@ == id_bytes(self@),
                s@ == id_text_prefix(b@, i as nat),
            decreases 16 - i,
        {
            if i == 4 || i == 6 || i == 8 || i == 10 {
                push_char(&mut s, '-');
            }
            let byte = b[i];
            let hi = byte >> 4u8;
            let lo = byte & 0x0fu8;
            assert(hi < 16 && lo < 16) by (bit_vector)
                requires
                    hi == byte >> 4u8,
                    lo == byte & 0x0fu8,
            ;
            push_char(&mut s, hex_digit(hi));
            push_char(&mut s, hex_digit(lo));
            i = i + 1;
        }
        s
    }
}

/// Lowercase hexadecimal digit.
fn hex_digit(n: u8) -> (c: char)
    requires
        n < 16,
    ensures
        c == hex_char(n),
{
    if n < 10 {
        (48u8 + n) as char
    } else {
        (87u8 + n) as char
    }
}

/// Reading back the bytes of an id gives the id: `from_bytes(as_bytes(id)) == id`.
pub proof fn lemma_bytes_roundtrip(v: u128)
    ensures
        bytes_value(id_bytes(v)) == v,
{
    assert(((((((v >> 120u128) & 0xffu128) as u8) as u128) << 120u128) | (((((v >> 112u128) & 0xffu128) as u8) as u128) << 112u128) | (((((v >> 104u128) & 0xffu128) as u8) as u128) << 104u128) | (((((v >> 96u128) & 0xffu128) as u8) as u128) << 96u128) | (((((v >> 88u128) & 0xffu128) as u8) as u128) << 88u128) | (((((v >> 80u128) & 0xffu128) as u8) as u128) << 80u128) | (((((v >> 72u128) & 0xffu128) as u8) as u128) << 72u128) | (((((v >> 64u128) & 0xffu128) as u8) as u128) << 64u128) | (((((v >> 56u128) & 0xffu128) as u8) as u128) << 56u128) | (((((v >> 48u128) & 0xffu128) as u8) as u128) << 48u128) | (((((v >> 40u128) & 0xffu128) as u8) as u128) << 40u128) | (((((v >> 32u128) & 0xffu128) as u8) as u128) << 32u128) | (((((v >> 24u128) & 0xffu128) as u8) as u128) << 24u128) | (((((v >> 16u128) & 0xffu128) as u8) as u128) << 16u128) | (((((v >> 8u128) & 0xffu128) as u8) as u128) << 8u128) | (((((v >> 0u128) & 0xffu128) as u8) as u128) << 0u128)) == v) by (bit_vector);
}

/// Writing out the value of sixteen bytes gives the same bytes: `as_bytes(from_bytes(b)) == b`.
pub proof fn lemma_value_roundtrip(b: Seq<u8>)
    requires
        b.len() == 16,
    ensures
        id_bytes(bytes_value(b)) == b,
{
    lemma_value_bits(b[0], b[1], b[2], b[3], b[4], b[5], b[6], b[7], b[8], b[9], b[10], b[11],
        b[12], b[13], b[14], b[15]);
    assert(id_bytes(bytes_value(b)) =~= b);
}

proof fn lemma_value_bits(b0: u8, b1: u8, b2: u8, b3: u8, b4: u8, b5: u8, b6: u8, b7: u8, b8: u8, b9: u8, b10: u8, b11: u8, b12: u8, b13: u8, b14: u8, b15: u8)
    ensures
        ((( (((b0 as u128) << 120u128) | ((b1 as u128) << 112u128) | ((b2 as u128) << 104u128) | ((b3 as u128) << 96u128) | ((b4 as u128) << 88u128) | ((b5 as u128) << 80u128) | ((b6 as u128) << 72u128) | ((b7 as u128) << 64u128) | ((b8 as u128) << 56u128) | ((b9 as u128) << 48u128) | ((b10 as u128) << 40u128) | ((b11 as u128) << 32u128) | ((b12 as u128) << 24u128) | ((b13 as u128) << 16u128) | ((b14 as u128) << 8u128) | ((b15 as u128) << 0u128)) >> 120u128) & 0xffu128) as u8) == b0,
        ((( (((b0 as u128) << 120u128) | ((b1 as u128) << 112u128) | ((b2 as u128) << 104u128) | ((b3 as u128) << 96u128) | ((b4 as u128) << 88u128) | ((b5 as u128) << 80u128) | ((b6 as u128) << 72u128) | ((b7 as u128) << 64u128) | ((b8 as u128) << 56u128) | ((b9 as u128) << 48u128) | ((b10 as u128) << 40u128) | ((b11 as u128) << 32u128) | ((b12 as u128) << 24u128) | ((b13 as u128) << 16u128) | ((b14 as u128) << 8u128) | ((b15 as u128) << 0u128)) >> 112u128) & 0xffu128) as u8) == b1,
        ((( (((b0 as u128) << 120u128) | ((b1 as u128) << 112u128) | ((b2 as u128) << 104u128) | ((b3 as u128) << 96u128) | ((b4 as u128) << 88u128) | ((b5 as u128) << 80u128) | ((b6 as u128) << 72u128) | ((b7 as u128) << 64u128) | ((b8 as u128) << 56u128) | ((b9 as u128) << 48u128) | ((b10 as u128) << 40u128) | ((b11 as u128) << 32u128) | ((b12 as u128) << 24u128) | ((b13 as u128) << 16u128) | ((b14 as u128) << 8u128) | ((b15 as u128) << 0u128)) >> 104u128) & 0xffu128) as u8) == b2,
        ((( (((b0 as u128) << 120u128) | ((b1 as u128) << 112u128) | ((b2 as u128) << 104u128) | ((b3 as u128) << 96u128) | ((b4 as u128) << 88u128) | ((b5 as u128) << 80u128) | ((b6 as u128) << 72u128) | ((b7 as u128) << 64u128) | ((b8 as u128) << 56u128) | ((b9 as u128) << 48u128) | ((b10 as u128) << 40u128) | ((b11 as u128) << 32u128) | ((b12 as u128) << 24u128) | ((b13 as u128) << 16u128) | ((b14 as u128) << 8u128) | ((b15 as u128) << 0u128)) >> 96u128) & 0xffu128) as u8) == b3,
        ((( (((b0 as u128) << 120u128) | ((b1 as u128) << 112u128) | ((b2 as u128) << 104u128) | ((b3 as u128) << 96u128) | ((b4 as u128) << 88u128) | ((b5 as u128) << 80u128) | ((b6 as u128) << 72u128) | ((b7 as u128) << 64u128) | ((b8 as u128) << 56u128) | ((b9 as u128) << 48u128) | ((b10 as u128) << 40u128) | ((b11 as u128) << 32u128) | ((b12 as u128) << 24u128) | ((b13 as u128) << 16u128) | ((b14 as u128) << 8u128) | ((b15 as u128) << 0u128)) >> 88u128) & 0xffu128) as u8) == b4,
        ((( (((b0 as u128) << 120u128) | ((b1 as u128) << 112u128) | ((b2 as u128) << 104u128) | ((b3 as u128) << 96u128) | ((b4 as u128) << 88u128) | ((b5 as u128) << 80u128) | ((b6 as u128) << 72u128) | ((b7 as u128) << 64u128) | ((b8 as u128) << 56u128) | ((b9 as u128) << 48u128) | ((b10 as u128) << 40u128) | ((b11 as u128) << 32u128) | ((b12 as u128) << 24u128) | ((b13 as u128) << 16u128) | ((b14 as u128) << 8u128) | ((b15 as u128) << 0u128)) >> 80u128) & 0xffu128) as u8) == b5,
        ((( (((b0 as u128) << 120u128) | ((b1 as u128) << 112u128) | ((b2 as u128) << 104u128) | ((b3 as u128) << 96u128) | ((b4 as u128) << 88u128) | ((b5 as u128) << 80u128) | ((b6 as u128) << 72u128) | ((b7 as u128) << 64u128) | ((b8 as u128) << 56u128) | ((b9 as u128) << 48u128) | ((b10 as u128) << 40u128) | ((b11 as u128) << 32u128) | ((b12 as u128) << 24u128) | ((b13 as u128) << 16u128) | ((b14 as u128) << 8u128) | ((b15 as u128) << 0u128)) >> 72u128) & 0xffu128) as u8) == b6,
        ((( (((b0 as u128) << 120u128) | ((b1 as u128) << 112u128) | ((b2 as u128) << 104u128) | ((b3 as u128) << 96u128) | ((b4 as u128) << 88u128) | ((b5 as u128) << 80u128) | ((b6 as u128) << 72u128) | ((b7 as u128) << 64u128) | ((b8 as u128) << 56u128) | ((b9 as u128) << 48u128) | ((b10 as u128) << 40u128) | ((b11 as u128) << 32u128) | ((b12 as u128) << 24u128) | ((b13 as u128) << 16u128) | ((b14 as u128) << 8u128) | ((b15 as u128) << 0u128)) >> 64u128) & 0xffu128) as u8) == b7,
        ((( (((b0 as u128) << 120u128) | ((b1 as u128) << 112u128) | ((b2 as u128) << 104u128) | ((b3 as u128) << 96u128) | ((b4 as u128) << 88u128) | ((b5 as u128) << 80u128) | ((b6 as u128) << 72u128) | ((b7 as u128) << 64u128) | ((b8 as u128) << 56u128) | ((b9 as u128) << 48u128) | ((b10 as u128) << 40u128) | ((b11 as u128) << 32u128) | ((b12 as u128) << 24u128) | ((b13 as u128) << 16u128) | ((b14 as u128) << 8u128) | ((b15 as u128) << 0u128)) >> 56u128) & 0xffu128) as u8) == b8,
        ((( (((b0 as u128) << 120u128) | ((b1 as u128) << 112u128) | ((b2 as u128) << 104u128) | ((b3 as u128) << 96u128) | ((b4 as u128) << 88u128) | ((b5 as u128) << 80u128) | ((b6 as u128) << 72u128) | ((b7 as u128) << 64u128) | ((b8 as u128) << 56u128) | ((b9 as u128) << 48u128) | ((b10 as u128) << 40u128) | ((b11 as u128) << 32u128) | ((b12 as u128) << 24u128) | ((b13 as u128) << 16u128) | ((b14 as u128) << 8u128) | ((b15 as u128) << 0u128)) >> 48u128) & 0xffu128) as u8) == b9,
        ((( (((b0 as u128) << 120u128) | ((b1 as u128) << 112u128) | ((b2 as u128) << 104u128) | ((b3 as u128) << 96u128) | ((b4 as u128) << 88u128) | ((b5 as u128) << 80u128) | ((b6 as u128) << 72u128) | ((b7 as u128) << 64u128) | ((b8 as u128) << 56u128) | ((b9 as u128) << 48u128) | ((b10 as u128) << 40u128) | ((b11 as u128) << 32u128) | ((b12 as u128) << 24u128) | ((b13 as u128) << 16u128) | ((b14 as u128) << 8u128) | ((b15 as u128) << 0u128)) >> 40u128) & 0xffu128) as u8) == b10,
        ((( (((b0 as u128) << 120u128) | ((b1 as u128) << 112u128) | ((b2 as u128) << 104u128) | ((b3 as u128) << 96u128) | ((b4 as u128) << 88u128) | ((b5 as u128) << 80u128) | ((b6 as u128) << 72u128) | ((b7 as u128) << 64u128) | ((b8 as u128) << 56u128) | ((b9 as u128) << 48u128) | ((b10 as u128) << 40u128) | ((b11 as u128) << 32u128) | ((b12 as u128) << 24u128) | ((b13 as u128) << 16u128) | ((b14 as u128) << 8u128) | ((b15 as u128) << 0u128)) >> 32u128) & 0xffu128) as u8) == b11,
        ((( (((b0 as u128) << 120u128) | ((b1 as u128) << 112u128) | ((b2 as u128) << 104u128) | ((b3 as u128) << 96u128) | ((b4 as u128) << 88u128) | ((b5 as u128) << 80u128) | ((b6 as u128) << 72u128) | ((b7 as u128) << 64u128) | ((b8 as u128) << 56u128) | ((b9 as u128) << 48u128) | ((b10 as u128) << 40u128) | ((b11 as u128) << 32u128) | ((b12 as u128) << 24u128) | ((b13 as u128) << 16u128) | ((b14 as u128) << 8u128) | ((b15 as u128) << 0u128)) >> 24u128) & 0xffu128) as u8) == b12,
        ((( (((b0 as u128) << 120u128) | ((b1 as u128) << 112u128) | ((b2 as u128) << 104u128) | ((b3 as u128) << 96u128) | ((b4 as u128) << 88u128) | ((b5 as u128) << 80u128) | ((b6 as u128) << 72u128) | ((b7 as u128) << 64u128) | ((b8 as u128) << 56u128) | ((b9 as u128) << 48u128) | ((b10 as u128) << 40u128) | ((b11 as u128) << 32u128) | ((b12 as u128) << 24u128) | ((b13 as u128) << 16u128) | ((b14 as u128) << 8u128) | ((b15 as u128) << 0u128)) >> 16u128) & 0xffu128) as u8) == b13,
        ((( (((b0 as u128) << 120u128) | ((b1 as u128) << 112u128) | ((b2 as u128) << 104u128) | ((b3 as u128) << 96u128) | ((b4 as u128) << 88u128) | ((b5 as u128) << 80u128) | ((b6 as u128) << 72u128) | ((b7 as u128) << 64u128) | ((b8 as u128) << 56u128) | ((b9 as u128) << 48u128) | ((b10 as u128) << 40u128) | ((b11 as u128) << 32u128) | ((b12 as u128) << 24u128) | ((b13 as u128) << 16u128) | ((b14 as u128) << 8u128) | ((b15 as u128) << 0u128)) >> 8u128) & 0xffu128) as u8) == b14,
        ((( (((b0 as u128) << 120u128) | ((b1 as u128) << 112u128) | ((b2 as u128) << 104u128) | ((b3 as u128) << 96u128) | ((b4 as u128) << 88u128) | ((b5 as u128) << 80u128) | ((b6 as u128) << 72u128) | ((b7 as u128) << 64u128) | ((b8 as u128) << 56u128) | ((b9 as u128) << 48u128) | ((b10 as u128) << 40u128) | ((b11 as u128) << 32u128) | ((b12 as u128) << 24u128) | ((b13 as u128) << 16u128) | ((b14 as u128) << 8u128) | ((b15 as u128) << 0u128)) >> 0u128) & 0xffu128) as u8) == b15,
{
    assert(
        ((( (((b0 as u128) << 120u128) | ((b1 as u128) << 112u128) | ((b2 as u128) << 104u128) | ((b3 as u128) << 96u128) | ((b4 as u128) << 88u128) | ((b5 as u128) << 80u128) | ((b6 as u128) << 72u128) | ((b7 as u128) << 64u128) | ((b8 as u128) << 56u128) | ((b9 as u128) << 48u128) | ((b10 as u128) << 40u128) | ((b11 as u128) << 32u128) | ((b12 as u128) << 24u128) | ((b13 as u128) << 16u128) | ((b14 as u128) << 8u128) | ((b15 as u128) << 0u128)) >> 120u128) & 0xffu128) as u8) == b0 &&
        ((( (((b0 as u128) << 120u128) | ((b1 as u128) << 112u128) | ((b2 as u128) << 104u128) | ((b3 as u128) << 96u128) | ((b4 as u128) << 88u128) | ((b5 as u128) << 80u128) | ((b6 as u128) << 72u128) | ((b7 as u128) << 64u128) | ((b8 as u128) << 56u128) | ((b9 as u128) << 48u128) | ((b10 as u128) << 40u128) | ((b11 as u128) << 32u128) | ((b12 as u128) << 24u128) | ((b13 as u128) << 16u128) | ((b14 as u128) << 8u128) | ((b15 as u128) << 0u128)) >> 112u128) & 0xffu128) as u8) == b1 &&
        ((( (((b0 as u128) << 120u128) | ((b1 as u128) << 112u128) | ((b2 as u128) << 104u128) | ((b3 as u128) << 96u128) | ((b4 as u128) << 88u128) | ((b5 as u128) << 80u128) | ((b6 as u128) << 72u128) | ((b7 as u128) << 64u128) | ((b8 as u128) << 56u128) | ((b9 as u128) << 48u128) | ((b10 as u128) << 40u128) | ((b11 as u128) << 32u128) | ((b12 as u128) << 24u128) | ((b13 as u128) << 16u128) | ((b14 as u128) << 8u128) | ((b15 as u128) << 0u128)) >> 104u128) & 0xffu128) as u8) == b2 &&
        ((( (((b0 as u128) << 120u128) | ((b1 as u128) << 112u128) | ((b2 as u128) << 104u128) | ((b3 as u128) << 96u128) | ((b4 as u128) << 88u128) | ((b5 as u128) << 80u128) | ((b6 as u128) << 72u128) | ((b7 as u128) << 64u128) | ((b8 as u128) << 56u128) | ((b9 as u128) << 48u128) | ((b10 as u128) << 40u128) | ((b11 as u128) << 32u128) | ((b12 as u128) << 24u128) | ((b13 as u128) << 16u128) | ((b14 as u128) << 8u128) | ((b15 as u128) << 0u128)) >> 96u128) & 0xffu128) as u8) == b3 &&
        ((( (((b0 as u128) << 120u128) | ((b1 as u128) << 112u128) | ((b2 as u128) << 104u128) | ((b3 as u128) << 96u128) | ((b4 as u128) << 88u128) | ((b5 as u128) << 80u128) | ((b6 as u128) << 72u128) | ((b7 as u128) << 64u128) | ((b8 as u128) << 56u128) | ((b9 as u128) << 48u128) | ((b10 as u128) << 40u128) | ((b11 as u128) << 32u128) | ((b12 as u128) << 24u128) | ((b13 as u128) << 16u128) | ((b14 as u128) << 8u128) | ((b15 as u128) << 0u128)) >> 88u128) & 0xffu128) as u8) == b4 &&
        ((( (((b0 as u128) << 120u128) | ((b1 as u128) << 112u128) | ((b2 as u128) << 104u128) | ((b3 as u128) << 96u128) | ((b4 as u128) << 88u128) | ((b5 as u128) << 80u128) | ((b6 as u128) << 72u128) | ((b7 as u128) << 64u128) | ((b8 as u128) << 56u128) | ((b9 as u128) << 48u128) | ((b10 as u128) << 40u128) | ((b11 as u128) << 32u128) | ((b12 as u128) << 24u128) | ((b13 as u128) << 16u128) | ((b14 as u128) << 8u128) | ((b15 as u128) << 0u128)) >> 80u128) & 0xffu128) as u8) == b5 &&
        ((( (((b0 as u128) << 120u128) | ((b1 as u128) << 112u128) | ((b2 as u128) << 104u128) | ((b3 as u128) << 96u128) | ((b4 as u128) << 88u128) | ((b5 as u128) << 80u128) | ((b6 as u128) << 72u128) | ((b7 as u128) << 64u128) | ((b8 as u128) << 56u128) | ((b9 as u128) << 48u128) | ((b10 as u128) << 40u128) | ((b11 as u128) << 32u128) | ((b12 as u128) << 24u128) | ((b13 as u128) << 16u128) | ((b14 as u128) << 8u128) | ((b15 as u128) << 0u128)) >> 72u128) & 0xffu128) as u8) == b6 &&
        ((( (((b0 as u128) << 120u128) | ((b1 as u128) << 112u128) | ((b2 as u128) << 104u128) | ((b3 as u128) << 96u128) | ((b4 as u128) << 88u128) | ((b5 as u128) << 80u128) | ((b6 as u128) << 72u128) | ((b7 as u128) << 64u128) | ((b8 as u128) << 56u128) | ((b9 as u128) << 48u128) | ((b10 as u128) << 40u128) | ((b11 as u128) << 32u128) | ((b12 as u128) << 24u128) | ((b13 as u128) << 16u128) | ((b14 as u128) << 8u128) | ((b15 as u128) << 0u128)) >> 64u128) & 0xffu128) as u8) == b7 &&
        ((( (((b0 as u128) << 120u128) | ((b1 as u128) << 112u128) | ((b2 as u128) << 104u128) | ((b3 as u128) << 96u128) | ((b4 as u128) << 88u128) | ((b5 as u128) << 80u128) | ((b6 as u128) << 72u128) | ((b7 as u128) << 64u128) | ((b8 as u128) << 56u128) | ((b9 as u128) << 48u128) | ((b10 as u128) << 40u128) | ((b11 as u128) << 32u128) | ((b12 as u128) << 24u128) | ((b13 as u128) << 16u128) | ((b14 as u128) << 8u128) | ((b15 as u128) << 0u128)) >> 56u128) & 0xffu128) as u8) == b8 &&
        ((( (((b0 as u128) << 120u128) | ((b1 as u128) << 112u128) | ((b2 as u128) << 104u128) | ((b3 as u128) << 96u128) | ((b4 as u128) << 88u128) | ((b5 as u128) << 80u128) | ((b6 as u128) << 72u128) | ((b7 as u128) << 64u128) | ((b8 as u128) << 56u128) | ((b9 as u128) << 48u128) | ((b10 as u128) << 40u128) | ((b11 as u128) << 32u128) | ((b12 as u128) << 24u128) | ((b13 as u128) << 16u128) | ((b14 as u128) << 8u128) | ((b15 as u128) << 0u128)) >> 48u128) & 0xffu128) as u8) == b9 &&
        ((( (((b0 as u128) << 120u128) | ((b1 as u128) << 112u128) | ((b2 as u128) << 104u128) | ((b3 as u128) << 96u128) | ((b4 as u128) << 88u128) | ((b5 as u128) << 80u128) | ((b6 as u128) << 72u128) | ((b7 as u128) << 64u128) | ((b8 as u128) << 56u128) | ((b9 as u128) << 48u128) | ((b10 as u128) << 40u128) | ((b11 as u128) << 32u128) | ((b12 as u128) << 24u128) | ((b13 as u128) << 16u128) | ((b14 as u128) << 8u128) | ((b15 as u128) << 0u128)) >> 40u128) & 0xffu128) as u8) == b10 &&
        ((( (((b0 as u128) << 120u128) | ((b1 as u128) << 112u128) | ((b2 as u128) << 104u128) | ((b3 as u128) << 96u128) | ((b4 as u128) << 88u128) | ((b5 as u128) << 80u128) | ((b6 as u128) << 72u128) | ((b7 as u128) << 64u128) | ((b8 as u128) << 56u128) | ((b9 as u128) << 48u128) | ((b10 as u128) << 40u128) | ((b11 as u128) << 32u128) | ((b12 as u128) << 24u128) | ((b13 as u128) << 16u128) | ((b14 as u128) << 8u128) | ((b15 as u128) << 0u128)) >> 32u128) & 0xffu128) as u8) == b11 &&
        ((( (((b0 as u128) << 120u128) | ((b1 as u128) << 112u128) | ((b2 as u128) << 104u128) | ((b3 as u128) << 96u128) | ((b4 as u128) << 88u128) | ((b5 as u128) << 80u128) | ((b6 as u128) << 72u128) | ((b7 as u128) << 64u128) | ((b8 as u128) << 56u128) | ((b9 as u128) << 48u128) | ((b10 as u128) << 40u128) | ((b11 as u128) << 32u128) | ((b12 as u128) << 24u128) | ((b13 as u128) << 16u128) | ((b14 as u128) << 8u128) | ((b15 as u128) << 0u128)) >> 24u128) & 0xffu128) as u8) == b12 &&
        ((( (((b0 as u128) << 120u128) | ((b1 as u128) << 112u128) | ((b2 as u128) << 104u128) | ((b3 as u128) << 96u128) | ((b4 as u128) << 88u128) | ((b5 as u128) << 80u128) | ((b6 as u128) << 72u128) | ((b7 as u128) << 64u128) | ((b8 as u128) << 56u128) | ((b9 as u128) << 48u128) | ((b10 as u128) << 40u128) | ((b11 as u128) << 32u128) | ((b12 as u128) << 24u128) | ((b13 as u128) << 16u128) | ((b14 as u128) << 8u128) | ((b15 as u128) << 0u128)) >> 16u128) & 0xffu128) as u8) == b13 &&
        ((( (((b0 as u128) << 120u128) | ((b1 as u128) << 112u128) | ((b2 as u128) << 104u128) | ((b3 as u128) << 96u128) | ((b4 as u128) << 88u128) | ((b5 as u128) << 80u128) | ((b6 as u128) << 72u128) | ((b7 as u128) << 64u128) | ((b8 as u128) << 56u128) | ((b9 as u128) << 48u128) | ((b10 as u128) << 40u128) | ((b11 as u128) << 32u128) | ((b12 as u128) << 24u128) | ((b13 as u128) << 16u128) | ((b14 as u128) << 8u128) | ((b15 as u128) << 0u128)) >> 8u128) & 0xffu128) as u8) == b14 &&
        ((( (((b0 as u128) << 120u128) | ((b1 as u128) << 112u128) | ((b2 as u128) << 104u128) | ((b3 as u128) << 96u128) | ((b4 as u128) << 88u128) | ((b5 as u128) << 80u128) | ((b6 as u128) << 72u128) | ((b7 as u128) << 64u128) | ((b8 as u128) << 56u128) | ((b9 as u128) << 48u128) | ((b10 as u128) << 40u128) | ((b11 as u128) << 32u128) | ((b12 as u128) << 24u128) | ((b13 as u128) << 16u128) | ((b14 as u128) << 8u128) | ((b15 as u128) << 0u128)) >> 0u128) & 0xffu128) as u8) == b15 &&
        true) by (bit_vector);
}

/// `a` comes before `b` byte by byte: they agree up to some position, where
/// `a` holds the smaller byte.
pub open spec fn bytes_lt(a: Seq<u8>, b: Seq<u8>) -> bool {
    exists|k: int| 0 <= k < a.len() && k < b.len() && a.take(k) == b.take(k) && #[trigger] a[k] < b[k]
}

proof fn lemma_byte_step(v: u128, w: u128, s: u128)
    by (bit_vector)
    requires
        s <= 120,
        v >> (s + 8) == w >> (s + 8),
        (v >> s) & 0xff == (w >> s) & 0xff,
    ensures
        v >> s == w >> s,
{
}

proof fn lemma_byte_less(v: u128, w: u128, s: u128)
    by (bit_vector)
    requires
        s <= 120,
        v >> (s + 8) == w >> (s + 8),
        (v >> s) & 0xff < (w >> s) & 0xff,
    ensures
        v < w,
{
}

/// Equal leading bytes mean equal high bits.
proof fn lemma_prefix_top(v: u128, w: u128, k: int)
    requires
        0 <= k <= 16,
        id_bytes(v).take(k) == id_bytes(w).take(k),
    ensures
        v >> ((128 - 8 * k) as u128) == w >> ((128 - 8 * k) as u128),
    decreases k,
{
    if k == 0 {
        assert(v >> 128u128 == 0u128 && w >> 128u128 == 0u128) by (bit_vector);
    } else {
        assert(id_bytes(v).take(k - 1) =~= id_bytes(v).take(k).take(k - 1));
        assert(id_bytes(w).take(k - 1) =~= id_bytes(w).take(k).take(k - 1));
        lemma_prefix_top(v, w, k - 1);
        assert(id_bytes(v).take(k)[k - 1] == id_bytes(w).take(k)[k - 1]);
        assert(id_bytes(v).take(k)[k - 1] == id_bytes(v)[k - 1]);
        assert(id_bytes(w).take(k)[k - 1] == id_bytes(w)[k - 1]);
        let sh = (128 - 8 * k) as u128;
        assert(id_bytes(v)[k - 1] == id_byte(v, k - 1));
        assert(id_bytes(w)[k - 1] == id_byte(w, k - 1));
        assert(((120 - 8 * (k - 1)) as u128) == sh);
        assert(id_byte(v, k - 1) == id_byte(w, k - 1));
        assert((((v >> sh) & 0xffu128) as u8) == (((w >> sh) & 0xffu128) as u8));
        assert((v >> sh) & 0xffu128 == (w >> sh) & 0xffu128) by (bit_vector)
            requires
                (((v >> sh) & 0xffu128) as u8) == (((w >> sh) & 0xffu128) as u8),
        ;
        assert((sh + 8) as u128 == (128 - 8 * (k - 1)) as u128);
        lemma_byte_step(v, w, sh);
    }
}

/// Two different ids differ at some first byte.
proof fn lemma_first_difference(v: u128, w: u128, k: int)
    requires
        0 <= k <= 16,
        v != w,
        id_bytes(v).take(k) == id_bytes(w).take(k),
    ensures
        exists|j: int|
            k <= j < 16 && id_bytes(v).take(j) == id_bytes(w).take(j) && #[trigger] id_bytes(v)[j]
                != id_bytes(w)[j],
    decreases 16 - k,
{
    if k == 16 {
        assert(id_bytes(v) =~= id_bytes(v).take(16));
        assert(id_bytes(w) =~= id_bytes(w).take(16));
        lemma_bytes_roundtrip(v);
        lemma_bytes_roundtrip(w);
    } else if id_bytes(v)[k] != id_bytes(w)[k] {
    } else {
        assert(id_bytes(v).take(k + 1) =~= id_bytes(v).take(k).push(id_bytes(v)[k]));
        assert(id_bytes(w).take(k + 1) =~= id_bytes(w).take(k).push(id_bytes(w)[k]));
        lemma_first_difference(v, w, k + 1);
    }
}

/// At the first differing byte, the smaller byte belongs to the smaller id.
proof fn lemma_order_at(v: u128, w: u128, k: int)
    requires
        0 <= k < 16,
        id_bytes(v).take(k) == id_bytes(w).take(k),
        id_bytes(v)[k] < id_bytes(w)[k],
    ensures
        v < w,
{
    lemma_prefix_top(v, w, k);
    let sh = (120 - 8 * k) as u128;
    assert(id_bytes(v)[k] == (((v >> sh) & 0xffu128) as u8));
    assert(id_bytes(w)[k] == (((w >> sh) & 0xffu128) as u8));
    assert((v >> sh) & 0xffu128 < (w >> sh) & 0xffu128) by (bit_vector)
        requires
            (((v >> sh) & 0xffu128) as u8) < (((w >> sh) & 0xffu128) as u8),
    ;
    assert((sh + 8) as u128 == (128 - 8 * k) as u128);
    lemma_byte_less(v, w, sh);
}

/// Ids order by value exactly as their big-endian bytes order
/// lexicographically, so sorting ids and sorting their bytes agree.
pub proof fn lemma_id_order(v: u128, w: u128)
    ensures
        v < w <==> bytes_lt(id_bytes(v), id_bytes(w)),
{
    if bytes_lt(id_bytes(v), id_bytes(w)) {
        let k = choose|k: int|
            0 <= k < id_bytes(v).len() && k < id_bytes(w).len() && id_bytes(v).take(k) == id_bytes(
                w,
            ).take(k) && #[trigger] id_bytes(v)[k] < id_bytes(w)[k];
        lemma_order_at(v, w, k);
    }
    if v < w {
        assert(id_bytes(v).take(0) =~= id_bytes(w).take(0));
        lemma_first_difference(v, w, 0);
        let j = choose|j: int|
            0 <= j < 16 && id_bytes(v).take(j) == id_bytes(w).take(j) && #[trigger] id_bytes(v)[j]
                != id_bytes(w)[j];
        if id_bytes(w)[j] < id_bytes(v)[j] {
            lemma_order_at(w, v, j);
        }
        assert(id_bytes(v)[j] < id_bytes(w)[j]);
    }
}

/// Ids built from sixteen bytes order as the bytes do, lexicographically.
pub proof fn lemma_bytes_order(a: Seq<u8>, b: Seq<u8>)
    requires
        a.len() == 16,
        b.len() == 16,
    ensures
        bytes_value(a) < bytes_value(b) <==> bytes_lt(a, b),
{
    lemma_value_roundtrip(a);
    lemma_value_roundtrip(b);
    lemma_id_order(bytes_value(a), bytes_value(b));
}

} // verus!
