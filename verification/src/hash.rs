//! The 8-byte key codec: a string shorter than eight bytes is embedded in the
//! key, a longer one is reduced to 56 bits of its digest.
//!
//! Collision risk: a hashed key keeps the low 56 bits of the 128-bit digest
//! (the low 64 bits in big-endian order with the first byte cleared), so two
//! distinct long strings share a key with probability about 2^-56 per pair.
//! The tables detect such a pair when the second string is interned.

use vstd::prelude::*;
use vstd::slice::*;
use vstd::string::*;
use vstd::utf8::*;

verus! {

/// Marker bit of the first byte of an inlined key.
pub const HASH_LEN_MASK: u8 = 0x80;

/// The eight bytes of `v`, most significant first.
pub open spec fn be_bytes(v: u64) -> Seq<u8> {
    seq![
        (v >> 56) as u8,
        (v >> 48) as u8,
        (v >> 40) as u8,
        (v >> 32) as u8,
        (v >> 24) as u8,
        (v >> 16) as u8,
        (v >> 8) as u8,
        v as u8,
    ]
}

/// The number whose big-endian bytes are `b`.
pub open spec fn be_value(b: Seq<u8>) -> u64
    recommends
        b.len() == 8,
{
    ((b[0] as u64) << 56) | ((b[1] as u64) << 48) | ((b[2] as u64) << 40) | ((b[3] as u64) << 32)
        | ((b[4] as u64) << 24) | ((b[5] as u64) << 16) | ((b[6] as u64) << 8) | (b[7] as u64)
}

/// Whether the marker byte says that the key embeds its text.
pub open spec fn is_inlined_key(b: Seq<u8>) -> bool {
    b[0] != 0
}

/// The length that the marker byte of an inlined key records.
pub open spec fn inline_len(b: Seq<u8>) -> int {
    (b[0] ^ 0x80u8) as int
}

/// The bytes that an inlined key embeds.
pub open spec fn inline_payload(b: Seq<u8>) -> Seq<u8> {
    b.subrange(1, 1 + inline_len(b))
}

/// An inlined key whose recorded length fits and whose payload is text.
pub open spec fn is_inline_text_key(b: Seq<u8>) -> bool {
    &&& b.len() == 8
    &&& is_inlined_key(b)
    &&& inline_len(b) <= 7
    &&& valid_utf8(inline_payload(b))
}

/// The text that a well-formed inlined key embeds.
pub open spec fn inline_text(b: Seq<u8>) -> Seq<char> {
    decode_utf8(inline_payload(b))
}

/// The inlined key of a payload shorter than eight bytes: the marker bit with
/// the length, the payload, then zeros.
pub open spec fn inline_key(raw: Seq<u8>) -> Seq<u8> {
    Seq::new(
        8,
        |i: int|
            if i == 0 {
                0x80u8 | (raw.len() as u8)
            } else if i <= raw.len() {
                raw[i - 1]
            } else {
                0u8
            },
    )
}

/// The hashed key of a digest: the low 64 bits, most significant byte first,
/// with the first byte cleared.
pub open spec fn hashed_key(digest: u128) -> Seq<u8> {
    be_bytes(digest as u64).update(0, 0u8)
}

/// The lower-case hexadecimal digit of a number below sixteen.
pub open spec fn hex_digit(d: int) -> char {
    if d == 0 {
        '0'
    } else if d == 1 {
        '1'
    } else if d == 2 {
        '2'
    } else if d == 3 {
        '3'
    } else if d == 4 {
        '4'
    } else if d == 5 {
        '5'
    } else if d == 6 {
        '6'
    } else if d == 7 {
        '7'
    } else if d == 8 {
        '8'
    } else if d == 9 {
        '9'
    } else if d == 10 {
        'a'
    } else if d == 11 {
        'b'
    } else if d == 12 {
        'c'
    } else if d == 13 {
        'd'
    } else if d == 14 {
        'e'
    } else {
        'f'
    }
}

/// A number in lower-case hexadecimal digits, without leading zeros.
pub open spec fn lower_hex(v: nat) -> Seq<char>
    decreases v,
{
    if v < 16 {
        seq![hex_digit(v as int)]
    } else {
        lower_hex(v / 16).push(hex_digit((v % 16) as int))
    }
}

/// How a key is shown: the embedded text of an inlined key, the value of a
/// hashed key in hexadecimal digits.
pub open spec fn key_text(b: Seq<u8>) -> Seq<char> {
    if is_inlined_key(b) {
        inline_text(b)
    } else {
        lower_hex(be_value(b) as nat)
    }
}

/// The 128-bit digest that `stable_hash::fast_stable_hash` computes for a
/// string slice with this text.
pub uninterp spec fn fast_stable_hash_of(text: Seq<char>) -> u128;

/// The key of a text: every text has exactly one.
pub open spec fn encode(text: Seq<char>) -> Seq<u8> {
    let raw = encode_utf8(text);
    if raw.len() >= 8 {
        hashed_key(fast_stable_hash_of(text))
    } else {
        inline_key(raw)
    }
}

/// Calls `stable_hash::fast_stable_hash` on the string slice. Not proved: the
/// digest depends on the text alone. The function hashes the bytes of the
/// text with fixed seeds and reads nothing else.
#[verifier::external_body]
fn fast_hash(s: &str) -> (digest: u128)
    ensures
        digest == fast_stable_hash_of(s@),
{
    stable_hash::fast_stable_hash(&s)
}

/// Calls `core::str::from_utf8`. Not proved: it accepts exactly the byte
/// strings that are valid UTF-8, and the slice it returns has the same bytes.
#[verifier::external_body]
fn utf8_text<'a>(bytes: &'a [u8]) -> (text: Option<&'a str>)
    ensures
        text is Some <==> valid_utf8(bytes@),
        text is Some ==> text.unwrap().spec_bytes() == bytes@,
{
    core::str::from_utf8(bytes).ok()
}

/// The digit of a number below sixteen, as a string of one character.
fn hex_digit_str(d: u64) -> (digit: &'static str)
    requires
        d < 16,
    ensures
        digit@ == seq![hex_digit(d as int)],
{
    proof {
        reveal_strlit("0");
        reveal_strlit("1");
        reveal_strlit("2");
        reveal_strlit("3");
        reveal_strlit("4");
        reveal_strlit("5");
        reveal_strlit("6");
        reveal_strlit("7");
        reveal_strlit("8");
        reveal_strlit("9");
        reveal_strlit("a");
        reveal_strlit("b");
        reveal_strlit("c");
        reveal_strlit("d");
        reveal_strlit("e");
        reveal_strlit("f");
    }
    let digit = match d {
        0 => "0",
        1 => "1",
        2 => "2",
        3 => "3",
        4 => "4",
        5 => "5",
        6 => "6",
        7 => "7",
        8 => "8",
        9 => "9",
        10 => "a",
        11 => "b",
        12 => "c",
        13 => "d",
        14 => "e",
        _ => "f",
    };
    assert(digit@ =~= seq![hex_digit(d as int)]);
    digit
}

/// Appends the lower-case hexadecimal digits of `v` to `out`.
fn push_lower_hex(out: &mut String, v: u64)
    ensures
        final(out)@ == old(out)@ + lower_hex(v as nat),
    decreases v,
{
    if v >= 16 {
        push_lower_hex(out, v / 16);
    }
    out.append(hex_digit_str(v % 16));
    assert(out@ =~= old(out)@ + lower_hex(v as nat));
}

/// An encoded key: eight bytes, either inlined text or a truncated digest.
#[derive(Clone, Copy, Eq, Ord, Hash, Debug)]
pub struct InternedStringHash([u8; 8]);

impl View for InternedStringHash {
    type V = Seq<u8>;

    closed spec fn view(&self) -> Seq<u8> {
        self.0@
    }
}

impl InternedStringHash {
    /// The key read as a big-endian number; the tables are indexed by it.
    pub open spec fn value(self) -> u64 {
        be_value(self@)
    }

    /// A key always has eight bytes.
    pub broadcast proof fn view_len(self)
        ensures
            #[trigger] self@.len() == 8,
    {
    }

    /// Keys with the same bytes are the same key.
    pub proof fn eq_by_bytes(self, other: Self)
        requires
            self@ == other@,
        ensures
            self == other,
    {
        assert(self.0@ =~= other.0@);
        assert(self.0 == other.0);
    }

    /// The key whose big-endian value is `hash`.
    pub fn new(hash: u64) -> (key: Self)
        ensures
            key@ == be_bytes(hash),
            key.value() == hash,
    {
        proof {
            be_value_of_bytes(hash);
        }
        let bytes: [u8; 8] = [
            #[verifier::truncate] ((hash >> 56) as u8),
            #[verifier::truncate] ((hash >> 48) as u8),
            #[verifier::truncate] ((hash >> 40) as u8),
            #[verifier::truncate] ((hash >> 32) as u8),
            #[verifier::truncate] ((hash >> 24) as u8),
            #[verifier::truncate] ((hash >> 16) as u8),
            #[verifier::truncate] ((hash >> 8) as u8),
            #[verifier::truncate] (hash as u8),
        ];
        assert(bytes@ =~= be_bytes(hash));
        Self(bytes)
    }

    /// The hashed key of a digest.
    pub fn from_digest(digest: u128) -> (key: Self)
        ensures
            key@ == hashed_key(digest),
            !is_inlined_key(key@),
    {
        let low: u64 = #[verifier::truncate] (digest as u64);
        let mut key = Self::new(low);
        key.0[0] = 0;
        assert(key@ =~= hashed_key(digest));
        key
    }

    /// The inlined key of a payload shorter than eight bytes.
    pub fn from_inline_bytes(raw: &[u8]) -> (key: Self)
        requires
            raw@.len() < 8,
        ensures
            key@ == inline_key(raw@),
    {
        let n: usize = raw.len();
        let mut bytes: [u8; 8] = [0u8; 8];
        bytes[0] = HASH_LEN_MASK | (n as u8);
        let mut i: usize = 0;
        while i < n
            invariant
                n == raw@.len(),
                n < 8,
                i <= n,
                bytes@.len() == 8,
                bytes@[0] == 0x80u8 | (n as u8),
                forall|j: int| 1 <= j <= i ==> bytes@[j] == raw@[j - 1],
                forall|j: int| i < j < 8 ==> bytes@[j] == 0u8,
            decreases n - i,
        {
            bytes[i + 1] = raw[i];
            i += 1;
        }
        assert(bytes@ =~= inline_key(raw@));
        Self(bytes)
    }

    /// Encodes a text: inlined when it is shorter than eight bytes, hashed
    /// otherwise.
    pub fn from_str(s: &str) -> (key: Self)
        ensures
            key@ == encode(s@),
    {
        let raw = s.as_bytes();
        if raw.len() >= 8 {
            Self::from_digest(fast_hash(s))
        } else {
            Self::from_inline_bytes(raw)
        }
    }

    /// The all-zero key.
    pub fn empty() -> (key: Self)
        ensures
            key@ == Seq::new(8, |i: int| 0u8),
    {
        let bytes: [u8; 8] = [0u8; 8];
        assert(bytes@ =~= Seq::new(8, |i: int| 0u8));
        Self(bytes)
    }

    /// The key with exactly these bytes.
    pub fn from_bytes(bytes: [u8; 8]) -> (key: Self)
        ensures
            key@ == bytes@,
    {
        Self(bytes)
    }

    /// The key read as a big-endian number.
    pub fn hash(&self) -> (v: u64)
        ensures
            v == self.value(),
    {
        ((self.0[0] as u64) << 56) | ((self.0[1] as u64) << 48) | ((self.0[2] as u64) << 40) | ((
        self.0[3] as u64) << 32) | ((self.0[4] as u64) << 24) | ((self.0[5] as u64) << 16) | ((
        self.0[6] as u64) << 8) | (self.0[7] as u64)
    }

    /// Reads the marker byte only.
    pub fn is_inlined(&self) -> (inlined: bool)
        ensures
            inlined == is_inlined_key(self@),
    {
        self.0[0] != 0
    }

    /// Overwrites the marker byte with the marker bit and `len`.
    pub fn set_inline_len(&mut self, len: usize)
        requires
            len < 7,
        ensures
            final(self)@ == old(self)@.update(0, 0x80u8 | (len as u8)),
    {
        self.0[0] = HASH_LEN_MASK | (len as u8);
        assert(self@ =~= old(self)@.update(0, 0x80u8 | (len as u8)));
    }

    /// The length that the marker byte records.
    pub fn get_inlined_len(&self) -> (len: usize)
        requires
            is_inlined_key(self@),
        ensures
            len == inline_len(self@),
    {
        (self.0[0] ^ HASH_LEN_MASK) as usize
    }

    /// The embedded text of a well-formed inlined key.
    pub fn get_inlined_str(&self) -> (text: &str)
        requires
            is_inline_text_key(self@),
        ensures
            text@ == inline_text(self@),
    {
        match self.try_get_inlined_str() {
            Some(text) => text,
            None => "",
        }
    }

    /// The embedded text, where the key is a well-formed inlined key.
    pub fn try_get_inlined_str(&self) -> (text: Option<&str>)
        ensures
            text is Some <==> is_inline_text_key(self@),
            text is Some ==> text.unwrap()@ == inline_text(self@),
    {
        if !self.is_inlined() {
            return None;
        }
        let len = self.get_inlined_len();
        if len > 7 {
            return None;
        }
        let payload = slice_subrange(self.0.as_slice(), 1, 1 + len);
        let text = utf8_text(payload);
        proof {
            if let Some(t) = text {
                encode_utf8_decode_utf8(t@);
            }
        }
        text
    }

    /// The key as it is shown: the embedded text of a well-formed inlined
    /// key, the value of a hashed key in lower-case hexadecimal digits.
    pub fn to_text(&self) -> (text: String)
        requires
            is_inlined_key(self@) ==> is_inline_text_key(self@),
        ensures
            text@ == key_text(self@),
    {
        if self.is_inlined() {
            self.get_inlined_str().to_owned()
        } else {
            let mut text = String::new();
            push_lower_hex(&mut text, self.hash());
            assert(text@ =~= key_text(self@));
            text
        }
    }
}

/// Reading the bytes of a number gives the number back.
pub proof fn be_value_of_bytes(v: u64)
    ensures
        be_value(be_bytes(v)) == v,
{
    assert(((((v >> 56) as u8) as u64) << 56) | ((((v >> 48) as u8) as u64) << 48) | ((((v >> 40) as u8) as u64)
        << 40) | ((((v >> 32) as u8) as u64) << 32) | ((((v >> 24) as u8) as u64) << 24) | ((((v
        >> 16) as u8) as u64) << 16) | ((((v >> 8) as u8) as u64) << 8) | ((v as u8) as u64) == v)
        by (bit_vector);
}

/// The bytes of the number that eight bytes spell are those bytes.
pub proof fn be_bytes_of_value(b: Seq<u8>)
    requires
        b.len() == 8,
    ensures
        be_bytes(be_value(b)) == b,
{
    let (b0, b1, b2, b3, b4, b5, b6, b7) = (b[0], b[1], b[2], b[3], b[4], b[5], b[6], b[7]);
    let v = be_value(b);
    assert(v == ((b0 as u64) << 56) | ((b1 as u64) << 48) | ((b2 as u64) << 40) | ((b3 as u64)
        << 32) | ((b4 as u64) << 24) | ((b5 as u64) << 16) | ((b6 as u64) << 8) | (b7 as u64));
    assert(v == ((b0 as u64) << 56) | ((b1 as u64) << 48) | ((b2 as u64) << 40) | ((b3 as u64)
        << 32) | ((b4 as u64) << 24) | ((b5 as u64) << 16) | ((b6 as u64) << 8) | (b7 as u64) ==> {
        &&& (v >> 56) as u8 == b0
        &&& (v >> 48) as u8 == b1
        &&& (v >> 40) as u8 == b2
        &&& (v >> 32) as u8 == b3
        &&& (v >> 24) as u8 == b4
        &&& (v >> 16) as u8 == b5
        &&& (v >> 8) as u8 == b6
        &&& v as u8 == b7
    }) by (bit_vector);
    assert(be_bytes(v) =~= b);
}

/// Keys are told apart by their big-endian value: two keys with the same
/// value are the same key.
pub proof fn value_determines_key(a: InternedStringHash, b: InternedStringHash)
    requires
        a.value() == b.value(),
    ensures
        a == b,
{
    a.view_len();
    b.view_len();
    be_bytes_of_value(a@);
    be_bytes_of_value(b@);
    a.eq_by_bytes(b);
}

/// Every key has eight bytes, and the marker byte tells the two variants
/// apart: a text shorter than eight bytes gets an inlined key, any other text
/// a key whose first byte is zero.
pub proof fn encode_marks_variant(text: Seq<char>)
    ensures
        encode(text).len() == 8,
        is_inlined_key(encode(text)) <==> encode_utf8(text).len() < 8,
{
    let raw = encode_utf8(text);
    if raw.len() < 8 {
        let n = raw.len() as u8;
        assert(n < 8 ==> 0x80u8 | n != 0) by (bit_vector);
    }
}

/// A text shorter than eight bytes is recovered from its key alone.
pub proof fn encode_short_roundtrip(text: Seq<char>)
    requires
        encode_utf8(text).len() < 8,
    ensures
        is_inline_text_key(encode(text)),
        inline_text(encode(text)) == text,
{
    let raw = encode_utf8(text);
    let key = encode(text);
    let n = raw.len() as u8;
    assert(n < 8 ==> 0x80u8 | n != 0 && (0x80u8 | n) ^ 0x80u8 == n) by (bit_vector);
    assert(inline_payload(key) =~= raw);
    encode_utf8_valid_utf8(text);
    encode_utf8_decode_utf8(text);
}

} // verus!
