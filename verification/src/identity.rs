//! Peer addresses and their text form.
//!
//! An address is 32 opaque bytes. Its text form is 64 lowercase hexadecimal
//! digits, two per byte, high nibble first.

use vstd::prelude::*;
use vstd::utf8::{encode_utf8, is_ascii_chars, is_ascii_chars_encode_utf8};

verus! {

/// Number of bytes in an address.
pub const KEY_LENGTH: usize = 32;

/// Number of digits in the text form of an address.
pub const TEXT_LENGTH: usize = 64;

/// Why a text is not an address.
#[derive(Clone, Copy, Debug, PartialEq, Eq, Structural)]
pub enum ParseError {
    /// The text is not exactly 64 bytes long.
    WrongLength,
    /// The text has the right length but holds a byte that is not a
    /// lowercase hexadecimal digit.
    InvalidDigit,
}

/// The address of one endpoint of a tunnel.
#[derive(Clone, Copy, Debug, Eq, Hash)]
pub struct PublicKey {
    bytes: [u8; 32],
}

impl View for PublicKey {
    type V = Seq<u8>;

    closed spec fn view(&self) -> Seq<u8> {
        self.bytes@
    }
}

impl PartialEq for PublicKey {
    fn eq(&self, other: &PublicKey) -> (equal: bool) {
        self.same(other)
    }
}

impl vstd::std_specs::cmp::PartialEqSpecImpl for PublicKey {
    open spec fn obeys_eq_spec() -> bool {
        true
    }

    open spec fn eq_spec(&self, other: &PublicKey) -> bool {
        self@ == other@
    }
}

/// Whether `b` is one of `0`-`9` or `a`-`f` in ASCII.
pub open spec fn is_hex_digit(b: u8) -> bool {
    (48 <= b && b <= 57) || (97 <= b && b <= 102)
}

/// The number that the hexadecimal digit `b` stands for.
pub open spec fn digit_value(b: u8) -> int {
    if b <= 57 {
        b - 48
    } else {
        b - 87
    }
}

/// The ASCII digit that stands for `v`, for `v` below 16.
pub open spec fn digit_byte(v: int) -> u8 {
    if v < 10 {
        (48 + v) as u8
    } else {
        (87 + v) as u8
    }
}

/// The character that stands for `v`, for `v` below 16.
pub open spec fn digit_char(v: int) -> char {
    if v == 0 {
        '0'
    } else if v == 1 {
        '1'
    } else if v == 2 {
        '2'
    } else if v == 3 {
        '3'
    } else if v == 4 {
        '4'
    } else if v == 5 {
        '5'
    } else if v == 6 {
        '6'
    } else if v == 7 {
        '7'
    } else if v == 8 {
        '8'
    } else if v == 9 {
        '9'
    } else if v == 10 {
        'a'
    } else if v == 11 {
        'b'
    } else if v == 12 {
        'c'
    } else if v == 13 {
        'd'
    } else if v == 14 {
        'e'
    } else {
        'f'
    }
}

/// The nibble that digit `i` of the text form of `key` shows.
pub open spec fn nibble_at(key: Seq<u8>, i: int) -> int {
    if i % 2 == 0 {
        key[i / 2] as int / 16
    } else {
        key[i / 2] as int % 16
    }
}

/// The text form of `key`, as bytes.
pub open spec fn encode_hex(key: Seq<u8>) -> Seq<u8> {
    Seq::new(2 * key.len(), |i: int| digit_byte(nibble_at(key, i)))
}

/// The text form of `key`, as characters.
pub open spec fn encode_hex_chars(key: Seq<u8>) -> Seq<char> {
    Seq::new(2 * key.len(), |i: int| digit_char(nibble_at(key, i)))
}

/// The bytes that a text of hexadecimal digits stands for.
pub open spec fn decode_hex(text: Seq<u8>) -> Seq<u8> {
    Seq::new(
        text.len() / 2,
        |i: int| (digit_value(text[2 * i]) * 16 + digit_value(text[2 * i + 1])) as u8,
    )
}

/// What parsing the bytes of a text gives: the address bytes, or the reason
/// why the text is none.
pub open spec fn parse_text(text: Seq<u8>) -> Result<Seq<u8>, ParseError> {
    if text.len() != 64 {
        Err(ParseError::WrongLength)
    } else if exists|i: int| 0 <= i < 64 && !is_hex_digit(#[trigger] text[i]) {
        Err(ParseError::InvalidDigit)
    } else {
        Ok(decode_hex(text))
    }
}

/// `String::push`: appends one character to the end of the string.
#[verifier::external_body]
fn push_char(text: &mut String, c: char)
    ensures
        final(text)@ == old(text)@.push(c),
{
    text.push(c);
}

fn hex_value(b: u8) -> (v: Option<u8>)
    ensures
        is_hex_digit(b) <==> v.is_some(),
        v.is_some() ==> v.unwrap() as int == digit_value(b) && v.unwrap() < 16,
{
    if 48 <= b && b <= 57 {
        Some(b - 48)
    } else if 97 <= b && b <= 102 {
        Some(b - 87)
    } else {
        None
    }
}

fn hex_char(v: u8) -> (c: char)
    requires
        v < 16,
    ensures
        c == digit_char(v as int),
{
    match v {
        0 => '0',
        1 => '1',
        2 => '2',
        3 => '3',
        4 => '4',
        5 => '5',
        6 => '6',
        7 => '7',
        8 => '8',
        9 => '9',
        10 => 'a',
        11 => 'b',
        12 => 'c',
        13 => 'd',
        14 => 'e',
        _ => 'f',
    }
}

impl PublicKey {
    /// Parses the text form of an address.
    pub fn new(value: &str) -> (parsed: Result<PublicKey, ParseError>)
        ensures
            match parse_text(encode_utf8(value@)) {
                Ok(key) => parsed.is_ok() && parsed.unwrap()@ == key,
                Err(e) => parsed == Err::<PublicKey, ParseError>(e),
            },
    {
        let text = value.as_bytes();
        if text.len() != 64 {
            return Err(ParseError::WrongLength);
        }
        let mut bytes: [u8; 32] = [0u8; 32];
        let mut i: usize = 0;
        while i < 32
            invariant
                i <= 32,
                text@.len() == 64,
                text@ == encode_utf8(value@),
                forall|j: int| 0 <= j < 2 * i ==> is_hex_digit(#[trigger] text@[j]),
                forall|j: int| 0 <= j < i ==> bytes@[j] == #[trigger] decode_hex(text@)[j],
            decreases 32 - i,
        {
            let hi = hex_value(text[2 * i]);
            let lo = hex_value(text[2 * i + 1]);
            match (hi, lo) {
                (Some(h), Some(l)) => {
                    bytes[i] = h * 16 + l;
                },
                _ => {
                    assert(!is_hex_digit(text@[2 * i as int]) || !is_hex_digit(
                        text@[2 * i as int + 1],
                    ));
                    return Err(ParseError::InvalidDigit);
                },
            }
            i = i + 1;
        }
        assert(bytes@ =~= decode_hex(text@));
        Ok(PublicKey { bytes })
    }

    /// Builds an address from its 32 bytes.
    pub fn from_bytes(bytes: [u8; 32]) -> (key: PublicKey)
        ensures
            key@ == bytes@,
    {
        PublicKey { bytes }
    }

    /// The 32 bytes of the address.
    pub fn as_bytes(&self) -> (bytes: [u8; 32])
        ensures
            bytes@ == self@,
    {
        self.bytes
    }

    /// The text form of the address: 64 lowercase hexadecimal digits.
    pub fn to_string(&self) -> (text: String)
        ensures
            text@ == encode_hex_chars(self@),
    {
        let mut text = String::new();
        let mut i: usize = 0;
        while i < 32
            invariant
                i <= 32,
                self@.len() == 32,
                text@ =~= encode_hex_chars(self@).subrange(0, 2 * i as int),
            decreases 32 - i,
        {
            let b: u8 = self.bytes[i];
            assert(nibble_at(self@, 2 * i as int) == b as int / 16);
            assert(nibble_at(self@, 2 * i as int + 1) == b as int % 16);
            push_char(&mut text, hex_char(b / 16));
            push_char(&mut text, hex_char(b % 16));
            i = i + 1;
        }
        assert(text@ =~= encode_hex_chars(self@));
        text
    }

    /// Whether two addresses hold the same bytes.
    pub fn same(&self, other: &PublicKey) -> (equal: bool)
        ensures
            equal == (self@ == other@),
    {
        let mut i: usize = 0;
        while i < 32
            invariant
                i <= 32,
                self@.len() == 32,
                other@.len() == 32,
                forall|j: int| 0 <= j < i ==> self@[j] == other@[j],
            decreases 32 - i,
        {
            if self.bytes[i] != other.bytes[i] {
                return false;
            }
            i = i + 1;
        }
        assert(self@ =~= other@);
        true
    }

    /// Every address has 32 bytes.
    pub proof fn lemma_length(self)
        ensures
            self@.len() == 32,
    {
    }

    /// Two addresses with the same bytes are the same address.
    pub proof fn lemma_equal_by_bytes(self, other: PublicKey)
        requires
            self@ == other@,
        ensures
            self == other,
    {
        assert(self.bytes@ =~= other.bytes@);
        assert(self.bytes == other.bytes);
    }
}

/// The text form of an address is 64 ASCII characters, and its bytes are
/// the hexadecimal encoding of the address.
pub proof fn lemma_text_bytes(key: Seq<u8>)
    requires
        key.len() == 32,
    ensures
        is_ascii_chars(encode_hex_chars(key)),
        encode_utf8(encode_hex_chars(key)) == encode_hex(key),
{
    let chars = encode_hex_chars(key);
    assert forall|i: int| 0 <= i < chars.len() implies '\0' <= #[trigger] chars[i] <= '\u{7f}'
        && chars[i] as u8 == encode_hex(key)[i] by {
        let v = nibble_at(key, i);
        assert(0 <= v < 16);
    }
    is_ascii_chars_encode_utf8(chars);
    assert(encode_utf8(chars) =~= encode_hex(key));
}

/// Parsing the text form of an address gives the address back.
pub proof fn lemma_parse_inverts_to_string(key: PublicKey)
    ensures
        parse_text(encode_utf8(encode_hex_chars(key@))) == Ok::<Seq<u8>, ParseError>(key@),
{
    key.lemma_length();
    lemma_text_bytes(key@);
    lemma_decode_inverts_encode(key@);
}

/// Decoding the hexadecimal encoding of 32 bytes gives the bytes back, and
/// every byte of the encoding is a digit.
pub proof fn lemma_decode_inverts_encode(key: Seq<u8>)
    requires
        key.len() == 32,
    ensures
        parse_text(encode_hex(key)) == Ok::<Seq<u8>, ParseError>(key),
{
    let text = encode_hex(key);
    assert forall|i: int| 0 <= i < 64 implies is_hex_digit(#[trigger] text[i]) by {
        let v = nibble_at(key, i);
        assert(0 <= v < 16);
    }
    assert forall|i: int| 0 <= i < 32 implies decode_hex(text)[i] == key[i] by {
        let b = key[i] as int;
        assert(nibble_at(key, 2 * i) == b / 16);
        assert(nibble_at(key, 2 * i + 1) == b % 16);
        assert(digit_value(digit_byte(b / 16)) == b / 16);
        assert(digit_value(digit_byte(b % 16)) == b % 16);
        assert((b / 16) * 16 + b % 16 == b);
    }
    assert(decode_hex(text) =~= key);
}

/// A text that parses is the text form of the address it parses to: every
/// address has exactly one text form.
pub proof fn lemma_text_is_canonical(text: Seq<u8>)
    requires
        parse_text(text).is_ok(),
    ensures
        encode_hex(parse_text(text).unwrap()) == text,
{
    let key = decode_hex(text);
    assert forall|i: int| 0 <= i < 64 implies encode_hex(key)[i] == text[i] by {
        let k = i / 2;
        assert(is_hex_digit(text[2 * k]));
        assert(is_hex_digit(text[2 * k + 1]));
        let h = digit_value(text[2 * k]);
        let l = digit_value(text[2 * k + 1]);
        assert(0 <= h < 16 && 0 <= l < 16);
        assert(key[k] as int == h * 16 + l);
        assert((h * 16 + l) / 16 == h);
        assert((h * 16 + l) % 16 == l);
        assert(digit_byte(h) == text[2 * k]);
        assert(digit_byte(l) == text[2 * k + 1]);
    }
    assert(encode_hex(key) =~= text);
}

} // verus!
