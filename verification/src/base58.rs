//! Base-58 text for byte strings: a reversible byte-to-text mapping whose
//! output holds only letters and digits, so that it can travel in a header.

use vstd::prelude::*;
use crate::numeral::{
    digits_below, lemma_recode_round_trip, leading_zeros, recode, recode_spec, value_be, zeros,
    digits_of,
};
use crate::text::{all_ascii, ascii_string, chars_of, utf8_of};

verus! {

/// Why a text is not base-58.
#[derive(Clone, Copy, Debug, PartialEq, Eq, Structural)]
pub enum DecodeError {
    /// The text is empty.
    Empty,
    /// The byte at `position` is not a symbol of the alphabet.
    InvalidCharacter { position: usize },
    /// The text decodes to `length` bytes, which is not the width asked for.
    InvalidLength { length: usize },
}

/// The symbol that stands for digit `d`, in the alphabet
/// `123456789ABCDEFGHJKLMNPQRSTUVWXYZabcdefghijkmnopqrstuvwxyz`.
pub open spec fn symbol(d: u8) -> u8 {
    if d < 9 {
        (49 + d) as u8
    } else if d < 17 {
        (65 + (d - 9)) as u8
    } else if d < 22 {
        (74 + (d - 17)) as u8
    } else if d < 33 {
        (80 + (d - 22)) as u8
    } else if d < 44 {
        (97 + (d - 33)) as u8
    } else {
        (109 + (d - 44)) as u8
    }
}

/// The digit that symbol `c` stands for, if `c` is in the alphabet.
pub open spec fn digit(c: u8) -> Option<u8> {
    if 49 <= c <= 57 {
        Some((c - 49) as u8)
    } else if 65 <= c <= 72 {
        Some((c - 65 + 9) as u8)
    } else if 74 <= c <= 78 {
        Some((c - 74 + 17) as u8)
    } else if 80 <= c <= 90 {
        Some((c - 80 + 22) as u8)
    } else if 97 <= c <= 107 {
        Some((c - 97 + 33) as u8)
    } else if 109 <= c <= 122 {
        Some((c - 109 + 44) as u8)
    } else {
        None
    }
}

/// The digit of `c`, or zero where `c` is no symbol.
pub open spec fn digit_or_zero(c: u8) -> u8 {
    match digit(c) {
        Some(d) => d,
        None => 0,
    }
}

/// How many symbols of the alphabet stand at the front of `text`.
pub open spec fn leading_symbols(text: Seq<u8>) -> nat
    decreases text.len(),
{
    if text.len() == 0 || digit(text[0]) is None {
        0
    } else {
        1 + leading_symbols(text.drop_first())
    }
}

/// The base-58 text of `bytes`.
pub open spec fn encode_spec(bytes: Seq<u8>) -> Seq<u8> {
    recode_spec(bytes, 256, 58).map_values(|d: u8| symbol(d))
}

/// The digits that the symbols of `text` stand for.
pub open spec fn digits_in(text: Seq<u8>) -> Seq<u8> {
    text.map_values(|c: u8| digit_or_zero(c))
}

/// What `text` decodes to: an error for the empty text and for a text with
/// a byte outside the alphabet, else the bytes that it stands for.
pub open spec fn decode_spec(text: Seq<u8>) -> Result<Seq<u8>, DecodeError> {
    if text.len() == 0 {
        Err(DecodeError::Empty)
    } else if leading_symbols(text) < text.len() {
        Err(DecodeError::InvalidCharacter { position: leading_symbols(text) as usize })
    } else {
        Ok(recode_spec(digits_in(text), 58, 256))
    }
}

/// The count of leading symbols is fixed by where the first byte outside
/// the alphabet is.
proof fn lemma_leading_symbols_is(text: Seq<u8>, k: nat)
    requires
        k <= text.len(),
        forall|i: int| 0 <= i < k ==> digit(#[trigger] text[i]) is Some,
        k < text.len() ==> digit(text[k as int]) is None,
    ensures
        leading_symbols(text) == k,
    decreases text.len(),
{
    if text.len() > 0 && digit(text[0]) is Some {
        let rest = text.drop_first();
        assert(k > 0);
        assert forall|i: int| 0 <= i < k - 1 implies digit(#[trigger] rest[i]) is Some by {
            assert(rest[i] == text[i + 1]);
        }
        if k < text.len() {
            assert(rest[k - 1] == text[k as int]);
        }
        lemma_leading_symbols_is(rest, (k - 1) as nat);
    }
}

/// Each digit has a symbol of its own, a letter or a digit of ASCII.
pub proof fn lemma_symbol_digit(d: u8)
    requires
        d < 58,
    ensures
        digit(symbol(d)) == Some(d),
        symbol(d) < 128,
        48 <= symbol(d) <= 57 || 65 <= symbol(d) <= 90 || 97 <= symbol(d) <= 122,
{
}

/// Whether `c` is the code of an ASCII letter or digit.
pub open spec fn is_letter_or_digit(c: u8) -> bool {
    48 <= c <= 57 || 65 <= c <= 90 || 97 <= c <= 122
}

/// The text of a byte string holds letters and digits only, so it is safe
/// in a header and in a URL; each is a symbol, and they stand for the
/// byte string written in base 58.
pub proof fn lemma_encode_shape(bytes: Seq<u8>)
    ensures
        all_ascii(encode_spec(bytes)),
        forall|i: int|
            0 <= i < encode_spec(bytes).len() ==> is_letter_or_digit(
                #[trigger] encode_spec(bytes)[i],
            ),
        leading_symbols(encode_spec(bytes)) == encode_spec(bytes).len(),
        digits_in(encode_spec(bytes)) == recode_spec(bytes, 256, 58),
        forall|i: int|
            0 <= i < encode_spec(bytes).len() ==> digit(#[trigger] encode_spec(bytes)[i]) is Some,
        bytes.len() > 0 ==> encode_spec(bytes).len() > 0,
{
    let digits = recode_spec(bytes, 256, 58);
    let text = encode_spec(bytes);
    lemma_recode_round_trip(bytes, 256, 58);
    assert forall|i: int| 0 <= i < text.len() implies digit(#[trigger] text[i]) == Some(
        digits[i],
    ) && text[i] < 128 && is_letter_or_digit(text[i]) by {
        assert((digits[i] as int) < 58);
        lemma_symbol_digit(digits[i]);
    }
    lemma_leading_symbols_is(text, text.len());
    assert(digits_in(text) =~= digits);
    if bytes.len() > 0 && text.len() == 0 {
        assert(digits =~= Seq::<u8>::empty());
        assert(leading_zeros(digits) == 0);
        assert(value_be(digits, 58) == 0);
        assert(recode_spec(digits, 58, 256) =~= zeros(0) + digits_of(0, 256));
        assert(false);
    }
}

/// Decoding the text of a byte string gives the byte string back.
pub proof fn lemma_decode_encode(bytes: Seq<u8>)
    requires
        bytes.len() > 0,
    ensures
        decode_spec(encode_spec(bytes)) == Ok::<Seq<u8>, DecodeError>(bytes),
{
    lemma_encode_shape(bytes);
    lemma_recode_round_trip(bytes, 256, 58);
}

/// Two byte strings with the same text are the same.
pub proof fn lemma_encode_injective(a: Seq<u8>, b: Seq<u8>)
    requires
        encode_spec(a) == encode_spec(b),
    ensures
        a == b,
{
    lemma_encode_shape(a);
    lemma_encode_shape(b);
    lemma_recode_round_trip(a, 256, 58);
    lemma_recode_round_trip(b, 256, 58);
}

fn symbol_of(d: u8) -> (c: u8)
    requires
        d < 58,
    ensures
        c == symbol(d),
{
    if d < 9 {
        49 + d
    } else if d < 17 {
        65 + (d - 9)
    } else if d < 22 {
        74 + (d - 17)
    } else if d < 33 {
        80 + (d - 22)
    } else if d < 44 {
        97 + (d - 33)
    } else {
        109 + (d - 44)
    }
}

fn digit_of(c: u8) -> (d: Option<u8>)
    ensures
        d == digit(c),
        d is Some ==> d->0 < 58,
{
    if 49 <= c && c <= 57 {
        Some(c - 49)
    } else if 65 <= c && c <= 72 {
        Some(c - 65 + 9)
    } else if 74 <= c && c <= 78 {
        Some(c - 74 + 17)
    } else if 80 <= c && c <= 90 {
        Some(c - 80 + 22)
    } else if 97 <= c && c <= 107 {
        Some(c - 97 + 33)
    } else if 109 <= c && c <= 122 {
        Some(c - 109 + 44)
    } else {
        None
    }
}

/// The base-58 text of `bytes`, as ASCII bytes.
pub fn encode(bytes: &[u8]) -> (text: Vec<u8>)
    ensures
        text@ == encode_spec(bytes@),
{
    let digits = recode(bytes, 256, 58);
    proof {
        lemma_recode_round_trip(bytes@, 256, 58);
    }
    let n: usize = digits.len();
    let mut text: Vec<u8> = Vec::new();
    let mut i: usize = 0;
    while i < n
        invariant
            i <= n,
            n == digits@.len(),
            digits_below(digits@, 58),
            text@ == digits@.subrange(0, i as int).map_values(|d: u8| symbol(d)),
        decreases n - i,
    {
        assert((digits@[i as int] as int) < 58);
        text.push(symbol_of(digits[i]));
        i += 1;
        assert(text@ =~= digits@.subrange(0, i as int).map_values(|d: u8| symbol(d)));
    }
    assert(digits@.subrange(0, n as int) =~= digits@);
    text
}

/// The base-58 text of `bytes`.
pub fn to_string(bytes: &[u8]) -> (text: String)
    ensures
        text@ == chars_of(encode_spec(bytes@)),
        utf8_of(text@) == encode_spec(bytes@),
{
    let text = encode(bytes);
    proof {
        lemma_encode_shape(bytes@);
    }
    ascii_string(text.as_slice())
}

/// Decodes base-58 text given as bytes.
pub fn decode_bytes(text: &[u8]) -> (result: Result<Vec<u8>, DecodeError>)
    ensures
        match decode_spec(text@) {
            Ok(bytes) => result is Ok && result->Ok_0@ == bytes,
            Err(e) => result == Err::<Vec<u8>, DecodeError>(e),
        },
{
    let n: usize = text.len();
    if n == 0 {
        return Err(DecodeError::Empty);
    }
    let mut digits: Vec<u8> = Vec::new();
    let mut i: usize = 0;
    while i < n
        invariant
            i <= n,
            n == text@.len(),
            forall|k: int| 0 <= k < i ==> digit(#[trigger] text@[k]) is Some,
            digits@ == digits_in(text@.subrange(0, i as int)),
            digits_below(digits@, 58),
        decreases n - i,
    {
        match digit_of(text[i]) {
            None => {
                proof {
                    lemma_leading_symbols_is(text@, i as nat);
                }
                return Err(DecodeError::InvalidCharacter { position: i });
            },
            Some(d) => {
                digits.push(d);
            },
        }
        i += 1;
        assert(digits@ =~= digits_in(text@.subrange(0, i as int)));
    }
    assert(text@.subrange(0, n as int) =~= text@);
    proof {
        lemma_leading_symbols_is(text@, n as nat);
    }
    Ok(recode(digits.as_slice(), 58, 256))
}

/// Decodes base-58 text.
pub fn decode(text: &str) -> (result: Result<Vec<u8>, DecodeError>)
    ensures
        match decode_spec(utf8_of(text@)) {
            Ok(bytes) => result is Ok && result->Ok_0@ == bytes,
            Err(e) => result == Err::<Vec<u8>, DecodeError>(e),
        },
{
    decode_bytes(text.as_bytes())
}

} // verus!
