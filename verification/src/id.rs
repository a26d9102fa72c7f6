//! Identifiers: 128-bit values, their 16 bytes, their text in a bearer
//! token and their hyphenated text.

use vstd::prelude::*;
use crate::base58::{
    decode_bytes, decode_spec, encode_spec, lemma_decode_encode, to_string, DecodeError,
};
use crate::numeral::{be_bytes, lemma_be_bytes_value, lemma_span_16, value_be};
use crate::text::{chars_of, utf8_of};

verus! {

/// The error of the crate uuid, of which nothing is read.
#[verifier::external_type_specification]
#[verifier::external_body]
pub struct ExUuidError(uuid::Error);

/// An identifier of a user, a permission, a role or a token.
#[derive(Clone, Copy, Debug, PartialEq, Eq, Hash, Structural)]
pub struct Id {
    pub raw: u128,
}

/// The hyphenated lower-case text of the identifier with value `raw`, as
/// the crate uuid writes it.
pub uninterp spec fn hyphenated_text(raw: u128) -> Seq<char>;

/// `Uuid::from_slice` of the crate uuid, then `Uuid::as_u128`: accepts
/// exactly the slices of 16 bytes, and gives the number that they are,
/// most significant byte first.
#[verifier::external_body]
fn uuid_from_slice(bytes: &[u8]) -> (r: Result<u128, uuid::Error>)
    ensures
        r is Ok <==> bytes@.len() == 16,
        r is Ok ==> r->Ok_0 as int == value_be(bytes@, 256),
{
    match uuid::Uuid::from_slice(bytes) {
        Ok(u) => Ok(u.as_u128()),
        Err(e) => Err(e),
    }
}

/// `Uuid::hyphenated` of the crate uuid, written to a string: the text is a
/// function of the value alone.
#[verifier::external_body]
fn uuid_hyphenated(raw: u128) -> (s: String)
    ensures
        s@ == hyphenated_text(raw),
{
    uuid::Uuid::from_u128(raw).hyphenated().to_string()
}

/// Whether `raw` has the form of a random identifier: the four bits of its
/// version say 4, and the two bits of its variant say that the layout is
/// the standard one. The other 122 bits are free.
pub open spec fn is_random_form(raw: u128) -> bool {
    raw & 0x0000_0000_0000_f000_c000_0000_0000_0000 == 0x0000_0000_0000_4000_8000_0000_0000_0000
}

/// `Uuid::new_v4` of the crate uuid, then `Uuid::as_u128`: 128 bits drawn
/// from the system's random source, in which the crate then sets the
/// version to 4 and the variant to the standard one. Of the other bits
/// nothing is known beforehand.
#[verifier::external_body]
fn uuid_new_v4() -> (raw: u128)
    ensures
        is_random_form(raw),
{
    uuid::Uuid::new_v4().as_u128()
}

/// What a bearer token's text resolves to: the identifier whose 16 bytes
/// the text stands for, or why it stands for none.
pub open spec fn from_token_spec(text: Seq<u8>) -> Result<Id, DecodeError> {
    match decode_spec(text) {
        Err(e) => Err(e),
        Ok(bytes) => if bytes.len() == 16 {
            Ok(Id { raw: value_be(bytes, 256) as u128 })
        } else {
            Err(DecodeError::InvalidLength { length: bytes.len() as usize })
        },
    }
}

impl Id {
    /// The 16 bytes of the identifier, most significant first.
    pub open spec fn bytes(self) -> Seq<u8> {
        be_bytes(self.raw as int, 16)
    }

    /// The text of the identifier in a bearer token, as ASCII bytes.
    pub open spec fn token_spec(self) -> Seq<u8> {
        encode_spec(self.bytes())
    }

    /// A fresh identifier from the system's random source: one of the form
    /// of a random identifier, whatever the source gave for the rest.
    pub fn random() -> (id: Id)
        ensures
            is_random_form(id.raw),
    {
        Id { raw: uuid_new_v4() }
    }

    /// The identifier that 16 bytes stand for.
    pub fn from_bytes(bytes: &[u8]) -> (r: Result<Id, DecodeError>)
        ensures
            bytes@.len() == 16 ==> r == Ok::<Id, DecodeError>(
                Id { raw: value_be(bytes@, 256) as u128 },
            ),
            bytes@.len() != 16 ==> r == Err::<Id, DecodeError>(
                DecodeError::InvalidLength { length: bytes@.len() as usize },
            ),
    {
        match uuid_from_slice(bytes) {
            Ok(raw) => Ok(Id { raw }),
            Err(_) => Err(DecodeError::InvalidLength { length: bytes.len() }),
        }
    }

    /// The 16 bytes of the identifier.
    pub fn to_bytes(&self) -> (out: Vec<u8>)
        ensures
            out@ == self.bytes(),
            out@.len() == 16,
            value_be(out@, 256) == self.raw,
    {
        let mut out: Vec<u8> = Vec::new();
        let mut x: u128 = self.raw;
        let mut k: usize = 0;
        while k < 16
            invariant
                k <= 16,
                out@.len() == k,
                self.bytes() == be_bytes(x as int, (16 - k) as nat) + out@,
            decreases 16 - k,
        {
            let b: u8 = (x % 256) as u8;
            let ghost before = out@;
            out.insert(0, b);
            proof {
                let rest = be_bytes(x as int / 256, (15 - k) as nat);
                assert(be_bytes(x as int, (16 - k) as nat) == rest.push(b));
                assert(rest.push(b) + before =~= rest + out@);
            }
            x = x / 256;
            k += 1;
        }
        proof {
            assert(be_bytes(x as int, 0) + out@ =~= out@);
            lemma_span_16();
            lemma_be_bytes_value(self.raw as int, 16);
        }
        out
    }

    /// The text of the identifier in a bearer token.
    pub fn token(&self) -> (text: String)
        ensures
            text@ == chars_of(self.token_spec()),
            utf8_of(text@) == self.token_spec(),
    {
        let bytes = self.to_bytes();
        to_string(bytes.as_slice())
    }

    /// The identifier that a bearer token's text stands for.
    pub fn from_token(text: &[u8]) -> (r: Result<Id, DecodeError>)
        ensures
            r == from_token_spec(text@),
    {
        match decode_bytes(text) {
            Err(e) => Err(e),
            Ok(bytes) => Id::from_bytes(bytes.as_slice()),
        }
    }

    /// The hyphenated text of the identifier.
    pub fn to_string(&self) -> (text: String)
        ensures
            text@ == hyphenated_text(self.raw),
    {
        uuid_hyphenated(self.raw)
    }
}

/// The text of an identifier resolves to that identifier.
pub proof fn lemma_token_round_trip(id: Id)
    ensures
        from_token_spec(id.token_spec()) == Ok::<Id, DecodeError>(id),
{
    lemma_span_16();
    lemma_be_bytes_value(id.raw as int, 16);
    lemma_decode_encode(id.bytes());
}

} // verus!
