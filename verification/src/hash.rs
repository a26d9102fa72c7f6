//! Password records: a salted one-way digest of a password in a fixed,
//! parseable text.
//!
//! A record reads `sha256$<salt>$<digest>`: the scheme's tag, the salt in
//! base 58 and, in base 58 too, the SHA-256 digest of the salt's bytes
//! followed by the password's bytes. The salt is the text of the user's
//! identifier, so a record belongs to one user.

use vstd::prelude::*;
use crate::base58::{encode, encode_spec, lemma_encode_injective, lemma_encode_shape};
use crate::text::{
    all_ascii, ascii_string, chars_of, lemma_ascii_bytes, lemma_utf8_injective, utf8_of,
};

verus! {

/// The SHA-256 digest of `data`.
pub uninterp spec fn sha256_of(data: Seq<u8>) -> Seq<u8>;

/// `Sha256::digest` of the crate sha2, copied to a vector: the digest is a
/// function of the data alone.
#[verifier::external_body]
fn sha256(data: &[u8]) -> (out: Vec<u8>)
    ensures
        out@ == sha256_of(data@),
{
    <sha2::Sha256 as sha2::Digest>::digest(data).to_vec()
}

/// The byte that parts the fields of a record: `$`.
pub open spec fn separator() -> u8 {
    36
}

/// The scheme's tag: `sha256`.
pub open spec fn scheme_tag() -> Seq<u8> {
    seq![115u8, 104u8, 97u8, 50u8, 53u8, 54u8]
}

/// What stands in a record before the digest: tag, salt and separators.
pub open spec fn record_head(salt: Seq<u8>) -> Seq<u8> {
    scheme_tag() + seq![separator()] + encode_spec(salt) + seq![separator()]
}

/// The bytes of the record for a salt and a password, both given as bytes.
pub open spec fn record_spec(salt: Seq<u8>, plaintext: Seq<u8>) -> Seq<u8> {
    record_head(salt) + encode_spec(sha256_of(salt + plaintext))
}

/// The text of the record for a salt and a password.
pub open spec fn make_spec(salt: Seq<char>, plaintext: Seq<char>) -> Seq<char> {
    chars_of(record_spec(utf8_of(salt), utf8_of(plaintext)))
}

/// Whether the stored text `stored` is the record of `salt` and `plaintext`.
pub open spec fn verify_spec(stored: Seq<char>, salt: Seq<char>, plaintext: Seq<char>) -> bool {
    utf8_of(stored) == record_spec(utf8_of(salt), utf8_of(plaintext))
}

/// A stored password record.
#[derive(Debug)]
pub struct Hash {
    pub text: String,
}

impl View for Hash {
    type V = Seq<char>;

    open spec fn view(&self) -> Seq<char> {
        self.text@
    }
}

impl Hash {
    /// The record that the stored text `text` holds, whatever it is.
    pub fn from_string(text: String) -> (hash: Hash)
        ensures
            hash@ == text@,
    {
        Hash { text }
    }

    /// The text to store.
    pub fn to_string(&self) -> (text: String)
        ensures
            text@ == self@,
    {
        self.text.clone()
    }
}

/// A record is ASCII text, stored as its own bytes.
pub proof fn lemma_record_ascii(salt: Seq<u8>, plaintext: Seq<u8>)
    ensures
        all_ascii(record_spec(salt, plaintext)),
        utf8_of(chars_of(record_spec(salt, plaintext))) == record_spec(salt, plaintext),
{
    lemma_encode_shape(salt);
    lemma_encode_shape(sha256_of(salt + plaintext));
    lemma_ascii_bytes(record_spec(salt, plaintext));
}

/// Two texts that agree up to and after a separator that neither holds
/// before it have the same first field.
proof fn lemma_first_field(head_a: Seq<u8>, tail_a: Seq<u8>, head_b: Seq<u8>, tail_b: Seq<u8>)
    requires
        forall|i: int| 0 <= i < head_a.len() ==> head_a[i] != separator(),
        forall|i: int| 0 <= i < head_b.len() ==> head_b[i] != separator(),
        head_a + seq![separator()] + tail_a == head_b + seq![separator()] + tail_b,
    ensures
        head_a == head_b,
{
    let l = head_a + seq![separator()] + tail_a;
    let r = head_b + seq![separator()] + tail_b;
    if head_a.len() < head_b.len() {
        assert(l[head_a.len() as int] == separator());
        assert(r[head_a.len() as int] == head_b[head_a.len() as int]);
        assert(false);
    }
    if head_b.len() < head_a.len() {
        assert(r[head_b.len() as int] == separator());
        assert(l[head_b.len() as int] == head_a[head_b.len() as int]);
        assert(false);
    }
    assert forall|i: int| 0 <= i < head_a.len() implies head_a[i] == head_b[i] by {
        assert(l[i] == head_a[i]);
        assert(r[i] == head_b[i]);
    }
    assert(head_a =~= head_b);
}

/// Records of different salts differ, whatever the passwords.
pub proof fn lemma_record_names_salt(salt_a: Seq<u8>, plain_a: Seq<u8>, salt_b: Seq<u8>, plain_b: Seq<u8>)
    requires
        record_spec(salt_a, plain_a) == record_spec(salt_b, plain_b),
    ensures
        salt_a == salt_b,
{
    let head_a = encode_spec(salt_a);
    let head_b = encode_spec(salt_b);
    let tail_a = encode_spec(sha256_of(salt_a + plain_a));
    let tail_b = encode_spec(sha256_of(salt_b + plain_b));
    let record_a = record_spec(salt_a, plain_a);
    let record_b = record_spec(salt_b, plain_b);
    lemma_encode_shape(salt_a);
    lemma_encode_shape(salt_b);
    assert(record_a.subrange(7, record_a.len() as int) =~= head_a + seq![separator()] + tail_a);
    assert(record_b.subrange(7, record_b.len() as int) =~= head_b + seq![separator()] + tail_b);
    lemma_first_field(head_a, tail_a, head_b, tail_b);
    lemma_encode_injective(salt_a, salt_b);
}

/// Two users with the same password never have the same record, and the
/// record of one does not verify for the other.
pub proof fn lemma_records_differ_between_users(
    first_salt: Seq<char>,
    second_salt: Seq<char>,
    plaintext: Seq<char>,
)
    requires
        first_salt != second_salt,
    ensures
        make_spec(first_salt, plaintext) != make_spec(second_salt, plaintext),
        !verify_spec(make_spec(first_salt, plaintext), second_salt, plaintext),
{
    let p = utf8_of(plaintext);
    lemma_record_ascii(utf8_of(first_salt), p);
    lemma_record_ascii(utf8_of(second_salt), p);
    if record_spec(utf8_of(first_salt), p) == record_spec(utf8_of(second_salt), p) {
        lemma_record_names_salt(utf8_of(first_salt), p, utf8_of(second_salt), p);
        lemma_utf8_injective(first_salt, second_salt);
    }
}

/// A record verifies for the salt and the password that it was made of.
pub proof fn lemma_made_record_verifies(salt: Seq<char>, plaintext: Seq<char>)
    ensures
        verify_spec(make_spec(salt, plaintext), salt, plaintext),
{
    lemma_record_ascii(utf8_of(salt), utf8_of(plaintext));
}

fn append(out: &mut Vec<u8>, part: &[u8])
    ensures
        final(out)@ == old(out)@ + part@,
{
    let n: usize = part.len();
    let mut i: usize = 0;
    while i < n
        invariant
            i <= n,
            n == part@.len(),
            out@ == old(out)@ + part@.subrange(0, i as int),
        decreases n - i,
    {
        out.push(part[i]);
        i += 1;
        assert(out@ =~= old(out)@ + part@.subrange(0, i as int));
    }
    assert(part@.subrange(0, n as int) =~= part@);
}

/// The bytes of the record for a salt and a password.
pub fn record(salt: &[u8], plaintext: &[u8]) -> (out: Vec<u8>)
    ensures
        out@ == record_spec(salt@, plaintext@),
{
    let mut data: Vec<u8> = Vec::new();
    append(&mut data, salt);
    append(&mut data, plaintext);
    assert(data@ =~= salt@ + plaintext@);
    let digest = sha256(data.as_slice());
    let mut out: Vec<u8> = Vec::new();
    out.push(115);
    out.push(104);
    out.push(97);
    out.push(50);
    out.push(53);
    out.push(54);
    out.push(36);
    let salt_text = encode(salt);
    append(&mut out, salt_text.as_slice());
    out.push(36);
    let digest_text = encode(digest.as_slice());
    append(&mut out, digest_text.as_slice());
    assert(out@ =~= record_spec(salt@, plaintext@));
    out
}

/// The record to store for the user whose identifier's text is `salt` and
/// whose password is `plaintext`.
pub fn make(salt: &str, plaintext: &str) -> (hash: Hash)
    ensures
        hash@ == make_spec(salt@, plaintext@),
        verify_spec(hash@, salt@, plaintext@),
{
    let bytes = record(salt.as_bytes(), plaintext.as_bytes());
    proof {
        lemma_record_ascii(utf8_of(salt@), utf8_of(plaintext@));
    }
    Hash { text: ascii_string(bytes.as_slice()) }
}

/// Whether two byte strings are equal, looking at every byte of both
/// whenever their lengths agree.
pub fn constant_time_eq(a: &[u8], b: &[u8]) -> (equal: bool)
    ensures
        equal == (a@ == b@),
{
    let n: usize = a.len();
    if n != b.len() {
        return false;
    }
    let mut diff: u8 = 0;
    let mut i: usize = 0;
    assert(a@.subrange(0, 0) =~= b@.subrange(0, 0));
    while i < n
        invariant
            i <= n,
            n == a@.len(),
            n == b@.len(),
            diff == 0 <==> a@.subrange(0, i as int) == b@.subrange(0, i as int),
        decreases n - i,
    {
        let x: u8 = a[i];
        let y: u8 = b[i];
        let ghost before = diff;
        diff = diff | (x ^ y);
        proof {
            assert((before | (x ^ y)) == 0 <==> (before == 0 && x == y)) by (bit_vector);
            let a0 = a@.subrange(0, i as int);
            let b0 = b@.subrange(0, i as int);
            let head_a = a@.subrange(0, i as int + 1);
            let tail_a = b@.subrange(0, i as int + 1);
            if head_a == tail_a {
                assert(head_a[i as int] == tail_a[i as int]);
                assert(a0 =~= head_a.subrange(0, i as int));
                assert(b0 =~= tail_a.subrange(0, i as int));
            }
            if a0 == b0 && x == y {
                assert(head_a =~= a0.push(x));
                assert(tail_a =~= b0.push(y));
            }
        }
        i += 1;
    }
    assert(a@.subrange(0, n as int) =~= a@);
    assert(b@.subrange(0, n as int) =~= b@);
    diff == 0
}

/// Whether `hash` is the record of the user whose identifier's text is
/// `salt` with the password `plaintext`. A stored text that is no record at
/// all does not verify.
pub fn verify(hash: &Hash, salt: &str, plaintext: &str) -> (ok: bool)
    ensures
        ok == verify_spec(hash@, salt@, plaintext@),
{
    let expected = record(salt.as_bytes(), plaintext.as_bytes());
    constant_time_eq(hash.text.as_str().as_bytes(), expected.as_slice())
}

} // verus!
