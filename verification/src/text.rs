//! Text: the bytes that store it, its case and the white space around it.

use vstd::prelude::*;
use vstd::string::StrSliceExecFns;

verus! {

/// The characters that the bytes of `bytes` stand for, one for one.
pub open spec fn chars_of(bytes: Seq<u8>) -> Seq<char> {
    Seq::new(bytes.len(), |i: int| bytes[i] as char)
}

/// Every byte of `bytes` is an ASCII code.
pub open spec fn all_ascii(bytes: Seq<u8>) -> bool {
    forall|i: int| 0 <= i < bytes.len() ==> #[trigger] bytes[i] < 128
}

/// The text `chars` in lower case, as std writes it.
pub uninterp spec fn lowercase_of(chars: Seq<char>) -> Seq<char>;

/// Whether std counts `c` as white space.
pub uninterp spec fn whitespace(c: char) -> bool;

/// How many white-space characters stand at the front of `chars`.
pub open spec fn leading_space(chars: Seq<char>) -> nat
    decreases chars.len(),
{
    if chars.len() == 0 || !whitespace(chars[0]) {
        0
    } else {
        1 + leading_space(chars.drop_first())
    }
}

/// How many white-space characters stand at the end of `chars`.
pub open spec fn trailing_space(chars: Seq<char>) -> nat
    decreases chars.len(),
{
    if chars.len() == 0 || !whitespace(chars.last()) {
        0
    } else {
        1 + trailing_space(chars.drop_last())
    }
}

/// The text `chars` without the white space at its two ends.
pub open spec fn trimmed_of(chars: Seq<char>) -> Seq<char> {
    if leading_space(chars) == chars.len() {
        Seq::empty()
    } else {
        chars.subrange(leading_space(chars) as int, chars.len() - trailing_space(chars))
    }
}

/// `str::to_lowercase` of std: the text in lower case, a function of the
/// text alone.
#[verifier::external_body]
pub(crate) fn lowercase(s: &str) -> (lower: String)
    ensures
        lower@ == lowercase_of(s@),
{
    s.to_lowercase()
}

/// `char::is_whitespace` of std: whether the character is white space, a
/// function of the character alone.
#[verifier::external_body]
pub(crate) fn is_whitespace(c: char) -> (yes: bool)
    ensures
        yes == whitespace(c),
{
    c.is_whitespace()
}

/// The text `chars` in upper case, as std writes it.
pub uninterp spec fn uppercase_of(chars: Seq<char>) -> Seq<char>;

/// Whether std counts `c` as a letter or a digit.
pub uninterp spec fn alphanumeric(c: char) -> bool;

/// `str::to_uppercase` of std: the text in upper case, a function of the
/// text alone.
#[verifier::external_body]
pub(crate) fn uppercase(s: &str) -> (upper: String)
    ensures
        upper@ == uppercase_of(s@),
{
    s.to_uppercase()
}

/// `char::is_alphanumeric` of std: whether the character is a letter or a
/// digit, a function of the character alone.
#[verifier::external_body]
pub(crate) fn is_alphanumeric(c: char) -> (yes: bool)
    ensures
        yes == alphanumeric(c),
{
    c.is_alphanumeric()
}

/// `String::push` of std: the string gains `c` at its end and is otherwise
/// unchanged.
#[verifier::external_body]
fn push_char(s: &mut String, c: char)
    ensures
        final(s)@ == old(s)@.push(c),
{
    s.push(c)
}

/// The bytes that store the text `chars`: its UTF-8 encoding.
pub open spec fn utf8_of(chars: Seq<char>) -> Seq<u8> {
    vstd::utf8::encode_utf8(chars)
}

/// ASCII text is stored as the bytes of its characters.
pub proof fn lemma_ascii_bytes(bytes: Seq<u8>)
    requires
        all_ascii(bytes),
    ensures
        utf8_of(chars_of(bytes)) == bytes,
{
    let chars = chars_of(bytes);
    assert(vstd::utf8::is_ascii_chars(chars)) by {
        assert forall|i: int| 0 <= i < chars.len() implies '\0' <= #[trigger] chars[i]
            <= '\u{7f}' by {
            assert(bytes[i] < 128);
        }
    }
    vstd::utf8::is_ascii_chars_encode_utf8(chars);
    assert(utf8_of(chars) =~= bytes);
}

/// Texts that differ are stored as different bytes.
pub proof fn lemma_utf8_injective(a: Seq<char>, b: Seq<char>)
    requires
        utf8_of(a) == utf8_of(b),
    ensures
        a == b,
{
    vstd::utf8::encode_utf8_decode_utf8(a);
    vstd::utf8::encode_utf8_decode_utf8(b);
}

/// The string whose characters are the ASCII codes in `bytes`.
pub fn ascii_string(bytes: &[u8]) -> (s: String)
    requires
        all_ascii(bytes@),
    ensures
        s@ == chars_of(bytes@),
        utf8_of(s@) == bytes@,
{
    let mut s = String::new();
    let n: usize = bytes.len();
    let mut i: usize = 0;
    while i < n
        invariant
            i <= n,
            n == bytes@.len(),
            s@ == chars_of(bytes@.subrange(0, i as int)),
        decreases n - i,
    {
        push_char(&mut s, bytes[i] as char);
        i += 1;
        assert(s@ =~= chars_of(bytes@.subrange(0, i as int)));
    }
    assert(bytes@.subrange(0, n as int) =~= bytes@);
    proof {
        lemma_ascii_bytes(bytes@);
    }
    s
}

/// The count of leading white space is fixed by where the first other
/// character is.
proof fn lemma_leading_space_is(chars: Seq<char>, count: nat)
    requires
        count <= chars.len(),
        forall|i: int| 0 <= i < count ==> whitespace(chars[i]),
        count < chars.len() ==> !whitespace(chars[count as int]),
    ensures
        leading_space(chars) == count,
    decreases chars.len(),
{
    if chars.len() > 0 && whitespace(chars[0]) {
        let rest = chars.drop_first();
        assert(count > 0);
        assert forall|i: int| 0 <= i < count - 1 implies whitespace(rest[i]) by {
            assert(rest[i] == chars[i + 1]);
        }
        if count < chars.len() {
            assert(rest[count - 1] == chars[count as int]);
        }
        lemma_leading_space_is(rest, (count - 1) as nat);
    }
}

/// The count of trailing white space is fixed by where the last other
/// character is.
proof fn lemma_trailing_space_is(chars: Seq<char>, count: nat)
    requires
        count <= chars.len(),
        forall|i: int| chars.len() - count <= i < chars.len() ==> whitespace(chars[i]),
        count < chars.len() ==> !whitespace(chars[chars.len() - count - 1]),
    ensures
        trailing_space(chars) == count,
    decreases chars.len(),
{
    if chars.len() > 0 && whitespace(chars.last()) {
        let rest = chars.drop_last();
        assert(count > 0);
        assert forall|i: int| rest.len() - (count - 1) <= i < rest.len() implies whitespace(
            rest[i],
        ) by {
            assert(rest[i] == chars[i]);
        }
        if count < chars.len() {
            assert(rest[rest.len() - (count - 1) - 1] == chars[chars.len() - count - 1]);
        }
        lemma_trailing_space_is(rest, (count - 1) as nat);
    }
}

/// The text without the white space at its two ends.
pub fn trim(s: &str) -> (inner: &str)
    ensures
        inner@ == trimmed_of(s@),
{
    let n: usize = s.unicode_len();
    let mut i: usize = 0;
    let mut seen = false;
    let mut first: usize = 0;
    let mut end: usize = 0;
    for c in it: s.chars()
        invariant
            it.seq() == s@,
            n == s@.len(),
            i == it.index(),
            i <= n,
            !seen ==> first == i && end == 0,
            seen ==> first < end <= i && !whitespace(s@[first as int]) && !whitespace(
                s@[end - 1],
            ),
            forall|k: int| 0 <= k < first ==> whitespace(s@[k]),
            forall|k: int| end <= k < i && seen ==> whitespace(s@[k]),
    {
        if is_whitespace(c) {
            if !seen {
                first = i + 1;
            }
        } else {
            if !seen {
                seen = true;
                first = i;
            }
            end = i + 1;
        }
        i += 1;
    }
    if !seen {
        proof {
            lemma_leading_space_is(s@, n as nat);
        }
        s.substring_char(0, 0)
    } else {
        proof {
            lemma_leading_space_is(s@, first as nat);
            lemma_trailing_space_is(s@, (n - end) as nat);
        }
        s.substring_char(first, end)
    }
}

/// Whether `c` is one of the ten digits.
pub open spec fn is_digit(c: char) -> bool {
    '0' <= c <= '9'
}

/// The text `chars` with an underscore in place of each space.
pub open spec fn underscored_spec(chars: Seq<char>) -> Seq<char> {
    chars.map_values(
        |c: char|
            if c == ' ' {
                '_'
            } else {
                c
            },
    )
}

/// Whether two texts are the same.
pub fn same_text(a: &str, b: &str) -> (same: bool)
    ensures
        same == (a@ == b@),
{
    let x = a.as_bytes();
    let y = b.as_bytes();
    let n: usize = x.len();
    if n != y.len() {
        return false;
    }
    let mut i: usize = 0;
    while i < n
        invariant
            i <= n,
            n == x@.len(),
            n == y@.len(),
            x@ == utf8_of(a@),
            y@ == utf8_of(b@),
            forall|k: int| 0 <= k < i ==> x@[k] == y@[k],
        decreases n - i,
    {
        if x[i] != y[i] {
            return false;
        }
        i += 1;
    }
    proof {
        assert(x@ =~= y@);
        lemma_utf8_injective(a@, b@);
    }
    true
}

/// Whether the text holds the character `c`.
pub fn contains_char(s: &str, c: char) -> (found: bool)
    ensures
        found == s@.contains(c),
{
    let mut found = false;
    for x in it: s.chars()
        invariant
            it.seq() == s@,
            found == s@.subrange(0, it.index()).contains(c),
    {
        let ghost before = s@.subrange(0, it.index());
        let ghost after = s@.subrange(0, it.index() + 1);
        proof {
            assert(after =~= before.push(x));
            if before.contains(c) {
                let k = choose|k: int| 0 <= k < before.len() && before[k] == c;
                assert(after[k] == c);
            }
            if x == c {
                assert(after[it.index()] == c);
            }
        }
        if x == c {
            found = true;
        }
    }
    assert(s@.subrange(0, s@.len() as int) =~= s@);
    found
}

/// The text with an underscore in place of each space.
pub fn underscored(s: &str) -> (out: String)
    ensures
        out@ == underscored_spec(s@),
{
    let mut out = String::new();
    for c in it: s.chars()
        invariant
            it.seq() == s@,
            out@ == underscored_spec(s@.subrange(0, it.index())),
    {
        if c == ' ' {
            push_char(&mut out, '_');
        } else {
            push_char(&mut out, c);
        }
        assert(out@ =~= underscored_spec(s@.subrange(0, it.index() + 1)));
    }
    assert(s@.subrange(0, s@.len() as int) =~= s@);
    out
}

} // verus!
