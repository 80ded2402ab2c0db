//! Encoding, hashing and scanning helpers behind the login hand-shake.

use crate::text::{chars_of, push_char};
use base64::engine::general_purpose::STANDARD;
use base64::engine::Engine;
use vstd::prelude::*;

verus! {

/// The padded base64 text of a byte sequence in the standard alphabet, as the
/// `base64` crate's `STANDARD` engine produces it.
pub uninterp spec fn base64_standard(bytes: Seq<u8>) -> Seq<char>;

/// How many characters padded base64 takes for `n` bytes.
pub open spec fn base64_len(n: nat) -> nat {
    4 * ((n + 2) / 3)
}

/// A character of the standard base64 alphabet, or the padding sign.
pub open spec fn is_base64_char(c: char) -> bool {
    ||| 'A' <= c <= 'Z'
    ||| 'a' <= c <= 'z'
    ||| '0' <= c <= '9'
    ||| c == '+'
    ||| c == '/'
    ||| c == '='
}

/// A character that may stand in a URL without escaping.
pub open spec fn is_url_safe_char(c: char) -> bool {
    ||| 'A' <= c <= 'Z'
    ||| 'a' <= c <= 'z'
    ||| '0' <= c <= '9'
    ||| c == '-'
    ||| c == '_'
}

/// What one base64 character turns into: `+` and `/` get their URL-safe
/// stand-ins, every other character stays.
pub open spec fn url_safe_char(c: char) -> char {
    if c == '+' {
        '-'
    } else if c == '/' {
        '_'
    } else {
        c
    }
}

/// Base64 text made URL-safe: padding dropped, `+` and `/` replaced.
pub open spec fn url_safe(text: Seq<char>) -> Seq<char> {
    text.filter(|c: char| c != '=').map_values(|c: char| url_safe_char(c))
}

/// The URL-safe, unpadded base64 text of a byte sequence.
pub open spec fn spec_url_encode(bytes: Seq<u8>) -> Seq<char> {
    url_safe(base64_standard(bytes))
}

/// Calls `Engine::encode` on `base64::engine::general_purpose::STANDARD`.
/// Trusted: the text depends on `bytes` alone and holds only characters of the
/// standard alphabet and the padding sign. Inputs whose encoded length would
/// not fit are left out, since the call panics on them.
#[verifier::external_body]
fn base64_encode(bytes: &[u8]) -> (text: String)
    requires
        base64_len(bytes@.len()) <= isize::MAX,
    ensures
        text@ == base64_standard(bytes@),
        is_base64_text(text@),
{
    STANDARD.encode(bytes)
}

/// A text of characters of the base64 alphabet and the padding sign.
pub open spec fn is_base64_text(text: Seq<char>) -> bool {
    forall|i: int| 0 <= i < text.len() ==> is_base64_char(#[trigger] text[i])
}

/// A text in which every character may stand in a URL as it is.
pub open spec fn is_url_safe(text: Seq<char>) -> bool {
    forall|i: int| 0 <= i < text.len() ==> is_url_safe_char(#[trigger] text[i])
}

/// Makes base64 text URL-safe: `+` becomes `-`, `/` becomes `_`, and the
/// padding is dropped. Every other character stays as it is.
pub fn make_url_safe(encoded: &str) -> (text: String)
    ensures
        text@ == url_safe(encoded@),
        is_base64_text(encoded@) ==> is_url_safe(text@),
{
    let mut text = String::new();
    let ghost keep = |c: char| c != '=';
    let ghost swap = |c: char| url_safe_char(c);
    for c in it: encoded.chars()
        invariant
            it.seq() == encoded@,
            keep == (|c: char| c != '='),
            swap == (|c: char| url_safe_char(c)),
            text@ == encoded@.take(it.index() as int).filter(keep).map_values(swap),
            is_base64_text(encoded@) ==> is_url_safe(text@),
    {
        proof {
            let i = it.index() as int;
            let seen = encoded@.take(i);
            let next = encoded@.take(i + 1);
            assert(next.drop_last() == seen);
            assert(next.last() == c);
            reveal(Seq::filter);
            if is_base64_text(encoded@) {
                assert(is_base64_char(encoded@[i]));
            }
            if c != '=' {
                assert(next.filter(keep) == seen.filter(keep).push(c));
                assert(next.filter(keep).map_values(swap) == seen.filter(keep).map_values(
                    swap,
                ).push(url_safe_char(c)));
            } else {
                assert(next.filter(keep) == seen.filter(keep));
            }
        }
        if c == '+' {
            push_char(&mut text, '-');
        } else if c == '/' {
            push_char(&mut text, '_');
        } else if c != '=' {
            push_char(&mut text, c);
        }
    }
    assert(encoded@.take(encoded@.len() as int) == encoded@);
    text
}

/// Encodes `bytes` as base64 and makes the text URL-safe: `+` becomes `-`,
/// `/` becomes `_`, and the padding is dropped.
pub fn url_encode(bytes: &[u8]) -> (text: String)
    requires
        base64_len(bytes@.len()) <= isize::MAX,
    ensures
        text@ == spec_url_encode(bytes@),
        is_url_safe(text@),
{
    let encoded = base64_encode(bytes);
    make_url_safe(encoded.as_str())
}

/// `needle` stands in `hay` at position `at`.
pub open spec fn occurs_at(hay: Seq<char>, needle: Seq<char>, at: int) -> bool {
    &&& 0 <= at
    &&& at + needle.len() <= hay.len()
    &&& hay.subrange(at, at + needle.len()) == needle
}

/// Where `needle` first stands in `hay` at or after `from`, if anywhere.
pub open spec fn spec_find(hay: Seq<char>, needle: Seq<char>, from: int) -> Option<int>
    decreases hay.len() - from + 1,
{
    if from < 0 || from + needle.len() > hay.len() {
        None
    } else if occurs_at(hay, needle, from) {
        Some(from)
    } else {
        spec_find(hay, needle, from + 1)
    }
}

/// The text between the first `prefix` in `input` and the first `postfix`
/// after it; `None` when either is missing.
pub open spec fn spec_between(input: Seq<char>, prefix: Seq<char>, postfix: Seq<char>) -> Option<
    Seq<char>,
> {
    match spec_find(input, prefix, 0) {
        None => None,
        Some(p) => match spec_find(input, postfix, p + prefix.len()) {
            None => None,
            Some(e) => Some(input.subrange(p + prefix.len(), e)),
        },
    }
}

fn matches_at(hay: &Vec<char>, needle: &Vec<char>, at: usize) -> (same: bool)
    requires
        at + needle@.len() <= hay@.len(),
    ensures
        same == occurs_at(hay@, needle@, at as int),
{
    let ghost window = hay@.subrange(at as int, at + needle@.len());
    let len = hay.len();
    let mut j: usize = 0;
    while j < needle.len()
        invariant
            j <= needle@.len(),
            at + needle@.len() <= hay@.len() == len,
            window == hay@.subrange(at as int, at + needle@.len()),
            forall|k: int| 0 <= k < j ==> window[k] == needle@[k],
        decreases needle@.len() - j,
    {
        if hay[at + j] != needle[j] {
            assert(window[j as int] != needle@[j as int]);
            return false;
        }
        j += 1;
    }
    assert(window =~= needle@);
    true
}

fn find(hay: &Vec<char>, needle: &Vec<char>, from: usize) -> (at: Option<usize>)
    ensures
        match at {
            Some(a) => {
                &&& spec_find(hay@, needle@, from as int) == Some(a as int)
                &&& from <= a
                &&& a + needle@.len() <= hay@.len()
            },
            None => spec_find(hay@, needle@, from as int) is None,
        },
{
    let mut i: usize = from;
    while i <= hay.len() && needle.len() <= hay.len() - i
        invariant
            from <= i,
            spec_find(hay@, needle@, from as int) == spec_find(hay@, needle@, i as int),
        decreases hay@.len() + 1 - i,
    {
        if matches_at(hay, needle, i) {
            return Some(i);
        }
        assert(i < hay@.len()) by {
            if i == hay@.len() {
                assert(hay@.subrange(i as int, i + needle@.len()) =~= needle@);
            }
        }
        i += 1;
    }
    None
}

/// Whether `text` begins with `prefix`.
pub fn starts_with(text: &str, prefix: &str) -> (begins: bool)
    ensures
        begins == occurs_at(text@, prefix@, 0),
{
    let hay = chars_of(text);
    let head = chars_of(prefix);
    head.len() <= hay.len() && matches_at(&hay, &head, 0)
}

/// The text between the first `prefix` in `input` and the first `postfix`
/// after it, or `None` when `input` does not hold both in that order.
pub fn try_between(input: &str, prefix: &str, postfix: &str) -> (text: Option<String>)
    ensures
        match text {
            Some(t) => spec_between(input@, prefix@, postfix@) == Some(t@),
            None => spec_between(input@, prefix@, postfix@) is None,
        },
{
    let hay = chars_of(input);
    let head = chars_of(prefix);
    let tail = chars_of(postfix);
    match find(&hay, &head, 0) {
        None => None,
        Some(p) => {
            let len = hay.len();
            let begin = p + head.len();
            match find(&hay, &tail, begin) {
                None => None,
                Some(end) => {
                    let mut text = String::new();
                    let mut i: usize = begin;
                    while i < end
                        invariant
                            begin <= i <= end <= len == hay@.len(),
                            text@ == hay@.subrange(begin as int, i as int),
                        decreases end - i,
                    {
                        push_char(&mut text, hay[i]);
                        i += 1;
                    }
                    Some(text)
                },
            }
        },
    }
}

/// The text between the first `prefix` in `input` and the first `postfix`
/// after it. Both must be there.
pub fn between(input: &str, prefix: &str, postfix: &str) -> (text: String)
    requires
        spec_between(input@, prefix@, postfix@) is Some,
    ensures
        spec_between(input@, prefix@, postfix@) == Some(text@),
{
    match try_between(input, prefix, postfix) {
        Some(text) => text,
        None => String::new(),
    }
}

/// The SHA-256 digest of a byte sequence, as the `sha2` crate computes it.
pub uninterp spec fn sha256_digest(bytes: Seq<u8>) -> Seq<u8>;

/// Calls `sha2::Sha256::digest`. Trusted: the result is the SHA-256 digest of
/// `bytes`, which depends on `bytes` alone and is 32 bytes long.
#[verifier::external_body]
pub fn sha256(bytes: &[u8]) -> (digest: Vec<u8>)
    ensures
        digest@ == sha256_digest(bytes@),
        digest@.len() == 32,
{
    <sha2::Sha256 as sha2::Digest>::digest(bytes).to_vec()
}

/// Calls `fastrand::u8` over the full range. Nothing is known of the byte.
#[verifier::external_body]
fn random_u8() -> u8 {
    fastrand::u8(..)
}

/// `amount` bytes, each drawn from the process-wide generator.
pub fn random_bytes(amount: usize) -> (bytes: Vec<u8>)
    ensures
        bytes@.len() == amount,
{
    let mut bytes: Vec<u8> = Vec::new();
    let mut i: usize = 0;
    while i < amount
        invariant
            i <= amount,
            bytes@.len() == i,
        decreases amount - i,
    {
        bytes.push(random_u8());
        i += 1;
    }
    bytes
}

/// What `spec_find` finds is the first place at or after `from` where
/// `needle` stands, and it finds one whenever there is one.
pub proof fn lemma_find_first(hay: Seq<char>, needle: Seq<char>, from: int)
    requires
        0 <= from,
    ensures
        match spec_find(hay, needle, from) {
            Some(at) => {
                &&& from <= at
                &&& occurs_at(hay, needle, at)
                &&& forall|k: int| from <= k < at ==> !occurs_at(hay, needle, k)
            },
            None => forall|k: int| from <= k ==> !occurs_at(hay, needle, k),
        },
    decreases hay.len() - from + 1,
{
    if from + needle.len() <= hay.len() && !occurs_at(hay, needle, from) {
        lemma_find_first(hay, needle, from + 1);
    }
}

/// URL-safe text holds no padding and neither of the two characters that
/// were replaced.
pub proof fn lemma_url_safe_plain(text: Seq<char>)
    ensures
        forall|i: int|
            0 <= i < url_safe(text).len() ==> {
                let c = #[trigger] url_safe(text)[i];
                c != '=' && c != '+' && c != '/'
            },
{
    text.filter_lemma(|c: char| c != '=');
}

/// Making text URL-safe a second time changes nothing.
pub proof fn lemma_url_safe_idempotent(text: Seq<char>)
    ensures
        url_safe(url_safe(text)) == url_safe(text),
{
    let once = url_safe(text);
    lemma_url_safe_plain(text);
    lemma_filter_keeps_all(once, |c: char| c != '=');
    assert(once.filter(|c: char| c != '=').map_values(|c: char| url_safe_char(c)) =~= once);
}

proof fn lemma_filter_keeps_all(text: Seq<char>, keep: spec_fn(char) -> bool)
    requires
        forall|i: int| 0 <= i < text.len() ==> keep(#[trigger] text[i]),
    ensures
        text.filter(keep) == text,
    decreases text.len(),
{
    reveal(Seq::filter);
    if text.len() > 0 {
        lemma_filter_keeps_all(text.drop_last(), keep);
        assert(text.drop_last().push(text.last()) == text);
    }
}

} // verus!
