//! Digest strings: the `<algorithm>:<hex>` format used to address content,
//! and the SHA-256 content address the server computes itself.

use vstd::prelude::*;
use vstd::string::*;

verus! {

/// The lowercase hexadecimal SHA-256 digest of a byte sequence.
pub uninterp spec fn sha256_hex(bytes: Seq<u8>) -> Seq<char>;

/// An ASCII hexadecimal digit, either case.
pub open spec fn is_hex_char(c: char) -> bool {
    let u = c as u32;
    ('0' as u32) <= u <= ('9' as u32) || ('A' as u32) <= u <= ('F' as u32) || ('a' as u32) <= u
        <= ('f' as u32)
}

/// A character of the algorithm part of a digest: `[A-Za-z0-9_+.-]`.
pub open spec fn is_algorithm_char(c: char) -> bool {
    let u = c as u32;
    ('A' as u32) <= u <= ('Z' as u32) || ('a' as u32) <= u <= ('z' as u32) || ('0' as u32) <= u
        <= ('9' as u32) || c == '_' || c == '+' || c == '.' || c == '-'
}

/// A digest string: a non-empty algorithm part, a colon, and a non-empty
/// hexadecimal part, `^[A-Za-z0-9_+.-]+:[A-Fa-f0-9]+$`.
pub open spec fn is_digest_chars(s: Seq<char>) -> bool {
    exists|k: int|
        0 < k < s.len() - 1 && #[trigger] s[k] == ':' && (forall|i: int|
            0 <= i < k ==> is_algorithm_char(#[trigger] s[i])) && (forall|j: int|
            k < j < s.len() ==> is_hex_char(#[trigger] s[j]))
}

/// Relies on sha256::digest for byte slices: it returns hex::encode of the
/// 32-byte SHA-256 hash of the input — 64 lowercase hexadecimal characters
/// determined by the input bytes alone.
#[verifier::external_body]
pub fn sha256_hex_of(bytes: &[u8]) -> (hex: String)
    ensures
        hex@ == sha256_hex(bytes@),
        hex@.len() == 64,
        forall|i: int| 0 <= i < hex@.len() ==> is_hex_char(#[trigger] hex@[i]),
{
    sha256::digest(bytes)
}

/// The digest string under which content with these bytes is stored.
pub open spec fn digest_chars(bytes: Seq<u8>) -> Seq<char> {
    "sha256:"@ + sha256_hex(bytes)
}

/// The digest string of a byte payload: `sha256:` followed by the
/// hexadecimal SHA-256 of the bytes.
pub fn digest_string(bytes: &[u8]) -> (d: String)
    ensures
        d@ == digest_chars(bytes@),
        is_digest_chars(d@),
{
    let mut d = String::from_str("sha256:");
    let hex = sha256_hex_of(bytes);
    d.append(hex.as_str());
    proof {
        reveal_strlit("sha256:");
        assert(d@[6] == ':');
        assert forall|i: int| 0 <= i < 6 implies is_algorithm_char(#[trigger] d@[i]) by {
            assert(is_algorithm_char('s'));
            assert(is_algorithm_char('h'));
            assert(is_algorithm_char('a'));
            assert(is_algorithm_char('2'));
            assert(is_algorithm_char('5'));
            assert(is_algorithm_char('6'));
        }
        assert forall|j: int| 6 < j < d@.len() implies is_hex_char(#[trigger] d@[j]) by {
            assert(d@[j] == hex@[j - 7]);
        }
    }
    d
}

/// Whether a reference string is digest-shaped, as opposed to a tag name.
pub fn is_digest(s: &String) -> (r: bool)
    ensures
        r == is_digest_chars(s@),
{
    let n = s.as_str().unicode_len();
    let mut colon: usize = 0;
    let mut found = false;
    let mut i: usize = 0;
    while i < n && !found
        invariant
            0 <= i <= n,
            n == s@.len(),
            !found ==> forall|j: int| 0 <= j < i ==> s@[j] != ':',
            found ==> colon < i <= n && s@[colon as int] == ':' && forall|j: int|
                0 <= j < colon ==> s@[j] != ':',
        decreases n - i,
    {
        if s.as_str().get_char(i) == ':' {
            found = true;
            colon = i;
        }
        i += 1;
    }
    if !found {
        proof {
            lemma_no_colon_not_digest(s@);
        }
        return false;
    }
    if colon == 0 || colon + 1 >= n {
        // a valid split index is a colon with algorithm characters (never a
        // colon) before it and hexadecimal characters (never a colon) after
        // it, so it could only be the first colon
        proof {
            lemma_unique_colon_split(s@, colon as int);
        }
        return false;
    }
    let mut ok = true;
    let mut i: usize = 0;
    while i < colon
        invariant
            0 <= i <= colon < n,
            n == s@.len(),
            s@[colon as int] == ':',
            forall|j: int| 0 <= j < colon ==> s@[j] != ':',
            ok ==> forall|j: int| 0 <= j < i ==> is_algorithm_char(#[trigger] s@[j]),
            !ok ==> i < colon && !is_algorithm_char(s@[i as int]),
        ensures
            ok ==> i == colon,
        decreases colon - i,
    {
        let c = s.as_str().get_char(i);
        let u = c as u32;
        if !(('A' as u32) <= u && u <= ('Z' as u32) || ('a' as u32) <= u && u <= ('z' as u32) || (
        '0' as u32) <= u && u <= ('9' as u32) || c == '_' || c == '+' || c == '.' || c == '-') {
            ok = false;
            break ;
        }
        i += 1;
    }
    if !ok {
        proof {
            lemma_unique_colon_split(s@, colon as int);
        }
        return false;
    }
    let mut j: usize = colon + 1;
    while j < n
        invariant
            colon < j <= n,
            colon < n,
            n == s@.len(),
            s@[colon as int] == ':',
            forall|jj: int| 0 <= jj < colon ==> s@[jj] != ':',
            forall|jj: int| 0 <= jj < colon ==> is_algorithm_char(#[trigger] s@[jj]),
            ok ==> forall|jj: int| colon < jj < j ==> is_hex_char(#[trigger] s@[jj]),
            !ok ==> j < n && !is_hex_char(s@[j as int]),
        ensures
            ok ==> j == n,
        decreases n - j,
    {
        let c = s.as_str().get_char(j);
        let u = c as u32;
        if !(('0' as u32) <= u && u <= ('9' as u32) || ('A' as u32) <= u && u <= ('F' as u32) || (
        'a' as u32) <= u && u <= ('f' as u32)) {
            ok = false;
            break ;
        }
        j += 1;
    }
    proof {
        if !ok {
            lemma_unique_colon_split(s@, colon as int);
        }
    }
    ok
}

/// If a string has a valid digest split, that split is its first colon.
proof fn lemma_unique_colon_split(s: Seq<char>, colon: int)
    requires
        0 <= colon < s.len(),
        s[colon] == ':',
        forall|j: int| 0 <= j < colon ==> s[j] != ':',
    ensures
        is_digest_chars(s) ==> (0 < colon < s.len() - 1 && (forall|i: int|
            0 <= i < colon ==> is_algorithm_char(#[trigger] s[i])) && (forall|j: int|
            colon < j < s.len() ==> is_hex_char(#[trigger] s[j]))),
{
    if is_digest_chars(s) {
        let k = choose|k: int|
            0 < k < s.len() - 1 && #[trigger] s[k] == ':' && (forall|i: int|
                0 <= i < k ==> is_algorithm_char(#[trigger] s[i])) && (forall|j: int|
                k < j < s.len() ==> is_hex_char(#[trigger] s[j]));
        if k < colon {
            assert(is_hex_char(s[colon]));
            assert(false);
        }
        if k > colon {
            assert(is_algorithm_char(s[colon]));
            assert(false);
        }
    }
}

/// A string without a colon is not digest-shaped.
proof fn lemma_no_colon_not_digest(s: Seq<char>)
    requires
        forall|j: int| 0 <= j < s.len() ==> s[j] != ':',
    ensures
        !is_digest_chars(s),
{
}

} // verus!
