//! Repository-name canonicalisation. Routers treat path separators as
//! segment boundaries, but repository names may contain `/`. Before route
//! matching, the segment between `/v2/` and the first resource segment —
//! `tags`, `manifests` or `blobs` — has each `/` rewritten to `%2F`, so the
//! name travels as a single segment; responses use the decoded form again.
//!
//! The pattern matched is `/v2/(name)/(tags|manifests|blobs)/` with the
//! name one or more word characters or slashes; word characters are the
//! ASCII letters, digits and underscore. The match is the leftmost one,
//! with the longest name that lets the pattern complete.

use vstd::prelude::*;
use vstd::string::*;

verus! {

/// An ASCII word character: a letter, a digit, or an underscore.
pub open spec fn is_word_char(c: char) -> bool {
    let u = c as u32;
    ('A' as u32) <= u <= ('Z' as u32) || ('a' as u32) <= u <= ('z' as u32) || ('0' as u32) <= u
        <= ('9' as u32) || c == '_'
}

/// A character a repository name may contain: a word character or a slash.
pub open spec fn is_name_char(c: char) -> bool {
    is_word_char(c) || c == '/'
}

/// One of the three resource segments.
pub open spec fn is_resource(res: Seq<char>) -> bool {
    res == "tags"@ || res == "manifests"@ || res == "blobs"@
}

/// The pattern matches at `start` with a name of `name_len` characters and
/// this resource segment: `/v2/`, then the name, then `/`, the resource,
/// and a final `/`.
pub open spec fn match_at(s: Seq<char>, start: int, name_len: int, res: Seq<char>) -> bool {
    &&& is_resource(res)
    &&& 0 <= start
    &&& name_len >= 1
    &&& start + 4 + name_len + 1 + res.len() + 1 <= s.len()
    &&& s.subrange(start, start + 4) == "/v2/"@
    &&& (forall|i: int| start + 4 <= i < start + 4 + name_len ==> is_name_char(#[trigger] s[i]))
    &&& s[start + 4 + name_len] == '/'
    &&& s.subrange(start + 5 + name_len, start + 5 + name_len + res.len() as int) == res
    &&& s[start + 5 + name_len + res.len()] == '/'
}

/// The characters of a string, indexable.
fn chars_of(s: &String) -> (chars: Vec<char>)
    ensures
        chars@ == s@,
{
    let n = s.as_str().unicode_len();
    let mut chars: Vec<char> = Vec::new();
    let mut i: usize = 0;
    while i < n
        invariant
            0 <= i <= n,
            n == s@.len(),
            chars@ == s@.subrange(0, i as int),
        decreases n - i,
    {
        chars.push(s.as_str().get_char(i));
        proof {
            assert(chars@ =~= s@.subrange(0, i + 1));
        }
        i += 1;
    }
    proof {
        assert(chars@ =~= s@);
    }
    chars
}

/// Whether a character is a word character or a slash.
fn name_char(c: char) -> (r: bool)
    ensures
        r == is_name_char(c),
{
    let u = c as u32;
    ('A' as u32) <= u && u <= ('Z' as u32) || ('a' as u32) <= u && u <= ('z' as u32) || ('0'
        as u32) <= u && u <= ('9' as u32) || c == '_' || c == '/'
}

/// Whether the fixed text occurs in `chars` at `at`.
fn text_at(chars: &Vec<char>, at: usize, text: &str) -> (found: bool)
    requires
        at <= chars@.len(),
    ensures
        found == (at + text@.len() <= chars@.len() && chars@.subrange(
            at as int,
            at + text@.len(),
        ) == text@),
{
    let m = text.unicode_len();
    let n = chars.len();
    if m > n - at {
        return false;
    }
    let mut j: usize = 0;
    while j < m
        invariant
            0 <= j <= m,
            m == text@.len(),
            at + m <= chars@.len(),
            at + m <= usize::MAX,
            forall|t: int| 0 <= t < j ==> chars@[at + t] == text@[t],
        decreases m - j,
    {
        if !(chars[at + j] == text.get_char(j)) {
            proof {
                assert(chars@.subrange(at as int, at + text@.len())[j as int] != text@[j as int]);
            }
            return false;
        }
        j += 1;
    }
    proof {
        assert(chars@.subrange(at as int, at + text@.len()) =~= text@);
    }
    true
}

/// Whether the pattern completes at `start` with a name of `len`
/// characters: a slash, a resource segment, and a slash must follow. At
/// most one resource segment can fit, since they differ in their first
/// character. Returns the resource segment that completes the match.
fn completion(chars: &Vec<char>, start: usize, len: usize) -> (res: Option<String>)
    requires
        start + 4 + len < chars@.len(),
    ensures
        match res {
            Some(segment) => is_resource(segment@) && chars@[start + 4 + len] == '/'
                && start + 5 + len + segment@.len() < chars@.len() && chars@.subrange(
                start + 5 + len,
                start + 5 + len + segment@.len() as int,
            ) == segment@ && chars@[start + 5 + len + segment@.len()] == '/',
            None => forall|r: Seq<char>| !(#[trigger] is_resource(r) && chars@[start + 4 + len]
                == '/' && start + 5 + len + r.len() + 1 <= chars@.len() && chars@.subrange(
                start + 5 + len,
                start + 5 + len + r.len() as int,
            ) == r && chars@[start + 5 + len + r.len()] == '/'),
        },
{
    let n = chars.len();
    if !(chars[start + 4 + len] == '/') {
        return None;
    }
    let q = start + 5 + len;
    if text_at(chars, q, "tags") && n - q > 4 && chars[q + 4] == '/' {
        proof {
            reveal_strlit("tags");
        }
        return Some(String::from_str("tags"));
    }
    if text_at(chars, q, "manifests") && n - q > 9 && chars[q + 9] == '/' {
        proof {
            reveal_strlit("manifests");
        }
        return Some(String::from_str("manifests"));
    }
    if text_at(chars, q, "blobs") && n - q > 5 && chars[q + 5] == '/' {
        proof {
            reveal_strlit("blobs");
        }
        return Some(String::from_str("blobs"));
    }
    proof {
        reveal_strlit("tags");
        reveal_strlit("manifests");
        reveal_strlit("blobs");
        assert forall|r: Seq<char>| !(#[trigger] is_resource(r) && chars@[start + 4 + len] == '/'
            && start + 5 + len + r.len() + 1 <= chars@.len() && chars@.subrange(
            start + 5 + len,
            start + 5 + len + r.len() as int,
        ) == r && chars@[start + 5 + len + r.len()] == '/') by {
            if is_resource(r) {
                assert(r == "tags"@ || r == "manifests"@ || r == "blobs"@);
            }
        }
    }
    None
}

/// The substring of the characters between two bounds, as a string.
fn string_of_range(chars: &Vec<char>, from: usize, to: usize) -> (out: String)
    requires
        from <= to <= chars@.len(),
    ensures
        out@ == chars@.subrange(from as int, to as int),
{
    let mut out = String::new();
    let mut i: usize = from;
    while i < to
        invariant
            from <= i <= to <= chars@.len(),
            out@ == chars@.subrange(from as int, i as int),
        decreases to - i,
    {
        push_char(&mut out, chars[i]);
        proof {
            assert(out@ =~= chars@.subrange(from as int, i + 1));
        }
        i += 1;
    }
    out
}

/// Append one character to a string. Relies on String::push.
#[verifier::external_body]
fn push_char(s: &mut String, c: char)
    ensures
        final(s)@ == old(s)@.push(c),
{
    s.push(c);
}

/// The captured name and resource are those of the leftmost match, with
/// the longest name that completes the pattern at that position.
pub open spec fn captured_parts(path: Seq<char>, name: Seq<char>, res: Seq<char>) -> bool {
    exists|start: int|
        {
            &&& #[trigger] match_at(path, start, name.len() as int, res)
            &&& name == path.subrange(start + 4, start + 4 + name.len() as int)
            &&& (forall|p: int, l: int, r: Seq<char>|
                0 <= p < start ==> !(#[trigger] match_at(path, p, l, r)))
            &&& (forall|l: int, r: Seq<char>|
                l > name.len() ==> !(#[trigger] match_at(path, start, l, r)))
        }
}

/// Find the pattern in a path: the name and resource segment of the
/// leftmost match, with the longest name that completes the pattern at
/// that position; no match where none exists.
pub fn capture(path: &String) -> (captured: Option<(String, String)>)
    ensures
        match captured {
            Some(parts) => captured_parts(path@, parts.0@, parts.1@),
            None => forall|p: int, l: int, r: Seq<char>| !(#[trigger] match_at(path@, p, l, r)),
        },
{
    let chars = chars_of(path);
    let n = chars.len();
    let mut p: usize = 0;
    while p < n
        invariant
            0 <= p <= n,
            n == chars@.len(),
            chars@ == path@,
            forall|p0: int, l: int, r: Seq<char>|
                0 <= p0 < p ==> !(#[trigger] match_at(path@, p0, l, r)),
        decreases n - p,
    {
        if text_at(&chars, p, "/v2/") {
            proof {
                reveal_strlit("/v2/");
            }
            // the maximal run of name characters after the prefix
            let mut run: usize = 0;
            while run < n - p - 4 && name_char(chars[p + 4 + run])
                invariant
                    0 <= run,
                    p + 4 + run <= n,
                    n == chars@.len(),
                    forall|i: int| p + 4 <= i < p + 4 + run ==> is_name_char(#[trigger] chars@[i]),
                ensures
                    p + 4 + run <= n,
                    forall|i: int| p + 4 <= i < p + 4 + run ==> is_name_char(#[trigger] chars@[i]),
                    p + 4 + run < n ==> !is_name_char(chars@[p + 4 + run]),
                decreases n - p - 4 - run,
            {
                run += 1;
            }
            let mut len: usize = run;
            while len >= 1
                invariant
                    0 <= len <= run,
                    p + 4 + run <= n,
                    n == chars@.len(),
                    chars@ == path@,
                    path@.subrange(p as int, p + 4) == "/v2/"@,
                    p + 4 + run < n ==> !is_name_char(chars@[p + 4 + run]),
                    forall|i: int| p + 4 <= i < p + 4 + run ==> is_name_char(#[trigger] chars@[i]),
                    forall|l: int, r: Seq<char>|
                        l > len ==> !(#[trigger] match_at(path@, p as int, l, r)),
                    forall|p0: int, l: int, r: Seq<char>|
                        0 <= p0 < p ==> !(#[trigger] match_at(path@, p0, l, r)),
                decreases len,
            {
                if p + 4 + len < n {
                    match completion(&chars, p, len) {
                        Some(segment) => {
                            let name = string_of_range(&chars, p + 4, p + 4 + len);
                            proof {
                                assert(path@.subrange(p as int, p + 4) =~= "/v2/"@);
                                assert(path@.subrange(
                                    p + 5 + len,
                                    p + 5 + len + segment@.len() as int,
                                ) =~= segment@);
                                assert(match_at(path@, p as int, len as int, segment@));
                                assert(name@.len() == len as int);
                                assert(match_at(path@, p as int, name@.len() as int, segment@));
                                assert(forall|l: int, r: Seq<char>|
                                    l > name@.len() ==> !(#[trigger] match_at(
                                        path@,
                                        p as int,
                                        l,
                                        r,
                                    )));
                                assert(captured_parts(path@, name@, segment@));
                            }
                            return Some((name, segment));
                        },
                        None => {
                            proof {
                                assert forall|r: Seq<char>|
                                    !(#[trigger] match_at(path@, p as int, len as int, r)) by {
                                    if match_at(path@, p as int, len as int, r) {
                                        assert(path@.subrange(
                                            p + 5 + len,
                                            p + 5 + len + r.len() as int,
                                        ) == r);
                                        assert(is_resource(r) && path@[p + 4 + len] == '/'
                                            && p + 5 + len + r.len() + 1 <= path@.len()
                                            && path@[p + 5 + len + r.len()] == '/');
                                        assert(false);
                                    }
                                }
                            }
                        },
                    }
                } else {
                    proof {
                        assert forall|r: Seq<char>|
                            !(#[trigger] match_at(path@, p as int, len as int, r)) by {
                            if match_at(path@, p as int, len as int, r) {
                                assert(r.len() >= 4);
                            }
                        }
                    }
                }
                len -= 1;
            }
            proof {
                assert forall|l: int, r: Seq<char>|
                    !(#[trigger] match_at(path@, p as int, l, r)) by {
                    if match_at(path@, p as int, l, r) {
                        assert(l >= 1);
                        if l > run {
                            assert(p + 4 + run < path@.len());
                            assert(is_name_char(path@[p + 4 + run]));
                            assert(false);
                        }
                    }
                }
            }
        } else {
            proof {
                reveal_strlit("/v2/");
                assert forall|l: int, r: Seq<char>|
                    !(#[trigger] match_at(path@, p as int, l, r)) by {
                    if match_at(path@, p as int, l, r) {
                        assert(path@.subrange(p as int, p + 4) == "/v2/"@);
                    }
                }
            }
        }
        p += 1;
    }
    proof {
        assert forall|p0: int, l: int, r: Seq<char>|
            !(#[trigger] match_at(path@, p0, l, r)) by {
            if match_at(path@, p0, l, r) {
                assert(p0 + 4 <= path@.len());
                assert(0 <= p0 < n);
            }
        }
    }
    None
}


/// The result of replacing, left to right and without overlap, every
/// occurrence of `from` by `to`.
pub open spec fn replace_chars(s: Seq<char>, from: Seq<char>, to: Seq<char>) -> Seq<char>
    recommends
        from.len() >= 1,
    decreases s.len(),
    when from.len() >= 1
{
    if s.len() < from.len() {
        s
    } else if s.subrange(0, from.len() as int) == from {
        to + replace_chars(s.skip(from.len() as int), from, to)
    } else {
        seq![s[0]] + replace_chars(s.skip(1), from, to)
    }
}

/// Replace every occurrence of one string by another, left to right.
pub fn replace(s: &String, from: &String, to: &String) -> (out: String)
    requires
        from@.len() >= 1,
    ensures
        out@ == replace_chars(s@, from@, to@),
{
    let sc = chars_of(s);
    let n = sc.len();
    let flen = from.as_str().unicode_len();
    let mut out = String::new();
    let mut i: usize = 0;
    proof {
        assert(s@.skip(0) =~= s@);
    }
    while i < n
        invariant
            0 <= i <= n,
            n == s@.len(),
            sc@ == s@,
            flen == from@.len(),
            1 <= flen,
            replace_chars(s@, from@, to@) == out@ + replace_chars(s@.skip(i as int), from@, to@),
        decreases n - i,
    {
        let matched = text_at(&sc, i, from.as_str());
        if matched {
            out.append(to.as_str());
            proof {
                assert(s@.skip(i as int).len() >= from@.len());
                assert(s@.skip(i as int).subrange(0, from@.len() as int) =~= s@.subrange(
                    i as int,
                    i + from@.len(),
                ));
                assert(s@.skip(i as int).skip(flen as int) =~= s@.skip(i + flen));
                assert(replace_chars(s@.skip(i as int), from@, to@) == to@ + replace_chars(
                    s@.skip(i + flen),
                    from@,
                    to@,
                ));
            }
            i += flen;
        } else {
            push_char(&mut out, sc[i]);
            proof {
                let tail = s@.skip(i as int);
                assert(tail[0] == s@[i as int]);
                assert(tail.skip(1) =~= s@.skip(i + 1));
                if tail.len() >= flen {
                    assert(tail.subrange(0, flen as int) =~= s@.subrange(i as int, i + flen));
                    assert(tail.subrange(0, flen as int) != from@);
                    assert(replace_chars(tail, from@, to@) == seq![s@[i as int]] + replace_chars(
                        s@.skip(i + 1),
                        from@,
                        to@,
                    ));
                } else {
                    // too little is left for a match: the rest is kept as it
                    // is, one character at a time
                    assert(replace_chars(tail, from@, to@) == tail);
                    assert(s@.skip(i + 1).len() < flen);
                    assert(replace_chars(s@.skip(i + 1), from@, to@) == s@.skip(i + 1));
                    assert(seq![s@[i as int]] + s@.skip(i + 1) =~= tail);
                }
            }
            i += 1;
        }
    }
    proof {
        assert(s@.skip(n as int) =~= Seq::<char>::empty());
        assert(replace_chars(Seq::<char>::empty(), from@, to@) =~= Seq::<char>::empty());
        assert(out@ =~= replace_chars(s@, from@, to@));
    }
    out
}

/// Encode a repository name as a single path segment: each slash becomes
/// `%2F`.
pub fn encode_name(name: &String) -> (encoded: String)
    ensures
        encoded@ == replace_chars(name@, "/"@, "%2F"@),
{
    proof {
        reveal_strlit("/");
    }
    let slash = String::from_str("/");
    let escape = String::from_str("%2F");
    replace(name, &slash, &escape)
}

/// Decode a repository name from its single-segment form: each `%2F`
/// becomes a slash again.
pub fn decode_name(name: &String) -> (decoded: String)
    ensures
        decoded@ == replace_chars(name@, "%2F"@, "/"@),
{
    proof {
        reveal_strlit("%2F");
    }
    let escape = String::from_str("%2F");
    let slash = String::from_str("/");
    replace(name, &escape, &slash)
}

/// Rewrite a request path: where the pattern matches, the matched name is
/// replaced, throughout the path, by its encoded form; a path without a
/// match is kept as it is.
pub fn rewrite_request_uri(path: &String) -> (rewritten: String)
    ensures
        (forall|p: int, l: int, r: Seq<char>| !(#[trigger] match_at(path@, p, l, r)))
            ==> rewritten@ == path@,
        (exists|p: int, l: int, r: Seq<char>| #[trigger] match_at(path@, p, l, r)) ==> exists|
            name: Seq<char>,
            res: Seq<char>,
        |
            #[trigger] captured_parts(path@, name, res) && rewritten@ == replace_chars(
                path@,
                name,
                replace_chars(name, "/"@, "%2F"@),
            ),
{
    match capture(path) {
        None => path.clone(),
        Some(parts) => {
            let (name, resource) = parts;
            proof {
                let start = choose|start: int|
                    {
                        &&& #[trigger] match_at(path@, start, name@.len() as int, resource@)
                        &&& name@ == path@.subrange(start + 4, start + 4 + name@.len() as int)
                        &&& (forall|p: int, l: int, r: Seq<char>|
                            0 <= p < start ==> !(#[trigger] match_at(path@, p, l, r)))
                        &&& (forall|l: int, r: Seq<char>|
                            l > name@.len() ==> !(#[trigger] match_at(path@, start, l, r)))
                    };
                assert(name@.len() >= 1);
            }
            let encoded = encode_name(&name);
            let rewritten = replace(path, &name, &encoded);
            proof {
                assert(captured_parts(path@, name@, resource@) && rewritten@ == replace_chars(
                    path@,
                    name@,
                    replace_chars(name@, "/"@, "%2F"@),
                ));
            }
            rewritten
        },
    }
}

/// Encoding never shortens a name.
proof fn lemma_encode_len(name: Seq<char>)
    ensures
        replace_chars(name, "/"@, "%2F"@).len() >= name.len(),
    decreases name.len(),
{
    reveal_strlit("/");
    reveal_strlit("%2F");
    if name.len() >= 1 {
        if name.subrange(0, 1) == "/"@ {
            lemma_encode_len(name.skip(1));
        } else {
            lemma_encode_len(name.skip(1));
        }
    }
}

/// The rewriter produces a segment without a slash: encoding a name made
/// of word characters and slashes leaves no slash in the result.
pub proof fn lemma_encode_no_slash(name: Seq<char>)
    requires
        forall|i: int| 0 <= i < name.len() ==> is_name_char(#[trigger] name[i]),
    ensures
        forall|i: int|
            0 <= i < replace_chars(name, "/"@, "%2F"@).len() ==> #[trigger] replace_chars(
                name,
                "/"@,
                "%2F"@,
            )[i] != '/',
    decreases name.len(),
{
    reveal_strlit("/");
    reveal_strlit("%2F");
    if name.len() >= 1 {
        assert(forall|i: int|
            0 <= i < name.skip(1).len() ==> is_name_char(#[trigger] name.skip(1)[i]));
        lemma_encode_no_slash(name.skip(1));
        let enc = replace_chars(name, "/"@, "%2F"@);
        let rest = replace_chars(name.skip(1), "/"@, "%2F"@);
        if name.subrange(0, 1) == "/"@ {
            assert(enc == "%2F"@ + rest);
            assert forall|i: int| 0 <= i < enc.len() implies #[trigger] enc[i] != '/' by {
                if i >= 3 {
                    assert(enc[i] == rest[i - 3]);
                }
            }
        } else {
            assert(name[0] != '/') by {
                if name[0] == '/' {
                    assert(name.subrange(0, 1) =~= "/"@);
                }
            }
            assert(enc == seq![name[0]] + rest);
            assert forall|i: int| 0 <= i < enc.len() implies #[trigger] enc[i] != '/' by {
                if i >= 1 {
                    assert(enc[i] == rest[i - 1]);
                }
            }
        }
    }
}

/// Decoding inverts encoding: for every name made of word characters and
/// slashes, encoding it to a single segment and decoding that segment
/// yields the name again.
pub proof fn lemma_rewrite_round_trip(name: Seq<char>)
    requires
        forall|i: int| 0 <= i < name.len() ==> is_name_char(#[trigger] name[i]),
    ensures
        replace_chars(replace_chars(name, "/"@, "%2F"@), "%2F"@, "/"@) == name,
    decreases name.len(),
{
    reveal_strlit("/");
    reveal_strlit("%2F");
    if name.len() == 0 {
        assert(replace_chars(name, "/"@, "%2F"@) =~= name);
    } else {
        let rest = name.skip(1);
        assert(forall|i: int| 0 <= i < rest.len() ==> is_name_char(#[trigger] rest[i]));
        lemma_rewrite_round_trip(rest);
        let enc_rest = replace_chars(rest, "/"@, "%2F"@);
        let enc = replace_chars(name, "/"@, "%2F"@);
        if name.subrange(0, 1) == "/"@ {
            assert(enc == "%2F"@ + enc_rest);
            assert(enc.len() >= 3);
            assert(enc.subrange(0, 3) =~= "%2F"@);
            assert(enc.skip(3) =~= enc_rest);
            assert(replace_chars(enc, "%2F"@, "/"@) == "/"@ + replace_chars(
                enc_rest,
                "%2F"@,
                "/"@,
            ));
            assert(name[0] == '/') by {
                assert(name.subrange(0, 1)[0] == name[0]);
            }
            assert("/"@ + rest =~= name);
        } else {
            assert(name[0] != '/') by {
                if name[0] == '/' {
                    assert(name.subrange(0, 1) =~= "/"@);
                }
            }
            assert(enc == seq![name[0]] + enc_rest);
            assert(enc[0] == name[0]);
            assert(name[0] != '%');
            if enc.len() >= 3 {
                assert(enc.subrange(0, 3) != "%2F"@) by {
                    if enc.subrange(0, 3) == "%2F"@ {
                        assert(enc.subrange(0, 3)[0] == enc[0]);
                        assert(enc[0] == '%');
                    }
                }
                assert(enc.skip(1) =~= enc_rest);
                assert(replace_chars(enc, "%2F"@, "/"@) == seq![enc[0]] + replace_chars(
                    enc_rest,
                    "%2F"@,
                    "/"@,
                ));
                assert(seq![name[0]] + rest =~= name);
            } else {
                // fewer than three characters remain, so decoding keeps them
                assert(replace_chars(enc, "%2F"@, "/"@) == enc);
                lemma_encode_len(rest);
                assert(rest.len() <= enc_rest.len());
                assert(enc.len() == 1 + enc_rest.len());
                assert(rest.len() <= 1);
                if rest.len() == 0 {
                    assert(enc_rest =~= rest);
                } else {
                    assert(rest[0] != '/') by {
                        if rest[0] == '/' {
                            assert(rest.subrange(0, 1) =~= "/"@);
                            assert(enc_rest == "%2F"@ + replace_chars(
                                rest.skip(1),
                                "/"@,
                                "%2F"@,
                            ));
                            assert(enc_rest.len() >= 3);
                        }
                    }
                    assert(rest.subrange(0, 1) != "/"@) by {
                        if rest.subrange(0, 1) == "/"@ {
                            assert(rest.subrange(0, 1)[0] == rest[0]);
                        }
                    }
                    assert(enc_rest == seq![rest[0]] + replace_chars(
                        rest.skip(1),
                        "/"@,
                        "%2F"@,
                    ));
                    assert(rest.skip(1) =~= Seq::<char>::empty());
                    assert(replace_chars(rest.skip(1), "/"@, "%2F"@) =~= Seq::<char>::empty());
                    assert(enc_rest =~= rest);
                }
                assert(seq![name[0]] + rest =~= name);
                assert(enc =~= name);
            }
        }
    }
}
} // verus!
