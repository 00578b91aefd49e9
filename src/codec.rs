//! The path codec: project directory names from paths and back, and the
//! normal form under which two paths name the same project.

use vstd::prelude::*;
use crate::text::{lower_of, lowercase, chars_of, string_of, slice_chars, push_char};

verus! {

/// What one path character becomes in a project directory name: path
/// separators and the drive-letter colon become `-`.
pub open spec fn encode_char(c: char) -> char {
    if c == '\\' || c == '/' || c == ':' { '-' } else { c }
}

/// The directory name that encodes path `p`, character for character.
pub open spec fn encoded(p: Seq<char>) -> Seq<char> {
    Seq::new(p.len(), |i: int| encode_char(p[i]))
}

/// The best-effort path read back from a directory name: every `-` becomes `/`.
pub open spec fn decoded(e: Seq<char>) -> Seq<char> {
    Seq::new(e.len(), |i: int| if e[i] == '-' { '/' } else { e[i] })
}

/// The Windows long-path prefix `\\?\`.
pub open spec fn long_prefix() -> Seq<char> {
    seq!['\\', '\\', '?', '\\']
}

pub open spec fn strip_long_prefix(s: Seq<char>) -> Seq<char> {
    if s.len() >= 4 && s.subrange(0, 4) == long_prefix() {
        s.subrange(4, s.len() as int)
    } else {
        s
    }
}

pub open spec fn unify_separators(s: Seq<char>) -> Seq<char> {
    Seq::new(s.len(), |i: int| if s[i] == '\\' { '/' } else { s[i] })
}

pub open spec fn drop_trailing_slash(s: Seq<char>) -> Seq<char> {
    if s.len() > 1 && s.last() == '/' {
        s.drop_last()
    } else {
        s
    }
}

pub open spec fn drop_leading_slash(s: Seq<char>) -> Seq<char> {
    if s.len() > 0 && s[0] == '/' {
        s.drop_first()
    } else {
        s
    }
}

/// `x:` becomes `x`, `x:/` becomes `x`, and `x:/rest` becomes `x/rest`.
pub open spec fn collapse_drive(s: Seq<char>) -> Seq<char> {
    if s.len() == 2 && s[1] == ':' {
        s.subrange(0, 1)
    } else if s.len() == 3 && s[1] == ':' && s[2] == '/' {
        s.subrange(0, 1)
    } else if s.len() > 3 && s[1] == ':' && s[2] == '/' {
        seq![s[0], '/'] + s.subrange(3, s.len() as int)
    } else {
        s
    }
}

/// The normal form of an already lower-cased path: no long-path prefix, `/`
/// separators, no leading or trailing `/`, and `x:/` written `x/`.
pub open spec fn normal_form(low: Seq<char>) -> Seq<char> {
    collapse_drive(drop_leading_slash(drop_trailing_slash(unify_separators(strip_long_prefix(low)))))
}

/// The form in which two paths are compared: equal forms mean the same project.
pub open spec fn normalized(p: Seq<char>) -> Seq<char> {
    normal_form(lower_of(p))
}

/// Encodes a filesystem path as a single directory name.
pub fn encode_project_path(path: &str) -> (r: String)
    ensures
        r@ == encoded(path@),
        r@.len() == path@.len(),
{
    let v = chars_of(path);
    let mut out = String::new();
    let mut i: usize = 0;
    while i < v.len()
        invariant
            v@ == path@,
            i <= v.len(),
            out@ == encoded(v@.subrange(0, i as int)),
        decreases v.len() - i,
    {
        let c = v[i];
        if c == '\\' || c == '/' || c == ':' {
            push_char(&mut out, '-');
        } else {
            push_char(&mut out, c);
        }
        assert(out@ =~= encoded(v@.subrange(0, i + 1)));
        i = i + 1;
    }
    assert(v@.subrange(0, v.len() as int) =~= v@);
    out
}

/// Reads a directory name back as a path, taking every `-` for a separator.
pub fn decode_project_path(encoded: &str) -> (r: String)
    ensures
        r@ == decoded(encoded@),
{
    let v = chars_of(encoded);
    let mut out = String::new();
    let mut i: usize = 0;
    while i < v.len()
        invariant
            v@ == encoded@,
            i <= v.len(),
            out@ == decoded(v@.subrange(0, i as int)),
        decreases v.len() - i,
    {
        let c = v[i];
        if c == '-' {
            push_char(&mut out, '/');
        } else {
            push_char(&mut out, c);
        }
        assert(out@ =~= decoded(v@.subrange(0, i + 1)));
        i = i + 1;
    }
    assert(v@.subrange(0, v.len() as int) =~= v@);
    out
}

/// Normalizes a path so that equivalent spellings compare equal: lower case,
/// no long-path prefix, `/` separators, no leading or trailing `/`, and a
/// drive letter `X:/` written `x/`.
pub fn normalize_path_for_comparison(path: &str) -> (r: String)
    ensures
        r@ == normalized(path@),
{
    let low = lowercase(path);
    normalize_lowered(low.as_str())
}

/// The normal form of a path that is lower-cased already.
pub fn normalize_lowered(low: &str) -> (r: String)
    ensures
        r@ == normal_form(low@),
{
    let v0 = chars_of(low);
    let v1 = if v0.len() >= 4 && v0[0] == '\\' && v0[1] == '\\' && v0[2] == '?' && v0[3] == '\\' {
        assert(v0@.subrange(0, 4) =~= long_prefix());
        slice_chars(&v0, 4, v0.len())
    } else {
        assert(v0@.len() >= 4 ==> v0@.subrange(0, 4)[0] == v0@[0] && v0@.subrange(0, 4)[1] == v0@[1]
            && v0@.subrange(0, 4)[2] == v0@[2] && v0@.subrange(0, 4)[3] == v0@[3]);
        slice_chars(&v0, 0, v0.len())
    };
    assert(v0@.subrange(0, v0@.len() as int) =~= v0@);
    assert(v1@ == strip_long_prefix(v0@));
    let mut v2: Vec<char> = Vec::new();
    let mut i: usize = 0;
    while i < v1.len()
        invariant
            i <= v1.len(),
            v2@ =~= unify_separators(v1@.subrange(0, i as int)),
        decreases v1.len() - i,
    {
        if v1[i] == '\\' {
            v2.push('/');
        } else {
            v2.push(v1[i]);
        }
        i = i + 1;
    }
    assert(v1@.subrange(0, v1.len() as int) =~= v1@);
    let mut v3 = v2;
    if v3.len() > 1 && v3[v3.len() - 1] == '/' {
        v3.pop();
    }
    assert(v3@ =~= drop_trailing_slash(unify_separators(v1@)));
    let v4 = if v3.len() > 0 && v3[0] == '/' {
        slice_chars(&v3, 1, v3.len())
    } else {
        slice_chars(&v3, 0, v3.len())
    };
    assert(v3@.subrange(0, v3@.len() as int) =~= v3@);
    assert(v4@ =~= drop_leading_slash(v3@));
    let n = v4.len();
    let v5 = if n >= 2 && v4[1] == ':' && (n == 2 || (n == 3 && v4[2] == '/')) {
        slice_chars(&v4, 0, 1)
    } else if n > 3 && v4[1] == ':' && v4[2] == '/' {
        let mut d: Vec<char> = Vec::new();
        d.push(v4[0]);
        d.push('/');
        let mut k: usize = 3;
        while k < n
            invariant
                3 <= k <= n,
                n == v4.len(),
                d@ =~= seq![v4@[0], '/'] + v4@.subrange(3, k as int),
            decreases n - k,
        {
            d.push(v4[k]);
            k = k + 1;
        }
        d
    } else {
        slice_chars(&v4, 0, n)
    };
    assert(v4@.subrange(0, n as int) =~= v4@);
    assert(v5@ =~= collapse_drive(v4@));
    string_of(&v5)
}

/// Paths free of `-`, `:` and `\` come back unchanged from a trip through the
/// directory-name encoding, so their normalized forms agree.
pub proof fn lemma_codec_round_trip(p: Seq<char>)
    requires
        forall|i: int| 0 <= i < p.len() ==> p[i] != '-' && p[i] != ':' && p[i] != '\\',
    ensures
        decoded(encoded(p)) == p,
        normalized(decoded(encoded(p))) == normalized(p),
{
    assert(decoded(encoded(p)) =~= p);
}

} // verus!
