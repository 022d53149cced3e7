//! Bearer tokens and the claims they carry.

use vstd::prelude::*;
use crate::request::{find_header_text, header_text, HeaderField};
use crate::text::{
    ascii_lower, chars_of, is_ascii_space, is_space, lower_chars, range_equals_ignore_case,
    string_from_range,
};

verus! {

broadcast use vstd::string::group_string_axioms;

/// The claims of a gateway token.
pub struct Claims {
    /// The user the token was issued to.
    pub sub: String,
    /// When the token expires, in seconds since the Unix epoch.
    pub exp: usize,
    /// Who issued the token.
    pub iss: String,
}

/// Every character of `s` is ASCII whitespace.
pub open spec fn all_space(s: Seq<char>) -> bool {
    forall|i: int| 0 <= i < s.len() ==> is_ascii_space(#[trigger] s[i])
}

/// No character of `s` is ASCII whitespace.
pub open spec fn no_space(s: Seq<char>) -> bool {
    forall|i: int| 0 <= i < s.len() ==> !is_ascii_space(#[trigger] s[i])
}

/// `text` splits at whitespace into exactly two words: the scheme `Bearer`,
/// in any mix of upper and lower case, and `token`.
pub open spec fn is_bearer_form(text: Seq<char>, token: Seq<char>) -> bool {
    &&& token.len() > 0
    &&& no_space(token)
    &&& exists|pad: Seq<char>, scheme: Seq<char>, sep: Seq<char>, tail: Seq<char>|
        {
            &&& all_space(pad)
            &&& lower_chars(scheme) == "bearer"@
            &&& sep.len() > 0
            &&& all_space(sep)
            &&& all_space(tail)
            &&& #[trigger] (pad + scheme + sep + token + tail) == text
        }
}

/// A character that folds to a lower-case ASCII letter is no whitespace.
proof fn lemma_letter_not_space(c: char)
    requires
        'a' <= ascii_lower(c) <= 'z',
    ensures
        !is_ascii_space(c),
{
}

/// The characters of a text whose folded form is `bearer` are no whitespace.
proof fn lemma_scheme_not_space(scheme: Seq<char>)
    requires
        lower_chars(scheme) == "bearer"@,
    ensures
        scheme.len() == 6,
        no_space(scheme),
{
    reveal_strlit("bearer");
    assert(lower_chars(scheme).len() == 6);
    assert forall|i: int| 0 <= i < scheme.len() implies !is_ascii_space(#[trigger] scheme[i]) by {
        assert(lower_chars(scheme)[i] == ascii_lower(scheme[i]));
        lemma_letter_not_space(scheme[i]);
    }
}

/// The first index at or after `from` whose character is (when `space`) or is
/// not (when `!space`) whitespace; `v.len()` when there is none.
fn scan(v: &Vec<char>, from: usize, space: bool) -> (r: usize)
    requires
        from <= v.len(),
    ensures
        from <= r <= v.len(),
        forall|j: int| from <= j < r ==> is_ascii_space(#[trigger] v@[j]) != space,
        r < v.len() ==> is_ascii_space(v@[r as int]) == space,
{
    let mut i = from;
    while i < v.len() && is_space(v[i]) != space
        invariant
            from <= i <= v.len(),
            forall|j: int| from <= j < i ==> is_ascii_space(#[trigger] v@[j]) != space,
        decreases v.len() - i,
    {
        i = i + 1;
    }
    i
}

/// The token of a `Bearer <token>` text (the scheme in any case), if the
/// text has that form.
pub fn bearer_token_of(v: &Vec<char>) -> (r: Option<String>)
    ensures
        r matches Some(t) ==> is_bearer_form(v@, t@),
        r is None ==> forall|t: Seq<char>| !is_bearer_form(v@, t),
{
    let n = v.len();
    let a = scan(v, 0, false);
    let j = scan(v, a, true);
    let k = scan(v, j, false);
    let l = scan(v, k, true);
    let m = scan(v, l, false);
    let bearer = chars_of("bearer");
    let first_is_bearer = range_equals_ignore_case(v, a, j, &bearer);
    if first_is_bearer && j < k && k < l && m == n {
        let token = string_from_range(v, k, l);
        proof {
            let pad = v@.subrange(0, a as int);
            let scheme = v@.subrange(a as int, j as int);
            let sep = v@.subrange(j as int, k as int);
            let tail = v@.subrange(l as int, n as int);
            assert(all_space(pad));
            assert(all_space(sep));
            assert(all_space(tail));
            assert(no_space(token@));
            assert(pad + scheme + sep + token@ + tail =~= v@);
        }
        Some(token)
    } else {
        proof {
            assert forall|t: Seq<char>| !is_bearer_form(v@, t) by {
                if is_bearer_form(v@, t) {
                    let (pad, scheme, sep, tail) = choose|
                        pad: Seq<char>,
                        scheme: Seq<char>,
                        sep: Seq<char>,
                        tail: Seq<char>,
                    |
                        {
                            &&& all_space(pad)
                            &&& lower_chars(scheme) == "bearer"@
                            &&& sep.len() > 0
                            &&& all_space(sep)
                            &&& all_space(tail)
                            &&& #[trigger] (pad + scheme + sep + t + tail) == v@
                        };
                    lemma_scheme_not_space(scheme);
                    let w = pad + scheme + sep + t + tail;
                    let p = pad.len() as int;
                    let q = p + 6;
                    let s = q + sep.len();
                    let e = s + t.len();
                    assert(w.len() == n);
                    assert forall|x: int| 0 <= x < p implies is_ascii_space(#[trigger] v@[x]) by {
                        assert(v@[x] == pad[x]);
                    }
                    assert forall|x: int| p <= x < q implies !is_ascii_space(#[trigger] v@[x]) by {
                        assert(v@[x] == scheme[x - p]);
                    }
                    assert forall|x: int| q <= x < s implies is_ascii_space(#[trigger] v@[x]) by {
                        assert(v@[x] == sep[x - q]);
                    }
                    assert forall|x: int| s <= x < e implies !is_ascii_space(#[trigger] v@[x]) by {
                        assert(v@[x] == t[x - s]);
                    }
                    assert forall|x: int| e <= x < n implies is_ascii_space(#[trigger] v@[x]) by {
                        assert(v@[x] == tail[x - e]);
                    }
                    if a < p {
                        assert(is_ascii_space(v@[a as int]));
                    }
                    if a > p {
                        assert(!is_ascii_space(v@[p]));
                    }
                    assert(a == p);
                    if j < q {
                        assert(!is_ascii_space(v@[j as int]));
                    }
                    if j > q {
                        assert(is_ascii_space(v@[q]));
                    }
                    assert(j == q);
                    if k < s {
                        assert(is_ascii_space(v@[k as int]));
                    }
                    if k > s {
                        assert(!is_ascii_space(v@[s]));
                    }
                    assert(k == s);
                    if l < e {
                        assert(!is_ascii_space(v@[l as int]));
                    }
                    if l > e {
                        assert(is_ascii_space(v@[e]));
                    }
                    assert(l == e);
                    if m < n {
                        assert(is_ascii_space(v@[m as int]));
                    }
                    assert(v@.subrange(a as int, j as int) =~= scheme);
                }
            }
        }
        None
    }
}

/// The token of the `Authorization: Bearer <token>` header, if the first
/// `Authorization` header reads as text of that form.
pub fn extract_token_from_header(headers: &Vec<HeaderField>) -> (r: Option<String>)
    ensures
        r matches Some(t) ==> header_text(headers@, "authorization"@) matches Some(text)
            && is_bearer_form(text, t@),
        r is None ==> (header_text(headers@, "authorization"@) matches Some(text) ==> forall|
            t: Seq<char>,
        | !is_bearer_form(text, t)),
{
    match find_header_text(headers, "authorization") {
        Some(text) => bearer_token_of(&text),
        None => None,
    }
}

/// The positions a `Bearer <token>` decomposition of `text` puts its parts at.
proof fn lemma_bearer_layout(
    text: Seq<char>,
    pad: Seq<char>,
    scheme: Seq<char>,
    sep: Seq<char>,
    token: Seq<char>,
    tail: Seq<char>,
)
    requires
        all_space(pad),
        lower_chars(scheme) == "bearer"@,
        sep.len() > 0,
        all_space(sep),
        all_space(tail),
        token.len() > 0,
        no_space(token),
        pad + scheme + sep + token + tail == text,
    ensures
        forall|x: int| 0 <= x < pad.len() ==> is_ascii_space(#[trigger] text[x]),
        !is_ascii_space(text[pad.len() as int]),
        is_ascii_space(text[pad.len() + 6 as int]),
        forall|x: int| pad.len() + 6 <= x < pad.len() + 6 + sep.len() ==> is_ascii_space(#[trigger] text[x]),
        forall|x: int| pad.len() + 6 + sep.len() <= x < pad.len() + 6 + sep.len() + token.len()
            ==> !is_ascii_space(#[trigger] text[x]),
        forall|x: int| pad.len() + 6 + sep.len() + token.len() <= x < text.len()
            ==> is_ascii_space(#[trigger] text[x]),
        text.len() == pad.len() + 6 + sep.len() + token.len() + tail.len(),
        token == text.subrange((pad.len() + 6 + sep.len()) as int, (pad.len() + 6 + sep.len() + token.len()) as int),
{
    lemma_scheme_not_space(scheme);
    let p = pad.len() as int;
    let q = p + 6;
    let s = q + sep.len();
    let e = s + token.len();
    assert(text[p] == scheme[0]);
    assert(text[q] == sep[0]);
    assert forall|x: int| 0 <= x < p implies is_ascii_space(#[trigger] text[x]) by {
        assert(text[x] == pad[x]);
    }
    assert forall|x: int| q <= x < s implies is_ascii_space(#[trigger] text[x]) by {
        assert(text[x] == sep[x - q]);
    }
    assert forall|x: int| s <= x < e implies !is_ascii_space(#[trigger] text[x]) by {
        assert(text[x] == token[x - s]);
    }
    assert forall|x: int| e <= x < text.len() implies is_ascii_space(#[trigger] text[x]) by {
        assert(text[x] == tail[x - e]);
    }
    assert(token =~= text.subrange(s, e));
}

/// A text has at most one bearer token: the token of a `Bearer <token>`
/// header is determined by the header.
pub proof fn law_bearer_token_unique(text: Seq<char>, t1: Seq<char>, t2: Seq<char>)
    requires
        is_bearer_form(text, t1),
        is_bearer_form(text, t2),
    ensures
        t1 == t2,
{
    let (pad1, scheme1, sep1, tail1) = choose|
        pad: Seq<char>,
        scheme: Seq<char>,
        sep: Seq<char>,
        tail: Seq<char>,
    |
        {
            &&& all_space(pad)
            &&& lower_chars(scheme) == "bearer"@
            &&& sep.len() > 0
            &&& all_space(sep)
            &&& all_space(tail)
            &&& #[trigger] (pad + scheme + sep + t1 + tail) == text
        };
    let (pad2, scheme2, sep2, tail2) = choose|
        pad: Seq<char>,
        scheme: Seq<char>,
        sep: Seq<char>,
        tail: Seq<char>,
    |
        {
            &&& all_space(pad)
            &&& lower_chars(scheme) == "bearer"@
            &&& sep.len() > 0
            &&& all_space(sep)
            &&& all_space(tail)
            &&& #[trigger] (pad + scheme + sep + t2 + tail) == text
        };
    lemma_bearer_layout(text, pad1, scheme1, sep1, t1, tail1);
    lemma_bearer_layout(text, pad2, scheme2, sep2, t2, tail2);
    let p1 = pad1.len() as int;
    let p2 = pad2.len() as int;
    if p1 < p2 {
        assert(is_ascii_space(text[p1]));
    }
    if p2 < p1 {
        assert(is_ascii_space(text[p2]));
    }
    assert(p1 == p2);
    let s1 = p1 + 6 + sep1.len();
    let s2 = p2 + 6 + sep2.len();
    if s1 < s2 {
        assert(is_ascii_space(text[s1]));
    }
    if s2 < s1 {
        assert(is_ascii_space(text[s2]));
    }
    assert(s1 == s2);
    let e1 = s1 + t1.len();
    let e2 = s2 + t2.len();
    if e1 < e2 {
        assert(!is_ascii_space(text[e1]));
    }
    if e2 < e1 {
        assert(!is_ascii_space(text[e2]));
    }
    assert(e1 == e2);
}

} // verus!
