//! Which embedded dashboard file a request asks for, and how it is served.

use vstd::prelude::*;
use crate::text::{chars_of, range_equals, string_from_range};

verus! {

broadcast use vstd::string::group_string_axioms;

/// `s` without its leading `c` characters.
pub open spec fn strip_leading(s: Seq<char>, c: char) -> Seq<char>
    decreases s.len(),
{
    if s.len() > 0 && s[0] == c {
        strip_leading(s.drop_first(), c)
    } else {
        s
    }
}

/// The characters of `s` after its last `c` (all of `s` when there is none).
pub open spec fn after_last(s: Seq<char>, c: char) -> Seq<char>
    decreases s.len(),
{
    if s.len() == 0 {
        s
    } else if s.last() == c {
        Seq::empty()
    } else {
        after_last(s.drop_last(), c).push(s.last())
    }
}

/// The asset a dashboard path names: the path without leading slashes, or
/// `index.html` when nothing is left.
pub open spec fn dashboard_asset(raw: Seq<char>) -> Seq<char> {
    if strip_leading(raw, '/').len() == 0 {
        "index.html"@
    } else {
        strip_leading(raw, '/')
    }
}

/// The content type served for an asset, chosen by the text after its last dot.
pub open spec fn mime_type_of(file_path: Seq<char>) -> Seq<char> {
    let ext = after_last(file_path, '.');
    if ext == "html"@ {
        "text/html"@
    } else if ext == "css"@ {
        "text/css"@
    } else if ext == "js"@ {
        "application/javascript"@
    } else if ext == "json"@ {
        "application/json"@
    } else if ext == "svg"@ {
        "image/svg+xml"@
    } else {
        "application/octet-stream"@
    }
}

proof fn lemma_strip_leading_skip(s: Seq<char>, c: char, i: int)
    requires
        0 <= i <= s.len(),
        forall|j: int| 0 <= j < i ==> s[j] == c,
    ensures
        strip_leading(s, c) == strip_leading(s.skip(i), c),
    decreases i,
{
    if i == 0 {
        assert(s.skip(0) =~= s);
    } else {
        lemma_strip_leading_skip(s.drop_first(), c, i - 1);
        assert(s.drop_first().skip(i - 1) =~= s.skip(i));
    }
}

proof fn lemma_after_last_suffix(s: Seq<char>, c: char, i: int)
    requires
        0 <= i <= s.len(),
        forall|j: int| i <= j < s.len() ==> s[j] != c,
    ensures
        after_last(s, c) == after_last(s.take(i), c) + s.skip(i),
    decreases s.len() - i,
{
    if i == s.len() {
        assert(s.take(i) =~= s);
        assert(s.skip(i) =~= Seq::<char>::empty());
        assert(after_last(s, c) + Seq::<char>::empty() =~= after_last(s, c));
    } else {
        lemma_after_last_suffix(s.drop_last(), c, i);
        assert(s.drop_last().take(i) =~= s.take(i));
        assert(s.drop_last().skip(i).push(s.last()) =~= s.skip(i));
        assert((after_last(s.take(i), c) + s.drop_last().skip(i)).push(s.last())
            =~= after_last(s.take(i), c) + s.skip(i));
    }
}

/// The asset a dashboard request path names (`None` when the request has no
/// path segment).
pub fn dashboard_file_path(raw_path: Option<&str>) -> (r: String)
    ensures
        r@ == dashboard_asset(
            match raw_path {
                Some(p) => p@,
                None => Seq::empty(),
            },
        ),
{
    let v = match raw_path {
        Some(p) => chars_of(p),
        None => Vec::new(),
    };
    let mut i: usize = 0;
    while i < v.len() && v[i] == '/'
        invariant
            i <= v.len(),
            forall|j: int| 0 <= j < i ==> v@[j] == '/',
        decreases v.len() - i,
    {
        i = i + 1;
    }
    proof {
        lemma_strip_leading_skip(v@, '/', i as int);
        if i < v.len() {
            assert(v@.skip(i as int)[0] != '/');
        }
        assert(v@.skip(i as int) =~= v@.subrange(i as int, v@.len() as int));
    }
    if i == v.len() {
        String::from_str("index.html")
    } else {
        string_from_range(&v, i, v.len())
    }
}

/// The content type served for the asset `file_path`.
pub fn mime_type_for(file_path: &str) -> (r: &'static str)
    ensures
        r@ == mime_type_of(file_path@),
{
    let v = chars_of(file_path);
    let mut i: usize = v.len();
    while i > 0 && v[i - 1] != '.'
        invariant
            i <= v.len(),
            forall|j: int| i <= j < v.len() ==> v@[j] != '.',
        decreases i,
    {
        i = i - 1;
    }
    proof {
        lemma_after_last_suffix(v@, '.', i as int);
        if i > 0 {
            assert(v@.take(i as int).last() == '.');
        }
        assert(after_last(v@.take(i as int), '.') =~= Seq::<char>::empty());
        assert(Seq::<char>::empty() + v@.skip(i as int) =~= v@.subrange(i as int, v@.len() as int));
    }
    let n = v.len();
    if range_equals(&v, i, n, &chars_of("html")) {
        "text/html"
    } else if range_equals(&v, i, n, &chars_of("css")) {
        "text/css"
    } else if range_equals(&v, i, n, &chars_of("js")) {
        "application/javascript"
    } else if range_equals(&v, i, n, &chars_of("json")) {
        "application/json"
    } else if range_equals(&v, i, n, &chars_of("svg")) {
        "image/svg+xml"
    } else {
        "application/octet-stream"
    }
}

proof fn lemma_strip_leading_head(s: Seq<char>, c: char)
    ensures
        strip_leading(s, c).len() > 0 ==> strip_leading(s, c)[0] != c,
    decreases s.len(),
{
    if s.len() > 0 && s[0] == c {
        lemma_strip_leading_head(s.drop_first(), c);
    }
}

/// The asset a dashboard path names is never empty and never starts with `/`.
pub proof fn law_dashboard_asset_is_relative(raw: Seq<char>)
    ensures
        dashboard_asset(raw).len() > 0,
        dashboard_asset(raw)[0] != '/',
{
    lemma_strip_leading_head(raw, '/');
    reveal_strlit("index.html");
}

} // verus!
