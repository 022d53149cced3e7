//! The parts of an incoming HTTP request that the gateway's decisions read.
//!
//! Header names are held in the lowercase form that HTTP libraries normalise
//! them to; header values are held as the raw bytes that arrived.

use vstd::prelude::*;
use crate::text::str_eq;

verus! {

/// One header line of a request.
pub struct HeaderField {
    pub name: String,
    pub value: Vec<u8>,
}

/// Method, path, query, headers and target authority of a request.
pub struct RequestParts {
    pub method: String,
    pub path: String,
    pub query: Option<String>,
    pub headers: Vec<HeaderField>,
    /// The host named in the request target (HTTP/2's `:authority`), if any.
    pub authority: Option<String>,
}

/// The value of the first header called `name`, if any.
pub open spec fn header_lookup(hs: Seq<HeaderField>, name: Seq<char>) -> Option<Seq<u8>>
    decreases hs.len(),
{
    if hs.len() == 0 {
        None
    } else if hs[0].name@ == name {
        Some(hs[0].value@)
    } else {
        header_lookup(hs.drop_first(), name)
    }
}

/// A byte that may stand in a header value read as text: visible ASCII or tab.
pub open spec fn is_visible_ascii(b: u8) -> bool {
    (32 <= b && b < 127) || b == 9
}

/// Every byte of `bs` may stand in a header value read as text.
pub open spec fn all_visible_ascii(bs: Seq<u8>) -> bool {
    forall|i: int| 0 <= i < bs.len() ==> is_visible_ascii(#[trigger] bs[i])
}

/// The characters that the bytes `bs` stand for, byte by byte.
pub open spec fn ascii_chars(bs: Seq<u8>) -> Seq<char> {
    Seq::new(bs.len(), |i: int| bs[i] as char)
}

/// The value of the first header called `name`, read as text, if there is
/// one and it holds only visible ASCII and tabs.
pub open spec fn header_text(hs: Seq<HeaderField>, name: Seq<char>) -> Option<Seq<char>> {
    match header_lookup(hs, name) {
        Some(v) => if all_visible_ascii(v) {
            Some(ascii_chars(v))
        } else {
            None
        },
        None => None,
    }
}

proof fn lemma_header_lookup_skip(hs: Seq<HeaderField>, name: Seq<char>, i: int)
    requires
        0 <= i < hs.len(),
        hs[i].name@ != name,
    ensures
        header_lookup(hs.skip(i), name) == header_lookup(hs.skip(i + 1), name),
{
    assert(hs.skip(i).drop_first() =~= hs.skip(i + 1));
}

/// The value of the first header called `name`, if any.
pub fn find_header<'a>(headers: &'a Vec<HeaderField>, name: &str) -> (r: Option<&'a Vec<u8>>)
    ensures
        r matches Some(v) ==> header_lookup(headers@, name@) == Some(v@),
        r is None ==> header_lookup(headers@, name@) is None,
{
    let mut i: usize = 0;
    assert(headers@.skip(0) =~= headers@);
    while i < headers.len()
        invariant
            i <= headers.len(),
            header_lookup(headers@, name@) == header_lookup(headers@.skip(i as int), name@),
        decreases headers.len() - i,
    {
        if str_eq(headers[i].name.as_str(), name) {
            return Some(&headers[i].value);
        }
        proof {
            lemma_header_lookup_skip(headers@, name@, i as int);
        }
        i = i + 1;
    }
    None
}

/// The bytes read as text, when they hold only visible ASCII and tabs.
pub fn bytes_as_text(bs: &Vec<u8>) -> (r: Option<Vec<char>>)
    ensures
        r matches Some(v) ==> all_visible_ascii(bs@) && v@ == ascii_chars(bs@),
        r is None ==> !all_visible_ascii(bs@),
{
    let mut v: Vec<char> = Vec::new();
    let mut i: usize = 0;
    while i < bs.len()
        invariant
            i <= bs.len(),
            v@ == ascii_chars(bs@.take(i as int)),
            forall|k: int| 0 <= k < i ==> is_visible_ascii(#[trigger] bs@[k]),
        decreases bs.len() - i,
    {
        let b = bs[i];
        if !((32 <= b && b < 127) || b == 9) {
            return None;
        }
        v.push(b as char);
        i = i + 1;
        assert(v@ =~= ascii_chars(bs@.take(i as int)));
    }
    assert(bs@.take(bs@.len() as int) =~= bs@);
    Some(v)
}

/// The first header called `name` read as text, when it exists and holds only
/// visible ASCII and tabs.
pub fn find_header_text(headers: &Vec<HeaderField>, name: &str) -> (r: Option<Vec<char>>)
    ensures
        r matches Some(v) ==> header_text(headers@, name@) == Some(v@),
        r is None ==> header_text(headers@, name@) is None,
{
    match find_header(headers, name) {
        Some(v) => bytes_as_text(v),
        None => None,
    }
}

} // verus!
