//! Character-level helpers on strings, stated over `Seq<char>` views.

use vstd::prelude::*;

verus! {

broadcast use vstd::string::group_string_axioms;

/// `p` is a prefix of `s`.
pub open spec fn is_prefix(p: Seq<char>, s: Seq<char>) -> bool {
    p.len() <= s.len() && s.take(p.len() as int) == p
}

/// The whitespace characters of ASCII (Unicode `White_Space` restricted to ASCII).
pub open spec fn is_ascii_space(c: char) -> bool {
    c == ' ' || c == '\t' || c == '\n' || c == '\x0B' || c == '\x0C' || c == '\r'
}

/// The decimal digit character of `d` (`d < 10`).
pub open spec fn digit_char(d: nat) -> char {
    ((d + 48) as u8) as char
}

/// The decimal representation of `n`, without leading zeros.
pub open spec fn decimal(n: nat) -> Seq<char>
    decreases n,
{
    if n < 10 {
        seq![digit_char(n)]
    } else {
        decimal(n / 10).push(digit_char(n % 10))
    }
}

/// The characters of `s` before the first `c` (all of `s` when there is none).
pub open spec fn before_char(s: Seq<char>, c: char) -> Seq<char>
    decreases s.len(),
{
    if s.len() == 0 {
        s
    } else if s[0] == c {
        Seq::empty()
    } else {
        seq![s[0]] + before_char(s.drop_first(), c)
    }
}

/// `s` without its leading ASCII whitespace.
pub open spec fn trim_start(s: Seq<char>) -> Seq<char>
    decreases s.len(),
{
    if s.len() > 0 && is_ascii_space(s[0]) {
        trim_start(s.drop_first())
    } else {
        s
    }
}

/// `s` without its trailing ASCII whitespace.
pub open spec fn trim_end(s: Seq<char>) -> Seq<char>
    decreases s.len(),
{
    if s.len() > 0 && is_ascii_space(s.last()) {
        trim_end(s.drop_last())
    } else {
        s
    }
}

/// `s` without its leading and trailing ASCII whitespace.
pub open spec fn trim(s: Seq<char>) -> Seq<char> {
    trim_end(trim_start(s))
}

/// Every character of `s` is a decimal digit.
pub open spec fn all_digits(s: Seq<char>) -> bool {
    forall|i: int| 0 <= i < s.len() ==> '0' <= #[trigger] s[i] && s[i] <= '9'
}

/// The number that the decimal digits `s` stand for.
pub open spec fn digits_value(s: Seq<char>) -> nat
    decreases s.len(),
{
    if s.len() == 0 {
        0
    } else {
        digits_value(s.drop_last()) * 10 + ((s.last() as int - 48) as nat)
    }
}

/// The `usize` that `s` stands for as an unsigned decimal with an optional
/// leading `+`, when it stands for one that fits.
pub open spec fn parse_usize(s: Seq<char>) -> Option<nat> {
    let d = if s.len() > 0 && s[0] == '+' { s.drop_first() } else { s };
    if d.len() > 0 && all_digits(d) && digits_value(d) <= usize::MAX {
        Some(digits_value(d))
    } else {
        None
    }
}

proof fn lemma_before_char_prefix(s: Seq<char>, c: char, i: int)
    requires
        0 <= i <= s.len(),
        forall|j: int| 0 <= j < i ==> s[j] != c,
    ensures
        before_char(s, c) == s.take(i) + before_char(s.skip(i), c),
    decreases i,
{
    if i == 0 {
        assert(s.skip(0) =~= s);
        assert(s.take(0) + before_char(s, c) =~= before_char(s, c));
    } else {
        lemma_before_char_prefix(s.drop_first(), c, i - 1);
        assert(s.drop_first().skip(i - 1) =~= s.skip(i));
        assert(seq![s[0]] + s.drop_first().take(i - 1) =~= s.take(i));
        assert(seq![s[0]] + (s.drop_first().take(i - 1) + before_char(s.skip(i), c))
            =~= s.take(i) + before_char(s.skip(i), c));
    }
}

/// The text before the first `c` is the whole first `c`-separated piece of
/// `s`: a prefix of `s` without `c` in it, that is all of `s` or is followed
/// in `s` by `c`.
pub proof fn law_before_char_is_first_piece(s: Seq<char>, c: char)
    ensures
        is_prefix(before_char(s, c), s),
        forall|i: int| 0 <= i < before_char(s, c).len() ==> before_char(s, c)[i] != c,
        before_char(s, c).len() == s.len() || s[before_char(s, c).len() as int] == c,
    decreases s.len(),
{
    if s.len() > 0 && s[0] != c {
        let t = s.drop_first();
        law_before_char_is_first_piece(t, c);
        let b = before_char(t, c);
        assert(before_char(s, c) == seq![s[0]] + b);
        assert((seq![s[0]] + b) =~= s.take(b.len() + 1 as int)) by {
            assert(t.take(b.len() as int) == b);
            assert forall|i: int| 0 <= i < b.len() + 1 implies (seq![s[0]] + b)[i] == s.take(
                b.len() + 1 as int,
            )[i] by {
                if i > 0 {
                    assert(b[i - 1] == t.take(b.len() as int)[i - 1]);
                }
            }
        }
        if b.len() < t.len() {
            assert(s[b.len() + 1 as int] == t[b.len() as int]);
        }
    } else if s.len() > 0 {
        assert(s.take(0) =~= Seq::<char>::empty());
    } else {
        assert(s.take(0) =~= s);
    }
}

/// The characters of `v` before the first `c`, as a `String`.
pub fn prefix_before(v: &Vec<char>, c: char) -> (s: String)
    ensures
        s@ == before_char(v@, c),
{
    let mut i: usize = 0;
    while i < v.len() && v[i] != c
        invariant
            i <= v.len(),
            forall|j: int| 0 <= j < i ==> v@[j] != c,
        decreases v.len() - i,
    {
        i = i + 1;
    }
    proof {
        lemma_before_char_prefix(v@, c, i as int);
        if i < v.len() {
            assert(v@.skip(i as int)[0] == c);
        } else {
            assert(v@.skip(i as int) =~= Seq::<char>::empty());
        }
    }
    string_from_range(v, 0, i)
}

/// ASCII whitespace (Unicode `White_Space` restricted to ASCII).
pub fn is_space(c: char) -> (r: bool)
    ensures
        r == is_ascii_space(c),
{
    c == ' ' || c == '\t' || c == '\n' || c == '\x0B' || c == '\x0C' || c == '\r'
}

proof fn lemma_trim_start_skip(s: Seq<char>, i: int)
    requires
        0 <= i <= s.len(),
        forall|j: int| 0 <= j < i ==> is_ascii_space(#[trigger] s[j]),
    ensures
        trim_start(s) == trim_start(s.skip(i)),
    decreases i,
{
    if i == 0 {
        assert(s.skip(0) =~= s);
    } else {
        lemma_trim_start_skip(s.drop_first(), i - 1);
        assert(s.drop_first().skip(i - 1) =~= s.skip(i));
    }
}

proof fn lemma_trim_end_take(s: Seq<char>, b: int)
    requires
        0 <= b <= s.len(),
        forall|j: int| b <= j < s.len() ==> is_ascii_space(#[trigger] s[j]),
    ensures
        trim_end(s) == trim_end(s.take(b)),
    decreases s.len() - b,
{
    if b == s.len() {
        assert(s.take(b) =~= s);
    } else {
        assert(is_ascii_space(s[s.len() - 1]));
        lemma_trim_end_take(s.drop_last(), b);
        assert(s.drop_last().take(b) =~= s.take(b));
    }
}

/// `v` without leading and trailing ASCII whitespace, as a `String`.
pub fn trimmed(v: &Vec<char>) -> (s: String)
    ensures
        s@ == trim(v@),
{
    let mut a: usize = 0;
    while a < v.len() && is_space(v[a])
        invariant
            a <= v.len(),
            forall|j: int| 0 <= j < a ==> is_ascii_space(#[trigger] v@[j]),
        decreases v.len() - a,
    {
        a = a + 1;
    }
    let mut b: usize = v.len();
    while b > a && is_space(v[b - 1])
        invariant
            a <= b <= v.len(),
            forall|j: int| b <= j < v.len() ==> is_ascii_space(#[trigger] v@[j]),
        decreases b - a,
    {
        b = b - 1;
    }
    proof {
        lemma_trim_start_skip(v@, a as int);
        let t = v@.skip(a as int);
        if a < v.len() {
            assert(t[0] == v@[a as int]);
        } else {
            assert(t.len() == 0);
        }
        assert(trim_start(t) == t);
        assert forall|j: int| b - a <= j < t.len() implies is_ascii_space(#[trigger] t[j]) by {
            assert(t[j] == v@[a + j]);
        }
        lemma_trim_end_take(t, b - a);
        let u = t.take(b - a);
        if b > a {
            assert(u.last() == v@[b - 1]);
        }
        assert(trim_end(u) == u);
        assert(u =~= v@.subrange(a as int, b as int));
    }
    string_from_range(v, a, b)
}

proof fn lemma_digits_value_prefix(s: Seq<char>, i: int)
    requires
        0 <= i <= s.len(),
    ensures
        digits_value(s.take(i)) <= digits_value(s),
    decreases s.len() - i,
{
    if i < s.len() {
        lemma_digits_value_prefix(s.drop_last(), i);
        assert(s.drop_last().take(i) =~= s.take(i));
    } else {
        assert(s.take(i) =~= s);
    }
}

/// `v` read as an unsigned decimal `usize` with an optional leading `+`.
pub fn parse_decimal_usize(v: &Vec<char>) -> (r: Option<usize>)
    ensures
        r matches Some(n) ==> parse_usize(v@) == Some(n as nat),
        r is None ==> parse_usize(v@) is None,
{
    let start: usize = if v.len() > 0 && v[0] == '+' { 1 } else { 0 };
    let ghost d = if v@.len() > 0 && v@[0] == '+' { v@.drop_first() } else { v@ };
    assert(d =~= v@.skip(start as int));
    if start == v.len() {
        return None;
    }
    let mut value: usize = 0;
    let mut i: usize = start;
    while i < v.len()
        invariant
            start <= i <= v.len(),
            d == v@.skip(start as int),
            d == (if v@.len() > 0 && v@[0] == '+' { v@.drop_first() } else { v@ }),
            all_digits(v@.subrange(start as int, i as int)),
            value as nat == digits_value(v@.subrange(start as int, i as int)),
        decreases v.len() - i,
    {
        let c = v[i];
        if !('0' <= c && c <= '9') {
            proof {
                assert(d[i - start] == c);
                assert(!all_digits(d));
            }
            return None;
        }
        let digit = (c as u32 - 48) as usize;
        let ghost next = v@.subrange(start as int, i + 1);
        assert(next.drop_last() =~= v@.subrange(start as int, i as int));
        assert(digits_value(next) == value * 10 + digit);
        let scaled = match value.checked_mul(10) {
            Some(m) => m.checked_add(digit),
            None => None,
        };
        match scaled {
            Some(n) => {
                value = n;
            },
            None => {
                proof {
                    lemma_digits_value_prefix(d, i + 1 - start);
                    assert(d.take(i + 1 - start) =~= next);
                }
                return None;
            },
        }
        i = i + 1;
        assert(all_digits(v@.subrange(start as int, i as int)));
    }
    assert(v@.subrange(start as int, v@.len() as int) =~= d);
    Some(value)
}

/// `c` with ASCII upper-case letters folded to lower case.
pub open spec fn ascii_lower(c: char) -> char {
    if 'A' <= c && c <= 'Z' {
        (((c as u8) + 32) as u8) as char
    } else {
        c
    }
}

/// `s` with ASCII upper-case letters folded to lower case.
pub open spec fn lower_chars(s: Seq<char>) -> Seq<char> {
    Seq::new(s.len(), |i: int| ascii_lower(s[i]))
}

/// A path as it is compared with blocked paths: runs of `/` collapsed to
/// one, and ASCII letters folded to lower case.
pub open spec fn normalized_path(s: Seq<char>) -> Seq<char>
    decreases s.len(),
{
    if s.len() == 0 {
        s
    } else if s.len() >= 2 && s[0] == '/' && s[1] == '/' {
        normalized_path(s.drop_first())
    } else {
        seq![ascii_lower(s[0])] + normalized_path(s.drop_first())
    }
}

/// `c` with ASCII upper-case letters folded to lower case.
pub fn to_ascii_lower(c: char) -> (r: char)
    ensures
        r == ascii_lower(c),
{
    if 'A' <= c && c <= 'Z' {
        ((c as u8) + 32) as char
    } else {
        c
    }
}

/// `v[from..to]`, with ASCII letters folded to lower case, equals `p`.
pub fn range_equals_ignore_case(v: &Vec<char>, from: usize, to: usize, p: &Vec<char>) -> (b: bool)
    requires
        from <= to <= v.len(),
    ensures
        b == (lower_chars(v@.subrange(from as int, to as int)) == p@),
{
    if to - from != p.len() {
        return false;
    }
    let mut i: usize = 0;
    while i < p.len()
        invariant
            from <= to <= v.len(),
            to - from == p.len(),
            i <= p.len(),
            forall|k: int| 0 <= k < i ==> ascii_lower(v@[from + k]) == p@[k],
        decreases p.len() - i,
    {
        if to_ascii_lower(v[from + i]) != p[i] {
            assert(lower_chars(v@.subrange(from as int, to as int))[i as int] != p@[i as int]);
            return false;
        }
        i = i + 1;
    }
    assert(lower_chars(v@.subrange(from as int, to as int)) =~= p@);
    true
}

proof fn lemma_normalized_step(v: Seq<char>, i: int)
    requires
        0 <= i < v.len(),
    ensures
        normalized_path(v.skip(i)) == (if i + 1 < v.len() && v[i] == '/' && v[i + 1] == '/' {
            normalized_path(v.skip(i + 1))
        } else {
            seq![ascii_lower(v[i])] + normalized_path(v.skip(i + 1))
        }),
{
    let t = v.skip(i);
    assert(t.drop_first() =~= v.skip(i + 1));
    assert(t[0] == v[i]);
    if i + 1 < v.len() {
        assert(t[1] == v[i + 1]);
    }
}

/// The characters of `s` normalised as a path (see `normalized_path`).
pub fn normalize_path(s: &str) -> (r: Vec<char>)
    ensures
        r@ == normalized_path(s@),
{
    let v = chars_of(s);
    let mut out: Vec<char> = Vec::new();
    let mut i: usize = 0;
    assert(v@.skip(0) =~= v@);
    while i < v.len()
        invariant
            i <= v.len(),
            v@ == s@,
            normalized_path(v@) == out@ + normalized_path(v@.skip(i as int)),
        decreases v.len() - i,
    {
        proof {
            lemma_normalized_step(v@, i as int);
        }
        if !(i + 1 < v.len() && v[i] == '/' && v[i + 1] == '/') {
            let ghost before = out@;
            out.push(to_ascii_lower(v[i]));
            assert(before + (seq![ascii_lower(v@[i as int])] + normalized_path(v@.skip(i + 1)))
                =~= out@ + normalized_path(v@.skip(i + 1)));
        }
        i = i + 1;
    }
    assert(v@.skip(v@.len() as int) =~= Seq::<char>::empty());
    assert(out@ + Seq::<char>::empty() =~= out@);
    out
}

/// Whether `p` is a prefix of `s`, both as characters.
pub fn chars_start_with(s: &Vec<char>, p: &Vec<char>) -> (r: bool)
    ensures
        r == is_prefix(p@, s@),
{
    if p.len() > s.len() {
        return false;
    }
    let r = range_equals(s, 0, p.len(), p);
    assert(s@.subrange(0, p@.len() as int) =~= s@.take(p@.len() as int));
    r
}

/// Appends one character to a `String` (std's `String::push`).
#[verifier::external_body]
pub fn push_char(s: &mut String, c: char)
    ensures
        final(s)@ == old(s)@.push(c),
{
    s.push(c);
}

/// The characters of a string slice, in order.
pub fn chars_of(s: &str) -> (v: Vec<char>)
    ensures
        v@ == s@,
{
    let mut v: Vec<char> = Vec::new();
    for c in iter: s.chars()
        invariant
            iter.seq() == s@,
            v@ == iter.seq().take(iter.index() as int),
    {
        v.push(c);
    }
    v
}

/// The characters `v[from..to]` as a `String`.
pub fn string_from_range(v: &Vec<char>, from: usize, to: usize) -> (s: String)
    requires
        from <= to <= v.len(),
    ensures
        s@ == v@.subrange(from as int, to as int),
{
    let mut s = String::new();
    let mut i = from;
    while i < to
        invariant
            from <= i <= to <= v.len(),
            s@ == v@.subrange(from as int, i as int),
        decreases to - i,
    {
        push_char(&mut s, v[i]);
        i = i + 1;
        assert(s@ =~= v@.subrange(from as int, i as int));
    }
    s
}

/// `v[from..to]` equals `p`.
pub fn range_equals(v: &Vec<char>, from: usize, to: usize, p: &Vec<char>) -> (b: bool)
    requires
        from <= to <= v.len(),
    ensures
        b == (v@.subrange(from as int, to as int) == p@),
{
    if to - from != p.len() {
        return false;
    }
    let mut i: usize = 0;
    while i < p.len()
        invariant
            from <= to <= v.len(),
            to - from == p.len(),
            i <= p.len(),
            forall|k: int| 0 <= k < i ==> v@[from + k] == p@[k],
        decreases p.len() - i,
    {
        if v[from + i] != p[i] {
            assert(v@.subrange(from as int, to as int)[i as int] != p@[i as int]);
            return false;
        }
        i = i + 1;
    }
    assert(v@.subrange(from as int, to as int) =~= p@);
    true
}

/// The two strings hold the same characters.
pub fn str_eq(a: &str, b: &str) -> (r: bool)
    ensures
        r == (a@ == b@),
{
    let va = chars_of(a);
    let vb = chars_of(b);
    let r = range_equals(&va, 0, va.len(), &vb);
    assert(va@.subrange(0, va@.len() as int) =~= va@);
    r
}

/// `p` is a prefix of `s`.
pub fn starts_with(s: &str, p: &str) -> (r: bool)
    ensures
        r == is_prefix(p@, s@),
{
    let vs = chars_of(s);
    let vp = chars_of(p);
    if vp.len() > vs.len() {
        return false;
    }
    let r = range_equals(&vs, 0, vp.len(), &vp);
    assert(vs@.subrange(0, vp@.len() as int) =~= vs@.take(vp@.len() as int));
    r
}

/// Appends the decimal representation of `n` to `s`.
pub fn push_decimal(s: &mut String, n: usize)
    ensures
        final(s)@ == old(s)@ + decimal(n as nat),
    decreases n,
{
    if n >= 10 {
        push_decimal(s, n / 10);
    }
    let d = (n % 10) as u8;
    push_char(s, (d + 48) as char);
    assert(final(s)@ =~= old(s)@ + decimal(n as nat));
}

proof fn lemma_decimal_digits(n: nat)
    ensures
        all_digits(decimal(n)),
        decimal(n).len() > 0,
        digits_value(decimal(n)) == n,
    decreases n,
{
    assert(((n % 10 + 48) as u8) as int == n % 10 + 48);
    assert(digit_char(n % 10) as int == n % 10 + 48);
    if n < 10 {
        assert(decimal(n).drop_last() =~= Seq::<char>::empty());
        assert(n % 10 == n);
        assert(decimal(n).last() == digit_char(n));
        assert(digits_value(decimal(n)) == digits_value(Seq::<char>::empty()) * 10 + n);
    } else {
        lemma_decimal_digits(n / 10);
        let d = decimal(n);
        assert(d.drop_last() =~= decimal(n / 10));
        assert(d.last() == digit_char(n % 10));
        assert(digits_value(d) == digits_value(decimal(n / 10)) * 10 + n % 10);
        assert forall|i: int| 0 <= i < d.len() implies '0' <= #[trigger] d[i] && d[i] <= '9' by {
            if i < d.len() - 1 {
                assert(d[i] == decimal(n / 10)[i]);
            }
        }
    }
}

/// A `usize` written in decimal reads back as the same number.
pub proof fn law_decimal_reads_back(n: usize)
    ensures
        parse_usize(decimal(n as nat)) == Some(n as nat),
{
    lemma_decimal_digits(n as nat);
    assert('0' <= decimal(n as nat)[0] && decimal(n as nat)[0] <= '9');
}

} // verus!
