//! Text handling for submitted URLs: whitespace trimming and the
//! `http://` / `https://` scheme check.
use vstd::prelude::*;
use vstd::string::StrSliceExecFns;
use vstd::string::StringExecFns;

verus! {

/// Whether `c` has the Unicode `White_Space` property, the set that
/// `char::is_whitespace` and `str::trim` use.
pub open spec fn is_whitespace(c: char) -> bool {
    let x = c as int;
    ||| 0x9 <= x <= 0xD
    ||| x == 0x20
    ||| x == 0x85
    ||| x == 0xA0
    ||| x == 0x1680
    ||| 0x2000 <= x <= 0x200A
    ||| x == 0x2028
    ||| x == 0x2029
    ||| x == 0x202F
    ||| x == 0x205F
    ||| x == 0x3000
}

/// The first index at or after `i` that does not hold whitespace
/// (`s.len()` when there is none).
pub open spec fn skip_leading(s: Seq<char>, i: int) -> int
    decreases s.len() - i,
{
    if 0 <= i < s.len() && is_whitespace(s[i]) {
        skip_leading(s, i + 1)
    } else {
        i
    }
}

/// The end of `s[lo..j]` once the whitespace at its end is removed.
pub open spec fn skip_trailing(s: Seq<char>, lo: int, j: int) -> int
    decreases j - lo,
{
    if lo < j <= s.len() && is_whitespace(s[j - 1]) {
        skip_trailing(s, lo, j - 1)
    } else {
        j
    }
}

/// `s` without its leading and trailing whitespace (what `str::trim` returns).
pub open spec fn spec_trim(s: Seq<char>) -> Seq<char> {
    let a = skip_leading(s, 0);
    s.subrange(a, skip_trailing(s, a, s.len() as int))
}

proof fn lemma_skip_leading(s: Seq<char>, i: int)
    requires
        0 <= i <= s.len(),
    ensures
        i <= skip_leading(s, i) <= s.len(),
        forall|j: int| i <= j < skip_leading(s, i) ==> is_whitespace(#[trigger] s[j]),
        skip_leading(s, i) < s.len() ==> !is_whitespace(s[skip_leading(s, i)]),
    decreases s.len() - i,
{
    if i < s.len() && is_whitespace(s[i]) {
        lemma_skip_leading(s, i + 1);
    }
}

proof fn lemma_skip_trailing(s: Seq<char>, lo: int, j: int)
    requires
        0 <= lo <= j <= s.len(),
    ensures
        lo <= skip_trailing(s, lo, j) <= j,
        forall|k: int| skip_trailing(s, lo, j) <= k < j ==> is_whitespace(#[trigger] s[k]),
        lo < skip_trailing(s, lo, j) ==> !is_whitespace(s[skip_trailing(s, lo, j) - 1]),
    decreases j - lo,
{
    if lo < j && is_whitespace(s[j - 1]) {
        lemma_skip_trailing(s, lo, j - 1);
    }
}

/// Trimming cuts `s` into three parts: leading whitespace, the result, and
/// trailing whitespace; the result neither starts nor ends with whitespace.
pub proof fn lemma_trim_shape(s: Seq<char>)
    ensures
        exists|a: int, b: int|
            #![trigger s.subrange(a, b)]
            {
                &&& 0 <= a <= b <= s.len()
                &&& spec_trim(s) == s.subrange(a, b)
                &&& forall|j: int| 0 <= j < a ==> is_whitespace(#[trigger] s[j])
                &&& forall|j: int| b <= j < s.len() ==> is_whitespace(#[trigger] s[j])
            },
        spec_trim(s).len() > 0 ==> !is_whitespace(spec_trim(s)[0]) && !is_whitespace(
            spec_trim(s)[spec_trim(s).len() - 1],
        ),
{
    let a = skip_leading(s, 0);
    lemma_skip_leading(s, 0);
    let b = skip_trailing(s, a, s.len() as int);
    lemma_skip_trailing(s, a, s.len() as int);
    assert forall|j: int| b <= j < s.len() implies is_whitespace(#[trigger] s[j]) by {
        if j < a {
        }
    }
    assert(spec_trim(s) == s.subrange(a, b));
}

/// The scheme prefix `http://`.
pub open spec fn http_scheme() -> Seq<char> {
    seq!['h', 't', 't', 'p', ':', '/', '/']
}

/// The scheme prefix `https://`.
pub open spec fn https_scheme() -> Seq<char> {
    seq!['h', 't', 't', 'p', 's', ':', '/', '/']
}

/// Whether `s` begins with `p`.
pub open spec fn has_prefix(s: Seq<char>, p: Seq<char>) -> bool {
    p.len() <= s.len() && s.subrange(0, p.len() as int) == p
}

/// Whether a (trimmed) URL is accepted for shortening: it is not empty and
/// it starts with `http://` or `https://`.
pub open spec fn is_accepted_url(u: Seq<char>) -> bool {
    u.len() > 0 && (has_prefix(u, http_scheme()) || has_prefix(u, https_scheme()))
}

/// `s` begins with `p` exactly when `p` is no longer than `s` and every
/// character of `p` is the character at the same position of `s`.
pub proof fn lemma_has_prefix_chars(s: Seq<char>, p: Seq<char>)
    ensures
        has_prefix(s, p) <==> (p.len() <= s.len() && forall|j: int|
            0 <= j < p.len() ==> #[trigger] s[j] == p[j]),
{
    if p.len() <= s.len() && forall|j: int| 0 <= j < p.len() ==> #[trigger] s[j] == p[j] {
        assert(s.subrange(0, p.len() as int) =~= p);
    }
    if has_prefix(s, p) {
        assert forall|j: int| 0 <= j < p.len() implies #[trigger] s[j] == p[j] by {
            assert(s.subrange(0, p.len() as int)[j] == s[j]);
        }
    }
}

/// Every sequence begins with each of its prefixes, whatever follows them.
pub proof fn lemma_has_prefix_concat(p: Seq<char>, t: Seq<char>)
    ensures
        has_prefix(p + t, p),
{
    assert((p + t).subrange(0, p.len() as int) =~= p);
}

/// A URL is accepted exactly when its first seven characters are `http://`
/// or its first eight characters are `https://`; nothing else about it
/// (its length, the characters after the scheme) matters.
pub proof fn lemma_accepted_url_chars(u: Seq<char>)
    ensures
        is_accepted_url(u) <==> ({
            ||| (u.len() >= 7 && u.take(7) == seq!['h', 't', 't', 'p', ':', '/', '/'])
            ||| (u.len() >= 8 && u.take(8) == seq!['h', 't', 't', 'p', 's', ':', '/', '/'])
        }),
{
    assert(http_scheme().len() == 7);
    assert(https_scheme().len() == 8);
    assert(u.take(7) =~= u.subrange(0, 7));
    assert(u.take(8) =~= u.subrange(0, 8));
}

/// Any text after `http://` or `https://` makes an accepted URL, however long
/// it is and whatever characters it holds.
pub proof fn lemma_scheme_urls_accepted(t: Seq<char>)
    ensures
        is_accepted_url(seq!['h', 't', 't', 'p', ':', '/', '/'] + t),
        is_accepted_url(seq!['h', 't', 't', 'p', 's', ':', '/', '/'] + t),
{
    let a = seq!['h', 't', 't', 'p', ':', '/', '/'] + t;
    let b = seq!['h', 't', 't', 'p', 's', ':', '/', '/'] + t;
    lemma_accepted_url_chars(a);
    lemma_accepted_url_chars(b);
    assert(a.take(7) =~= seq!['h', 't', 't', 'p', ':', '/', '/']);
    assert(b.take(8) =~= seq!['h', 't', 't', 'p', 's', ':', '/', '/']);
}

/// Appends one character to a string (`String::push`).
/// Trusted: the new contents are the old contents followed by `c`.
#[verifier::external_body]
pub(crate) fn push_char(s: &mut String, c: char)
    ensures
        final(s)@ == old(s)@.push(c),
{
    s.push(c);
}

/// Whether `c` is Unicode whitespace.
pub fn is_whitespace_char(c: char) -> (b: bool)
    ensures
        b == is_whitespace(c),
{
    let x: u32 = c as u32;
    (0x9 <= x && x <= 0xD) || x == 0x20 || x == 0x85 || x == 0xA0 || x == 0x1680 || (0x2000 <= x
        && x <= 0x200A) || x == 0x2028 || x == 0x2029 || x == 0x202F || x == 0x205F || x == 0x3000
}

/// Removes leading and trailing whitespace.
pub fn trim(s: &str) -> (t: String)
    ensures
        t@ == spec_trim(s@),
{
    let n = s.unicode_len();
    let mut a: usize = 0;
    while a < n && is_whitespace_char(s.get_char(a))
        invariant
            a <= n,
            n == s@.len(),
            skip_leading(s@, 0) == skip_leading(s@, a as int),
        decreases n - a,
    {
        a = a + 1;
    }
    let mut b: usize = n;
    while b > a && is_whitespace_char(s.get_char(b - 1))
        invariant
            a <= b <= n,
            n == s@.len(),
            skip_leading(s@, 0) == a,
            skip_trailing(s@, a as int, n as int) == skip_trailing(s@, a as int, b as int),
        decreases b,
    {
        b = b - 1;
    }
    let inner = s.substring_char(a, b);
    String::from_str(inner)
}

/// Whether `s` begins with the characters of `p`.
fn starts_with(s: &str, p: &Vec<char>) -> (r: bool)
    ensures
        r == has_prefix(s@, p@),
{
    let n = s.unicode_len();
    let m = p.len();
    if m > n {
        return false;
    }
    let mut i: usize = 0;
    while i < m
        invariant
            m == p@.len(),
            n == s@.len(),
            m <= n,
            i <= m,
            forall|j: int| 0 <= j < i ==> s@[j] == p@[j],
        decreases m - i,
    {
        if s.get_char(i) != p[i] {
            assert(s@.subrange(0, m as int)[i as int] != p@[i as int]);
            return false;
        }
        i = i + 1;
    }
    assert(s@.subrange(0, m as int) =~= p@);
    true
}

/// Whether a URL is accepted for shortening: not empty, and starting with
/// `http://` or `https://`.
pub fn is_valid_url(u: &str) -> (r: bool)
    ensures
        r == is_accepted_url(u@),
{
    let http: Vec<char> = vec!['h', 't', 't', 'p', ':', '/', '/'];
    let https: Vec<char> = vec!['h', 't', 't', 'p', 's', ':', '/', '/'];
    assert(http@ =~= http_scheme());
    assert(https@ =~= https_scheme());
    let nonempty = u.unicode_len() > 0;
    nonempty && (starts_with(u, &http) || starts_with(u, &https))
}

/// Trims a submitted URL and checks it: `Some` of the trimmed URL when it is
/// accepted for shortening, `None` when it is not.
pub fn normalize_url(url: &str) -> (r: Option<String>)
    ensures
        r is Some <==> is_accepted_url(spec_trim(url@)),
        r matches Some(t) ==> t@ == spec_trim(url@),
{
    let t = trim(url);
    if is_valid_url(t.as_str()) {
        Some(t)
    } else {
        None
    }
}

} // verus!
