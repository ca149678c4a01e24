//! The abstract model of the link store and the laws that the operations keep.
//!
//! A store is a sequence of links, in the order in which they were created.
//! Each link is its target URL and its click count; the short code of the
//! link at position `i` is `spec_encode(i)`.
use vstd::prelude::*;

use crate::code::{lemma_encode_injective, spec_encode};
use crate::text::{is_accepted_url, spec_trim};

verus! {

/// A stored link: its target URL and how many times it was followed.
pub type LinkView = (Seq<char>, u64);

/// Whether `code` is the short code of the link at position `i`.
pub open spec fn code_of(links: Seq<LinkView>, i: int, code: Seq<char>) -> bool {
    0 <= i < links.len() && spec_encode(i as nat) == code
}

/// The position of the link whose short code is `code`, if there is one.
pub open spec fn lookup(links: Seq<LinkView>, code: Seq<char>) -> Option<int> {
    if exists|i: int| code_of(links, i, code) {
        Some(choose|i: int| code_of(links, i, code))
    } else {
        None
    }
}

/// The short code that the next new link gets: the number of links so far, in base 62.
pub open spec fn next_code(links: Seq<LinkView>) -> Seq<char> {
    spec_encode(links.len())
}

/// The store after a request to shorten `raw_url`: the trimmed URL is added with
/// no clicks when it is accepted; otherwise nothing changes.
pub open spec fn after_shorten(links: Seq<LinkView>, raw_url: Seq<char>) -> Seq<LinkView> {
    if is_accepted_url(spec_trim(raw_url)) {
        links.push((spec_trim(raw_url), 0u64))
    } else {
        links
    }
}

/// A click count after one more click; it stays at `u64::MAX` once there.
pub open spec fn bump(clicks: u64) -> u64 {
    if clicks < u64::MAX {
        (clicks + 1) as u64
    } else {
        clicks
    }
}

/// The store after a redirect request for `code`: the link's click count goes up
/// by one when the code is known; otherwise nothing changes.
pub open spec fn after_redirect(links: Seq<LinkView>, code: Seq<char>) -> Seq<LinkView> {
    match lookup(links, code) {
        Some(i) => links.update(i, (links[i].0, bump(links[i].1))),
        None => links,
    }
}

/// `lookup` finds exactly the link whose position the code encodes.
pub proof fn lemma_lookup(links: Seq<LinkView>, code: Seq<char>)
    ensures
        forall|i: int| code_of(links, i, code) <==> lookup(links, code) == Some(i),
        lookup(links, code) is None <==> forall|i: int| !code_of(links, i, code),
{
    if exists|i: int| code_of(links, i, code) {
        let k = choose|i: int| code_of(links, i, code);
        assert forall|i: int| code_of(links, i, code) implies i == k by {
            lemma_encode_injective(i as nat, k as nat);
        }
    }
}

/// The code given to a new link is not the code of any link already stored.
pub proof fn lemma_next_code_is_fresh(links: Seq<LinkView>)
    ensures
        lookup(links, next_code(links)) is None,
{
    lemma_lookup(links, next_code(links));
    assert forall|i: int| !code_of(links, i, next_code(links)) by {
        if 0 <= i < links.len() {
            lemma_encode_injective(i as nat, links.len());
        }
    }
}

/// After an accepted URL is shortened, its code leads to the trimmed URL, and
/// the new link has not been followed yet.
pub proof fn lemma_shorten_then_lookup(links: Seq<LinkView>, raw_url: Seq<char>)
    requires
        is_accepted_url(spec_trim(raw_url)),
    ensures
        lookup(after_shorten(links, raw_url), next_code(links)) == Some(links.len() as int),
        after_shorten(links, raw_url)[links.len() as int] == (spec_trim(raw_url), 0u64),
{
    let after = after_shorten(links, raw_url);
    lemma_lookup(after, next_code(links));
    assert(code_of(after, links.len() as int, next_code(links)));
}

/// Shortening never changes where an existing code leads: every code that was
/// known before still finds the same link, with the same URL and click count.
pub proof fn lemma_shorten_keeps_links(links: Seq<LinkView>, raw_url: Seq<char>, code: Seq<char>)
    requires
        lookup(links, code) is Some,
    ensures
        lookup(after_shorten(links, raw_url), code) == lookup(links, code),
        after_shorten(links, raw_url)[lookup(links, code)->0] == links[lookup(links, code)->0],
{
    let after = after_shorten(links, raw_url);
    lemma_lookup(links, code);
    lemma_lookup(after, code);
    let i = lookup(links, code)->0;
    assert(code_of(links, i, code));
    assert(code_of(after, i, code));
}

/// A redirect for a known code adds one click to that link (up to `u64::MAX`)
/// and changes nothing else; the code still leads to the same URL.
pub proof fn lemma_redirect_counts_click(links: Seq<LinkView>, code: Seq<char>)
    requires
        lookup(links, code) is Some,
    ensures
        ({
            let i = lookup(links, code)->0;
            let after = after_redirect(links, code);
            &&& after.len() == links.len()
            &&& lookup(after, code) == Some(i)
            &&& after[i] == (links[i].0, bump(links[i].1))
            &&& forall|j: int| 0 <= j < links.len() && j != i ==> after[j] == links[j]
        }),
{
    let i = lookup(links, code)->0;
    let after = after_redirect(links, code);
    lemma_lookup(links, code);
    lemma_lookup(after, code);
    assert(code_of(links, i, code));
    assert(code_of(after, i, code));
}

/// One click adds exactly one to a count below `u64::MAX`; the count stays at
/// `u64::MAX` once there.
pub proof fn lemma_bump(clicks: u64)
    ensures
        clicks < u64::MAX ==> bump(clicks) == clicks + 1,
        clicks == u64::MAX ==> bump(clicks) == clicks,
{
}

/// A redirect for a known code whose count is below `u64::MAX` raises that
/// link's count by exactly one.
pub proof fn lemma_redirect_adds_one(links: Seq<LinkView>, code: Seq<char>)
    requires
        lookup(links, code) is Some,
        links[lookup(links, code)->0].1 < u64::MAX,
    ensures
        after_redirect(links, code)[lookup(links, code)->0].1 == links[lookup(links, code)->0].1 + 1,
        lookup(after_redirect(links, code), code) == lookup(links, code),
{
    lemma_redirect_counts_click(links, code);
}

/// A redirect for an unknown code changes nothing.
pub proof fn lemma_redirect_unknown(links: Seq<LinkView>, code: Seq<char>)
    requires
        lookup(links, code) is None,
    ensures
        after_redirect(links, code) == links,
{
}

/// A rejected URL leaves the store as it was.
pub proof fn lemma_shorten_rejected(links: Seq<LinkView>, raw_url: Seq<char>)
    requires
        !is_accepted_url(spec_trim(raw_url)),
    ensures
        after_shorten(links, raw_url) == links,
{
}

} // verus!
