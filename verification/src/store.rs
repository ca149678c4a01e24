//! The in-memory link store shared by the request handlers.
use vstd::prelude::*;
use vstd::string::StringExecFns;

use crate::code::{encode, spec_encode};
use crate::model::{bump, code_of, LinkView};

verus! {

/// One stored link.
struct Link {
    code: String,
    url: String,
    clicks: u64,
}

/// Everything the handlers need: the links created so far, in the order in
/// which they were created. The link at position `i` has the short code
/// `encode(i)`; links are never deleted, so codes never collide.
pub struct AppState {
    links: Vec<Link>,
}

impl View for AppState {
    type V = Seq<LinkView>;

    closed spec fn view(&self) -> Seq<LinkView> {
        self.links@.map_values(|l: Link| (l.url@, l.clicks))
    }
}

impl AppState {
    /// The store's invariant: the link at position `i` is stored under the code
    /// `encode(i)`.
    pub closed spec fn wf(&self) -> bool {
        forall|i: int| 0 <= i < self.links@.len() ==> #[trigger] self.links@[i].code@ == spec_encode(i as nat)
    }

    /// An empty store.
    pub fn new() -> (s: Self)
        ensures
            s.wf(),
            s@ == Seq::<LinkView>::empty(),
    {
        let s = AppState { links: Vec::new() };
        assert(s@ =~= Seq::<LinkView>::empty());
        s
    }

    /// A throwaway empty store, for tests.
    pub fn new_in_memory() -> (s: Self)
        ensures
            s.wf(),
            s@ == Seq::<LinkView>::empty(),
    {
        Self::new()
    }

    /// Stores a new link to `url`, with no clicks, under the next code, which is
    /// returned: the number of links stored before, in base 62.
    pub fn insert(&mut self, url: String) -> (code: String)
        requires
            old(self).wf(),
        ensures
            final(self).wf(),
            final(self)@ == old(self)@.push((url@, 0u64)),
            code@ == spec_encode(old(self)@.len()),
    {
        let next_id: u64 = self.links.len() as u64;
        let code = encode(next_id);
        let stored = String::from_str(code.as_str());
        let ghost before = self.links@;
        self.links.push(Link { code: stored, url, clicks: 0 });
        assert(self@ =~= old(self)@.push((url@, 0u64)));
        assert forall|i: int| 0 <= i < self.links@.len() implies #[trigger] self.links@[i].code@
            == spec_encode(i as nat) by {
            if i < before.len() {
                assert(self.links@[i] == before[i]);
            }
        }
        code
    }

    /// The position of the link stored under `code`, if any.
    pub fn find(&self, code: &str) -> (r: Option<usize>)
        requires
            self.wf(),
        ensures
            r matches Some(i) ==> code_of(self@, i as int, code@),
            r is None ==> forall|i: int| !code_of(self@, i, code@),
    {
        let wanted = String::from_str(code);
        let n = self.links.len();
        let mut i: usize = 0;
        while i < n
            invariant
                n == self.links@.len(),
                self.wf(),
                wanted@ == code@,
                i <= n,
                forall|j: int| 0 <= j < i ==> !#[trigger] code_of(self@, j, code@),
            decreases n - i,
        {
            if self.links[i].code == wanted {
                assert(self.links@[i as int].code@ == spec_encode(i as nat));
                return Some(i);
            }
            assert(self.links@[i as int].code@ == spec_encode(i as nat));
            i = i + 1;
        }
        None
    }

    /// The target URL of the link at position `i`.
    pub fn url_at(&self, i: usize) -> (u: String)
        requires
            i < self@.len(),
        ensures
            u@ == self@[i as int].0,
    {
        String::from_str(self.links[i].url.as_str())
    }

    /// The click count of the link at position `i`.
    pub fn clicks_at(&self, i: usize) -> (c: u64)
        requires
            i < self@.len(),
        ensures
            c == self@[i as int].1,
    {
        self.links[i].clicks
    }

    /// Counts one click on the link at position `i` (the count stays at
    /// `u64::MAX` once it is there).
    pub fn record_click(&mut self, i: usize)
        requires
            old(self).wf(),
            i < old(self)@.len(),
        ensures
            final(self).wf(),
            final(self)@ == old(self)@.update(i as int, (old(self)@[i as int].0, bump(old(self)@[i as int].1))),
    {
        let c = self.links[i].clicks;
        let next: u64 = if c < u64::MAX { c + 1 } else { c };
        self.links[i].clicks = next;
        assert(self@ =~= old(self)@.update(i as int, (old(self)@[i as int].0, bump(old(self)@[i as int].1))));
    }
}

} // verus!
