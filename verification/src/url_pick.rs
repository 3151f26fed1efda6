use vstd::prelude::*;
use crate::text::str_eq;
use crate::urls::{PeerUrl, URLs, url_text};

verus! {

/// Picks the URL to reach a peer at, moving on to the next one when the picked URL
/// turns out to be unreachable.
pub struct BaseurlPicker {
    urls: URLs,
    picked: isize,
}

impl BaseurlPicker {
    /// The picked position is within the list (or zero when the list is empty).
    pub closed spec fn wf(&self) -> bool {
        &&& 0 <= self.picked
        &&& self.urls@.len() == 0 ==> self.picked == 0
        &&& self.urls@.len() > 0 ==> self.picked < self.urls@.len()
        &&& self.urls@.len() <= isize::MAX
    }

    /// The URLs to pick from.
    pub closed spec fn urls(&self) -> Seq<(Seq<char>, Seq<char>, Seq<char>)> {
        self.urls@
    }

    /// The position of the picked URL.
    pub closed spec fn picked(&self) -> int {
        self.picked as int
    }

    pub fn new(urls: URLs) -> (r: BaseurlPicker)
        requires
            urls@.len() <= isize::MAX,
        ensures
            r.wf(),
            r.urls() == urls@,
            r.picked() == 0,
    {
        BaseurlPicker { urls, picked: 0 }
    }

    /// Replaces the URLs and picks the first one again.
    pub fn update(&mut self, urls: URLs)
        requires
            urls@.len() <= isize::MAX,
        ensures
            final(self).wf(),
            final(self).urls() == urls@,
            final(self).picked() == 0,
    {
        self.urls = urls;
        self.picked = 0;
    }

    /// The picked URL; `None` when there are no URLs.
    pub fn pick(&mut self) -> (r: Option<PeerUrl>)
        requires
            old(self).wf(),
        ensures
            *final(self) == *old(self),
            old(self).urls().len() == 0 ==> r is None,
            old(self).urls().len() > 0 ==> (r matches Some(u) && u@ == old(self).urls()[old(
                self,
            ).picked()]),
    {
        self.urls.get_url(self.picked as usize)
    }

    /// Reports `url` unreachable: if it is the picked URL, the next one in the list is
    /// picked, wrapping round to the first.
    pub fn unreachable(&mut self, url: PeerUrl)
        requires
            old(self).wf(),
            old(self).urls().len() > 0,
        ensures
            final(self).wf(),
            final(self).urls() == old(self).urls(),
            url_text(url@) == url_text(old(self).urls()[old(self).picked()]) ==> final(self).picked()
                == (old(self).picked() + 1) % (old(self).urls().len() as int),
            url_text(url@) != url_text(old(self).urls()[old(self).picked()]) ==> final(self).picked()
                == old(self).picked(),
    {
        let cur = self.urls.get_url(self.picked as usize);
        let cur = match cur {
            Some(c) => c,
            None => {
                return;
            },
        };
        if str_eq(url.as_str(), cur.as_str()) {
            self.picked = (self.picked + 1) % (self.urls.len() as isize);
        }
    }
}

/// Reporting the picked URL unreachable moves on to a different URL, when the list
/// holds at least two URLs with distinct texts.
pub proof fn law_unreachable_moves_on(before: BaseurlPicker, after: BaseurlPicker)
    requires
        before.wf(),
        before.urls().len() >= 2,
        forall|i: int, j: int|
            0 <= i < j < before.urls().len() ==> url_text(before.urls()[i]) != url_text(
                before.urls()[j],
            ),
        after.urls() == before.urls(),
        after.picked() == (before.picked() + 1) % (before.urls().len() as int),
    ensures
        after.picked() != before.picked(),
        url_text(after.urls()[after.picked()]) != url_text(before.urls()[before.picked()]),
{
    let n = before.urls().len() as int;
    let i = before.picked();
    let j = after.picked();
    assert(0 <= i < n);
    if i + 1 < n {
        assert((i + 1) % n == i + 1) by (nonlinear_arith)
            requires
                0 <= i + 1 < n,
        ;
    } else {
        assert((i + 1) % n == 0) by (nonlinear_arith)
            requires
                i + 1 == n,
                n > 0,
        ;
    }
}

} // verus!
