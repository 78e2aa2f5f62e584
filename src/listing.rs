use vstd::prelude::*;
use crate::object::{ObjectDescriptor, ObjectView};
use crate::plan::views;

verus! {

/// A request for one page of a listing.
pub struct PageRequest {
    /// Where the previous page ended; none for the first page.
    pub continuation: Option<String>,
    pub max_keys: usize,
}

/// Gathers a bucket's listing page by page until the backend gives no
/// continuation token.
pub struct ListingCollector {
    objects: Vec<ObjectDescriptor>,
    continuation: Option<String>,
    started: bool,
    max_keys: usize,
}

impl ListingCollector {
    /// Objects gathered so far, in the order the pages gave them.
    pub closed spec fn gathered(&self) -> Seq<ObjectView> {
        views(self.objects@)
    }

    /// Whether the last page has been taken in.
    pub closed spec fn is_done(&self) -> bool {
        self.started && self.continuation is None
    }

    /// Token the next request carries.
    pub closed spec fn token(&self) -> Option<Seq<char>> {
        match self.continuation {
            Some(t) => Some(t@),
            None => None,
        }
    }

    pub closed spec fn page_size(&self) -> usize {
        self.max_keys
    }

    /// Start a listing with pages of at most `max_keys` objects.
    pub fn new(max_keys: usize) -> (r: ListingCollector)
        ensures
            r.gathered().len() == 0,
            !r.is_done(),
            r.token() is None,
            r.page_size() == max_keys,
    {
        let r = ListingCollector {
            objects: Vec::new(),
            continuation: None,
            started: false,
            max_keys,
        };
        assert(views(r.objects@) =~= Seq::<ObjectView>::empty());
        r
    }

    /// The next page to ask for, or none once the listing is complete.
    pub fn next_request(&self) -> (r: Option<PageRequest>)
        ensures
            self.is_done() <==> r is None,
            r matches Some(p) ==> p.max_keys == self.page_size() && match p.continuation {
                Some(t) => self.token() == Some(t@),
                None => self.token() is None,
            },
    {
        if self.started && self.continuation.is_none() {
            return None;
        }
        let continuation = match &self.continuation {
            Some(t) => Some(t.clone()),
            None => None,
        };
        Some(PageRequest { continuation, max_keys: self.max_keys })
    }

    /// Take in a page and the token it ended with.
    pub fn accept_page(&mut self, page: Vec<ObjectDescriptor>, next: Option<String>)
        requires
            !old(self).is_done(),
        ensures
            final(self).gathered() == old(self).gathered() + views(page@),
            final(self).is_done() <==> next is None,
            final(self).token() == match next {
                Some(t) => Some(t@),
                None => None::<Seq<char>>,
            },
            final(self).page_size() == old(self).page_size(),
    {
        let ghost before = views(self.objects@);
        let mut page = page;
        let ghost pv = views(page@);
        self.objects.append(&mut page);
        assert(views(self.objects@) =~= before + pv);
        self.continuation = next;
        self.started = true;
    }

    /// The complete listing.
    pub fn into_objects(self) -> (r: Vec<ObjectDescriptor>)
        ensures
            views(r@) == self.gathered(),
    {
        self.objects
    }
}

} // verus!
