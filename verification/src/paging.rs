//! Pagination of catalog listings.
//!
//! Both catalogs page their listings at a fixed page size and signal the end
//! by returning a short page; neither is assumed to report a total count.
//! The state machine here makes the stopping rule explicit: the caller
//! fetches the page at `next_offset`, hands it in, and stops as soon as
//! `done` holds.

use vstd::prelude::*;

verus! {

/// The state of one paginated listing: what has been collected so far, the
/// offset the next page starts at, and whether the listing is finished.
pub struct PageFetch<T> {
    pub items: Vec<T>,
    pub next_offset: u32,
    pub page_size: u32,
    pub done: bool,
}

impl<T> PageFetch<T> {
    /// Start a listing with the given page size.
    pub fn new(page_size: u32) -> (r: Self)
        requires
            page_size > 0,
        ensures
            r.items@.len() == 0,
            r.next_offset == 0,
            r.page_size == page_size,
            !r.done,
    {
        PageFetch { items: Vec::new(), next_offset: 0, page_size, done: false }
    }

    /// Take in the page fetched at `next_offset`.  The fetch finishes as
    /// soon as a page is shorter than the page size — even if more data
    /// could exist — and otherwise advances by exactly one page (or
    /// finishes, should the offset outgrow its machine width).
    pub fn on_page(&mut self, page: Vec<T>)
        requires
            !old(self).done,
        ensures
            final(self).items@ == old(self).items@ + page@,
            final(self).page_size == old(self).page_size,
            page@.len() < old(self).page_size ==> final(self).done,
            page@.len() >= old(self).page_size && old(self).next_offset + old(self).page_size
                <= u32::MAX ==> !final(self).done && final(self).next_offset == old(
                self,
            ).next_offset + old(self).page_size,
            page@.len() >= old(self).page_size && old(self).next_offset + old(self).page_size
                > u32::MAX ==> final(self).done,
    {
        let mut page = page;
        let short = (page.len() as u64) < (self.page_size as u64);
        self.items.append(&mut page);
        if short {
            self.done = true;
        } else if self.next_offset <= u32::MAX - self.page_size {
            self.next_offset = self.next_offset + self.page_size;
        } else {
            self.done = true;
        }
    }

    /// Record a transport failure: the listing stops where it is and keeps
    /// what was collected, a best-effort partial result.
    pub fn on_error(&mut self)
        ensures
            final(self).items@ == old(self).items@,
            final(self).page_size == old(self).page_size,
            final(self).next_offset == old(self).next_offset,
            final(self).done,
    {
        self.done = true;
    }

    /// The collected items, ending the listing.
    pub fn into_items(self) -> (r: Vec<T>)
        ensures
            r@ == self.items@,
    {
        self.items
    }
}

} // verus!
