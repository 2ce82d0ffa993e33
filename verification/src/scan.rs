//! Pagination accumulation for the paged table scan behind the list
//! operation.
//!
//! A scan of the table answers one page at a time, each page with an
//! optional continuation token; the next fetch resumes at that token. The
//! accumulator gathers every page into one result list before the list
//! operation returns.

use vstd::prelude::*;
use crate::event::{views, Event, EventView};

verus! {

/// The concatenation of a sequence of pages, in page order.
pub open spec fn flatten_pages(ps: Seq<Seq<EventView>>) -> Seq<EventView>
    decreases ps.len(),
{
    if ps.len() == 0 {
        Seq::empty()
    } else {
        flatten_pages(ps.drop_last()) + ps.last()
    }
}

/// Where page `i` starts in the concatenation: the total length of the
/// pages before it.
pub open spec fn pages_offset(ps: Seq<Seq<EventView>>, i: int) -> int
    decreases i,
{
    if i <= 0 {
        0
    } else {
        pages_offset(ps, i - 1) + ps[i - 1].len()
    }
}

/// Accumulates the pages of a table scan into one result list: exactly the
/// concatenation of the pages handed over, none dropped, none duplicated.
pub struct ScanAccumulator {
    events: Vec<Event>,
    pages: Ghost<Seq<Seq<EventView>>>,
}

impl ScanAccumulator {
    /// The pages handed over so far.
    pub closed spec fn pages(self) -> Seq<Seq<EventView>> {
        self.pages@
    }

    pub closed spec fn inv(self) -> bool {
        views(self.events@) == flatten_pages(self.pages@)
    }

    /// An accumulator that has seen no page.
    pub fn new() -> (r: Self)
        ensures
            r.inv(),
            r.pages() == Seq::<Seq<EventView>>::empty(),
    {
        let r = ScanAccumulator { events: Vec::new(), pages: Ghost(Seq::empty()) };
        proof {
            assert(views(r.events@) =~= flatten_pages(r.pages@));
        }
        r
    }

    /// Takes one page of results in.
    pub fn add_page(&mut self, items: Vec<Event>)
        requires
            old(self).inv(),
        ensures
            final(self).inv(),
            final(self).pages() == old(self).pages().push(views(items@)),
    {
        let ghost page = views(items@);
        let ghost prev_events = views(self.events@);
        let ghost prev_pages = self.pages@;
        let mut moved = items;
        self.events.append(&mut moved);
        self.pages = Ghost(prev_pages.push(page));
        proof {
            assert(views(self.events@) =~= prev_events + page);
            assert(prev_pages.push(page).drop_last() =~= prev_pages);
        }
    }

    /// The accumulated result list.
    pub fn into_events(self) -> (r: Vec<Event>)
        requires
            self.inv(),
        ensures
            views(r@) == flatten_pages(self.pages()),
    {
        self.events
    }
}

/// The first page decides the shape of the list result: a store answer
/// with no item list at all yields no accumulator (the caller answers the
/// distinct no-items marker); any item list, even an empty one, starts the
/// accumulation with itself as the first page.
pub fn begin_scan(items: Option<Vec<Event>>) -> (r: Option<ScanAccumulator>)
    ensures
        items is None <==> r is None,
        items matches Some(v) ==> (r matches Some(acc) && acc.inv() && acc.pages() == seq![
            views(v@),
        ]),
{
    match items {
        None => None,
        Some(v) => {
            let mut accumulator = ScanAccumulator::new();
            accumulator.add_page(v);
            proof {
                assert(accumulator.pages() =~= seq![views(v@)]);
            }
            Some(accumulator)
        },
    }
}

/// The pagination loop's continue decision: the scan is re-issued exactly
/// while the store returned a continuation token with the last page.
pub fn scan_resumes(continuation_token_present: bool) -> (r: bool)
    ensures
        r == continuation_token_present,
{
    continuation_token_present
}

/// A later page of the scan: an item list is accumulated and the scan may
/// go on; a page without an item list accumulates nothing and ends the
/// accumulation early.
pub fn take_later_page(accumulator: &mut ScanAccumulator, items: Option<Vec<Event>>) -> (more:
    bool)
    requires
        old(accumulator).inv(),
    ensures
        final(accumulator).inv(),
        items matches Some(v) ==> (more && final(accumulator).pages() == old(
            accumulator,
        ).pages().push(views(v@))),
        items is None ==> (!more && *final(accumulator) == *old(accumulator)),
{
    match items {
        Some(v) => {
            accumulator.add_page(v);
            true
        },
        None => false,
    }
}

} // verus!
