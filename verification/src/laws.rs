//! Laws of the store: proved relations between consecutive operations,
//! stated over the same spec functions the operation contracts use.

use vstd::prelude::*;
use crate::event::EventView;
use crate::event_service::{
    contains_id, count_id, filter_title, find_event, lemma_find_event, lemma_remove_id,
    lemma_update_title, remove_id, update_title,
};
use crate::scan::{flatten_pages, pages_offset};

verus! {

/// A created record is found by its id: after appending `e` to a store that
/// held no record with `e`'s id, lookup by that id returns exactly `e`.
pub proof fn lemma_create_then_get(s: Seq<EventView>, e: EventView)
    requires
        !contains_id(s, e.id),
    ensures
        find_event(s.push(e), e.id) == Some(e),
    decreases s.len(),
{
    let p = s.push(e);
    if s.len() == 0 {
        assert(p[0] == e);
    } else {
        assert(s[0].id != e.id);
        assert(p[0] == s[0]);
        let t = s.subrange(1, s.len() as int);
        assert(p.subrange(1, p.len() as int) =~= t.push(e));
        if contains_id(t, e.id) {
            let i = choose|i: int| 0 <= i < t.len() && t[i].id == e.id;
            assert(s[i + 1].id == e.id);
        }
        lemma_create_then_get(t, e);
    }
}

proof fn lemma_count_id_zero(s: Seq<EventView>, id: Seq<char>)
    requires
        !contains_id(s, id),
    ensures
        count_id(s, id) == 0,
    decreases s.len(),
{
    if s.len() > 0 {
        assert(s[s.len() - 1].id != id);
        let d = s.drop_last();
        if contains_id(d, id) {
            let i = choose|i: int| 0 <= i < d.len() && d[i].id == id;
            assert(s[i].id == id);
        }
        lemma_count_id_zero(d, id);
    }
}

/// Creating the same id twice: after the first create the id is present, so
/// a second create is refused with a conflict, and the store holds exactly
/// one record for that id.
pub proof fn lemma_create_twice(s: Seq<EventView>, e: EventView, e2: EventView)
    requires
        !contains_id(s, e.id),
        e2.id == e.id,
    ensures
        contains_id(s.push(e), e2.id),
        count_id(s.push(e), e.id) == 1,
{
    let p = s.push(e);
    assert(p[s.len() as int] == e);
    assert(p.drop_last() =~= s);
    lemma_count_id_zero(s, e.id);
}

/// After a delete, lookup by the deleted id fails: no record with that id
/// remains in the store.
pub proof fn lemma_delete_then_get(s: Seq<EventView>, id: Seq<char>)
    ensures
        !contains_id(remove_id(s, id), id),
        find_event(remove_id(s, id), id) is None,
{
    lemma_remove_id(s, id);
    lemma_find_event(remove_id(s, id), id);
}

/// After a title update, lookup by the id returns a record carrying the new
/// title and the unchanged id.
pub proof fn lemma_update_then_get(s: Seq<EventView>, id: Seq<char>, title: Seq<char>)
    requires
        contains_id(s, id),
    ensures
        find_event(update_title(s, id, title), id) matches Some(ev) && ev.id == id && ev.title
            == title,
{
    let u = update_title(s, id, title);
    lemma_update_title(s, id, title);
    let i = choose|i: int| 0 <= i < s.len() && s[i].id == id;
    assert(u[i] == (EventView { id: s[i].id, title }));
    assert(contains_id(u, id));
    lemma_find_event(u, id);
    let ev = find_event(u, id)->Some_0;
    let k = choose|k: int| 0 <= k < u.len() && u[k] == ev;
    if s[k].id != id {
        assert(u[k] == s[k]);
        assert(false);
    }
    assert(u[k].title == title);
}

/// The filtered list is exactly the subset with the filter's title: a
/// record stands in `filter_title(s, t)` precisely when it stands in `s`
/// and its title equals `t`.
pub proof fn lemma_filter_title_exact(s: Seq<EventView>, t: Seq<char>)
    ensures
        forall|ev: EventView| #[trigger]
            filter_title(s, t).contains(ev) <==> (s.contains(ev) && ev.title == t),
    decreases s.len(),
{
    let f = filter_title(s, t);
    if s.len() == 0 {
        assert forall|ev: EventView| #[trigger]
            f.contains(ev) <==> (s.contains(ev) && ev.title == t) by {
            if f.contains(ev) {
                let k = choose|k: int| 0 <= k < f.len() && f[k] == ev;
                assert(false);
            }
            if s.contains(ev) {
                let k = choose|k: int| 0 <= k < s.len() && s[k] == ev;
                assert(false);
            }
        }
    } else {
        let d = s.drop_last();
        let rest = filter_title(d, t);
        lemma_filter_title_exact(d, t);
        assert forall|ev: EventView| #[trigger]
            f.contains(ev) <==> (s.contains(ev) && ev.title == t) by {
            if f.contains(ev) {
                let k = choose|k: int| 0 <= k < f.len() && f[k] == ev;
                if s.last().title == t && k == f.len() - 1 {
                    assert(s[s.len() - 1] == ev);
                } else {
                    assert(rest[k] == ev);
                    assert(rest.contains(ev));
                    assert(d.contains(ev) && ev.title == t);
                    let m = choose|m: int| 0 <= m < d.len() && d[m] == ev;
                    assert(s[m] == ev);
                }
            }
            if s.contains(ev) && ev.title == t {
                let i = choose|i: int| 0 <= i < s.len() && s[i] == ev;
                if i == s.len() - 1 {
                    assert(f.last() == ev);
                } else {
                    assert(d[i] == ev);
                    assert(d.contains(ev));
                    assert(rest.contains(ev));
                    let k = choose|k: int| 0 <= k < rest.len() && rest[k] == ev;
                    assert(f[k] == ev);
                }
            }
        }
    }
}

proof fn lemma_pages_offset_drop_last(ps: Seq<Seq<EventView>>, i: int)
    requires
        ps.len() > 0,
        0 <= i <= ps.len() - 1,
    ensures
        pages_offset(ps.drop_last(), i) == pages_offset(ps, i),
    decreases i,
{
    if i > 0 {
        lemma_pages_offset_drop_last(ps, i - 1);
        assert(ps.drop_last()[i - 1] == ps[i - 1]);
    }
}

/// Accumulating a paged scan drops nothing and duplicates nothing: the
/// result holds the pages' records and only them, each page in order at its
/// own offset, and the total length is the sum of the page lengths.
pub proof fn lemma_flatten_pages_exact(ps: Seq<Seq<EventView>>)
    ensures
        flatten_pages(ps).len() == pages_offset(ps, ps.len() as int),
        forall|i: int, j: int|
            0 <= i < ps.len() && 0 <= j < ps[i].len() ==> flatten_pages(ps)[pages_offset(ps, i)
                + j] == ps[i][j],
    decreases ps.len(),
{
    let f = flatten_pages(ps);
    if ps.len() > 0 {
        let d = ps.drop_last();
        lemma_flatten_pages_exact(d);
        lemma_pages_offset_drop_last(ps, ps.len() - 1);
        assert forall|i: int, j: int|
            0 <= i < ps.len() && 0 <= j < ps[i].len() implies f[pages_offset(ps, i) + j]
            == ps[i][j] by {
            if i < ps.len() - 1 {
                lemma_pages_offset_drop_last(ps, i);
                assert(d[i] == ps[i]);
                assert(flatten_pages(d)[pages_offset(d, i) + j] == d[i][j]);
                lemma_pages_offset_in_bounds(d, i, j);
            } else {
                assert(pages_offset(ps, i) == flatten_pages(d).len());
            }
        }
    }
}

proof fn lemma_pages_offset_in_bounds(ps: Seq<Seq<EventView>>, i: int, j: int)
    requires
        0 <= i < ps.len(),
        0 <= j < ps[i].len(),
    ensures
        0 <= pages_offset(ps, i) + j < pages_offset(ps, ps.len() as int),
    decreases ps.len(),
{
    lemma_pages_offset_nonneg(ps, i);
    if i == ps.len() - 1 {
    } else {
        let d = ps.drop_last();
        assert(d[i] == ps[i]);
        lemma_pages_offset_in_bounds(d, i, j);
        lemma_pages_offset_drop_last(ps, i);
        lemma_pages_offset_drop_last(ps, ps.len() - 1);
        assert(ps[ps.len() - 1].len() >= 0);
    }
}

proof fn lemma_pages_offset_nonneg(ps: Seq<Seq<EventView>>, i: int)
    ensures
        pages_offset(ps, i) >= 0,
    decreases i,
{
    if i > 0 {
        lemma_pages_offset_nonneg(ps, i - 1);
    }
}

} // verus!
