//! Persistence-access semantics for the `Event` table.
//!
//! `EventService` keeps the live records as a sequence in storage order and
//! offers the five table operations: list (optionally filtered by exact
//! title), create (refused when the id is already present), lookup by id,
//! delete by id, and title update. The store invariant is that no two live
//! records share an id.

use vstd::prelude::*;
use vstd::string::StringExecFns;
use crate::event::{views, Event, EventView};
use crate::handler_params::QueryParams;

verus! {

/// Why a table operation failed.
#[derive(Debug)]
pub enum ApiError {
    /// No record with the given id exists (lookup, delete, title update).
    /// Each path words its description itself: the lookup writes the id
    /// right after the colon, delete and title update put a space between.
    NotFound { id: String, message: String },
    /// A record with the given id already exists (create).
    Conflict,
    /// The underlying store reported a transport or serialization failure.
    StoreIo { message: String },
}

impl ApiError {
    /// True exactly of a `NotFound` error carrying this id.
    pub open spec fn is_not_found_for(self, id: Seq<char>) -> bool {
        match self {
            ApiError::NotFound { id: i, .. } => i@ == id,
            _ => false,
        }
    }

    /// The textual description carried to the client.
    pub open spec fn message_view(self) -> Seq<char> {
        match self {
            ApiError::NotFound { message, .. } => message@,
            ApiError::Conflict => "Event exists!"@,
            ApiError::StoreIo { message } => message@,
        }
    }

    /// The lookup path's not-found error: no space after the colon.
    pub fn not_found_lookup(id: String) -> (r: ApiError)
        ensures
            r.is_not_found_for(id@),
            r.message_view() == "Event does not exist for id:"@ + id@ + "!"@,
    {
        let mut m = "Event does not exist for id:".to_owned();
        m.append(id.as_str());
        m.append("!");
        ApiError::NotFound { id, message: m }
    }

    /// The write paths' (delete, title update) not-found error: a space
    /// after the colon.
    pub fn not_found_write(id: String) -> (r: ApiError)
        ensures
            r.is_not_found_for(id@),
            r.message_view() == "Event does not exist for id: "@ + id@ + "!"@,
    {
        let mut m = "Event does not exist for id: ".to_owned();
        m.append(id.as_str());
        m.append("!");
        ApiError::NotFound { id, message: m }
    }

    /// Renders the error's textual description.
    pub fn message(&self) -> (r: String)
        ensures
            r@ == self.message_view(),
    {
        match self {
            ApiError::NotFound { message, .. } => message.clone(),
            ApiError::Conflict => "Event exists!".to_owned(),
            ApiError::StoreIo { message } => message.clone(),
        }
    }
}

/// Some live record carries this id.
pub open spec fn contains_id(s: Seq<EventView>, id: Seq<char>) -> bool {
    exists|i: int| 0 <= i < s.len() && s[i].id == id
}

/// How many live records carry this id.
pub open spec fn count_id(s: Seq<EventView>, id: Seq<char>) -> nat
    decreases s.len(),
{
    if s.len() == 0 {
        0
    } else {
        (if s.last().id == id {
            1nat
        } else {
            0nat
        }) + count_id(s.drop_last(), id)
    }
}

/// The store invariant: no two live records share an id.
pub open spec fn wf(s: Seq<EventView>) -> bool {
    forall|i: int, j: int| 0 <= i < j < s.len() ==> s[i].id != s[j].id
}

/// The first record carrying this id, if any.
pub open spec fn find_event(s: Seq<EventView>, id: Seq<char>) -> Option<EventView>
    decreases s.len(),
{
    if s.len() == 0 {
        None
    } else if s[0].id == id {
        Some(s[0])
    } else {
        find_event(s.subrange(1, s.len() as int), id)
    }
}

/// The records whose title equals the filter exactly, in storage order.
pub open spec fn filter_title(s: Seq<EventView>, title: Seq<char>) -> Seq<EventView>
    decreases s.len(),
{
    if s.len() == 0 {
        Seq::empty()
    } else {
        let rest = filter_title(s.drop_last(), title);
        if s.last().title == title {
            rest.push(s.last())
        } else {
            rest
        }
    }
}

/// The records that remain after deleting every record with this id.
/// Under the store invariant at most one record is removed.
pub open spec fn remove_id(s: Seq<EventView>, id: Seq<char>) -> Seq<EventView>
    decreases s.len(),
{
    if s.len() == 0 {
        Seq::empty()
    } else {
        let rest = remove_id(s.drop_last(), id);
        if s.last().id == id {
            rest
        } else {
            rest.push(s.last())
        }
    }
}

/// The store with the title of every record carrying this id replaced.
/// Under the store invariant at most one record is touched.
pub open spec fn update_title(s: Seq<EventView>, id: Seq<char>, title: Seq<char>) -> Seq<
    EventView,
>
    decreases s.len(),
{
    if s.len() == 0 {
        Seq::empty()
    } else {
        let rest = update_title(s.drop_last(), id, title);
        if s.last().id == id {
            rest.push(EventView { id: s.last().id, title })
        } else {
            rest.push(s.last())
        }
    }
}

/// What the list operation returns: everything, or the exact-title subset.
pub open spec fn list_spec(s: Seq<EventView>, filter: Option<Seq<char>>) -> Seq<EventView> {
    match filter {
        None => s,
        Some(t) => filter_title(s, t),
    }
}

/// The filter criterion a `QueryParams` value denotes.
pub open spec fn title_filter(t: Option<String>) -> Option<Seq<char>> {
    match t {
        None => None,
        Some(s) => Some(s@),
    }
}

proof fn lemma_contains_id_drop_last(s: Seq<EventView>, id: Seq<char>)
    requires
        s.len() > 0,
    ensures
        contains_id(s, id) <==> (contains_id(s.drop_last(), id) || s.last().id == id),
{
    if contains_id(s, id) {
        let i = choose|i: int| 0 <= i < s.len() && s[i].id == id;
        if i < s.len() - 1 {
            assert(s.drop_last()[i].id == id);
        }
    }
    if contains_id(s.drop_last(), id) {
        let i = choose|i: int| 0 <= i < s.drop_last().len() && s.drop_last()[i].id == id;
        assert(s[i].id == id);
    }
    if s.last().id == id {
        assert(s[s.len() - 1].id == id);
    }
}

/// What deleting by id leaves behind: every record with another id, in the
/// old order; nothing with the deleted id remains, and exactly one record
/// goes when the invariant held and the id was present.
pub proof fn lemma_remove_id(s: Seq<EventView>, id: Seq<char>)
    ensures
        remove_id(s, id).len() <= s.len(),
        forall|k: int|
            0 <= k < remove_id(s, id).len() ==> (#[trigger] remove_id(s, id)[k]).id != id,
        forall|k: int| 0 <= k < remove_id(s, id).len() ==> s.contains(#[trigger] remove_id(s, id)[k]),
        !contains_id(remove_id(s, id), id),
        wf(s) ==> wf(remove_id(s, id)),
        !contains_id(s, id) ==> remove_id(s, id) == s,
        (wf(s) && contains_id(s, id)) ==> remove_id(s, id).len() == s.len() - 1,
    decreases s.len(),
{
    let r = remove_id(s, id);
    if s.len() == 0 {
        assert(r =~= s);
    } else {
        let d = s.drop_last();
        let rest = remove_id(d, id);
        lemma_remove_id(d, id);
        lemma_contains_id_drop_last(s, id);
        assert(wf(s) ==> wf(d));
        assert forall|k: int| 0 <= k < r.len() implies s.contains(#[trigger] r[k]) by {
            if s.last().id != id && k == r.len() - 1 {
                assert(s[s.len() - 1] == r[k]);
            } else {
                assert(d.contains(rest[k]));
                let m = choose|m: int| 0 <= m < d.len() && d[m] == rest[k];
                assert(s[m] == r[k]);
            }
        }
        if contains_id(r, id) {
            let k = choose|k: int| 0 <= k < r.len() && r[k].id == id;
            assert(r[k].id != id);
        }
        if wf(s) && s.last().id != id {
            assert forall|i: int, j: int| 0 <= i < j < r.len() implies r[i].id != r[j].id by {
                if j == r.len() - 1 {
                    assert(d.contains(rest[i]));
                    let m = choose|m: int| 0 <= m < d.len() && d[m] == rest[i];
                    assert(s[m].id != s[s.len() - 1].id);
                }
            }
        }
        if wf(s) && s.last().id == id {
            if contains_id(d, id) {
                let m = choose|m: int| 0 <= m < d.len() && d[m].id == id;
                assert(s[m].id == s[s.len() - 1].id);
                assert(false);
            }
        }
        if !contains_id(s, id) {
            assert(r =~= s);
        }
    }
}

/// What a title update does, record by record: the record with the id gets
/// the new title and keeps its id; every other record is untouched.
pub proof fn lemma_update_title(s: Seq<EventView>, id: Seq<char>, title: Seq<char>)
    ensures
        update_title(s, id, title).len() == s.len(),
        forall|k: int|
            0 <= k < s.len() ==> #[trigger] update_title(s, id, title)[k] == (if s[k].id == id {
                EventView { id: s[k].id, title }
            } else {
                s[k]
            }),
        wf(s) ==> wf(update_title(s, id, title)),
    decreases s.len(),
{
    let r = update_title(s, id, title);
    if s.len() > 0 {
        let d = s.drop_last();
        lemma_update_title(d, id, title);
        assert forall|k: int|
            0 <= k < s.len() implies #[trigger] r[k] == (if s[k].id == id {
            EventView { id: s[k].id, title }
        } else {
            s[k]
        }) by {
            if k < s.len() - 1 {
                assert(d[k] == s[k]);
            }
        }
        if wf(s) {
            assert forall|i: int, j: int| 0 <= i < j < r.len() implies r[i].id != r[j].id by {
                assert(r[i].id == s[i].id);
                assert(r[j].id == s[j].id);
            }
        }
    }
}

/// The first record with the id, when one exists, is a record of the store
/// carrying that id.
pub proof fn lemma_find_event(s: Seq<EventView>, id: Seq<char>)
    ensures
        (find_event(s, id) is Some) <==> contains_id(s, id),
        find_event(s, id) matches Some(ev) ==> (ev.id == id && exists|i: int|
            0 <= i < s.len() && s[i] == ev),
    decreases s.len(),
{
    if s.len() > 0 {
        if s[0].id == id {
        } else {
            let t = s.subrange(1, s.len() as int);
            lemma_find_event(t, id);
            if contains_id(s, id) {
                let i = choose|i: int| 0 <= i < s.len() && s[i].id == id;
                assert(t[i - 1].id == id);
            }
            if contains_id(t, id) {
                let i = choose|i: int| 0 <= i < t.len() && t[i].id == id;
                assert(s[i + 1].id == id);
            }
            if find_event(t, id) is Some {
                let ev = find_event(t, id)->Some_0;
                let i = choose|i: int| 0 <= i < t.len() && t[i] == ev;
                assert(s[i + 1] == ev);
            }
        }
    }
}

/// The persistence-access layer: the live records in storage order.
pub struct EventService {
    events: Vec<Event>,
}

impl View for EventService {
    type V = Seq<EventView>;

    closed spec fn view(&self) -> Seq<EventView> {
        views(self.events@)
    }
}

impl EventService {
    /// An empty store.
    pub fn new() -> (r: Self)
        ensures
            r@ == Seq::<EventView>::empty(),
            wf(r@),
    {
        let r = EventService { events: Vec::new() };
        proof {
            assert(r@ =~= Seq::<EventView>::empty());
        }
        r
    }

    /// The existence check backing create, delete and title update: whether
    /// a keyed lookup would return at least one record.
    pub fn event_exist(&self, id: &String) -> (r: bool)
        ensures
            r == contains_id(self@, id@),
    {
        let mut i: usize = 0;
        while i < self.events.len()
            invariant
                i <= self.events.len(),
                forall|j: int| 0 <= j < i ==> self@[j].id != id@,
            decreases self.events.len() - i,
        {
            if self.events[i].id == *id {
                assert(self@[i as int].id == id@);
                return true;
            }
            i = i + 1;
        }
        assert(!contains_id(self@, id@));
        false
    }

    /// Create: refused with `Conflict` when a record with the same id is
    /// already present (checked before writing); otherwise the record is
    /// appended and a confirmation message is returned.
    pub fn post_event(&mut self, event: Event) -> (r: Result<String, ApiError>)
        requires
            wf(old(self)@),
        ensures
            wf(final(self)@),
            contains_id(old(self)@, event@.id) ==> (r matches Err(e) && e is Conflict
                && final(self)@ == old(self)@),
            !contains_id(old(self)@, event@.id) ==> (r matches Ok(m) && m@ == "event added."@
                && final(self)@ == old(self)@.push(event@)),
    {
        if self.event_exist(&event.id) {
            return Err(ApiError::Conflict);
        }
        let ghost pre = self@;
        let ghost ev = event@;
        self.events.push(event);
        proof {
            assert(self@ =~= pre.push(ev));
            assert forall|i: int, j: int| 0 <= i < j < self@.len() implies self@[i].id
                != self@[j].id by {
                if j < pre.len() {
                } else {
                    assert(self@[j] == ev);
                    assert(!contains_id(pre, ev.id));
                }
            }
        }
        Ok(added_message())
    }

    /// Lookup by id: the first matching record, or `NotFound` when none
    /// matches.
    pub fn get_event_single(&self, id: String) -> (r: Result<Event, ApiError>)
        ensures
            r is Ok <==> contains_id(self@, id@),
            r matches Ok(ev) ==> (find_event(self@, id@) == Some(ev@)),
            r matches Err(e) ==> (e.is_not_found_for(id@) && e.message_view()
                == "Event does not exist for id:"@ + id@ + "!"@),
    {
        let mut i: usize = 0;
        proof {
            assert(self@.subrange(0, self@.len() as int) =~= self@);
        }
        while i < self.events.len()
            invariant
                i <= self.events.len(),
                forall|j: int| 0 <= j < i ==> self@[j].id != id@,
                find_event(self@, id@) == find_event(
                    self@.subrange(i as int, self@.len() as int),
                    id@,
                ),
            decreases self.events.len() - i,
        {
            let ghost tail = self@.subrange(i as int, self@.len() as int);
            if self.events[i].id == id {
                proof {
                    assert(tail[0] == self@[i as int]);
                    assert(find_event(self@, id@) == Some(self@[i as int]));
                }
                return Ok(self.events[i].clone());
            }
            proof {
                assert(tail[0] == self@[i as int]);
                assert(tail.subrange(1, tail.len() as int) =~= self@.subrange(
                    i as int + 1,
                    self@.len() as int,
                ));
            }
            i = i + 1;
        }
        proof {
            assert(self@.subrange(i as int, self@.len() as int).len() == 0);
            assert(!contains_id(self@, id@));
        }
        Err(ApiError::not_found_lookup(id))
    }

    /// Delete by id: refused with `NotFound` when the id is absent (existence
    /// is re-checked first, so a refused delete changes nothing); otherwise
    /// the record is removed and a confirmation message is returned.
    pub fn delete_event_single(&mut self, id: String) -> (r: Result<String, ApiError>)
        requires
            wf(old(self)@),
        ensures
            wf(final(self)@),
            !contains_id(old(self)@, id@) ==> (r matches Err(e) && e.is_not_found_for(id@)
                && e.message_view() == "Event does not exist for id: "@ + id@ + "!"@
                && final(self)@ == old(self)@),
            contains_id(old(self)@, id@) ==> (r matches Ok(m) && m@ == "event for id: "@ + id@
                + " deleted."@ && final(self)@ == remove_id(old(self)@, id@)),
    {
        if !self.event_exist(&id) {
            return Err(ApiError::not_found_write(id));
        }
        let ghost pre = self@;
        let mut kept: Vec<Event> = Vec::new();
        let mut i: usize = 0;
        proof {
            assert(views(kept@) =~= remove_id(pre.take(0), id@));
        }
        while i < self.events.len()
            invariant
                i <= self.events.len(),
                self@ == pre,
                views(kept@) == remove_id(pre.take(i as int), id@),
            decreases self.events.len() - i,
        {
            let ghost tk = pre.take(i as int + 1);
            proof {
                assert(tk.drop_last() =~= pre.take(i as int));
                assert(tk.last() == pre[i as int]);
            }
            if !(self.events[i].id == id) {
                kept.push(self.events[i].clone());
                proof {
                    assert(views(kept@) =~= remove_id(pre.take(i as int), id@).push(
                        pre[i as int],
                    ));
                }
            }
            i = i + 1;
        }
        proof {
            assert(pre.take(pre.len() as int) =~= pre);
        }
        self.events = kept;
        proof {
            lemma_remove_id(pre, id@);
        }
        Ok(deleted_message(&id))
    }

    /// Title update by id: refused with `NotFound` when the id is absent
    /// (existence is re-checked first, so a refused update changes nothing);
    /// otherwise only the `title` attribute of that record is replaced and a
    /// confirmation message is returned.
    pub fn put_event_title(&mut self, id: String, title: String) -> (r: Result<String, ApiError>)
        requires
            wf(old(self)@),
        ensures
            wf(final(self)@),
            !contains_id(old(self)@, id@) ==> (r matches Err(e) && e.is_not_found_for(id@)
                && e.message_view() == "Event does not exist for id: "@ + id@ + "!"@
                && final(self)@ == old(self)@),
            contains_id(old(self)@, id@) ==> (r matches Ok(m) && m@ == "Event title for id: "@
                + id@ + " changed to "@ + title@ && final(self)@ == update_title(
                old(self)@,
                id@,
                title@,
            )),
    {
        if !self.event_exist(&id) {
            return Err(ApiError::not_found_write(id));
        }
        let ghost pre = self@;
        let mut updated: Vec<Event> = Vec::new();
        let mut i: usize = 0;
        proof {
            assert(views(updated@) =~= update_title(pre.take(0), id@, title@));
        }
        while i < self.events.len()
            invariant
                i <= self.events.len(),
                self@ == pre,
                views(updated@) == update_title(pre.take(i as int), id@, title@),
            decreases self.events.len() - i,
        {
            let ghost tk = pre.take(i as int + 1);
            proof {
                assert(tk.drop_last() =~= pre.take(i as int));
                assert(tk.last() == pre[i as int]);
            }
            if self.events[i].id == id {
                updated.push(Event::new(self.events[i].id.clone(), title.clone()));
                proof {
                    assert(views(updated@) =~= update_title(pre.take(i as int), id@, title@).push(
                        (EventView { id: pre[i as int].id, title: title@ }),
                    ));
                }
            } else {
                updated.push(self.events[i].clone());
                proof {
                    assert(views(updated@) =~= update_title(pre.take(i as int), id@, title@).push(
                        pre[i as int],
                    ));
                }
            }
            i = i + 1;
        }
        proof {
            assert(pre.take(pre.len() as int) =~= pre);
        }
        self.events = updated;
        proof {
            lemma_update_title(pre, id@, title@);
        }
        Ok(title_changed_message(&id, &title))
    }

    /// List: every live record in storage order, or, with a filter, exactly
    /// those whose title equals the filter.
    pub fn get_events(&self, params: QueryParams) -> (r: Vec<Event>)
        ensures
            views(r@) == list_spec(self@, title_filter(params.title)),
    {
        let mut out: Vec<Event> = Vec::new();
        match &params.title {
            None => {
                let mut i: usize = 0;
                proof {
                    assert(views(out@) =~= self@.take(0));
                }
                while i < self.events.len()
                    invariant
                        i <= self.events.len(),
                        views(out@) == self@.take(i as int),
                    decreases self.events.len() - i,
                {
                    let e = self.events[i].clone();
                    proof {
                        assert(e@ == self@[i as int]);
                    }
                    let ghost prev = views(out@);
                    out.push(e);
                    proof {
                        assert(views(out@) =~= prev.push(self@[i as int]));
                        assert(prev.push(self@[i as int]) =~= self@.take(i as int + 1));
                    }
                    i = i + 1;
                }
                proof {
                    assert(self@.take(self@.len() as int) =~= self@);
                }
            },
            Some(t) => {
                let mut i: usize = 0;
                proof {
                    assert(views(out@) =~= filter_title(self@.take(0), t@));
                }
                while i < self.events.len()
                    invariant
                        i <= self.events.len(),
                        views(out@) == filter_title(self@.take(i as int), t@),
                    decreases self.events.len() - i,
                {
                    let ghost tk = self@.take(i as int + 1);
                    proof {
                        assert(tk.drop_last() =~= self@.take(i as int));
                        assert(tk.last() == self@[i as int]);
                    }
                    if self.events[i].title == *t {
                        out.push(self.events[i].clone());
                        proof {
                            assert(views(out@) =~= filter_title(self@.take(i as int), t@).push(
                                self@[i as int],
                            ));
                        }
                    }
                    i = i + 1;
                }
                proof {
                    assert(self@.take(self@.len() as int) =~= self@);
                }
            },
        }
        out
    }
}

/// The confirmation message of a successful create.
pub fn added_message() -> (r: String)
    ensures
        r@ == "event added."@,
{
    "event added.".to_owned()
}

/// The confirmation message of a successful delete.
pub fn deleted_message(id: &String) -> (r: String)
    ensures
        r@ == "event for id: "@ + id@ + " deleted."@,
{
    let mut m = "event for id: ".to_owned();
    m.append(id.as_str());
    m.append(" deleted.");
    m
}

/// The confirmation message of a successful title update.
pub fn title_changed_message(id: &String, title: &String) -> (r: String)
    ensures
        r@ == "Event title for id: "@ + id@ + " changed to "@ + title@,
{
    let mut m = "Event title for id: ".to_owned();
    m.append(id.as_str());
    m.append(" changed to ");
    m.append(title.as_str());
    m
}

/// The check-then-act gate of create: an existing record refuses the write.
pub fn require_absent(exist: bool) -> (r: Result<(), ApiError>)
    ensures
        exist <==> (r matches Err(e) && e is Conflict),
        !exist <==> r is Ok,
{
    if exist {
        Err(ApiError::Conflict)
    } else {
        Ok(())
    }
}

/// The check-then-act gate of delete and title update: an absent record
/// refuses the operation.
pub fn require_present(exist: bool, id: String) -> (r: Result<(), ApiError>)
    ensures
        !exist <==> (r matches Err(e) && e.is_not_found_for(id@) && e.message_view()
            == "Event does not exist for id: "@ + id@ + "!"@),
        exist <==> r is Ok,
{
    if exist {
        Ok(())
    } else {
        Err(ApiError::not_found_write(id))
    }
}

/// What a keyed lookup's raw answer yields: `NotFound` when the store
/// reported no record (zero count, no item list, or an empty one), else the
/// first record returned.
pub fn pick_single(count: usize, items: Option<Vec<Event>>, id: String) -> (r: Result<
    Event,
    ApiError,
>)
    ensures
        (count == 0 || items is None || (items matches Some(v) && v@.len() == 0)) <==> (r matches
            Err(e) && e.is_not_found_for(id@) && e.message_view()
            == "Event does not exist for id:"@ + id@ + "!"@),
        (items matches Some(v) && count != 0 && v@.len() > 0) ==> r is Ok,
        r matches Ok(ev) ==> (items matches Some(v) && v@.len() > 0 && ev@ == views(v@)[0]),
{
    match items {
        None => Err(ApiError::not_found_lookup(id)),
        Some(v) => {
            if count == 0 || v.len() == 0 {
                Err(ApiError::not_found_lookup(id))
            } else {
                Ok(v[0].clone())
            }
        },
    }
}

/// Existence as the keyed lookup reports it: a positive result count
/// signals that a record with the id exists.
pub fn exists_from_count(count: usize) -> (r: bool)
    ensures
        r == (count > 0),
{
    count > 0
}

} // verus!
