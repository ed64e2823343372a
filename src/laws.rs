use vstd::prelude::*;

use crate::event::PayloadView;
use crate::store::{
    model_wf, new_record, spec_attend, spec_create, spec_delete, spec_get, spec_update,
    Outcome, StoreModel,
};

verus! {

/// Each created record takes the current counter value as its id and the counter
/// grows by exactly one; deleting, updating or attending leaves the counter as it
/// was, so a record created after a deletion still takes the next id in line.
pub proof fn lemma_ids_sequential(
    m: StoreModel,
    p: PayloadView,
    caller: Seq<char>,
    now: u64,
    id: u64,
    other: Seq<char>,
)
    requires
        m.next_id < u64::MAX,
    ensures
        spec_create(m, p, caller, now).1 == Some(new_record(m.next_id, p, caller, now)),
        spec_create(m, p, caller, now).0.next_id == m.next_id + 1,
        spec_delete(m, id, other).0.next_id == m.next_id,
        spec_update(m, id, p, other, now).0.next_id == m.next_id,
        spec_attend(m, id, other).0.next_id == m.next_id,
        spec_create(spec_delete(m, id, other).0, p, caller, now).1 == Some(
            new_record(m.next_id, p, caller, now),
        ),
{
}

/// A created record can be read back under its id as it was returned, owned by
/// its creator and with no attendees.
pub proof fn lemma_create_then_get(m: StoreModel, p: PayloadView, caller: Seq<char>, now: u64)
    requires
        m.next_id < u64::MAX,
    ensures
        ({
            let (m2, r) = spec_create(m, p, caller, now);
            &&& r is Some
            &&& spec_get(m2, r->0.id) == Outcome::Done(r->0)
            &&& r->0.owner == caller
            &&& r->0.attendees == Seq::<Seq<char>>::empty()
        }),
{
}

/// An update by anyone but the owner is refused and changes nothing.
pub proof fn lemma_update_by_non_owner(
    m: StoreModel,
    id: u64,
    p: PayloadView,
    caller: Seq<char>,
    now: u64,
)
    requires
        m.events.contains_key(id),
        m.events[id].owner != caller,
    ensures
        spec_update(m, id, p, caller, now) == (m, Outcome::NotAuthorized),
{
}

/// An update by the owner replaces the four free-form fields and sets the update
/// time; id, owner, creation time and attendees stay as they were.
pub proof fn lemma_update_by_owner(
    m: StoreModel,
    id: u64,
    p: PayloadView,
    caller: Seq<char>,
    now: u64,
)
    requires
        m.events.contains_key(id),
        m.events[id].owner == caller,
    ensures
        ({
            let (m2, r) = spec_update(m, id, p, caller, now);
            let before = m.events[id];
            let after = m2.events[id];
            &&& r == Outcome::Done(after)
            &&& m2.events == m.events.insert(id, after)
            &&& after.event_description == p.event_description
            &&& after.event_title == p.event_title
            &&& after.event_location == p.event_location
            &&& after.event_card_imgurl == p.event_card_imgurl
            &&& after.updated_at == Some(now)
            &&& after.id == before.id
            &&& after.owner == before.owner
            &&& after.created_at == before.created_at
            &&& after.attendees == before.attendees
        }),
{
}

/// A first attendance appends the caller once; a second one by the same caller
/// is refused as already attending and changes nothing.
pub proof fn lemma_attend_twice(m: StoreModel, id: u64, caller: Seq<char>)
    requires
        m.events.contains_key(id),
        !m.events[id].attendees.contains(caller),
    ensures
        ({
            let (m1, r1) = spec_attend(m, id, caller);
            let (m2, r2) = spec_attend(m1, id, caller);
            &&& r1 == Outcome::Done(m1.events[id])
            &&& m1.events[id].attendees == m.events[id].attendees.push(caller)
            &&& r2 == Outcome::AlreadyAttending
            &&& m2 == m1
        }),
{
    let a = m.events[id].attendees.push(caller);
    assert(a[a.len() - 1] == caller);
}

/// A deletion by anyone but the owner is refused, and the record can still be
/// read as it was.
pub proof fn lemma_delete_by_non_owner(m: StoreModel, id: u64, caller: Seq<char>)
    requires
        m.events.contains_key(id),
        m.events[id].owner != caller,
    ensures
        spec_delete(m, id, caller) == (m, Outcome::NotAuthorized),
        spec_get(spec_delete(m, id, caller).0, id) == Outcome::Done(m.events[id]),
{
}

/// A deletion by the owner removes the record: reading its id then finds
/// nothing, and no later creation hands that id out again.
pub proof fn lemma_delete_by_owner(
    m: StoreModel,
    id: u64,
    caller: Seq<char>,
    p: PayloadView,
    creator: Seq<char>,
    now: u64,
)
    requires
        model_wf(m),
        m.events.contains_key(id),
        m.events[id].owner == caller,
    ensures
        ({
            let (m2, r) = spec_delete(m, id, caller);
            let (m3, c) = spec_create(m2, p, creator, now);
            &&& r == Outcome::Done(m.events[id])
            &&& spec_get(m2, id) == Outcome::NotFound
            &&& c is Some ==> c->0.id != id
            &&& spec_get(m3, id) == Outcome::NotFound
        }),
{
}

/// Reading an id that the counter has not handed out yet, or an id that is not
/// stored, finds nothing.
pub proof fn lemma_get_absent(m: StoreModel, id: u64)
    requires
        model_wf(m),
        id >= m.next_id || !m.events.contains_key(id),
    ensures
        spec_get(m, id) == Outcome::NotFound,
{
}

} // verus!
