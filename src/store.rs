use vstd::prelude::*;

use crate::codec::{decode_event, enc_event, encode_event, event_fits, parse_event};
use crate::durable::{counter_value, map_entries, DurableCounter, DurableMap, Regions};
use crate::event::{Error, Event, EventPayload, EventView, PayloadView};

verus! {

/// The abstract state of a store: its records by id, and the id that the next
/// created record receives.
pub struct StoreModel {
    pub events: Map<u64, EventView>,
    pub next_id: u64,
}

/// What an operation on one record reports, as a value.
pub enum Outcome {
    Done(EventView),
    NotFound,
    NotAuthorized,
    AlreadyAttending,
}

/// The outcome that a returned `Result` stands for.
pub open spec fn outcome_of(r: Result<Event, Error>) -> Outcome {
    match r {
        Ok(e) => Outcome::Done(e@),
        Err(Error::NotFound { .. }) => Outcome::NotFound,
        Err(Error::NotAuthorized { .. }) => Outcome::NotAuthorized,
        Err(Error::AlreadyAttending { .. }) => Outcome::AlreadyAttending,
    }
}

/// The identity that a refusal for want of ownership names, if it is one.
pub open spec fn refused_caller(r: Result<Event, Error>) -> Option<Seq<char>> {
    match r {
        Err(Error::NotAuthorized { caller, .. }) => Some(caller@),
        _ => None,
    }
}

/// The value of an optional record.
pub open spec fn opt_view(r: Option<Event>) -> Option<EventView> {
    match r {
        Some(e) => Some(e@),
        None => None,
    }
}

/// A state that the operations can reach: every record sits under its own id,
/// below the next id to hand out, and lists each attendee once.
pub open spec fn model_wf(m: StoreModel) -> bool {
    forall|k: u64| #[trigger]
        m.events.contains_key(k) ==> {
            &&& k < m.next_id
            &&& m.events[k].id == k
            &&& m.events[k].attendees.no_duplicates()
        }
}

/// The record that `caller` creates at time `now` under `id`.
pub open spec fn new_record(id: u64, p: PayloadView, caller: Seq<char>, now: u64) -> EventView {
    EventView {
        id,
        event_description: p.event_description,
        owner: caller,
        event_title: p.event_title,
        event_location: p.event_location,
        event_card_imgurl: p.event_card_imgurl,
        attendees: Seq::empty(),
        created_at: now,
        updated_at: None,
    }
}

/// A record with its four free-form fields taken from `p`, updated at `now`.
pub open spec fn with_payload(e: EventView, p: PayloadView, now: u64) -> EventView {
    EventView {
        event_description: p.event_description,
        event_title: p.event_title,
        event_location: p.event_location,
        event_card_imgurl: p.event_card_imgurl,
        updated_at: Some(now),
        ..e
    }
}

/// A record with `who` added at the end of its attendees.
pub open spec fn with_attendee(e: EventView, who: Seq<char>) -> EventView {
    EventView { attendees: e.attendees.push(who), ..e }
}

/// Looking up `id`.
pub open spec fn spec_get(m: StoreModel, id: u64) -> Outcome {
    if m.events.contains_key(id) {
        Outcome::Done(m.events[id])
    } else {
        Outcome::NotFound
    }
}

/// Creating a record: it takes the next id, unless the ids are used up.
pub open spec fn spec_create(m: StoreModel, p: PayloadView, caller: Seq<char>, now: u64) -> (
    StoreModel,
    Option<EventView>,
) {
    if m.next_id == u64::MAX {
        (m, None)
    } else {
        let e = new_record(m.next_id, p, caller, now);
        (StoreModel { events: m.events.insert(m.next_id, e), next_id: (m.next_id + 1) as u64 }, Some(e))
    }
}

/// Updating a record: only its owner may, and only its four free-form fields
/// and its update time change.
pub open spec fn spec_update(
    m: StoreModel,
    id: u64,
    p: PayloadView,
    caller: Seq<char>,
    now: u64,
) -> (StoreModel, Outcome) {
    if !m.events.contains_key(id) {
        (m, Outcome::NotFound)
    } else if m.events[id].owner != caller {
        (m, Outcome::NotAuthorized)
    } else {
        let e = with_payload(m.events[id], p, now);
        (StoreModel { events: m.events.insert(id, e), ..m }, Outcome::Done(e))
    }
}

/// Attending a record: the caller is appended unless already listed.
pub open spec fn spec_attend(m: StoreModel, id: u64, caller: Seq<char>) -> (StoreModel, Outcome) {
    if !m.events.contains_key(id) {
        (m, Outcome::NotFound)
    } else if m.events[id].attendees.contains(caller) {
        (m, Outcome::AlreadyAttending)
    } else {
        let e = with_attendee(m.events[id], caller);
        (StoreModel { events: m.events.insert(id, e), ..m }, Outcome::Done(e))
    }
}

/// Deleting a record: only its owner may; the removed record is reported.
pub open spec fn spec_delete(m: StoreModel, id: u64, caller: Seq<char>) -> (StoreModel, Outcome) {
    if !m.events.contains_key(id) {
        (m, Outcome::NotFound)
    } else if m.events[id].owner != caller {
        (m, Outcome::NotAuthorized)
    } else {
        (StoreModel { events: m.events.remove(id), ..m }, Outcome::Done(m.events[id]))
    }
}

/// A store of event records keyed by id, kept in durable memory, with the
/// durable counter that allocates ids. It takes regions 0 and 1 of the process's
/// stable memory, which on the Internet Computer is one per canister: a process
/// holds one store at a time.
pub struct EventStore {
    events: DurableMap,
    counter: DurableCounter,
    records: Ghost<Map<u64, EventView>>,
}

impl View for EventStore {
    type V = StoreModel;

    closed spec fn view(&self) -> StoreModel {
        StoreModel { events: self.records@, next_id: counter_value(self.counter) }
    }
}

impl EventStore {
    /// The durable map holds exactly the encodings of the records.
    pub closed spec fn stored_wf(&self) -> bool {
        &&& map_entries(self.events).dom() == self.records@.dom()
        &&& forall|k: u64| #[trigger]
            self.records@.contains_key(k) ==> map_entries(self.events)[k] == enc_event(
                self.records@[k],
            ) && event_fits(self.records@[k])
    }

    /// The store is in a state that the operations can reach.
    pub open spec fn wf(&self) -> bool {
        self.stored_wf() && model_wf(self@)
    }

    /// A fresh, empty store whose first record will receive id 0, written over
    /// whatever durable memory held; `None` when durable memory cannot hold the
    /// counter.
    pub fn new() -> (r: Option<EventStore>)
        ensures
            r is Some ==> r->0@.events == Map::<u64, EventView>::empty() && r->0@.next_id == 0
                && r->0.wf(),
    {
        let regions = Regions::open();
        let counter = match DurableCounter::create(regions.region(0), 0) {
            Some(c) => c,
            None => {
                return None;
            },
        };
        let events = DurableMap::create(regions.region(1));
        let s = EventStore { events, counter, records: Ghost(Map::empty()) };
        assert(map_entries(s.events).dom() =~= s.records@.dom());
        Some(s)
    }

    /// The store that durable memory holds, as an earlier process left it, or a
    /// fresh one where memory holds none. `None` when durable memory cannot be
    /// opened or holds an entry that is not a record stored under its own id,
    /// below the next id, with each attendee listed once.
    pub fn open() -> (r: Option<EventStore>)
        ensures
            r is Some ==> r->0.wf(),
    {
        let regions = Regions::open();
        let counter = match DurableCounter::open(regions.region(0), 0) {
            Some(c) => c,
            None => {
                return None;
            },
        };
        let events = DurableMap::open(regions.region(1));
        let next = counter.get();
        let entries = events.entries();
        let ghost mut recs: Map<u64, EventView> = Map::empty();
        let mut i: usize = 0;
        while i < entries.len()
            invariant
                i <= entries@.len(),
                next == counter_value(counter),
                forall|j: int| #![trigger entries@[j]]
                    0 <= j < entries@.len() ==> map_entries(events).contains_key(entries@[j].0)
                        && entries@[j].1@ == map_entries(events)[entries@[j].0],
                forall|j: int| 0 <= j < i ==> #[trigger] recs.contains_key(entries@[j].0),
                forall|k: u64| #[trigger]
                    recs.contains_key(k) ==> {
                        &&& map_entries(events).contains_key(k)
                        &&& map_entries(events)[k] == enc_event(recs[k])
                        &&& event_fits(recs[k])
                        &&& k < next
                        &&& recs[k].id == k
                        &&& recs[k].attendees.no_duplicates()
                    },
            decreases entries@.len() - i,
        {
            let key = entries[i].0;
            let e = match parse_event(&entries[i].1) {
                Some(e) => e,
                None => {
                    return None;
                },
            };
            if e.id != key || key >= next || !e.attendees_distinct() {
                return None;
            }
            proof {
                recs = recs.insert(key, e@);
            }
            i = i + 1;
        }
        let s = EventStore { events, counter, records: Ghost(recs) };
        assert(map_entries(s.events).dom() =~= s.records@.dom());
        Some(s)
    }

    /// The id that the next created record receives.
    pub fn next_id(&self) -> (r: u64)
        ensures
            r == self@.next_id,
    {
        self.counter.get()
    }

    /// Hands out the next id and durably advances the counter. `None`, with
    /// nothing changed, once every id has been used.
    fn allocate_id(&mut self) -> (r: Option<u64>)
        ensures
            old(self)@.next_id == u64::MAX <==> r is None,
            r is Some ==> r == Some(old(self)@.next_id) && final(self)@.next_id == old(self)@.next_id
                + 1,
            r is None ==> final(self)@.next_id == old(self)@.next_id,
            final(self).events == old(self).events,
            final(self).records == old(self).records,
    {
        let current = self.counter.get();
        if current == u64::MAX {
            None
        } else if self.counter.set(current + 1) {
            Some(current)
        } else {
            None
        }
    }
}

/// Whether `caller` is the identity that created `event`.
pub fn _check_if_owner(event: &Event, caller: &String) -> (r: bool)
    ensures
        r == (event.owner@ == caller@),
{
    event.owner.eq(caller)
}

impl EventStore {
    /// Stores `event` under its own id, replacing any record there.
    pub fn do_insert(&mut self, event: Event)
        requires
            old(self).stored_wf(),
        ensures
            final(self).stored_wf(),
            final(self)@ == (StoreModel {
                events: old(self)@.events.insert(event.id, event@),
                ..old(self)@
            }),
    {
        let ghost ev = event@;
        let id = event.id;
        let bytes = encode_event(&event);
        self.events.insert(id, bytes);
        self.records = Ghost(self.records@.insert(id, ev));
        assert(map_entries(self.events).dom() =~= self.records@.dom());
    }

    /// A copy of the record stored under `id`, if there is one.
    pub fn _get_event(&self, id: &u64) -> (r: Option<Event>)
        requires
            self.stored_wf(),
        ensures
            opt_view(r) == (if self@.events.contains_key(*id) {
                Some(self@.events[*id])
            } else {
                None
            }),
    {
        match self.events.get(*id) {
            Some(b) => Some(decode_event(&b, Ghost(self.records@[*id]))),
            None => None,
        }
    }

    /// The record stored under `id`, or `NotFound`.
    pub fn get_event(&self, id: u64) -> (r: Result<Event, Error>)
        requires
            self.wf(),
        ensures
            outcome_of(r) == spec_get(self@, id),
    {
        match self._get_event(&id) {
            Some(e) => Ok(e),
            None => Err(Error::NotFound { msg: "Event not found".to_owned() }),
        }
    }

    /// Creates a record owned by `caller` at time `now` from `payload`, under the
    /// next id, and stores it. `None`, with nothing changed, exactly when every
    /// id has been used.
    pub fn create_event(&mut self, payload: EventPayload, caller: &String, now: u64) -> (r: Option<
        Event,
    >)
        requires
            old(self).wf(),
        ensures
            old(self)@.next_id == u64::MAX <==> r is None,
            r is Some ==> final(self)@ == spec_create(old(self)@, payload@, caller@, now).0
                && opt_view(r) == spec_create(old(self)@, payload@, caller@, now).1,
            r is None ==> final(self)@ == old(self)@,
            final(self).wf(),
    {
        let ghost p = payload@;
        match self.allocate_id() {
            None => None,
            Some(id) => {
                let event = Event {
                    id,
                    event_description: payload.event_description,
                    owner: caller.clone(),
                    event_title: payload.event_title,
                    event_location: payload.event_location,
                    event_card_imgurl: payload.event_card_imgurl,
                    attendees: Vec::new(),
                    created_at: now,
                    updated_at: None,
                };
                assert(event@ == new_record(id, p, caller@, now)) by {
                    assert(event@.attendees =~= Seq::<Seq<char>>::empty());
                }
                self.do_insert(event.duplicate());
                Some(event)
            },
        }
    }

    /// Overwrites the four free-form fields of record `id` from `payload` and
    /// stamps it updated at `now`, if `caller` owns it. `NotFound` if there is
    /// no such record, `NotAuthorized` if another identity owns it; nothing
    /// changes on an error.
    pub fn update_event(&mut self, id: u64, payload: EventPayload, caller: &String, now: u64) -> (r:
        Result<Event, Error>)
        requires
            old(self).wf(),
        ensures
            final(self)@ == spec_update(old(self)@, id, payload@, caller@, now).0,
            outcome_of(r) == spec_update(old(self)@, id, payload@, caller@, now).1,
            outcome_of(r) == Outcome::NotAuthorized ==> refused_caller(r) == Some(caller@),
            final(self).wf(),
    {
        let ghost p = payload@;
        let mut event = match self._get_event(&id) {
            None => {
                return Err(Error::NotFound { msg: "Event not found".to_owned() });
            },
            Some(e) => e,
        };
        if !_check_if_owner(&event, caller) {
            return Err(
                Error::NotAuthorized {
                    msg: "Caller is not the owner of the event".to_owned(),
                    caller: caller.clone(),
                },
            );
        }
        event.event_description = payload.event_description;
        event.event_title = payload.event_title;
        event.event_location = payload.event_location;
        event.event_card_imgurl = payload.event_card_imgurl;
        event.updated_at = Some(now);
        assert(event@ == with_payload(old(self)@.events[id], p, now));
        self.do_insert(event.duplicate());
        Ok(event)
    }

    /// Appends `caller` to the attendees of record `id`. `NotFound` if there is
    /// no such record, `AlreadyAttending` if `caller` is listed already; nothing
    /// changes on an error. The update time is left as it was.
    pub fn attend_event(&mut self, id: u64, caller: &String) -> (r: Result<Event, Error>)
        requires
            old(self).wf(),
        ensures
            final(self)@ == spec_attend(old(self)@, id, caller@).0,
            outcome_of(r) == spec_attend(old(self)@, id, caller@).1,
            final(self).wf(),
    {
        let mut event = match self._get_event(&id) {
            None => {
                return Err(Error::NotFound { msg: "Event not found".to_owned() });
            },
            Some(e) => e,
        };
        if event.has_attendee(caller) {
            return Err(Error::AlreadyAttending { msg: "Caller already attends the event".to_owned() });
        }
        let ghost before = event@;
        event.attendees.push(caller.clone());
        assert(event@.attendees =~= before.attendees.push(caller@));
        assert(event@ == with_attendee(before, caller@));
        proof {
            let a = before.attendees.push(caller@);
            assert forall|i: int, j: int| 0 <= i < a.len() && 0 <= j < a.len() && i != j implies a[i]
                != a[j] by {
                if i < before.attendees.len() && j < before.attendees.len() {
                } else if i < before.attendees.len() {
                    assert(before.attendees[i] == a[i]);
                } else {
                    assert(before.attendees[j] == a[j]);
                }
            }
        }
        self.do_insert(event.duplicate());
        Ok(event)
    }

    /// Removes record `id` and returns it, if `caller` owns it. `NotFound` if
    /// there is no such record, `NotAuthorized` if another identity owns it;
    /// nothing changes on an error. The id is not handed out again.
    pub fn delete_event(&mut self, id: u64, caller: &String) -> (r: Result<Event, Error>)
        requires
            old(self).wf(),
        ensures
            final(self)@ == spec_delete(old(self)@, id, caller@).0,
            outcome_of(r) == spec_delete(old(self)@, id, caller@).1,
            outcome_of(r) == Outcome::NotAuthorized ==> refused_caller(r) == Some(caller@),
            final(self).wf(),
    {
        let event = match self._get_event(&id) {
            None => {
                return Err(Error::NotFound { msg: "Event not found".to_owned() });
            },
            Some(e) => e,
        };
        if !_check_if_owner(&event, caller) {
            return Err(
                Error::NotAuthorized {
                    msg: "Caller is not the owner of the event".to_owned(),
                    caller: caller.clone(),
                },
            );
        }
        let removed = self.events.remove(id);
        self.records = Ghost(self.records@.remove(id));
        assert(map_entries(self.events).dom() =~= self.records@.dom());
        match removed {
            Some(b) => Ok(decode_event(&b, Ghost(old(self).records@[id]))),
            None => Ok(event),
        }
    }
}

} // verus!
