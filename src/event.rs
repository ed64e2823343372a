use vstd::prelude::*;

verus! {

/// An event record as the store keeps it.
#[derive(Debug, Clone)]
pub struct Event {
    pub id: u64,
    pub event_description: String,
    pub owner: String,
    pub event_title: String,
    pub event_location: String,
    pub event_card_imgurl: String,
    pub attendees: Vec<String>,
    pub created_at: u64,
    pub updated_at: Option<u64>,
}

/// The mathematical value of an `Event`: every string as its characters.
pub struct EventView {
    pub id: u64,
    pub event_description: Seq<char>,
    pub owner: Seq<char>,
    pub event_title: Seq<char>,
    pub event_location: Seq<char>,
    pub event_card_imgurl: Seq<char>,
    pub attendees: Seq<Seq<char>>,
    pub created_at: u64,
    pub updated_at: Option<u64>,
}

/// The characters of each string of a list, in order.
pub open spec fn strings_view(v: Seq<String>) -> Seq<Seq<char>> {
    v.map_values(|s: String| s@)
}

impl View for Event {
    type V = EventView;

    open spec fn view(&self) -> EventView {
        EventView {
            id: self.id,
            event_description: self.event_description@,
            owner: self.owner@,
            event_title: self.event_title@,
            event_location: self.event_location@,
            event_card_imgurl: self.event_card_imgurl@,
            attendees: strings_view(self.attendees@),
            created_at: self.created_at,
            updated_at: self.updated_at,
        }
    }
}

/// Copies a list of strings, element by element.
pub fn copy_strings(v: &Vec<String>) -> (r: Vec<String>)
    ensures
        strings_view(r@) == strings_view(v@),
{
    let mut r: Vec<String> = Vec::new();
    let mut i: usize = 0;
    while i < v.len()
        invariant
            i <= v@.len(),
            r@.len() == i,
            forall|j: int| 0 <= j < i ==> #[trigger] r@[j]@ == v@[j]@,
        decreases v@.len() - i,
    {
        r.push(v[i].clone());
        i = i + 1;
    }
    assert(strings_view(r@) =~= strings_view(v@));
    r
}

impl Event {
    /// A field-by-field copy of the record.
    pub fn duplicate(&self) -> (r: Event)
        ensures
            r@ == self@,
    {
        Event {
            id: self.id,
            event_description: self.event_description.clone(),
            owner: self.owner.clone(),
            event_title: self.event_title.clone(),
            event_location: self.event_location.clone(),
            event_card_imgurl: self.event_card_imgurl.clone(),
            attendees: copy_strings(&self.attendees),
            created_at: self.created_at,
            updated_at: self.updated_at,
        }
    }

    /// Whether no identity is listed twice among the attendees.
    pub fn attendees_distinct(&self) -> (r: bool)
        ensures
            r == self@.attendees.no_duplicates(),
    {
        let ghost a = self@.attendees;
        let mut i: usize = 0;
        while i < self.attendees.len()
            invariant
                a == self@.attendees,
                i <= a.len(),
                forall|x: int, y: int| 0 <= x < y < i ==> a[x] != a[y],
            decreases a.len() - i,
        {
            let mut j: usize = 0;
            while j < i
                invariant
                    a == self@.attendees,
                    j <= i < a.len(),
                    forall|x: int| 0 <= x < j ==> a[x] != a[i as int],
                decreases i - j,
            {
                if self.attendees[j].eq(&self.attendees[i]) {
                    assert(a[j as int] == a[i as int]);
                    return false;
                }
                j = j + 1;
            }
            i = i + 1;
        }
        true
    }

    /// Whether `who` is already among the attendees.
    pub fn has_attendee(&self, who: &String) -> (r: bool)
        ensures
            r == self@.attendees.contains(who@),
    {
        let mut i: usize = 0;
        while i < self.attendees.len()
            invariant
                i <= self.attendees@.len(),
                forall|j: int| 0 <= j < i ==> self.attendees@[j]@ != who@,
            decreases self.attendees@.len() - i,
        {
            if self.attendees[i].eq(who) {
                assert(self@.attendees[i as int] == who@);
                return true;
            }
            i = i + 1;
        }
        assert forall|j: int| 0 <= j < self@.attendees.len() implies self@.attendees[j] != who@ by {
            assert(self@.attendees[j] == self.attendees@[j]@);
        }
        false
    }
}

/// The four free-form fields that a caller supplies to create or update an event.
#[derive(Debug, Clone)]
pub struct EventPayload {
    pub event_description: String,
    pub event_title: String,
    pub event_location: String,
    pub event_card_imgurl: String,
}

/// The mathematical value of an `EventPayload`.
pub struct PayloadView {
    pub event_description: Seq<char>,
    pub event_title: Seq<char>,
    pub event_location: Seq<char>,
    pub event_card_imgurl: Seq<char>,
}

impl View for EventPayload {
    type V = PayloadView;

    open spec fn view(&self) -> PayloadView {
        PayloadView {
            event_description: self.event_description@,
            event_title: self.event_title@,
            event_location: self.event_location@,
            event_card_imgurl: self.event_card_imgurl@,
        }
    }
}

/// Why an operation on the store was refused.
#[derive(Debug, Clone)]
pub enum Error {
    /// No record has the requested id.
    NotFound { msg: String },
    /// The caller is not the owner of the record.
    NotAuthorized { msg: String, caller: String },
    /// The caller already attends the event.
    AlreadyAttending { msg: String },
}

} // verus!
