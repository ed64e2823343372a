use event_registry::event::{Error, Event, EventPayload};
use event_registry::store::EventStore;

fn payload(title: &str) -> EventPayload {
    EventPayload {
        event_description: format!("{} description", title),
        event_title: title.to_string(),
        event_location: "Hall".to_string(),
        event_card_imgurl: "https://example.org/card.png".to_string(),
    }
}

fn who(name: &str) -> String {
    name.to_string()
}

fn create(store: &mut EventStore, title: &str, caller: &str, now: u64) -> Event {
    store.create_event(payload(title), &who(caller), now).unwrap()
}

#[test]
fn ids_start_at_zero_and_increase_by_one() {
    let mut store = EventStore::new().unwrap();
    assert_eq!(store.next_id(), 0);
    assert_eq!(create(&mut store, "a", "alice", 1).id, 0);
    assert_eq!(create(&mut store, "b", "alice", 2).id, 1);
    assert!(store.delete_event(1, &who("alice")).is_ok());
    assert_eq!(create(&mut store, "c", "bob", 3).id, 2);
    assert_eq!(store.next_id(), 3);
}

#[test]
fn create_then_get_returns_the_record() {
    let mut store = EventStore::new().unwrap();
    let created = create(&mut store, "Meetup", "alice", 100);
    assert_eq!(created.owner, "alice");
    assert!(created.attendees.is_empty());
    assert_eq!(created.created_at, 100);
    assert_eq!(created.updated_at, None);
    assert_eq!(created.event_title, "Meetup");
    assert_eq!(created.event_description, "Meetup description");
    assert_eq!(created.event_location, "Hall");
    assert_eq!(created.event_card_imgurl, "https://example.org/card.png");
    let got = store.get_event(created.id).unwrap();
    assert_eq!(got.id, created.id);
    assert_eq!(got.owner, created.owner);
    assert_eq!(got.event_title, created.event_title);
    assert_eq!(got.event_description, created.event_description);
    assert_eq!(got.attendees, created.attendees);
    assert_eq!(got.created_at, created.created_at);
    assert_eq!(got.updated_at, created.updated_at);
}

#[test]
fn update_by_non_owner_is_refused() {
    let mut store = EventStore::new().unwrap();
    create(&mut store, "Meetup", "alice", 1);
    let r = store.update_event(0, payload("Hijack"), &who("bob"), 5);
    match r {
        Err(Error::NotAuthorized { caller, .. }) => assert_eq!(caller, "bob"),
        _ => panic!("expected NotAuthorized"),
    }
    let got = store.get_event(0).unwrap();
    assert_eq!(got.event_title, "Meetup");
    assert_eq!(got.updated_at, None);
}

#[test]
fn update_by_owner_changes_the_free_fields() {
    let mut store = EventStore::new().unwrap();
    create(&mut store, "Meetup", "alice", 1);
    store.attend_event(0, &who("bob")).unwrap();
    let upd = EventPayload {
        event_description: "new description".to_string(),
        event_title: "Conference".to_string(),
        event_location: "Park".to_string(),
        event_card_imgurl: "img2".to_string(),
    };
    let e = store.update_event(0, upd, &who("alice"), 9).unwrap();
    assert_eq!(e.event_title, "Conference");
    assert_eq!(e.event_description, "new description");
    assert_eq!(e.event_location, "Park");
    assert_eq!(e.event_card_imgurl, "img2");
    assert_eq!(e.updated_at, Some(9));
    assert_eq!(e.id, 0);
    assert_eq!(e.owner, "alice");
    assert_eq!(e.created_at, 1);
    assert_eq!(e.attendees, vec!["bob".to_string()]);
    let got = store.get_event(0).unwrap();
    assert_eq!(got.event_title, "Conference");
    assert_eq!(got.updated_at, Some(9));
}

#[test]
fn update_of_missing_record_is_not_found() {
    let mut store = EventStore::new().unwrap();
    let r = store.update_event(7, payload("x"), &who("alice"), 1);
    assert!(matches!(r, Err(Error::NotFound { .. })));
}

#[test]
fn attend_twice_is_refused() {
    let mut store = EventStore::new().unwrap();
    create(&mut store, "Meetup", "alice", 1);
    let e = store.attend_event(0, &who("bob")).unwrap();
    assert_eq!(e.attendees, vec!["bob".to_string()]);
    assert_eq!(e.updated_at, None);
    let r = store.attend_event(0, &who("bob"));
    assert!(matches!(r, Err(Error::AlreadyAttending { .. })));
    assert_eq!(store.get_event(0).unwrap().attendees, vec!["bob".to_string()]);
    let e = store.attend_event(0, &who("carol")).unwrap();
    assert_eq!(e.attendees, vec!["bob".to_string(), "carol".to_string()]);
}

#[test]
fn attend_missing_record_is_not_found() {
    let mut store = EventStore::new().unwrap();
    assert!(matches!(store.attend_event(3, &who("bob")), Err(Error::NotFound { .. })));
}

#[test]
fn delete_by_non_owner_is_refused() {
    let mut store = EventStore::new().unwrap();
    create(&mut store, "Meetup", "alice", 1);
    let r = store.delete_event(0, &who("bob"));
    assert!(matches!(r, Err(Error::NotAuthorized { .. })));
    assert_eq!(store.get_event(0).unwrap().owner, "alice");
}

#[test]
fn delete_by_owner_removes_the_record() {
    let mut store = EventStore::new().unwrap();
    create(&mut store, "Meetup", "alice", 1);
    let removed = store.delete_event(0, &who("alice")).unwrap();
    assert_eq!(removed.id, 0);
    assert_eq!(removed.event_title, "Meetup");
    assert!(matches!(store.get_event(0), Err(Error::NotFound { .. })));
    assert!(matches!(store.delete_event(0, &who("alice")), Err(Error::NotFound { .. })));
    let next = create(&mut store, "Again", "alice", 2);
    assert_eq!(next.id, 1);
    assert!(matches!(store.get_event(0), Err(Error::NotFound { .. })));
}

#[test]
fn get_of_never_created_id_is_not_found() {
    let mut store = EventStore::new().unwrap();
    assert!(matches!(store.get_event(0), Err(Error::NotFound { .. })));
    create(&mut store, "Meetup", "alice", 1);
    assert!(matches!(store.get_event(1), Err(Error::NotFound { .. })));
    assert!(matches!(store.get_event(u64::MAX), Err(Error::NotFound { .. })));
}

#[test]
fn insert_and_lookup_helpers() {
    let mut store = EventStore::new().unwrap();
    let e = create(&mut store, "Meetup", "alice", 1);
    assert!(store._get_event(&5).is_none());
    let mut copy = e.duplicate();
    copy.id = 5;
    copy.event_title = "Copy".to_string();
    store.do_insert(copy);
    assert_eq!(store._get_event(&5).unwrap().event_title, "Copy");
    assert_eq!(store._get_event(&0).unwrap().event_title, "Meetup");
}

#[test]
fn example_scenario() {
    let mut store = EventStore::new().unwrap();
    let a = who("A");
    let b = who("B");
    let e = store.create_event(payload("Meetup"), &a, 10).unwrap();
    assert_eq!(e.id, 0);
    assert_eq!(e.owner, "A");
    assert!(e.attendees.is_empty());
    assert_eq!(store.attend_event(0, &b).unwrap().attendees, vec!["B".to_string()]);
    assert!(matches!(store.attend_event(0, &b), Err(Error::AlreadyAttending { .. })));
    assert_eq!(store.get_event(0).unwrap().attendees, vec!["B".to_string()]);
    assert!(matches!(store.update_event(0, payload("x"), &b, 11), Err(Error::NotAuthorized { .. })));
    assert!(store.delete_event(0, &a).is_ok());
    assert!(matches!(store.get_event(0), Err(Error::NotFound { .. })));
}

#[test]
fn non_ascii_text_survives_storage() {
    let mut store = EventStore::new().unwrap();
    let p = EventPayload {
        event_description: "Café – naïve ✓".to_string(),
        event_title: "東京".to_string(),
        event_location: String::new(),
        event_card_imgurl: "🎉".to_string(),
    };
    store.create_event(p, &who("zoë"), 4).unwrap();
    store.attend_event(0, &who("ñandú")).unwrap();
    let got = store.get_event(0).unwrap();
    assert_eq!(got.event_description, "Café – naïve ✓");
    assert_eq!(got.event_title, "東京");
    assert_eq!(got.event_location, "");
    assert_eq!(got.event_card_imgurl, "🎉");
    assert_eq!(got.owner, "zoë");
    assert_eq!(got.attendees, vec!["ñandú".to_string()]);
}

#[test]
fn open_on_fresh_memory_gives_an_empty_store() {
    let mut store = EventStore::open().unwrap();
    assert_eq!(store.next_id(), 0);
    assert!(matches!(store.get_event(0), Err(Error::NotFound { .. })));
    assert_eq!(create(&mut store, "Meetup", "alice", 1).id, 0);
    assert_eq!(store.next_id(), 1);
}

#[test]
fn refusal_names_the_caller() {
    let mut store = EventStore::new().unwrap();
    create(&mut store, "Meetup", "alice", 1);
    match store.delete_event(0, &who("mallory")) {
        Err(Error::NotAuthorized { caller, .. }) => assert_eq!(caller, "mallory"),
        _ => panic!("expected NotAuthorized"),
    }
}
