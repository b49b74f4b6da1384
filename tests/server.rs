use standup::channel::Broker;
use standup::model::{InputMember, Meeting, ReactionType};
use standup::server::{fresh_meeting, save_meeting, Hub, MutationRoot, QueryRoot, SubscriptionRoot, RETRY_BUDGET};
use standup::store::MemoryStore;
use standup::transaction::{
    apply_mutation, MeetingError, Mutation, ReadOutcome, Transaction, TxAction, WriteOutcome,
};

fn names(m: &Meeting) -> Vec<String> {
    let mut v: Vec<String> = m.members.iter().map(|x| x.name.clone()).collect();
    v.sort();
    v
}

#[test]
fn create_then_fetch_is_empty() {
    let mut hub = Hub::new();
    let created = MutationRoot::create_meeting(&mut hub).unwrap();
    assert_eq!(created.id.len(), 36);
    let fetched = QueryRoot::meeting(&hub, &created.id).unwrap();
    assert_eq!(fetched.id, created.id);
    assert!(fetched.members.is_empty());
    assert_eq!(fetched.memo, "");
    assert!(fetched.leader_id.is_none());
}

#[test]
fn created_meetings_get_distinct_ids() {
    let mut hub = Hub::new();
    let a = MutationRoot::create_meeting(&mut hub).unwrap();
    let b = MutationRoot::create_meeting(&mut hub).unwrap();
    assert_ne!(a.id, b.id);
}

#[test]
fn alice_bob_shuffle_and_elect() {
    let mut hub = Hub::new();
    let id = MutationRoot::create_meeting(&mut hub).unwrap().id;
    MutationRoot::add_member(&mut hub, &id, String::from("Alice")).unwrap();
    MutationRoot::add_member(&mut hub, &id, String::from("Bob")).unwrap();
    MutationRoot::shuffle_members(&mut hub, &id).unwrap();
    let last = MutationRoot::new_leader(&mut hub, &id).unwrap();
    assert_eq!(last.members.len(), 2);
    assert_eq!(names(&last), vec!["Alice", "Bob"]);
    let leader = last.leader_id.clone().unwrap();
    assert!(last.members.iter().any(|m| m.id == leader));
    let stored = QueryRoot::meeting(&hub, &id).unwrap();
    assert_eq!(stored.leader_id, last.leader_id);
}

#[test]
fn member_ids_are_fresh() {
    let mut hub = Hub::new();
    let id = MutationRoot::create_meeting(&mut hub).unwrap().id;
    MutationRoot::add_member(&mut hub, &id, String::from("A")).unwrap();
    let m = MutationRoot::add_member(&mut hub, &id, String::from("A")).unwrap();
    assert_ne!(m.members[0].id, m.members[1].id);
    assert_eq!(m.members[1].id.len(), 36);
}

#[test]
fn fetch_unknown_meeting_is_not_found() {
    let hub = Hub::new();
    let r = QueryRoot::meeting(&hub, &String::from("missing"));
    assert_eq!(r.unwrap_err(), MeetingError::NotFound);
}

#[test]
fn mutation_on_unknown_meeting_is_not_found() {
    let mut hub = Hub::new();
    let r = MutationRoot::update_memo(&mut hub, &String::from("missing"), String::from("x"));
    assert_eq!(r.unwrap_err(), MeetingError::NotFound);
}

#[test]
fn update_member_through_hub() {
    let mut hub = Hub::new();
    let id = MutationRoot::create_meeting(&mut hub).unwrap().id;
    let m = MutationRoot::add_member(&mut hub, &id, String::from("Alice")).unwrap();
    let member = InputMember {
        id: m.members[0].id.clone(),
        name: String::from("Alicia"),
        reaction: ReactionType::II,
    };
    let m = MutationRoot::update_member(&mut hub, &id, member).unwrap();
    assert_eq!(m.members[0].name, "Alicia");
    assert_eq!(m.members[0].reaction, ReactionType::II);
}

#[test]
fn remove_then_update_through_hub_fails() {
    let mut hub = Hub::new();
    let id = MutationRoot::create_meeting(&mut hub).unwrap().id;
    let m = MutationRoot::add_member(&mut hub, &id, String::from("Alice")).unwrap();
    let mid = m.members[0].id.clone();
    let m = MutationRoot::remove_member(&mut hub, &id, mid.clone()).unwrap();
    assert!(m.members.is_empty());
    let member = InputMember { id: mid, name: String::from("Alice"), reaction: ReactionType::NONE };
    let r = MutationRoot::update_member(&mut hub, &id, member);
    assert_eq!(r.unwrap_err(), MeetingError::MemberNotFound);
    assert!(QueryRoot::meeting(&hub, &id).unwrap().members.is_empty());
}

#[test]
fn subscriber_receives_memo_update() {
    let mut hub = Hub::new();
    let id = MutationRoot::create_meeting(&mut hub).unwrap().id;
    let other = MutationRoot::create_meeting(&mut hub).unwrap().id;
    let h = SubscriptionRoot::meeting(&mut hub, id.clone());
    MutationRoot::update_memo(&mut hub, &other, String::from("elsewhere")).unwrap();
    MutationRoot::update_memo(&mut hub, &id, String::from("hello")).unwrap();
    let got = hub.broker.next(h).unwrap();
    assert_eq!(got.memo, "hello");
    assert_eq!(got.id, id);
    assert!(hub.broker.next(h).is_none());
}

#[test]
fn updates_arrive_in_publish_order() {
    let mut hub = Hub::new();
    let id = MutationRoot::create_meeting(&mut hub).unwrap().id;
    let h = SubscriptionRoot::meeting(&mut hub, id.clone());
    MutationRoot::update_memo(&mut hub, &id, String::from("one")).unwrap();
    MutationRoot::update_memo(&mut hub, &id, String::from("two")).unwrap();
    assert_eq!(hub.broker.next(h).unwrap().memo, "one");
    assert_eq!(hub.broker.next(h).unwrap().memo, "two");
}

#[test]
fn late_subscriber_misses_earlier_updates() {
    let mut hub = Hub::new();
    let id = MutationRoot::create_meeting(&mut hub).unwrap().id;
    MutationRoot::update_memo(&mut hub, &id, String::from("before")).unwrap();
    let h = SubscriptionRoot::meeting(&mut hub, id.clone());
    assert!(hub.broker.next(h).is_none());
}

#[test]
fn failed_mutation_publishes_nothing() {
    let mut hub = Hub::new();
    let id = MutationRoot::create_meeting(&mut hub).unwrap().id;
    let h = SubscriptionRoot::meeting(&mut hub, id.clone());
    let member = InputMember { id: String::from("x"), name: String::from("x"), reaction: ReactionType::NONE };
    assert!(MutationRoot::update_member(&mut hub, &id, member).is_err());
    assert!(hub.broker.next(h).is_none());
}

#[test]
fn unsubscribed_listener_receives_nothing() {
    let mut broker = Broker::new();
    let h = broker.subscribe(String::from("m"));
    broker.unsubscribe(h);
    broker.publish(&String::from("m"), &Meeting::new(String::from("m")));
    assert!(broker.next(h).is_none());
}

#[test]
fn concurrent_adds_both_survive() {
    let mut hub = Hub::new();
    let id = MutationRoot::create_meeting(&mut hub).unwrap().id;
    let add_a = Mutation::AddMember { name: String::from("A") };
    let add_b = Mutation::AddMember { name: String::from("B") };
    let mut tx_a = Transaction::new(RETRY_BUDGET);
    let mut tx_b = Transaction::new(RETRY_BUDGET);
    // both writers read the same version
    let (va, ma) = hub.store.read(&id).unwrap();
    let (vb, mb) = hub.store.read(&id).unwrap();
    let wa = match tx_a.after_read(ReadOutcome::Found(ma), &add_a) {
        TxAction::Write(n) => n,
        _ => panic!("a should write"),
    };
    let wb = match tx_b.after_read(ReadOutcome::Found(mb), &add_b) {
        TxAction::Write(n) => n,
        _ => panic!("b should write"),
    };
    let oa = hub.store.compare_and_set(&id, va, wa.clone());
    assert_eq!(oa, WriteOutcome::Committed);
    assert!(matches!(tx_a.after_write(oa, wa), TxAction::Publish(_)));
    let ob = hub.store.compare_and_set(&id, vb, wb.clone());
    assert_eq!(ob, WriteOutcome::Collided);
    assert!(matches!(tx_b.after_write(ob, wb), TxAction::Retry));
    assert_eq!(tx_b.retries_left, RETRY_BUDGET - 1);
    // b starts over on the new value
    let (vb2, mb2) = hub.store.read(&id).unwrap();
    let wb2 = match tx_b.after_read(ReadOutcome::Found(mb2), &add_b) {
        TxAction::Write(n) => n,
        _ => panic!("b should write"),
    };
    let ob2 = hub.store.compare_and_set(&id, vb2, wb2.clone());
    assert_eq!(ob2, WriteOutcome::Committed);
    let last = QueryRoot::meeting(&hub, &id).unwrap();
    assert_eq!(names(&last), vec!["A", "B"]);
}

#[test]
fn collision_without_budget_is_conflict() {
    let mut tx = Transaction::new(0);
    let r = tx.after_write(WriteOutcome::Collided, Meeting::new(String::from("m")));
    assert!(matches!(r, TxAction::Fail(MeetingError::Conflict)));
}

#[test]
fn budget_runs_out_after_retries() {
    let mut tx = Transaction::new(2);
    let m = Meeting::new(String::from("m"));
    assert!(matches!(tx.after_write(WriteOutcome::Collided, m.clone()), TxAction::Retry));
    assert!(matches!(tx.after_write(WriteOutcome::Collided, m.clone()), TxAction::Retry));
    assert!(matches!(tx.after_write(WriteOutcome::Collided, m.clone()), TxAction::Fail(MeetingError::Conflict)));
}

#[test]
fn store_down_on_write_is_unavailable() {
    let mut tx = Transaction::new(3);
    let r = tx.after_write(WriteOutcome::StoreDown, Meeting::new(String::from("m")));
    assert!(matches!(r, TxAction::Fail(MeetingError::Unavailable)));
    assert_eq!(tx.retries_left, 3);
}

#[test]
fn committed_write_is_published() {
    let mut tx = Transaction::new(3);
    let mut m = Meeting::new(String::from("m"));
    m.memo = String::from("hello");
    match tx.after_write(WriteOutcome::Committed, m) {
        TxAction::Publish(p) => assert_eq!(p.memo, "hello"),
        _ => panic!("expected publish"),
    }
}

#[test]
fn read_failures_map_to_errors() {
    let tx = Transaction::new(1);
    let mu = Mutation::ShuffleMembers;
    assert!(matches!(tx.after_read(ReadOutcome::Missing, &mu), TxAction::Fail(MeetingError::NotFound)));
    assert!(matches!(tx.after_read(ReadOutcome::Unreadable, &mu), TxAction::Fail(MeetingError::Corrupt)));
    assert!(matches!(tx.after_read(ReadOutcome::StoreDown, &mu), TxAction::Fail(MeetingError::Unavailable)));
}

#[test]
fn refused_mutation_fails_the_transaction() {
    let tx = Transaction::new(1);
    let mu = Mutation::UpdateMember {
        member: InputMember { id: String::from("x"), name: String::from("x"), reaction: ReactionType::NONE },
    };
    let r = tx.after_read(ReadOutcome::Found(Meeting::new(String::from("m"))), &mu);
    assert!(matches!(r, TxAction::Fail(MeetingError::MemberNotFound)));
}

#[test]
fn apply_mutation_add_draws_fresh_id() {
    let mu = Mutation::AddMember { name: String::from("Zed") };
    let m = apply_mutation(&mu, Meeting::new(String::from("m"))).unwrap();
    let m = apply_mutation(&mu, m).unwrap();
    assert_eq!(m.members.len(), 2);
    assert_eq!(m.members[0].id.len(), 36);
    assert_ne!(m.members[0].id, m.members[1].id);
}

#[test]
fn store_versions_and_create() {
    let mut s = MemoryStore::new();
    assert!(s.read(&String::from("k")).is_none());
    assert!(s.create(Meeting::new(String::from("k"))));
    assert!(!s.create(Meeting::new(String::from("k"))));
    let (v, _) = s.read(&String::from("k")).unwrap();
    assert_eq!(v, 0);
    assert_eq!(s.compare_and_set(&String::from("k"), 0, Meeting::new(String::from("k"))), WriteOutcome::Committed);
    assert_eq!(s.read(&String::from("k")).unwrap().0, 1);
    assert_eq!(s.compare_and_set(&String::from("k"), 0, Meeting::new(String::from("k"))), WriteOutcome::Collided);
    assert_eq!(s.compare_and_set(&String::from("other"), 0, Meeting::new(String::from("o"))), WriteOutcome::Collided);
    assert_eq!(s.get(&String::from("other")).unwrap_err(), MeetingError::NotFound);
}

#[test]
fn save_meeting_bumps_version() {
    let mut hub = Hub::new();
    let id = MutationRoot::create_meeting(&mut hub).unwrap().id;
    let m = save_meeting(&mut hub, &id, &Mutation::UpdateMemo { memo: String::from("x") }).unwrap();
    assert_eq!(m.memo, "x");
    assert_eq!(hub.store.read(&id).unwrap().0, 1);
}

#[test]
fn error_messages() {
    assert_eq!(MeetingError::NotFound.message(), "Invalid meeting id");
    assert_eq!(MeetingError::Corrupt.message(), "Meeting object is broken");
    assert_eq!(MeetingError::MemberNotFound.message(), "Invalid member id");
    assert_eq!(MeetingError::Unavailable.message(), "Failed to connect storage");
    assert_eq!(MeetingError::Conflict.message(), "Too many concurrent updates");
    assert_eq!(MeetingError::DuplicateMemberId.message(), "Member id is already taken");
}

#[test]
fn fresh_meetings_differ() {
    let a = fresh_meeting();
    let b = fresh_meeting();
    assert_eq!(a.id.len(), 36);
    assert_ne!(a.id, b.id);
    assert!(a.members.is_empty());
}
