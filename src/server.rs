use vstd::prelude::*;
use crate::channel::{Broker, BrokerView};
use crate::model::{InputMember, Meeting, MeetingView};
use crate::store::MemoryStore;
use crate::transaction::{
    error_of, mutated, new_id, MeetingError, Mutation, ReadOutcome, Transaction, TxAction,
};
use crate::engine::MutationError;

verus! {

/// How many times a mutation is re-run after losing to a concurrent writer.
pub const RETRY_BUDGET: u32 = 16;

/// How many ids `create_meeting` draws before it gives up on finding a free one.
pub const CREATE_ATTEMPTS: u32 = 3;

/// The store of meetings together with the channel their updates go out on.
pub struct Hub {
    pub store: MemoryStore,
    pub broker: Broker,
    pub retries: u32,
}

/// The stored meetings and the broker's state.
pub struct HubView {
    pub store: Map<Seq<char>, (u64, MeetingView)>,
    pub broker: BrokerView,
}

impl View for Hub {
    type V = HubView;

    open spec fn view(&self) -> HubView {
        HubView { store: self.store@, broker: self.broker@ }
    }
}

impl Hub {
    pub open spec fn wf(&self) -> bool {
        self.store.wf() && self.broker@.wf()
    }

    pub fn new() -> (r: Hub)
        ensures
            r.wf(),
            r@.store == Map::<Seq<char>, (u64, MeetingView)>::empty(),
            r@.broker.log.len() == 0,
            r@.broker.listeners.len() == 0,
            r.retries == RETRY_BUDGET,
    {
        Hub { store: MemoryStore::new(), broker: Broker::new(), retries: RETRY_BUDGET }
    }
}

/// What a transactional update of `key` by `mu` leaves behind, going from
/// `before` to `after` and returning `r`: on success the new value is stored
/// one version up and published once on the key's channel; on failure
/// nothing changes.
pub open spec fn saved(
    before: HubView,
    after: HubView,
    key: Seq<char>,
    mu: Mutation,
    r: Result<MeetingView, MeetingError>,
) -> bool {
    let s = before.store;
    match r {
        Ok(p) => {
            &&& s.contains_key(key)
            &&& s[key].0 < u64::MAX
            &&& mutated(mu, s[key].1, Ok(p))
            &&& p.wf()
            &&& after.store == s.insert(key, ((s[key].0 + 1) as u64, p))
            &&& after.broker.log == before.broker.log.push((key, p))
            &&& after.broker.listeners == before.broker.listeners
        },
        Err(e) => {
            &&& after == before
            &&& e == MeetingError::NotFound <==> !s.contains_key(key)
            &&& e == MeetingError::Conflict ==> s[key].0 == u64::MAX
            &&& e != MeetingError::NotFound && e != MeetingError::Conflict ==> exists|
                me: MutationError,
            | mutated(mu, s[key].1, Err(me)) && e == error_of(me)
        },
    }
}

/// The view of an operation's result.
pub open spec fn result_view(r: Result<Meeting, MeetingError>) -> Result<MeetingView, MeetingError> {
    match r {
        Ok(m) => Ok(m@),
        Err(e) => Err(e),
    }
}

/// Reads the meeting under `id`, applies `mutation` and writes the result
/// back only if no other writer committed in between, retrying up to the
/// hub's budget; a committed value is published to the meeting's listeners.
pub fn save_meeting(hub: &mut Hub, id: &String, mutation: &Mutation) -> (r: Result<
    Meeting,
    MeetingError,
>)
    requires
        old(hub).wf(),
    ensures
        final(hub).wf(),
        final(hub).retries == old(hub).retries,
        saved(old(hub)@, final(hub)@, id@, *mutation, result_view(r)),
{
    let ghost before = hub@;
    let mut tx = Transaction::new(hub.retries);
    let mut result: Option<Result<Meeting, MeetingError>> = None;
    while result.is_none()
        invariant
            hub.wf(),
            hub.retries == old(hub).retries,
            before == old(hub)@,
            result is None ==> hub@ == before,
            result matches Some(r) ==> saved(before, hub@, id@, *mutation, result_view(r)),
        decreases tx.retries_left as int + if result is None {
            1int
        } else {
            0int
        },
    {
        let (read, version) = match hub.store.read(id) {
            None => (ReadOutcome::Missing, 0u64),
            Some((v, m)) => (ReadOutcome::Found(m), v),
        };
        proof {
            if hub@.store.contains_key(id@) {
                hub.store.lemma_stored_wf(id@);
            }
        }
        match tx.after_read(read, mutation) {
            TxAction::Write(n) => {
                let written = n.clone();
                let outcome = hub.store.compare_and_set(id, version, n);
                match tx.after_write(outcome, written) {
                    TxAction::Publish(p) => {
                        hub.broker.publish(id, &p);
                        result = Some(Ok(p));
                    },
                    TxAction::Retry => {},
                    TxAction::Fail(e) => {
                        result = Some(Err(e));
                    },
                    TxAction::Write(_) => {
                        proof {
                            assert(false);
                        }
                    },
                }
            },
            TxAction::Fail(e) => {
                result = Some(Err(e));
            },
            _ => {
                proof {
                    assert(false);
                }
            },
        }
    }
    match result {
        Some(r) => r,
        None => Err(MeetingError::Conflict),
    }
}

/// An empty meeting under a freshly drawn id.
pub fn fresh_meeting() -> (r: Meeting)
    ensures
        r.id@.len() == 36,
        r.leader_id is None,
        r.members@.len() == 0,
        r.memo@.len() == 0,
        r@.wf(),
{
    Meeting::new(new_id())
}

/// No stored key is as long as a drawn id, so a drawn id is always free.
pub open spec fn no_key_of_drawn_length(s: Map<Seq<char>, (u64, MeetingView)>) -> bool {
    forall|k: Seq<char>| #[trigger] s.contains_key(k) ==> k.len() != 36
}

/// Entry points for reading a meeting.
pub struct QueryRoot;

impl QueryRoot {
    /// The meeting stored under `id`.
    pub fn meeting(hub: &Hub, id: &String) -> (r: Result<Meeting, MeetingError>)
        requires
            hub.wf(),
        ensures
            !hub@.store.contains_key(id@) <==> r is Err,
            r is Err ==> r == Err::<Meeting, MeetingError>(MeetingError::NotFound),
            r matches Ok(m) ==> m@ == hub@.store[id@].1,
    {
        hub.store.get(id)
    }
}

/// Entry points for changing meetings.
pub struct MutationRoot;

impl MutationRoot {
    /// Creates and stores an empty meeting under a freshly drawn id.
    pub fn create_meeting(hub: &mut Hub) -> (r: Result<Meeting, MeetingError>)
        requires
            old(hub).wf(),
        ensures
            final(hub).wf(),
            final(hub).retries == old(hub).retries,
            final(hub)@.broker == old(hub)@.broker,
            r matches Ok(m) ==> m.leader_id is None && m.members@.len() == 0 && m.memo@.len() == 0,
            r matches Ok(m) ==> !old(hub)@.store.contains_key(m.id@),
            r matches Ok(m) ==> final(hub)@.store == old(hub)@.store.insert(m.id@, (0u64, m@)),
            r is Err ==> r == Err::<Meeting, MeetingError>(MeetingError::Conflict),
            r is Err ==> final(hub)@ == old(hub)@,
            no_key_of_drawn_length(old(hub)@.store) ==> r is Ok,
    {
        let mut attempts: u32 = 0;
        while attempts < CREATE_ATTEMPTS
            invariant
                hub.wf(),
                hub.retries == old(hub).retries,
                hub@ == old(hub)@,
                no_key_of_drawn_length(old(hub)@.store) ==> attempts == 0,
            decreases CREATE_ATTEMPTS - attempts,
        {
            let meeting = fresh_meeting();
            let copy = meeting.clone();
            if hub.store.create(meeting) {
                return Ok(copy);
            }
            attempts = attempts + 1;
        }
        Err(MeetingError::Conflict)
    }

    /// Appends a member named `name`, with a fresh id and no reaction.
    pub fn add_member(hub: &mut Hub, id: &String, name: String) -> (r: Result<
        Meeting,
        MeetingError,
    >)
        requires
            old(hub).wf(),
        ensures
            final(hub).wf(),
            saved(old(hub)@, final(hub)@, id@, Mutation::AddMember { name }, result_view(r)),
    {
        let mutation = Mutation::AddMember { name };
        save_meeting(hub, id, &mutation)
    }

    /// Sets the name and reaction of the member with `member.id`.
    pub fn update_member(hub: &mut Hub, id: &String, member: InputMember) -> (r: Result<
        Meeting,
        MeetingError,
    >)
        requires
            old(hub).wf(),
        ensures
            final(hub).wf(),
            saved(old(hub)@, final(hub)@, id@, Mutation::UpdateMember { member }, result_view(r)),
    {
        let mutation = Mutation::UpdateMember { member };
        save_meeting(hub, id, &mutation)
    }

    /// Removes the member with `member_id`, if there is one.
    pub fn remove_member(hub: &mut Hub, id: &String, member_id: String) -> (r: Result<
        Meeting,
        MeetingError,
    >)
        requires
            old(hub).wf(),
        ensures
            final(hub).wf(),
            saved(
                old(hub)@,
                final(hub)@,
                id@,
                Mutation::RemoveMember { member_id },
                result_view(r),
            ),
    {
        let mutation = Mutation::RemoveMember { member_id };
        save_meeting(hub, id, &mutation)
    }

    /// Puts the members in a random order.
    pub fn shuffle_members(hub: &mut Hub, id: &String) -> (r: Result<Meeting, MeetingError>)
        requires
            old(hub).wf(),
        ensures
            final(hub).wf(),
            saved(old(hub)@, final(hub)@, id@, Mutation::ShuffleMembers, result_view(r)),
    {
        save_meeting(hub, id, &Mutation::ShuffleMembers)
    }

    /// Hands the leader token to a member picked at random.
    pub fn new_leader(hub: &mut Hub, id: &String) -> (r: Result<Meeting, MeetingError>)
        requires
            old(hub).wf(),
        ensures
            final(hub).wf(),
            saved(old(hub)@, final(hub)@, id@, Mutation::NewLeader, result_view(r)),
    {
        save_meeting(hub, id, &Mutation::NewLeader)
    }

    /// Replaces the shared memo.
    pub fn update_memo(hub: &mut Hub, id: &String, memo: String) -> (r: Result<
        Meeting,
        MeetingError,
    >)
        requires
            old(hub).wf(),
        ensures
            final(hub).wf(),
            saved(old(hub)@, final(hub)@, id@, Mutation::UpdateMemo { memo }, result_view(r)),
    {
        let mutation = Mutation::UpdateMemo { memo };
        save_meeting(hub, id, &mutation)
    }
}

/// Entry points for following a meeting's updates.
pub struct SubscriptionRoot;

impl SubscriptionRoot {
    /// Starts following the meeting `id`; returns the listener's handle.
    pub fn meeting(hub: &mut Hub, id: String) -> (h: usize)
        requires
            old(hub).wf(),
        ensures
            final(hub).wf(),
            final(hub).retries == old(hub).retries,
            final(hub)@.store == old(hub)@.store,
            h == old(hub)@.broker.listeners.len(),
            final(hub)@.broker.log == old(hub)@.broker.log,
            final(hub)@.broker.listeners == old(hub)@.broker.listeners.push(
                (id@, old(hub)@.broker.log.len() as int, true),
            ),
    {
        hub.broker.subscribe(id)
    }
}

} // verus!
