use vstd::prelude::*;
use crate::channel::{first_match, BrokerView};
use crate::engine::{keeps, lemma_permutation_unique, lemma_without_unique, without, MutationError};
use crate::model::{has_member, ids_unique, InputMember, MeetingView, Member, ReactionType};
use crate::store::commits;
use crate::server::{saved, HubView};
use crate::transaction::{adds_member, error_of, may_collide, mutated, MeetingError, Mutation};

verus! {

/// A mutation that succeeds on a meeting whose member ids are unique leaves
/// them unique.
pub proof fn lemma_mutation_keeps_ids_unique(mu: Mutation, before: MeetingView, after: MeetingView)
    requires
        before.wf(),
        mutated(mu, before, Ok(after)),
    ensures
        after.wf(),
{
    match mu {
        Mutation::AddMember { name } => {
            let m = choose|m: Member|
                #![trigger before.members.push(m)]
                m.name@ == name@ && m.reaction == crate::model::ReactionType::NONE && !has_member(
                    before.members,
                    m.id@,
                ) && after.members == before.members.push(m);
            assert forall|i: int, j: int|
                0 <= i < after.members.len() && 0 <= j < after.members.len() && i != j implies (
                #[trigger] after.members[i]).id@ != (#[trigger] after.members[j]).id@ by {
                if i == before.members.len() as int {
                    assert(before.members[j] == after.members[j]);
                } else if j == before.members.len() as int {
                    assert(before.members[i] == after.members[i]);
                } else {
                    assert(before.members[i] == after.members[i]);
                    assert(before.members[j] == after.members[j]);
                }
            }
        },
        Mutation::UpdateMember { member } => {
            let i = choose|i: int|
                0 <= i < before.members.len() && (#[trigger] before.members[i]).id@ == member.id@
                    && after.members == before.members.update(
                    i,
                    Member { id: member.id, name: member.name, reaction: member.reaction },
                );
            assert forall|a: int, b: int|
                0 <= a < after.members.len() && 0 <= b < after.members.len() && a != b implies (
                #[trigger] after.members[a]).id@ != (#[trigger] after.members[b]).id@ by {
                assert(after.members[a].id@ == before.members[a].id@);
                assert(after.members[b].id@ == before.members[b].id@);
            }
        },
        Mutation::RemoveMember { member_id } => {
            lemma_without_unique(before.members, member_id@);
        },
        Mutation::UpdateMemo { memo } => {},
        Mutation::ShuffleMembers => {
            lemma_permutation_unique(before.members, after.members);
        },
        Mutation::NewLeader => {},
    }
}

/// One step of a meeting's history: the mutation either committed and gave
/// `next`, or was refused and left the meeting as it was.
pub open spec fn history_step(mu: Mutation, prev: MeetingView, next: MeetingView) -> bool {
    mutated(mu, prev, Ok(next)) || next == prev
}

/// From a freshly created meeting, every meeting that a sequence of
/// mutations produces has unique member ids.
pub proof fn lemma_history_keeps_ids_unique(mus: Seq<Mutation>, states: Seq<MeetingView>)
    requires
        states.len() == mus.len() + 1,
        states[0].members.len() == 0,
        forall|i: int| 0 <= i < mus.len() ==> history_step(#[trigger] mus[i], states[i], states[i + 1]),
    ensures
        forall|i: int| 0 <= i < states.len() ==> (#[trigger] states[i]).wf(),
{
    assert forall|i: int| 0 <= i < states.len() implies (#[trigger] states[i]).wf() by {
        lemma_history_prefix(mus, states, i);
    }
}

proof fn lemma_history_prefix(mus: Seq<Mutation>, states: Seq<MeetingView>, k: int)
    requires
        states.len() == mus.len() + 1,
        states[0].members.len() == 0,
        forall|i: int| 0 <= i < mus.len() ==> history_step(#[trigger] mus[i], states[i], states[i + 1]),
        0 <= k < states.len(),
    ensures
        states[k].wf(),
    decreases k,
{
    if k > 0 {
        lemma_history_prefix(mus, states, k - 1);
        assert(history_step(mus[k - 1], states[k - 1], states[k]));
        if mutated(mus[k - 1], states[k - 1], Ok(states[k])) {
            lemma_mutation_keeps_ids_unique(mus[k - 1], states[k - 1], states[k]);
        }
    }
}

/// Once a member is removed, updating that member is refused as unknown.
pub proof fn lemma_update_after_remove_fails(
    m: MeetingView,
    removed: MeetingView,
    member_id: String,
    member: InputMember,
    r: Result<MeetingView, MutationError>,
)
    requires
        mutated(Mutation::RemoveMember { member_id }, m, Ok(removed)),
        member.id@ == member_id@,
        mutated(Mutation::UpdateMember { member }, removed, r),
    ensures
        r == Err::<MeetingView, MutationError>(MutationError::MemberNotFound),
{
    assert(removed.members == without(m.members, member_id@));
    if r is Ok {
        let i = choose|i: int|
            0 <= i < removed.members.len() && (#[trigger] removed.members[i]).id@ == member.id@
                && r->Ok_0.members == removed.members.update(
                i,
                Member { id: member.id, name: member.name, reaction: member.reaction },
            );
        m.members.lemma_filter_pred(keeps(member_id@), i);
    }
}

/// Two writers read the same version of a meeting and each add a member.
/// After the first commits, the second's write against the old version is
/// refused; re-run on the new value, its write goes through and the meeting
/// then holds both new members.
pub proof fn lemma_concurrent_adds_keep_both(
    s0: Map<Seq<char>, (u64, MeetingView)>,
    key: Seq<char>,
    a: MeetingView,
    name_a: Seq<char>,
    b: MeetingView,
    name_b: Seq<char>,
)
    requires
        s0.contains_key(key),
        s0[key].0 < u64::MAX - 1,
        adds_member(s0[key].1, a, name_a),
        adds_member(a, b, name_b),
    ensures
        commits(s0, key, s0[key].0),
        ({
            let s1 = s0.insert(key, ((s0[key].0 + 1) as u64, a));
            &&& !commits(s1, key, s0[key].0)
            &&& commits(s1, key, s1[key].0)
            &&& ({
                let s2 = s1.insert(key, ((s1[key].0 + 1) as u64, b));
                let kept = s2[key].1.members;
                &&& kept.len() == s0[key].1.members.len() + 2
                &&& exists|x: Member| kept.contains(x) && x.name@ == name_a
                &&& exists|y: Member| kept.contains(y) && y.name@ == name_b
            })
        }),
{
    let before = s0[key].1;
    let ma = choose|m: Member|
        #![trigger before.members.push(m)]
        m.name@ == name_a && m.reaction == crate::model::ReactionType::NONE && !has_member(
            before.members,
            m.id@,
        ) && a.members == before.members.push(m);
    let mb = choose|m: Member|
        #![trigger a.members.push(m)]
        m.name@ == name_b && m.reaction == crate::model::ReactionType::NONE && !has_member(
            a.members,
            m.id@,
        ) && b.members == a.members.push(m);
    let s1 = s0.insert(key, ((s0[key].0 + 1) as u64, a));
    let s2 = s1.insert(key, ((s1[key].0 + 1) as u64, b));
    let kept = s2[key].1.members;
    assert(kept == before.members.push(ma).push(mb));
    assert(kept[before.members.len() as int] == ma);
    assert(kept[before.members.len() + 1int] == mb);
    assert(kept.contains(ma));
    assert(kept.contains(mb));
}

/// A listener that subscribes to `id` receives, on its next read, the
/// first snapshot published for `id` after it subscribed, whatever was
/// published for other meetings in between.
pub proof fn lemma_subscriber_receives(
    b: BrokerView,
    id: Seq<char>,
    others: Seq<(Seq<char>, MeetingView)>,
    snapshot: MeetingView,
)
    requires
        b.wf(),
        forall|k: int| 0 <= k < others.len() ==> (#[trigger] others[k]).0 != id,
    ensures
        ({
            let log = b.log + others.push((id, snapshot));
            let j = first_match(log, id, b.log.len() as int);
            j == log.len() - 1 && log[j].1 == snapshot
        }),
{
    let log = b.log + others.push((id, snapshot));
    lemma_first_match_skips(log, id, b.log.len() as int, others.len() as int);
}

proof fn lemma_first_match_skips(
    log: Seq<(Seq<char>, MeetingView)>,
    id: Seq<char>,
    from: int,
    n: int,
)
    requires
        0 <= from,
        0 <= n,
        from + n < log.len(),
        forall|k: int| from <= k < from + n ==> (#[trigger] log[k]).0 != id,
        log[from + n].0 == id,
    ensures
        first_match(log, id, from) == from + n,
    decreases n,
{
    if n > 0 {
        assert(log[from].0 != id);
        lemma_first_match_skips(log, id, from + 1, n - 1);
    }
}

/// A meeting created under a free id reads back with no members, no leader
/// and an empty memo.
pub proof fn lemma_created_meeting_reads_back_empty(
    s: Map<Seq<char>, (u64, MeetingView)>,
    m: MeetingView,
)
    requires
        !s.contains_key(m.id),
        m.members.len() == 0,
        m.memo.len() == 0,
        m.leader_id is None,
    ensures
        ({
            let s1 = s.insert(m.id, (0u64, m));
            &&& s1.contains_key(m.id)
            &&& s1[m.id].1.members.len() == 0
            &&& s1[m.id].1.memo.len() == 0
            &&& s1[m.id].1.leader_id is None
            &&& ids_unique(s1[m.id].1.members)
        }),
{
}

/// A transactional update of a stored meeting whose version can still grow
/// succeeds, unless the mutation itself refuses: updating a member that is
/// not there, or adding one whose drawn id is taken (possible only when some
/// member's id is as long as a drawn one).
pub proof fn lemma_saved_succeeds(
    before: HubView,
    after: HubView,
    key: Seq<char>,
    mu: Mutation,
    r: Result<MeetingView, MeetingError>,
)
    requires
        saved(before, after, key, mu, r),
        before.store.contains_key(key),
        before.store[key].0 < u64::MAX,
        mu is AddMember ==> !may_collide(before.store[key].1.members),
        mu matches Mutation::UpdateMember { member } ==> has_member(
            before.store[key].1.members,
            member.id@,
        ),
    ensures
        r is Ok,
{
}

/// Through the hub, updating a member right after removing it fails with
/// `MemberNotFound` and changes nothing.
pub proof fn lemma_update_after_remove_through_hub(
    h0: HubView,
    h1: HubView,
    h2: HubView,
    key: Seq<char>,
    member_id: String,
    removed: MeetingView,
    member: InputMember,
    r: Result<MeetingView, MeetingError>,
)
    requires
        saved(h0, h1, key, Mutation::RemoveMember { member_id }, Ok(removed)),
        h0.store[key].0 < u64::MAX - 1,
        member.id@ == member_id@,
        saved(h1, h2, key, Mutation::UpdateMember { member }, r),
    ensures
        r == Err::<MeetingView, MeetingError>(MeetingError::MemberNotFound),
        h2 == h1,
{
    let m = h0.store[key].1;
    assert(h1.store[key] == ((h0.store[key].0 + 1) as u64, removed));
    match r {
        Ok(p) => {
            lemma_update_after_remove_fails(m, removed, member_id, member, Ok(p));
        },
        Err(e) => {
            let me = choose|me: MutationError|
                mutated(Mutation::UpdateMember { member }, removed, Err(me)) && e == error_of(me);
            lemma_update_after_remove_fails(m, removed, member_id, member, Err(me));
        },
    }
}

/// Through the hub, a shuffle of a stored meeting succeeds, keeps the same
/// members with unique ids, and stores the shuffled meeting.
pub proof fn lemma_shuffle_through_hub(
    h0: HubView,
    h1: HubView,
    key: Seq<char>,
    r: Result<MeetingView, MeetingError>,
)
    requires
        h0.store.contains_key(key),
        h0.store[key].0 < u64::MAX,
        saved(h0, h1, key, Mutation::ShuffleMembers, r),
    ensures
        r matches Ok(m) && m.members.to_multiset() == h0.store[key].1.members.to_multiset()
            && m.members.len() == h0.store[key].1.members.len() && m.wf() && h1.store[key].1
            == m,
{
    lemma_saved_succeeds(h0, h1, key, Mutation::ShuffleMembers, r);
}

/// Through the hub, electing a leader in a stored meeting with members
/// succeeds, leaves the members as they were and names one of them.
pub proof fn lemma_new_leader_through_hub(
    h0: HubView,
    h1: HubView,
    key: Seq<char>,
    r: Result<MeetingView, MeetingError>,
)
    requires
        h0.store.contains_key(key),
        h0.store[key].0 < u64::MAX,
        h0.store[key].1.members.len() >= 1,
        saved(h0, h1, key, Mutation::NewLeader, r),
    ensures
        r matches Ok(m) && m.members == h0.store[key].1.members && h1.store[key].1 == m && exists|
            i: int,
        |
            0 <= i < m.members.len() && m.leader_id == Some((#[trigger] m.members[i]).id@),
{
    lemma_saved_succeeds(h0, h1, key, Mutation::NewLeader, r);
}

/// Two additions of members to one stored meeting that both succeed lose
/// neither: the meeting keeps its members in order and ends with one member
/// named `a` and one named `b`, both without reaction.
pub proof fn lemma_two_adds_keep_both(
    h0: HubView,
    h1: HubView,
    h2: HubView,
    key: Seq<char>,
    a: String,
    b: String,
    p1: MeetingView,
    p2: MeetingView,
)
    requires
        saved(h0, h1, key, Mutation::AddMember { name: a }, Ok(p1)),
        saved(h1, h2, key, Mutation::AddMember { name: b }, Ok(p2)),
    ensures
        ({
            let old_members = h0.store[key].1.members;
            let kept = h2.store[key].1.members;
            &&& kept.len() == old_members.len() + 2
            &&& kept.take(old_members.len() as int) == old_members
            &&& kept[old_members.len() as int].name@ == a@
            &&& kept[old_members.len() + 1int].name@ == b@
            &&& kept[old_members.len() as int].reaction == ReactionType::NONE
            &&& kept[old_members.len() + 1int].reaction == ReactionType::NONE
        }),
{
    let before = h0.store[key].1;
    let ma = choose|m: Member|
        #![trigger before.members.push(m)]
        m.name@ == a@ && m.reaction == ReactionType::NONE && !has_member(before.members, m.id@)
            && p1.members == before.members.push(m);
    let mb = choose|m: Member|
        #![trigger p1.members.push(m)]
        m.name@ == b@ && m.reaction == ReactionType::NONE && !has_member(p1.members, m.id@)
            && p2.members == p1.members.push(m);
    let kept = h2.store[key].1.members;
    assert(kept == before.members.push(ma).push(mb));
    assert(kept.take(before.members.len() as int) =~= before.members);
}

/// A client that subscribed to meeting `key` before a memo update receives,
/// on its next read, the committed meeting carrying that memo.
pub proof fn lemma_subscriber_sees_memo(
    h0: HubView,
    h1: HubView,
    h2: HubView,
    key: Seq<char>,
    memo: String,
    r: Result<MeetingView, MeetingError>,
)
    requires
        h0.broker.wf(),
        h0.store.contains_key(key),
        h0.store[key].0 < u64::MAX,
        h1.store == h0.store,
        h1.broker.log == h0.broker.log,
        h1.broker.listeners == h0.broker.listeners.push((key, h0.broker.log.len() as int, true)),
        saved(h1, h2, key, Mutation::UpdateMemo { memo }, r),
    ensures
        r matches Ok(p) && p.memo == memo@ && ({
            let (id, cursor, open) = h2.broker.listeners[h0.broker.listeners.len() as int];
            let j = first_match(h2.broker.log, id, cursor);
            open && id == key && j < h2.broker.log.len() && h2.broker.log[j].1 == p
        }),
{
    lemma_saved_succeeds(h1, h2, key, Mutation::UpdateMemo { memo }, r);
    let p = r->Ok_0;
    let log = h2.broker.log;
    assert(log == h0.broker.log.push((key, p)));
    lemma_first_match_skips(log, key, h0.broker.log.len() as int, 0);
}

/// The ids of `members`, in order.
pub open spec fn ids_of(members: Seq<Member>) -> Seq<Seq<char>> {
    members.map_values(|m: Member| m.id@)
}

proof fn lemma_map_keeps_multiset(a: Seq<Member>, b: Seq<Member>)
    requires
        a.to_multiset() == b.to_multiset(),
    ensures
        ids_of(a).to_multiset() == ids_of(b).to_multiset(),
    decreases a.len(),
{
    broadcast use vstd::multiset::group_multiset_axioms;

    a.to_multiset_ensures();
    b.to_multiset_ensures();
    assert(a.to_multiset().len() == b.to_multiset().len());
    if a.len() == 0 {
        assert(ids_of(a) =~= ids_of(b));
    } else {
        let x = a.last();
        let rest_a = a.drop_last();
        assert(rest_a.push(x) =~= a);
        rest_a.to_multiset_ensures();
        assert(a.contains(x)) by {
            assert(a[a.len() - 1] == x);
        }
        vstd::seq_lib::to_multiset_contains(a, x);
        vstd::seq_lib::to_multiset_contains(b, x);
        let j = choose|j: int| 0 <= j < b.len() && b[j] == x;
        let rest_b = b.remove(j);
        assert(rest_a.to_multiset() =~= rest_b.to_multiset()) by {
            assert(rest_b.to_multiset() =~= b.to_multiset().remove(x));
            assert(a.to_multiset() =~= rest_a.to_multiset().insert(x));
        }
        lemma_map_keeps_multiset(rest_a, rest_b);
        let fx = x.id@;
        let ib = ids_of(b);
        assert(ids_of(a) =~= ids_of(rest_a).push(fx));
        assert(ids_of(rest_b) =~= ib.remove(j));
        ids_of(rest_a).to_multiset_ensures();
        ib.to_multiset_ensures();
        assert(ib[j] == fx);
        assert(ib.contains(fx));
        vstd::seq_lib::to_multiset_contains(ib, fx);
        assert(ids_of(rest_b).to_multiset() =~= ib.to_multiset().remove(fx));
        assert(ids_of(a).to_multiset() =~= ids_of(rest_a).to_multiset().insert(fx));
        assert(ids_of(a).to_multiset() =~= ib.to_multiset());
    }
}

/// A shuffle keeps the multiset of member ids, and the ids stay distinct.
pub proof fn lemma_shuffle_keeps_ids(before: MeetingView, after: MeetingView)
    requires
        before.wf(),
        mutated(Mutation::ShuffleMembers, before, Ok(after)),
    ensures
        ids_of(after.members).to_multiset() == ids_of(before.members).to_multiset(),
        after.wf(),
{
    lemma_map_keeps_multiset(after.members, before.members);
    lemma_mutation_keeps_ids_unique(Mutation::ShuffleMembers, before, after);
}

} // verus!
