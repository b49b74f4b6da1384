use vstd::prelude::*;
use crate::model::{has_member, ids_unique, position_of, InputMember, Meeting, Member, ReactionType};

verus! {

/// Why a mutation was refused; the stored meeting is then left as it was.
#[derive(Debug, Clone, Copy, PartialEq, Eq, Structural)]
pub enum MutationError {
    /// No member has the id that the mutation names.
    MemberNotFound,
    /// The id drawn for a new member is already taken.
    DuplicateMemberId,
}

/// Relies on `rand::seq::SliceRandom::shuffle` with `rand::thread_rng`: the
/// slice is permuted in place, so the same members remain.
#[verifier::external_body]
fn shuffle_in_place(members: &mut Vec<Member>)
    ensures
        final(members)@.to_multiset() == old(members)@.to_multiset(),
{
    rand::seq::SliceRandom::shuffle(members.as_mut_slice(), &mut rand::thread_rng());
}

/// Removing the members whose id is `id` keeps the others in order.
pub open spec fn without(members: Seq<Member>, id: Seq<char>) -> Seq<Member> {
    members.filter(keeps(id))
}

/// The members that removing `id` keeps.
pub open spec fn keeps(id: Seq<char>) -> spec_fn(Member) -> bool {
    |x: Member| x.id@ != id
}

/// `r` is `m` with only its members changed.
pub open spec fn same_but_members(r: Meeting, m: Meeting) -> bool {
    r.id == m.id && r.leader_id == m.leader_id && r.memo == m.memo
}

/// Appends a member with the id `member_id`, the name `name` and no reaction.
pub fn add_member(meeting: Meeting, member_id: String, name: String) -> (r: Result<
    Meeting,
    MutationError,
>)
    ensures
        has_member(meeting.members@, member_id@) <==> r is Err,
        r is Err ==> r == Err::<Meeting, MutationError>(MutationError::DuplicateMemberId),
        r matches Ok(n) ==> same_but_members(n, meeting) && n.members@ == meeting.members@.push(
            Member { id: member_id, name, reaction: ReactionType::NONE },
        ),
        r matches Ok(n) ==> (meeting.wf() ==> n.wf()),
{
    if let Some(_) = position_of(&meeting.members, &member_id) {
        return Err(MutationError::DuplicateMemberId);
    }
    let mut n = meeting;
    let ghost before = n.members@;
    n.members.push(Member { id: member_id, name, reaction: ReactionType::NONE });
    proof {
        assert forall|i: int| 0 <= i < before.len() implies (#[trigger] before[i]).id@
            != member_id@ by {
            if before[i].id@ == member_id@ {
                assert(has_member(before, member_id@));
            }
        }
    }
    Ok(n)
}

/// Replaces the name and reaction of the member whose id is `input.id`, in place.
pub fn update_member(meeting: Meeting, input: InputMember) -> (r: Result<
    Meeting,
    MutationError,
>)
    ensures
        !has_member(meeting.members@, input.id@) <==> r is Err,
        r is Err ==> r == Err::<Meeting, MutationError>(MutationError::MemberNotFound),
        r matches Ok(n) ==> same_but_members(n, meeting) && exists|i: int|
            0 <= i < meeting.members@.len() && (#[trigger] meeting.members@[i]).id@ == input.id@
                && n.members@ == meeting.members@.update(
                i,
                Member { id: input.id, name: input.name, reaction: input.reaction },
            ),
        r matches Ok(n) ==> (meeting.wf() ==> n.wf()),
{
    match position_of(&meeting.members, &input.id) {
        None => Err(MutationError::MemberNotFound),
        Some(i) => {
            let mut n = meeting;
            let ghost before = n.members@;
            n.members.set(i, Member { id: input.id, name: input.name, reaction: input.reaction });
            proof {
                assert(before[i as int].id@ == input.id@);
            }
            Ok(n)
        },
    }
}

pub(crate) proof fn lemma_without_unique(members: Seq<Member>, id: Seq<char>)
    requires
        ids_unique(members),
    ensures
        ids_unique(without(members, id)),
    decreases members.len(),
{
    if members.len() > 0 {
        let rest = members.drop_last();
        let last = members.last();
        assert(rest.push(last) =~= members);
        rest.lemma_filter_push(last, keeps(id));
        lemma_without_unique(rest, id);
        let kept = without(rest, id);
        if last.id@ != id {
            assert forall|a: int| 0 <= a < kept.len() implies (#[trigger] kept[a]).id@
                != last.id@ by {
                assert(kept.contains(kept[a]));
                rest.lemma_filter_contains_rev(keeps(id), kept[a]);
                let k = choose|k: int| 0 <= k < rest.len() && rest[k] == kept[a];
                assert(members[k] == rest[k]);
            }
            assert(without(members, id) == kept.push(last));
        }
    }
}

/// Removes every member whose id is `member_id`; the others keep their order.
pub fn remove_member(meeting: Meeting, member_id: &String) -> (r: Meeting)
    ensures
        same_but_members(r, meeting),
        r.members@ == without(meeting.members@, member_id@),
        !has_member(r.members@, member_id@),
        meeting.wf() ==> r.wf(),
{
    let mut kept: Vec<Member> = Vec::new();
    let mut i: usize = 0;
    let ghost all = meeting.members@;
    while i < meeting.members.len()
        invariant
            i <= all.len(),
            all == meeting.members@,
            kept@ == without(all.subrange(0, i as int), member_id@),
        decreases all.len() - i,
    {
        let ghost prefix = all.subrange(0, i as int);
        proof {
            assert(all.subrange(0, i + 1) =~= prefix.push(all[i as int]));
            prefix.lemma_filter_push(all[i as int], keeps(member_id@));
        }
        if meeting.members[i].id != *member_id {
            kept.push(meeting.members[i].clone());
        }
        i = i + 1;
    }
    proof {
        assert(all.subrange(0, all.len() as int) =~= all);
        broadcast use vstd::seq_lib::group_filter_ensures;

        if has_member(kept@, member_id@) {
            let k = choose|k: int| 0 <= k < kept@.len() && (#[trigger] kept@[k]).id@ == member_id@;
            assert(keeps(member_id@)(kept@[k]));
        }
        if meeting.wf() {
            lemma_without_unique(all, member_id@);
        }
    }
    Meeting { id: meeting.id, leader_id: meeting.leader_id, members: kept, memo: meeting.memo }
}

/// Replaces the shared memo verbatim.
pub fn update_memo(meeting: Meeting, memo: String) -> (r: Meeting)
    ensures
        r.id == meeting.id,
        r.leader_id == meeting.leader_id,
        r.members@ == meeting.members@,
        r.memo == memo,
        meeting.wf() ==> r.wf(),
{
    let mut n = meeting;
    n.memo = memo;
    n
}

proof fn lemma_same_elements(a: Seq<Member>, b: Seq<Member>)
    requires
        a.to_multiset() == b.to_multiset(),
    ensures
        forall|x: Member| a.contains(x) <==> b.contains(x),
        a.len() == b.len(),
{
    a.to_multiset_ensures();
    b.to_multiset_ensures();
    assert forall|x: Member| a.contains(x) <==> b.contains(x) by {
        vstd::seq_lib::to_multiset_contains(a, x);
        vstd::seq_lib::to_multiset_contains(b, x);
    }
    assert(a.to_multiset().len() == b.to_multiset().len());
}

pub(crate) proof fn lemma_permutation_unique(before: Seq<Member>, after: Seq<Member>)
    requires
        ids_unique(before),
        after.to_multiset() == before.to_multiset(),
    ensures
        ids_unique(after),
        forall|x: Member| after.contains(x) <==> before.contains(x),
{
    broadcast use vstd::seq_lib::group_to_multiset_ensures;

    assert(before.no_duplicates());
    lemma_same_elements(after, before);
    before.lemma_multiset_has_no_duplicates();
    after.lemma_multiset_has_no_duplicates_conv();
    assert forall|i: int, j: int|
        0 <= i < after.len() && 0 <= j < after.len() && i != j implies (#[trigger] after[i]).id@
        != (#[trigger] after[j]).id@ by {
        assert(after.contains(after[i]));
        assert(after.contains(after[j]));
        assert(before.contains(after[i]));
        assert(before.contains(after[j]));
        let p = choose|p: int| 0 <= p < before.len() && before[p] == after[i];
        let q = choose|q: int| 0 <= q < before.len() && before[q] == after[j];
        assert(after[i] != after[j]);
    }
}

/// Puts the members in a random order; the same members remain.
pub fn shuffle_members(meeting: Meeting) -> (r: Meeting)
    ensures
        same_but_members(r, meeting),
        r.members@.to_multiset() == meeting.members@.to_multiset(),
        r.members@.len() == meeting.members@.len(),
        meeting.wf() ==> r.wf(),
{
    let mut n = meeting;
    shuffle_in_place(&mut n.members);
    proof {
        broadcast use vstd::seq_lib::group_to_multiset_ensures;

        lemma_same_elements(n.members@, meeting.members@);
        if meeting.wf() {
            lemma_permutation_unique(meeting.members@, n.members@);
        }
    }
    n
}

/// Hands the leader token to a member picked at random; with no members the
/// token stays where it was.
pub fn new_leader(meeting: Meeting) -> (r: Meeting)
    ensures
        r.id == meeting.id,
        r.members@ == meeting.members@,
        r.memo == meeting.memo,
        meeting.members@.len() == 0 ==> r.leader_id == meeting.leader_id,
        meeting.members@.len() > 0 ==> exists|i: int|
            0 <= i < meeting.members@.len() && r.leader_id == Some(
                (#[trigger] meeting.members@[i]).id,
            ),
        meeting.wf() ==> r.wf(),
{
    let mut n = meeting;
    let mut order = n.members.clone();
    proof {
        assert(order@ =~= n.members@);
    }
    shuffle_in_place(&mut order);
    if order.len() > 0 {
        proof {
            lemma_same_elements(order@, meeting.members@);
            assert(order@.contains(order@[0]));
            assert(meeting.members@.contains(order@[0]));
        }
        n.leader_id = Some(order[0].id.clone());
    } else {
        proof {
            lemma_same_elements(order@, meeting.members@);
        }
    }
    n
}

} // verus!
