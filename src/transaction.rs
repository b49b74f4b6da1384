use vstd::prelude::*;
use crate::engine::{
    add_member, new_leader, remove_member, shuffle_members, update_member, update_memo, without,
    MutationError,
};
use crate::model::{has_member, InputMember, Meeting, MeetingView, Member, ReactionType};

verus! {

/// The failures that reach a caller of the meeting operations.
#[derive(Debug, Clone, Copy, PartialEq, Eq, Structural)]
pub enum MeetingError {
    /// No meeting is stored under the id.
    NotFound,
    /// The stored value is not a meeting.
    Corrupt,
    /// No member has the id that the mutation names.
    MemberNotFound,
    /// The id drawn for a new member is already taken.
    DuplicateMemberId,
    /// Concurrent writers kept winning until the retry budget ran out.
    Conflict,
    /// The store could not be reached.
    Unavailable,
}

/// The message shown for each error.
pub open spec fn message_of(e: MeetingError) -> Seq<char> {
    match e {
        MeetingError::NotFound => "Invalid meeting id"@,
        MeetingError::Corrupt => "Meeting object is broken"@,
        MeetingError::MemberNotFound => "Invalid member id"@,
        MeetingError::DuplicateMemberId => "Member id is already taken"@,
        MeetingError::Conflict => "Too many concurrent updates"@,
        MeetingError::Unavailable => "Failed to connect storage"@,
    }
}

impl MeetingError {
    /// A message for the person who issued the command.
    pub fn message(&self) -> (r: String)
        ensures
            r@ == message_of(*self),
    {
        let s: &str = match self {
            MeetingError::NotFound => "Invalid meeting id",
            MeetingError::Corrupt => "Meeting object is broken",
            MeetingError::MemberNotFound => "Invalid member id",
            MeetingError::DuplicateMemberId => "Member id is already taken",
            MeetingError::Conflict => "Too many concurrent updates",
            MeetingError::Unavailable => "Failed to connect storage",
        };
        s.to_owned()
    }
}

/// The error a refused mutation surfaces as.
pub open spec fn error_of(e: MutationError) -> MeetingError {
    match e {
        MutationError::MemberNotFound => MeetingError::MemberNotFound,
        MutationError::DuplicateMemberId => MeetingError::DuplicateMemberId,
    }
}

pub fn from_mutation_error(e: MutationError) -> (r: MeetingError)
    ensures
        r == error_of(e),
{
    match e {
        MutationError::MemberNotFound => MeetingError::MemberNotFound,
        MutationError::DuplicateMemberId => MeetingError::DuplicateMemberId,
    }
}

/// A change that a client asks for.
#[derive(Debug)]
pub enum Mutation {
    AddMember { name: String },
    UpdateMember { member: InputMember },
    RemoveMember { member_id: String },
    UpdateMemo { memo: String },
    ShuffleMembers,
    NewLeader,
}

/// Relies on `uuid::Uuid::new_v4` and its hyphenated `Display`: a random
/// identifier written as 36 characters.
#[verifier::external_body]
pub(crate) fn new_id() -> (r: String)
    ensures
        r@.len() == 36,
{
    uuid::Uuid::new_v4().to_string()
}

/// `after` is `before` with one more member, named `name`, with no
/// reaction and an id that no member of `before` had.
pub open spec fn adds_member(before: MeetingView, after: MeetingView, name: Seq<char>) -> bool {
    &&& after.id == before.id
    &&& after.leader_id == before.leader_id
    &&& after.memo == before.memo
    &&& exists|m: Member|
        #![trigger before.members.push(m)]
        m.name@ == name && m.reaction == ReactionType::NONE && !has_member(before.members, m.id@)
            && after.members == before.members.push(m)
}

/// Some member's id is as long as a drawn id, so a drawn id could equal it.
pub open spec fn may_collide(members: Seq<Member>) -> bool {
    exists|i: int| 0 <= i < members.len() && (#[trigger] members[i]).id@.len() == 36
}

/// What applying `mu` to `before` may give.
pub open spec fn mutated(
    mu: Mutation,
    before: MeetingView,
    r: Result<MeetingView, MutationError>,
) -> bool {
    match mu {
        Mutation::AddMember { name } => match r {
            Ok(after) => adds_member(before, after, name@),
            Err(e) => e == MutationError::DuplicateMemberId && may_collide(before.members),
        },
        Mutation::UpdateMember { member } => match r {
            Ok(after) => {
                &&& after.id == before.id
                &&& after.leader_id == before.leader_id
                &&& after.memo == before.memo
                &&& exists|i: int|
                    0 <= i < before.members.len() && (#[trigger] before.members[i]).id@
                        == member.id@ && after.members == before.members.update(
                        i,
                        Member { id: member.id, name: member.name, reaction: member.reaction },
                    )
            },
            Err(e) => e == MutationError::MemberNotFound && !has_member(
                before.members,
                member.id@,
            ),
        },
        Mutation::RemoveMember { member_id } => r == Ok::<MeetingView, MutationError>(
            MeetingView {
                id: before.id,
                leader_id: before.leader_id,
                members: without(before.members, member_id@),
                memo: before.memo,
            },
        ),
        Mutation::UpdateMemo { memo } => r == Ok::<MeetingView, MutationError>(
            MeetingView {
                id: before.id,
                leader_id: before.leader_id,
                members: before.members,
                memo: memo@,
            },
        ),
        Mutation::ShuffleMembers => match r {
            Ok(after) => {
                &&& after.id == before.id
                &&& after.leader_id == before.leader_id
                &&& after.memo == before.memo
                &&& after.members.to_multiset() == before.members.to_multiset()
                &&& after.members.len() == before.members.len()
            },
            Err(_) => false,
        },
        Mutation::NewLeader => match r {
            Ok(after) => {
                &&& after.id == before.id
                &&& after.members == before.members
                &&& after.memo == before.memo
                &&& before.members.len() == 0 ==> after.leader_id == before.leader_id
                &&& before.members.len() > 0 ==> exists|i: int|
                    0 <= i < before.members.len() && after.leader_id == Some(
                        (#[trigger] before.members[i]).id@,
                    )
            },
            Err(_) => false,
        },
    }
}

/// The view of a mutation's result.
pub open spec fn result_view(r: Result<Meeting, MutationError>) -> Result<
    MeetingView,
    MutationError,
> {
    match r {
        Ok(m) => Ok(m@),
        Err(e) => Err(e),
    }
}

/// Applies `mutation` to `meeting`; a new member gets a freshly drawn id.
pub fn apply_mutation(mutation: &Mutation, meeting: Meeting) -> (r: Result<Meeting, MutationError>)
    ensures
        mutated(*mutation, meeting@, result_view(r)),
        r matches Ok(n) ==> (meeting@.wf() ==> n@.wf()),
        (r is Err) ==> (mutation is AddMember || mutation is UpdateMember),
{
    match mutation {
        Mutation::AddMember { name } => {
            let id = new_id();
            let r = add_member(meeting, id, name.clone());
            proof {
                if r is Ok {
                    let m = Member { id, name: *name, reaction: ReactionType::NONE };
                    assert(r->Ok_0@.members == meeting@.members.push(m));
                } else {
                    let i = choose|i: int|
                        0 <= i < meeting.members@.len() && (#[trigger] meeting.members@[i]).id@
                            == id@;
                    assert(meeting.members@[i].id@.len() == 36);
                }
            }
            r
        },
        Mutation::UpdateMember { member } => {
            let input = InputMember {
                id: member.id.clone(),
                name: member.name.clone(),
                reaction: member.reaction,
            };
            update_member(meeting, input)
        },
        Mutation::RemoveMember { member_id } => Ok(remove_member(meeting, member_id)),
        Mutation::UpdateMemo { memo } => Ok(update_memo(meeting, memo.clone())),
        Mutation::ShuffleMembers => Ok(shuffle_members(meeting)),
        Mutation::NewLeader => Ok(new_leader(meeting)),
    }
}

/// What the watched read of a meeting's key gave.
#[derive(Debug)]
pub enum ReadOutcome {
    Found(Meeting),
    Missing,
    Unreadable,
    StoreDown,
}

/// What the conditional write of the new value gave.
#[derive(Debug, Clone, Copy, PartialEq, Eq, Structural)]
pub enum WriteOutcome {
    /// No other writer touched the key since the read; the value is stored.
    Committed,
    /// Another writer committed first; nothing was written.
    Collided,
    StoreDown,
}

/// What the driver of a transaction does next.
#[derive(Debug)]
pub enum TxAction {
    /// Write this value, on condition that the key is unchanged since the read.
    Write(Meeting),
    /// The value is committed: publish it to the meeting's subscribers and return it.
    Publish(Meeting),
    /// Read the key again and start over.
    Retry,
    /// Give up with this error; nothing was written.
    Fail(MeetingError),
}

/// An optimistic read-modify-write of one meeting, with a bounded number of
/// retries after losing to a concurrent writer.
pub struct Transaction {
    pub retries_left: u32,
}

/// The action that follows reading `read` for `mu`.
pub open spec fn read_step(mu: Mutation, read: ReadOutcome, act: TxAction) -> bool {
    match read {
        ReadOutcome::Found(m) => match act {
            TxAction::Write(n) => mutated(mu, m@, Ok(n@)) && (m@.wf() ==> n@.wf()),
            TxAction::Fail(e) => exists|me: MutationError|
                mutated(mu, m@, Err(me)) && e == error_of(me),
            _ => false,
        },
        ReadOutcome::Missing => act == TxAction::Fail(MeetingError::NotFound),
        ReadOutcome::Unreadable => act == TxAction::Fail(MeetingError::Corrupt),
        ReadOutcome::StoreDown => act == TxAction::Fail(MeetingError::Unavailable),
    }
}

impl Transaction {
    pub fn new(retries: u32) -> (r: Transaction)
        ensures
            r.retries_left == retries,
    {
        Transaction { retries_left: retries }
    }

    /// Decides what to write, or why to stop, from what the read gave.
    pub fn after_read(&self, read: ReadOutcome, mutation: &Mutation) -> (r: TxAction)
        ensures
            read_step(*mutation, read, r),
    {
        match read {
            ReadOutcome::Found(m) => match apply_mutation(mutation, m) {
                Ok(n) => TxAction::Write(n),
                Err(e) => TxAction::Fail(from_mutation_error(e)),
            },
            ReadOutcome::Missing => TxAction::Fail(MeetingError::NotFound),
            ReadOutcome::Unreadable => TxAction::Fail(MeetingError::Corrupt),
            ReadOutcome::StoreDown => TxAction::Fail(MeetingError::Unavailable),
        }
    }

    /// Decides what follows the conditional write of `written`.
    pub fn after_write(&mut self, write: WriteOutcome, written: Meeting) -> (r: TxAction)
        ensures
            write == WriteOutcome::Committed ==> (r matches TxAction::Publish(p) && p@ == written@),
            write == WriteOutcome::Committed ==> final(self).retries_left == old(
                self,
            ).retries_left,
            write == WriteOutcome::Collided && old(self).retries_left > 0 ==> r == TxAction::Retry
                && final(self).retries_left == old(self).retries_left - 1,
            write == WriteOutcome::Collided && old(self).retries_left == 0 ==> r == TxAction::Fail(
                MeetingError::Conflict,
            ) && final(self).retries_left == 0,
            write == WriteOutcome::StoreDown ==> r == TxAction::Fail(MeetingError::Unavailable)
                && final(self).retries_left == old(self).retries_left,
    {
        match write {
            WriteOutcome::Committed => TxAction::Publish(written),
            WriteOutcome::Collided => {
                if self.retries_left > 0 {
                    self.retries_left = self.retries_left - 1;
                    TxAction::Retry
                } else {
                    TxAction::Fail(MeetingError::Conflict)
                }
            },
            WriteOutcome::StoreDown => TxAction::Fail(MeetingError::Unavailable),
        }
    }
}

} // verus!
