use vstd::prelude::*;

verus! {

/// A member's current reaction: an emoji or a numeric vote.
#[derive(Debug, Clone, Copy, PartialEq, Eq, Structural)]
#[allow(non_camel_case_types)]
pub enum ReactionType {
    NONE,
    THUMBSUP,
    THUMBSDOWN,
    SMILE,
    CLAP,
    I,
    II,
    III,
    IV,
    V,
    VI,
    VII,
    VIII,
    IX,
    X,
}

/// A participant of a meeting; `id` is unique within its meeting.
#[derive(Debug)]
pub struct Member {
    pub id: String,
    pub name: String,
    pub reaction: ReactionType,
}

impl Clone for Member {
    fn clone(&self) -> (r: Self)
        ensures
            r == *self,
    {
        Member { id: self.id.clone(), name: self.name.clone(), reaction: self.reaction }
    }
}

/// The new name and reaction of the member whose id is `id`.
#[derive(Debug)]
pub struct InputMember {
    pub id: String,
    pub name: String,
    pub reaction: ReactionType,
}

/// The aggregate: the speaking order, the leader token and the shared memo.
#[derive(Debug)]
pub struct Meeting {
    pub id: String,
    pub leader_id: Option<String>,
    pub members: Vec<Member>,
    pub memo: String,
}

impl Clone for Meeting {
    fn clone(&self) -> (r: Self)
        ensures
            r.id == self.id,
            r.leader_id == self.leader_id,
            r.members@ == self.members@,
            r.memo == self.memo,
    {
        let leader_id = match &self.leader_id {
            Some(l) => Some(l.clone()),
            None => None,
        };
        let members = self.members.clone();
        proof {
            assert(members@ =~= self.members@);
        }
        Meeting { id: self.id.clone(), leader_id, members, memo: self.memo.clone() }
    }
}

/// What a meeting holds, with its strings as character sequences.
pub struct MeetingView {
    pub id: Seq<char>,
    pub leader_id: Option<Seq<char>>,
    pub members: Seq<Member>,
    pub memo: Seq<char>,
}

/// The characters of an optional string.
pub open spec fn opt_view(s: Option<String>) -> Option<Seq<char>> {
    match s {
        Some(x) => Some(x@),
        None => None,
    }
}

impl View for Meeting {
    type V = MeetingView;

    open spec fn view(&self) -> MeetingView {
        MeetingView {
            id: self.id@,
            leader_id: opt_view(self.leader_id),
            members: self.members@,
            memo: self.memo@,
        }
    }
}

impl MeetingView {
    /// Member ids are unique.
    pub open spec fn wf(self) -> bool {
        ids_unique(self.members)
    }
}

/// No two members of `members` share an id.
pub open spec fn ids_unique(members: Seq<Member>) -> bool {
    forall|i: int, j: int|
        0 <= i < members.len() && 0 <= j < members.len() && i != j ==> (#[trigger] members[i]).id@
            != (#[trigger] members[j]).id@
}

/// Some member of `members` has the id `id`.
pub open spec fn has_member(members: Seq<Member>, id: Seq<char>) -> bool {
    exists|i: int| 0 <= i < members.len() && (#[trigger] members[i]).id@ == id
}

impl Meeting {
    /// The invariant of every stored meeting: member ids are unique.
    pub open spec fn wf(&self) -> bool {
        ids_unique(self.members@)
    }

    /// A fresh meeting: no members, no leader, an empty memo.
    pub fn new(id: String) -> (r: Meeting)
        ensures
            r.id == id,
            r.leader_id is None,
            r.members@.len() == 0,
            r.memo@.len() == 0,
            r.wf(),
    {
        Meeting { id, leader_id: None, members: Vec::new(), memo: String::new() }
    }

    /// The member that `leader_id` designates, if it still takes part.
    pub fn leader(&self) -> (r: Option<&Member>)
        ensures
            match self.leader_id {
                None => r is None,
                Some(l) => match r {
                    None => !has_member(self.members@, l@),
                    Some(m) => m.id@ == l@ && self.members@.contains(*m),
                },
            },
    {
        match &self.leader_id {
            None => None,
            Some(l) => match position_of(&self.members, l) {
                Some(i) => Some(&self.members[i]),
                None => None,
            },
        }
    }
}

/// Index of the first member whose id is `id`.
pub fn position_of(members: &Vec<Member>, id: &String) -> (r: Option<usize>)
    ensures
        match r {
            None => !has_member(members@, id@),
            Some(i) => i < members@.len() && members@[i as int].id@ == id@ && forall|k: int|
                0 <= k < i ==> (#[trigger] members@[k]).id@ != id@,
        },
{
    let mut i: usize = 0;
    while i < members.len()
        invariant
            i <= members@.len(),
            forall|k: int| 0 <= k < i ==> (#[trigger] members@[k]).id@ != id@,
        decreases members@.len() - i,
    {
        if members[i].id == *id {
            return Some(i);
        }
        i = i + 1;
    }
    None
}

} // verus!
