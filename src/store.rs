use vstd::prelude::*;
use crate::model::{Meeting, MeetingView};
use crate::transaction::{MeetingError, WriteOutcome};

verus! {

/// One stored meeting under its key, with the number of writes it has seen.
struct Entry {
    key: String,
    version: u64,
    meeting: Meeting,
}

/// A versioned key-value store of meetings. Every write bumps the key's
/// version, so a write made against a version that has since changed is
/// detected and refused.
pub struct MemoryStore {
    entries: Vec<Entry>,
    contents: Ghost<Map<Seq<char>, (u64, MeetingView)>>,
}

/// A conditional write of a key read at version `expected` goes through.
pub open spec fn commits(s: Map<Seq<char>, (u64, MeetingView)>, key: Seq<char>, expected: u64) -> bool {
    s.contains_key(key) && s[key].0 == expected && expected < u64::MAX
}

impl View for MemoryStore {
    type V = Map<Seq<char>, (u64, MeetingView)>;

    closed spec fn view(&self) -> Map<Seq<char>, (u64, MeetingView)> {
        self.contents@
    }
}

impl MemoryStore {
    /// Entries and contents agree, keys are unique, and every stored meeting
    /// has unique member ids.
    pub closed spec fn wf(&self) -> bool {
        let es = self.entries@;
        let c = self.contents@;
        &&& forall|i: int|
            0 <= i < es.len() ==> c.contains_key((#[trigger] es[i]).key@) && c[es[i].key@] == (
                es[i].version,
                es[i].meeting@,
            )
        &&& forall|k: Seq<char>|
            c.contains_key(k) ==> exists|i: int| 0 <= i < es.len() && (#[trigger] es[i]).key@ == k
        &&& forall|i: int, j: int|
            0 <= i < es.len() && 0 <= j < es.len() && i != j ==> (#[trigger] es[i]).key@ != (
            #[trigger] es[j]).key@
        &&& forall|k: Seq<char>| c.contains_key(k) ==> (#[trigger] c[k]).1.wf()
    }

    /// Every stored meeting has unique member ids.
    pub proof fn lemma_stored_wf(&self, key: Seq<char>)
        requires
            self.wf(),
            self@.contains_key(key),
        ensures
            self@[key].1.wf(),
    {
    }

    pub fn new() -> (r: MemoryStore)
        ensures
            r.wf(),
            r@ == Map::<Seq<char>, (u64, MeetingView)>::empty(),
    {
        MemoryStore { entries: Vec::new(), contents: Ghost(Map::empty()) }
    }

    fn find(&self, key: &String) -> (r: Option<usize>)
        requires
            self.wf(),
        ensures
            match r {
                None => !self@.contains_key(key@),
                Some(i) => i < self.entries@.len() && self.entries@[i as int].key@ == key@,
            },
    {
        let mut i: usize = 0;
        while i < self.entries.len()
            invariant
                self.wf(),
                i <= self.entries@.len(),
                forall|k: int| 0 <= k < i ==> (#[trigger] self.entries@[k]).key@ != key@,
            decreases self.entries@.len() - i,
        {
            if self.entries[i].key == *key {
                return Some(i);
            }
            i = i + 1;
        }
        None
    }

    /// The version and value stored under `key`.
    pub fn read(&self, key: &String) -> (r: Option<(u64, Meeting)>)
        requires
            self.wf(),
        ensures
            match r {
                None => !self@.contains_key(key@),
                Some((v, m)) => self@.contains_key(key@) && self@[key@] == (v, m@),
            },
    {
        match self.find(key) {
            None => None,
            Some(i) => Some((self.entries[i].version, self.entries[i].meeting.clone())),
        }
    }

    /// The meeting stored under `key`.
    pub fn get(&self, key: &String) -> (r: Result<Meeting, MeetingError>)
        requires
            self.wf(),
        ensures
            !self@.contains_key(key@) <==> r is Err,
            r is Err ==> r == Err::<Meeting, MeetingError>(MeetingError::NotFound),
            r matches Ok(m) ==> m@ == self@[key@].1,
    {
        match self.read(key) {
            None => Err(MeetingError::NotFound),
            Some((_, m)) => Ok(m),
        }
    }

    /// Stores a brand-new meeting under its own id, at version 0; an id that
    /// is already taken leaves the store as it was.
    pub fn create(&mut self, meeting: Meeting) -> (r: bool)
        requires
            old(self).wf(),
            meeting@.wf(),
        ensures
            final(self).wf(),
            r == !old(self)@.contains_key(meeting.id@),
            r ==> final(self)@ == old(self)@.insert(meeting.id@, (0u64, meeting@)),
            !r ==> final(self)@ == old(self)@,
    {
        if let Some(_) = self.find(&meeting.id) {
            return false;
        }
        let ghost key = meeting.id@;
        let ghost val = (0u64, meeting@);
        let ghost before = self.entries@;
        self.entries.push(Entry { key: meeting.id.clone(), version: 0, meeting });
        self.contents = Ghost(self.contents@.insert(key, val));
        proof {
            let es = self.entries@;
            assert forall|i: int| 0 <= i < before.len() implies (#[trigger] es[i]).key@ != key by {
                assert(es[i] == before[i]);
            }
            assert forall|k: Seq<char>| self.contents@.contains_key(k) implies exists|i: int|
                0 <= i < es.len() && (#[trigger] es[i]).key@ == k by {
                if k == key {
                    assert(es[es.len() - 1].key@ == k);
                } else {
                    let i = choose|i: int| 0 <= i < before.len() && (#[trigger] before[i]).key@ == k;
                    assert(es[i] == before[i]);
                }
            }
        }
        true
    }

    /// Writes `meeting` under `key` only if the key is still at version
    /// `expected`; the write then bumps the version.
    pub fn compare_and_set(&mut self, key: &String, expected: u64, meeting: Meeting) -> (r:
        WriteOutcome)
        requires
            old(self).wf(),
            meeting@.wf(),
        ensures
            final(self).wf(),
            commits(old(self)@, key@, expected) ==> r == WriteOutcome::Committed && final(self)@
                == old(self)@.insert(key@, ((expected + 1) as u64, meeting@)),
            !commits(old(self)@, key@, expected) ==> r == WriteOutcome::Collided && final(self)@
                == old(self)@,
    {
        match self.find(key) {
            None => WriteOutcome::Collided,
            Some(i) => {
                if self.entries[i].version != expected || expected == u64::MAX {
                    return WriteOutcome::Collided;
                }
                let ghost val = ((expected + 1) as u64, meeting@);
                let ghost before = self.entries@;
                let entry = Entry { key: key.clone(), version: expected + 1, meeting };
                self.entries.set(i, entry);
                self.contents = Ghost(self.contents@.insert(key@, val));
                proof {
                    let es = self.entries@;
                    assert forall|k: Seq<char>| self.contents@.contains_key(k) implies exists|j: int|
                        0 <= j < es.len() && (#[trigger] es[j]).key@ == k by {
                        if k == key@ {
                            assert(es[i as int].key@ == k);
                        } else {
                            let j = choose|j: int|
                                0 <= j < before.len() && (#[trigger] before[j]).key@ == k;
                            assert(es[j] == before[j]);
                        }
                    }
                    assert forall|a: int, b: int|
                        0 <= a < es.len() && 0 <= b < es.len() && a != b implies (
                        #[trigger] es[a]).key@ != (#[trigger] es[b]).key@ by {
                        assert(before[a].key@ == es[a].key@);
                        assert(before[b].key@ == es[b].key@);
                    }
                }
                WriteOutcome::Committed
            },
        }
    }
}

} // verus!
