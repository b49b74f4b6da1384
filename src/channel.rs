use vstd::prelude::*;
use crate::model::{Meeting, MeetingView};

verus! {

/// One published snapshot and the meeting it belongs to.
struct Notice {
    meeting_id: String,
    snapshot: Meeting,
}

/// A listener for one meeting: it receives what is published after it
/// subscribed, from `cursor` on, until it unsubscribes.
struct Listener {
    meeting_id: String,
    cursor: usize,
    open: bool,
}

/// What a broker holds: every published snapshot in order, and for each
/// subscription its meeting, how far it has read, and whether it is live.
pub struct BrokerView {
    pub log: Seq<(Seq<char>, MeetingView)>,
    pub listeners: Seq<(Seq<char>, int, bool)>,
}

/// Index of the first snapshot of `id` at or after `from`, or the log's length.
pub open spec fn first_match(log: Seq<(Seq<char>, MeetingView)>, id: Seq<char>, from: int) -> int
    decreases log.len() - from,
{
    if from >= log.len() {
        log.len() as int
    } else if log[from].0 == id {
        from
    } else {
        first_match(log, id, from + 1)
    }
}

/// A publish/subscribe channel per meeting id.
pub struct Broker {
    log: Vec<Notice>,
    listeners: Vec<Listener>,
}

impl View for Broker {
    type V = BrokerView;

    closed spec fn view(&self) -> BrokerView {
        BrokerView {
            log: self.log@.map_values(|n: Notice| (n.meeting_id@, n.snapshot@)),
            listeners: self.listeners@.map_values(
                |l: Listener| (l.meeting_id@, l.cursor as int, l.open),
            ),
        }
    }
}

impl BrokerView {
    pub open spec fn wf(self) -> bool {
        forall|h: int|
            0 <= h < self.listeners.len() ==> 0 <= (#[trigger] self.listeners[h]).1
                <= self.log.len()
    }
}

proof fn lemma_first_match_bounds(log: Seq<(Seq<char>, MeetingView)>, id: Seq<char>, from: int)
    requires
        0 <= from <= log.len(),
    ensures
        from <= first_match(log, id, from) <= log.len(),
        first_match(log, id, from) < log.len() ==> log[first_match(log, id, from)].0 == id,
        forall|k: int| from <= k < first_match(log, id, from) ==> log[k].0 != id,
    decreases log.len() - from,
{
    if from < log.len() && log[from].0 != id {
        lemma_first_match_bounds(log, id, from + 1);
    }
}

impl Broker {
    pub fn new() -> (r: Broker)
        ensures
            r@.log.len() == 0,
            r@.listeners.len() == 0,
            r@.wf(),
    {
        Broker { log: Vec::new(), listeners: Vec::new() }
    }

    /// Starts listening to `meeting_id`; nothing published before is delivered.
    pub fn subscribe(&mut self, meeting_id: String) -> (h: usize)
        requires
            old(self)@.wf(),
        ensures
            final(self)@.wf(),
            h == old(self)@.listeners.len(),
            final(self)@.log == old(self)@.log,
            final(self)@.listeners == old(self)@.listeners.push(
                (meeting_id@, old(self)@.log.len() as int, true),
            ),
    {
        let ghost id = meeting_id@;
        let h = self.listeners.len();
        self.listeners.push(Listener { meeting_id, cursor: self.log.len(), open: true });
        proof {
            assert(self@.listeners =~= old(self)@.listeners.push((id, old(self)@.log.len() as int, true)));
            assert(self@.log =~= old(self)@.log);
        }
        h
    }

    /// Delivers `snapshot` to every live listener of `meeting_id`, after what
    /// they have not read yet.
    pub fn publish(&mut self, meeting_id: &String, snapshot: &Meeting)
        requires
            old(self)@.wf(),
        ensures
            final(self)@.wf(),
            final(self)@.log == old(self)@.log.push((meeting_id@, snapshot@)),
            final(self)@.listeners == old(self)@.listeners,
    {
        self.log.push(Notice { meeting_id: meeting_id.clone(), snapshot: snapshot.clone() });
        proof {
            assert(self@.log =~= old(self)@.log.push((meeting_id@, snapshot@)));
            assert(self@.listeners =~= old(self)@.listeners);
        }
    }

    /// The next snapshot for listener `h`, oldest first; `None` when nothing
    /// new was published for its meeting or it has unsubscribed.
    pub fn next(&mut self, h: usize) -> (r: Option<Meeting>)
        requires
            old(self)@.wf(),
            h < old(self)@.listeners.len(),
        ensures
            final(self)@.wf(),
            final(self)@.log == old(self)@.log,
            ({
                let (id, cursor, open) = old(self)@.listeners[h as int];
                let j = first_match(old(self)@.log, id, cursor);
                if !open {
                    r is None && final(self)@.listeners == old(self)@.listeners
                } else if j < old(self)@.log.len() {
                    r matches Some(m) && m@ == old(self)@.log[j].1 && final(self)@.listeners
                        == old(self)@.listeners.update(h as int, (id, j + 1, true))
                } else {
                    r is None && final(self)@.listeners == old(self)@.listeners.update(
                        h as int,
                        (id, old(self)@.log.len() as int, true),
                    )
                }
            }),
    {
        let ghost v = old(self)@;
        if !self.listeners[h].open {
            return None;
        }
        let mut j: usize = self.listeners[h].cursor;
        proof {
            assert(v.listeners[h as int].1 == j);
            lemma_first_match_bounds(v.log, v.listeners[h as int].0, j as int);
        }
        while j < self.log.len() && self.log[j].meeting_id != self.listeners[h].meeting_id
            invariant
                self@ == v,
                self.listeners@.len() == v.listeners.len(),
                h < self.listeners@.len(),
                v.listeners[h as int].0 == self.listeners@[h as int].meeting_id@,
                v.listeners[h as int].1 <= j <= self.log@.len(),
                first_match(v.log, v.listeners[h as int].0, v.listeners[h as int].1) == first_match(
                    v.log,
                    v.listeners[h as int].0,
                    j as int,
                ),
            decreases self.log@.len() - j,
        {
            proof {
                assert(v.log[j as int].0 == self.log@[j as int].meeting_id@);
            }
            j = j + 1;
        }
        proof {
            if j < self.log@.len() {
                assert(v.log[j as int].0 == self.log@[j as int].meeting_id@);
            }
        }
        let found = j < self.log.len();
        let snapshot = if found {
            Some(self.log[j].snapshot.clone())
        } else {
            None
        };
        let cursor = if found {
            j + 1
        } else {
            j
        };
        let listener = Listener {
            meeting_id: self.listeners[h].meeting_id.clone(),
            cursor,
            open: true,
        };
        self.listeners.set(h, listener);
        proof {
            assert(self@.listeners =~= v.listeners.update(
                h as int,
                (v.listeners[h as int].0, cursor as int, true),
            ));
            assert(self@.log =~= v.log);
        }
        snapshot
    }

    /// Stops listener `h`: it receives nothing more.
    pub fn unsubscribe(&mut self, h: usize)
        requires
            old(self)@.wf(),
            h < old(self)@.listeners.len(),
        ensures
            final(self)@.wf(),
            final(self)@.log == old(self)@.log,
            final(self)@.listeners == old(self)@.listeners.update(
                h as int,
                (old(self)@.listeners[h as int].0, old(self)@.listeners[h as int].1, false),
            ),
    {
        let listener = Listener {
            meeting_id: self.listeners[h].meeting_id.clone(),
            cursor: self.listeners[h].cursor,
            open: false,
        };
        self.listeners.set(h, listener);
        proof {
            assert(self@.listeners =~= old(self)@.listeners.update(
                h as int,
                (old(self)@.listeners[h as int].0, old(self)@.listeners[h as int].1, false),
            ));
            assert(self@.log =~= old(self)@.log);
        }
    }
}

} // verus!
