//! Bounded table of live poll sessions, and the decisions of one session.
use vstd::prelude::*;

verus! {

/// A live session: the id of the message it runs on, and who opened it.
#[derive(Clone, Copy, Debug, PartialEq, Eq, Structural)]
pub struct SessionEntry {
    pub id: u64,
    pub owner: u64,
}

/// How many of the oldest entries make way when one more is added to `s`.
pub open spec fn evicted_count(len: nat, capacity: nat) -> nat {
    if len >= capacity { (len - capacity + 1) as nat } else { 0 }
}

/// The table after adding `e` to `s`, oldest entries evicted first.
pub open spec fn after_create(s: Seq<SessionEntry>, capacity: nat, e: SessionEntry) -> Seq<SessionEntry> {
    s.skip(evicted_count(s.len(), capacity) as int).push(e)
}

/// The most recent entry of `s` for session `id`.
pub open spec fn find_session(s: Seq<SessionEntry>, id: u64) -> Option<SessionEntry>
    decreases s.len(),
{
    if s.len() == 0 {
        None
    } else if s.last().id == id {
        Some(s.last())
    } else {
        find_session(s.drop_last(), id)
    }
}

pub proof fn lemma_find_session(s: Seq<SessionEntry>, id: u64)
    ensures
        find_session(s, id) is None <==> forall|i: int| 0 <= i < s.len() ==> s[i].id != id,
        find_session(s, id) is Some ==> find_session(s, id)->Some_0.id == id,
    decreases s.len(),
{
    if s.len() > 0 {
        lemma_find_session(s.drop_last(), id);
        if find_session(s, id) is None {
            assert forall|i: int| 0 <= i < s.len() implies s[i].id != id by {
                if i < s.len() - 1 {
                    assert(s.drop_last()[i] == s[i]);
                }
            }
        }
        if forall|i: int| 0 <= i < s.len() ==> s[i].id != id {
            assert(s.last().id != id);
            assert forall|i: int| 0 <= i < s.drop_last().len() implies s.drop_last()[i].id != id by {
                assert(s.drop_last()[i] == s[i]);
            }
        }
    }
}

/// Live sessions, oldest first, never more than `capacity` of them.
pub struct SessionTable {
    capacity: usize,
    entries: Vec<SessionEntry>,
}

impl View for SessionTable {
    type V = Seq<SessionEntry>;

    closed spec fn view(&self) -> Seq<SessionEntry> {
        self.entries@
    }
}

impl SessionTable {
    pub closed spec fn capacity_spec(&self) -> nat {
        self.capacity as nat
    }

    pub open spec fn wf(&self) -> bool {
        0 < self.capacity_spec() && self@.len() <= self.capacity_spec()
    }

    pub fn new(capacity: usize) -> (r: SessionTable)
        requires
            capacity > 0,
        ensures
            r.wf(),
            r@ == Seq::<SessionEntry>::empty(),
            r.capacity_spec() == capacity,
    {
        SessionTable { capacity, entries: Vec::new() }
    }

    pub fn len(&self) -> (r: usize)
        ensures
            r == self@.len(),
    {
        self.entries.len()
    }

    /// Adds a session, first evicting the oldest ones while the table is
    /// full. Returns the ids of the evicted sessions, oldest first.
    pub fn create(&mut self, id: u64, owner: u64) -> (r: Vec<u64>)
        requires
            old(self).wf(),
        ensures
            final(self).wf(),
            final(self).capacity_spec() == old(self).capacity_spec(),
            final(self)@ == after_create(old(self)@, old(self).capacity_spec(), SessionEntry { id, owner }),
            r@.len() == evicted_count(old(self)@.len(), old(self).capacity_spec()),
            forall|i: int| 0 <= i < r@.len() ==> r@[i] == old(self)@[i].id,
    {
        let mut evicted: Vec<u64> = Vec::new();
        let ghost k = evicted_count(old(self)@.len(), old(self).capacity_spec());
        while self.entries.len() >= self.capacity
            invariant
                self.capacity == old(self).capacity,
                0 < self.capacity,
                old(self)@.len() <= self.capacity,
                k == evicted_count(old(self)@.len(), self.capacity as nat),
                evicted@.len() <= k,
                self@ == old(self)@.skip(evicted@.len() as int),
                forall|i: int| 0 <= i < evicted@.len() ==> evicted@[i] == old(self)@[i].id,
            decreases self@.len(),
        {
            let e = self.entries.remove(0);
            evicted.push(e.id);
            proof {
                assert(self@ =~= old(self)@.skip(evicted@.len() as int));
            }
        }
        self.entries.push(SessionEntry { id, owner });
        evicted
    }

    /// The owner of session `id`, if the session is live.
    pub fn lookup(&self, id: u64) -> (r: Option<u64>)
        ensures
            r is Some <==> find_session(self@, id) is Some,
            r is Some ==> r->Some_0 == find_session(self@, id)->Some_0.owner,
    {
        let mut i: usize = self.entries.len();
        proof {
            assert(self@.subrange(0, i as int) =~= self@);
        }
        while i > 0
            invariant
                i <= self@.len(),
                find_session(self@, id) == find_session(self@.subrange(0, i as int), id),
            decreases i,
        {
            let e = self.entries[i - 1];
            proof {
                assert(self@.subrange(0, i as int).drop_last() =~= self@.subrange(0, i - 1));
            }
            if e.id == id {
                return Some(e.owner);
            }
            i = i - 1;
        }
        None
    }
}

/// In a full table with distinct ids, creating one more session evicts the
/// session created earliest: messages for its id no longer find it.
pub proof fn lemma_full_table_evicts_oldest(s: Seq<SessionEntry>, capacity: nat, e: SessionEntry)
    requires
        s.len() == capacity,
        capacity > 0,
        forall|i: int, j: int| 0 <= i < j < s.len() ==> s[i].id != s[j].id,
        e.id != s[0].id,
    ensures
        find_session(after_create(s, capacity, e), s[0].id) is None,
        after_create(s, capacity, e).len() == capacity,
{
    let t = after_create(s, capacity, e);
    assert(evicted_count(s.len(), capacity) == 1);
    assert forall|i: int| 0 <= i < t.len() implies t[i].id != s[0].id by {
        if i < t.len() - 1 {
            assert(t[i] == s[i + 1]);
        }
    }
    lemma_find_session(t, s[0].id);
}

/// A session that heard nothing for at least its idle timeout stops.
pub open spec fn expired(idle_ms: u64, timeout_ms: u64) -> bool {
    idle_ms >= timeout_ms
}

/// Whether a session idle for `idle_ms` must stop.
pub fn session_expired(idle_ms: u64, timeout_ms: u64) -> (r: bool)
    ensures
        r == expired(idle_ms, timeout_ms),
{
    idle_ms >= timeout_ms
}

} // verus!
