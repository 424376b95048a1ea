//! A bounded set of recently handled message ids, so that a message is
//! handled once even when its trigger arrives twice.
use vstd::prelude::*;

verus! {

/// `s` without any occurrence of `id`, order kept.
pub open spec fn without_id(s: Seq<u64>, id: u64) -> Seq<u64>
    decreases s.len(),
{
    if s.len() == 0 {
        s
    } else if s.last() == id {
        without_id(s.drop_last(), id)
    } else {
        without_id(s.drop_last(), id).push(s.last())
    }
}

/// Recently handled ids, oldest first; the oldest make way when full.
pub struct SeenCache {
    capacity: usize,
    ids: Vec<u64>,
}

impl View for SeenCache {
    type V = Seq<u64>;

    closed spec fn view(&self) -> Seq<u64> {
        self.ids@
    }
}

impl SeenCache {
    pub closed spec fn capacity_spec(&self) -> nat {
        self.capacity as nat
    }

    pub open spec fn wf(&self) -> bool {
        0 < self.capacity_spec() && self@.len() <= self.capacity_spec() && self@.no_duplicates()
    }

    pub fn new(capacity: usize) -> (r: SeenCache)
        requires
            capacity > 0,
        ensures
            r.wf(),
            r@ == Seq::<u64>::empty(),
            r.capacity_spec() == capacity,
    {
        SeenCache { capacity, ids: Vec::new() }
    }

    pub fn contains(&self, id: u64) -> (r: bool)
        ensures
            r == self@.contains(id),
    {
        let mut i: usize = 0;
        while i < self.ids.len()
            invariant
                i <= self@.len(),
                forall|k: int| 0 <= k < i ==> self@[k] != id,
            decreases self@.len() - i,
        {
            if self.ids[i] == id {
                return true;
            }
            i = i + 1;
        }
        false
    }

    /// Marks `id` as handled. Returns whether it already was; a new id
    /// evicts the oldest one when the cache is full.
    pub fn check_and_mark(&mut self, id: u64) -> (already: bool)
        requires
            old(self).wf(),
        ensures
            final(self).wf(),
            final(self).capacity_spec() == old(self).capacity_spec(),
            already == old(self)@.contains(id),
            already ==> final(self)@ == old(self)@,
            !already && old(self)@.len() < old(self).capacity_spec() ==> final(self)@ == old(self)@.push(id),
            !already && old(self)@.len() == old(self).capacity_spec() ==> final(self)@ == old(self)@.skip(1).push(id),
    {
        if self.contains(id) {
            return true;
        }
        if self.ids.len() >= self.capacity {
            self.ids.remove(0);
        }
        self.ids.push(id);
        proof {
            let s = final(self)@;
            assert(s.no_duplicates()) by {
                assert forall|i: int, j: int| 0 <= i < s.len() && 0 <= j < s.len() && i != j implies s[i] != s[j] by {
                    if old(self)@.len() == old(self).capacity_spec() {
                        if i < s.len() - 1 && j < s.len() - 1 {
                            assert(s[i] == old(self)@[i + 1] && s[j] == old(self)@[j + 1]);
                        } else if i < s.len() - 1 {
                            assert(s[i] == old(self)@[i + 1]);
                        } else if j < s.len() - 1 {
                            assert(s[j] == old(self)@[j + 1]);
                        }
                    } else {
                        if i < s.len() - 1 && j < s.len() - 1 {
                            assert(s[i] == old(self)@[i] && s[j] == old(self)@[j]);
                        } else if i < s.len() - 1 {
                            assert(s[i] == old(self)@[i]);
                        } else if j < s.len() - 1 {
                            assert(s[j] == old(self)@[j]);
                        }
                    }
                }
            }
            if old(self)@.len() == old(self).capacity_spec() {
                assert(s =~= old(self)@.skip(1).push(id));
            }
        }
        false
    }

    /// Forgets `id`, so that it is handled again next time.
    pub fn forget(&mut self, id: u64)
        requires
            old(self).wf(),
        ensures
            final(self).wf(),
            final(self).capacity_spec() == old(self).capacity_spec(),
            final(self)@ == without_id(old(self)@, id),
    {
        let mut kept: Vec<u64> = Vec::new();
        let mut i: usize = 0;
        while i < self.ids.len()
            invariant
                self@ == old(self)@,
                self.wf(),
                i <= self@.len(),
                kept@ == without_id(self@.subrange(0, i as int), id),
                kept@.len() <= i,
                forall|k: int| 0 <= k < kept@.len() ==> self@.subrange(0, i as int).contains(#[trigger] kept@[k]),
                kept@.no_duplicates(),
            decreases self@.len() - i,
        {
            let x = self.ids[i];
            let ghost before = kept@;
            if x != id {
                kept.push(x);
                proof {
                    assert forall|a: int, b: int| 0 <= a < kept@.len() && 0 <= b < kept@.len() && a != b
                        implies kept@[a] != kept@[b] by {
                        if a == kept@.len() - 1 && b < before.len() {
                            let w = choose|w: int| 0 <= w < i && self@.subrange(0, i as int)[w] == before[b];
                            assert(self@[w] == before[b]);
                        } else if b == kept@.len() - 1 && a < before.len() {
                            let w = choose|w: int| 0 <= w < i && self@.subrange(0, i as int)[w] == before[a];
                            assert(self@[w] == before[a]);
                        }
                    }
                }
            }
            proof {
                assert(self@.subrange(0, i + 1).drop_last() =~= self@.subrange(0, i as int));
                assert forall|k: int| 0 <= k < kept@.len() implies self@.subrange(0, i + 1).contains(#[trigger] kept@[k]) by {
                    if k < before.len() {
                        let w = choose|w: int| 0 <= w < i && self@.subrange(0, i as int)[w] == before[k];
                        assert(self@.subrange(0, i + 1)[w] == before[k]);
                    } else {
                        assert(self@.subrange(0, i + 1)[i as int] == x);
                    }
                }
            }
            i = i + 1;
        }
        proof {
            assert(self@.subrange(0, i as int) =~= self@);
        }
        self.ids = kept;
    }
}

} // verus!
