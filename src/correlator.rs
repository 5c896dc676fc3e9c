use vstd::prelude::*;
use crate::protocol::str_eq;

verus! {

/// Index of the slot of transaction `t`, or -1.
pub open spec fn slot_index<S>(slots: Seq<(Seq<char>, S)>, t: Seq<char>) -> int
    decreases slots.len(),
{
    if slots.len() == 0 {
        -1
    } else if slots.last().0 == t {
        slots.len() - 1
    } else {
        slot_index(slots.drop_last(), t)
    }
}

/// No transaction has two slots.
pub open spec fn ids_unique<S>(slots: Seq<(Seq<char>, S)>) -> bool {
    forall|i: int, j: int| 0 <= i < j < slots.len() ==> slots[i].0 != slots[j].0
}

/// The slots, and the slot handed out, after the transaction `t` is
/// resolved: by its frame, by its deadline, or by its caller giving up.
pub open spec fn resolved<S>(slots: Seq<(Seq<char>, S)>, t: Seq<char>) -> (Seq<(Seq<char>, S)>, Option<S>) {
    let i = slot_index(slots, t);
    if i >= 0 {
        (slots.remove(i), Some(slots[i].1))
    } else {
        (slots, None)
    }
}

proof fn lemma_slot_index<S>(slots: Seq<(Seq<char>, S)>, t: Seq<char>)
    ensures
        -1 <= slot_index(slots, t) < slots.len(),
        slot_index(slots, t) >= 0 ==> slots[slot_index(slots, t)].0 == t,
        slot_index(slots, t) < 0 ==> forall|j: int| 0 <= j < slots.len() ==> slots[j].0 != t,
    decreases slots.len(),
{
    if slots.len() > 0 && slots.last().0 != t {
        lemma_slot_index(slots.drop_last(), t);
        if slot_index(slots, t) < 0 {
            assert forall|j: int| 0 <= j < slots.len() implies slots[j].0 != t by {
                if j < slots.len() - 1 {
                    assert(slots.drop_last()[j] == slots[j]);
                }
            }
        }
    }
}

proof fn lemma_slot_index_unique<S>(slots: Seq<(Seq<char>, S)>, t: Seq<char>, i: int)
    requires
        ids_unique(slots),
        0 <= i < slots.len(),
        slots[i].0 == t,
    ensures
        slot_index(slots, t) == i,
{
    lemma_slot_index(slots, t);
}

/// Each registered transaction is resolved exactly once: after `t` is
/// registered with `slot`, the first resolution of `t` (a frame, a deadline
/// or a cancellation) hands out that slot and removes `t`, and every later
/// resolution of `t` finds nothing.
pub proof fn lemma_resolved_once<S>(slots: Seq<(Seq<char>, S)>, t: Seq<char>, slot: S)
    requires
        ids_unique(slots),
        slot_index(slots, t) == -1,
    ensures
        resolved(slots.push((t, slot)), t).1 == Some(slot),
        resolved(slots.push((t, slot)), t).0 == slots,
        slot_index(resolved(slots.push((t, slot)), t).0, t) == -1,
        resolved(resolved(slots.push((t, slot)), t).0, t).1 is None,
{
    let l = slots.push((t, slot));
    assert(l.last().0 == t);
    assert(slot_index(l, t) == slots.len());
    assert(l.remove(slots.len() as int) =~= slots);
}

/// Registry of the transactions that await a reply, each with the one-shot
/// slot through which its caller is answered.
pub struct Correlator<S> {
    slots: Vec<(String, S)>,
}

impl<S> Correlator<S> {
    /// The registered transactions with their slots, in order of registration.
    pub closed spec fn slots(&self) -> Seq<(Seq<char>, S)> {
        self.slots@.map_values(|e: (String, S)| (e.0@, e.1))
    }

    /// A transaction is registered at most once.
    pub open spec fn wf(&self) -> bool {
        ids_unique(self.slots())
    }

    /// An empty registry.
    pub fn new() -> (r: Correlator<S>)
        ensures
            r.wf(),
            r.slots() == Seq::<(Seq<char>, S)>::empty(),
    {
        let r = Correlator { slots: Vec::new() };
        assert(r.slots() =~= Seq::<(Seq<char>, S)>::empty());
        r
    }

    fn find(&self, transaction: &str) -> (r: Option<usize>)
        requires
            self.wf(),
        ensures
            match r {
                Some(i) => i < self.slots().len() && slot_index(self.slots(), transaction@) == i,
                None => slot_index(self.slots(), transaction@) == -1,
            },
    {
        let mut i: usize = 0;
        while i < self.slots.len()
            invariant
                self.wf(),
                i <= self.slots@.len(),
                forall|j: int| 0 <= j < i ==> self.slots()[j].0 != transaction@,
            decreases self.slots@.len() - i,
        {
            if str_eq(self.slots[i].0.as_str(), transaction) {
                proof {
                    lemma_slot_index_unique(self.slots(), transaction@, i as int);
                }
                return Some(i);
            }
            i = i + 1;
        }
        proof {
            lemma_slot_index(self.slots(), transaction@);
        }
        None
    }

    /// Registers `slot` for `transaction`. A transaction that is registered
    /// already is refused, and the slot handed back.
    pub fn register(&mut self, transaction: String, slot: S) -> (r: Result<(), S>)
        requires
            old(self).wf(),
        ensures
            final(self).wf(),
            slot_index(old(self).slots(), transaction@) >= 0 ==> (r == Err::<(), S>(slot)
                && final(self).slots() == old(self).slots()),
            slot_index(old(self).slots(), transaction@) < 0 ==> (r is Ok && final(self).slots()
                == old(self).slots().push((transaction@, slot))),
    {
        match self.find(transaction.as_str()) {
            Some(_) => Err(slot),
            None => {
                let ghost before = self.slots();
                let ghost t = transaction@;
                let ghost s = slot;
                proof {
                    lemma_slot_index(before, t);
                }
                self.slots.push((transaction, slot));
                assert(self.slots() =~= before.push((t, s)));
                assert(ids_unique(self.slots())) by {
                    assert forall|a: int, b: int|
                        0 <= a < b < self.slots().len() implies self.slots()[a].0
                        != self.slots()[b].0 by {
                        assert(self.slots()[a] == before[a]);
                        if b < before.len() {
                            assert(self.slots()[b] == before[b]);
                        }
                    }
                }
                Ok(())
            },
        }
    }

    /// Resolves `transaction`: removes its slot and hands it out, where it is
    /// registered. Completion by a frame, expiry of the deadline and
    /// cancellation by the caller all resolve through here, so only the
    /// first of them finds the slot.
    pub fn take(&mut self, transaction: &str) -> (r: Option<S>)
        requires
            old(self).wf(),
        ensures
            final(self).wf(),
            (final(self).slots(), r) == resolved(old(self).slots(), transaction@),
    {
        match self.find(transaction) {
            Some(i) => {
                let ghost before = self.slots();
                let (_, slot) = self.slots.remove(i);
                assert(self.slots() =~= before.remove(i as int));
                assert(ids_unique(self.slots())) by {
                    assert forall|a: int, b: int|
                        0 <= a < b < self.slots().len() implies self.slots()[a].0
                        != self.slots()[b].0 by {
                        let aa = if a < i { a } else { a + 1 };
                        let bb = if b < i { b } else { b + 1 };
                        assert(self.slots()[a] == before[aa]);
                        assert(self.slots()[b] == before[bb]);
                    }
                }
                Some(slot)
            },
            None => None,
        }
    }

    /// The slot of `transaction`, left in place, where it is registered.
    pub fn get(&self, transaction: &str) -> (r: Option<&S>)
        requires
            self.wf(),
        ensures
            match r {
                Some(s) => slot_index(self.slots(), transaction@) >= 0 && *s == self.slots()[slot_index(
                    self.slots(),
                    transaction@,
                )].1,
                None => slot_index(self.slots(), transaction@) < 0,
            },
    {
        match self.find(transaction) {
            Some(i) => Some(&self.slots[i].1),
            None => None,
        }
    }

    /// Whether `transaction` awaits a reply.
    pub fn is_registered(&self, transaction: &str) -> (r: bool)
        requires
            self.wf(),
        ensures
            r == (slot_index(self.slots(), transaction@) >= 0),
    {
        self.find(transaction).is_some()
    }

    /// Number of transactions that await a reply.
    pub fn len(&self) -> (r: usize)
        ensures
            r == self.slots().len(),
    {
        self.slots.len()
    }
}

} // verus!
