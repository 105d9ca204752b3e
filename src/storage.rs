use vstd::prelude::*;
use crate::components::{capped, contact_total, damaged, Entity, Health, Score};

verus! {

/// A sparse table from entity to component value, indexed by entity id.
pub struct Storage<T> {
    slots: Vec<Option<T>>,
}

impl<T> Storage<T> {
    /// The entries of the table, keyed by entity id.
    pub closed spec fn view(&self) -> Map<nat, T> {
        Map::new(
            |i: nat| i < self.slots@.len() && self.slots@[i as int] is Some,
            |i: nat| self.slots@[i as int]->0,
        )
    }

    /// An empty table.
    pub fn new() -> (r: Self)
        ensures
            r@ == Map::<nat, T>::empty(),
    {
        let r = Storage { slots: Vec::new() };
        assert(r@ =~= Map::<nat, T>::empty());
        r
    }

    /// A bound on the ids held: every key lies below it.
    pub fn bound(&self) -> (r: usize)
        ensures
            forall|i: nat| #[trigger] self@.contains_key(i) ==> i < r,
    {
        self.slots.len()
    }

    /// Whether `e` holds this component.
    pub fn contains(&self, e: Entity) -> (r: bool)
        ensures
            r == self@.contains_key(e.id as nat),
    {
        e.id < self.slots.len() && self.slots[e.id].is_some()
    }

    /// The value held by `e`, if any.
    pub fn get(&self, e: Entity) -> (r: Option<&T>)
        ensures
            r == (if self@.contains_key(e.id as nat) {
                Some(&self@[e.id as nat])
            } else {
                None
            }),
    {
        if e.id < self.slots.len() {
            match &self.slots[e.id] {
                Some(v) => Some(v),
                None => None,
            }
        } else {
            None
        }
    }

    /// Gives `e` the value `v`, handing back the value it held before.
    pub fn insert(&mut self, e: Entity, v: T) -> (r: Option<T>)
        ensures
            final(self)@ == old(self)@.insert(e.id as nat, v),
            r == (if old(self)@.contains_key(e.id as nat) {
                Some(old(self)@[e.id as nat])
            } else {
                None
            }),
    {
        let ghost before = self@;
        while self.slots.len() <= e.id
            invariant
                self@ == before,
            decreases e.id + 1 - self.slots.len(),
        {
            self.slots.push(None);
            assert(self@ =~= before);
        }
        let mut slot = Some(v);
        std::mem::swap(&mut self.slots[e.id], &mut slot);
        assert(self@ =~= before.insert(e.id as nat, v));
        slot
    }

    /// Takes the value away from `e`, if it held one; otherwise nothing changes.
    pub fn remove(&mut self, e: Entity) -> (r: Option<T>)
        ensures
            final(self)@ == old(self)@.remove(e.id as nat),
            r == (if old(self)@.contains_key(e.id as nat) {
                Some(old(self)@[e.id as nat])
            } else {
                None
            }),
    {
        let ghost before = self@;
        if e.id < self.slots.len() {
            let mut slot = None;
            std::mem::swap(&mut self.slots[e.id], &mut slot);
            assert(self@ =~= before.remove(e.id as nat));
            slot
        } else {
            assert(self@ =~= before.remove(e.id as nat));
            None
        }
    }

    /// Takes the component away from every entity whose id is flagged.
    pub fn remove_flagged(&mut self, flags: &Vec<bool>)
        ensures
            final(self)@ == old(self)@.remove_keys(
                Set::new(|i: nat| i < flags@.len() && flags@[i as int]),
            ),
    {
        let ghost before = self@;
        let ghost slots0 = self.slots@;
        let ghost gone = Set::new(|i: nat| i < flags@.len() && flags@[i as int]);
        let mut i: usize = 0;
        while i < self.slots.len()
            invariant
                i <= self.slots@.len(),
                self.slots@.len() == slots0.len(),
                forall|j: int| 0 <= j < slots0.len() ==> #[trigger] self.slots@[j] == if j < i
                    && j < flags@.len() && flags@[j] {
                    None
                } else {
                    slots0[j]
                },
            decreases self.slots@.len() - i,
        {
            if i < flags.len() && flags[i] {
                self.slots.set(i, None);
            }
            i = i + 1;
        }
        assert(self@ =~= before.remove_keys(gone));
    }

    /// The entities holding this component, by ascending id.
    pub fn entities(&self) -> (r: Vec<Entity>)
        ensures
            forall|k: int| 0 <= k < r@.len() ==> self@.contains_key(#[trigger] r@[k].id as nat),
            forall|i: nat| #[trigger] self@.contains_key(i) ==> exists|k: int|
                0 <= k < r@.len() && r@[k].id == i,
            forall|a: int, b: int| 0 <= a < b < r@.len() ==> r@[a].id < r@[b].id,
    {
        let mut r: Vec<Entity> = Vec::new();
        let mut i: usize = 0;
        while i < self.slots.len()
            invariant
                i <= self.slots@.len(),
                forall|k: int| 0 <= k < r@.len() ==> self@.contains_key(#[trigger] r@[k].id as nat),
                forall|k: int| 0 <= k < r@.len() ==> #[trigger] r@[k].id < i,
                forall|j: nat| #[trigger] self@.contains_key(j) && j < i ==> exists|k: int|
                    0 <= k < r@.len() && r@[k].id == j,
                forall|a: int, b: int| 0 <= a < b < r@.len() ==> r@[a].id < r@[b].id,
            decreases self.slots@.len() - i,
        {
            let ghost prev = r@;
            if self.slots[i].is_some() {
                r.push(Entity { id: i });
                assert(r@[r@.len() - 1].id == i);
            }
            assert forall|j: nat| #[trigger] self@.contains_key(j) && j < i + 1 implies exists|k: int|
                0 <= k < r@.len() && r@[k].id == j by {
                if j < i {
                    let k = choose|k: int| 0 <= k < prev.len() && prev[k].id == j;
                    assert(r@[k] == prev[k]);
                } else {
                    assert(r@[r@.len() - 1].id == j);
                }
            }
            i = i + 1;
        }
        r
    }
}

/// Removing a component twice leaves the table as removing it once, and
/// removing an absent component leaves the table unchanged.
pub proof fn lemma_remove_idempotent<T>(m: Map<nat, T>, i: nat)
    ensures
        m.remove(i).remove(i) == m.remove(i),
        !m.contains_key(i) ==> m.remove(i) == m,
{
    assert(m.remove(i).remove(i) =~= m.remove(i));
    if !m.contains_key(i) {
        assert(m.remove(i) =~= m);
    }
}

impl Storage<Health> {
    /// Lowers the health of each entity `i` by ten points `hits[i]` times,
    /// stopping at zero; ids beyond `hits` are left alone.
    pub fn apply_damage(&mut self, hits: &Vec<usize>)
        ensures
            final(self)@.dom() == old(self)@.dom(),
            forall|i: nat| #[trigger] final(self)@.contains_key(i) ==> final(self)@[i] == (Health {
                value: damaged(old(self)@[i].value, if i < hits@.len() { hits@[i as int] as nat } else { 0 }),
            }),
    {
        let ghost before = self@;
        let ghost slots0 = self.slots@;
        let mut i: usize = 0;
        while i < self.slots.len()
            invariant
                i <= self.slots@.len(),
                self.slots@.len() == slots0.len(),
                forall|j: int| 0 <= j < slots0.len() ==> #[trigger] self.slots@[j] == if j < i
                    && slots0[j] is Some {
                    Some(Health {
                        value: damaged(slots0[j]->0.value, if j < hits@.len() { hits@[j] as nat } else { 0 }),
                    })
                } else {
                    slots0[j]
                },
            decreases self.slots@.len() - i,
        {
            if i < hits.len() {
                if let Some(h) = self.slots[i] {
                    let loss = contact_total(hits[i]);
                    self.slots.set(i, Some(Health { value: h.value.saturating_sub(loss) }));
                }
            }
            i = i + 1;
        }
        assert(self@.dom() =~= before.dom());
    }
}

impl Storage<Score> {
    /// Raises every score by `bonus`, stopping at `u32::MAX`.
    pub fn apply_bonus(&mut self, bonus: u32)
        ensures
            final(self)@.dom() == old(self)@.dom(),
            forall|i: nat| #[trigger] final(self)@.contains_key(i) ==> final(self)@[i] == (Score {
                value: capped(old(self)@[i].value + bonus),
            }),
    {
        let ghost before = self@;
        let ghost slots0 = self.slots@;
        let mut i: usize = 0;
        while i < self.slots.len()
            invariant
                i <= self.slots@.len(),
                self.slots@.len() == slots0.len(),
                forall|j: int| 0 <= j < slots0.len() ==> #[trigger] self.slots@[j] == if j < i
                    && slots0[j] is Some {
                    Some(Score { value: capped(slots0[j]->0.value + bonus) })
                } else {
                    slots0[j]
                },
            decreases self.slots@.len() - i,
        {
            if let Some(s) = self.slots[i] {
                self.slots.set(i, Some(Score { value: s.value.saturating_add(bonus) }));
            }
            i = i + 1;
        }
        assert(self@.dom() =~= before.dom());
    }
}

} // verus!
