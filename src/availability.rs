use vstd::prelude::*;

use crate::records::RentalError;

verus! {

/// The set of car ids that are currently rented out.
pub struct AvailabilitySet {
    ids: Vec<u16>,
}

impl View for AvailabilitySet {
    type V = Set<u16>;

    closed spec fn view(&self) -> Set<u16> {
        self.ids@.to_set()
    }
}

impl AvailabilitySet {
    /// The rented ids in the order in which they were marked.
    pub closed spec fn ids(&self) -> Seq<u16> {
        self.ids@
    }

    /// No id is held twice.
    pub closed spec fn wf(&self) -> bool {
        self.ids@.no_duplicates()
    }

    pub proof fn lemma_view_is_ids(&self)
        requires
            self.wf(),
        ensures
            self@ == self.ids().to_set(),
            self.ids().no_duplicates(),
    {
    }

    pub fn new() -> (r: Self)
        ensures
            r.wf(),
            r@ == Set::<u16>::empty(),
            r.ids() == Seq::<u16>::empty(),
    {
        let r = AvailabilitySet { ids: Vec::new() };
        assert(r@ =~= Set::<u16>::empty());
        r
    }

    fn position_of(&self, car_id: u16) -> (r: Option<usize>)
        ensures
            match r {
                Some(i) => i < self.ids@.len() && self.ids@[i as int] == car_id,
                None => !self.ids@.contains(car_id),
            },
    {
        let mut i: usize = 0;
        while i < self.ids.len()
            invariant
                i <= self.ids@.len(),
                forall|j: int| 0 <= j < i ==> self.ids@[j] != car_id,
            decreases self.ids@.len() - i,
        {
            if self.ids[i] == car_id {
                return Some(i);
            }
            i += 1;
        }
        None
    }

    /// Whether the car is free to be hired, that is, not rented.
    pub fn is_available(&self, car_id: u16) -> (r: bool)
        ensures
            r == !self@.contains(car_id),
    {
        match self.position_of(car_id) {
            Some(i) => {
                assert(self.ids@.contains(car_id));
                false
            },
            None => true,
        }
    }

    /// Marks a car as rented; fails if it already is.
    pub fn mark_rented(&mut self, car_id: u16) -> (r: Result<(), RentalError>)
        requires
            old(self).wf(),
        ensures
            final(self).wf(),
            old(self)@.contains(car_id) ==> r == Err::<(), RentalError>(RentalError::AlreadyRented)
                && final(self)@ == old(self)@ && final(self).ids() == old(self).ids(),
            !old(self)@.contains(car_id) ==> r == Ok::<(), RentalError>(())
                && final(self)@ == old(self)@.insert(car_id)
                && final(self).ids() == old(self).ids().push(car_id),
    {
        if !self.is_available(car_id) {
            return Err(RentalError::AlreadyRented);
        }
        let ghost pre = self.ids@;
        self.ids.push(car_id);
        proof {
            assert(self.ids@ == pre.push(car_id));
            assert(self.ids@.to_set() =~= pre.to_set().insert(car_id)) by {
                assert forall|x: u16| self.ids@.contains(x) <==> (pre.contains(x) || x == car_id) by {
                    if pre.contains(x) {
                        let j = choose|j: int| 0 <= j < pre.len() && pre[j] == x;
                        assert(self.ids@[j] == x);
                    }
                    if x == car_id {
                        assert(self.ids@[pre.len() as int] == x);
                    }
                }
            }
        }
        Ok(())
    }

    /// Marks a rented car as returned; fails if it is not rented.
    pub fn mark_returned(&mut self, car_id: u16) -> (r: Result<(), RentalError>)
        requires
            old(self).wf(),
        ensures
            final(self).wf(),
            !old(self)@.contains(car_id) ==> r == Err::<(), RentalError>(RentalError::NotRented)
                && final(self)@ == old(self)@ && final(self).ids() == old(self).ids(),
            old(self)@.contains(car_id) ==> r == Ok::<(), RentalError>(())
                && final(self)@ == old(self)@.remove(car_id),
    {
        match self.position_of(car_id) {
            None => Err(RentalError::NotRented),
            Some(i) => {
                let ghost pre = self.ids@;
                self.ids.remove(i);
                proof {
                    assert(self.ids@ == pre.remove(i as int));
                    assert forall|a: int, b: int|
                        0 <= a < self.ids@.len() && 0 <= b < self.ids@.len() && a != b
                        implies self.ids@[a] != self.ids@[b] by {
                        let pa = if a < i { a } else { a + 1 };
                        let pb = if b < i { b } else { b + 1 };
                        assert(self.ids@[a] == pre[pa]);
                        assert(self.ids@[b] == pre[pb]);
                    }
                    assert(self.ids@.to_set() =~= pre.to_set().remove(car_id)) by {
                        assert forall|x: u16| self.ids@.contains(x) <==> (pre.contains(x) && x != car_id) by {
                            if self.ids@.contains(x) {
                                let j = choose|j: int| 0 <= j < self.ids@.len() && self.ids@[j] == x;
                                let pj = if j < i { j } else { j + 1 };
                                assert(pre[pj] == x);
                                assert(pj != i);
                            }
                            if pre.contains(x) && x != car_id {
                                let j = choose|j: int| 0 <= j < pre.len() && pre[j] == x;
                                assert(j != i);
                                let k = if j < i { j } else { j - 1 };
                                assert(self.ids@[k] == x);
                            }
                        }
                    }
                }
                Ok(())
            },
        }
    }
}

} // verus!
