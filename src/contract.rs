use vstd::prelude::*;

use crate::availability::AvailabilitySet;
use crate::model::{
    available_listing, car_available_for, credit_spec, first_match, first_match_below, hire_spec, listing_below,
    return_spec, RentalState, NANOS_PER_MINUTE, YOCTO_PER_UNIT,
};
use crate::records::{Car, Client, EntityKind, Hire, RentalError};

verus! {

/// The rental ledger: registered cars and clients, the hire records, and
/// the set of cars currently rented out.
pub struct Contract {
    cars: Vec<Car>,
    clients: Vec<Client>,
    hires: Vec<Hire>,
    rented: AvailabilitySet,
}

impl View for Contract {
    type V = RentalState;

    closed spec fn view(&self) -> RentalState {
        RentalState {
            cars: self.cars@,
            clients: self.clients@,
            hires: self.hires@,
            rented: self.rented@,
        }
    }
}

impl Default for Contract {
    fn default() -> (r: Self)
        ensures
            r.wf(),
            r@.cars.len() == 0,
            r@.clients.len() == 0,
            r@.hires.len() == 0,
            r@.rented == Set::<u16>::empty(),
    {
        Contract::new()
    }
}

impl Contract {
    /// The model is well formed and the rented set holds no id twice.
    pub closed spec fn wf(&self) -> bool {
        self@.wf() && self.rented.wf()
    }

    /// The rented car ids as stored, in the order they were rented.
    pub closed spec fn rented_ids(&self) -> Seq<u16> {
        self.rented.ids()
    }

    pub proof fn lemma_rented_ids(&self)
        requires
            self.wf(),
        ensures
            self@.wf(),
            self.rented_ids().no_duplicates(),
            self@.rented == self.rented_ids().to_set(),
    {
        self.rented.lemma_view_is_ids();
    }

    /// An empty ledger.
    pub fn new() -> (r: Self)
        ensures
            r.wf(),
            r@.cars.len() == 0,
            r@.clients.len() == 0,
            r@.hires.len() == 0,
            r@.rented == Set::<u16>::empty(),
    {
        Contract {
            cars: Vec::new(),
            clients: Vec::new(),
            hires: Vec::new(),
            rented: AvailabilitySet::new(),
        }
    }

    /// Registers a car and returns its id, the next one of the car sequence.
    pub fn new_car(&mut self, price: u16, plates: String, types: String) -> (r: u16)
        requires
            old(self).wf(),
            old(self)@.cars.len() < u16::MAX,
            price > 0,
            plates@.len() > 0,
            types@.len() > 0,
        ensures
            final(self).wf(),
            r == old(self)@.cars.len() + 1,
            final(self)@ == (RentalState {
                cars: old(self)@.cars.push(Car { price, plates, types }),
                ..old(self)@
            }),
    {
        let ghost pre = self@;
        self.cars.push(Car { price, plates, types });
        proof {
            lemma_wf_frame(pre, self@);
        }
        self.cars.len() as u16
    }

    /// Registers a client with an empty deposit and returns its id, the next
    /// one of the client sequence.
    pub fn new_client(&mut self, name: String) -> (r: u16)
        requires
            old(self).wf(),
            old(self)@.clients.len() < u16::MAX,
        ensures
            final(self).wf(),
            r == old(self)@.clients.len() + 1,
            final(self)@ == (RentalState {
                clients: old(self)@.clients.push(Client { name, deposit: 0 }),
                ..old(self)@
            }),
    {
        let ghost pre = self@;
        self.clients.push(Client { name, deposit: 0 });
        proof {
            lemma_wf_frame(pre, self@);
        }
        self.clients.len() as u16
    }

    /// Adds `amount` units to a client's deposit.
    pub fn credit(&mut self, id: u16, amount: u16) -> (r: Result<(), RentalError>)
        requires
            old(self).wf(),
        ensures
            final(self).wf(),
            (final(self)@, r) == credit_spec(old(self)@, id, amount as int),
    {
        self.credit_units(id, amount as u128)
    }

    fn credit_units(&mut self, id: u16, amount: u128) -> (r: Result<(), RentalError>)
        requires
            old(self).wf(),
        ensures
            final(self).wf(),
            (final(self)@, r) == credit_spec(old(self)@, id, amount as int),
    {
        if id == 0 || id as usize > self.clients.len() {
            return Err(RentalError::NotFound(EntityKind::Client, id));
        }
        if amount == 0 {
            return Err(RentalError::InvalidArgument);
        }
        let i = (id - 1) as usize;
        let balance = self.clients[i].deposit;
        if amount > (u16::MAX - balance) as u128 {
            return Err(RentalError::Overflow);
        }
        self.clients[i].deposit = balance + amount as u16;
        assert(self@.clients =~= old(self)@.with_deposit(id, (balance + amount) as u16).clients);
        proof {
            lemma_wf_frame(old(self)@, self@);
        }
        Ok(())
    }

    /// Credits the payment attached to a call, given in the smallest
    /// currency unit, as whole deposit units (`YOCTO_PER_UNIT` each).
    pub fn deposit(&mut self, id: u16, attached: u128) -> (r: Result<(), RentalError>)
        requires
            old(self).wf(),
        ensures
            final(self).wf(),
            (final(self)@, r) == credit_spec(old(self)@, id, (attached / YOCTO_PER_UNIT) as int),
    {
        self.credit_units(id, attached / YOCTO_PER_UNIT)
    }

    /// Type and price of every car that is not rented, in registration order.
    pub fn view_cars(&self) -> (r: Vec<(String, u16)>)
        requires
            self.wf(),
        ensures
            r@ == available_listing(self@),
    {
        let mut r: Vec<(String, u16)> = Vec::new();
        let mut i: usize = 0;
        while i < self.cars.len()
            invariant
                self.wf(),
                i <= self.cars@.len(),
                r@ == listing_below(self@, i as int),
            decreases self.cars@.len() - i,
        {
            if self.rented.is_available((i + 1) as u16) {
                r.push((self.cars[i].types.clone(), self.cars[i].price));
            }
            i += 1;
        }
        r
    }

    /// The deposit of a client.
    pub fn view_deposit(&self, id: u16) -> (r: Result<u16, RentalError>)
        ensures
            r == match self@.balance(id) {
                Some(b) => Ok::<u16, RentalError>(b),
                None => Err(RentalError::NotFound(EntityKind::Client, id)),
            },
    {
        if id == 0 || id as usize > self.clients.len() {
            Err(RentalError::NotFound(EntityKind::Client, id))
        } else {
            Ok(self.clients[(id - 1) as usize].deposit)
        }
    }

    /// Position of the first unrented car of the type, in registration order.
    fn find_available(&self, types: &String) -> (r: Option<usize>)
        requires
            self.wf(),
        ensures
            match r {
                Some(k) => k < self@.cars.len() && first_match(self@, types@) == Some(k as int),
                None => first_match(self@, types@) == None::<int>,
            },
    {
        let mut k: usize = 0;
        while k < self.cars.len()
            invariant
                self.wf(),
                k <= self.cars@.len(),
                first_match_below(self@, types@, k as int) == None::<int>,
            decreases self.cars@.len() - k,
        {
            if self.cars[k].types == *types && self.rented.is_available((k + 1) as u16) {
                assert(first_match_below(self@, types@, k + 1) == Some(k as int));
                proof {
                    lemma_first_match_stays(self@, types@, k + 1, self.cars@.len() as int);
                }
                return Some(k);
            }
            k += 1;
        }
        None
    }

    /// Hires the first unrented car of the requested type for a client at
    /// time `now`, and returns the new hire id. The quoted cost
    /// `price * period` must be covered by the deposit; nothing is debited.
    pub fn hire(&mut self, id: u16, types: String, period: u16, now: u64)
        -> (r: Result<u16, RentalError>)
        requires
            old(self).wf(),
            old(self)@.hires.len() < u16::MAX,
        ensures
            final(self).wf(),
            (final(self)@, r) == hire_spec(old(self)@, id, types@, period, now),
    {
        if id == 0 || id as usize > self.clients.len() {
            return Err(RentalError::NotFound(EntityKind::Client, id));
        }
        if period == 0 {
            return Err(RentalError::InvalidArgument);
        }
        let k = match self.find_available(&types) {
            None => {
                return Err(RentalError::NoMatchingCar);
            },
            Some(k) => k,
        };
        proof {
            lemma_first_match_in_range(self@, types@, self.cars@.len() as int);
        }
        let price = self.cars[k].price;
        assert((price as u32) * (period as u32) <= 65535 * 65535) by (nonlinear_arith)
            requires
                price <= 65535,
                period <= 65535,
        ;
        let estimate: u32 = (price as u32) * (period as u32);
        if estimate > self.clients[(id - 1) as usize].deposit as u32 {
            return Err(RentalError::InsufficientDeposit);
        }
        let car_id = (k + 1) as u16;
        let ghost pre = self@;
        let _ = self.rented.mark_rented(car_id);
        self.hires.push(Hire { client_id: id, car_id, period, start_time: now });
        proof {
            lemma_wf_open(pre, Hire { client_id: id, car_id, period, start_time: now });
        }
        Ok(self.hires.len() as u16)
    }

    /// Whether no hire after position `idx` took the same car.
    fn is_latest_hire_of_car(&self, idx: usize) -> (r: bool)
        requires
            self.wf(),
            idx < self.hires@.len(),
        ensures
            r == forall|j: int|
                idx < j < self.hires@.len() ==> #[trigger] self.hires@[j].car_id
                    != self.hires@[idx as int].car_id,
    {
        let car_id = self.hires[idx].car_id;
        let mut j: usize = idx + 1;
        while j < self.hires.len()
            invariant
                idx < j <= self.hires@.len(),
                car_id == self.hires@[idx as int].car_id,
                forall|m: int| idx < m < j ==> #[trigger] self.hires@[m].car_id != car_id,
            decreases self.hires@.len() - j,
        {
            if self.hires[j].car_id == car_id {
                return false;
            }
            j += 1;
        }
        true
    }

    /// Closes an open hire at time `now`: bills the whole minutes elapsed
    /// since it started at the car's price, debits that from the client's
    /// deposit, and makes the car available again.
    pub fn return_car(&mut self, id: u16, now: u64) -> (r: Result<(), RentalError>)
        requires
            old(self).wf(),
        ensures
            final(self).wf(),
            (final(self)@, r) == return_spec(old(self)@, id, now),
    {
        if id == 0 || id as usize > self.hires.len() {
            return Err(RentalError::NotFound(EntityKind::Hire, id));
        }
        let idx = (id - 1) as usize;
        let h = self.hires[idx];
        if self.rented.is_available(h.car_id) || !self.is_latest_hire_of_car(idx) {
            return Err(RentalError::AlreadyClosed);
        }
        if now < h.start_time {
            return Err(RentalError::InvalidArgument);
        }
        let minutes: u64 = (now - h.start_time) / NANOS_PER_MINUTE;
        let price = self.cars[(h.car_id - 1) as usize].price;
        assert((minutes as u128) * (price as u128) <= 0xffff_ffff_ffff_ffff * 0xffff) by (nonlinear_arith)
            requires
                minutes <= 0xffff_ffff_ffff_ffffu64,
                price <= 0xffffu16,
        ;
        let cost: u128 = (minutes as u128) * (price as u128);
        let ci = (h.client_id - 1) as usize;
        let balance = self.clients[ci].deposit;
        if cost > balance as u128 {
            return Err(RentalError::InsufficientDeposit);
        }
        let ghost pre = self@;
        self.clients[ci].deposit = (balance as u128 - cost) as u16;
        assert(self@.clients =~= pre.with_deposit(h.client_id, (balance - cost) as u16).clients);
        proof {
            lemma_wf_frame(pre, self@);
        }
        let ghost paid = self@;
        let _ = self.rented.mark_returned(h.car_id);
        proof {
            lemma_wf_release(paid, h.car_id);
        }
        Ok(())
    }

    /// Number of registered cars.
    pub fn car_count(&self) -> (r: usize)
        ensures
            r == self@.cars.len(),
    {
        self.cars.len()
    }

    /// Number of registered clients.
    pub fn client_count(&self) -> (r: usize)
        ensures
            r == self@.clients.len(),
    {
        self.clients.len()
    }

    /// Number of hire records, open or closed.
    pub fn hire_count(&self) -> (r: usize)
        ensures
            r == self@.hires.len(),
    {
        self.hires.len()
    }
}

/// Registering cars or clients, or changing a deposit, keeps the model well
/// formed: hires and rented cars are untouched and nothing is unregistered.
proof fn lemma_wf_frame(s: RentalState, t: RentalState)
    requires
        s.wf(),
        t.hires == s.hires,
        t.rented == s.rented,
        s.cars.len() <= t.cars.len() <= u16::MAX,
        s.clients.len() <= t.clients.len() <= u16::MAX,
    ensures
        t.wf(),
{
    assert forall|c: u16| #[trigger] t.rented.contains(c) implies exists|h: int|
        0 <= h < t.hires.len() && #[trigger] t.hires[h].car_id == c by {
        assert(s.rented.contains(c));
    }
    assert forall|h: int| 0 <= h < t.hires.len() implies {
            &&& t.has_car(#[trigger] t.hires[h].car_id)
            &&& t.has_client(t.hires[h].client_id)
            &&& t.hires[h].period > 0
        } by {
        assert(s.has_car(s.hires[h].car_id));
    }
}

/// Opening a hire of a registered, unrented car keeps the model well formed.
proof fn lemma_wf_open(s: RentalState, h: Hire)
    requires
        s.wf(),
        s.hires.len() < u16::MAX,
        s.has_car(h.car_id),
        s.has_client(h.client_id),
        h.period > 0,
    ensures
        (RentalState { hires: s.hires.push(h), rented: s.rented.insert(h.car_id), ..s }).wf(),
{
    let t = RentalState { hires: s.hires.push(h), rented: s.rented.insert(h.car_id), ..s };
    assert forall|c: u16| #[trigger] t.rented.contains(c) implies exists|i: int|
        0 <= i < t.hires.len() && #[trigger] t.hires[i].car_id == c by {
        if c == h.car_id {
            assert(t.hires[s.hires.len() as int].car_id == c);
        } else {
            assert(s.rented.contains(c));
            let i = choose|i: int| 0 <= i < s.hires.len() && #[trigger] s.hires[i].car_id == c;
            assert(t.hires[i] == s.hires[i]);
        }
    }
    assert forall|i: int| 0 <= i < t.hires.len() implies {
            &&& t.has_car(#[trigger] t.hires[i].car_id)
            &&& t.has_client(t.hires[i].client_id)
            &&& t.hires[i].period > 0
        } by {
        if i < s.hires.len() {
            assert(t.hires[i] == s.hires[i]);
            assert(s.has_car(s.hires[i].car_id));
        }
    }
}

/// Making a car available again keeps the model well formed.
proof fn lemma_wf_release(s: RentalState, car_id: u16)
    requires
        s.wf(),
    ensures
        (RentalState { rented: s.rented.remove(car_id), ..s }).wf(),
{
    let t = RentalState { rented: s.rented.remove(car_id), ..s };
    assert forall|c: u16| #[trigger] t.rented.contains(c) implies exists|h: int|
        0 <= h < t.hires.len() && #[trigger] t.hires[h].car_id == c by {
        assert(s.rented.contains(c));
        let h = choose|h: int| 0 <= h < s.hires.len() && #[trigger] s.hires[h].car_id == c;
        assert(t.hires[h].car_id == c);
    }
    assert forall|h: int| 0 <= h < t.hires.len() implies {
            &&& t.has_car(#[trigger] t.hires[h].car_id)
            &&& t.has_client(t.hires[h].client_id)
            &&& t.hires[h].period > 0
        } by {
        assert(s.has_car(s.hires[h].car_id));
    }
}

/// A match found among the first `n` cars lies among them.
proof fn lemma_first_match_in_range(s: RentalState, types: Seq<char>, n: int)
    ensures
        match first_match_below(s, types, n) {
            Some(k) => 0 <= k < n && car_available_for(s, k, types),
            None => true,
        },
    decreases n,
{
    if n > 0 {
        lemma_first_match_in_range(s, types, n - 1);
    }
}

/// Once a match is found among the first `n` cars, looking further finds the same one.
proof fn lemma_first_match_stays(s: RentalState, types: Seq<char>, n: int, m: int)
    requires
        n <= m,
        first_match_below(s, types, n) is Some,
    ensures
        first_match_below(s, types, m) == first_match_below(s, types, n),
    decreases m - n,
{
    if n < m {
        lemma_first_match_stays(s, types, n, m - 1);
    }
}

} // verus!
