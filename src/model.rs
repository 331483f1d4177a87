use vstd::prelude::*;

use crate::records::{Car, Client, EntityKind, Hire, RentalError};

verus! {

/// Nanoseconds in one billing-minute.
pub const NANOS_PER_MINUTE: u64 = 60_000_000_000;

/// Smallest currency units in one unit of deposit.
pub const YOCTO_PER_UNIT: u128 = 1_000_000_000_000_000_000_000_000;

/// The abstract state of the ledger. The car, client and hire with id `n`
/// sit at position `n - 1` of their sequence; `rented` holds the ids of the
/// cars under an open rental.
pub struct RentalState {
    pub cars: Seq<Car>,
    pub clients: Seq<Client>,
    pub hires: Seq<Hire>,
    pub rented: Set<u16>,
}

impl RentalState {
    pub open spec fn has_car(self, id: u16) -> bool {
        1 <= id <= self.cars.len()
    }

    pub open spec fn has_client(self, id: u16) -> bool {
        1 <= id <= self.clients.len()
    }

    pub open spec fn has_hire(self, id: u16) -> bool {
        1 <= id <= self.hires.len()
    }

    pub open spec fn car(self, id: u16) -> Car {
        self.cars[id - 1]
    }

    pub open spec fn client(self, id: u16) -> Client {
        self.clients[id - 1]
    }

    pub open spec fn hire(self, id: u16) -> Hire {
        self.hires[id - 1]
    }

    /// The ids of every kind fit in `u16`, every rented car is registered
    /// and has a hire, and every hire refers to a registered car and client
    /// and quotes a positive period.
    pub open spec fn wf(self) -> bool {
        &&& self.cars.len() <= u16::MAX
        &&& self.clients.len() <= u16::MAX
        &&& self.hires.len() <= u16::MAX
        &&& forall|c: u16| #[trigger] self.rented.contains(c) ==> self.has_car(c)
        &&& forall|c: u16| #[trigger] self.rented.contains(c)
            ==> exists|h: int| 0 <= h < self.hires.len() && #[trigger] self.hires[h].car_id == c
        &&& forall|h: int| 0 <= h < self.hires.len() ==> {
            &&& self.has_car(#[trigger] self.hires[h].car_id)
            &&& self.has_client(self.hires[h].client_id)
            &&& self.hires[h].period > 0
        }
    }

    /// The deposit of a client, if registered.
    pub open spec fn balance(self, id: u16) -> Option<u16> {
        if self.has_client(id) {
            Some(self.client(id).deposit)
        } else {
            None
        }
    }

    pub open spec fn with_deposit(self, id: u16, deposit: u16) -> RentalState {
        RentalState {
            clients: self.clients.update(
                id - 1,
                Client { name: self.client(id).name, deposit },
            ),
            ..self
        }
    }
}

/// The car at position `k` has the requested type and is not rented.
pub open spec fn car_available_for(s: RentalState, k: int, types: Seq<char>) -> bool {
    s.cars[k].types@ == types && !s.rented.contains((k + 1) as u16)
}

/// Position of the first car among the first `n` that is available for the type.
pub open spec fn first_match_below(s: RentalState, types: Seq<char>, n: int) -> Option<int>
    decreases n,
{
    if n <= 0 {
        None
    } else {
        match first_match_below(s, types, n - 1) {
            Some(k) => Some(k),
            None => if car_available_for(s, n - 1, types) {
                Some(n - 1)
            } else {
                None
            },
        }
    }
}

/// Position, in registration order, of the first unrented car of the type.
pub open spec fn first_match(s: RentalState, types: Seq<char>) -> Option<int> {
    first_match_below(s, types, s.cars.len() as int)
}

/// `(type, price)` of each unrented car among the first `n`, in registration order.
pub open spec fn listing_below(s: RentalState, n: int) -> Seq<(String, u16)>
    decreases n,
{
    if n <= 0 {
        Seq::empty()
    } else if s.rented.contains(n as u16) {
        listing_below(s, n - 1)
    } else {
        listing_below(s, n - 1).push((s.cars[n - 1].types, s.cars[n - 1].price))
    }
}

/// `(type, price)` of every unrented car, in registration order.
pub open spec fn available_listing(s: RentalState) -> Seq<(String, u16)> {
    listing_below(s, s.cars.len() as int)
}

/// Whole minutes elapsed from `start` to `now`, rounded down.
pub open spec fn billing_minutes(start: u64, now: u64) -> int {
    (now - start) / (NANOS_PER_MINUTE as int)
}

/// A hire is open while its car is rented and no later hire took that car.
pub open spec fn hire_is_open(s: RentalState, id: u16) -> bool {
    let car_id = s.hire(id).car_id;
    &&& s.rented.contains(car_id)
    &&& forall|j: int| id <= j < s.hires.len() ==> #[trigger] s.hires[j].car_id != car_id
}

/// Adding `amount` to a client's deposit: the client must exist, the amount
/// must be positive, and the new balance must fit.
pub open spec fn credit_spec(s: RentalState, id: u16, amount: int) -> (
    RentalState,
    Result<(), RentalError>,
) {
    if !s.has_client(id) {
        (s, Err(RentalError::NotFound(EntityKind::Client, id)))
    } else if amount <= 0 {
        (s, Err(RentalError::InvalidArgument))
    } else if s.client(id).deposit + amount > u16::MAX {
        (s, Err(RentalError::Overflow))
    } else {
        (s.with_deposit(id, (s.client(id).deposit + amount) as u16), Ok(()))
    }
}

/// Hiring the first unrented car of a type for a client, at time `now`:
/// the client must exist, the period must be positive, some car must match,
/// and `price * period` must not exceed the client's deposit. No money moves.
pub open spec fn hire_spec(s: RentalState, id: u16, types: Seq<char>, period: u16, now: u64) -> (
    RentalState,
    Result<u16, RentalError>,
) {
    if !s.has_client(id) {
        (s, Err(RentalError::NotFound(EntityKind::Client, id)))
    } else if period == 0 {
        (s, Err(RentalError::InvalidArgument))
    } else {
        match first_match(s, types) {
            None => (s, Err(RentalError::NoMatchingCar)),
            Some(k) => if s.cars[k].price * period > s.client(id).deposit {
                (s, Err(RentalError::InsufficientDeposit))
            } else {
                let car_id = (k + 1) as u16;
                (
                    RentalState {
                        hires: s.hires.push(
                            Hire { client_id: id, car_id, period, start_time: now },
                        ),
                        rented: s.rented.insert(car_id),
                        ..s
                    },
                    Ok((s.hires.len() + 1) as u16),
                )
            },
        }
    }
}

/// Closing an open hire at time `now`: the elapsed whole minutes times the
/// car's price is debited from the client's deposit and the car becomes
/// available. A cost above the deposit leaves the rental open.
pub open spec fn return_spec(s: RentalState, id: u16, now: u64) -> (
    RentalState,
    Result<(), RentalError>,
) {
    if !s.has_hire(id) {
        (s, Err(RentalError::NotFound(EntityKind::Hire, id)))
    } else if !hire_is_open(s, id) {
        (s, Err(RentalError::AlreadyClosed))
    } else {
        let h = s.hire(id);
        if now < h.start_time {
            (s, Err(RentalError::InvalidArgument))
        } else {
            let cost = billing_minutes(h.start_time, now) * s.car(h.car_id).price;
            let deposit = s.client(h.client_id).deposit;
            if cost > deposit {
                (s, Err(RentalError::InsufficientDeposit))
            } else {
                let paid = s.with_deposit(h.client_id, (deposit - cost) as u16);
                (RentalState { rented: s.rented.remove(h.car_id), ..paid }, Ok(()))
            }
        }
    }
}

} // verus!
