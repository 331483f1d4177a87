use vstd::prelude::*;

use crate::contract::Contract;
use crate::model::{billing_minutes, credit_spec, hire_is_open, hire_spec, return_spec, RentalState};
use crate::records::RentalError;

verus! {

/// In every well-formed ledger (and every operation keeps the ledger well
/// formed) each rented car is a registered car, no car id is held twice in
/// the rented set, and no two open hires share a car.
pub proof fn lemma_rented_cars_registered(c: &Contract)
    requires
        c.wf(),
    ensures
        c.rented_ids().no_duplicates(),
        c@.rented == c.rented_ids().to_set(),
        forall|i: int| 0 <= i < c.rented_ids().len() ==> c@.has_car(#[trigger] c.rented_ids()[i]),
        forall|h1: u16, h2: u16|
            c@.has_hire(h1) && c@.has_hire(h2) && hire_is_open(c@, h1) && hire_is_open(c@, h2)
                && c@.hire(h1).car_id == c@.hire(h2).car_id ==> h1 == h2,
{
    c.lemma_rented_ids();
    assert forall|i: int| 0 <= i < c.rented_ids().len() implies c@.has_car(
        #[trigger] c.rented_ids()[i],
    ) by {
        assert(c.rented_ids().to_set().contains(c.rented_ids()[i]));
        assert(c@.rented.contains(c.rented_ids()[i]));
    }
    assert forall|h1: u16, h2: u16|
        c@.has_hire(h1) && c@.has_hire(h2) && hire_is_open(c@, h1) && hire_is_open(c@, h2)
            && c@.hire(h1).car_id == c@.hire(h2).car_id implies h1 == h2 by {
        if h1 < h2 {
            assert(c@.hires[h2 - 1].car_id != c@.hire(h1).car_id);
        } else if h2 < h1 {
            assert(c@.hires[h1 - 1].car_id != c@.hire(h2).car_id);
        }
    }
}

/// Settling a rental never overdraws a deposit: on success the client's
/// balance drops by exactly the elapsed minutes times the car's price, which
/// did not exceed it; a cost above the balance fails and changes nothing.
pub proof fn lemma_settlement_never_overdraws(s: RentalState, id: u16, now: u64)
    requires
        s.wf(),
        s.has_hire(id),
        hire_is_open(s, id),
        s.hire(id).start_time <= now,
    ensures
        ({
            let h = s.hire(id);
            let cost = billing_minutes(h.start_time, now) * s.car(h.car_id).price;
            let before = s.client(h.client_id).deposit;
            let (t, r) = return_spec(s, id, now);
            &&& cost <= before ==> r == Ok::<(), RentalError>(()) && t.client(h.client_id).deposit
                == before - cost && 0 <= before - cost
            &&& cost > before ==> r == Err::<(), RentalError>(RentalError::InsufficientDeposit)
                && t == s
        }),
{
    let h = s.hire(id);
    assert(s.has_car(h.car_id) && s.has_client(h.client_id));
    assert(0 <= billing_minutes(h.start_time, now) * s.car(h.car_id).price) by (nonlinear_arith)
        requires
            0 <= billing_minutes(h.start_time, now),
            0 <= s.car(h.car_id).price,
    ;
}

/// Crediting `x` units to a freshly registered client, whose deposit is
/// zero, succeeds and leaves exactly `x` on the deposit.
pub proof fn lemma_deposit_round_trip(s: RentalState, id: u16, x: int)
    requires
        s.wf(),
        s.balance(id) == Some(0u16),
        0 < x <= u16::MAX,
    ensures
        credit_spec(s, id, x).1 == Ok::<(), RentalError>(()),
        credit_spec(s, id, x).0.balance(id) == Some(x as u16),
{
}

/// Every operation validates before it commits: whenever it fails, the
/// ledger is left exactly as it was.
pub proof fn lemma_failed_operations_change_nothing(
    s: RentalState,
    id: u16,
    amount: int,
    types: Seq<char>,
    period: u16,
    now: u64,
)
    ensures
        credit_spec(s, id, amount).1 is Err ==> credit_spec(s, id, amount).0 == s,
        hire_spec(s, id, types, period, now).1 is Err ==> hire_spec(s, id, types, period, now).0 == s,
        return_spec(s, id, now).1 is Err ==> return_spec(s, id, now).0 == s,
{
}

} // verus!
