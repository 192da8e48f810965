//! The mathematical model of the ledger: its abstract state, one
//! operation datatype covering every state-changing call, and the
//! transition rules that say, for each operation, the state it leads to
//! and the result it reports. Every executable operation of
//! [`crate::ledger::Pallet`] is specified against these rules.

use vstd::prelude::*;
use crate::types::AccountId;
use crate::types::Error;
use crate::types::FlexibilitySellingData;
use crate::types::NegotiationKey;
use crate::types::PaymentKey;
use crate::types::FLEXIBILITY_SELLING_STATE_CONFIRMED;
use crate::types::FLEXIBILITY_SELLING_STATE_NOT_DECIDED;
use crate::types::FLEXIBILITY_SELLING_STATE_REJECTED;

verus! {

/// The abstract ledger state: the three durable mappings.
#[verifier::ext_equal]
pub struct LedgerView {
    /// Amount owed per payment slot.
    pub payments: Map<PaymentKey, u32>,
    /// Confirmation value per payment slot; presence locks the slot.
    pub confirmations: Map<PaymentKey, u32>,
    /// Negotiation record per flexibility offer.
    pub negotiations: Map<NegotiationKey, FlexibilitySellingData>,
}

/// The ledger state before any operation.
pub open spec fn init() -> LedgerView {
    LedgerView {
        payments: Map::empty(),
        confirmations: Map::empty(),
        negotiations: Map::empty(),
    }
}

/// The payment slot addressed by a sender, a receiver and a time slot.
pub open spec fn payment_key(sender: AccountId, receiver: AccountId, timestamp: u32) -> PaymentKey {
    PaymentKey { sender, receiver, timestamp }
}

/// The negotiation slot addressed by its five identifiers.
pub open spec fn negotiation_key(
    seller: AccountId,
    buyer: AccountId,
    market_id: u32,
    market_timestamp: u32,
    asset_id: u32,
) -> NegotiationKey {
    NegotiationKey { seller, buyer, market_id, market_timestamp, asset_id }
}

/// One state-changing call, together with the verified principal that
/// makes it.
pub enum Op {
    /// The sender records a pending payment.
    AddPayment { sender: AccountId, receiver: AccountId, ts: u32, value: u32 },
    /// The sender overwrites the amount of its pending payment.
    ModifyPayment { sender: AccountId, receiver: AccountId, ts: u32, value: u32 },
    /// The sender withdraws its pending payment.
    RemovePayment { sender: AccountId, receiver: AccountId, ts: u32 },
    /// The receiver confirms a payment addressed to it, locking the slot.
    AddConfirmation { receiver: AccountId, sender: AccountId, ts: u32, status: u32 },
    /// The receiver withdraws its confirmation, releasing the lock.
    RemoveConfirmation { receiver: AccountId, sender: AccountId, ts: u32 },
    /// The seller offers flexibility to a buyer on a market.
    OfferFlexibility {
        seller: AccountId,
        buyer: AccountId,
        market_id: u32,
        market_timestamp: u32,
        asset_id: u32,
        sold_power: u32,
        change_fct_w: u32,
    },
    /// The buyer decides an offer addressed to it.
    Decide {
        buyer: AccountId,
        seller: AccountId,
        market_id: u32,
        market_timestamp: u32,
        asset_id: u32,
        new_state: u32,
    },
}

/// The state reached by `op` from `v`, and the result the operation
/// reports. A failed operation leaves the state exactly as it was.
pub open spec fn step_result(v: LedgerView, op: Op) -> (LedgerView, Result<(), Error>) {
    match op {
        Op::AddPayment { sender, receiver, ts, value } => {
            let k = payment_key(sender, receiver, ts);
            if v.payments.contains_key(k) {
                (v, Err(Error::PaymentAlreadyExists))
            } else {
                (LedgerView { payments: v.payments.insert(k, value), ..v }, Ok(()))
            }
        },
        Op::ModifyPayment { sender, receiver, ts, value } => {
            let k = payment_key(sender, receiver, ts);
            if !v.payments.contains_key(k) {
                (v, Err(Error::PaymentNotExists))
            } else if v.confirmations.contains_key(k) {
                (v, Err(Error::ConfirmationAlreadyExists))
            } else {
                (LedgerView { payments: v.payments.insert(k, value), ..v }, Ok(()))
            }
        },
        Op::RemovePayment { sender, receiver, ts } => {
            let k = payment_key(sender, receiver, ts);
            if !v.payments.contains_key(k) {
                (v, Err(Error::PaymentNotExists))
            } else if v.confirmations.contains_key(k) {
                (v, Err(Error::ConfirmationAlreadyExists))
            } else {
                (LedgerView { payments: v.payments.remove(k), ..v }, Ok(()))
            }
        },
        Op::AddConfirmation { receiver, sender, ts, status } => {
            let k = payment_key(sender, receiver, ts);
            if !v.payments.contains_key(k) {
                (v, Err(Error::PaymentNotExists))
            } else if v.confirmations.contains_key(k) {
                (v, Err(Error::ConfirmationAlreadyExists))
            } else {
                (LedgerView { confirmations: v.confirmations.insert(k, status), ..v }, Ok(()))
            }
        },
        Op::RemoveConfirmation { receiver, sender, ts } => {
            let k = payment_key(sender, receiver, ts);
            if !v.confirmations.contains_key(k) {
                (v, Err(Error::ConfirmationNotExists))
            } else {
                (LedgerView { confirmations: v.confirmations.remove(k), ..v }, Ok(()))
            }
        },
        Op::OfferFlexibility {
            seller,
            buyer,
            market_id,
            market_timestamp,
            asset_id,
            sold_power,
            change_fct_w,
        } => {
            let k = negotiation_key(seller, buyer, market_id, market_timestamp, asset_id);
            let d = FlexibilitySellingData {
                sold_power,
                change_fct_w,
                state: FLEXIBILITY_SELLING_STATE_NOT_DECIDED,
            };
            (LedgerView { negotiations: v.negotiations.insert(k, d), ..v }, Ok(()))
        },
        Op::Decide { buyer, seller, market_id, market_timestamp, asset_id, new_state } => {
            let k = negotiation_key(seller, buyer, market_id, market_timestamp, asset_id);
            if !v.negotiations.contains_key(k) {
                (v, Err(Error::FlexibilitySellingNotExisting))
            } else {
                let d = v.negotiations[k];
                if d.state != FLEXIBILITY_SELLING_STATE_NOT_DECIDED {
                    (v, Err(Error::FlexibilitySellingAlreadyDecided))
                } else if new_state == FLEXIBILITY_SELLING_STATE_CONFIRMED {
                    let decided = FlexibilitySellingData { state: new_state, ..d };
                    let pk = payment_key(buyer, seller, market_timestamp);
                    let amount = (d.sold_power * d.change_fct_w) as u32;
                    (
                        LedgerView {
                            negotiations: v.negotiations.insert(k, decided),
                            payments: v.payments.insert(pk, amount),
                            ..v
                        },
                        Ok(()),
                    )
                } else if new_state == FLEXIBILITY_SELLING_STATE_REJECTED {
                    let decided = FlexibilitySellingData { state: new_state, ..d };
                    (LedgerView { negotiations: v.negotiations.insert(k, decided), ..v }, Ok(()))
                } else {
                    (v, Err(Error::FlexibilitySellingUnknownState))
                }
            }
        },
    }
}

/// The state reached by `op` from `v`.
pub open spec fn step(v: LedgerView, op: Op) -> LedgerView {
    step_result(v, op).0
}

/// Whether `op` succeeds from `v`.
pub open spec fn op_succeeds(v: LedgerView, op: Op) -> bool {
    step_result(v, op).1 is Ok
}

/// The state reached by running the operations of `ops` in order,
/// oldest first, from `v`.
pub open spec fn run(v: LedgerView, ops: Seq<Op>) -> LedgerView
    decreases ops.len(),
{
    if ops.len() == 0 {
        v
    } else {
        step(run(v, ops.drop_last()), ops.last())
    }
}

/// Whether `op`, run from `v`, succeeds and creates the payment slot
/// `k`: a recorded payment, or a settlement posted by a confirmed
/// negotiation.
pub open spec fn creates_payment(v: LedgerView, op: Op, k: PaymentKey) -> bool {
    op_succeeds(v, op) && match op {
        Op::AddPayment { sender, receiver, ts, .. } => payment_key(sender, receiver, ts) == k,
        Op::Decide { buyer, seller, market_timestamp, new_state, .. } => new_state
            == FLEXIBILITY_SELLING_STATE_CONFIRMED && payment_key(buyer, seller, market_timestamp)
            == k,
        _ => false,
    }
}

/// Whether `op`, run from `v`, succeeds and removes the payment slot `k`.
pub open spec fn removes_payment(v: LedgerView, op: Op, k: PaymentKey) -> bool {
    op_succeeds(v, op) && match op {
        Op::RemovePayment { sender, receiver, ts } => payment_key(sender, receiver, ts) == k,
        _ => false,
    }
}

/// Validity of a ledger state: a confirmation stands only where the
/// payment it confirms stands. A confirmation can only be added when its
/// payment exists, and a confirmed payment cannot be removed, so every
/// reachable state is valid; [`crate::laws::step_preserves_inv`] proves it.
pub open spec fn inv(v: LedgerView) -> bool {
    forall|k: PaymentKey| v.confirmations.contains_key(k) ==> v.payments.contains_key(k)
}

} // verus!
