//! The general laws of the ledger, stated over the transition rules of
//! [`crate::model`] and proved for every state and every history.

use vstd::prelude::*;
use crate::model::creates_payment;
use crate::model::init;
use crate::model::inv;
use crate::model::negotiation_key;
use crate::model::op_succeeds;
use crate::model::payment_key;
use crate::model::removes_payment;
use crate::model::run;
use crate::model::step;
use crate::model::step_result;
use crate::model::LedgerView;
use crate::model::Op;
use crate::types::AccountId;
use crate::types::Error;
use crate::types::PaymentKey;
use crate::types::FLEXIBILITY_SELLING_STATE_CONFIRMED;
use crate::types::FLEXIBILITY_SELLING_STATE_NOT_DECIDED;
use crate::types::FLEXIBILITY_SELLING_STATE_REJECTED;

verus! {

/// The state before any operation is valid.
pub proof fn init_satisfies_inv()
    ensures
        inv(init()),
{
}

/// Every operation preserves validity: a confirmation is only added
/// where its payment stands, and the lock refuses to remove a confirmed
/// payment, so a confirmation never outlives its payment.
pub proof fn step_preserves_inv(v: LedgerView, op: Op)
    requires
        inv(v),
    ensures
        inv(step(v, op)),
{
}

/// Every state reachable by a history of operations from a valid state
/// is valid; in particular every state reachable from the empty ledger.
pub proof fn run_preserves_inv(v0: LedgerView, ops: Seq<Op>)
    requires
        inv(v0),
    ensures
        inv(run(v0, ops)),
    decreases ops.len(),
{
    if ops.len() > 0 {
        run_preserves_inv(v0, ops.drop_last());
        step_preserves_inv(run(v0, ops.drop_last()), ops.last());
    }
}

/// Confirmation lock: while a confirmation stands at a payment slot,
/// modifying or removing the payment there fails with the lock
/// violation and leaves the ledger unchanged.
pub proof fn confirmation_locks_payment(
    v: LedgerView,
    sender: AccountId,
    receiver: AccountId,
    ts: u32,
    value: u32,
)
    requires
        inv(v),
        v.confirmations.contains_key(payment_key(sender, receiver, ts)),
    ensures
        step_result(v, (Op::ModifyPayment { sender, receiver, ts, value })) == (
            v,
            Err::<(), Error>(Error::ConfirmationAlreadyExists),
        ),
        step_result(v, (Op::RemovePayment { sender, receiver, ts })) == (
            v,
            Err::<(), Error>(Error::ConfirmationAlreadyExists),
        ),
{
}

/// Negotiation monotonicity: once a decision has succeeded for a key, a
/// second decision on the same key fails as already decided, whatever
/// state it asks for, and leaves the ledger unchanged.
pub proof fn decide_is_final(
    v: LedgerView,
    buyer: AccountId,
    seller: AccountId,
    market_id: u32,
    market_timestamp: u32,
    asset_id: u32,
    first_state: u32,
    second_state: u32,
)
    requires
        op_succeeds(
            v,
            (Op::Decide {
                buyer,
                seller,
                market_id,
                market_timestamp,
                asset_id,
                new_state: first_state,
            }),
        ),
    ensures
        ({
            let v1 = step(
                v,
                (Op::Decide {
                    buyer,
                    seller,
                    market_id,
                    market_timestamp,
                    asset_id,
                    new_state: first_state,
                }),
            );
            step_result(
                v1,
                (Op::Decide {
                    buyer,
                    seller,
                    market_id,
                    market_timestamp,
                    asset_id,
                    new_state: second_state,
                }),
            ) == (v1, Err::<(), Error>(Error::FlexibilitySellingAlreadyDecided))
        }),
{
}

/// Settlement correctness: from an undecided offer, a confirmed
/// decision posts exactly the payment of `sold_power * change_fct_w`
/// owed by the buyer to the seller for the market's time slot, and
/// finalizes the record; a rejected decision finalizes the record and
/// posts nothing.
pub proof fn settlement_correctness(
    v: LedgerView,
    buyer: AccountId,
    seller: AccountId,
    market_id: u32,
    market_timestamp: u32,
    asset_id: u32,
)
    requires
        v.negotiations.contains_key(negotiation_key(seller, buyer, market_id, market_timestamp, asset_id)),
        v.negotiations[negotiation_key(seller, buyer, market_id, market_timestamp, asset_id)].state
            == FLEXIBILITY_SELLING_STATE_NOT_DECIDED,
    ensures
        ({
            let k = negotiation_key(seller, buyer, market_id, market_timestamp, asset_id);
            let d = v.negotiations[k];
            let confirmed = step(
                v,
                (Op::Decide {
                    buyer,
                    seller,
                    market_id,
                    market_timestamp,
                    asset_id,
                    new_state: FLEXIBILITY_SELLING_STATE_CONFIRMED,
                }),
            );
            &&& confirmed.payments.contains_key(payment_key(buyer, seller, market_timestamp))
            &&& confirmed.payments[payment_key(buyer, seller, market_timestamp)] == (d.sold_power
                * d.change_fct_w) as u32
            &&& confirmed.negotiations[k].state == FLEXIBILITY_SELLING_STATE_CONFIRMED
        }),
        ({
            let k = negotiation_key(seller, buyer, market_id, market_timestamp, asset_id);
            let rejected = step(
                v,
                (Op::Decide {
                    buyer,
                    seller,
                    market_id,
                    market_timestamp,
                    asset_id,
                    new_state: FLEXIBILITY_SELLING_STATE_REJECTED,
                }),
            );
            &&& rejected.payments == v.payments
            &&& rejected.negotiations[k].state == FLEXIBILITY_SELLING_STATE_REJECTED
        }),
{
}

/// How one operation changes whether the payment slot `k` is taken: a
/// creating operation takes it, a removing operation frees it, and
/// every other operation, failed ones included, leaves it as it was.
pub proof fn step_payment_presence(v: LedgerView, op: Op, k: PaymentKey)
    ensures
        step(v, op).payments.contains_key(k) == if creates_payment(v, op, k) {
            true
        } else if removes_payment(v, op, k) {
            false
        } else {
            v.payments.contains_key(k)
        },
{
}

/// Whether `ops[i]`, in the history `ops` run from `v0`, creates the
/// payment slot `k`, and no later operation of the history removes it.
pub open spec fn creates_and_kept_at(v0: LedgerView, ops: Seq<Op>, k: PaymentKey, i: int) -> bool {
    &&& 0 <= i < ops.len()
    &&& creates_payment(run(v0, ops.take(i)), ops[i], k)
    &&& forall|j: int|
        i < j < ops.len() ==> !(#[trigger] removes_payment(run(v0, ops.take(j)), ops[j], k))
}

/// Whether some operation of the history `ops`, run from `v0`, creates
/// the payment slot `k` with no later operation removing it.
pub open spec fn created_and_kept(v0: LedgerView, ops: Seq<Op>, k: PaymentKey) -> bool {
    exists|i: int| #[trigger] creates_and_kept_at(v0, ops, k, i)
}

/// Whether no operation of the history `ops`, run from `v0`, removes
/// the payment slot `k`.
pub open spec fn never_removed(v0: LedgerView, ops: Seq<Op>, k: PaymentKey) -> bool {
    forall|j: int|
        0 <= j < ops.len() ==> !(#[trigger] removes_payment(run(v0, ops.take(j)), ops[j], k))
}

/// After running the history `ops` from `v0`, the payment slot `k` is
/// taken exactly when some operation of the history created it and no
/// later one removed it, or it was taken at the start and no operation
/// removed it.
pub proof fn payment_presence_from(v0: LedgerView, ops: Seq<Op>, k: PaymentKey)
    ensures
        run(v0, ops).payments.contains_key(k) <==> created_and_kept(v0, ops, k) || (
        v0.payments.contains_key(k) && never_removed(v0, ops, k)),
    decreases ops.len(),
{
    if ops.len() == 0 {
        assert(!created_and_kept(v0, ops, k)) by {
            if created_and_kept(v0, ops, k) {
                let i = choose|i: int| creates_and_kept_at(v0, ops, k, i);
                assert(false);
            }
        }
    } else {
        let n = ops.len() as int;
        let prefix = ops.drop_last();
        let op = ops.last();
        let vpre = run(v0, prefix);
        payment_presence_from(v0, prefix, k);
        step_payment_presence(vpre, op, k);
        assert(ops.take(n - 1) =~= prefix);
        assert forall|i: int| 0 <= i < n - 1 implies ops.take(i) =~= prefix.take(i) && ops[i]
            == prefix[i] by {}
        assert(run(v0, ops) == step(vpre, op));
        if creates_payment(vpre, op, k) {
            assert(creates_and_kept_at(v0, ops, k, n - 1));
            assert(created_and_kept(v0, ops, k));
            assert(run(v0, ops).payments.contains_key(k));
        } else if removes_payment(vpre, op, k) {
            assert(!run(v0, ops).payments.contains_key(k));
            assert(removes_payment(run(v0, ops.take(n - 1)), ops[n - 1], k));
            assert(!never_removed(v0, ops, k));
            assert(!created_and_kept(v0, ops, k)) by {
                if created_and_kept(v0, ops, k) {
                    let i = choose|i: int| creates_and_kept_at(v0, ops, k, i);
                    if i == n - 1 {
                        assert(creates_payment(run(v0, ops.take(n - 1)), ops[n - 1], k));
                        assert(false);
                    } else {
                        assert(removes_payment(run(v0, ops.take(n - 1)), ops[n - 1], k));
                        assert(false);
                    }
                }
            }
        } else {
            assert(run(v0, ops).payments.contains_key(k) == vpre.payments.contains_key(k));
            assert(created_and_kept(v0, ops, k) <==> created_and_kept(v0, prefix, k)) by {
                if created_and_kept(v0, prefix, k) {
                    let i = choose|i: int| creates_and_kept_at(v0, prefix, k, i);
                    assert(creates_payment(run(v0, ops.take(i)), ops[i], k));
                    assert forall|j: int| i < j < n implies !removes_payment(
                        run(v0, ops.take(j)),
                        ops[j],
                        k,
                    ) by {
                        if j < n - 1 {
                            assert(!removes_payment(run(v0, prefix.take(j)), prefix[j], k));
                        }
                    }
                    assert(creates_and_kept_at(v0, ops, k, i));
                }
                if created_and_kept(v0, ops, k) {
                    let i = choose|i: int| creates_and_kept_at(v0, ops, k, i);
                    assert(i < n - 1) by {
                        if i == n - 1 {
                            assert(creates_payment(run(v0, ops.take(n - 1)), ops[n - 1], k));
                            assert(false);
                        }
                    }
                    assert(creates_payment(run(v0, prefix.take(i)), prefix[i], k));
                    assert forall|j: int| i < j < n - 1 implies !removes_payment(
                        run(v0, prefix.take(j)),
                        prefix[j],
                        k,
                    ) by {
                        assert(!removes_payment(run(v0, ops.take(j)), ops[j], k));
                    }
                    assert(creates_and_kept_at(v0, prefix, k, i));
                }
            }
            assert(never_removed(v0, ops, k) <==> never_removed(v0, prefix, k)) by {
                if never_removed(v0, prefix, k) {
                    assert forall|j: int| 0 <= j < n implies !removes_payment(
                        run(v0, ops.take(j)),
                        ops[j],
                        k,
                    ) by {
                        if j < n - 1 {
                            assert(!removes_payment(run(v0, prefix.take(j)), prefix[j], k));
                        }
                    }
                }
                if never_removed(v0, ops, k) {
                    assert forall|j: int| 0 <= j < n - 1 implies !removes_payment(
                        run(v0, prefix.take(j)),
                        prefix[j],
                        k,
                    ) by {
                        assert(!removes_payment(run(v0, ops.take(j)), ops[j], k));
                    }
                }
            }
        }
    }
}

/// A payment stands after a history run from the empty ledger exactly
/// when some operation of the history recorded or settled it and no
/// later operation of the history removed it.
pub proof fn payment_presence_characterized(ops: Seq<Op>, k: PaymentKey)
    ensures
        run(init(), ops).payments.contains_key(k) <==> created_and_kept(init(), ops, k),
{
    payment_presence_from(init(), ops, k);
}

} // verus!
