//! The shared key and record types of the two ledgers, the error
//! taxonomy, and the events that successful transitions append to the
//! ledger's log.

use vstd::prelude::*;
use crate::store::StoreKey;

verus! {

/// An authenticated caller identity.
pub type AccountId = u64;

/// Confirmation status: the payment matched the receiver's expectation.
pub const CONFIRMATION_OK: u32 = 1;

/// Confirmation status: the sender overestimated the payment.
pub const CONFIRMATION_NOK_OVERESTIMATION: u32 = 2;

/// Confirmation status: the sender underestimated the payment.
pub const CONFIRMATION_NOK_UNDERESTIMATION: u32 = 3;

/// Negotiation state: offered and not yet decided by the buyer.
pub const FLEXIBILITY_SELLING_STATE_NOT_DECIDED: u32 = 1;

/// Negotiation state: confirmed by the buyer; terminal.
pub const FLEXIBILITY_SELLING_STATE_CONFIRMED: u32 = 2;

/// Negotiation state: rejected by the buyer; terminal.
pub const FLEXIBILITY_SELLING_STATE_REJECTED: u32 = 3;

/// Identifies one payment slot: no two payments share a key.
/// A confirmation is keyed by the key of the payment it confirms.
#[derive(Clone, Copy, PartialEq, Eq, Structural, Debug)]
pub struct PaymentKey {
    pub sender: AccountId,
    pub receiver: AccountId,
    pub timestamp: u32,
}

/// Identifies one flexibility negotiation: no two negotiations share a key.
#[derive(Clone, Copy, PartialEq, Eq, Structural, Debug)]
pub struct NegotiationKey {
    pub seller: AccountId,
    pub buyer: AccountId,
    pub market_id: u32,
    pub market_timestamp: u32,
    pub asset_id: u32,
}

/// One flexibility-sale offer: the negotiated terms and the state of the
/// buyer's decision.
#[derive(Clone, Copy, PartialEq, Eq, Structural, Debug)]
pub struct FlexibilitySellingData {
    /// Sold power of the asset/flexibility.
    pub sold_power: u32,
    /// Change rate (FCT/W) of the flexibility market.
    pub change_fct_w: u32,
    /// Selling state, one of the `FLEXIBILITY_SELLING_STATE_*` values.
    pub state: u32,
}

impl StoreKey for PaymentKey {
    fn key_eq(&self, other: &Self) -> (r: bool) {
        self.sender == other.sender && self.receiver == other.receiver && self.timestamp
            == other.timestamp
    }
}

impl StoreKey for NegotiationKey {
    fn key_eq(&self, other: &Self) -> (r: bool) {
        self.seller == other.seller && self.buyer == other.buyer && self.market_id
            == other.market_id && self.market_timestamp == other.market_timestamp && self.asset_id
            == other.asset_id
    }
}

/// A caller-attributable validation failure. Every failure aborts the
/// single operation with no state change.
#[derive(Clone, Copy, PartialEq, Eq, Structural, Debug)]
pub enum Error {
    NoneValue,
    StorageOverflow,
    PaymentAlreadyExists,
    PaymentNotExists,
    ConfirmationAlreadyExists,
    ConfirmationNotExists,
    FlexibilitySellingNotExisting,
    FlexibilitySellingAlreadyDecided,
    FlexibilitySellingRejected,
    FlexibilitySellingUnknownState,
}

/// One structured notification, appended to the ledger's log for
/// external observers.
#[derive(Clone, Copy, PartialEq, Eq, Structural, Debug)]
pub enum Event {
    GotFromPayments { key_sender: AccountId, key_receiver: AccountId, ts: u32, value: u32 },
    AddedToPayments { key_sender: AccountId, key_receiver: AccountId, ts: u32, value: u32 },
    RemovedFromPayments { key_sender: AccountId, key_receiver: AccountId, ts: u32 },
    SetInPayments { key_sender: AccountId, key_receiver: AccountId, ts: u32 },
    InPayments(),
    NotInPayments(),
    AddedToConfirmations {
        key_confirmer: AccountId,
        key_sender: AccountId,
        key_receiver: AccountId,
        ts: u32,
        status: u32,
    },
    RemovedFromConfirmations { key_sender: AccountId, key_receiver: AccountId, ts: u32 },
    ConfirmationOK(),
    ConfirmationOverEstimation(),
    ConfirmationUnderEstimation(),
    SuccessfullySoldFlexibility {
        seller: AccountId,
        buyer: AccountId,
        flexibility_market_identifier: u32,
        flexibility_market_timestamp: u32,
        asset_identifier: u32,
        sold_power: u32,
        change_fct_w: u32,
    },
    AlreadySoldFlexibility {
        seller: AccountId,
        buyer: AccountId,
        flexibility_market_identifier: u32,
        flexibility_market_timestamp: u32,
        asset_identifier: u32,
    },
    FlexibilitySellingNotExisting {
        seller: AccountId,
        buyer: AccountId,
        flexibility_market_identifier: u32,
        flexibility_market_timestamp: u32,
        asset_identifier: u32,
    },
    FlexibilitySellingConfirmed {
        seller: AccountId,
        buyer: AccountId,
        flexibility_market_identifier: u32,
        flexibility_market_timestamp: u32,
        asset_identifier: u32,
    },
    FlexibilitySellingRejected {
        seller: AccountId,
        buyer: AccountId,
        flexibility_market_identifier: u32,
        flexibility_market_timestamp: u32,
        asset_identifier: u32,
    },
}

} // verus!
