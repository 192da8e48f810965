//! A bilateral settlement ledger for energy-trading payments.
//!
//! Participants record pending payments keyed by (sender, receiver,
//! time-slot), confirm or dispute them, and negotiate flexibility sales
//! that, once accepted, atomically post a computed payment. The ledger
//! state lives in [`Pallet`]; every operation is specified against the
//! transition rules in [`model`] and the general laws are proved in
//! [`laws`].

pub mod laws;
pub mod ledger;
pub mod model;
pub mod store;
pub mod types;

pub use ledger::Pallet;
pub use model::LedgerView;
pub use model::Op;
pub use types::AccountId;
pub use types::Error;
pub use types::Event;
pub use types::FlexibilitySellingData;
pub use types::NegotiationKey;
pub use types::PaymentKey;
pub use types::CONFIRMATION_NOK_OVERESTIMATION;
pub use types::CONFIRMATION_NOK_UNDERESTIMATION;
pub use types::CONFIRMATION_OK;
pub use types::FLEXIBILITY_SELLING_STATE_CONFIRMED;
pub use types::FLEXIBILITY_SELLING_STATE_NOT_DECIDED;
pub use types::FLEXIBILITY_SELLING_STATE_REJECTED;
