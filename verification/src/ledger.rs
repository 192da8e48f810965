//! The executable ledger. A [`Pallet`] owns the payment ledger, the
//! confirmation lock entries and the flexibility negotiation records,
//! together with the log of notifications that successful transitions
//! emit. Every operation takes the verified principal that makes the
//! call as its first argument and is specified against the transition
//! rules of [`crate::model`].

use vstd::prelude::*;
use crate::model::init;
use crate::model::negotiation_key;
use crate::model::payment_key;
use crate::model::step;
use crate::model::step_result;
use crate::model::LedgerView;
use crate::model::Op;
use crate::store::KvMap;
use crate::types::AccountId;
use crate::types::Error;
use crate::types::Event;
use crate::types::FlexibilitySellingData;
use crate::types::NegotiationKey;
use crate::types::PaymentKey;
use crate::types::CONFIRMATION_NOK_OVERESTIMATION;
use crate::types::CONFIRMATION_NOK_UNDERESTIMATION;
use crate::types::CONFIRMATION_OK;
use crate::types::FLEXIBILITY_SELLING_STATE_CONFIRMED;
use crate::types::FLEXIBILITY_SELLING_STATE_NOT_DECIDED;
use crate::types::FLEXIBILITY_SELLING_STATE_REJECTED;

verus! {

/// The bilateral settlement ledger: payments guarded by confirmation
/// locks, and flexibility negotiations that settle into payments.
pub struct Pallet {
    payments: KvMap<PaymentKey, u32>,
    confirmations: KvMap<PaymentKey, u32>,
    flexibility_market_ledger: KvMap<NegotiationKey, FlexibilitySellingData>,
    events: Vec<Event>,
}

impl View for Pallet {
    type V = LedgerView;

    closed spec fn view(&self) -> LedgerView {
        LedgerView {
            payments: self.payments@,
            confirmations: self.confirmations@,
            negotiations: self.flexibility_market_ledger@,
        }
    }
}

impl Pallet {
    /// The notifications emitted so far, oldest first.
    pub closed spec fn log(&self) -> Seq<Event> {
        self.events@
    }

    /// An empty ledger with an empty log.
    pub fn new() -> (p: Pallet)
        ensures
            p@ == init(),
            p.log() == Seq::<Event>::empty(),
    {
        let p = Pallet {
            payments: KvMap::new(),
            confirmations: KvMap::new(),
            flexibility_market_ledger: KvMap::new(),
            events: Vec::new(),
        };
        proof {
            assert(p@ =~= init());
            assert(p.log() =~= Seq::<Event>::empty());
        }
        p
    }

    /// The notifications emitted so far, oldest first.
    pub fn events(&self) -> (r: &Vec<Event>)
        ensures
            r@ == self.log(),
    {
        &self.events
    }

    /// The sender `origin` records a pending payment of `value` to
    /// `key_receiver` for the time slot `ts`. Fails, changing nothing,
    /// when the slot is already taken.
    pub fn add_payment(
        &mut self,
        origin: AccountId,
        key_receiver: AccountId,
        ts: u32,
        value: u32,
    ) -> (r: Result<(), Error>)
        ensures
            final(self)@ == step(
                old(self)@,
                (Op::AddPayment { sender: origin, receiver: key_receiver, ts, value }),
            ),
            r == step_result(
                old(self)@,
                (Op::AddPayment { sender: origin, receiver: key_receiver, ts, value }),
            ).1,
            r is Ok <==> !old(self)@.payments.contains_key(payment_key(origin, key_receiver, ts)),
            r is Ok ==> final(self).log() == old(self).log().push(
                (Event::AddedToPayments { key_sender: origin, key_receiver, ts, value }),
            ),
            r is Err ==> final(self).log() == old(self).log(),
    {
        let k = PaymentKey { sender: origin, receiver: key_receiver, timestamp: ts };
        if self.payments.contains_key(&k) {
            Err(Error::PaymentAlreadyExists)
        } else {
            self.payments.set(k, value);
            self.events.push(Event::AddedToPayments { key_sender: origin, key_receiver, ts, value });
            Ok(())
        }
    }

    /// The sender `origin` overwrites the amount of its pending payment
    /// to `key_receiver` for the time slot `ts`. Fails, changing
    /// nothing, when no payment stands there or when a confirmation has
    /// locked the slot.
    pub fn modify_payment(
        &mut self,
        origin: AccountId,
        key_receiver: AccountId,
        ts: u32,
        value: u32,
    ) -> (r: Result<(), Error>)
        ensures
            final(self)@ == step(
                old(self)@,
                (Op::ModifyPayment { sender: origin, receiver: key_receiver, ts, value }),
            ),
            r == step_result(
                old(self)@,
                (Op::ModifyPayment { sender: origin, receiver: key_receiver, ts, value }),
            ).1,
            r is Ok <==> old(self)@.payments.contains_key(payment_key(origin, key_receiver, ts))
                && !old(self)@.confirmations.contains_key(payment_key(origin, key_receiver, ts)),
            r is Ok ==> final(self).log() == old(self).log().push(
                (Event::SetInPayments { key_sender: origin, key_receiver, ts }),
            ),
            r is Err ==> final(self).log() == old(self).log(),
    {
        let k = PaymentKey { sender: origin, receiver: key_receiver, timestamp: ts };
        if !self.payments.contains_key(&k) {
            Err(Error::PaymentNotExists)
        } else if self.confirmations.contains_key(&k) {
            Err(Error::ConfirmationAlreadyExists)
        } else {
            self.payments.set(k, value);
            self.events.push(Event::SetInPayments { key_sender: origin, key_receiver, ts });
            Ok(())
        }
    }

    /// The sender `origin` withdraws its pending payment to
    /// `key_receiver` for the time slot `ts`. Fails, changing nothing,
    /// when no payment stands there or when a confirmation has locked
    /// the slot.
    pub fn remove_payment(&mut self, origin: AccountId, key_receiver: AccountId, ts: u32) -> (r:
        Result<(), Error>)
        ensures
            final(self)@ == step(
                old(self)@,
                (Op::RemovePayment { sender: origin, receiver: key_receiver, ts }),
            ),
            r == step_result(
                old(self)@,
                (Op::RemovePayment { sender: origin, receiver: key_receiver, ts }),
            ).1,
            r is Ok <==> old(self)@.payments.contains_key(payment_key(origin, key_receiver, ts))
                && !old(self)@.confirmations.contains_key(payment_key(origin, key_receiver, ts)),
            r is Ok ==> final(self).log() == old(self).log().push(
                (Event::RemovedFromPayments { key_sender: origin, key_receiver, ts }),
            ),
            r is Err ==> final(self).log() == old(self).log(),
    {
        let k = PaymentKey { sender: origin, receiver: key_receiver, timestamp: ts };
        if !self.payments.contains_key(&k) {
            Err(Error::PaymentNotExists)
        } else if self.confirmations.contains_key(&k) {
            Err(Error::ConfirmationAlreadyExists)
        } else {
            self.payments.remove(&k);
            self.events.push(Event::RemovedFromPayments { key_sender: origin, key_receiver, ts });
            Ok(())
        }
    }

    /// The receiver `origin` confirms the payment addressed to it by
    /// `key_sender` for the time slot `ts`, recording `status` and
    /// locking the slot against mutation and removal. Fails, changing
    /// nothing, when no such payment stands or when the slot is already
    /// confirmed.
    pub fn add_confirmation(
        &mut self,
        origin: AccountId,
        key_sender: AccountId,
        ts: u32,
        status: u32,
    ) -> (r: Result<(), Error>)
        ensures
            final(self)@ == step(
                old(self)@,
                (Op::AddConfirmation { receiver: origin, sender: key_sender, ts, status }),
            ),
            r == step_result(
                old(self)@,
                (Op::AddConfirmation { receiver: origin, sender: key_sender, ts, status }),
            ).1,
            r is Ok <==> old(self)@.payments.contains_key(payment_key(key_sender, origin, ts))
                && !old(self)@.confirmations.contains_key(payment_key(key_sender, origin, ts)),
            r is Ok ==> final(self).log() == ({
                let added = old(self).log().push(
                    (Event::AddedToConfirmations {
                        key_confirmer: origin,
                        key_sender,
                        key_receiver: origin,
                        ts,
                        status,
                    }),
                );
                if status == CONFIRMATION_OK {
                    added.push(Event::ConfirmationOK())
                } else if status == CONFIRMATION_NOK_OVERESTIMATION {
                    added.push(Event::ConfirmationOverEstimation())
                } else if status == CONFIRMATION_NOK_UNDERESTIMATION {
                    added.push(Event::ConfirmationUnderEstimation())
                } else {
                    added
                }
            }),
            r is Err ==> final(self).log() == old(self).log(),
    {
        let k = PaymentKey { sender: key_sender, receiver: origin, timestamp: ts };
        if !self.payments.contains_key(&k) {
            Err(Error::PaymentNotExists)
        } else if self.confirmations.contains_key(&k) {
            Err(Error::ConfirmationAlreadyExists)
        } else {
            self.confirmations.set(k, status);
            self.events.push(
                Event::AddedToConfirmations {
                    key_confirmer: origin,
                    key_sender,
                    key_receiver: origin,
                    ts,
                    status,
                },
            );
            if status == CONFIRMATION_OK {
                self.events.push(Event::ConfirmationOK());
            } else if status == CONFIRMATION_NOK_OVERESTIMATION {
                self.events.push(Event::ConfirmationOverEstimation());
            } else if status == CONFIRMATION_NOK_UNDERESTIMATION {
                self.events.push(Event::ConfirmationUnderEstimation());
            }
            Ok(())
        }
    }

    /// The receiver `origin` withdraws its confirmation of the payment
    /// from `key_sender` for the time slot `ts`, releasing the lock.
    /// Fails, changing nothing, when no confirmation stands there.
    /// Removal does not roll back any payment state.
    pub fn remove_confirmation(&mut self, origin: AccountId, key_sender: AccountId, ts: u32) -> (r:
        Result<(), Error>)
        ensures
            final(self)@ == step(
                old(self)@,
                (Op::RemoveConfirmation { receiver: origin, sender: key_sender, ts }),
            ),
            r == step_result(
                old(self)@,
                (Op::RemoveConfirmation { receiver: origin, sender: key_sender, ts }),
            ).1,
            r is Ok <==> old(self)@.confirmations.contains_key(payment_key(key_sender, origin, ts)),
            r is Ok ==> final(self).log() == old(self).log().push(
                (Event::RemovedFromConfirmations { key_sender, key_receiver: origin, ts }),
            ),
            r is Err ==> final(self).log() == old(self).log(),
    {
        let k = PaymentKey { sender: key_sender, receiver: origin, timestamp: ts };
        if !self.confirmations.contains_key(&k) {
            Err(Error::ConfirmationNotExists)
        } else {
            self.confirmations.remove(&k);
            self.events.push(
                Event::RemovedFromConfirmations { key_sender, key_receiver: origin, ts },
            );
            Ok(())
        }
    }

    /// The seller `origin` offers flexibility to `buyer` on a market:
    /// the record under the five identifiers is set, or overwritten, to
    /// the offered terms in the not-yet-decided state. Always succeeds.
    /// The existence check that picks the notification runs after the
    /// record is written, so it always finds the record and the log
    /// always receives the already-sold notification, on a first offer
    /// too.
    pub fn flexibility_selling(
        &mut self,
        origin: AccountId,
        buyer: AccountId,
        flexibility_market_identifier: u32,
        flexibility_market_timestamp: u32,
        asset_identifier: u32,
        sold_power: u32,
        change_fct_w: u32,
    ) -> (r: Result<(), Error>)
        ensures
            final(self)@ == step(
                old(self)@,
                (Op::OfferFlexibility {
                    seller: origin,
                    buyer,
                    market_id: flexibility_market_identifier,
                    market_timestamp: flexibility_market_timestamp,
                    asset_id: asset_identifier,
                    sold_power,
                    change_fct_w,
                }),
            ),
            r is Ok,
            final(self).log() == old(self).log().push(
                (Event::AlreadySoldFlexibility {
                    seller: origin,
                    buyer,
                    flexibility_market_identifier,
                    flexibility_market_timestamp,
                    asset_identifier,
                }),
            ),
    {
        let k = NegotiationKey {
            seller: origin,
            buyer,
            market_id: flexibility_market_identifier,
            market_timestamp: flexibility_market_timestamp,
            asset_id: asset_identifier,
        };
        let flexibility_data = FlexibilitySellingData {
            sold_power,
            change_fct_w,
            state: FLEXIBILITY_SELLING_STATE_NOT_DECIDED,
        };
        self.flexibility_market_ledger.set(k, flexibility_data);
        if self.flexibility_market_ledger.contains_key(&k) {
            self.events.push(
                Event::AlreadySoldFlexibility {
                    seller: origin,
                    buyer,
                    flexibility_market_identifier,
                    flexibility_market_timestamp,
                    asset_identifier,
                },
            );
        } else {
            self.events.push(
                Event::SuccessfullySoldFlexibility {
                    seller: origin,
                    buyer,
                    flexibility_market_identifier,
                    flexibility_market_timestamp,
                    asset_identifier,
                    sold_power,
                    change_fct_w,
                },
            );
        }
        Ok(())
    }

    /// The buyer `origin` decides the offer addressed to it by `seller`
    /// under the five identifiers. Confirming settles the negotiation:
    /// it finalizes the record and posts the payment of
    /// `sold_power * change_fct_w` owed by the buyer to the seller for
    /// the market's time slot, as one transition. Rejecting only
    /// finalizes the record. Fails, changing nothing, when no offer
    /// stands there, when the offer is already decided, or when
    /// `new_state` names no decision; a missing offer is also noted in
    /// the log, alongside the failure.
    ///
    /// The settled amount is computed in the machine's 32-bit width, so
    /// a confirmation is only allowed where the product fits it.
    pub fn flexibility_purchase_decision(
        &mut self,
        origin: AccountId,
        seller: AccountId,
        flexibility_market_identifier: u32,
        flexibility_market_timestamp: u32,
        asset_identifier: u32,
        new_state: u32,
    ) -> (r: Result<(), Error>)
        requires
            ({
                let k = negotiation_key(
                    seller,
                    origin,
                    flexibility_market_identifier,
                    flexibility_market_timestamp,
                    asset_identifier,
                );
                old(self)@.negotiations.contains_key(k) && old(self)@.negotiations[k].state
                    == FLEXIBILITY_SELLING_STATE_NOT_DECIDED && new_state
                    == FLEXIBILITY_SELLING_STATE_CONFIRMED ==> old(self)@.negotiations[k].sold_power
                    * old(self)@.negotiations[k].change_fct_w <= u32::MAX
            }),
        ensures
            final(self)@ == step(
                old(self)@,
                (Op::Decide {
                    buyer: origin,
                    seller,
                    market_id: flexibility_market_identifier,
                    market_timestamp: flexibility_market_timestamp,
                    asset_id: asset_identifier,
                    new_state,
                }),
            ),
            r == step_result(
                old(self)@,
                (Op::Decide {
                    buyer: origin,
                    seller,
                    market_id: flexibility_market_identifier,
                    market_timestamp: flexibility_market_timestamp,
                    asset_id: asset_identifier,
                    new_state,
                }),
            ).1,
            final(self).log() == ({
                let k = negotiation_key(
                    seller,
                    origin,
                    flexibility_market_identifier,
                    flexibility_market_timestamp,
                    asset_identifier,
                );
                let noted = Event::FlexibilitySellingNotExisting {
                    seller,
                    buyer: origin,
                    flexibility_market_identifier,
                    flexibility_market_timestamp,
                    asset_identifier,
                };
                let confirmed = Event::FlexibilitySellingConfirmed {
                    seller,
                    buyer: origin,
                    flexibility_market_identifier,
                    flexibility_market_timestamp,
                    asset_identifier,
                };
                let rejected = Event::FlexibilitySellingRejected {
                    seller,
                    buyer: origin,
                    flexibility_market_identifier,
                    flexibility_market_timestamp,
                    asset_identifier,
                };
                if !old(self)@.negotiations.contains_key(k) {
                    old(self).log().push(noted)
                } else if old(self)@.negotiations[k].state != FLEXIBILITY_SELLING_STATE_NOT_DECIDED {
                    old(self).log()
                } else if new_state == FLEXIBILITY_SELLING_STATE_CONFIRMED {
                    old(self).log().push(confirmed)
                } else if new_state == FLEXIBILITY_SELLING_STATE_REJECTED {
                    old(self).log().push(rejected)
                } else {
                    old(self).log()
                }
            }),
    {
        let k = NegotiationKey {
            seller,
            buyer: origin,
            market_id: flexibility_market_identifier,
            market_timestamp: flexibility_market_timestamp,
            asset_id: asset_identifier,
        };
        let flexibility_data = match self.flexibility_market_ledger.get(&k) {
            Some(d) => d,
            None => {
                self.events.push(
                    Event::FlexibilitySellingNotExisting {
                        seller,
                        buyer: origin,
                        flexibility_market_identifier,
                        flexibility_market_timestamp,
                        asset_identifier,
                    },
                );
                return Err(Error::FlexibilitySellingNotExisting);
            },
        };
        if flexibility_data.state != FLEXIBILITY_SELLING_STATE_NOT_DECIDED {
            return Err(Error::FlexibilitySellingAlreadyDecided);
        }
        if new_state == FLEXIBILITY_SELLING_STATE_CONFIRMED {
            let decided = FlexibilitySellingData {
                sold_power: flexibility_data.sold_power,
                change_fct_w: flexibility_data.change_fct_w,
                state: new_state,
            };
            self.flexibility_market_ledger.set(k, decided);
            let tkns_to_pay = flexibility_data.sold_power * flexibility_data.change_fct_w;
            let pk = PaymentKey {
                sender: origin,
                receiver: seller,
                timestamp: flexibility_market_timestamp,
            };
            self.payments.set(pk, tkns_to_pay);
            self.events.push(
                Event::FlexibilitySellingConfirmed {
                    seller,
                    buyer: origin,
                    flexibility_market_identifier,
                    flexibility_market_timestamp,
                    asset_identifier,
                },
            );
            Ok(())
        } else if new_state == FLEXIBILITY_SELLING_STATE_REJECTED {
            let decided = FlexibilitySellingData {
                sold_power: flexibility_data.sold_power,
                change_fct_w: flexibility_data.change_fct_w,
                state: new_state,
            };
            self.flexibility_market_ledger.set(k, decided);
            self.events.push(
                Event::FlexibilitySellingRejected {
                    seller,
                    buyer: origin,
                    flexibility_market_identifier,
                    flexibility_market_timestamp,
                    asset_identifier,
                },
            );
            Ok(())
        } else {
            Err(Error::FlexibilitySellingUnknownState)
        }
    }

    /// Notes in the log whether a payment stands at (`key_sender`,
    /// `key_receiver`, `ts`). Always succeeds; the mappings are left
    /// untouched.
    pub fn check_payment_call(
        &mut self,
        _origin: AccountId,
        key_sender: AccountId,
        key_receiver: AccountId,
        ts: u32,
    ) -> (r: Result<(), Error>)
        ensures
            final(self)@ == old(self)@,
            r is Ok,
            final(self).log() == old(self).log().push(
                if old(self)@.payments.contains_key(payment_key(key_sender, key_receiver, ts)) {
                    Event::InPayments()
                } else {
                    Event::NotInPayments()
                },
            ),
    {
        let k = PaymentKey { sender: key_sender, receiver: key_receiver, timestamp: ts };
        if self.payments.contains_key(&k) {
            self.events.push(Event::InPayments());
        } else {
            self.events.push(Event::NotInPayments());
        }
        Ok(())
    }

    /// Notes in the log the amount stored at (`key_sender`,
    /// `key_receiver`, `ts`), or the mapping's default 0 where no
    /// payment stands. Always succeeds; the mappings are left untouched.
    pub fn get_payment_call(
        &mut self,
        _origin: AccountId,
        key_sender: AccountId,
        key_receiver: AccountId,
        ts: u32,
    ) -> (r: Result<(), Error>)
        ensures
            final(self)@ == old(self)@,
            r is Ok,
            final(self).log() == old(self).log().push(
                (Event::GotFromPayments {
                    key_sender,
                    key_receiver,
                    ts,
                    value: if old(self)@.payments.contains_key(
                        payment_key(key_sender, key_receiver, ts),
                    ) {
                        old(self)@.payments[payment_key(key_sender, key_receiver, ts)]
                    } else {
                        0u32
                    },
                }),
            ),
    {
        let value = self.get_payment(key_sender, key_receiver, ts);
        self.events.push(Event::GotFromPayments { key_sender, key_receiver, ts, value });
        Ok(())
    }

    /// The amount stored at (`key_sender`, `key_receiver`, `timestamp`),
    /// or the mapping's default 0 where no payment stands. Absence and a
    /// stored 0 coincide here; `check_payment` tells them apart.
    pub fn get_payment(&self, key_sender: AccountId, key_receiver: AccountId, timestamp: u32) -> (r:
        u32)
        ensures
            r == if self@.payments.contains_key(payment_key(key_sender, key_receiver, timestamp)) {
                self@.payments[payment_key(key_sender, key_receiver, timestamp)]
            } else {
                0u32
            },
    {
        let k = PaymentKey { sender: key_sender, receiver: key_receiver, timestamp };
        match self.payments.get(&k) {
            Some(v) => v,
            None => 0,
        }
    }

    /// Whether a payment stands at (`key_sender`, `key_receiver`,
    /// `timestamp`).
    pub fn check_payment(
        &self,
        key_sender: AccountId,
        key_receiver: AccountId,
        timestamp: u32,
    ) -> (r: bool)
        ensures
            r == self@.payments.contains_key(payment_key(key_sender, key_receiver, timestamp)),
    {
        let k = PaymentKey { sender: key_sender, receiver: key_receiver, timestamp };
        self.payments.contains_key(&k)
    }

    /// The confirmation value stored at (`key_sender`, `key_receiver`,
    /// `timestamp`), or the mapping's default 0 where no confirmation
    /// stands.
    pub fn get_confirmation(
        &self,
        key_sender: AccountId,
        key_receiver: AccountId,
        timestamp: u32,
    ) -> (r: u32)
        ensures
            r == if self@.confirmations.contains_key(
                payment_key(key_sender, key_receiver, timestamp),
            ) {
                self@.confirmations[payment_key(key_sender, key_receiver, timestamp)]
            } else {
                0u32
            },
    {
        let k = PaymentKey { sender: key_sender, receiver: key_receiver, timestamp };
        match self.confirmations.get(&k) {
            Some(v) => v,
            None => 0,
        }
    }

    /// Whether a confirmation stands at (`key_sender`, `key_receiver`,
    /// `timestamp`).
    pub fn check_confirmation(
        &self,
        key_sender: AccountId,
        key_receiver: AccountId,
        timestamp: u32,
    ) -> (r: bool)
        ensures
            r == self@.confirmations.contains_key(payment_key(key_sender, key_receiver, timestamp)),
    {
        let k = PaymentKey { sender: key_sender, receiver: key_receiver, timestamp };
        self.confirmations.contains_key(&k)
    }

    /// The negotiation record stored under the five identifiers, or the
    /// mapping's default (all zero, so in no legal selling state) where
    /// no offer stands.
    pub fn get_flexibility_selling(
        &self,
        seller: AccountId,
        buyer: AccountId,
        flexibility_market_identifier: u32,
        flexibility_market_timestamp: u32,
        asset_identifier: u32,
    ) -> (r: FlexibilitySellingData)
        ensures
            r == if self@.negotiations.contains_key(
                negotiation_key(
                    seller,
                    buyer,
                    flexibility_market_identifier,
                    flexibility_market_timestamp,
                    asset_identifier,
                ),
            ) {
                self@.negotiations[negotiation_key(
                    seller,
                    buyer,
                    flexibility_market_identifier,
                    flexibility_market_timestamp,
                    asset_identifier,
                )]
            } else {
                FlexibilitySellingData { sold_power: 0, change_fct_w: 0, state: 0 }
            },
    {
        let k = NegotiationKey {
            seller,
            buyer,
            market_id: flexibility_market_identifier,
            market_timestamp: flexibility_market_timestamp,
            asset_id: asset_identifier,
        };
        match self.flexibility_market_ledger.get(&k) {
            Some(d) => d,
            None => FlexibilitySellingData { sold_power: 0, change_fct_w: 0, state: 0 },
        }
    }
}

} // verus!
