use fedecom_ps_demo::FlexibilitySellingData;
use fedecom_ps_demo::Pallet;
use fedecom_ps_demo::FLEXIBILITY_SELLING_STATE_CONFIRMED;
use fedecom_ps_demo::FLEXIBILITY_SELLING_STATE_NOT_DECIDED;
use fedecom_ps_demo::FLEXIBILITY_SELLING_STATE_REJECTED;

#[test]
fn check_payment() {
    let mut pallet = Pallet::new();
    let sender = 1;
    let receiver = 2;
    let timestamp = 1234567890;
    let value_to_insert = 100;

    assert!(pallet.add_payment(sender, receiver, timestamp, value_to_insert).is_ok());

    assert_eq!(pallet.check_payment(sender, receiver, timestamp), true);
}

#[test]
fn add_payment() {
    let mut pallet = Pallet::new();
    let sender = 1;
    let receiver = 2;
    let timestamp = 1234567890;
    let value_to_insert = 100;

    assert!(pallet.add_payment(sender, receiver, timestamp, value_to_insert).is_ok());

    assert_eq!(pallet.get_payment(sender, receiver, timestamp), value_to_insert);
}

#[test]
fn remove_payment() {
    let mut pallet = Pallet::new();
    let sender = 1;
    let receiver = 2;
    let timestamp = 1234567890;
    let value_to_insert = 100;

    assert_eq!(pallet.check_payment(sender, receiver, timestamp), false);

    assert!(pallet.add_payment(sender, receiver, timestamp, value_to_insert).is_ok());

    assert_eq!(pallet.check_payment(sender, receiver, timestamp), true);

    assert!(pallet.remove_payment(sender, receiver, timestamp).is_ok());

    assert_eq!(pallet.check_payment(sender, receiver, timestamp), false);
}

#[test]
fn modify_payment() {
    let mut pallet = Pallet::new();
    let sender = 1;
    let receiver = 2;
    let timestamp = 1234567890;
    let value_to_insert = 100;
    let value_to_set = 200;

    assert!(pallet.add_payment(sender, receiver, timestamp, value_to_insert).is_ok());

    assert_eq!(pallet.get_payment(sender, receiver, timestamp), value_to_insert);

    assert!(pallet.modify_payment(sender, receiver, timestamp, value_to_set).is_ok());

    assert_eq!(pallet.get_payment(sender, receiver, timestamp), value_to_set);
}

#[test]
fn insert_element_two_times() {
    let mut pallet = Pallet::new();
    let sender = 1;
    let receiver = 2;
    let timestamp = 1234567890;
    let value_to_insert = 100;

    assert!(pallet.add_payment(sender, receiver, timestamp, value_to_insert).is_ok());

    assert_eq!(pallet.get_payment(sender, receiver, timestamp), value_to_insert);

    assert!(pallet.add_payment(sender, receiver, timestamp, value_to_insert + 1).is_err());

    assert_eq!(pallet.get_payment(sender, receiver, timestamp), value_to_insert);
}

#[test]
fn remove_payment_two_times() {
    let mut pallet = Pallet::new();
    let sender = 1;
    let receiver = 2;
    let timestamp = 1234567890;
    let value_to_insert = 100;

    assert_eq!(pallet.check_payment(sender, receiver, timestamp), false);

    assert!(pallet.add_payment(sender, receiver, timestamp, value_to_insert).is_ok());

    assert_eq!(pallet.check_payment(sender, receiver, timestamp), true);

    assert!(pallet.remove_payment(sender, receiver, timestamp).is_ok());

    assert_eq!(pallet.check_payment(sender, receiver, timestamp), false);

    assert!(pallet.remove_payment(sender, receiver, timestamp).is_err());

    assert_eq!(pallet.check_payment(sender, receiver, timestamp), false);
}

#[test]
fn add_confirmation() {
    let mut pallet = Pallet::new();
    let sender = 1;
    let receiver = 2;
    let timestamp = 1234567890;
    let value_to_insert = 100;

    assert!(pallet.add_payment(sender, receiver, timestamp, value_to_insert).is_ok());

    assert_eq!(pallet.get_payment(sender, receiver, timestamp), value_to_insert);

    assert!(pallet.add_confirmation(receiver, sender, timestamp, 1).is_ok());

    // The confirmation lookup reads the confirmation entry itself, so it
    // yields the status recorded above, not the payment's amount.
    assert_eq!(pallet.get_confirmation(sender, receiver, timestamp), 1);
}

#[test]
fn remove_confirmation() {
    let mut pallet = Pallet::new();
    let sender = 1;
    let receiver = 2;
    let timestamp = 1234567890;
    let value_to_insert = 100;

    assert!(pallet.add_payment(sender, receiver, timestamp, value_to_insert).is_ok());

    assert_eq!(pallet.get_payment(sender, receiver, timestamp), value_to_insert);

    assert!(pallet.add_confirmation(receiver, sender, timestamp, 1).is_ok());

    assert_eq!(pallet.check_confirmation(sender, receiver, timestamp), true);

    assert!(pallet.remove_confirmation(receiver, sender, timestamp).is_ok());

    assert_eq!(pallet.check_confirmation(sender, receiver, timestamp), false);
}

#[test]
fn try_to_remove_confirmed_payment() {
    let mut pallet = Pallet::new();
    let sender = 1;
    let receiver = 2;
    let timestamp = 1234567890;
    let value_to_insert = 100;

    assert!(pallet.add_payment(sender, receiver, timestamp, value_to_insert).is_ok());

    assert_eq!(pallet.get_payment(sender, receiver, timestamp), value_to_insert);

    assert!(pallet.add_confirmation(receiver, sender, timestamp, 1).is_ok());

    assert_eq!(pallet.check_confirmation(sender, receiver, timestamp), true);

    assert!(pallet.remove_payment(sender, receiver, timestamp).is_err());

    assert_eq!(pallet.check_payment(sender, receiver, timestamp), true);
    assert_eq!(pallet.check_confirmation(sender, receiver, timestamp), true);
}

#[test]
fn try_to_modify_confirmed_payment() {
    let mut pallet = Pallet::new();
    let sender = 1;
    let receiver = 2;
    let timestamp = 1234567890;
    let value_to_insert = 100;

    assert!(pallet.add_payment(sender, receiver, timestamp, value_to_insert).is_ok());

    assert_eq!(pallet.get_payment(sender, receiver, timestamp), value_to_insert);

    assert!(pallet.add_confirmation(receiver, sender, timestamp, 1).is_ok());

    assert_eq!(pallet.check_confirmation(sender, receiver, timestamp), true);

    assert!(pallet.modify_payment(sender, receiver, timestamp, value_to_insert + 1).is_err());

    assert_eq!(pallet.get_payment(sender, receiver, timestamp), value_to_insert);
    assert_eq!(pallet.check_payment(sender, receiver, timestamp), true);
    assert_eq!(pallet.check_confirmation(sender, receiver, timestamp), true);
}

#[test]
fn try_to_sell_flexibility_confirmed() {
    let mut pallet = Pallet::new();
    let seller = 1;
    let buyer = 2;
    let flexibility_market_identifier = 100;
    let flexibility_market_timestamp = 1234567890;
    let asset_identifier = 200;
    let sold_power = 10;
    let change_fct_w = 2;

    // Try to change the state of a not-existing market.
    assert!(pallet
        .flexibility_purchase_decision(
            buyer,
            seller,
            flexibility_market_identifier,
            flexibility_market_timestamp,
            asset_identifier,
            FLEXIBILITY_SELLING_STATE_NOT_DECIDED,
        )
        .is_err());

    assert!(pallet
        .flexibility_selling(
            seller,
            buyer,
            flexibility_market_identifier,
            flexibility_market_timestamp,
            asset_identifier,
            sold_power,
            change_fct_w,
        )
        .is_ok());

    let flexibility_data = FlexibilitySellingData {
        sold_power,
        change_fct_w,
        state: FLEXIBILITY_SELLING_STATE_NOT_DECIDED,
    };
    assert_eq!(
        pallet.get_flexibility_selling(
            seller,
            buyer,
            flexibility_market_identifier,
            flexibility_market_timestamp,
            asset_identifier,
        ),
        flexibility_data
    );

    assert!(pallet
        .flexibility_purchase_decision(
            buyer,
            seller,
            flexibility_market_identifier,
            flexibility_market_timestamp,
            asset_identifier,
            FLEXIBILITY_SELLING_STATE_CONFIRMED,
        )
        .is_ok());

    let flexibility_data = FlexibilitySellingData {
        sold_power,
        change_fct_w,
        state: FLEXIBILITY_SELLING_STATE_CONFIRMED,
    };
    assert_eq!(
        pallet.get_flexibility_selling(
            seller,
            buyer,
            flexibility_market_identifier,
            flexibility_market_timestamp,
            asset_identifier,
        ),
        flexibility_data
    );

    assert_eq!(
        pallet.get_payment(buyer, seller, flexibility_market_timestamp),
        sold_power * change_fct_w
    );

    // The market has already been decided (confirmed) here above.
    assert!(pallet
        .flexibility_purchase_decision(
            buyer,
            seller,
            flexibility_market_identifier,
            flexibility_market_timestamp,
            asset_identifier,
            FLEXIBILITY_SELLING_STATE_REJECTED,
        )
        .is_err());
}

#[test]
fn try_to_sell_flexibility_rejected() {
    let mut pallet = Pallet::new();
    let seller = 1;
    let buyer = 2;
    let flexibility_market_identifier = 100;
    let flexibility_market_timestamp = 1234567890;
    let asset_identifier = 200;
    let sold_power = 10;
    let change_fct_w = 2;

    assert!(pallet
        .flexibility_selling(
            seller,
            buyer,
            flexibility_market_identifier,
            flexibility_market_timestamp,
            asset_identifier,
            sold_power,
            change_fct_w,
        )
        .is_ok());

    assert!(pallet
        .flexibility_purchase_decision(
            buyer,
            seller,
            flexibility_market_identifier,
            flexibility_market_timestamp,
            asset_identifier,
            FLEXIBILITY_SELLING_STATE_REJECTED,
        )
        .is_ok());

    let flexibility_data = FlexibilitySellingData {
        sold_power,
        change_fct_w,
        state: FLEXIBILITY_SELLING_STATE_REJECTED,
    };
    assert_eq!(
        pallet.get_flexibility_selling(
            seller,
            buyer,
            flexibility_market_identifier,
            flexibility_market_timestamp,
            asset_identifier,
        ),
        flexibility_data
    );

    assert_eq!(pallet.check_payment(buyer, seller, flexibility_market_timestamp), false);
}
