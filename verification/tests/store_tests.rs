use fedecom_ps_demo::store::KvMap;
use fedecom_ps_demo::PaymentKey;

fn key(sender: u64, receiver: u64, timestamp: u32) -> PaymentKey {
    PaymentKey { sender, receiver, timestamp }
}

#[test]
fn store_set_get_remove() {
    let mut store: KvMap<PaymentKey, u32> = KvMap::new();
    let a = key(1, 2, 5);
    let b = key(2, 1, 5);

    assert_eq!(store.contains_key(&a), false);
    assert_eq!(store.get(&a), None);

    store.set(a, 10);
    store.set(b, 20);
    assert_eq!(store.contains_key(&a), true);
    assert_eq!(store.get(&a), Some(10));
    assert_eq!(store.get(&b), Some(20));

    // Setting an existing key overwrites in place.
    store.set(a, 11);
    assert_eq!(store.get(&a), Some(11));
    assert_eq!(store.get(&b), Some(20));

    assert_eq!(store.remove(&a), true);
    assert_eq!(store.get(&a), None);
    assert_eq!(store.get(&b), Some(20));

    // Removing an absent key reports that nothing stood there.
    assert_eq!(store.remove(&a), false);
}
