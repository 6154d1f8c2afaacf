use rust_rsi::binary64::Binary64;
use rust_rsi::store::WindowStore;
use rust_rsi::window::PriceWindow;

fn price(value: f64) -> Binary64 {
    Binary64::from_bits(value.to_bits())
}

fn values(window: &PriceWindow) -> Vec<f64> {
    window.as_slice().iter().map(|p| f64::from_bits(p.to_bits())).collect()
}

#[test]
fn new_store_knows_no_key() {
    let store = WindowStore::new();
    assert!(store.window("X").is_none());
    assert!(store.window("").is_none());
}

#[test]
fn first_record_creates_the_window() {
    let mut store = WindowStore::new();
    let window = store.record("X", price(1.25));
    assert_eq!(values(window), vec![1.25]);
    let found = store.window("X").expect("the key was recorded");
    assert_eq!(values(found), vec![1.25]);
    assert!(store.window("Y").is_none());
}

#[test]
fn record_returns_the_window_as_it_now_stands() {
    let mut store = WindowStore::new();
    store.record("X", price(1.0));
    store.record("X", price(2.0));
    let window = store.record("X", price(3.0));
    assert_eq!(window.len(), 3);
    assert_eq!(values(window), vec![1.0, 2.0, 3.0]);
}

#[test]
fn record_evicts_the_oldest_beyond_capacity() {
    let mut store = WindowStore::new();
    for i in 0..15 {
        let window = store.record("X", price(i as f64));
        assert_eq!(window.len(), i + 1);
    }
    let window = store.record("X", price(15.0));
    assert_eq!(window.len(), 15);
    let expected: Vec<f64> = (1..16).map(|i| i as f64).collect();
    assert_eq!(values(window), expected);
}

#[test]
fn store_window_holds_latest_fifteen_after_many_records() {
    let mut store = WindowStore::new();
    for i in 0..100 {
        let window = store.record("X", price(i as f64));
        assert!(window.len() <= 15);
    }
    let expected: Vec<f64> = (85..100).map(|i| i as f64).collect();
    assert_eq!(values(store.window("X").unwrap()), expected);
}

#[test]
fn keys_do_not_share_windows() {
    let mut store = WindowStore::new();
    for i in 0..20 {
        store.record("X", price(i as f64));
        if i % 2 == 0 {
            store.record("Y", price(-(i as f64)));
        }
        store.record("", price(0.5));
    }
    let expected_x: Vec<f64> = (5..20).map(|i| i as f64).collect();
    let expected_y: Vec<f64> = (0..10).map(|i| -((2 * i) as f64)).collect();
    assert_eq!(values(store.window("X").unwrap()), expected_x);
    assert_eq!(values(store.window("Y").unwrap()), expected_y);
    assert_eq!(values(store.window("").unwrap()), vec![0.5; 15]);
    assert!(store.window("x").is_none());
    assert!(store.window("XY").is_none());
}

#[test]
fn many_keys_each_keep_their_own_window() {
    let mut store = WindowStore::new();
    for round in 0..3 {
        for k in 0..200 {
            let key = format!("asset-{k}");
            store.record(&key, price((round * 1000 + k) as f64));
        }
    }
    for k in 0..200 {
        let key = format!("asset-{k}");
        let expected = vec![k as f64, (1000 + k) as f64, (2000 + k) as f64];
        assert_eq!(values(store.window(&key).unwrap()), expected);
    }
}

#[test]
fn store_records_non_finite_and_negative_prices() {
    let mut store = WindowStore::new();
    store.record("X", price(-1.0));
    store.record("X", price(f64::NEG_INFINITY));
    let window = store.record("X", price(f64::NAN));
    let held = values(window);
    assert_eq!(held[0], -1.0);
    assert_eq!(held[1], f64::NEG_INFINITY);
    assert!(held[2].is_nan());
}

#[test]
fn len_counts_the_keys_seen() {
    let mut store = WindowStore::new();
    assert_eq!(store.len(), 0);
    store.record("X", price(1.0));
    assert_eq!(store.len(), 1);
    store.record("X", price(2.0));
    assert_eq!(store.len(), 1);
    store.record("Y", price(1.0));
    assert_eq!(store.len(), 2);
    for i in 0..40 {
        store.record("X", price(i as f64));
    }
    assert_eq!(store.len(), 2);
}
