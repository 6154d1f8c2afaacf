use rust_rsi::binary64::Binary64;
use rust_rsi::gate::should_emit;
use rust_rsi::window::{PriceWindow, WINDOW_CAPACITY};

fn price(value: f64) -> Binary64 {
    Binary64::from_bits(value.to_bits())
}

fn values(window: &PriceWindow) -> Vec<f64> {
    window.as_slice().iter().map(|p| f64::from_bits(p.to_bits())).collect()
}

#[test]
fn binary64_keeps_the_bit_pattern() {
    let value = Binary64::from_bits(1.5f64.to_bits());
    assert_eq!(value.bits, 0x3FF8_0000_0000_0000);
    assert_eq!(value.to_bits(), 0x3FF8_0000_0000_0000);
    assert_eq!(f64::from_bits(value.to_bits()), 1.5);
    assert_ne!(price(0.0), price(-0.0));
    assert_eq!(price(f64::NAN), price(f64::NAN));
}

#[test]
fn capacity_is_fifteen() {
    assert_eq!(WINDOW_CAPACITY, 15);
}

#[test]
fn new_window_is_empty() {
    let window = PriceWindow::new();
    assert_eq!(window.len(), 0);
    assert!(window.is_empty());
    assert_eq!(window.get(0), None);
    assert!(window.as_slice().is_empty());
    assert!(window.to_vec().is_empty());
}

#[test]
fn push_appends_in_order_below_capacity() {
    let mut window = PriceWindow::new();
    window.push(price(3.0));
    window.push(price(1.0));
    window.push(price(2.0));
    assert_eq!(window.len(), 3);
    assert!(!window.is_empty());
    assert_eq!(values(&window), vec![3.0, 1.0, 2.0]);
    assert_eq!(window.get(0), Some(price(3.0)));
    assert_eq!(window.get(2), Some(price(2.0)));
    assert_eq!(window.get(3), None);
    assert_eq!(window.to_vec(), vec![price(3.0), price(1.0), price(2.0)]);
}

#[test]
fn fifteenth_push_fills_without_eviction() {
    let mut window = PriceWindow::new();
    for i in 0..15 {
        window.push(price(i as f64));
    }
    assert_eq!(window.len(), 15);
    let expected: Vec<f64> = (0..15).map(|i| i as f64).collect();
    assert_eq!(values(&window), expected);
}

#[test]
fn sixteenth_push_evicts_exactly_the_oldest() {
    let mut window = PriceWindow::new();
    for i in 0..16 {
        window.push(price(i as f64));
    }
    assert_eq!(window.len(), 15);
    let expected: Vec<f64> = (1..16).map(|i| i as f64).collect();
    assert_eq!(values(&window), expected);
    assert_eq!(window.get(0), Some(price(1.0)));
    assert_eq!(window.get(14), Some(price(15.0)));
}

#[test]
fn window_holds_the_latest_fifteen_of_a_long_history() {
    let mut window = PriceWindow::new();
    for i in 0..1000 {
        window.push(price(i as f64 * 0.25));
        assert!(window.len() <= 15);
        assert_eq!(window.len(), std::cmp::min(i + 1, 15));
    }
    let expected: Vec<f64> = (985..1000).map(|i| i as f64 * 0.25).collect();
    assert_eq!(values(&window), expected);
}

#[test]
fn prices_pass_through_unvalidated() {
    let mut window = PriceWindow::new();
    window.push(price(f64::NAN));
    window.push(price(-7.5));
    window.push(price(f64::INFINITY));
    window.push(price(0.0));
    let held = values(&window);
    assert!(held[0].is_nan());
    assert_eq!(window.get(0).map(|p| p.to_bits()), Some(f64::NAN.to_bits()));
    assert_eq!(held[1], -7.5);
    assert_eq!(held[2], f64::INFINITY);
    assert_eq!(held[3], 0.0);
}

#[test]
fn gate_opens_at_fifteen() {
    assert!(!should_emit(0));
    assert!(!should_emit(1));
    assert!(!should_emit(14));
    assert!(should_emit(15));
    assert!(should_emit(16));
    assert!(should_emit(usize::MAX));
}
