use var_mc::key::{key_bits, order_key};

#[test]
fn keys_of_signed_zero_and_one() {
    assert_eq!(order_key(0.0f64.to_bits()), 0);
    assert_eq!(order_key((-0.0f64).to_bits()), -1);
    assert_eq!(order_key(1.0f64.to_bits()), 0x3FF0_0000_0000_0000);
    assert_eq!(order_key((-1.0f64).to_bits()), -1 - 0x3FF0_0000_0000_0000);
}

#[test]
fn keys_order_like_values() {
    let xs: [f64; 10] = [-1e300, -3.5, -1.0, -1e-300, -0.0, 0.0, 1e-300, 0.25, 2.0, 7.5e10];
    for w in xs.windows(2) {
        assert!(order_key(w[0].to_bits()) < order_key(w[1].to_bits()), "{} {}", w[0], w[1]);
    }
}

#[test]
fn key_round_trip() {
    for &x in &[-2.5f64, -0.0, 0.0, 3.75, f64::MAX, f64::MIN] {
        assert_eq!(f64::from_bits(key_bits(order_key(x.to_bits()))).to_bits(), x.to_bits());
    }
    assert_eq!(key_bits(-1), 0x8000_0000_0000_0000);
    assert_eq!(key_bits(5), 5);
}
