use var_mc::fib::{fib_iter, fib_rec};

#[test]
fn fib_small_values() {
    let expected = [0u64, 1, 1, 2, 3, 5, 8, 13, 21, 34, 55];
    for (n, &f) in expected.iter().enumerate() {
        assert_eq!(fib_iter(n as u64), f);
        assert_eq!(fib_rec(n as u64), f);
    }
}

#[test]
fn fib_iter_large_values() {
    assert_eq!(fib_iter(35), 9227465);
    assert_eq!(fib_iter(90), 2880067194370816120);
    assert_eq!(fib_iter(93), 12200160415121876738);
}

#[test]
fn fib_rec_matches_iter() {
    for n in 0..=25u64 {
        assert_eq!(fib_rec(n), fib_iter(n));
    }
}
