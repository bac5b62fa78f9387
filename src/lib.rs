//! Monte Carlo Value-at-Risk engine: a deterministic xorshift64* generator,
//! the integer draws behind its uniform and normal samplers, an in-place
//! quicksort, order-preserving keys for loss values, and the order-statistic
//! extraction that reads the estimate from a loss sample; also Fibonacci
//! numbers, iteratively and recursively.
pub mod fib;
pub mod key;
pub mod quantile;
pub mod rng;
pub mod sort;
