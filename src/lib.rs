//! Exact Fibonacci terms for request paths of the shape `/api/fib/<index>`.

pub mod bignum;
pub mod fib;
pub mod path;
pub mod service;
