//! A small verified library of numeric and text pipelines: primality
//! testing, prime factor extraction, filter/map/reduce aggregation
//! over integer ranges and vectors, prefix selection, digit-window
//! sums over decimal strings, and a handful of small data types
//! around them.

pub mod arith;
pub mod config;
pub mod counter;
pub mod customers;
pub mod graph;
pub mod moving;
pub mod pipeline;
pub mod point;
pub mod predicate;
pub mod primes;
pub mod text;
