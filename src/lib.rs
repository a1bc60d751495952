//! Primality of unsigned 32-bit integers by trial division.

pub mod prime;

pub use prime::is_prime;
