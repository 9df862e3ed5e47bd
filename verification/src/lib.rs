//! Complete elliptic integrals of the first and second kind by minimax
//! approximation: the domain rules, the coefficient tables and the Horner
//! recurrence, on IEEE 754 binary64 values held as bit patterns.
//!
//! The library does no floating-point arithmetic. A caller hands in the one
//! rounded operation that the recurrence needs, takes back which formula
//! applies and the two polynomial values, and combines them itself.
pub mod binary64;
pub mod ellipe;
pub mod ellipk;
pub mod polyeval;

pub use polyeval::polyeval;
