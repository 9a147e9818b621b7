//! Key lifecycle core of a symmetric-key delivery service: argument
//! validation, random key generation, the rows that persist a key for each
//! consumer, authorised retrieval and the oblivious transform.

pub mod codec;
pub mod error;
pub mod keygen;
pub mod lifecycle;
pub mod oblivious;
pub mod retrieve;
pub mod store;
pub mod validate;
