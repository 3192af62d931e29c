//! Legal Entity Identifiers as laid down in ISO 17442.
//!
//! An identifier is twenty ASCII symbols: a four-symbol issuer prefix, a
//! fourteen-symbol entity part and two check digits computed with the
//! ISO/IEC 7064 MOD 97-10 scheme. This crate checks that form and offers a
//! borrowed and an owned type which hold checked identifiers only.
//!
//! [`validate`] is the one routine that decides; its contract gives the result
//! for every input as the spec function [`validate::validation`]. The types
//! [`lei`] and [`Lei`] carry validity as their invariant, so their accessors
//! ask nothing of the caller. What holds of validation in general is proved
//! in [`laws`].

pub mod alphabet;
pub mod borrowed;
pub mod checksum;
pub mod decimal;
pub mod error;
pub mod laws;
pub mod layout;
pub mod order;
pub mod owned;
pub mod rejection;
pub mod text;
pub mod validate;

pub use borrowed::lei;
pub use error::Error;
pub use owned::Lei;
pub use validate::validate;
