//! Bootstrapping the meta language: its rules, and the conversion of meta
//! data read with them into rules.

pub use self::convert::{convert, Convert};
pub use self::rules::rules;

pub mod reading;
mod convert;
pub mod rules;
