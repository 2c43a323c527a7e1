//! Confusion between "to" and "too".
pub mod to_too;

pub use to_too::ToToo;
