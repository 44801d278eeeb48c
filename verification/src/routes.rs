//! The two operations offered to callers: submit a receipt, and ask for the
//! points of a stored one.

pub mod points;
pub mod process;
