//! Receipt handling for a loyalty programme: exact-decimal prices, the rules
//! that make a receipt acceptable, the points a receipt earns, and the store
//! that keeps accepted receipts under generated identifiers.

pub mod text;
pub mod data;
pub mod routes;
pub mod db;
