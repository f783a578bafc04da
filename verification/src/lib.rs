//! An inventory and ordering store: accounts, a product catalogue, carts and
//! orders, with the validation rules that guard each of them.
//!
//! The money amounts (prices, balances and order totals) are kept abstract:
//! every record that holds one is generic over its type, so the library decides
//! everything about a record except what is computed on the amounts.

pub mod text;
pub mod error;
pub mod validation;
pub mod password;
pub mod model;
pub mod codes;
pub mod accounts;
pub mod catalog;
pub mod cart;
pub mod orders;
pub mod commands;
pub mod listing;
pub mod laws;
