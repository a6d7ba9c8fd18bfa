//! The records that the store keeps, and what can be asked of them.

pub mod authentication;
pub mod portfolio;
pub mod ticker;
pub mod user;
