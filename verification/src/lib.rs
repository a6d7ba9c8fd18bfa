//! The verified core of a portfolio tracker: accounts, portfolios and their
//! tickers, the guard that authenticates requests, and the shaping of market
//! data into replies.

pub mod adapters;
pub mod calendar;
pub mod error;
pub mod infrastructure;
pub mod models;
pub mod rows;
pub mod schema;
pub mod text;
pub mod validation;
