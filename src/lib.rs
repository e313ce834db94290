//! A reputation-gated coupon marketplace: accounts spend reputation to publish
//! coupons and to vote on them, and votes move a coupon's rank in its domain.

pub mod config;
pub mod error;
pub mod model;
pub mod clock;
pub mod market;
pub mod ranking;
pub mod laws;
