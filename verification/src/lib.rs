//! Dynamic-DNS reconciliation: the decisions that keep a set of DNS records
//! pointed at a target address, verified with Verus.

pub mod cloudflare;
pub mod config;
pub mod dns;
pub mod ip;
pub mod reet;
pub mod text;
pub mod tick;
