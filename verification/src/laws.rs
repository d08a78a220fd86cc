//! What the operations of this crate are for, stated of their results alone.
//!
//! A contract says which function an operation computes. The laws here say what
//! such a result has to satisfy, octet by octet, digit by digit or between two
//! calls, without naming the steps that lead to it.

pub mod authentication;
pub mod chip;
pub mod esim;
pub mod host;
pub mod link;
pub mod messages;
pub mod module;
pub mod naming;
pub mod network;
pub mod port;
pub mod record;
pub mod server;
pub mod service;
pub mod spelling;
