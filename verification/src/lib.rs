//! Verified core of a Kerberos-aware HTTP forward proxy: the parsing of its
//! command line values and configuration, and the state machine that takes a
//! client request through ticket acquisition to tunnelling or forwarding.

pub mod text;
pub mod args;
pub mod config;
pub mod token;
pub mod proxy;
