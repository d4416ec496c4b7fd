//! Core logic of a Check Point VPN client: the SLIM packet framing, the
//! S-expression value model of the CCC protocol, the gateway's login
//! options, connection profiles, the service's connection state, resolver
//! and routing decisions, keepalive and rekey scheduling, and traffic
//! statistics.

pub mod route_msg;
pub mod text;
pub mod instance;
pub mod peer;
pub mod stats;
pub mod codec;
pub mod number;
pub mod order;
pub mod sexpr;
pub mod keepalive;
pub mod addr;
pub mod platform;
pub mod profiles;
pub mod service;
pub mod rekey;
pub mod prompt;
pub mod browser;
pub mod model;
pub mod table;
pub mod tunnel;
