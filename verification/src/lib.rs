//! Verified core of the MXC network broker.

pub mod ace;
pub mod arbitration;
pub mod atomicity;
pub mod authz;
pub mod broker;
pub mod client;
pub mod debug;
pub mod diag;
pub mod engine;
pub mod filter;
pub mod frame;
pub mod grammar;
pub mod grant;
pub mod identity;
pub mod ip;
pub mod ip_text;
pub mod ipc;
pub mod lifetime;
pub mod listener;
pub mod log;
pub mod models;
pub mod network;
pub mod policy;
pub mod proto;
pub mod proxy;
pub mod rpc;
pub mod service;
pub mod service_sid;
pub mod text;
pub mod wfp_grant;
pub mod wide;
