//! A terminal network monitor: the state of its screens, the ping and scan
//! results it keeps, the parsers for the output of `ping`, `arp`,
//! `traceroute` and the routing table, and what its screens show.

pub mod app;
pub mod input;
pub mod laws;
pub mod layout;
pub mod literals;
pub mod models;
pub mod network;
pub mod text;
pub mod ui;
