//! A DNS seeder for a peer-to-peer network: a verified peer catalog, crawler
//! decisions, DNS answer selection and the peer session state machine.

pub mod checkversion;
pub mod clock;
pub mod config;
pub mod crawler;
pub mod dns;
pub mod dns_seed_config;
pub mod dns_seed_discovery;
pub mod errors;
pub mod logging;
pub mod manager;
pub mod net;
pub mod profiling;
pub mod session;
pub mod table;
pub mod text;
pub mod types;
