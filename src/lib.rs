//! Live DNS traffic observation: resolver classification, capture filters,
//! frame decoding and windowed, ranked traffic aggregates.
pub mod capture;
pub mod config;
pub mod dns;
pub mod events;
pub mod net;
pub mod providers;
pub mod ranking;
pub mod tally;
pub mod text;
pub mod traffic;
pub mod window;
