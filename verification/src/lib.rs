//! The decisions of a client of an Uptime Kuma server: what it sends, how it reads the answers, and
//! what it keeps of them. Sending and receiving is left to the program around it.
pub mod client;
pub mod config;
pub mod connect;
pub mod error;
pub mod events;
pub mod job;
pub mod json;
pub mod model;
pub mod monitors;
pub mod ready;
pub mod request;
pub mod search;
pub mod tags;
pub mod text;
pub mod worker;
