//! A labelled directed graph whose vertices carry byte payloads, and a small
//! instruction language (`ADD`, `BIND`, `PUT`) that builds such graphs.
pub mod text;
pub mod hex;
pub mod graph;
pub mod script;
pub mod report;
pub mod laws;

pub use graph::{GraphError, Sodg};
pub use hex::Hex;
pub use script::{DeployError, Fault, Script};
