//! Request dispatch and admission control in front of a pool of generation
//! workers: tier resolution, policy, routing, and response assembly.

pub mod agent;
pub mod config;
pub mod models;
pub mod node_client;
pub mod policy;
pub mod routing;
pub mod text;

pub use agent::AuriaAgent;
