//! Core of a local upload agent.
pub mod chunks;
pub mod gcloud;
pub mod import;
pub mod laws;
pub mod naming;
pub mod outside;
pub mod paths;
pub mod pool;
pub mod registry;
pub mod requests;
pub mod retry;
pub mod routes;
pub mod server;
pub mod startup;
pub mod task;
pub mod text;
pub mod tracker;
pub mod updater;
pub mod upload;
