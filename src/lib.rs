//! Deployment client for a smart-contract execution backend: typed table
//! schemas and program bundles become authenticated JSON requests, and the
//! backend's answers become success or failure reports.

pub mod cli;
pub mod client;
pub mod json;
pub mod model;

pub use cli::{Cli, Commands};
pub use client::{
    CodeUploadClient, DeployError, HttpRequest, MercuryClient, NewZephyrTableClient, Outcome,
};
pub use json::status_text;
pub use model::{Column, Table};
