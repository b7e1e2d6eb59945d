//! Bridge between a form service and an upstream meeting API: slot parsing,
//! merge planning, an idempotent reservation ledger, request signing and the
//! decisions of the submission pipeline.

pub mod text;
pub mod instant;
pub mod models;
pub mod slots;
pub mod merge;
pub mod auth;
pub mod client;
pub mod runs;
pub mod database;
pub mod pipeline;
pub mod mock;
