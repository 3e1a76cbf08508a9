//! A small client for a hosting provider's REST API: a persisted credential
//! record, the decisions around it, the request targets, and the handling of
//! the JSON answers.
pub mod json;
pub mod record;
pub mod store;
pub mod api;
pub mod command;
