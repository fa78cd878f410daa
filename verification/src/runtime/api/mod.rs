//! The execution API's own logic: credentials, validation, trace context and the worker
//! endpoints' decisions. Transport and rendering live with the server.
pub mod access;
pub mod auth;
pub mod errors;
pub mod interrupts;
pub mod jobs;
pub mod listing;
pub mod models;
pub mod trace;
pub mod validate;
pub mod worker;
