//! Verified core of the Fluxora message gateway: the JSON value model, sessions,
//! chat messages and envelopes, timestamps, configuration, message routing and
//! the component-dispatch planning used by the UI code generator.

pub mod json;
pub mod session;
pub mod message;
pub mod time;
pub mod config;
pub mod routing;
pub mod table;
pub mod attrs;
pub mod walk;
pub mod plan;
pub mod source;
pub mod connect;
pub mod ui;
pub mod templates;
pub mod store;
