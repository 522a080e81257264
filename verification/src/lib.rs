//! A verified core for a chat-platform events webhook service.
//!
//! The library decodes the platform's event envelope from JSON, decides how
//! the HTTP boundary must answer each request, hands event callbacks to a
//! worker through a FIFO dispatch queue, and builds the outbound reply that
//! the worker sends for qualifying messages.
//!
//! The surrounding program owns everything the core cannot: the HTTP server,
//! TLS, the worker thread, and the outbound call itself.

pub mod codec;
pub mod handler;
pub mod json;
pub mod model;
pub mod queue;
pub mod worker;
