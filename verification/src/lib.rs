//! Verified core of an asynchronous request/response demo application:
//! the message vocabulary, the receivers' answers, the requester's chain of
//! callbacks, the registry of pending callbacks, the framework's routing
//! decisions and the `send_async!` invocation grammar.
pub mod address;
pub mod invocation;
pub mod laws;
pub mod messages;
pub mod pending;
pub mod receiver;
pub mod requester;
pub mod router;
pub mod state;
