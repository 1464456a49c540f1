//! Decision logic of a small peer-to-peer echo and ping service.
//!
//! The transport itself (binding, dialing, accepting, moving bytes) is an
//! outside capability. This crate holds what is decided around it: which
//! handler serves a requested protocol tag, what a handler asks of the
//! transport next, and whether a ping came back intact.

pub mod command;
pub mod dispatch;
pub mod endpoint;
pub mod error;
pub mod identity;
pub mod probe;
pub mod responder;
pub mod tag;
pub mod transport;
