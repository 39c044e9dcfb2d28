//! A gateway for signed webhook deliveries: it checks each delivery's
//! HMAC signature against a shared secret, names the record by the request
//! path and the declared event type, and decides what to hand to the
//! append-only log and what to answer.

pub mod signature;
pub mod headers;
pub mod body;
pub mod pipeline;
