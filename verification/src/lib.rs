//! A single-threaded driver core for a message-passing resource protocol:
//! a resource table of open handles, a request handler for the four
//! operations (open, read, fsync, close), and an event multiplexer that
//! retries deferred requests as interrupts arrive.

pub mod laws;
pub mod mux;
pub mod scheme;
