//! A minimal cooperative scheduler and a deadline-suspension primitive,
//! stated as verified state machines, together with the reply encoding and
//! key-value store of a small server. The host (threads, wakers, sockets,
//! the blocking wait for wakes) performs the actions these machines decide.
pub mod delay;
pub mod frame;
pub mod scheduler;
pub mod store;
