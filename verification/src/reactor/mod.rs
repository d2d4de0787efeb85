//! The reactor: timers, the events of the operating system, and the sockets that
//! wait for them.
pub mod io;
pub mod net;
pub mod timers;
