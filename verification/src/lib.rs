//! The decisions of an async runtime that follows the executor-reactor model.
//!
//! - [`executor`]: which task a worker runs next, which worker is woken for a
//!   task, and how a thread parks and is unparked.
//! - [`reactor`]: timers, the events of the operating system, and the sockets
//!   that wait for them.
//! - [`oneshot`]: the channel that carries one message between two tasks.
//! - [`runtime`]: the workers of a runtime, and how a thread waits for a future.
//!
//! Threads, clocks, sockets and futures belong to whoever uses this library: it
//! is told what happened, and says what to do.
pub mod executor;
pub mod oneshot;
pub mod reactor;
pub mod runtime;
pub mod task;
