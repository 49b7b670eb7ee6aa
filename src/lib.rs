//! The core of a single-threaded, completion-based runtime: reference-counted
//! tasks in a generation-checked arena, their wakers and join handles, a
//! bounded FIFO scheduling pass, and the reactor's bookkeeping of in-flight
//! kernel operations.

pub mod buf;
pub mod driver;
pub mod id_generator;
pub mod net;
pub mod op;
pub mod runtime;
pub mod scheduler;
pub mod task;

pub use id_generator::IdGenerator;
