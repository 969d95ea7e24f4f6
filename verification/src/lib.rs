//! Core of a single-document text-editing session: a line-oriented document
//! buffer with cursor tracking, a file session with a dirty/busy lifecycle,
//! and the state machine that keeps in-memory state consistent with
//! asynchronous open/save operations performed by an external I/O layer.

pub mod buffer;
pub mod highlight;
pub mod laws;
pub mod session;
pub mod text;
