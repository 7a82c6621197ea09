//! Bookkeeping core of an asynchronous database access layer: the error
//! taxonomy, the connection pool's state machine and the decisions a
//! checked-out connection makes after each unit of work.
//!
//! Nothing here blocks, awaits or opens a socket. The runtime that owns the
//! real driver sessions calls these functions under its lock, performs the
//! action they return and reports back what happened.
//!
//! Two small modules serve the web frontend in the same way: the state of the
//! sign-up form and the look of a button, without any rendering.

pub mod button;
pub mod connection;
pub mod error;
pub mod form;
pub mod guard;
pub mod invariants;
pub mod pool;
mod text;
