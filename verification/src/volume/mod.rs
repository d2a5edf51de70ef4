//! Volumes of containers, above all the disks behind `emptyDir` volumes.
//!
//! Setting volumes up and taking them down alternates between decisions and work outside: on files,
//! on the device manager, on state that is shared with other callers. The decisions are here. Each
//! operation is a function of the replies that have come so far: where it needs one more, it gives
//! the command back, and is run again with the reply.
pub mod artifacts;
pub mod disk_store;
pub mod emptydir;
pub mod emptydir_laws;
pub mod finalize;
pub mod finalize_laws;
pub mod handler;
pub mod handler_laws;
pub mod laws;
pub mod reconcile;
pub mod wire;
