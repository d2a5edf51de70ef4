//! Driving QEMU over QMP.
//!
//! Every operation here is a function of the replies that have come back so far. It runs until it
//! needs a reply that is not there, and then hands out the command that it waits for as
//! `Err(command)`; the caller sends that command, adds the reply, and runs the operation again
//! from the state it started in. When every reply is there, the operation is done and `Ok` holds
//! its result.
pub mod block;
pub mod block_laws;
pub mod ccw;
pub mod cleanup;
pub mod fdset;
pub mod laws;
pub mod memory;
pub mod memory_laws;
pub mod network;
pub mod network_laws;
pub mod pci;
pub mod pci_laws;
pub mod session;
pub mod session_laws;
pub mod vcpu;
pub mod vcpu_laws;
pub mod wire;
