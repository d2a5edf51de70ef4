//! Driving Cloud Hypervisor over its HTTP API.
pub mod api;
pub mod config;
pub mod device;
pub mod device_laws;
pub mod http;
pub mod http_laws;
pub mod laws;
pub mod lifecycle;
pub mod lifecycle_laws;
pub mod shared;
