pub mod block_device;
pub mod block_handle;
pub mod block_handle_laws;
pub mod ch;
pub mod dragonball;
pub mod error;
pub mod error_laws;
pub mod host_laws;
pub mod metrics;
pub mod netns;
pub mod path;
pub mod pci_path;
pub mod qmp;
pub mod table;
pub mod text;
pub mod text_laws;
pub mod volume;
