//! What Dragonball is told of a network interface.
use crate::ch::config::NetworkConfig;
use vstd::prelude::*;

verus! {

/// The virtio side of a network interface.
#[derive(Clone, Debug, PartialEq, Eq)]
pub struct DragonballVirtioConfig {
    pub iface_id: String,
    pub host_dev_name: String,
    pub allow_duplicate_mac: bool,
}

/// Who carries the packets of a network interface.
#[derive(Clone, Debug, PartialEq, Eq)]
pub enum DragonballBackend {
    Virtio(DragonballVirtioConfig),
    Vhost(DragonballVirtioConfig),
}

/// A network interface, as Dragonball sees it.
#[derive(Clone, Debug, PartialEq, Eq)]
pub struct DragonballNetworkConfig {
    pub num_queues: Option<usize>,
    pub queue_size: Option<u16>,
    pub backend: DragonballBackend,
    pub guest_mac: Option<[u8; 6]>,
    pub use_shared_irq: Option<bool>,
    pub use_generic_irq: Option<bool>,
}

/// Whether a backend carries the packets of that interface.
pub open spec fn carries(backend: DragonballBackend, vhost: bool, config: NetworkConfig) -> bool {
    let virtio = match backend {
        DragonballBackend::Virtio(virtio) => virtio,
        DragonballBackend::Vhost(virtio) => virtio,
    };
    &&& vhost == (backend is Vhost)
    &&& virtio.iface_id@ == config.virt_iface_name@
    &&& virtio.host_dev_name@ == config.host_dev_name@
    &&& virtio.allow_duplicate_mac == config.allow_duplicate_mac
}

/// The network interface for Dragonball. Each queue pair is one receive and one transmit queue, and
/// there is one pair at least.
pub fn build_dragonball_network_config(disable_vhost_net: bool, nconfig: &NetworkConfig) -> (r:
    DragonballNetworkConfig)
    requires
        2 * nconfig.queue_num <= usize::MAX,
    ensures
        r.num_queues == Some(
            if nconfig.queue_num == 0 {
                2usize
            } else {
                (2 * nconfig.queue_num) as usize
            },
        ),
        r.queue_size == Some(nconfig.queue_size as u16),
        carries(r.backend, !disable_vhost_net, *nconfig),
        r.guest_mac == nconfig.guest_mac,
        r.use_shared_irq == nconfig.use_shared_irq,
        r.use_generic_irq == nconfig.use_generic_irq,
{
    let virtio_config = DragonballVirtioConfig {
        iface_id: nconfig.virt_iface_name.clone(),
        host_dev_name: nconfig.host_dev_name.clone(),
        allow_duplicate_mac: nconfig.allow_duplicate_mac,
    };
    let backend = if disable_vhost_net {
        DragonballBackend::Virtio(virtio_config)
    } else {
        DragonballBackend::Vhost(virtio_config)
    };
    let pairs: usize = if nconfig.queue_num < 1 {
        1
    } else {
        nconfig.queue_num
    };
    DragonballNetworkConfig {
        num_queues: Some(2 * pairs),
        queue_size: Some(
            #[verifier::truncate]
            (nconfig.queue_size as u16),
        ),
        backend,
        guest_mac: nconfig.guest_mac,
        use_shared_irq: nconfig.use_shared_irq,
        use_generic_irq: nconfig.use_generic_irq,
    }
}

/// How long after the start of a guest the balloon device is inserted, in seconds. The channel over
/// which the guest is told of it is not there before.
pub const BALLOON_DELAY: u64 = 5;

/// After how many seconds the balloon device is to be inserted into a guest, which it gives freed
/// memory back with; none where the guest did not start or is to keep its memory.
pub fn balloon_delay(started: bool, reclaim_guest_freed_memory: bool) -> (r: Option<u64>)
    ensures
        r == if started && reclaim_guest_freed_memory {
            Some(BALLOON_DELAY)
        } else {
            None
        },
{
    if started && reclaim_guest_freed_memory {
        Some(BALLOON_DELAY)
    } else {
        None
    }
}

/// The Dragonball hypervisor.
#[derive(Clone, Copy, Debug)]
pub struct Dragonball;

impl Dragonball {
    pub fn new() -> Self {
        Dragonball
    }

    /// Whether metrics may be asked of the agent. They may not: a request for them can wedge the
    /// one channel that the lifecycle requests go over too.
    pub fn is_agent_metrics_supported(&self) -> (r: bool)
        ensures
            !r,
    {
        false
    }
}

} // verus!
