use kata_block::error::Error;
use kata_block::qmp::block::block_node_name;
use kata_block::qmp::ccw::{CcwError, CcwSubChannel};
use kata_block::qmp::cleanup::span;
use kata_block::qmp::memory::{can_grow_by, can_shrink_by, is_measurable};
use kata_block::qmp::network::{DeviceVirtioNet, Netdev};
use kata_block::qmp::pci::{find_free_slot_in_pci_devices, get_pci_path_by_qdev_id};
use kata_block::qmp::session::{get_qmp_socket_path, Qmp};
use kata_block::qmp::vcpu::{is_flat_cpu_topology, vcpu_id_from_core_id};
use kata_block::qmp::wire::{
    AddfdInfo, Argument, ArgumentValue, CpuThread, Double, FailureKind, HotpluggableCpu,
    MemoryDevice, MigrationInfo, PciDevice, QmpCommand, QmpError, QmpReply, SocketAddress,
    SourceStep, XbzrleCacheStats,
};
use kata_block::table::Table;

const MIB: u64 = 1024 * 1024;

fn failed(kind: FailureKind, text: &str) -> QmpReply {
    QmpReply::Failed(QmpError { kind, text: text.to_string(), debug: format!("{:?}", text) })
}

fn rejected(text: &str) -> QmpReply {
    failed(FailureKind::Rejected, text)
}

/// Runs an operation to its end; every reply must be asked for.
fn drive<T>(
    qmp: &mut Qmp,
    replies: Vec<QmpReply>,
    commands: &mut Vec<QmpCommand>,
    operation: impl Fn(&mut Qmp) -> Result<Result<T, Error>, QmpCommand>,
) -> Result<T, Error> {
    let start = qmp.clone();
    let mut given = Vec::new();
    let mut left = replies.into_iter();
    loop {
        let mut session = start.clone();
        session.replies = given.clone();
        match operation(&mut session) {
            Ok(result) => {
                assert!(session.replies.is_empty());
                assert!(left.next().is_none(), "replies that nothing asked for");
                *qmp = session;
                return result;
            }
            Err(command) => {
                commands.push(command);
                given.push(left.next().expect("a reply for every command"));
            }
        }
    }
}

fn session() -> Qmp {
    Qmp::over(None)
}

fn text(name: &str, value: &str) -> Argument {
    Argument { name: name.to_string(), value: ArgumentValue::Text(value.to_string()) }
}

fn integer(name: &str, value: i64) -> Argument {
    Argument { name: name.to_string(), value: ArgumentValue::Integer(value) }
}

fn flag(name: &str) -> Argument {
    Argument { name: name.to_string(), value: ArgumentValue::Flag(true) }
}

fn assert_device_add(
    command: &QmpCommand,
    expected_driver: &str,
    expected_bus: Option<&str>,
    expected_id: &str,
    expected_arguments: &[Argument],
) {
    match command {
        QmpCommand::DeviceAdd { driver, bus, id, arguments } => {
            assert_eq!(driver, expected_driver);
            assert_eq!(bus.as_deref(), expected_bus);
            assert_eq!(id, expected_id);
            assert_eq!(arguments.as_slice(), expected_arguments);
        }
        other => panic!("unexpected command {:?}", other),
    }
}

fn cpu(driver: &str, core_id: i64, plugged: bool) -> HotpluggableCpu {
    HotpluggableCpu {
        driver: driver.to_string(),
        core_id: Some(core_id),
        socket_id: Some(1),
        thread_id: Some(0),
        plugged,
    }
}

#[test]
fn vcpus_are_added_up_to_the_wanted_number() {
    let cpus = vec![
        cpu("host-x86_64-cpu", 0, true),
        cpu("host-x86_64-cpu", 1, false),
        HotpluggableCpu { thread_id: None, ..cpu("host-x86_64-cpu", 2, false) },
        HotpluggableCpu { core_id: None, ..cpu("host-x86_64-cpu", 3, false) },
        cpu("host-s390x-cpu", 4, false),
        cpu("host-x86_64-cpu", 5, false),
    ];
    let mut commands = Vec::new();
    let replies = vec![QmpReply::Cpus(cpus), QmpReply::Done, QmpReply::Done];
    let added =
        drive(&mut session(), replies, &mut commands, |qmp| qmp.hotplug_vcpus(2)).unwrap();

    assert_eq!(added, 2);
    assert_device_add(
        &commands[1],
        "host-x86_64-cpu",
        None,
        "cpu-1",
        &[integer("core-id", 1), integer("socket-id", 1), integer("thread-id", 0)],
    );
    assert_device_add(&commands[2], "host-s390x-cpu", None, "cpu-4", &[integer("core-id", 4)]);
}

#[test]
fn fewer_vcpus_than_wanted_are_reported() {
    let mut commands = Vec::new();
    let replies = vec![QmpReply::Cpus(vec![cpu("host-arm-cpu", 7, false)]), QmpReply::Done];
    let added =
        drive(&mut session(), replies, &mut commands, |qmp| qmp.hotplug_vcpus(3)).unwrap();
    assert_eq!(added, 1);

    let replies = vec![QmpReply::Cpus(vec![cpu("host-arm-cpu", 7, false)]), rejected("no")];
    let error =
        drive(&mut session(), replies, &mut commands, |qmp| qmp.hotplug_vcpus(3)).unwrap_err();
    assert_eq!(error.text(), "no");
}

#[test]
fn vcpus_are_removed_up_to_the_wanted_number() {
    let cpus = vec![
        cpu("host-x86_64-cpu", 0, false),
        cpu("host-x86_64-cpu", 1, true),
        cpu("host-x86_64-cpu", 2, true),
    ];
    let mut commands = Vec::new();
    let replies = vec![QmpReply::Cpus(cpus), QmpReply::Done];
    let removed =
        drive(&mut session(), replies, &mut commands, |qmp| qmp.hotunplug_vcpus(1)).unwrap();
    assert_eq!(removed, 1);
    assert!(matches!(&commands[1], QmpCommand::DeviceDel(id) if id == "cpu-1"));
    assert_eq!(vcpu_id_from_core_id(12), "cpu-12");
    assert!(is_flat_cpu_topology("host-powerpc64-cpu"));
    assert!(!is_flat_cpu_topology("host-x86_64-cpu"));
}

#[test]
fn vcpu_threads_go_by_their_index() {
    let threads = vec![
        CpuThread { cpu_index: 0, thread_id: 101 },
        CpuThread { cpu_index: 1, thread_id: 102 },
        CpuThread { cpu_index: 0, thread_id: 103 },
    ];
    let mut commands = Vec::new();
    let replies = vec![QmpReply::Threads(threads)];
    let ids =
        drive(&mut session(), replies, &mut commands, |qmp| qmp.get_vcpu_thread_ids()).unwrap();
    assert_eq!(ids.vcpus.get(&0), Some(&103));
    assert_eq!(ids.vcpus.get(&1), Some(&102));
    assert_eq!(ids.vcpus.len(), 2);

    let replies = vec![rejected("no")];
    let error =
        drive(&mut session(), replies, &mut commands, |qmp| qmp.get_vcpu_thread_ids()).unwrap_err();
    assert_eq!(error.text(), "query_cpus_fast failed: \"no\"");
}

fn dimm(id: &str, size: i64, hotplugged: bool) -> MemoryDevice {
    MemoryDevice::Dimm { id: Some(id.to_string()), size, hotpluggable: true, hotplugged }
}

#[test]
fn hotplugged_memory_adds_up() {
    let devices = vec![
        dimm("boot", 512, false),
        dimm("frontend-to-hotplugged-0", 256, true),
        MemoryDevice::VirtioMem { size: 3 * MIB },
        MemoryDevice::Other,
    ];
    let mut commands = Vec::new();
    let size = drive(&mut session(), vec![QmpReply::Memory(devices)], &mut commands, |qmp| {
        qmp.hotplugged_memory_size()
    })
    .unwrap();
    assert_eq!(size, 256 + 3 * MIB);
}

/// Sizes matter only where they are added up.
#[test]
fn memory_limits_follow_the_sums() {
    let modules = vec![dimm("a", i64::MAX, true), dimm("b", -1, true)];
    assert!(!is_measurable(&modules));
    assert!(is_measurable(&vec![dimm("b", -1, true)]));
    assert!(can_grow_by(&modules, u64::MAX));
    assert!(can_shrink_by(&modules, i64::MAX));

    let half = MemoryDevice::VirtioMem { size: 1 << 63 };
    let whole = vec![half.clone(), half.clone()];
    assert!(!is_measurable(&whole));
    assert!(!can_grow_by(&whole, 0));
    assert!(!can_shrink_by(&whole, 0));
    assert!(can_shrink_by(&whole, -1));
    let most = vec![half];
    assert!(is_measurable(&most));
    assert!(can_grow_by(&most, (1 << 63) - 1));
    assert!(!can_grow_by(&most, 1 << 63));

    let mut commands = Vec::new();
    let replies = vec![QmpReply::Memory(vec![dimm("b", -1, true)])];
    let size = drive(&mut session(), replies, &mut commands, |qmp| qmp.hotplugged_memory_size());
    assert_eq!(size.unwrap(), u64::MAX);
}

#[test]
fn memory_is_added_as_a_numbered_module() {
    let devices = vec![dimm("boot", 512, false), dimm("frontend-to-hotplugged-0", 256, true)];
    let mut commands = Vec::new();
    let replies = vec![QmpReply::Memory(devices), QmpReply::Done, QmpReply::Done];
    drive(&mut session(), replies, &mut commands, |qmp| qmp.hotplug_memory(4096)).unwrap();

    match &commands[1] {
        QmpCommand::MemoryBackendAdd { id, size, share, mem_path } => {
            assert_eq!(id, "hotplugged-1");
            assert_eq!(*size, 4096);
            assert!(*share);
            assert_eq!(mem_path.as_deref(), Some("/dev/shm"));
        }
        other => panic!("unexpected command {:?}", other),
    }
    assert_device_add(
        &commands[2],
        "pc-dimm",
        None,
        "frontend-to-hotplugged-1",
        &[text("memdev", "hotplugged-1")],
    );
}

#[test]
fn memory_is_removed_with_its_backend() {
    let devices = vec![
        dimm("frontend-to-hotplugged-0", 256, true),
        dimm("frontend-to-hotplugged-1", 4096, true),
    ];
    let mut commands = Vec::new();
    let replies = vec![QmpReply::Memory(devices.clone()), QmpReply::Done, QmpReply::Done];
    drive(&mut session(), replies, &mut commands, |qmp| qmp.hotunplug_memory(4096)).unwrap();
    assert!(
        matches!(&commands[1], QmpCommand::DeviceDel(id) if id == "frontend-to-hotplugged-1")
    );
    assert!(matches!(&commands[2], QmpCommand::ObjectDel(id) if id == "hotplugged-1"));

    let replies = vec![QmpReply::Memory(devices)];
    let error = drive(&mut session(), replies, &mut commands, |qmp| qmp.hotunplug_memory(1))
        .unwrap_err();
    assert_eq!(error.text(), "couldn't find a suitable memory device to hotunplug");
}

/// What was added is removed: the device is asked to take the size it had.
#[test]
fn virtio_mem_grows_and_shrinks_back() {
    let mut commands = Vec::new();
    let replies =
        vec![QmpReply::Memory(vec![MemoryDevice::VirtioMem { size: 8 * MIB }]), QmpReply::Done];
    drive(&mut session(), replies, &mut commands, |qmp| qmp.hotplug_memory(4 * MIB)).unwrap();
    let replies =
        vec![QmpReply::Memory(vec![MemoryDevice::VirtioMem { size: 12 * MIB }]), QmpReply::Done];
    drive(&mut session(), replies, &mut commands, |qmp| qmp.hotunplug_memory(4 << 20)).unwrap();

    for (index, expected) in [(1, 12 * MIB), (3, 8 * MIB)] {
        match &commands[index] {
            QmpCommand::QomSet { path, property, value } => {
                assert_eq!(path, "virtiomem0");
                assert_eq!(property, "requested-size");
                assert_eq!(*value, expected);
            }
            other => panic!("unexpected command {:?}", other),
        }
    }

    let replies = vec![QmpReply::Memory(vec![MemoryDevice::VirtioMem { size: 12 * MIB }])];
    let error = drive(&mut session(), replies, &mut commands, |qmp| qmp.hotunplug_memory(-5))
        .unwrap_err();
    assert_eq!(error.text(), "cannot hotunplug negative memory size: -5 bytes");
    let error = drive(&mut session(), Vec::new(), &mut commands, |qmp| qmp.resize_virtio_mem(-1))
        .unwrap_err();
    assert_eq!(error.text(), "cannot resize virtio-mem device to negative size (-1) memory");
}

fn on_ccw() -> Qmp {
    let mut qmp = session();
    qmp.set_ccw_subchannel(CcwSubChannel::new());
    qmp
}

#[test]
fn virtio_mem_setup_covers_what_may_be_added() {
    let mut commands = Vec::new();
    let mut qmp = on_ccw();
    drive(&mut qmp, vec![QmpReply::Done, QmpReply::Done], &mut commands, |qmp| {
        qmp.setup_virtio_mem(512, 1027, "s390-ccw-virtio", Some("virtio-fs"))
    })
    .unwrap();
    match &commands[0] {
        QmpCommand::MemoryBackendAdd { id, size, share, mem_path } => {
            assert_eq!(id, "virtiomem");
            assert_eq!(*size, 512 * MIB);
            assert!(*share);
            assert_eq!(mem_path.as_deref(), Some("/dev/shm"));
        }
        other => panic!("unexpected command {:?}", other),
    }
    assert_device_add(
        &commands[1],
        "virtio-mem-ccw",
        None,
        "virtiomem0",
        &[text("memdev", "virtiomem"), text("devno", "fe.0.0000")],
    );

    drive(&mut on_ccw(), Vec::new(), &mut commands, |qmp| {
        qmp.setup_virtio_mem(512, 515, "s390-ccw-virtio", None)
    })
    .unwrap();
}

#[test]
fn virtio_mem_setup_failures_are_told_apart() {
    let mut commands = Vec::new();
    let setup = |max: u32, machine: &'static str| {
        move |qmp: &mut Qmp| qmp.setup_virtio_mem(512, max, machine, None)
    };
    let error = drive(&mut on_ccw(), Vec::new(), &mut commands, setup(256, "s390-ccw-virtio"))
        .unwrap_err();
    assert_eq!(
        error.text(),
        "default_maxmemory (256) must be >= default_memory (512) for virtio-mem setup"
    );
    let error = drive(&mut on_ccw(), Vec::new(), &mut commands, setup(1024, "q35")).unwrap_err();
    assert!(error.text().ends_with("Current machine type: q35"));
    let error = drive(&mut session(), Vec::new(), &mut commands, setup(1024, "s390-ccw-virtio"))
        .unwrap_err();
    assert_eq!(error.text(), "CCW subchannel not initialized for s390x");

    let mut qmp = on_ccw();
    let replies = vec![rejected("mmap: Cannot allocate memory"), QmpReply::Done];
    let error =
        drive(&mut qmp, replies, &mut commands, setup(1024, "s390-ccw-virtio")).unwrap_err();
    assert_eq!(
        error.text(),
        "Failed to allocate 512 MB for virtio-mem: mmap: Cannot allocate memory. Please use \
         command 'echo 1 > /proc/sys/vm/overcommit_memory' to handle it."
    );
    assert!(matches!(commands.last(), Some(QmpCommand::ObjectDel(id)) if id == "virtiomem"));
    assert!(qmp.ccw_subchannel.as_mut().unwrap().add_device("virtiomem0").is_ok());

    let replies = vec![QmpReply::Done, rejected("no bus"), QmpReply::Done];
    let error = drive(&mut on_ccw(), replies, &mut commands, setup(1024, "s390-ccw-virtio"))
        .unwrap_err();
    assert_eq!(error.text(), "Failed to add virtio-mem-ccw device: no bus");
}

/// No two devices of a subchannel get one slot, whatever left it before.
#[test]
fn subchannel_slots_stay_distinct() {
    let mut subchannel = CcwSubChannel::new();
    assert_eq!(subchannel.add_device("a"), Ok(0));
    assert_eq!(subchannel.add_device("b"), Ok(1));
    assert_eq!(subchannel.add_device("a"), Err(CcwError::DeviceAlreadyExists));
    assert_eq!(subchannel.remove_device("a"), Ok(()));
    assert_eq!(subchannel.remove_device("a"), Err(CcwError::DeviceNotFound));
    assert_eq!(subchannel.add_device("a"), Ok(2));
    assert_eq!(subchannel.address_format_ccw(26), "fe.0.001a");
    assert_eq!(subchannel.address_format_ccw_for_virt_server(26), "0.0.001a");
    subchannel.next_slot = u32::MAX;
    assert_eq!(subchannel.add_device("c"), Err(CcwError::SlotsExhausted));
    assert_eq!(CcwError::SlotsExhausted.text(), "SlotsExhausted");
}

fn tap() -> (Netdev, DeviceVirtioNet) {
    (
        Netdev { id: "tap0".to_string(), fds: vec![11, 12], vhostfds: vec![13] },
        DeviceVirtioNet {
            device_driver: "virtio-net-pci".to_string(),
            netdev_id: "tap0".to_string(),
            mac_addr: "02:00:00:00:00:01".to_string(),
            num_queues: 2,
        },
    )
}

#[test]
fn network_device_takes_a_bridge_slot() {
    let (netdev, device) = tap();
    let mut qmp = session();
    qmp.init_pci_bridges(1);
    let mut commands = Vec::new();
    let replies = vec![QmpReply::Done; 5];
    drive(&mut qmp, replies, &mut commands, |qmp| {
        qmp.hotplug_network_device(&netdev, &device, false)
    })
    .unwrap();

    for (index, expected_fd, expected_name) in [(0, 11, "fd0"), (1, 12, "fd1"), (2, 13, "vhostfd0")]
    {
        match &commands[index] {
            QmpCommand::PassFd { fd, name } => {
                assert_eq!(*fd, expected_fd);
                assert_eq!(name, expected_name);
            }
            other => panic!("unexpected command {:?}", other),
        }
    }
    match &commands[3] {
        QmpCommand::NetdevAdd { id, fds, vhostfds } => {
            assert_eq!(id, "tap0");
            assert_eq!(fds, "fd0,fd1");
            assert_eq!(vhostfds.as_deref(), Some("vhostfd0"));
        }
        other => panic!("unexpected command {:?}", other),
    }
    assert_device_add(
        &commands[4],
        "virtio-net-pci",
        Some("pci-bridge-0"),
        "frontend-tap0",
        &[
            text("netdev", "tap0"),
            text("mac", "02:00:00:00:00:01"),
            flag("mq"),
            text("addr", "01"),
            integer("vectors", 6),
        ],
    );
    // The slot is taken now.
    assert_eq!(qmp.find_free_slot().unwrap().unwrap(), ("pci-bridge-0".to_string(), 2));
}

#[test]
fn refused_network_device_leaves_nothing_behind() {
    let (netdev, device) = tap();
    let mut qmp = on_ccw();
    let mut commands = Vec::new();
    let replies = vec![
        QmpReply::Done,
        QmpReply::Done,
        QmpReply::Done,
        QmpReply::Done,
        rejected("no such driver"),
        QmpReply::Done,
    ];
    let error = drive(&mut qmp, replies, &mut commands, |qmp| {
        qmp.hotplug_network_device(&netdev, &device, true)
    })
    .unwrap_err();
    assert_eq!(error.text(), "no such driver");
    assert!(matches!(&commands[5], QmpCommand::NetdevDel(id) if id == "tap0"));
    assert!(!qmp.ccw_subchannel.unwrap().devices.contains_key("frontend-tap0"));

    let replies = vec![QmpReply::Done, rejected("bad descriptor")];
    let error = drive(&mut on_ccw(), replies, &mut commands, |qmp| {
        qmp.hotplug_network_device(&netdev, &device, true)
    })
    .unwrap_err();
    assert_eq!(error.text(), "failed to pass fd1 (12): bad descriptor");

    let error = drive(&mut session(), Vec::new(), &mut commands, |qmp| {
        qmp.hotplug_network_device(&netdev, &device, true)
    })
    .unwrap_err();
    assert_eq!(error.text(), "CCW subchannel not available for virtio-net-ccw hotplug");
}

fn pci(slot: i64, qdev_id: &str, bridge: Option<Vec<PciDevice>>) -> PciDevice {
    PciDevice { slot, qdev_id: qdev_id.to_string(), bridge }
}

fn tree() -> Vec<PciDevice> {
    vec![
        pci(1, "rng0", None),
        pci(2, "pci-bridge-0", Some(vec![pci(1, "drive-0", None), pci(3, "drive-1", None)])),
        pci(3, "rp0", Some(vec![pci(0, "drive-2", None)])),
    ]
}

/// Slots lead to a device exactly where it is in the tree, and the last of them is its own.
#[test]
fn slots_lead_to_a_device() {
    let mut path = Vec::new();
    assert_eq!(get_pci_path_by_qdev_id(&tree(), "drive-1", &mut path).unwrap().slot, 3);
    assert_eq!(path, vec![2, 3]);
    let mut path = Vec::new();
    assert!(get_pci_path_by_qdev_id(&tree(), "rng0", &mut path).is_some());
    assert_eq!(path, vec![1]);
    let mut path = Vec::new();
    assert!(get_pci_path_by_qdev_id(&tree(), "drive-9", &mut path).is_none());
    assert!(path.is_empty());

    let mut commands = Vec::new();
    let replies = vec![QmpReply::Pci(vec![Vec::new(), tree()])];
    let path = drive(&mut session(), replies, &mut commands, |qmp| {
        qmp.get_device_by_qdev_id("drive-2")
    })
    .unwrap();
    assert_eq!(path.to_text(), "03/00");
    let replies = vec![QmpReply::Pci(vec![tree()])];
    let error = drive(&mut session(), replies, &mut commands, |qmp| {
        qmp.get_device_by_qdev_id("drive-9")
    })
    .unwrap_err();
    assert_eq!(error.text(), "no target device found");
}

/// A free slot is the first that is not taken; where none comes out, all are.
#[test]
fn first_free_slot_of_a_bridge() {
    assert_eq!(find_free_slot_in_pci_devices(&tree()), Some(("pci-bridge-0".to_string(), 2)));
    let mut full = Vec::new();
    for slot in 1..=30 {
        full.push(pci(slot, "x", None));
    }
    let devices = vec![pci(2, "pci-bridge-0", Some(full))];
    assert_eq!(find_free_slot_in_pci_devices(&devices), None);

    let mut commands = Vec::new();
    let error = drive(&mut session(), vec![QmpReply::Pci(vec![devices])], &mut commands, |qmp| {
        qmp.find_free_slot()
    })
    .unwrap_err();
    assert_eq!(error.text(), "no free slots on PCI bridges");

    let mut qmp = session();
    qmp.init_pci_bridges(2);
    for slot in 1..=30 {
        qmp.record_pci_bridge_slot("pci-bridge-0", slot, "x");
    }
    assert_eq!(qmp.find_free_slot().unwrap().unwrap(), ("pci-bridge-1".to_string(), 1));
}

#[test]
fn passed_through_device_gets_more_time() {
    let mut commands = Vec::new();
    let replies = vec![
        QmpReply::Done,
        QmpReply::Done,
        QmpReply::Done,
        QmpReply::Pci(vec![vec![pci(3, "rp0", Some(vec![pci(0, "vfio-1", None)]))]]),
    ];
    let path = drive(&mut session(), replies, &mut commands, |qmp| {
        qmp.hotplug_vfio_device("vfio-1", "/sys/x", "3b:00.0", "vfio-pci", "rp0")
    })
    .unwrap();
    assert_eq!(path.unwrap().to_text(), "03/00");
    assert!(matches!(commands[0], QmpCommand::SetReadTimeout(5_000_000_000)));
    assert_device_add(
        &commands[1],
        "vfio-pci",
        Some("rp0"),
        "vfio-1",
        &[text("addr", "0x0"), text("host", "0000:3b:00.0"), text("multifunction", "off")],
    );
    assert!(matches!(commands[2], QmpCommand::SetReadTimeout(250_000_000)));

    let mut commands = Vec::new();
    let replies = vec![QmpReply::Done, QmpReply::Done, QmpReply::Done];
    let path = drive(&mut session(), replies, &mut commands, |qmp| {
        qmp.hotplug_vfio_device("ap-1", "/sys/ap", "", "vfio-ap", "")
    })
    .unwrap();
    assert!(path.is_none());
    assert_device_add(&commands[1], "vfio-ap", None, "ap-1", &[text("sysfsdev", "/sys/ap")]);

    let replies = vec![QmpReply::Done, rejected("busy")];
    let error = drive(&mut session(), replies, &mut commands, |qmp| {
        qmp.hotplug_vfio_device("ap-1", "/sys/ap", "", "vfio-ap", "")
    })
    .unwrap_err();
    assert_eq!(error.text(), "device_add vfio device failed \"busy\"");
}

fn plug(qmp: &mut Qmp, driver: &str, index: u64) -> Result<
    Result<(Option<kata_block::pci_path::PciPath>, Option<String>), Error>,
    QmpCommand,
> {
    qmp.hotplug_block_device(
        driver, index, "/disk", "native", None, true, true, false, 512, 4096, None, None, None,
    )
}

fn prepared() -> QmpReply {
    QmpReply::Source(SourceStep::Prepared {
        filename: "/dev/fdset/3".to_string(),
        is_regular_file: false,
    })
}

#[test]
fn scsi_device_goes_by_target_and_unit() {
    let mut commands = Vec::new();
    let replies = vec![prepared(), QmpReply::Done, QmpReply::Done];
    let (path, address) =
        drive(&mut session(), replies, &mut commands, |qmp| plug(qmp, "virtio-scsi", 515))
            .unwrap();
    assert!(path.is_none());
    assert_eq!(address.as_deref(), Some("2:3"));
    match &commands[1] {
        QmpCommand::BlockdevAdd(options) => {
            assert_eq!(options.force_share, Some(true));
            assert_eq!(options.drop_cache, Some(true));
            assert_eq!(options.cache_direct, None);
            assert!(options.read_only);
            assert!(!options.is_regular_file);
        }
        other => panic!("unexpected command {:?}", other),
    }
    assert_device_add(
        &commands[2],
        "scsi-hd",
        Some("scsi0.0"),
        "drive-515",
        &[
            text("drive", "drive-515"),
            integer("logical_block_size", 512),
            integer("physical_block_size", 4096),
            integer("scsi-id", 2),
            integer("lun", 3),
        ],
    );
    assert_eq!(block_node_name(515), "drive-515");
}

#[test]
fn ccw_device_takes_a_slot_and_gives_it_back() {
    let mut commands = Vec::new();
    let mut qmp = on_ccw();
    let replies = vec![prepared(), QmpReply::Done, QmpReply::Done];
    let (path, address) =
        drive(&mut qmp, replies, &mut commands, |qmp| plug(qmp, "virtio-blk-ccw", 4)).unwrap();
    assert!(path.is_none());
    assert_eq!(address.as_deref(), Some("0.0.0000"));
    assert!(qmp.ccw_subchannel.as_ref().unwrap().devices.contains_key("drive-4"));

    // A device that is refused leaves the subchannel again.
    let replies = vec![prepared(), QmpReply::Done, rejected("no"), QmpReply::Done];
    let error =
        drive(&mut qmp, replies, &mut commands, |qmp| plug(qmp, "virtio-blk-ccw", 5)).unwrap_err();
    assert!(error.cleanup_pending().is_none());
    assert!(!qmp.ccw_subchannel.as_ref().unwrap().devices.contains_key("drive-5"));
}

#[test]
fn failed_source_gives_its_descriptors_back() {
    let mut commands = Vec::new();
    let mut qmp = session();
    let replies = vec![
        QmpReply::Source(SourceStep::PassFd("source".to_string())),
        QmpReply::FdAdded(AddfdInfo { fd: 4, fdset_id: 6 }),
        QmpReply::Source(SourceStep::Failed(Error::msg("not a disk".to_string()))),
        QmpReply::Done,
        QmpReply::Fdsets(Vec::new()),
    ];
    let error =
        drive(&mut qmp, replies, &mut commands, |qmp| plug(qmp, "virtio-blk-pci", 0)).unwrap_err();
    assert!(error.chain_text().contains("not a disk"));
    assert!(error.cleanup_pending().is_none());
    assert!(!qmp.block_fdsets.contains_key("drive-0"));
    assert!(matches!(commands[3], QmpCommand::RemoveFd(6)));
}

#[test]
fn session_opening_is_retried_until_the_deadline() {
    let lost = || {
        let cause = Error::msg("connection refused".to_string());
        QmpReply::NotConnected(cause.context("qmp handshake failed".to_string()))
    };
    let replies = vec![QmpReply::Elapsed(0), QmpReply::Elapsed(1), lost()];
    assert!(matches!(
        Qmp::new("/run/qmp.sock", replies.clone()),
        Err(QmpCommand::Sleep(50_000_000))
    ));
    let mut late = replies.clone();
    late.push(QmpReply::Done);
    late.push(QmpReply::Elapsed(50_000_000_000));
    let error = Qmp::new("/run/qmp.sock", late).unwrap().unwrap_err();
    assert_eq!(
        error.chain_text(),
        "timed out waiting for QMP ready: /run/qmp.sock: qmp handshake failed: connection refused"
    );
    let mut again = replies;
    again.push(QmpReply::Done);
    again.push(QmpReply::Elapsed(60_000_000));
    again.push(QmpReply::Done);
    again.push(QmpReply::Fdsets(Vec::new()));
    let qmp = Qmp::new("/run/qmp.sock", again).unwrap().unwrap();
    assert_eq!(qmp.qmp_sock_path.as_deref(), Some("/run/qmp.sock"));
    assert_eq!(qmp.guest_memory_block_size(), 0);
}

fn migration() -> MigrationInfo {
    MigrationInfo {
        status: Some("completed".to_string()),
        ram: None,
        vfio_transferred: Some(4096),
        xbzrle_cache: Some(XbzrleCacheStats {
            cache_size: 64,
            bytes: 1,
            pages: 2,
            cache_miss: 3,
            cache_miss_rate: Double { bits: 0.25f64.to_bits() },
            encoding_rate: Double { bits: 1.5f64.to_bits() },
            overflow: 0,
        }),
        total_time: Some(120),
        expected_downtime: None,
        downtime: Some(7),
        setup_time: Some(3),
        cpu_throttle_percentage: None,
        error_desc: None,
        blocked_reasons: Some(vec!["a device cannot be moved".to_string()]),
        postcopy_blocktime: None,
        postcopy_vcpu_blocktime: None,
        socket_address: Some(vec![SocketAddress::Fd("7".to_string())]),
        dirty_limit_throttle_time_per_round: None,
        dirty_limit_ring_full_time: Some(9),
    }
}

#[test]
fn session_commands_report_their_failures() {
    let mut commands = Vec::new();
    drive(&mut session(), vec![QmpReply::Done], &mut commands, |qmp| qmp.qmp_stop()).unwrap();
    drive(&mut session(), vec![QmpReply::Done], &mut commands, |qmp| qmp.qmp_cont()).unwrap();
    assert!(matches!(commands[0], QmpCommand::Stop));
    assert!(matches!(commands[1], QmpCommand::Cont));
    let error = drive(&mut session(), vec![rejected("no")], &mut commands, |qmp| {
        qmp.execute_migration("fd:3")
    })
    .unwrap_err();
    assert!(error.chain_text().ends_with("no"));
    let replies = vec![QmpReply::Migration(migration())];
    let info =
        drive(&mut session(), replies, &mut commands, |qmp| qmp.execute_query_migrate()).unwrap();
    assert_eq!(info, migration());
    let error = drive(&mut session(), vec![rejected("gone")], &mut commands, |qmp| {
        qmp.execute_query_migrate()
    })
    .unwrap_err();
    assert_eq!(error.text(), "gone");
    let mut qmp = session();
    qmp.set_guest_memory_block_size(128);
    assert_eq!(qmp.guest_memory_block_size(), 128);
}

#[test]
fn spans_are_written_in_the_shortest_unit() {
    assert_eq!(span(0), "0ns");
    assert_eq!(span(1), "1ms");
    assert_eq!(span(10_000), "10s");
    assert_eq!(span(1_500), "1.5s");
    assert_eq!(span(2_050), "2.05s");
    assert_eq!(span(2_005), "2.005s");
}

#[test]
fn socket_stands_under_the_jail() {
    assert_eq!(get_qmp_socket_path(Some("/jail"), "qmp.sock"), "/jail/qmp.sock");
}

#[test]
fn descriptor_is_passed_under_its_name() {
    let mut commands = Vec::new();
    let mut qmp = session();
    drive(&mut qmp, vec![QmpReply::Done], &mut commands, |q| q.pass_fd(17, "fd-net-0")).unwrap();
    assert!(
        matches!(&commands[0], QmpCommand::PassFd { fd: 17, name } if name == "fd-net-0"),
    );
    let error = drive(&mut qmp, vec![rejected("no room")], &mut commands, |q| {
        q.pass_fd(18, "fd-net-1")
    })
    .unwrap_err();
    assert_eq!(error.text(), "failed to pass fd-net-1 (18): no room");
}

/// The descriptors that QEMU was started with are those that are expected, in whatever order.
#[test]
fn startup_fdsets_are_verified() {
    let mut qmp = session();
    qmp.block_fdsets.insert("drive-0".to_string(), vec![3, 1]);
    let mut expected = Table::new();
    expected.insert("drive-0".to_string(), vec![1, 3]);
    qmp.verify_block_fdsets(&expected).unwrap();
    expected.insert("drive-1".to_string(), vec![4]);
    let error = qmp.verify_block_fdsets(&expected).unwrap_err();
    assert_eq!(
        error.text(),
        "QEMU startup block fdsets do not match the descriptors passed by the shim"
    );
    qmp.block_fdsets.insert("drive-1".to_string(), vec![4, 4]);
    assert!(qmp.verify_block_fdsets(&expected).is_err());
}

/// A slot that a device took is not given out again.
#[test]
fn slots_are_given_out_once() {
    let mut qmp = session();
    qmp.init_pci_bridges(2);
    let mut given = Vec::new();
    for index in 0..40 {
        let (bus, slot) = qmp.find_free_slot().unwrap().unwrap();
        qmp.record_pci_bridge_slot(&bus, slot, &block_node_name(index));
        assert!(!given.contains(&(bus.clone(), slot)));
        given.push((bus, slot));
    }
    assert_eq!(given[0], ("pci-bridge-0".to_string(), 1));
    assert_eq!(given[30], ("pci-bridge-1".to_string(), 1));
}
