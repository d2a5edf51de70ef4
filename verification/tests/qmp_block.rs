use kata_block::block_device::{BlockCleanupState, VmdkConfig};
use kata_block::error::Error;
use kata_block::pci_path::PciPath;
use kata_block::qmp::block::{complete_pci_path_lookup, find_fd_by_opaque, QmpResidue};
use kata_block::qmp::ccw::CcwSubChannel;
use kata_block::qmp::fdset::{block_fd_opaque, collect_block_fdsets};
use kata_block::qmp::pci::select_block_pci_target;
use kata_block::qmp::session::Qmp;
use kata_block::qmp::wire::{
    AddfdInfo, AioOption, Argument, ArgumentValue, FailureKind, FdsetFd, FdsetInfo, ImageFormat,
    QmpCommand, QmpError, QmpReply, QomValue, SourceStep,
};

const VIRTIO_SCSI: &str = "virtio-scsi";
const VIRTIO_BLK_CCW: &str = "virtio-blk-ccw";

fn failed(kind: FailureKind, text: &str) -> QmpReply {
    QmpReply::Failed(QmpError { kind, text: text.to_string(), debug: format!("{:?}", text) })
}

fn rejected(text: &str) -> QmpReply {
    failed(FailureKind::Rejected, text)
}

fn absent(text: &str) -> QmpReply {
    failed(FailureKind::DeviceNotFound, text)
}

fn lost() -> QmpReply {
    failed(FailureKind::Io, "connection reset by peer")
}

fn fdset(fdset_id: i64, fds: &[(i64, &str)]) -> FdsetInfo {
    let mut list = Vec::new();
    for (fd, opaque) in fds {
        list.push(FdsetFd { fd: *fd, opaque: Some(opaque.to_string()) });
    }
    FdsetInfo { fdset_id, fds: list }
}

fn no_fdsets() -> QmpReply {
    QmpReply::Fdsets(Vec::new())
}

fn block_fdsets() -> QmpReply {
    QmpReply::Fdsets(vec![fdset(7, &[(9, "kata-block:drive-0:source")])])
}

fn names(list: &[&str]) -> QmpReply {
    QmpReply::Names(list.iter().map(|name| name.to_string()).collect())
}

/// What a command is called on the wire; nothing for what stays on this side.
fn wire_name(command: &QmpCommand) -> Option<&'static str> {
    match command {
        QmpCommand::Connect(_) => Some("qmp_capabilities"),
        QmpCommand::QueryFdsets => Some("query-fdsets"),
        QmpCommand::RemoveFd(_) => Some("remove-fd"),
        QmpCommand::AddFd(_) => Some("add-fd"),
        QmpCommand::BlockdevAdd(_) => Some("blockdev-add"),
        QmpCommand::BlockdevDel(_) => Some("blockdev-del"),
        QmpCommand::QueryNamedBlockNodes => Some("query-named-block-nodes"),
        QmpCommand::DeviceAdd { .. } => Some("device_add"),
        QmpCommand::DeviceDel(_) => Some("device_del"),
        QmpCommand::QomList(_) => Some("qom-list"),
        QmpCommand::QomGet { .. } => Some("qom-get"),
        QmpCommand::QueryPci => Some("query-pci"),
        QmpCommand::Poll => Some("query-version"),
        _ => None,
    }
}

/// Runs an operation to its end. Replies go to the commands in order; the clock advances by
/// `tick` nanoseconds at each reading. Every reply must be asked for.
fn drive_ticking<T>(
    qmp: &mut Qmp,
    tick: u64,
    replies: Vec<QmpReply>,
    commands: &mut Vec<QmpCommand>,
    operation: impl Fn(&mut Qmp) -> Result<Result<T, Error>, QmpCommand>,
) -> Result<T, Error> {
    let start = qmp.clone();
    let mut given = Vec::new();
    let mut left = replies.into_iter();
    let mut now = 0;
    loop {
        let mut session = start.clone();
        session.replies = given.clone();
        match operation(&mut session) {
            Ok(result) => {
                assert!(session.replies.is_empty());
                assert!(left.next().is_none(), "replies that nothing asked for");
                *qmp = session;
                return result;
            }
            Err(command) => {
                let reply = match &command {
                    QmpCommand::Clock => {
                        now += tick;
                        QmpReply::Elapsed(now)
                    }
                    QmpCommand::SetReadTimeout(_) | QmpCommand::Sleep(_) => QmpReply::Done,
                    _ => left.next().expect("a reply for every command"),
                };
                commands.push(command);
                given.push(reply);
            }
        }
    }
}

fn drive<T>(
    qmp: &mut Qmp,
    replies: Vec<QmpReply>,
    commands: &mut Vec<QmpCommand>,
    operation: impl Fn(&mut Qmp) -> Result<Result<T, Error>, QmpCommand>,
) -> Result<T, Error> {
    drive_ticking(qmp, 0, replies, commands, operation)
}

fn on_the_wire(commands: &[QmpCommand]) -> Vec<&'static str> {
    commands.iter().filter_map(wire_name).collect()
}

fn session() -> Qmp {
    Qmp::over(Some("/run/kata/qmp.sock".to_string()))
}

/// A session that is just open, and the commands that opened it.
fn opened(fdsets: QmpReply) -> (Qmp, Vec<QmpCommand>) {
    let mut qmp = session();
    let mut commands = Vec::new();
    let replies = vec![QmpReply::Done, fdsets];
    let fresh = drive(&mut qmp, replies, &mut commands, |session| {
        let opened = Qmp::new("/run/kata/qmp.sock", session.replies.clone())?;
        session.replies = Vec::new();
        Ok(opened)
    })
    .unwrap();
    (fresh, commands)
}

fn known_fdset() -> Qmp {
    let mut qmp = session();
    qmp.block_fdsets.insert("drive-0".to_string(), vec![7]);
    qmp
}

fn drive_argument() -> Vec<Argument> {
    vec![Argument { name: "drive".to_string(), value: ArgumentValue::Text("drive-0".to_string()) }]
}

#[test]
fn add_fd_lost_response_discovers_accepted_fd() {
    let opaque = block_fd_opaque("drive-0", "source");
    let accepted = QmpReply::Fdsets(vec![fdset(7, &[(9, opaque.as_str())])]);
    let (mut qmp, mut commands) = opened(no_fdsets());

    let replies = vec![lost(), QmpReply::Done, accepted.clone(), accepted];
    let info =
        drive(&mut qmp, replies, &mut commands, |qmp| qmp.pass_block_fd(opaque.as_str())).unwrap();

    assert_eq!(info.fdset_id, 7);
    assert_eq!(qmp.block_fdsets.get("drive-0"), Some(&vec![7]));
    let commands = on_the_wire(&commands);
    assert_eq!(commands[2], "add-fd");
    assert_eq!(commands[5], "query-fdsets");
}

#[test]
fn blockdev_add_lost_response_discovers_accepted_backend() {
    let (mut qmp, mut commands) = opened(no_fdsets());
    let replies = vec![QmpReply::Done, no_fdsets(), names(&["drive-0"])];
    let outcome = drive(&mut qmp, replies, &mut commands, |qmp| {
        qmp.reconcile_add_result(
            "drive-0",
            "blockdev-add",
            Err(QmpError {
                kind: FailureKind::Io,
                text: "connection reset by peer".to_string(),
                debug: "Io".to_string(),
            }),
            BlockCleanupState { frontend: false, backend: true, fdsets: false },
            QmpResidue::Backend,
        )
    })
    .unwrap();

    assert!(outcome.is_none());
    assert_eq!(on_the_wire(&commands)[4], "query-named-block-nodes");
}

#[test]
fn device_add_lost_response_discovers_accepted_frontend() {
    let (mut qmp, mut commands) = opened(no_fdsets());
    let replies = vec![lost(), QmpReply::Done, no_fdsets(), names(&["drive-0"])];
    drive(&mut qmp, replies, &mut commands, |qmp| {
        qmp.device_add_with_rollback(
            "drive-0",
            Some("rp0".to_string()),
            "virtio-blk-pci",
            Vec::new(),
        )
    })
    .unwrap();

    let commands = on_the_wire(&commands);
    assert_eq!(commands[2], "device_add");
    assert_eq!(commands[5], "qom-list");
}

#[test]
fn remove_fd_lost_response_discovers_absent_fdset() {
    let (mut qmp, mut commands) = opened(block_fdsets());
    assert_eq!(qmp.block_fdsets.get("drive-0"), Some(&vec![7]));

    let replies = vec![lost(), QmpReply::Done, no_fdsets(), no_fdsets()];
    drive(&mut qmp, replies, &mut commands, |qmp| qmp.remove_fdset_ids("drive-0", &vec![7]))
        .unwrap();

    assert!(!qmp.block_fdsets.contains_key("drive-0"));
    let commands = on_the_wire(&commands);
    assert_eq!(commands[2], "remove-fd");
    assert_eq!(commands[4], "query-fdsets");
}

fn assert_block_removal_reconciles_lost_response(block_driver: &str) {
    let (mut qmp, mut commands) = opened(no_fdsets());
    qmp.block_fdsets.insert("drive-0".to_string(), vec![7]);

    let replies = vec![
        lost(),
        QmpReply::Done,
        no_fdsets(),
        names(&[]),
        absent("backend already absent"),
        no_fdsets(),
    ];
    drive(&mut qmp, replies, &mut commands, |qmp| {
        qmp.hotunplug_block_device(block_driver, 0, None)
    })
    .unwrap();
    let replies = vec![absent("frontend already absent"), absent("backend already absent")];
    drive(&mut qmp, replies, &mut commands, |qmp| {
        qmp.hotunplug_block_device(block_driver, 0, None)
    })
    .unwrap();
    assert!(!qmp.block_fdsets.contains_key("drive-0"));

    assert_eq!(
        on_the_wire(&commands),
        [
            "qmp_capabilities",
            "query-fdsets",
            "device_del",
            "qmp_capabilities",
            "query-fdsets",
            "qom-list",
            "blockdev-del",
            "query-fdsets",
            "device_del",
            "blockdev-del",
        ]
    );
}

#[test]
fn scsi_removal_reconciles_lost_response_and_absent_residue() {
    assert_block_removal_reconciles_lost_response(VIRTIO_SCSI);
}

#[test]
fn ccw_removal_reconciles_lost_response_and_absent_residue() {
    assert_block_removal_reconciles_lost_response(VIRTIO_BLK_CCW);
}

#[test]
fn ccw_removal_preserves_subchannel_until_frontend_is_absent() {
    let mut qmp = session();
    let mut subchannel = CcwSubChannel::new();
    subchannel.add_device("drive-0").unwrap();
    qmp.set_ccw_subchannel(subchannel);
    let mut commands = Vec::new();

    let replies = vec![rejected("injected device delete failure"), names(&["drive-0"])];
    let error = drive(&mut qmp, replies, &mut commands, |qmp| {
        qmp.hotunplug_block_device(VIRTIO_BLK_CCW, 0, None)
    })
    .unwrap_err();
    let state = error.cleanup_pending().unwrap();
    assert!(qmp.ccw_subchannel.as_mut().unwrap().add_device("drive-0").is_err());

    let replies = vec![absent("frontend already absent"), absent("backend already absent")];
    drive(&mut qmp, replies, &mut commands, |qmp| {
        qmp.hotunplug_block_device(VIRTIO_BLK_CCW, 0, Some(state))
    })
    .unwrap();
    assert!(qmp.ccw_subchannel.as_mut().unwrap().add_device("drive-0").is_ok());

    assert_eq!(
        on_the_wire(&commands),
        ["device_del", "qom-list", "device_del", "blockdev-del"]
    );
}

#[test]
fn successful_remove_fd_preserves_residue_until_retry_confirms_absence() {
    let mut qmp = known_fdset();
    let mut commands = Vec::new();
    let state = BlockCleanupState { frontend: false, backend: false, fdsets: true };

    let replies = vec![block_fdsets(), QmpReply::Done, block_fdsets()];
    let error = drive(&mut qmp, replies, &mut commands, |qmp| {
        qmp.cleanup_pending_block_device("drive-0", state)
    })
    .unwrap_err();
    assert_eq!(error.cleanup_pending().unwrap(), state);
    assert_eq!(qmp.block_fdsets.get("drive-0"), Some(&vec![7]));

    let replies = vec![block_fdsets(), QmpReply::Done, no_fdsets()];
    drive(&mut qmp, replies, &mut commands, |qmp| {
        qmp.cleanup_pending_block_device("drive-0", state)
    })
    .unwrap();
    assert!(!qmp.block_fdsets.contains_key("drive-0"));

    assert_eq!(
        on_the_wire(&commands),
        [
            "query-fdsets",
            "remove-fd",
            "query-fdsets",
            "query-fdsets",
            "remove-fd",
            "query-fdsets",
        ]
    );
}

#[test]
fn device_deleted_timeout_discovers_absent_frontend() {
    let (mut qmp, mut commands) = opened(no_fdsets());
    // The clock passes the whole millisecond between the poll and the reading after it.
    let replies =
        vec![QmpReply::Done, QmpReply::Deleted(Vec::new()), QmpReply::Done, no_fdsets(), names(&[])];
    drive_ticking(&mut qmp, 600_000, replies, &mut commands, |qmp| {
        qmp.cleanup_pending_block_device_with_timeout(
            "drive-0",
            BlockCleanupState { frontend: true, backend: false, fdsets: false },
            1,
        )
    })
    .unwrap();

    let commands = on_the_wire(&commands);
    assert_eq!(commands[2], "device_del");
    assert_eq!(commands[3], "query-version");
    assert_eq!(commands[6], "qom-list");
}

#[test]
fn failed_device_deleted_poll_reconnects_before_queued_event() {
    let (mut qmp, mut commands) = opened(no_fdsets());
    let replies = vec![QmpReply::Done, lost(), QmpReply::Done, no_fdsets(), names(&[])];
    drive(&mut qmp, replies, &mut commands, |qmp| {
        qmp.cleanup_pending_block_device_with_timeout(
            "drive-0",
            BlockCleanupState { frontend: true, backend: false, fdsets: false },
            250,
        )
    })
    .unwrap();

    assert!(matches!(commands.last(), Some(QmpCommand::SetReadTimeout(250_000_000))));
    assert_eq!(
        on_the_wire(&commands),
        [
            "qmp_capabilities",
            "query-fdsets",
            "device_del",
            "query-version",
            "qmp_capabilities",
            "query-fdsets",
            "qom-list",
        ]
    );
}

#[test]
fn block_pci_target_prefers_preallocated_root_port() {
    let not_looked_up = Err(Error::msg("no bridge was looked up".to_string()));
    let target = select_block_pci_target(Some("rp3"), not_looked_up).unwrap();
    assert_eq!(target, ("rp3".to_string(), 0, false));

    // No command is sent, so no bridge is looked up.
    let mut qmp = session();
    let target = qmp.select_pci_target(Some("rp3")).unwrap().unwrap();
    assert_eq!(target, ("rp3".to_string(), 0, false));
    assert!(matches!(qmp.select_pci_target(None), Err(QmpCommand::QueryPci)));

    let bridge = Ok(("pci-bridge-0".to_string(), 1));
    assert_eq!(
        select_block_pci_target(None, bridge).unwrap(),
        ("pci-bridge-0".to_string(), 1, true)
    );
    let unreached = Err(Error::msg("no bridge was looked up".to_string()));
    assert!(select_block_pci_target(Some("pci-bridge-0"), unreached).is_err());
}

#[test]
fn root_port_path_uses_structured_qom_properties() {
    let mut qmp = session();
    let mut commands = Vec::new();
    let replies = vec![
        QmpReply::Value(QomValue::Text("/machine/peripheral/rp3/rp3".to_string())),
        QmpReply::Value(QomValue::Integer(0)),
        QmpReply::Value(QomValue::Integer(32)),
    ];
    let path = drive(&mut qmp, replies, &mut commands, |qmp| {
        qmp.get_root_port_device_path("drive-0", "rp3")
    })
    .unwrap();

    assert_eq!(path.to_text(), "04/00");
    assert_eq!(on_the_wire(&commands), ["qom-get", "qom-get", "qom-get"]);
}

#[test]
fn root_port_path_refuses_another_bus_and_a_negative_address() {
    let mut commands = Vec::new();
    let replies =
        vec![QmpReply::Value(QomValue::Text("/machine/peripheral/rp4/rp4".to_string()))];
    let error = drive(&mut session(), replies, &mut commands, |qmp| {
        qmp.get_root_port_device_path("drive-0", "rp3")
    })
    .unwrap_err();
    assert_eq!(
        error.text(),
        "QEMU attached drive-0 to /machine/peripheral/rp4/rp4, expected \
         /machine/peripheral/rp3/rp3"
    );

    let replies = vec![
        QmpReply::Value(QomValue::Text("/machine/peripheral/rp3/rp3".to_string())),
        QmpReply::Value(QomValue::Integer(-8)),
        QmpReply::Value(QomValue::Integer(32)),
    ];
    let error = drive(&mut session(), replies, &mut commands, |qmp| {
        qmp.get_root_port_device_path("drive-0", "rp3")
    })
    .unwrap_err();
    assert_eq!(error.text(), "QEMU returned a negative PCI address for drive-0 or rp3");

    let replies = vec![QmpReply::Value(QomValue::Integer(3))];
    let error = drive(&mut session(), replies, &mut commands, |qmp| {
        qmp.get_root_port_device_path("drive-0", "rp3")
    })
    .unwrap_err();
    assert_eq!(error.text(), "QEMU returned a non-string parent bus for drive-0");
}

#[test]
fn path_lookup_failure_returns_after_successful_rollback() {
    let error = complete_pci_path_lookup(
        "drive-0",
        Err(Error::msg("lookup failed".to_string())),
        BlockCleanupState::attached(false),
        Ok(()),
    )
    .unwrap_err();

    assert_eq!(error.text(), "lookup failed");
    assert!(error.cleanup_pending().is_none());
}

#[test]
fn path_lookup_failure_preserves_state_after_rollback_failure() {
    let error = complete_pci_path_lookup(
        "drive-0",
        Err(Error::msg("lookup failed".to_string())),
        BlockCleanupState::attached(false),
        Err(Error::msg("device_del failed".to_string())),
    )
    .unwrap_err();

    let pending = error.cleanup_pending().expect("cleanup failure must preserve ownership");
    assert_eq!(pending, BlockCleanupState::attached(false));
    assert!(error.text().contains("lookup failed"));
    assert!(error.text().contains("device_del failed"));
}

#[test]
fn device_add_failure_removes_block_backend() {
    let mut qmp = known_fdset();
    let mut commands = Vec::new();
    let replies = vec![
        rejected("injected device failure"),
        QmpReply::Done,
        block_fdsets(),
        QmpReply::Done,
        no_fdsets(),
    ];
    let error = drive(&mut qmp, replies, &mut commands, |qmp| {
        qmp.device_add_with_rollback(
            "drive-0",
            Some("rp0".to_string()),
            "virtio-blk-pci",
            drive_argument(),
        )
    })
    .unwrap_err();
    assert!(error.text().contains("device_add"));

    match &commands[0] {
        QmpCommand::DeviceAdd { driver, bus, id, arguments } => {
            assert_eq!(driver, "virtio-blk-pci");
            assert_eq!(bus.as_deref(), Some("rp0"));
            assert_eq!(id, "drive-0");
            assert_eq!(*arguments, drive_argument());
        }
        other => panic!("unexpected command {:?}", other),
    }
    assert!(matches!(&commands[1], QmpCommand::BlockdevDel(node) if node == "drive-0"));
    assert!(matches!(&commands[2], QmpCommand::QueryFdsets));
    assert!(matches!(&commands[3], QmpCommand::RemoveFd(7)));
    assert!(!qmp.block_fdsets.contains_key("drive-0"));
}

#[test]
fn device_add_rollback_failure_preserves_fdset_state() {
    let mut qmp = known_fdset();
    let mut commands = Vec::new();
    let replies = vec![
        rejected("injected device failure"),
        rejected("injected backend failure"),
        names(&["drive-0"]),
    ];
    let error = drive(&mut qmp, replies, &mut commands, |qmp| {
        qmp.device_add_with_rollback(
            "drive-0",
            Some("rp0".to_string()),
            "virtio-blk-pci",
            drive_argument(),
        )
    })
    .unwrap_err();

    let cleanup_state = error.cleanup_pending().unwrap();
    assert_eq!(cleanup_state, BlockCleanupState { frontend: false, backend: true, fdsets: true });
    assert_eq!(qmp.block_fdsets.get("drive-0"), Some(&vec![7]));

    let replies = vec![QmpReply::Done, block_fdsets(), QmpReply::Done, no_fdsets()];
    drive(&mut qmp, replies, &mut commands, |qmp| {
        qmp.cleanup_pending_block_device("drive-0", cleanup_state)
    })
    .unwrap();
    assert!(!qmp.block_fdsets.contains_key("drive-0"));

    assert_eq!(
        on_the_wire(&commands),
        [
            "device_add",
            "blockdev-del",
            "query-named-block-nodes",
            "blockdev-del",
            "query-fdsets",
            "remove-fd",
            "query-fdsets",
        ]
    );
}

#[test]
fn pending_frontend_cleanup_retries_all_residue_stages() {
    let mut qmp = known_fdset();
    let mut commands = Vec::new();
    let attached = BlockCleanupState::attached(true);

    let replies =
        vec![rejected("injected device delete failure"), rejected("injected query failure")];
    let error = drive(&mut qmp, replies, &mut commands, |qmp| {
        qmp.cleanup_pending_block_device("drive-0", attached)
    })
    .unwrap_err();
    assert_eq!(error.cleanup_pending().unwrap(), attached);

    let replies = vec![
        absent("frontend already absent"),
        QmpReply::Done,
        block_fdsets(),
        QmpReply::Done,
        no_fdsets(),
    ];
    drive(&mut qmp, replies, &mut commands, |qmp| {
        qmp.cleanup_pending_block_device("drive-0", attached)
    })
    .unwrap();
    assert!(!qmp.block_fdsets.contains_key("drive-0"));

    assert_eq!(
        on_the_wire(&commands),
        [
            "device_del",
            "qom-list",
            "device_del",
            "blockdev-del",
            "query-fdsets",
            "remove-fd",
            "query-fdsets",
        ]
    );
}

#[test]
fn pending_fdset_only_cleanup_is_idempotent() {
    let mut qmp = known_fdset();
    let mut commands = Vec::new();
    let fdset_only = BlockCleanupState { frontend: false, backend: false, fdsets: true };

    let replies = vec![block_fdsets(), rejected("injected fdset failure"), block_fdsets()];
    let error = drive(&mut qmp, replies, &mut commands, |qmp| {
        qmp.cleanup_pending_block_device("drive-0", fdset_only)
    })
    .unwrap_err();
    assert_eq!(error.cleanup_pending().unwrap(), fdset_only);

    let replies = vec![block_fdsets(), QmpReply::Done, no_fdsets()];
    drive(&mut qmp, replies, &mut commands, |qmp| {
        qmp.cleanup_pending_block_device("drive-0", fdset_only)
    })
    .unwrap();
    drive(&mut qmp, Vec::new(), &mut commands, |qmp| {
        qmp.cleanup_pending_block_device("drive-0", BlockCleanupState::default())
    })
    .unwrap();

    assert!(!qmp.block_fdsets.contains_key("drive-0"));
    assert_eq!(commands.len(), 6);
    assert_eq!(
        on_the_wire(&commands),
        [
            "query-fdsets",
            "remove-fd",
            "query-fdsets",
            "query-fdsets",
            "remove-fd",
            "query-fdsets",
        ]
    );
}

#[test]
fn pending_backend_cleanup_verifies_already_absent_node() {
    let mut qmp = session();
    let mut commands = Vec::new();
    let backend_only = BlockCleanupState { frontend: false, backend: true, fdsets: false };

    drive(&mut qmp, vec![absent("backend already absent")], &mut commands, |qmp| {
        qmp.cleanup_pending_block_device("drive-0", backend_only)
    })
    .unwrap();

    assert_eq!(on_the_wire(&commands), ["blockdev-del"]);
    assert_eq!(commands.len(), 1);
}

#[test]
fn reconstructs_kata_block_fdsets_from_qmp() {
    let extent_0 = block_fd_opaque("drive-2", "vmdk-extent-0");
    let extent_1 = block_fd_opaque("drive-2", "vmdk-extent-1");
    let descriptor = block_fd_opaque("drive-2", "vmdk-descriptor");
    let fdsets = vec![
        fdset(7, &[(21, extent_0.as_str()), (22, extent_1.as_str())]),
        fdset(8, &[(23, descriptor.as_str())]),
        fdset(9, &[(24, "unrelated")]),
    ];

    let collected = collect_block_fdsets(&fdsets);
    assert_eq!(collected.keys(), vec!["drive-2".to_string()]);
    assert_eq!(collected.get("drive-2"), Some(&vec![7, 8]));
    assert_eq!(find_fd_by_opaque(&fdsets, &extent_1), Some(AddfdInfo { fd: 22, fdset_id: 7 }));
    assert_eq!(find_fd_by_opaque(&fdsets, "kata-block:drive-3:source"), None);
}

/// Plugging a file in behind a root port and taking it out again, with every command.
#[test]
fn block_device_behind_a_root_port_comes_and_goes() {
    let mut qmp = session();
    let mut commands = Vec::new();
    let tag = block_fd_opaque("drive-0", "block-source");
    let replies = vec![
        QmpReply::Source(SourceStep::PassFd("block-source".to_string())),
        QmpReply::FdAdded(AddfdInfo { fd: 9, fdset_id: 7 }),
        QmpReply::Source(SourceStep::Prepared {
            filename: "/dev/fdset/7".to_string(),
            is_regular_file: true,
        }),
        QmpReply::Done,
        QmpReply::Done,
        QmpReply::Value(QomValue::Text("/machine/peripheral/rp3/rp3".to_string())),
        QmpReply::Value(QomValue::Integer(0)),
        QmpReply::Value(QomValue::Integer(32)),
    ];
    let (path, address) = drive(&mut qmp, replies, &mut commands, |qmp| {
        qmp.hotplug_block_device(
            "virtio-blk-pci",
            0,
            "/tmp/disk.img",
            "threads",
            Some(false),
            false,
            false,
            true,
            0,
            0,
            None,
            None,
            Some("rp3"),
        )
    })
    .unwrap();

    assert_eq!(path.unwrap().to_text(), "04/00");
    assert!(address.is_none());
    assert_eq!(qmp.block_fdsets.get("drive-0"), Some(&vec![7]));
    assert!(matches!(&commands[1], QmpCommand::AddFd(opaque) if *opaque == tag));
    match &commands[3] {
        QmpCommand::BlockdevAdd(options) => {
            assert_eq!(options.node_name, "drive-0");
            assert_eq!(options.format, ImageFormat::Raw);
            assert_eq!(options.aio, AioOption::Threads);
            assert_eq!(options.filename, "/dev/fdset/7");
            assert!(options.discard_unmap);
            assert!(!options.read_only);
            assert!(options.is_regular_file);
        }
        other => panic!("unexpected command {:?}", other),
    }
    match &commands[4] {
        QmpCommand::DeviceAdd { driver, bus, id, .. } => {
            assert_eq!(driver, "virtio-blk-pci");
            assert_eq!(bus.as_deref(), Some("rp3"));
            assert_eq!(id, "drive-0");
        }
        other => panic!("unexpected command {:?}", other),
    }

    let replies = vec![
        QmpReply::Done,
        QmpReply::Deleted(vec!["drive-0".to_string()]),
        QmpReply::Done,
        block_fdsets(),
        QmpReply::Done,
        no_fdsets(),
    ];
    let mut commands = Vec::new();
    drive(&mut qmp, replies, &mut commands, |qmp| {
        qmp.hotunplug_block_device("virtio-blk-pci", 0, None)
    })
    .unwrap();
    assert!(!qmp.block_fdsets.contains_key("drive-0"));
    assert_eq!(
        on_the_wire(&commands),
        [
            "device_del",
            "query-version",
            "blockdev-del",
            "query-fdsets",
            "remove-fd",
            "query-fdsets",
        ]
    );
}

fn plug(qmp: &mut Qmp, driver: &str, vmdk: Option<&VmdkConfig>) -> Plugged {
    qmp.hotplug_block_device(
        driver, 5, "/tmp/disk.img", "native", None, true, false, false, 0, 0, vmdk, None, None,
    )
}

type Plugged = Result<Result<(Option<PciPath>, Option<String>), Error>, QmpCommand>;

fn prepared() -> QmpReply {
    QmpReply::Source(SourceStep::Prepared {
        filename: "/dev/fdset/7".to_string(),
        is_regular_file: true,
    })
}

/// A device that could not be plugged in holds no address.
#[test]
fn failed_plug_keeps_the_addresses() {
    let mut qmp = session();
    let mut subchannel = CcwSubChannel::new();
    subchannel.add_device("drive-0").unwrap();
    qmp.set_ccw_subchannel(subchannel);
    let mut commands = Vec::new();
    let replies = vec![prepared(), QmpReply::Done, rejected("no such device"), QmpReply::Done];
    let error = drive(&mut qmp, replies, &mut commands, |qmp| plug(qmp, VIRTIO_BLK_CCW, None))
        .unwrap_err();
    assert_eq!(error.text(), "QEMU rejected device_add for drive-5: no such device");
    let wire = on_the_wire(&commands);
    assert_eq!(wire, ["blockdev-add", "device_add", "blockdev-del"]);
    let subchannel = qmp.ccw_subchannel.as_mut().unwrap();
    assert!(subchannel.add_device("drive-0").is_err());
    assert!(subchannel.add_device("drive-5").is_ok());
}

/// The layout of a source is handed over with its path.
#[test]
fn source_gets_its_layout() {
    let mut layout = VmdkConfig { extents: Vec::new() };
    layout.push_extent("/tmp/extent.img", 16, 0);
    let mut qmp = session();
    match plug(&mut qmp, "virtio-blk-pci", Some(&layout)).unwrap_err() {
        QmpCommand::OpenSource { path, layout: handed, read_only, direct } => {
            assert_eq!(path, "/tmp/disk.img");
            assert_eq!(handed, Some(layout));
            assert!(read_only);
            assert!(!direct);
        }
        other => panic!("unexpected command {:?}", other),
    }
}
