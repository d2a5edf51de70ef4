use kata_block::block_device::{BlockConfigModern, BlockDeviceModern};
use kata_block::ch::api::{
    api_command_not_dispatched, is_api_command_not_dispatched, ApiRequest, PciDeviceInfo,
};
use kata_block::ch::config::RateLimits;
use kata_block::ch::device::{
    AddReplies, AddResponse, ChCommand, CloudHypervisorInner, Device, DeviceType, Settings,
    VmmState,
};
use kata_block::ch::http::{command, Peeked, Progress, Received, Sent, Step, StreamEnd};
use kata_block::ch::lifecycle::{
    conclude_add, conclude_start, conclude_stop, next_stop_step, refuse_start, Admission,
    BlockAddIdentity, BlockAddOutcome, BlockAddState, CleanupRun, ExitWaiter, StartAdmission,
    StartRun, StopRun, StopStep, VmOperationOutcome,
};
use kata_block::error::Error;
use kata_block::table::Table;

fn msg(text: &str) -> Error {
    Error::msg(text.to_string())
}

fn block(device_id: &str, path: &str) -> BlockDeviceModern {
    BlockDeviceModern {
        device_id: device_id.to_string(),
        attach_count: 0,
        config: BlockConfigModern {
            path_on_host: path.to_string(),
            driver_option: "virtio-blk-pci".to_string(),
            ..Default::default()
        },
    }
}

fn identity(device_id: &str) -> BlockAddIdentity {
    let path = format!("/var/lib/kata/{}/disk.img", device_id);
    BlockAddIdentity::from_device(1, &block(device_id, &path))
}

fn device(device_id: &str) -> Device {
    let path = format!("/var/lib/kata/{}/disk.img", device_id);
    Device {
        kind: DeviceType::BlockModern(block(device_id, &path)),
        described: device_id.to_string(),
    }
}

fn begun(admission: Admission) -> u64 {
    match admission {
        Admission::Begin(ticket) => ticket,
        Admission::Join(ticket) => panic!("joined {}", ticket),
    }
}

fn joined(admission: Admission) -> u64 {
    match admission {
        Admission::Join(ticket) => ticket,
        Admission::Begin(ticket) => panic!("began {}", ticket),
    }
}

fn admitted(state: &mut BlockAddState, device_id: &str) -> u64 {
    begun(state.add_block_device(identity(device_id)).unwrap())
}

fn inner() -> CloudHypervisorInner {
    CloudHypervisorInner {
        state: VmmState::VmRunning,
        pending_devices: Vec::new(),
        device_ids: Table::new(),
        settings: Settings {
            vm_path: "/run/vm".to_string(),
            netns: None,
            rootless_link_root: None,
            network_queues: 1,
            block_device_cache_direct: false,
            rate_limits: RateLimits {
                bw_max_rate: 0,
                ops_max_rate: 0,
                bw_one_time_burst: 0,
                ops_one_time_burst: 0,
            },
            boot_image: String::new(),
            boot_initrd: String::new(),
            fs_pci_segment: 0,
        },
    }
}

fn answered(response: AddResponse) -> AddReplies {
    AddReplies { path: None, fds: None, response: Some(response), removed: None }
}

#[test]
fn canceled_stop_during_add_drain_still_shuts_down() {
    let mut state = BlockAddState::default();
    let add = admitted(&mut state, "canceled-drain");
    let stop = state.stop_vm_shared();
    // The stop waits for the add; that its caller is gone changes nothing.
    assert_eq!(stop.block_adds, vec![add]);
    let ticket = begun(stop.admission);
    state.complete_block_add("canceled-drain", add);
    let run = StopRun::Ran { result: Ok(()), resources_remain: false, running: false };
    let (outcome, can_hot_add) = conclude_stop(None, run);
    state.finish_stop(ticket, &outcome, can_hot_add);
    assert!(matches!(outcome, VmOperationOutcome::Success));
    assert!(!state.admission_open);
    assert!(state.operations.keys().is_empty());
}

#[test]
fn definite_stop_failure_reopens_block_add_admission() {
    let mut state = BlockAddState::default();
    let ticket = begun(state.stop_vm_shared().admission);
    let error = api_command_not_dispatched("PUT", "vmm.shutdown", msg("no socket"));
    let (outcome, can_hot_add) = conclude_stop(
        None,
        StopRun::Ran { result: Err(error), resources_remain: true, running: true },
    );
    state.finish_stop(ticket, &outcome, can_hot_add);
    let stop_error = outcome.into_result().unwrap_err();
    assert!(is_api_command_not_dispatched(&stop_error));

    admitted(&mut state, "after-stop-failure");
    assert!(matches!(state.start_vm_shared(), Ok(StartAdmission::Begin(_))));
    let (outcome, unresolved) = conclude_start(StartRun::AlreadyRunning);
    assert!(!unresolved);
    assert!(outcome.into_result().unwrap_err().text().contains("already running"));
}

#[test]
fn ambiguous_stop_failure_keeps_block_add_admission_closed() {
    let mut state = BlockAddState::default();
    let ticket = begun(state.stop_vm_shared().admission);
    let (outcome, can_hot_add) = conclude_stop(
        None,
        StopRun::Ran {
            result: Err(msg("connection reset")),
            resources_remain: true,
            running: false,
        },
    );
    state.finish_stop(ticket, &outcome, can_hot_add);
    assert!(!is_api_command_not_dispatched(&outcome.into_result().unwrap_err()));

    let add_error = state.add_block_device(identity("after-ambiguous-stop")).unwrap_err();
    assert!(add_error.text().contains("VM stop has begun"));
    let start_error = state.start_vm_shared().unwrap_err();
    assert!(start_error.text().contains("previous VM shutdown is unresolved"));
}

#[test]
fn successful_stop_terminally_rejects_restart_without_spawning() {
    let mut state = BlockAddState::default();
    let ticket = begun(state.stop_vm_shared().admission);
    state.finish_stop(ticket, &VmOperationOutcome::Success, false);

    match state.start_vm_shared().unwrap() {
        StartAdmission::AwaitStop(stopped) => assert_eq!(stopped, ticket),
        other => panic!("unexpected admission {:?}", other),
    }
    let error = refuse_start(&VmOperationOutcome::Success);
    assert!(error.text().contains("sandbox lifecycle cannot restart"));
    assert!(state.cleanup_unresolved.is_none());
    assert_eq!(state.stop, Some(ticket));
    assert!(state.start.is_none());
}

#[test]
fn concurrent_stop_callers_share_failure() {
    let mut state = BlockAddState::default();
    let first = begun(state.stop_vm_shared().admission);
    let second = joined(state.stop_vm_shared().admission);
    assert_eq!(first, second);
    let outcome = VmOperationOutcome::Failure(msg("shutdown refused"));
    state.finish_stop(first, &outcome, true);
    assert!(outcome.into_result().is_err());
    // The failure is over: the next caller tries anew.
    assert_ne!(begun(state.stop_vm_shared().admission), first);
}

#[test]
fn canceled_start_worker_finishes_and_releases_its_epoch() {
    let mut state = BlockAddState::default();
    let ticket = match state.start_vm_shared().unwrap() {
        StartAdmission::Begin(ticket) => ticket,
        other => panic!("unexpected admission {:?}", other),
    };
    assert_eq!(state.start, Some(ticket));
    let (outcome, unresolved) = conclude_start(StartRun::AlreadyRunning);
    state.finish_start(ticket, &outcome, unresolved);
    assert!(outcome.into_result().unwrap_err().text().contains("already running"));
    assert!(state.start.is_none());
    assert!(matches!(state.start_vm_shared(), Ok(StartAdmission::Begin(_))));
}

#[test]
fn post_spawn_start_panic_reaps_process_and_allows_initial_retry() {
    let mut state = BlockAddState::default();
    state.start_vm_shared().unwrap();
    let (outcome, unresolved) = conclude_start(StartRun::Panicked(CleanupRun::Ran(Ok(()))));
    state.finish_start(0, &outcome, unresolved);
    assert!(outcome
        .into_result()
        .unwrap_err()
        .text()
        .contains("spawned process resources were cleaned"));
    assert!(state.cleanup_unresolved.is_none());
    assert!(matches!(state.start_vm_shared(), Ok(StartAdmission::Begin(_))));
}

#[test]
fn unresolved_cleanup_retries_share_only_each_active_attempt() {
    let mut state = BlockAddState::default();
    state.start_vm_shared().unwrap();
    let cleanup = CleanupRun::Ran(Err(msg("cleanup is uncertain")));
    let (outcome, unresolved) = conclude_start(StartRun::Panicked(cleanup));
    state.finish_start(0, &outcome, unresolved);
    assert!(outcome.into_result().unwrap_err().text().contains("cleanup remains unresolved"));
    assert!(state.cleanup_unresolved.is_some());
    assert!(state
        .start_vm_shared()
        .unwrap_err()
        .text()
        .contains("process cleanup remains unresolved"));

    let first = begun(state.stop_vm_shared().admission);
    assert_eq!(joined(state.stop_vm_shared().admission), first);
    let run = StopRun::Ran {
        result: Err(msg("cleanup is uncertain")),
        resources_remain: true,
        running: false,
    };
    let (outcome, can_hot_add) = conclude_stop(state.cleanup_unresolved.clone(), run);
    assert!(!can_hot_add);
    state.finish_stop(first, &outcome, can_hot_add);
    assert!(state.stop.is_none());
    assert!(state.cleanup_unresolved.is_some());

    let second = begun(state.stop_vm_shared().admission);
    assert_ne!(first, second);
    assert_eq!(joined(state.stop_vm_shared().admission), second);
    let run = StopRun::Ran { result: Ok(()), resources_remain: false, running: false };
    let (outcome, can_hot_add) = conclude_stop(state.cleanup_unresolved.clone(), run);
    state.finish_stop(second, &outcome, can_hot_add);
    assert!(outcome.into_result().is_ok());
    assert_eq!(joined(state.stop_vm_shared().admission), second);
}

#[test]
fn concurrent_stop_callers_share_injected_kill_failure_and_retry() {
    let mut state = BlockAddState::default();
    let first = begun(state.stop_vm_shared().admission);
    assert_eq!(joined(state.stop_vm_shared().admission), first);
    let run = StopRun::Ran {
        result: Err(msg("injected start_kill failure").context("stop VM".to_string())),
        resources_remain: true,
        running: false,
    };
    let (outcome, can_hot_add) = conclude_stop(None, run);
    state.finish_stop(first, &outcome, can_hot_add);
    let told = outcome.clone().into_result().unwrap_err();
    let shared = outcome.into_result().unwrap_err();
    assert!(told.chain_text().contains("injected start_kill failure"));
    assert!(shared.chain_text().contains("injected start_kill failure"));
    assert!(state.stop.is_none());

    let retry = begun(state.stop_vm_shared().admission);
    assert_ne!(first, retry);
    state.finish_stop(retry, &VmOperationOutcome::Success, false);
    // An outcome that comes late belongs to no stop that is going on.
    state.finish_stop(first, &VmOperationOutcome::Failure(msg("late")), true);
    assert_eq!(state.stop, Some(retry));
    assert!(!state.admission_open);
}

/// Sends a request, gets an answer without a body, and gives the first line that was sent.
fn exchanged(request: ApiRequest) -> String {
    let received = |bytes: &[u8]| Received {
        bytes: bytes.to_vec(),
        end: StreamEnd::Open,
        peeked: Peeked::Silent,
    };
    let step = |sent: Sent, bytes: &[u8]| {
        let body = request.body.as_deref();
        command(request.method, request.endpoint, body, false, &sent, &received(bytes))
    };
    let written = match step(Sent::Nothing, b"") {
        Step::Write(bytes) => String::from_utf8(bytes).unwrap(),
        other => panic!("unexpected step {:?}", other),
    };
    match step(Sent::Whole, b"HTTP/1.1 204\r\n\r\n") {
        Step::Receive(Progress::Done(response)) => {
            assert!(matches!(response.result, Ok(None)));
        }
        other => panic!("unexpected step {:?}", other),
    }
    written.lines().next().unwrap().to_string()
}

#[test]
fn pause_and_resume_do_not_change_block_add_admission() {
    let mut state = BlockAddState::default();
    state.admission_open = false;

    let pause = exchanged(state.pause_vm());
    assert!(!state.admission_open);
    let resume = exchanged(state.resume_vm());
    assert!(!state.admission_open);
    assert_eq!(pause, "PUT /api/v1/vm.pause HTTP/1.1");
    assert_eq!(resume, "PUT /api/v1/vm.resume HTTP/1.1");
    assert!(state.add_block_device(identity("paused")).is_err());
}

#[test]
fn stop_winning_before_admission_rejects_new_block_add() {
    let mut state = BlockAddState::default();
    state.stop_vm_shared();
    let error = state.add_block_device(identity("late-device")).unwrap_err();
    assert!(error.text().contains("VM stop has begun"));
    assert!(error.device_state_in_doubt().is_none());
}

#[test]
fn admitted_add_outcomes_complete_before_stop() {
    let outcomes = vec![
        Some(Ok(device("admitted-add"))),
        Some(Err(msg("backing file is busy"))),
        Some(Err(Error::in_doubt("admitted-add".to_string(), "device remains busy".to_string()))),
        None,
    ];
    for ran in outcomes {
        let mut state = BlockAddState::default();
        let add = admitted(&mut state, "admitted-add");
        let stop = state.stop_vm_shared();
        assert_eq!(stop.block_adds, vec![add]);
        // Everybody else who asks for a stop meanwhile waits for this one.
        assert_eq!(joined(state.stop_vm_shared().admission), begun(stop.admission));
        assert_eq!(next_stop_step(&stop, false, None, 0), StopStep::ReadUnresolved);
        assert_eq!(next_stop_step(&stop, false, Some(false), 0), StopStep::AwaitAdd(add));
        let outcome = conclude_add("admitted-add", ran);
        state.complete_block_add("admitted-add", add);
        let in_doubt = outcome.is_in_doubt();
        state.release_block_add("admitted-add", add, &outcome);
        assert_eq!(state.operations.contains_key("admitted-add"), in_doubt);
        assert_eq!(next_stop_step(&stop, false, Some(false), 1), StopStep::Shutdown);
        state.finish_stop(begun(stop.admission), &VmOperationOutcome::Success, false);
        assert!(!state.operations.contains_key("admitted-add"));
    }
}

/// A stop waits for the start, then for each block device, and only then puts an end to the
/// virtual machine.
#[test]
fn stop_goes_in_order() {
    let mut state = BlockAddState::default();
    let start = match state.start_vm_shared().unwrap() {
        StartAdmission::Begin(ticket) => ticket,
        other => panic!("unexpected admission {:?}", other),
    };
    let adds = [admitted(&mut state, "first"), admitted(&mut state, "second")];
    let stop = state.stop_vm_shared();
    for unresolved in [false, true] {
        let (mut start_done, mut read, mut adds_done) = (false, None, 0);
        let mut awaited = Vec::new();
        let end = loop {
            match next_stop_step(&stop, start_done, read, adds_done) {
                StopStep::AwaitStart(ticket) => {
                    assert_eq!(ticket, start);
                    assert!(read.is_none() && awaited.is_empty());
                    start_done = true;
                }
                StopStep::ReadUnresolved => read = Some(unresolved),
                StopStep::AwaitAdd(ticket) => {
                    awaited.push(ticket);
                    adds_done += 1;
                }
                step => break step,
            }
        };
        awaited.sort();
        assert!(start_done);
        assert_eq!(awaited, adds);
        assert_eq!(end, if unresolved { StopStep::Terminate } else { StopStep::Shutdown });
    }
}

#[test]
fn admitted_worker_queued_behind_inner_lock_precedes_stop_transition() {
    let mut state = BlockAddState::default();
    let add = admitted(&mut state, "queued-worker");
    let stop = state.stop_vm_shared();
    assert_eq!(stop.block_adds, vec![add]);
    assert!(stop.active_start.is_none());
}

#[test]
fn never_dispatched_block_add_releases_manager_ownership_and_index() {
    let mut state = BlockAddState::default();
    let mut inner = inner();
    let first = admitted(&mut state, "never-dispatched");
    let failure = api_command_not_dispatched("PUT", "vm.add-disk", msg("no socket"));
    let block = block("never-dispatched", "/var/lib/kata/never-dispatched/disk.img");
    let error = inner
        .handle_block_device(&block, answered(AddResponse::Failed(failure)))
        .unwrap()
        .unwrap_err();
    assert!(is_api_command_not_dispatched(&error));
    assert!(error.device_state_in_doubt().is_none());
    let outcome = conclude_add("never-dispatched", Some(Err(error)));
    state.complete_block_add("never-dispatched", first);
    state.release_block_add("never-dispatched", first, &outcome);
    // The device may be added again, with nothing left of the first attempt.
    assert!(inner.device_ids.keys().is_empty());
    assert_ne!(admitted(&mut state, "never-dispatched"), first);
}

#[test]
fn canceled_queued_block_add_retry_waits_for_original_completion() {
    let mut state = BlockAddState::default();
    let original = admitted(&mut state, "canceled-queued");
    assert_eq!(joined(state.add_block_device(identity("canceled-queued")).unwrap()), original);
    let outcome = conclude_add("canceled-queued", Some(Ok(device("canceled-queued"))));
    state.complete_block_add("canceled-queued", original);
    state.release_block_add("canceled-queued", original, &outcome);
    assert!(outcome.into_result().is_ok());
    assert!(!state.operations.contains_key("canceled-queued"));
}

#[test]
fn canceled_dispatched_block_add_retry_waits_for_original_completion() {
    let mut state = BlockAddState::default();
    let original = admitted(&mut state, "canceled-dispatched");
    let error = Error::in_doubt("canceled-dispatched".to_string(), "lost".to_string());
    let outcome = conclude_add("canceled-dispatched", Some(Err(error)));
    state.complete_block_add("canceled-dispatched", original);
    state.release_block_add("canceled-dispatched", original, &outcome);
    assert!(outcome.into_result().unwrap_err().device_state_in_doubt().is_some());
    // The work is kept until the device is surely gone.
    let retry = state.add_block_device(identity("canceled-dispatched")).unwrap();
    assert_eq!(joined(retry), original);
    state.forget_block_add("canceled-dispatched");
    assert_ne!(admitted(&mut state, "canceled-dispatched"), original);
}

#[test]
fn retry_joins_admitted_add_while_stop_admission_is_closed() {
    let mut state = BlockAddState::default();
    let original = admitted(&mut state, "retry-during-stop");
    let stop = begun(state.stop_vm_shared().admission);
    let other = block("retry-during-stop", "/var/lib/kata/retry-during-stop/different.img");
    let mismatch = state.add_block_device(BlockAddIdentity::from_device(1, &other)).unwrap_err();
    assert!(mismatch.device_state_in_doubt().is_some());
    assert_eq!(state.operations.get("retry-during-stop").unwrap().ticket, original);
    assert_eq!(joined(state.add_block_device(identity("retry-during-stop")).unwrap()), original);

    let mut inner = inner();
    let added = block("retry-during-stop", "/var/lib/kata/retry-during-stop/disk.img");
    let info = PciDeviceInfo { id: added.device_id.clone(), bdf: "0000:00:08.0".to_string() };
    let response = AddResponse::Identity { detail: String::new(), info: Ok(info) };
    let path = inner.handle_block_device(&added, answered(response)).unwrap().unwrap();
    assert_eq!(path.unwrap().to_text(), "08");
    state.complete_block_add("retry-during-stop", original);
    state.finish_stop(stop, &VmOperationOutcome::Failure(msg("shutdown refused")), true);
    assert!(state.admission_open);
}

#[test]
fn block_lifecycle_integrates_driver_through_eighth_volume() {
    for count in [1_usize, 4, 8] {
        let mut inner = inner();
        let mut devices = Vec::new();
        for ordinal in 0..count {
            let mut block = block(
                &format!("emptydir-{}", ordinal),
                &format!("/var/lib/kata/emptydir-{}/disk.img", ordinal),
            );
            let info = PciDeviceInfo {
                id: block.device_id.clone(),
                bdf: format!("0000:00:{:02x}.0", ordinal + 5),
            };
            let response = AddResponse::Identity { detail: String::new(), info: Ok(info) };
            let path = inner.handle_block_device(&block, answered(response)).unwrap().unwrap();
            assert_eq!(path.as_ref().unwrap().to_text(), format!("{:02x}", ordinal + 5));
            block.config.pci_path = path;
            devices.push(block);
        }
        assert_eq!(inner.device_ids.keys().len(), count);
        for block in devices.into_iter().rev() {
            let id = block.device_id.clone();
            let mut device =
                Device { kind: DeviceType::BlockModern(block), described: id.clone() };
            let remove = inner.remove_device(&mut device, None).unwrap_err();
            assert!(matches!(remove, ChCommand::RemoveDevice(removed) if removed == id));
            inner.remove_device(&mut device, Some(Ok(None))).unwrap().unwrap();
        }
        assert!(inner.device_ids.keys().is_empty());
    }
}

/// Sharing a failure with those who wait loses no doubt about a device.
#[test]
fn shared_failures_keep_their_doubt() {
    let error = Error::in_doubt("drive-1".to_string(), "lost".to_string())
        .context("attach".to_string());
    let outcome = BlockAddOutcome::Failure(error);
    assert!(outcome.is_in_doubt());
    let shared = outcome.into_result().unwrap_err();
    assert!(shared.device_state_in_doubt().is_some());
    assert!(!BlockAddOutcome::Success(device("x")).is_in_doubt());
}

/// A start that succeeds opens admission again and forgets what was added before.
#[test]
fn successful_start_begins_anew() {
    let mut state = BlockAddState::default();
    let add = admitted(&mut state, "before");
    state.complete_block_add("before", add);
    let going_on = admitted(&mut state, "going-on");
    state.admission_open = false;
    let ticket = match state.start_vm_shared().unwrap() {
        StartAdmission::Begin(ticket) => ticket,
        other => panic!("unexpected admission {:?}", other),
    };
    assert!(matches!(state.start_vm_shared(), Ok(StartAdmission::Join(t)) if t == ticket));
    let run = StartRun::Ran { result: Ok(()), resources_active: true };
    let (outcome, unresolved) = conclude_start(run);
    state.finish_start(ticket, &outcome, unresolved);
    assert!(state.admission_open);
    assert!(!state.operations.contains_key("before"));
    assert_eq!(state.operations.get("going-on").unwrap().ticket, going_on);
}

#[test]
fn worker_failures_are_told_apart() {
    let (outcome, unresolved) = conclude_start(StartRun::Panicked(CleanupRun::Panicked));
    assert!(unresolved);
    assert!(outcome.into_result().unwrap_err().text().ends_with("process cleanup also panicked"));
    let run = StartRun::Ran { result: Err(msg("comms setup failed")), resources_active: false };
    assert!(!conclude_start(run).1);
    let (outcome, can_hot_add) = conclude_stop(None, StopRun::Panicked);
    assert!(outcome.into_result().is_err());
    assert!(!can_hot_add);
    let lost = conclude_add("drive-3", None).into_result().unwrap_err();
    assert!(lost.device_state_in_doubt().is_some());
    let failed = VmOperationOutcome::Failure(msg("refused"));
    assert!(refuse_start(&failed).chain_text().contains("refused"));
}

/// The last exit code stands once nothing comes any more.
#[test]
fn exit_code_stands() {
    let mut waiter = ExitWaiter::new();
    assert_eq!(waiter.wait_vm(None), 0);
    assert_eq!(waiter.wait_vm(Some(137)), 137);
    assert_eq!(waiter.wait_vm(None), 137);
}

/// A stop that has begun admits no device, whatever comes to its end meanwhile; one that failed
/// leaves the start refused until another stop resolves it.
#[test]
fn stop_closes_admission_until_it_is_resolved() {
    let mut state = BlockAddState::default();
    let start = match state.start_vm_shared().unwrap() {
        StartAdmission::Begin(ticket) => ticket,
        other => panic!("unexpected admission {:?}", other),
    };
    let before = admitted(&mut state, "before");
    let stop = match state.stop_vm_shared().admission {
        Admission::Begin(ticket) => ticket,
        other => panic!("unexpected admission {:?}", other),
    };
    state.finish_start(start, &VmOperationOutcome::Success, false);
    state.complete_block_add("before", before);
    let refused = state.add_block_device(identity("late")).unwrap_err();
    assert_eq!(
        refused.text(),
        "Cloud Hypervisor block add for device late was not admitted because VM stop has begun"
    );

    state.finish_stop(stop, &VmOperationOutcome::Failure(msg("left processes")), false);
    let refused = state.start_vm_shared().unwrap_err();
    assert!(refused.chain_text().contains("left processes"));
    let stop = match state.stop_vm_shared().admission {
        Admission::Begin(ticket) => ticket,
        other => panic!("unexpected admission {:?}", other),
    };
    state.finish_stop(stop, &VmOperationOutcome::Success, false);
    assert!(state.cleanup_unresolved.is_none());
    assert!(matches!(state.start_vm_shared(), Ok(StartAdmission::AwaitStop(t)) if t == stop));
}
