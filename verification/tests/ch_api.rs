use kata_block::ch::api::{
    api_command_not_dispatched, cloud_hypervisor_vm_blockdev_add, cloud_hypervisor_vm_create,
    cloud_hypervisor_vm_device_remove, cloud_hypervisor_vm_fs_add, cloud_hypervisor_vm_info,
    cloud_hypervisor_vm_netdev_add_with_fds, cloud_hypervisor_vm_resize,
    cloud_hypervisor_vm_restore, cloud_hypervisor_vm_snapshot, cloud_hypervisor_vm_start,
    cloud_hypervisor_vm_stop, cloud_hypervisor_vmm_ping, cloud_hypervisor_vmm_shutdown,
    error_of_api, is_api_command_not_dispatched, is_definite_server_response,
    is_not_found_response, removal_result, vm_info_body, ApiConnection, ApiRequest, CallerEvent,
    CommandOwnership, CommandState, WorkerCommand, WorkerEvent,
};
use kata_block::ch::http::{
    command, read_response, request, status_code_from_raw, ApiError, Peeked, Progress, Received,
    Response, Sent, Step, StreamEnd, MAX_HTTP_BODY_SIZE,
};
use kata_block::error::{Error, StatusCode};

/// The other side of a stream: the bytes that it sends, and whether it closes the stream then.
struct Peer {
    bytes: Vec<u8>,
    closes: bool,
}

impl Peer {
    fn open(bytes: &[u8]) -> Peer {
        Peer { bytes: bytes.to_vec(), closes: false }
    }

    fn closing(bytes: &[u8]) -> Peer {
        Peer { bytes: bytes.to_vec(), closes: true }
    }

    /// Reads a response, asking for no more than the reader wants.
    fn respond(&self, endpoint: &str) -> Response {
        let mut received =
            Received { bytes: Vec::new(), end: StreamEnd::Open, peeked: Peeked::NotYet };
        loop {
            let at = received.bytes.len();
            match read_response(endpoint, &received) {
                Progress::Read(count) => {
                    let end = self.bytes.len().min(at + count);
                    if end == at {
                        assert!(self.closes, "the reader waits for bytes that never come");
                        received.end = StreamEnd::Closed;
                    }
                    received.bytes.extend_from_slice(&self.bytes[at..end]);
                }
                Progress::Peek => {
                    received.peeked = if at < self.bytes.len() {
                        Peeked::More
                    } else if self.closes {
                        Peeked::Closed
                    } else {
                        Peeked::Silent
                    };
                }
                Progress::Done(response) => return response,
            }
        }
    }
}

/// Sends a request over a connection whose peer answers so, and lists what was done for it.
fn send(
    connection: &mut ApiConnection,
    request: &ApiRequest,
    peer: &Peer,
    done: &mut Vec<String>,
) -> Result<Option<String>, Error> {
    let mut steps: usize = 0;
    loop {
        let mut attempt =
            ApiConnection { open: connection.open, socket_path: connection.socket_path.clone() };
        let mut events = Vec::new();
        for step in &done[done.len() - steps..] {
            events.push(if step.starts_with("Exchange") {
                WorkerEvent::Came(peer.respond(request.endpoint))
            } else {
                WorkerEvent::Done
            });
        }
        match attempt.api_command(request, &Vec::new(), 1000, events) {
            Ok(result) => {
                *connection = attempt;
                return result;
            }
            Err(command) => {
                done.push(format!("{:?}", command));
                steps += 1;
            }
        }
    }
}

fn plain(method: &'static str, endpoint: &'static str) -> ApiRequest {
    ApiRequest { method, endpoint, body: None }
}

fn reconnecting() -> ApiConnection {
    let mut connection = ApiConnection::new(false);
    connection.replace(Some("/run/ch-api.sock".to_string()));
    connection
}

fn assert_uncertain_response_reconnects(bytes: &[u8]) -> Error {
    let mut connection = reconnecting();
    let mut done = Vec::new();
    let ping = cloud_hypervisor_vmm_ping();

    let error = send(&mut connection, &ping, &Peer::closing(bytes), &mut done).unwrap_err();
    assert!(!connection.open);
    assert!(done.last().unwrap().starts_with("Exchange"));
    assert!(!is_api_command_not_dispatched(&error));

    let mut done = Vec::new();
    let good = Peer::open(b"HTTP/1.1 200\r\nContent-Length: 2\r\n\r\n{}");
    let body = send(&mut connection, &ping, &good, &mut done).unwrap();
    assert_eq!(body.as_deref(), Some("{}"));
    assert_eq!(done[0], "Connect(\"/run/ch-api.sock\")");
    error
}

#[test]
fn canceled_command_keeps_serialization_until_worker_finishes() {
    let mut command = CommandOwnership::new(CommandState::Queued);
    assert!(command.dispatch());
    // The caller is gone; the request is on its way and stays with the worker.
    command.release();
    assert_eq!(command.state, CommandState::Dispatched);
    command.finish();
    assert_eq!(command.state, CommandState::Finished);
    assert_eq!(
        request("GET", cloud_hypervisor_vmm_ping().endpoint, None).lines().next(),
        Some("GET /api/v1/vmm.ping HTTP/1.1")
    );
}

#[test]
fn canceled_queued_command_never_dispatches() {
    let mut command = CommandOwnership::new(CommandState::Queued);
    command.release();
    assert_eq!(command.state, CommandState::Abandoned);
    assert!(!command.dispatch());

    let mut connection = ApiConnection::new(true);
    let events = vec![WorkerEvent::Done, WorkerEvent::Done, WorkerEvent::Denied];
    let error = connection
        .api_command(&plain("PUT", "vm.remove-device"), &Vec::new(), 2000, events)
        .unwrap()
        .unwrap_err();
    assert!(is_api_command_not_dispatched(&error));
    assert!(connection.is_open());
}

#[test]
fn timed_out_queued_command_never_dispatches() {
    let mut command = CommandOwnership::new(CommandState::Queued);
    let error =
        command.conclude("PUT", "vm.remove-device", 50, CallerEvent::TimedOut).unwrap_err();
    assert!(error.text().contains("before dispatch"));
    assert!(is_api_command_not_dispatched(&error));
    assert!(!command.dispatch());
}

#[test]
fn unavailable_socket_is_typed_as_never_dispatched() {
    let mut connection = ApiConnection::new(false);
    let ping = cloud_hypervisor_vmm_ping();
    let error = connection
        .api_command(&ping, &Vec::new(), 1000, Vec::new())
        .unwrap()
        .unwrap_err();

    assert!(is_api_command_not_dispatched(&error));
    assert!(error.text().contains("was not dispatched"));
}

#[test]
fn duplicated_request_fds_outlive_original_owner() {
    // Every descriptor is duplicated before anything else happens.
    let mut connection = ApiConnection::new(true);
    let command = connection
        .api_command(&plain("PUT", "vm.add-net"), &vec![5, 6], 1000, vec![WorkerEvent::Done])
        .unwrap_err();
    assert!(matches!(command, WorkerCommand::Duplicate(6)));

    let events = vec![WorkerEvent::Done, WorkerEvent::Failed("EMFILE".to_string())];
    let error = connection
        .api_command(&plain("PUT", "vm.add-net"), &vec![5, 6], 1000, events)
        .unwrap()
        .unwrap_err();
    assert!(is_api_command_not_dispatched(&error));
    assert!(error.text().ends_with("duplicate Cloud Hypervisor request fd 6"));
}

#[test]
fn canceled_queued_fd_request_closes_worker_duplicates() {
    let add = cloud_hypervisor_vm_netdev_add_with_fds("{}".to_string());
    let mut connection = ApiConnection::new(true);
    let mut command = CommandOwnership::new(CommandState::Queued);
    command.release();
    assert!(!command.dispatch());
    // Nothing is exchanged: the worker ends, and its duplicates with it.
    let events =
        vec![WorkerEvent::Done, WorkerEvent::Done, WorkerEvent::Done, WorkerEvent::Denied];
    let result = connection.api_command(&add, &vec![5], 1000, events);
    assert!(is_api_command_not_dispatched(&result.unwrap().unwrap_err()));
}

#[test]
fn canceled_dispatched_fd_request_closes_worker_duplicates() {
    let add = cloud_hypervisor_vm_netdev_add_with_fds("{}".to_string());
    assert_eq!(
        request(add.method, add.endpoint, add.body.as_deref()).lines().next(),
        Some("PUT /api/v1/vm.add-net HTTP/1.1")
    );
    let mut command = CommandOwnership::new(CommandState::Queued);
    assert!(command.dispatch());
    command.release();
    assert_eq!(command.state, CommandState::Dispatched);
    let mut connection = ApiConnection::new(true);
    let peer = Peer::open(b"HTTP/1.1 200\r\nContent-Length: 2\r\n\r\n{}");
    let events = vec![
        WorkerEvent::Done,
        WorkerEvent::Done,
        WorkerEvent::Done,
        WorkerEvent::Done,
        WorkerEvent::Came(peer.respond(add.endpoint)),
    ];
    let result = connection.api_command(&add, &vec![5], 1000, events);
    assert_eq!(result.unwrap().unwrap().as_deref(), Some("{}"));
    assert!(connection.is_open());
}

#[test]
fn lowercase_content_length_is_accepted() {
    let mut connection = ApiConnection::new(true);
    let ping = cloud_hypervisor_vmm_ping();
    let mut done = Vec::new();
    let peer = Peer::open(b"HTTP/1.1 200\r\ncontent-length: 2\r\n\r\n{}");
    let body = send(&mut connection, &ping, &peer, &mut done).unwrap();
    assert_eq!(body.as_deref(), Some("{}"));
    assert!(connection.open);
    send(&mut connection, &ping, &peer, &mut done).unwrap();
}

#[test]
fn duplicate_content_length_reconnects() {
    assert_uncertain_response_reconnects(
        b"HTTP/1.1 200\r\nContent-Length: 2\r\ncontent-length: 2\r\n\r\n{}",
    );
}

#[test]
fn missing_content_length_with_body_reconnects() {
    assert_uncertain_response_reconnects(b"HTTP/1.1 200\r\n\r\n{}");
}

#[test]
fn malformed_content_length_reconnects() {
    assert_uncertain_response_reconnects(b"HTTP/1.1 200\r\nContent-Length: invalid\r\n\r\n{}");
}

#[test]
fn no_body_status_rejects_content_length() {
    assert_uncertain_response_reconnects(b"HTTP/1.1 204\r\nContent-Length: 2\r\n\r\n{}");
}

#[test]
fn response_body_at_limit_is_accepted() {
    let mut bytes =
        format!("HTTP/1.1 200\r\nContent-Length: {}\r\n\r\n", MAX_HTTP_BODY_SIZE).into_bytes();
    bytes.resize(bytes.len() + MAX_HTTP_BODY_SIZE as usize, b'x');
    let response = Peer::open(&bytes).respond("vmm.ping");
    assert_eq!(response.result.unwrap().unwrap().len(), MAX_HTTP_BODY_SIZE as usize);
    assert!(response.reusable);
}

#[test]
fn oversized_response_body_is_rejected_and_reconnects() {
    let mut bytes =
        format!("HTTP/1.1 200\r\nContent-Length: {}\r\n\r\n", MAX_HTTP_BODY_SIZE + 1).into_bytes();
    bytes.resize(bytes.len() + MAX_HTTP_BODY_SIZE as usize + 1, b'x');
    let error = assert_uncertain_response_reconnects(&bytes);
    assert!(error.chain_text().contains("response body exceeds"));
}

#[test]
fn informational_response_is_consumed_before_final_response() {
    let mut connection = ApiConnection::new(true);
    let ping = cloud_hypervisor_vmm_ping();
    let mut done = Vec::new();
    let peer = Peer::open(
        b"HTTP/1.1 100 Continue\r\n\r\nHTTP/1.1 200\r\nContent-Length: 2\r\n\r\n{}",
    );
    let body = send(&mut connection, &ping, &peer, &mut done).unwrap();
    assert_eq!(body.as_deref(), Some("{}"));
    let peer = Peer::open(b"HTTP/1.1 200\r\nContent-Length: 2\r\n\r\n{}");
    send(&mut connection, &ping, &peer, &mut done).unwrap();
}

#[test]
fn stalled_peer_times_out_and_reconnects() {
    let mut command = CommandOwnership::new(CommandState::Queued);
    assert!(command.dispatch());
    let error = command.conclude("GET", "vmm.ping", 50, CallerEvent::TimedOut).unwrap_err();
    assert!(error.text().contains("GET vmm.ping timed out after 50ms"));
    assert!(!is_api_command_not_dispatched(&error));

    // The worker sees the stream end without a response, and the next command reconnects.
    let mut connection = reconnecting();
    let mut done = Vec::new();
    let ping = cloud_hypervisor_vmm_ping();
    assert!(send(&mut connection, &ping, &Peer::closing(b""), &mut done).is_err());
    let remove = cloud_hypervisor_vm_device_remove("{\"id\":\"pending-device\"}".to_string());
    let mut done = Vec::new();
    let gone = Peer::open(b"HTTP/1.1 204\r\nContent-Length: 0\r\n\r\n");
    let body = removal_result(send(&mut connection, &remove, &gone, &mut done)).unwrap();
    assert!(body.is_none());
    assert_eq!(done[0], "Connect(\"/run/ch-api.sock\")");
    assert_eq!(
        request(remove.method, remove.endpoint, remove.body.as_deref()).lines().next(),
        Some("PUT /api/v1/vm.remove-device HTTP/1.1")
    );
}

#[test]
fn malformed_http_closes_stream_and_reconnects() {
    let error = assert_uncertain_response_reconnects(b"HTTP/1.1 200\r\nContent-Length: 5\r\n\r\n{}");
    assert!(error.text().contains("uncertain HTTP framing"));
}

#[test]
fn request_names_its_length() {
    let create = cloud_hypervisor_vm_create("{\"cpus\":1}".to_string());
    assert_eq!(
        request(create.method, create.endpoint, create.body.as_deref()),
        "PUT /api/v1/vm.create HTTP/1.1\r\nHost: localhost\r\nAccept: */*\r\n\
         Content-Length: 10\r\n\r\n{\"cpus\":1}"
    );
    // The length counts bytes, not characters.
    assert!(request("PUT", "vm.create", Some("\u{e9}")).contains("Content-Length: 2\r\n"));
}

#[test]
fn server_responses_are_definite() {
    let response =
        Peer::open(b"HTTP/1.1 404 Not Found\r\nContent-Length: 4\r\n\r\ngone").respond("vm.info");
    let error = match response.result {
        Err(ApiError::ServerResponse(StatusCode::NotFound, Some(body))) => {
            assert_eq!(body, "gone");
            error_of_api(ApiError::ServerResponse(StatusCode::NotFound, Some(body)))
        }
        other => panic!("unexpected result {:?}", other),
    };
    assert!(response.reusable);
    assert!(is_definite_server_response(&error));
    assert!(is_not_found_response(&error));
    assert_eq!(removal_result(Err(error)).unwrap(), None);

    let error = error_of_api(ApiError::ServerResponse(StatusCode::InternalServerError, None));
    assert!(is_definite_server_response(&error));
    assert!(!is_not_found_response(&error));
    assert!(removal_result(Err(error)).is_err());
    assert!(vm_info_body(None).is_err());
    assert_eq!(vm_info_body(Some("{}".to_string())).unwrap(), "{}");
}

#[test]
fn broken_heads_are_told_apart() {
    let failure = |bytes: &[u8]| Peer::closing(bytes).respond("vmm.ping").result.unwrap_err();
    assert!(matches!(failure(b"HTTP/1.0 200\r\n\r\n"), ApiError::MissingProtocol));
    assert!(matches!(failure(b"HTTP/1.1 abc\r\n\r\n"), ApiError::StatusCodeParsing(_)));
    assert!(matches!(
        failure(b"HTTP/1.1 200\r\nContent-Length: x\r\n\r\n"),
        ApiError::ContentLengthParsing(_)
    ));
    assert!(matches!(failure(b"HTTP/1.1 2"), ApiError::Socket(_)));
    assert!(matches!(failure(b"HTTP/1.1 200\r\nA: \xff\r\n\r\n"), ApiError::Socket(_)));
    assert!(matches!(
        failure(b"HTTP/1.1 200\r\nContent-Length: 1\r\n\r\n\xff"),
        ApiError::Socket(_)
    ));
    let codes = [
        (100, StatusCode::Continue),
        (200, StatusCode::Success),
        (204, StatusCode::NoContent),
        (400, StatusCode::BadRequest),
        (404, StatusCode::NotFound),
        (429, StatusCode::TooManyRequests),
        (500, StatusCode::InternalServerError),
        (501, StatusCode::NotImplemented),
        (418, StatusCode::Unknown),
    ];
    for (code, status) in codes {
        assert_eq!(status_code_from_raw(code), status);
    }
}

/// A body is text, whatever its characters.
#[test]
fn body_is_read_as_text() {
    let body = "caf\u{e9} \u{1f600}";
    let bytes = format!("HTTP/1.1 200\r\nContent-Length: {}\r\n\r\n{}", body.len(), body);
    let response = Peer::open(bytes.as_bytes()).respond("vm.info");
    assert_eq!(response.result.unwrap().as_deref(), Some(body));
}

/// A stream is used again only where nothing is left on it.
#[test]
fn reused_stream_is_silent() {
    let error = assert_uncertain_response_reconnects(
        b"HTTP/1.1 200\r\nContent-Length: 2\r\n\r\n{}junk",
    );
    assert!(error.chain_text().contains("HTTP response has bytes beyond Content-Length"));

    let ping = cloud_hypervisor_vmm_ping();
    let mut connection = reconnecting();
    let closed = Peer::closing(b"HTTP/1.1 200\r\nContent-Length: 2\r\n\r\n{}");
    let body = send(&mut connection, &ping, &closed, &mut Vec::new()).unwrap();
    assert_eq!(body.as_deref(), Some("{}"));
    assert!(!connection.open);

    let mut connection = reconnecting();
    let silent = Peer::open(b"HTTP/1.1 200\r\nContent-Length: 2\r\n\r\n{}");
    send(&mut connection, &ping, &silent, &mut Vec::new()).unwrap();
    assert!(connection.open);
}

/// Once given up, a command is never dispatched; once dispatched, it is never given up.
#[test]
fn abandoning_and_dispatching_exclude_each_other() {
    let mut command = CommandOwnership::new(CommandState::Queued);
    assert!(command.abandon_before_dispatch());
    assert!(!command.dispatch());
    assert_eq!(command.state, CommandState::Abandoned);

    let mut command = CommandOwnership::new(CommandState::Queued);
    assert!(command.dispatch());
    assert!(!command.abandon_before_dispatch());
    assert_eq!(command.state, CommandState::Dispatched);
}

/// A command that is reported as not dispatched was not exchanged.
#[test]
fn failures_before_the_exchange_are_never_dispatched() {
    let mut connection = reconnecting();
    connection.open = false;
    let failed = |reason: &str| WorkerEvent::Failed(reason.to_string());
    let runs = vec![
        (vec![failed("refused")], "reconnect Cloud Hypervisor API socket \"/run/ch-api.sock\""),
        (
            vec![WorkerEvent::Done, failed("EINVAL")],
            "set Cloud Hypervisor API read timeout",
        ),
        (
            vec![WorkerEvent::Done, WorkerEvent::Done, failed("EINVAL")],
            "set Cloud Hypervisor API write timeout",
        ),
    ];
    for (events, context) in runs {
        let mut attempt = ApiConnection { open: false, socket_path: connection.socket_path.clone() };
        let error = attempt
            .api_command(&plain("GET", "vmm.ping"), &Vec::new(), 1000, events)
            .unwrap()
            .unwrap_err();
        assert!(is_api_command_not_dispatched(&error));
        assert!(error.chain_text().contains(context), "{}", error.chain_text());
    }
    let mut attempt = ApiConnection::new(true);
    let events =
        vec![WorkerEvent::Done, WorkerEvent::Done, WorkerEvent::Done, WorkerEvent::Panicked];
    let error = attempt
        .api_command(&plain("GET", "vmm.ping"), &Vec::new(), 1000, events)
        .unwrap()
        .unwrap_err();
    assert!(!is_api_command_not_dispatched(&error));
    assert!(!attempt.open);
    assert!(error.text().contains("panicked while parsing malformed HTTP"));
}

#[test]
fn waiting_callers_are_told_what_happened() {
    let mut command = CommandOwnership::new(CommandState::Queued);
    let joined = CallerEvent::Joined(Ok(Some("{}".to_string())));
    assert_eq!(command.conclude("GET", "vmm.ping", 50, joined).unwrap().as_deref(), Some("{}"));
    assert_eq!(command.state, CommandState::Finished);

    let mut command = CommandOwnership::new(CommandState::Dispatched);
    let gone = CallerEvent::JoinFailed("cancelled".to_string());
    let error = command.conclude("GET", "vmm.ping", 50, gone).unwrap_err();
    assert_eq!(error.chain_text(), "join Cloud Hypervisor API worker: cancelled");

    let error = api_command_not_dispatched("GET", "vmm.ping", Error::msg("why".to_string()));
    assert_eq!(error.text(), "Cloud Hypervisor API GET vmm.ping was not dispatched: why");
}

fn nothing_received() -> Received {
    Received { bytes: Vec::new(), end: StreamEnd::Open, peeked: Peeked::NotYet }
}

/// Descriptors travel with the first bytes of a request, and the rest of it follows.
#[test]
fn request_is_sent_once() {
    let body = Some("{\"id\":\"net-1\"}");
    let received = nothing_received();
    let step = |with_fds: bool, sent: Sent| {
        command("PUT", "vm.add-net", body, with_fds, &sent, &received)
    };
    let whole = match step(false, Sent::Nothing) {
        Step::Write(bytes) => bytes,
        other => panic!("unexpected step {:?}", other),
    };
    assert_eq!(whole, request("PUT", "vm.add-net", body).into_bytes());
    let line = match step(true, Sent::Nothing) {
        Step::SendWithFds(bytes) => bytes,
        other => panic!("unexpected step {:?}", other),
    };
    assert_eq!(
        line,
        b"PUT /api/v1/vm.add-net HTTP/1.1\r\nHost: localhost\r\nAccept: */*\r\n".to_vec()
    );
    for count in [1, 7, line.len()] {
        match step(true, Sent::WithFds(count)) {
            Step::Write(rest) => {
                assert_eq!([&line[..count], rest.as_slice()].concat(), whole);
            }
            other => panic!("unexpected step {:?}", other),
        }
    }
    assert!(matches!(step(false, Sent::Whole), Step::Receive(Progress::Read(4))));
    match step(true, Sent::Failed("broken pipe".to_string())) {
        Step::Receive(Progress::Done(response)) => {
            assert!(matches!(response.result, Err(ApiError::Socket(text)) if text == "broken pipe"));
        }
        other => panic!("unexpected step {:?}", other),
    }
}

/// Once the request is sent, the response is what counts.
#[test]
fn response_follows_the_request() {
    let bytes = b"HTTP/1.1 200 OK\r\nContent-Length: 2\r\n\r\nok".to_vec();
    let received = Received { bytes, end: StreamEnd::Open, peeked: Peeked::Silent };
    match command("GET", "vm.info", None, false, &Sent::Whole, &received) {
        Step::Receive(Progress::Done(response)) => {
            assert_eq!(response.result.unwrap(), Some("ok".to_string()));
            assert!(response.reusable);
        }
        other => panic!("unexpected step {:?}", other),
    }
}

#[test]
fn requests_name_their_endpoints() {
    let bare = |request: ApiRequest| {
        assert!(request.body.is_none());
        (request.method, request.endpoint)
    };
    assert_eq!(bare(cloud_hypervisor_vmm_ping()), ("GET", "vmm.ping"));
    assert_eq!(bare(cloud_hypervisor_vmm_shutdown()), ("PUT", "vmm.shutdown"));
    assert_eq!(bare(cloud_hypervisor_vm_start()), ("PUT", "vm.boot"));
    assert_eq!(bare(cloud_hypervisor_vm_stop()), ("PUT", "vm.shutdown"));
    assert_eq!(bare(cloud_hypervisor_vm_info()), ("GET", "vm.info"));
    let carrying = |request: ApiRequest| {
        assert_eq!(request.body.as_deref(), Some("{}"));
        (request.method, request.endpoint)
    };
    let body = || "{}".to_string();
    assert_eq!(carrying(cloud_hypervisor_vm_snapshot(body())), ("PUT", "vm.snapshot"));
    assert_eq!(carrying(cloud_hypervisor_vm_restore(body())), ("PUT", "vm.restore"));
    assert_eq!(carrying(cloud_hypervisor_vm_resize(body())), ("PUT", "vm.resize"));
    assert_eq!(carrying(cloud_hypervisor_vm_blockdev_add(body())), ("PUT", "vm.add-disk"));
    assert_eq!(carrying(cloud_hypervisor_vm_fs_add(body())), ("PUT", "vm.add-fs"));
}

/// The worker sends the request that it was given, and nothing else.
#[test]
fn exchange_carries_the_request() {
    let add = cloud_hypervisor_vm_blockdev_add("{\"id\":\"drive-0\"}".to_string());
    let mut connection = ApiConnection::new(true);
    let events = vec![WorkerEvent::Done, WorkerEvent::Done, WorkerEvent::Done];
    match connection.api_command(&add, &Vec::new(), 1000, events).unwrap_err() {
        WorkerCommand::Exchange(sent) => {
            assert_eq!((sent.method, sent.endpoint), ("PUT", "vm.add-disk"));
            assert_eq!(sent.body, add.body);
        }
        other => panic!("unexpected command {:?}", other),
    }
}
