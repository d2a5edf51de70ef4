//! Commands to the Cloud Hypervisor API: who owns them, what they ask, and what comes of them.
use crate::ch::http::{ApiError, ApiErrorModel, Response};
use crate::error::{
    dup_option, error_text, in_context, message, never_dispatched, server_status,
    ApiCommandNotDispatched, Error, ErrorModel, Layer, LayerModel, StatusCode,
};
use crate::qmp::cleanup::{span, span_text};
use crate::qmp::session::outcome;
use crate::text::{
    cat2, cat3, cat4, cat5, debug_path_text, debug_text, dec, dec_i64, parse_failure_text, quoted,
    quoted_path,
};
use vstd::prelude::*;

verus! {

/// Where a command is on its way to the socket.
#[derive(Clone, Copy, Debug, PartialEq, Eq, Structural)]
pub enum CommandState {
    Queued,
    Dispatched,
    Abandoned,
    Finished,
}

/// The hold of a caller on its command. The worker that sends the command shares the state.
#[derive(Clone, Copy, Debug, PartialEq, Eq, Structural)]
pub struct CommandOwnership {
    pub state: CommandState,
    pub completed: bool,
}

impl CommandOwnership {
    /// The hold on a command in that state.
    pub fn new(state: CommandState) -> (r: Self)
        ensures
            r == (CommandOwnership { state, completed: false }),
    {
        CommandOwnership { state, completed: false }
    }

    /// Gives the command up, and tells whether it was still in the queue.
    pub fn abandon_before_dispatch(&mut self) -> (r: bool)
        ensures
            r == (old(self).state == CommandState::Queued),
            *final(self) == (CommandOwnership {
                state: if old(self).state == CommandState::Queued {
                    CommandState::Abandoned
                } else {
                    old(self).state
                },
                completed: true,
            }),
    {
        self.completed = true;
        if self.state == CommandState::Queued {
            self.state = CommandState::Abandoned;
            true
        } else {
            false
        }
    }

    /// Notes that the command is through.
    pub fn finish(&mut self)
        ensures
            *final(self) == (CommandOwnership { state: CommandState::Finished, completed: true }),
    {
        self.completed = true;
        self.state = CommandState::Finished;
    }

    /// Takes the command out of the queue to send it, and tells whether it was still there.
    pub fn dispatch(&mut self) -> (r: bool)
        ensures
            r == (old(self).state == CommandState::Queued),
            *final(self) == (CommandOwnership {
                state: if old(self).state == CommandState::Queued {
                    CommandState::Dispatched
                } else {
                    old(self).state
                },
                ..*old(self)
            }),
    {
        if self.state == CommandState::Queued {
            self.state = CommandState::Dispatched;
            true
        } else {
            false
        }
    }

    /// Lets the command go without waiting for it: it leaves the queue, unless it is through or on
    /// its way.
    pub fn release(&mut self)
        ensures
            *final(self) == (CommandOwnership {
                state: if !old(self).completed && old(self).state == CommandState::Queued {
                    CommandState::Abandoned
                } else {
                    old(self).state
                },
                ..*old(self)
            }),
    {
        if !self.completed && self.state == CommandState::Queued {
            self.state = CommandState::Abandoned;
        }
    }
}

/// The moves that a caller and a worker make on a command.
pub enum CommandMove {
    Dispatch,
    Abandon,
    Release,
    Finish,
}

/// A command after a move.
pub open spec fn moved(c: CommandOwnership, m: CommandMove) -> CommandOwnership {
    match m {
        CommandMove::Dispatch => CommandOwnership {
            state: if c.state == CommandState::Queued {
                CommandState::Dispatched
            } else {
                c.state
            },
            ..c
        },
        CommandMove::Abandon => CommandOwnership {
            state: if c.state == CommandState::Queued {
                CommandState::Abandoned
            } else {
                c.state
            },
            completed: true,
        },
        CommandMove::Release => CommandOwnership {
            state: if !c.completed && c.state == CommandState::Queued {
                CommandState::Abandoned
            } else {
                c.state
            },
            ..c
        },
        CommandMove::Finish => CommandOwnership { state: CommandState::Finished, completed: true },
    }
}

/// A command after several moves.
pub open spec fn after_moves(c: CommandOwnership, moves: Seq<CommandMove>) -> CommandOwnership
    decreases moves.len(),
{
    if moves.len() == 0 {
        c
    } else {
        moved(after_moves(c, moves.drop_last()), moves.last())
    }
}

/// A command that was given up in the queue is never sent, whatever the caller and the worker do
/// afterwards: no move takes it out of the queue again.
pub proof fn law_abandoned_never_dispatches(c: CommandOwnership, moves: Seq<CommandMove>)
    requires
        c.state == CommandState::Abandoned,
    ensures
        after_moves(c, moves).state == CommandState::Abandoned || after_moves(c, moves).state
            == CommandState::Finished,
        after_moves(c, moves).state != CommandState::Queued,
    decreases moves.len(),
{
    if moves.len() > 0 {
        law_abandoned_never_dispatches(c, moves.drop_last());
    }
}

/// A command that is on its way cannot be given up any more: it stays dispatched until it is
/// through.
pub proof fn law_dispatched_never_abandoned(c: CommandOwnership, moves: Seq<CommandMove>)
    requires
        c.state == CommandState::Dispatched,
    ensures
        after_moves(c, moves).state == CommandState::Dispatched || after_moves(c, moves).state
            == CommandState::Finished,
    decreases moves.len(),
{
    if moves.len() > 0 {
        law_dispatched_never_abandoned(c, moves.drop_last());
    }
}

/// What a command that was not dispatched says of itself.
pub open spec fn not_dispatched_text(
    method: Seq<char>,
    endpoint: Seq<char>,
    source: ErrorModel,
) -> Seq<char> {
    "Cloud Hypervisor API "@ + method + " "@ + endpoint + " was not dispatched: "@ + error_text(
        source,
    )
}

/// The error of a command that was not dispatched because of `source`.
pub open spec fn not_dispatched(method: Seq<char>, endpoint: Seq<char>, source: ErrorModel) -> ErrorModel {
    seq![
        LayerModel::NotDispatched {
            method,
            endpoint,
            text: not_dispatched_text(method, endpoint, source),
        },
    ] + source
}

/// The error of a command that was not dispatched because of `source`.
pub fn api_command_not_dispatched(method: &str, endpoint: &str, source: Error) -> (r: Error)
    ensures
        r.deep_view() == not_dispatched(method@, endpoint@, source.deep_view()),
{
    let text = cat5(
        "Cloud Hypervisor API ",
        method,
        " ",
        endpoint,
        " was not dispatched: ",
    ).concat(source.text().as_str());
    source.below(
        Layer::NotDispatched {
            command: ApiCommandNotDispatched {
                method: method.to_owned(),
                endpoint: endpoint.to_owned(),
            },
            text,
        },
    )
}

/// How a developer sees a status.
pub open spec fn status_text(status: StatusCode) -> Seq<char> {
    match status {
        StatusCode::Continue => "Continue"@,
        StatusCode::Success => "Ok"@,
        StatusCode::NoContent => "NoContent"@,
        StatusCode::BadRequest => "BadRequest"@,
        StatusCode::NotFound => "NotFound"@,
        StatusCode::TooManyRequests => "TooManyRequests"@,
        StatusCode::InternalServerError => "InternalServerError"@,
        StatusCode::NotImplemented => "NotImplemented"@,
        StatusCode::Unknown => "Unknown"@,
    }
}

fn status_name(status: StatusCode) -> (r: &'static str)
    ensures
        r@ == status_text(status),
{
    match status {
        StatusCode::Continue => "Continue",
        StatusCode::Success => "Ok",
        StatusCode::NoContent => "NoContent",
        StatusCode::BadRequest => "BadRequest",
        StatusCode::NotFound => "NotFound",
        StatusCode::TooManyRequests => "TooManyRequests",
        StatusCode::InternalServerError => "InternalServerError",
        StatusCode::NotImplemented => "NotImplemented",
        StatusCode::Unknown => "Unknown",
    }
}

/// How a developer sees an optional body.
pub open spec fn body_text(body: Option<Seq<char>>) -> Seq<char> {
    match body {
        Some(body) => "Some("@ + debug_text(body) + ")"@,
        None => "None"@,
    }
}

/// The error of a request that has no usable response.
pub open spec fn api_error(error: ApiErrorModel) -> ErrorModel {
    match error {
        ApiErrorModel::Socket(text) => seq![
            LayerModel::Message("Error writing to or reading from HTTP socket"@),
            LayerModel::Message(text),
        ],
        ApiErrorModel::MissingProtocol => message("HTTP output is missing protocol statement"@),
        ApiErrorModel::StatusCodeParsing(failure) => seq![
            LayerModel::Message("Error parsing HTTP status code"@),
            LayerModel::Message(parse_failure_text(failure)),
        ],
        ApiErrorModel::ContentLengthParsing(failure) => seq![
            LayerModel::Message("Error parsing HTTP Content-Length field"@),
            LayerModel::Message(parse_failure_text(failure)),
        ],
        ApiErrorModel::ServerResponse(status, body) => seq![
            LayerModel::ServerResponse {
                status,
                text: "Server responded with error "@ + status_text(status) + ": "@ + body_text(body),
            },
        ],
    }
}

fn caused(what: &str, cause: String) -> (r: Error)
    ensures
        r.deep_view() == seq![LayerModel::Message(what@), LayerModel::Message(cause@)],
{
    let r = Error::msg(cause).context_str(what);
    assert(r.deep_view() =~= seq![LayerModel::Message(what@), LayerModel::Message(cause@)]);
    r
}

/// The error of a request that has no usable response.
pub fn error_of_api(error: ApiError) -> (r: Error)
    ensures
        r.deep_view() == api_error(error.deep_view()),
{
    match error {
        ApiError::Socket(text) => caused("Error writing to or reading from HTTP socket", text),
        ApiError::MissingProtocol => Error::msg_str("HTTP output is missing protocol statement"),
        ApiError::StatusCodeParsing(failure) => caused(
            "Error parsing HTTP status code",
            failure.text(),
        ),
        ApiError::ContentLengthParsing(failure) => caused(
            "Error parsing HTTP Content-Length field",
            failure.text(),
        ),
        ApiError::ServerResponse(status, body) => {
            let body_debug: String = match &body {
                Some(body) => cat3("Some(", quoted(body.as_str()).as_str(), ")"),
                None => "None".to_owned(),
            };
            Error::of(
                Layer::ServerResponse {
                    status,
                    text: cat4(
                        "Server responded with error ",
                        status_name(status),
                        ": ",
                        body_debug.as_str(),
                    ),
                },
            )
        },
    }
}

/// The connection that all commands share.
#[derive(Clone, Debug)]
pub struct ApiConnection {
    /// Whether a stream is open.
    pub open: bool,
    /// Where a new stream can be opened.
    pub socket_path: Option<String>,
}

/// The model of an [`ApiConnection`].
pub struct ConnectionModel {
    pub open: bool,
    pub socket_path: Option<Seq<char>>,
}

impl View for ApiConnection {
    type V = ConnectionModel;

    open spec fn view(&self) -> ConnectionModel {
        ConnectionModel { open: self.open, socket_path: self.socket_path.deep_view() }
    }
}

impl ApiConnection {
    /// A connection over a stream that is open or not, which cannot be opened again.
    pub fn new(open: bool) -> (r: ApiConnection)
        ensures
            r@ == (ConnectionModel { open, socket_path: None }),
    {
        ApiConnection { open, socket_path: None }
    }

    /// Puts a new stream in place of the old one.
    pub fn replace(&mut self, socket_path: Option<String>)
        ensures
            final(self)@ == (ConnectionModel { open: true, socket_path: socket_path.deep_view() }),
    {
        self.open = true;
        self.socket_path = socket_path;
    }

    /// Closes the connection for good.
    pub fn close(&mut self)
        ensures
            final(self)@ == (ConnectionModel { open: false, socket_path: None }),
    {
        self.open = false;
        self.socket_path = None;
    }

    /// Whether a command can be sent: a stream is open, or can be opened.
    pub fn is_open(&self) -> (r: bool)
        ensures
            r == (self@.open || self@.socket_path is Some),
    {
        self.open || self.socket_path.is_some()
    }
}

/// What a worker needs done before it can go on.
#[derive(Clone, Debug)]
pub enum WorkerCommand {
    /// Open a stream to the socket at this path.
    Connect(String),
    /// Duplicate this descriptor for the request.
    Duplicate(i32),
    /// Let a read wait that many milliseconds at most.
    SetReadTimeout(u64),
    /// Let a write wait that many milliseconds at most.
    SetWriteTimeout(u64),
    /// Take the command out of the queue.
    Dispatch,
    /// Send this request, with the descriptors that were duplicated for it, and read the response.
    Exchange(ApiRequest),
}

/// The model of a [`WorkerCommand`].
pub enum WorkerModel {
    Connect(Seq<char>),
    Duplicate(i32),
    SetReadTimeout(u64),
    SetWriteTimeout(u64),
    Dispatch,
    Exchange(RequestModel),
}

impl DeepView for WorkerCommand {
    type V = WorkerModel;

    open spec fn deep_view(&self) -> WorkerModel {
        match *self {
            WorkerCommand::Connect(path) => WorkerModel::Connect(path@),
            WorkerCommand::Duplicate(fd) => WorkerModel::Duplicate(fd),
            WorkerCommand::SetReadTimeout(millis) => WorkerModel::SetReadTimeout(millis),
            WorkerCommand::SetWriteTimeout(millis) => WorkerModel::SetWriteTimeout(millis),
            WorkerCommand::Dispatch => WorkerModel::Dispatch,
            WorkerCommand::Exchange(request) => WorkerModel::Exchange(request@),
        }
    }
}

/// What came of something that a worker needed done.
#[derive(Debug)]
pub enum WorkerEvent {
    Done,
    /// It failed, for this reason.
    Failed(String),
    /// The command had left the queue.
    Denied,
    /// A response came, or none that is usable.
    Came(Response),
    /// Reading the response went wrong in a way that nobody foresaw.
    Panicked,
}

/// How far a worker has come: what it needs done, or the result of its command.
pub enum WorkerFlow {
    Waiting(WorkerModel),
    Done(Result<Option<Seq<char>>, ErrorModel>),
}

/// What a response means for the command and for the stream: the result, and whether the stream
/// stays open.
pub open spec fn exchanged(
    method: Seq<char>,
    endpoint: Seq<char>,
    event: WorkerEvent,
) -> (bool, Result<Option<Seq<char>>, ErrorModel>) {
    match event {
        WorkerEvent::Came(response) => match response.deep_view().result {
            Ok(body) => (response.reusable, Ok(body)),
            Err(ApiErrorModel::ServerResponse(status, body)) => (
                response.reusable,
                Err(api_error(ApiErrorModel::ServerResponse(status, body))),
            ),
            Err(error) => (
                false,
                Err(
                    in_context(
                        api_error(error),
                        "Cloud Hypervisor API "@ + method + " "@ + endpoint
                            + " left uncertain HTTP framing; closed the socket for reconnect"@,
                    ),
                ),
            ),
        },
        _ => (
            false,
            Err(
                message(
                    "Cloud Hypervisor API "@ + method + " "@ + endpoint
                        + " panicked while parsing malformed HTTP; closed the socket for reconnect"@,
                ),
            ),
        ),
    }
}

/// The work on one command: its descriptors are duplicated, a stream is opened where none is, the
/// command is taken out of the queue, and only then the request is sent. Whatever fails before that
/// leaves the command not dispatched.
pub open spec fn worked(
    connection: ConnectionModel,
    request: RequestModel,
    fds: Seq<i32>,
    timeout_ms: u32,
    events: Seq<WorkerEvent>,
) -> (ConnectionModel, WorkerFlow)
    decreases fds.len(),
{
    if fds.len() == 0 {
        worked_with_fds(connection, request, timeout_ms, events)
    } else if events.len() == 0 {
        (connection, WorkerFlow::Waiting(WorkerModel::Duplicate(fds[0])))
    } else if let WorkerEvent::Failed(reason) = events[0] {
        (
            connection,
            WorkerFlow::Done(
                Err(
                    not_dispatched(
                        request.method,
                        request.endpoint,
                        in_context(
                            message(reason@),
                            "duplicate Cloud Hypervisor request fd "@ + dec(fds[0] as int),
                        ),
                    ),
                ),
            ),
        )
    } else {
        worked(connection, request, fds.drop_first(), timeout_ms, events.drop_first())
    }
}

/// The work on one command once its descriptors are duplicated.
pub open spec fn worked_with_fds(
    connection: ConnectionModel,
    request: RequestModel,
    timeout_ms: u32,
    events: Seq<WorkerEvent>,
) -> (ConnectionModel, WorkerFlow) {
    if !connection.open {
        match connection.socket_path {
            None => (
                connection,
                WorkerFlow::Done(
                    Err(
                        not_dispatched(
                            request.method,
                            request.endpoint,
                            message(
                                "Cloud Hypervisor API socket is unavailable and has no reconnect path"@,
                            ),
                        ),
                    ),
                ),
            ),
            Some(path) => if events.len() == 0 {
                (connection, WorkerFlow::Waiting(WorkerModel::Connect(path)))
            } else {
                match events[0] {
                    WorkerEvent::Failed(reason) => (
                        connection,
                        WorkerFlow::Done(
                            Err(
                                not_dispatched(
                                    request.method,
                                    request.endpoint,
                                    in_context(
                                        message(reason@),
                                        "reconnect Cloud Hypervisor API socket "@ + debug_path_text(
                                            path,
                                        ),
                                    ),
                                ),
                            ),
                        ),
                    ),
                    _ => worked_on_stream(
                        ConnectionModel { open: true, ..connection },
                        request,
                        timeout_ms,
                        events.drop_first(),
                    ),
                }
            },
        }
    } else {
        worked_on_stream(connection, request, timeout_ms, events)
    }
}

/// The work on one command over an open stream. The stream may wait twice as long as the caller.
pub open spec fn worked_on_stream(
    connection: ConnectionModel,
    request: RequestModel,
    timeout_ms: u32,
    events: Seq<WorkerEvent>,
) -> (ConnectionModel, WorkerFlow) {
    if events.len() == 0 {
        (connection, WorkerFlow::Waiting(WorkerModel::SetReadTimeout((2 * timeout_ms) as u64)))
    } else if let WorkerEvent::Failed(reason) = events[0] {
        (
            connection,
            WorkerFlow::Done(
                Err(
                    not_dispatched(
                        request.method,
                        request.endpoint,
                        in_context(
                            message(reason@),
                            "set Cloud Hypervisor API read timeout"@,
                        ),
                    ),
                ),
            ),
        )
    } else if events.len() == 1 {
        (connection, WorkerFlow::Waiting(WorkerModel::SetWriteTimeout((2 * timeout_ms) as u64)))
    } else if let WorkerEvent::Failed(reason) = events[1] {
        (
            connection,
            WorkerFlow::Done(
                Err(
                    not_dispatched(
                        request.method,
                        request.endpoint,
                        in_context(
                            message(reason@),
                            "set Cloud Hypervisor API write timeout"@,
                        ),
                    ),
                ),
            ),
        )
    } else if events.len() == 2 {
        (connection, WorkerFlow::Waiting(WorkerModel::Dispatch))
    } else if !(events[2] is Done) {
        (
            connection,
            WorkerFlow::Done(
                Err(
                    not_dispatched(
                        request.method,
                        request.endpoint,
                        message("command was abandoned before dispatch"@),
                    ),
                ),
            ),
        )
    } else if events.len() == 3 {
        (connection, WorkerFlow::Waiting(WorkerModel::Exchange(request)))
    } else {
        let (open, result) = exchanged(request.method, request.endpoint, events[3]);
        (ConnectionModel { open, ..connection }, WorkerFlow::Done(result))
    }
}

/// How far a worker has come, as a model.
pub open spec fn worker_flow(r: Result<Result<Option<String>, Error>, WorkerCommand>) -> WorkerFlow {
    match r {
        Ok(result) => WorkerFlow::Done(outcome(result)),
        Err(command) => WorkerFlow::Waiting(command.deep_view()),
    }
}

/// A command that is reported as not dispatched was never sent: at no point before did the worker
/// ask for the exchange.
pub proof fn law_not_dispatched_is_never_sent(
    connection: ConnectionModel,
    request: RequestModel,
    fds: Seq<i32>,
    timeout_ms: u32,
    events: Seq<WorkerEvent>,
    before: int,
)
    requires
        0 <= before <= events.len(),
        worked(connection, request, fds, timeout_ms, events).1 matches WorkerFlow::Done(
            Err(error),
        ) && error[0] is NotDispatched,
    ensures
        !(worked(connection, request, fds, timeout_ms, events.take(before)).1
            matches WorkerFlow::Waiting(WorkerModel::Exchange(_))),
    decreases fds.len(),
{
    let earlier = events.take(before);
    if fds.len() > 0 {
        if before > 0 {
            assert(earlier.drop_first() =~= events.drop_first().take(before - 1));
            if !(events[0] is Failed) {
                law_not_dispatched_is_never_sent(
                    connection,
                    request,
                    fds.drop_first(),
                    timeout_ms,
                    events.drop_first(),
                    before - 1,
                );
            }
        }
    } else if connection.open {
        lemma_not_dispatched_on_stream(connection, request, timeout_ms, events, before);
    } else if connection.socket_path is Some && before > 0 && !(events[0] is Failed) {
        assert(earlier.drop_first() =~= events.drop_first().take(before - 1));
        lemma_not_dispatched_on_stream(
            ConnectionModel { open: true, ..connection },
            request,
            timeout_ms,
            events.drop_first(),
            before - 1,
        );
    }
}

proof fn lemma_not_dispatched_on_stream(
    connection: ConnectionModel,
    request: RequestModel,
    timeout_ms: u32,
    events: Seq<WorkerEvent>,
    before: int,
)
    requires
        0 <= before <= events.len(),
        worked_on_stream(connection, request, timeout_ms, events).1
            matches WorkerFlow::Done(Err(error)) && error[0] is NotDispatched,
    ensures
        !(worked_on_stream(connection, request, timeout_ms, events.take(before)).1
            matches WorkerFlow::Waiting(WorkerModel::Exchange(_))),
{
    if events.len() > 3 {
        match events[3] {
            WorkerEvent::Came(response) => match response.deep_view().result {
                Ok(_) => {},
                Err(error) => {
                    assert(!(api_error(error)[0] is NotDispatched));
                },
            },
            _ => {},
        }
    }
}

fn conclude_exchange(method: &str, endpoint: &str, event: WorkerEvent) -> (r: (
    bool,
    Result<Option<String>, Error>,
))
    ensures
        (r.0, outcome(r.1)) == exchanged(method@, endpoint@, event),
{
    match event {
        WorkerEvent::Came(response) => match response.result {
            Ok(body) => (response.reusable, Ok(body)),
            Err(ApiError::ServerResponse(status, body)) => (
                response.reusable,
                Err(error_of_api(ApiError::ServerResponse(status, body))),
            ),
            Err(error) => (
                false,
                Err(
                    error_of_api(error).context(
                        cat5(
                            "Cloud Hypervisor API ",
                            method,
                            " ",
                            endpoint,
                            " left uncertain HTTP framing; closed the socket for reconnect",
                        ),
                    ),
                ),
            ),
        },
        _ => (
            false,
            Err(
                Error::msg(
                    cat5(
                        "Cloud Hypervisor API ",
                        method,
                        " ",
                        endpoint,
                        " panicked while parsing malformed HTTP; closed the socket for reconnect",
                    ),
                ),
            ),
        ),
    }
}

fn next_event(events: &mut Vec<WorkerEvent>, command: WorkerCommand) -> (r: Result<
    WorkerEvent,
    WorkerCommand,
>)
    ensures
        match r {
            Ok(event) => old(events)@.len() > 0 && event == old(events)@[0] && final(events)@
                == old(events)@.drop_first(),
            Err(waiting) => old(events)@.len() == 0 && waiting == command && final(events)@
                == old(events)@,
        },
{
    if events.len() == 0 {
        return Err(command);
    }
    let event = events.remove(0);
    assert(events@ =~= old(events)@.drop_first());
    Ok(event)
}

impl ApiConnection {
    fn work_on_stream(
        &mut self,
        request: &ApiRequest,
        timeout_ms: u32,
        events: &mut Vec<WorkerEvent>,
    ) -> (r: Result<Result<Option<String>, Error>, WorkerCommand>)
        ensures
            (final(self)@, worker_flow(r)) == worked_on_stream(
                old(self)@,
                request@,
                timeout_ms,
                old(events)@,
            ),
    {
        let socket_timeout: u64 = 2 * (timeout_ms as u64);
        if let WorkerEvent::Failed(reason) = next_event(
            events,
            WorkerCommand::SetReadTimeout(socket_timeout),
        )? {
            return Ok(
                Err(
                    api_command_not_dispatched(
                        request.method,
                        request.endpoint,
                        Error::msg(reason).context_str("set Cloud Hypervisor API read timeout"),
                    ),
                ),
            );
        }
        if let WorkerEvent::Failed(reason) = next_event(
            events,
            WorkerCommand::SetWriteTimeout(socket_timeout),
        )? {
            return Ok(
                Err(
                    api_command_not_dispatched(
                        request.method,
                        request.endpoint,
                        Error::msg(reason).context_str("set Cloud Hypervisor API write timeout"),
                    ),
                ),
            );
        }
        match next_event(events, WorkerCommand::Dispatch)? {
            WorkerEvent::Done => {},
            _ => {
                return Ok(
                    Err(
                        api_command_not_dispatched(
                            request.method,
                            request.endpoint,
                            Error::msg_str("command was abandoned before dispatch"),
                        ),
                    ),
                );
            },
        }
        let event = next_event(events, WorkerCommand::Exchange(request.dup()))?;
        let (open, result) = conclude_exchange(request.method, request.endpoint, event);
        self.open = open;
        Ok(result)
    }

    fn work_with_fds(
        &mut self,
        request: &ApiRequest,
        timeout_ms: u32,
        events: &mut Vec<WorkerEvent>,
    ) -> (r: Result<Result<Option<String>, Error>, WorkerCommand>)
        ensures
            (final(self)@, worker_flow(r)) == worked_with_fds(
                old(self)@,
                request@,
                timeout_ms,
                old(events)@,
            ),
    {
        if !self.open {
            let path = match &self.socket_path {
                Some(path) => path.clone(),
                None => {
                    return Ok(
                        Err(
                            api_command_not_dispatched(
                                request.method,
                                request.endpoint,
                                Error::msg_str(
                                    "Cloud Hypervisor API socket is unavailable and has no reconnect path",
                                ),
                            ),
                        ),
                    );
                },
            };
            let described = quoted_path(path.as_str());
            if let WorkerEvent::Failed(reason) = next_event(
                events,
                WorkerCommand::Connect(path),
            )? {
                return Ok(
                    Err(
                        api_command_not_dispatched(
                            request.method,
                            request.endpoint,
                            Error::msg(reason).context(
                                cat2(
                                    "reconnect Cloud Hypervisor API socket ",
                                    described.as_str(),
                                ),
                            ),
                        ),
                    ),
                );
            }
            self.open = true;
        }
        self.work_on_stream(request, timeout_ms, events)
    }

    /// Does the work on one command. `events` are what came of what it needed done so far; each
    /// time it needs something more, that is given back, and the work begins again from the state
    /// it started in with one event more.
    pub fn api_command(
        &mut self,
        request: &ApiRequest,
        fds: &Vec<i32>,
        timeout_ms: u32,
        events: Vec<WorkerEvent>,
    ) -> (r: Result<Result<Option<String>, Error>, WorkerCommand>)
        ensures
            (final(self)@, worker_flow(r)) == worked(
                old(self)@,
                request@,
                fds@,
                timeout_ms,
                events@,
            ),
    {
        let mut rest: Vec<WorkerEvent> = events;
        let mut i: usize = 0;
        assert(fds@.skip(0) =~= fds@);
        while i < fds.len()
            invariant
                0 <= i <= fds@.len(),
                self@ == old(self)@,
                worked(old(self)@, request@, fds@, timeout_ms, events@) == worked(
                    self@,
                    request@,
                    fds@.skip(i as int),
                    timeout_ms,
                    rest@,
                ),
            decreases fds@.len() - i,
        {
            let fd: i32 = fds[i];
            assert(fds@.skip(i as int)[0] == fd);
            assert(fds@.skip(i as int).drop_first() =~= fds@.skip(i + 1));
            if let WorkerEvent::Failed(reason) = next_event(
                &mut rest,
                WorkerCommand::Duplicate(fd),
            )? {
                return Ok(
                    Err(
                        api_command_not_dispatched(
                            request.method,
                            request.endpoint,
                            Error::msg(reason).context(
                                cat2(
                                    "duplicate Cloud Hypervisor request fd ",
                                    dec_i64(fd as i64).as_str(),
                                ),
                            ),
                        ),
                    ),
                );
            }
            i = i + 1;
        }
        self.work_with_fds(request, timeout_ms, &mut rest)
    }
}

/// What a caller sees of the worker that it waits for.
#[derive(Debug)]
pub enum CallerEvent {
    /// The worker is through.
    Joined(Result<Option<String>, Error>),
    /// The worker is gone, for this reason.
    JoinFailed(String),
    /// The time is up.
    TimedOut,
}

/// What a caller is told.
pub open spec fn caller_told(
    state: CommandState,
    method: Seq<char>,
    endpoint: Seq<char>,
    timeout_ms: u32,
    event: CallerEvent,
) -> Result<Option<Seq<char>>, ErrorModel> {
    match event {
        CallerEvent::Joined(result) => outcome(result),
        CallerEvent::JoinFailed(reason) => Err(
            in_context(message(reason@), "join Cloud Hypervisor API worker"@),
        ),
        CallerEvent::TimedOut => if state == CommandState::Queued {
            Err(
                not_dispatched(
                    method,
                    endpoint,
                    message(
                        "timed out after "@ + span_text(timeout_ms as int) + " before dispatch"@,
                    ),
                ),
            )
        } else {
            Err(
                message(
                    "Cloud Hypervisor API "@ + method + " "@ + endpoint + " timed out after "@
                        + span_text(timeout_ms as int)
                        + "; the dispatched worker still owns and drains the request"@,
                ),
            )
        },
    }
}

impl CommandOwnership {
    /// Ends the wait for a worker, and tells the caller what came of its command. A command that
    /// is still in the queue when the time is up is given up; one that is on its way stays with
    /// the worker.
    pub fn conclude(&mut self, method: &str, endpoint: &str, timeout_ms: u32, event: CallerEvent) -> (r:
        Result<Option<String>, Error>)
        ensures
            outcome(r) == caller_told(old(self).state, method@, endpoint@, timeout_ms, event),
            *final(self) == moved(
                *old(self),
                if event is TimedOut {
                    CommandMove::Abandon
                } else {
                    CommandMove::Finish
                },
            ),
    {
        match event {
            CallerEvent::Joined(result) => {
                self.finish();
                result
            },
            CallerEvent::JoinFailed(reason) => {
                self.finish();
                Err(Error::msg(reason).context_str("join Cloud Hypervisor API worker"))
            },
            CallerEvent::TimedOut => {
                if self.abandon_before_dispatch() {
                    Err(
                        api_command_not_dispatched(
                            method,
                            endpoint,
                            Error::msg(
                                cat3(
                                    "timed out after ",
                                    span(timeout_ms).as_str(),
                                    " before dispatch",
                                ),
                            ),
                        ),
                    )
                } else {
                    Err(
                        Error::msg(
                            cat5(
                                "Cloud Hypervisor API ",
                                method,
                                " ",
                                endpoint,
                                " timed out after ",
                            ).concat(span(timeout_ms).as_str()).concat(
                                "; the dispatched worker still owns and drains the request",
                            ),
                        ),
                    )
                }
            },
        }
    }
}

/// Whether an error says that the command was not dispatched.
pub fn is_api_command_not_dispatched(error: &Error) -> (r: bool)
    ensures
        r == never_dispatched(error.deep_view()),
{
    error.is_not_dispatched()
}

/// Whether an error is the answer of the server itself.
pub fn is_definite_server_response(error: &Error) -> (r: bool)
    ensures
        r == (server_status(error.deep_view()) is Some),
{
    error.server_response().is_some()
}

/// Whether an error is the answer of the server that there is no such thing.
pub fn is_not_found_response(error: &Error) -> (r: bool)
    ensures
        r == (server_status(error.deep_view()) == Some(StatusCode::NotFound)),
{
    match error.server_response() {
        Some(status) => status == StatusCode::NotFound,
        None => false,
    }
}

/// Where a snapshot goes.
#[derive(Clone, Debug)]
pub struct VmSnapshotConfig {
    pub destination_url: String,
}

/// Where a snapshot comes from.
#[derive(Clone, Debug)]
pub struct RestoreConfig {
    pub source_url: String,
}

/// A device that the hypervisor has, with its PCI address.
#[derive(Clone, Debug)]
pub struct PciDeviceInfo {
    pub id: String,
    pub bdf: String,
}

/// A device that is to go.
#[derive(Clone, Debug)]
pub struct VmRemoveDeviceData {
    pub id: String,
}

/// A request to the API.
#[derive(Clone, Debug)]
pub struct ApiRequest {
    pub method: &'static str,
    pub endpoint: &'static str,
    pub body: Option<String>,
}

/// A request to the API, as a model.
pub struct RequestModel {
    pub method: Seq<char>,
    pub endpoint: Seq<char>,
    pub body: Option<Seq<char>>,
}

impl View for ApiRequest {
    type V = RequestModel;

    open spec fn view(&self) -> RequestModel {
        RequestModel {
            method: self.method@,
            endpoint: self.endpoint@,
            body: self.body.deep_view(),
        }
    }
}

impl ApiRequest {
    /// A copy of the request.
    pub fn dup(&self) -> (r: ApiRequest)
        ensures
            r@ == self@,
    {
        ApiRequest {
            method: self.method,
            endpoint: self.endpoint,
            body: dup_option(&self.body),
        }
    }
}

fn get(endpoint: &'static str) -> (r: ApiRequest)
    ensures
        r@ == (RequestModel { method: "GET"@, endpoint: endpoint@, body: None }),
{
    ApiRequest { method: "GET", endpoint, body: None }
}

fn put(endpoint: &'static str, body: Option<String>) -> (r: ApiRequest)
    ensures
        r@ == (RequestModel { method: "PUT"@, endpoint: endpoint@, body: body.deep_view() }),
{
    ApiRequest { method: "PUT", endpoint, body }
}

pub fn cloud_hypervisor_vmm_ping() -> (r: ApiRequest)
    ensures
        r@ == (RequestModel { method: "GET"@, endpoint: "vmm.ping"@, body: None }),
{
    get("vmm.ping")
}

pub fn cloud_hypervisor_vmm_shutdown() -> (r: ApiRequest)
    ensures
        r@ == (RequestModel { method: "PUT"@, endpoint: "vmm.shutdown"@, body: None }),
{
    put("vmm.shutdown", None)
}

pub fn cloud_hypervisor_vm_create(body: String) -> (r: ApiRequest)
    ensures
        r@ == (RequestModel { method: "PUT"@, endpoint: "vm.create"@, body: Some(body@) }),
{
    put("vm.create", Some(body))
}

pub fn cloud_hypervisor_vm_start() -> (r: ApiRequest)
    ensures
        r@ == (RequestModel { method: "PUT"@, endpoint: "vm.boot"@, body: None }),
{
    put("vm.boot", None)
}

pub fn cloud_hypervisor_vm_pause() -> (r: ApiRequest)
    ensures
        r@ == (RequestModel { method: "PUT"@, endpoint: "vm.pause"@, body: None }),
{
    put("vm.pause", None)
}

pub fn cloud_hypervisor_vm_resume() -> (r: ApiRequest)
    ensures
        r@ == (RequestModel { method: "PUT"@, endpoint: "vm.resume"@, body: None }),
{
    put("vm.resume", None)
}

pub fn cloud_hypervisor_vm_snapshot(body: String) -> (r: ApiRequest)
    ensures
        r@ == (RequestModel { method: "PUT"@, endpoint: "vm.snapshot"@, body: Some(body@) }),
{
    put("vm.snapshot", Some(body))
}

pub fn cloud_hypervisor_vm_restore(body: String) -> (r: ApiRequest)
    ensures
        r@ == (RequestModel { method: "PUT"@, endpoint: "vm.restore"@, body: Some(body@) }),
{
    put("vm.restore", Some(body))
}

pub fn cloud_hypervisor_vm_stop() -> (r: ApiRequest)
    ensures
        r@ == (RequestModel { method: "PUT"@, endpoint: "vm.shutdown"@, body: None }),
{
    put("vm.shutdown", None)
}

pub fn cloud_hypervisor_vm_blockdev_add(body: String) -> (r: ApiRequest)
    ensures
        r@ == (RequestModel { method: "PUT"@, endpoint: "vm.add-disk"@, body: Some(body@) }),
{
    put("vm.add-disk", Some(body))
}

pub fn cloud_hypervisor_vm_netdev_add(body: String) -> (r: ApiRequest)
    ensures
        r@ == (RequestModel { method: "PUT"@, endpoint: "vm.add-net"@, body: Some(body@) }),
{
    put("vm.add-net", Some(body))
}

/// The request is that of [`cloud_hypervisor_vm_netdev_add`]; the descriptors go with its first
/// bytes.
pub fn cloud_hypervisor_vm_netdev_add_with_fds(body: String) -> (r: ApiRequest)
    ensures
        r@ == (RequestModel { method: "PUT"@, endpoint: "vm.add-net"@, body: Some(body@) }),
{
    put("vm.add-net", Some(body))
}

pub fn cloud_hypervisor_vm_device_add(body: String) -> (r: ApiRequest)
    ensures
        r@ == (RequestModel { method: "PUT"@, endpoint: "vm.add-device"@, body: Some(body@) }),
{
    put("vm.add-device", Some(body))
}

pub fn cloud_hypervisor_vm_device_remove(body: String) -> (r: ApiRequest)
    ensures
        r@ == (RequestModel { method: "PUT"@, endpoint: "vm.remove-device"@, body: Some(body@) }),
{
    put("vm.remove-device", Some(body))
}

pub fn cloud_hypervisor_vm_fs_add(body: String) -> (r: ApiRequest)
    ensures
        r@ == (RequestModel { method: "PUT"@, endpoint: "vm.add-fs"@, body: Some(body@) }),
{
    put("vm.add-fs", Some(body))
}

pub fn cloud_hypervisor_vm_vsock_add(body: String) -> (r: ApiRequest)
    ensures
        r@ == (RequestModel { method: "PUT"@, endpoint: "vm.add-vsock"@, body: Some(body@) }),
{
    put("vm.add-vsock", Some(body))
}

pub fn cloud_hypervisor_vm_info() -> (r: ApiRequest)
    ensures
        r@ == (RequestModel { method: "GET"@, endpoint: "vm.info"@, body: None }),
{
    get("vm.info")
}

pub fn cloud_hypervisor_vm_resize(body: String) -> (r: ApiRequest)
    ensures
        r@ == (RequestModel { method: "PUT"@, endpoint: "vm.resize"@, body: Some(body@) }),
{
    put("vm.resize", Some(body))
}

/// What came of removing a device: one that is not there is gone.
pub open spec fn removal_of(result: Result<Option<Seq<char>>, ErrorModel>) -> Result<
    Option<Seq<char>>,
    ErrorModel,
> {
    match result {
        Err(error) => if server_status(error) == Some(StatusCode::NotFound) {
            Ok(None)
        } else {
            Err(error)
        },
        Ok(body) => Ok(body),
    }
}

/// What came of removing a device: one that is not there is gone.
pub fn removal_result(result: Result<Option<String>, Error>) -> (r: Result<Option<String>, Error>)
    ensures
        outcome(r) == removal_of(outcome(result)),
{
    match result {
        Err(error) => if is_not_found_response(&error) {
            Ok(None)
        } else {
            Err(error)
        },
        Ok(body) => Ok(body),
    }
}

/// The description of a VM in a response; the response has to have a body.
pub fn vm_info_body(response: Option<String>) -> (r: Result<String, Error>)
    ensures
        outcome(r) == match response {
            Some(body) => Ok::<Seq<char>, ErrorModel>(body@),
            None => Err::<Seq<char>, ErrorModel>(message("failed to get vminfo"@)),
        },
{
    match response {
        Some(body) => Ok(body),
        None => Err(Error::msg_str("failed to get vminfo")),
    }
}

} // verus!
