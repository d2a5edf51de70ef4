//! What the hypervisor is sent, and what its answers mean.
use crate::ch::api::{
    api_error, caller_told, exchanged, moved, not_dispatched, removal_of, worked, CallerEvent,
    CommandMove, CommandOwnership, CommandState, ConnectionModel, RequestModel, WorkerEvent,
    WorkerFlow, WorkerModel,
};
use crate::ch::device::bdf_path;
use crate::ch::http::{
    blank_line_ends_at, colon, commanded, head_end, head_in, length_in, line_end, lines_of,
    request_text, response, status_in, status_of, ApiErrorModel, Peeked, ProgressModel, Received,
    ResponseModel, Sent, StepModel, StreamEnd,
};
use crate::error::{
    error_text, lemma_first_layer, never_dispatched, opens_causes, server_status, ErrorModel,
    LayerModel, StatusCode,
};
use crate::text::{
    begins_with, dec, digits, hex, law_split_undoes_join, number_in, same_but_case, trimmed,
    trimmed_front, until_space, zero_padded,
};
use crate::text_laws::{law_decimal_text_is_read_back, law_prefix_is_taken_off};
use vstd::prelude::*;
use vstd::utf8::{decode_utf8, encode_utf8, valid_utf8};

verus! {

/// A request names its method and its endpoint below the API, and carries its body behind an empty
/// line, with the length of the body in bytes; one without a body names no length.
pub proof fn law_request_carries_its_body(
    method: Seq<char>,
    endpoint: Seq<char>,
    body: Seq<char>,
)
    ensures
        request_text(method, endpoint, None) == method + " /api/v1/"@ + endpoint
            + " HTTP/1.1\r\nHost: localhost\r\nAccept: */*\r\n"@ + "\r\n"@,
        request_text(method, endpoint, Some(body)) == method + " /api/v1/"@ + endpoint
            + " HTTP/1.1\r\nHost: localhost\r\nAccept: */*\r\n"@ + "Content-Length: "@ + dec(
            encode_utf8(body).len() as int,
        ) + "\r\n"@ + "\r\n"@ + body,
{
}

/// The statuses that are told apart, each by its one number.
pub proof fn law_statuses_have_their_numbers(code: nat)
    ensures
        status_of(code) == StatusCode::Continue <==> code == 100,
        status_of(code) == StatusCode::Success <==> code == 200,
        status_of(code) == StatusCode::NoContent <==> code == 204,
        status_of(code) == StatusCode::BadRequest <==> code == 400,
        status_of(code) == StatusCode::NotFound <==> code == 404,
        status_of(code) == StatusCode::TooManyRequests <==> code == 429,
        status_of(code) == StatusCode::InternalServerError <==> code == 500,
        status_of(code) == StatusCode::NotImplemented <==> code == 501,
{
}

/// Whether a header line names the length of the body.
pub open spec fn names_length(line: Seq<char>) -> bool {
    line.len() > 0 && 0 <= colon(line) < line.len() && same_but_case(
        trimmed(line.take(colon(line))),
        "content-length"@,
    )
}

/// The length of the body is the one that the header lines name, and a second one is refused even
/// where it is the same. Where no line names one, there is none. A line that is no header is refused.
pub proof fn law_length_is_named_once(lines: Seq<Seq<char>>, found: Option<nat>)
    ensures
        match length_in(lines, found) {
            Ok(None) => found is None && forall|i: int|
                0 <= i < lines.len() ==> !names_length(#[trigger] lines[i]),
            Ok(Some(n)) => if found is Some {
                found == Some(n) && forall|i: int|
                    0 <= i < lines.len() ==> !names_length(#[trigger] lines[i])
            } else {
                exists|i: int|
                    0 <= i < lines.len() && names_length(#[trigger] lines[i]) && number_in(
                        trimmed(lines[i].skip(colon(lines[i]) + 1)),
                        usize::MAX as nat,
                    ) == Ok::<nat, crate::text::ParseFailure>(n) && forall|j: int|
                        0 <= j < lines.len() && j != i ==> !names_length(#[trigger] lines[j])
            },
            Err(_) => true,
        },
        length_in(lines, found) is Ok ==> forall|i: int|
            0 <= i < lines.len() && (#[trigger] lines[i]).len() > 0 ==> colon(lines[i])
                < lines[i].len(),
        (forall|i: int|
            0 <= i < lines.len() ==> !names_length(#[trigger] lines[i]) && (lines[i].len() > 0
                ==> colon(lines[i]) < lines[i].len())) ==> length_in(lines, found) == Ok::<
            Option<nat>,
            ApiErrorModel,
        >(found),
    decreases lines.len(),
{
    if lines.len() > 0 {
        let line = lines[0];
        let rest = lines.drop_first();
        crate::qmp::fdset::lemma_index_of_char(line, ':');
        assert(forall|i: int| 1 <= i < lines.len() ==> lines[i] == rest[i - 1]);
        assert(forall|i: int| 0 <= i < rest.len() ==> rest[i] == lines[i + 1]);
        let next = if names_length(line) {
            match number_in(trimmed(line.skip(colon(line) + 1)), usize::MAX as nat) {
                Ok(length) => Some(length),
                Err(_) => found,
            }
        } else {
            found
        };
        law_length_is_named_once(rest, next);
        match length_in(lines, found) {
            Ok(None) => {
                assert forall|i: int| 0 <= i < lines.len() implies !names_length(
                    #[trigger] lines[i],
                ) by {
                    if i > 0 {
                        assert(!names_length(rest[i - 1]));
                    }
                }
            },
            Ok(Some(n)) => {
                if found is Some {
                    assert forall|i: int| 0 <= i < lines.len() implies !names_length(
                        #[trigger] lines[i],
                    ) by {
                        if i > 0 {
                            assert(!names_length(rest[i - 1]));
                        }
                    }
                } else if names_length(line) {
                    assert(names_length(lines[0]));
                    assert forall|j: int| 0 <= j < lines.len() && j != 0 implies !names_length(
                        #[trigger] lines[j],
                    ) by {
                        assert(!names_length(rest[j - 1]));
                    }
                } else {
                    let k = choose|i: int|
                        0 <= i < rest.len() && names_length(#[trigger] rest[i]) && number_in(
                            trimmed(rest[i].skip(colon(rest[i]) + 1)),
                            usize::MAX as nat,
                        ) == Ok::<nat, crate::text::ParseFailure>(n) && forall|j: int|
                            0 <= j < rest.len() && j != i ==> !names_length(#[trigger] rest[j]);
                    assert(names_length(lines[k + 1]));
                    assert forall|j: int| 0 <= j < lines.len() && j != k + 1 implies !names_length(
                        #[trigger] lines[j],
                    ) by {
                        if j > 0 {
                            assert(!names_length(rest[j - 1]));
                        }
                    }
                }
            },
            Err(_) => {},
        }
        if length_in(lines, found) is Ok {
            assert forall|i: int| 0 <= i < lines.len() && (#[trigger] lines[i]).len() > 0 implies colon(
                lines[i],
            ) < lines[i].len() by {
                if i > 0 {
                    assert(colon(rest[i - 1]) < rest[i - 1].len());
                }
            }
        }
        if forall|i: int|
            0 <= i < lines.len() ==> !names_length(#[trigger] lines[i]) && (lines[i].len() > 0
                ==> colon(lines[i]) < lines[i].len()) {
            assert(!names_length(lines[0]));
            assert forall|i: int| 0 <= i < rest.len() implies !names_length(#[trigger] rest[i]) && (
            rest[i].len() > 0 ==> colon(rest[i]) < rest[i].len()) by {
                assert(!names_length(lines[i + 1]));
            }
        }
    }
}

/// Whether the first head of some bytes ends there and names that status and that length.
pub open spec fn headed(bytes: Seq<u8>, at: int, status: nat, length: Option<nat>) -> bool {
    &&& head_end(bytes, 0) == Some(at)
    &&& 0 <= at <= bytes.len()
    &&& at <= 65_536
    &&& head_in(bytes.take(at)) == Ok::<(nat, Option<nat>), ApiErrorModel>((status, length))
}

/// A response with a body is read up to the length that its head names, and no further. It is a
/// success exactly with the statuses 200 and 204; with any other, the status and the body come out as
/// an error. More than a mebibyte, a missing byte or a byte too many is an error too.
pub proof fn law_body_is_of_the_named_length(
    endpoint: Seq<char>,
    bytes: Seq<u8>,
    at: int,
    status: nat,
    length: nat,
    rounds: nat,
)
    requires
        headed(bytes, at, status, Some(length)),
        status >= 200,
        status != 204,
        status != 304,
        rounds > 0,
    ensures
        ({
            let came = |end: StreamEnd, peeked: Peeked|
                response(endpoint, bytes, end, peeked, rounds);
            let body = bytes.skip(at);
            &&& length > 1_048_576 ==> (came(StreamEnd::Open, Peeked::NotYet) matches ProgressModel::Done(
                r,
            ) && r.result is Err)
            &&& length <= 1_048_576 && body.len() < length ==> {
                &&& came(StreamEnd::Open, Peeked::NotYet) == ProgressModel::Read(
                    length - body.len(),
                )
                &&& came(StreamEnd::Closed, Peeked::NotYet) matches ProgressModel::Done(r)
                    && r.result is Err
            }
            &&& length <= 1_048_576 && body.len() > length ==> (came(
                StreamEnd::Open,
                Peeked::NotYet,
            ) matches ProgressModel::Done(r) && r.result is Err)
            &&& length <= 1_048_576 && body.len() == length && valid_utf8(body) ==> {
                let text = decode_utf8(body);
                &&& came(StreamEnd::Open, Peeked::NotYet) == ProgressModel::Peek
                &&& status == 200 ==> came(StreamEnd::Open, Peeked::Silent) == ProgressModel::Done(
                    ResponseModel { result: Ok(Some(text)), reusable: true },
                )
                &&& status == 200 ==> came(StreamEnd::Closed, Peeked::NotYet)
                    == ProgressModel::Done(
                    ResponseModel { result: Ok(Some(text)), reusable: false },
                )
                &&& status != 200 ==> came(StreamEnd::Open, Peeked::Silent) == ProgressModel::Done(
                    ResponseModel {
                        result: Err(ApiErrorModel::ServerResponse(status_of(status), Some(text))),
                        reusable: true,
                    },
                )
                &&& came(StreamEnd::Open, Peeked::More) matches ProgressModel::Done(r)
                    && r.result is Err
            }
        }),
{
    let body = bytes.skip(at);
    reveal_with_fuel(response, 2);
    if body.len() >= length {
        if body.len() == length {
            assert(body.take(length as int) =~= body);
            assert(body.skip(length as int) =~= seq![]);
        } else {
            assert(body.skip(length as int).len() > 0);
        }
    }
}

/// A response that has no body ends with its head: success with 204, whose stream can be used again
/// only where the head names a length. A response that may have a body but names no length is
/// refused, except where the hypervisor was told to shut down.
pub proof fn law_response_without_a_length(
    endpoint: Seq<char>,
    bytes: Seq<u8>,
    at: int,
    status: nat,
    rounds: nat,
)
    requires
        headed(bytes, at, status, None),
        bytes.len() == at,
        status >= 200,
        rounds > 0,
    ensures
        ({
            let came = |end: StreamEnd, peeked: Peeked|
                response(endpoint, bytes, end, peeked, rounds);
            if status == 204 || status == 304 {
                &&& came(StreamEnd::Open, Peeked::NotYet) == ProgressModel::Peek
                &&& came(StreamEnd::Open, Peeked::Silent) == ProgressModel::Done(
                    ResponseModel {
                        result: if status == 204 {
                            Ok(None)
                        } else {
                            Err(ApiErrorModel::ServerResponse(StatusCode::Unknown, None))
                        },
                        reusable: false,
                    },
                )
            } else if endpoint == "vmm.shutdown"@ {
                came(StreamEnd::Open, Peeked::Silent) == ProgressModel::Done(
                    ResponseModel {
                        result: if status == 200 {
                            Ok(None)
                        } else {
                            Err(ApiErrorModel::ServerResponse(status_of(status), None))
                        },
                        reusable: false,
                    },
                )
            } else {
                came(StreamEnd::Open, Peeked::NotYet) matches ProgressModel::Done(r) && r.result is Err
                    && !r.reusable
            }
        }),
{
    reveal_with_fuel(response, 2);
    assert(bytes.skip(at) =~= seq![]);
}

/// An informational response is passed over, and what follows it is the response; after eight of them
/// no response is taken any more.
pub proof fn law_informational_responses_are_passed_over(
    endpoint: Seq<char>,
    bytes: Seq<u8>,
    at: int,
    status: nat,
    rounds: nat,
    end: StreamEnd,
    peeked: Peeked,
)
    requires
        headed(bytes, at, status, None),
        100 <= status < 200,
        rounds > 0,
    ensures
        response(endpoint, bytes, end, peeked, rounds) == response(
            endpoint,
            bytes.skip(at),
            end,
            peeked,
            (rounds - 1) as nat,
        ),
        response(endpoint, bytes, end, peeked, 0) matches ProgressModel::Done(r) && r.result is Err,
{
}

/// Once a request is sent as a whole, its response is read, in which eight heads are looked at; a
/// request that could not be sent has failed.
pub proof fn law_response_follows_the_request(
    method: Seq<char>,
    endpoint: Seq<char>,
    body: Option<Seq<char>>,
    with_fds: bool,
    received: Received,
    reason: String,
)
    ensures
        commanded(method, endpoint, body, with_fds, Sent::Whole, received) == StepModel::Receive(
            response(endpoint, received.bytes@, received.end, received.peeked, 8),
        ),
        commanded(
            method,
            endpoint,
            body,
            with_fds,
            Sent::Failed(reason),
            received,
        ) matches StepModel::Receive(ProgressModel::Done(r)) && r.result is Err,
{
}

/// A head that is not complete is read on, as long as it can still end within sixty-four kibibytes;
/// a stream that ends or a head that is longer is an error.
pub proof fn law_head_is_read_to_its_end(endpoint: Seq<char>, bytes: Seq<u8>, rounds: nat)
    requires
        head_end(bytes, 0) is None,
        rounds > 0,
    ensures
        bytes.len() < 65_536 ==> (response(
            endpoint,
            bytes,
            StreamEnd::Open,
            Peeked::NotYet,
            rounds,
        ) matches ProgressModel::Read(n) && 0 < n <= 4 && n <= 65_536 - bytes.len()),
        bytes.len() < 65_536 ==> (response(
            endpoint,
            bytes,
            StreamEnd::Closed,
            Peeked::NotYet,
            rounds,
        ) matches ProgressModel::Done(r) && r.result is Err),
        bytes.len() >= 65_536 ==> (response(
            endpoint,
            bytes,
            StreamEnd::Open,
            Peeked::NotYet,
            rounds,
        ) matches ProgressModel::Done(r) && r.result is Err),
{
}

/// The work on a command over an open stream goes step by step: the stream may wait twice as long as
/// the caller, the command leaves the queue, and then its request is sent. A command that cannot leave
/// the queue, or whose stream cannot be set up, was not dispatched.
pub proof fn law_command_is_worked_on_step_by_step(
    connection: ConnectionModel,
    request: RequestModel,
    timeout_ms: u32,
    failed: WorkerEvent,
    came: WorkerEvent,
)
    requires
        connection.open,
        failed is Failed,
        came is Came,
    ensures
        ({
            let run = |events: Seq<WorkerEvent>|
                worked(connection, request, seq![], timeout_ms, events).1;
            let done = WorkerEvent::Done;
            &&& run(seq![]) == WorkerFlow::Waiting(
                WorkerModel::SetReadTimeout((2 * timeout_ms) as u64),
            )
            &&& run(seq![done]) == WorkerFlow::Waiting(
                WorkerModel::SetWriteTimeout((2 * timeout_ms) as u64),
            )
            &&& run(seq![done, done]) == WorkerFlow::Waiting(WorkerModel::Dispatch)
            &&& run(seq![done, done, done]) == WorkerFlow::Waiting(WorkerModel::Exchange(request))
            &&& run(seq![failed]) matches WorkerFlow::Done(Err(error)) && never_dispatched(error)
            &&& run(seq![done, failed]) matches WorkerFlow::Done(Err(error)) && never_dispatched(
                error,
            )
            &&& run(seq![done, done, WorkerEvent::Denied]) matches WorkerFlow::Done(Err(error))
                && never_dispatched(error)
            &&& run(seq![done, done, done, came]) is Done
        }),
{
    let done = WorkerEvent::Done;
    lemma_says_not_dispatched(request);
    let run = |events: Seq<WorkerEvent>| worked(connection, request, seq![], timeout_ms, events).1;
    assert(run(seq![failed])->Done_0->Err_0[0] is NotDispatched);
    assert(run(seq![done, failed])->Done_0->Err_0[0] is NotDispatched);
    assert(run(seq![done, done, WorkerEvent::Denied])->Done_0->Err_0[0] is NotDispatched);
}

proof fn lemma_says_not_dispatched(request: RequestModel)
    ensures
        forall|source: ErrorModel|
            never_dispatched(
                #[trigger] not_dispatched(request.method, request.endpoint, source),
            ),
{
    assert forall|source: ErrorModel| never_dispatched(
        #[trigger] not_dispatched(request.method, request.endpoint, source),
    ) by {
        assert(not_dispatched(request.method, request.endpoint, source)[0] is NotDispatched);
    }
}

/// Each descriptor is duplicated before anything else is done, in order, and a closed stream is opened
/// again where its path is known; without a path the command was not dispatched.
pub proof fn law_descriptors_and_stream_come_first(
    connection: ConnectionModel,
    request: RequestModel,
    fds: Seq<i32>,
    timeout_ms: u32,
    done: nat,
)
    ensures
        ({
            let events = Seq::new(done, |i: int| WorkerEvent::Done);
            let (after, came) = worked(connection, request, fds, timeout_ms, events);
            if done < fds.len() {
                came == WorkerFlow::Waiting(WorkerModel::Duplicate(fds[done as int]))
            } else if !connection.open && connection.socket_path is None {
                came matches WorkerFlow::Done(Err(error)) && never_dispatched(error)
            } else if !connection.open && done == fds.len() {
                came == WorkerFlow::Waiting(WorkerModel::Connect(connection.socket_path->0))
            } else {
                let steps = done - fds.len() - if connection.open {
                    0int
                } else {
                    1int
                };
                &&& steps == 0 ==> came == WorkerFlow::Waiting(
                    WorkerModel::SetReadTimeout((2 * timeout_ms) as u64),
                )
                &&& steps == 1 ==> came == WorkerFlow::Waiting(
                    WorkerModel::SetWriteTimeout((2 * timeout_ms) as u64),
                )
                &&& steps == 2 ==> came == WorkerFlow::Waiting(WorkerModel::Dispatch)
                &&& steps == 3 ==> came == WorkerFlow::Waiting(WorkerModel::Exchange(request))
            }
        }),
    decreases fds.len(),
{
    let events = Seq::new(done, |i: int| WorkerEvent::Done);
    if done > 0 {
        let fewer = Seq::new((done - 1) as nat, |i: int| WorkerEvent::Done);
        assert(events.drop_first() =~= fewer);
        if fds.len() > 0 {
            law_descriptors_and_stream_come_first(
                connection,
                request,
                fds.drop_first(),
                timeout_ms,
                (done - 1) as nat,
            );
        }
    }
    if fds.len() == 0 && !connection.open && connection.socket_path is None {
        lemma_says_not_dispatched(request);
        let error = worked(connection, request, fds, timeout_ms, events).1->Done_0->Err_0;
        assert(error[0] is NotDispatched);
    }
}

/// What the hypervisor answered is what the caller gets: the body of a success, or the status of a
/// refusal. The stream stays open exactly where the response leaves it usable, and is closed after
/// anything that is no response.
pub proof fn law_answer_is_handed_on(
    method: Seq<char>,
    endpoint: Seq<char>,
    response: crate::ch::http::Response,
)
    ensures
        ({
            let (open, result) = exchanged(method, endpoint, WorkerEvent::Came(response));
            match response.result {
                Ok(body) => open == response.reusable && result == Ok::<
                    Option<Seq<char>>,
                    ErrorModel,
                >(body.deep_view()),
                Err(crate::ch::http::ApiError::ServerResponse(status, _)) => open
                    == response.reusable && (result matches Err(error) && server_status(error)
                    == Some(status)),
                Err(_) => !open && (result matches Err(error) && server_status(error) is None),
            }
        }),
        !exchanged(method, endpoint, WorkerEvent::Panicked).0,
        exchanged(method, endpoint, WorkerEvent::Panicked).1 is Err,
{
    let p = |l: LayerModel| l is ServerResponse || crate::error::opens_causes(l);
    if let Err(error) = response.result {
        let shown = exchanged(method, endpoint, WorkerEvent::Came(response)).1->Err_0;
        match error {
            crate::ch::http::ApiError::ServerResponse(status, body) => {
                crate::error::lemma_first_layer_is(shown, p, 0);
            },
            _ => {
                crate::error::lemma_first_layer(shown, p);
            },
        }
    }
}

/// A caller whose time is up is told whether its command was sent: one that is still in the queue was
/// not, and says so; of one that is on its way nothing is said. Otherwise the caller is told what came
/// of the command.
pub proof fn law_caller_is_told(
    state: CommandState,
    method: Seq<char>,
    endpoint: Seq<char>,
    timeout_ms: u32,
    result: Result<Option<String>, crate::error::Error>,
)
    ensures
        caller_told(state, method, endpoint, timeout_ms, CallerEvent::Joined(result))
            == crate::qmp::session::outcome(result),
        caller_told(
            state,
            method,
            endpoint,
            timeout_ms,
            CallerEvent::TimedOut,
        ) matches Err(error) && (never_dispatched(error) <==> state == CommandState::Queued),
{
    let error = caller_told(state, method, endpoint, timeout_ms, CallerEvent::TimedOut)->Err_0;
    if state == CommandState::Queued {
        assert(error[0] is NotDispatched);
    } else {
        assert(error.len() == 1 && !(error[0] is NotDispatched));
    }
}

/// A device that the hypervisor does not know is gone; any other refusal of its removal stands.
pub proof fn law_unknown_device_is_removed(result: Result<Option<Seq<char>>, ErrorModel>)
    ensures
        result is Ok ==> removal_of(result) == result,
        result matches Err(error) ==> {
            &&& server_status(error) == Some(StatusCode::NotFound) ==> removal_of(result) is Ok
            &&& server_status(error) != Some(StatusCode::NotFound) ==> removal_of(result) == result
        },
{
}

/// A device on the root bus is found again from its address: the slot that the address names, in
/// hexadecimal.
pub proof fn law_root_bus_address_is_read(slot: u8)
    requires
        slot < 32,
    ensures
        bdf_path("0000:00:"@ + zero_padded(hex(slot as nat), 2) + ".0"@) == Ok::<
            Seq<u8>,
            ErrorModel,
        >(seq![slot]),
{
    let digits = zero_padded(hex(slot as nat), 2);
    reveal_with_fuel(crate::text::digits, 3);
    let high = crate::text::digit_char(slot as int / 16);
    let low = crate::text::digit_char(slot as int % 16);
    if slot < 16 {
        assert(hex(slot as nat) =~= seq![low]);
        assert(digits =~= seq!['0', low]);
    } else {
        assert(slot / 16 == 1);
        assert(hex(slot as nat) =~= seq![high, low]);
        assert(digits =~= seq![high, low]);
    }
    reveal_strlit("0000:00:");
    reveal_strlit(".0");
    reveal_strlit("0000");
    reveal_strlit("00");
    reveal_strlit("0");
    let last = digits + ".0"@;
    let tokens = seq!["0000"@, "00"@, last];
    assert(tokens.drop_last() =~= seq!["0000"@, "00"@]);
    assert(tokens.drop_last().drop_last() =~= seq!["0000"@]);
    reveal_with_fuel(crate::text::joined, 4);
    assert(crate::text::joined(tokens, seq![':']) =~= "0000:00:"@ + digits + ".0"@);
    assert forall|i: int| 0 <= i < tokens.len() implies !(#[trigger] tokens[i]).contains(':') by {
        if i == 2 {
            assert(last =~= seq![digits[0], digits[1], '.', '0']);
        }
    }
    law_split_undoes_join(tokens, ':');
    let parts = seq![digits, "0"@];
    assert(parts.drop_last() =~= seq![digits]);
    assert(crate::text::joined(parts, seq!['.']) =~= last);
    assert forall|i: int| 0 <= i < parts.len() implies !(#[trigger] parts[i]).contains('.') by {}
    law_split_undoes_join(parts, '.');
    crate::pci_path::law_path_text_round_trip(seq![slot]);
    lemma_two_bytes(digits);
    let numbers = seq![slot].map_values(|slot: u8| slot as int);
    assert(numbers =~= seq![slot as int]);
    assert(numbers.map_values(|slot: int| zero_padded(hex(slot as nat), 2)) =~= seq![digits]);
    assert(crate::pci_path::slots_text(numbers) == digits);
}

proof fn lemma_two_bytes(digits: Seq<char>)
    requires
        digits.len() == 2,
        '0' <= digits[0] <= 'f',
        '0' <= digits[1] <= 'f',
    ensures
        encode_utf8(digits).len() == 2,
{
    assert forall|i: int| 0 <= i < digits.len() implies '\0' <= #[trigger] digits[i]
        <= '\u{7f}' by {
        if i == 1 {
            assert('0' <= digits[1] <= 'f');
        } else {
            assert('0' <= digits[0] <= 'f');
        }
    }
    vstd::utf8::is_ascii_chars_encode_utf8(digits);
}

/// A command that waits can be sent or given up, whichever comes first, and after that it is the other's
/// no more. One that is finished stays so, and letting go of one that was answered changes nothing.
pub proof fn law_command_is_sent_or_given_up(c: CommandOwnership)
    requires
        c.state == CommandState::Queued,
        !c.completed,
    ensures
        ({
            let sent = moved(c, CommandMove::Dispatch);
            let given_up = moved(c, CommandMove::Abandon);
            let let_go = moved(c, CommandMove::Release);
            let finished = moved(sent, CommandMove::Finish);
            &&& sent.state == CommandState::Dispatched && !sent.completed
            &&& given_up.state == CommandState::Abandoned && given_up.completed
            &&& let_go.state == CommandState::Abandoned && !let_go.completed
            &&& finished.state == CommandState::Finished && finished.completed
            &&& moved(sent, CommandMove::Abandon).state == CommandState::Dispatched
            &&& moved(sent, CommandMove::Release) == sent
            &&& moved(given_up, CommandMove::Dispatch) == given_up
            &&& moved(let_go, CommandMove::Dispatch) == let_go
            &&& moved(finished, CommandMove::Dispatch) == finished
            &&& moved(finished, CommandMove::Abandon) == finished
            &&& moved(finished, CommandMove::Release) == finished
            &&& moved(
                CommandOwnership { completed: true, ..c },
                CommandMove::Release,
            ).state == CommandState::Queued
        }),
{
}

/// The status of an answer is found in the error of it, and no other failure of a command has one. A
/// command that never went out is told from one that did.
pub proof fn law_failed_command_is_told_apart(
    error: ApiErrorModel,
    method: Seq<char>,
    endpoint: Seq<char>,
    source: ErrorModel,
)
    ensures
        server_status(api_error(error)) == match error {
            ApiErrorModel::ServerResponse(status, _) => Some(status),
            _ => None,
        },
        !never_dispatched(api_error(error)),
        never_dispatched(not_dispatched(method, endpoint, source)),
        not_dispatched(method, endpoint, source).skip(1) == source,
        error_text(not_dispatched(method, endpoint, source)) == "Cloud Hypervisor API "@ + method
            + " "@ + endpoint + " was not dispatched: "@ + error_text(source),
{
    let answers = |l: LayerModel| l is ServerResponse || opens_causes(l);
    lemma_first_layer(api_error(error), answers);
    assert(answers(api_error(error)[0]) <==> error is ServerResponse || opens_causes(
        api_error(error)[0],
    ));
    let lost = not_dispatched(method, endpoint, source);
    assert(lost[0] is NotDispatched);
    assert(lost.skip(1) =~= source);
}

proof fn lemma_head_end(bytes: Seq<u8>, from: int)
    requires
        0 <= from,
    ensures
        match head_end(bytes, from) {
            Some(end) => from <= end && 4 <= end <= bytes.len() && bytes.subrange(end - 4, end)
                == seq![13u8, 10, 13, 10] && forall|k: int|
                from <= k < end && 4 <= k ==> #[trigger] bytes.subrange(k - 4, k) != seq![
                    13u8,
                    10,
                    13,
                    10,
                ],
            None => forall|k: int|
                from <= k <= bytes.len() && 4 <= k ==> #[trigger] bytes.subrange(k - 4, k) != seq![
                    13u8,
                    10,
                    13,
                    10,
                ],
        },
    decreases bytes.len() + 1 - from,
{
    if from <= bytes.len() {
        let blank = seq![13u8, 10, 13, 10];
        if 4 <= from {
            let last = bytes.subrange(from - 4, from);
            assert(last[0] == bytes[from - 4] && last[1] == bytes[from - 3] && last[2]
                == bytes[from - 2] && last[3] == bytes[from - 1]);
            if blank_line_ends_at(bytes, from) {
                assert(last =~= blank);
            } else if last == blank {
                assert(blank_line_ends_at(bytes, from));
            }
        }
        if !blank_line_ends_at(bytes, from) {
            lemma_head_end(bytes, from + 1);
        }
    }
}

/// A head ends behind its first blank line, and is not complete without one.
pub proof fn law_head_ends_at_the_first_blank_line(bytes: Seq<u8>)
    ensures
        match head_end(bytes, 0) {
            Some(end) => 4 <= end <= bytes.len() && bytes.subrange(end - 4, end) == seq![
                13u8,
                10,
                13,
                10,
            ] && forall|k: int|
                4 <= k < end ==> #[trigger] bytes.subrange(k - 4, k) != seq![13u8, 10, 13, 10],
            None => forall|k: int|
                4 <= k <= bytes.len() ==> #[trigger] bytes.subrange(k - 4, k) != seq![
                    13u8,
                    10,
                    13,
                    10,
                ],
        },
{
    lemma_head_end(bytes, 0);
}

/// A line ends at the first carriage return with a line feed behind it, or with the text.
pub proof fn law_line_ends_at_the_first_break(s: Seq<char>)
    ensures
        ({
            let at = line_end(s);
            &&& 0 <= at <= s.len()
            &&& at < s.len() ==> at + 1 < s.len() && s[at] == '\r' && s[at + 1] == '\n'
            &&& forall|j: int| 0 <= j < at && j + 1 < s.len() ==> !(#[trigger] s[j] == '\r' && s[j
                + 1] == '\n')
        }),
    decreases s.len(),
{
    if s.len() >= 2 && !(s[0] == '\r' && s[1] == '\n') {
        let rest = s.drop_first();
        law_line_ends_at_the_first_break(rest);
        assert forall|j: int| 0 <= j < line_end(s) && j + 1 < s.len() implies !(#[trigger] s[j]
            == '\r' && s[j + 1] == '\n') by {
            if j > 0 {
                assert(rest[j - 1] == s[j]);
            }
        }
    }
}

/// A stream that the hypervisor has closed is not used for another command once a success was read from
/// it.
pub proof fn law_closed_stream_is_not_used_again(
    endpoint: Seq<char>,
    bytes: Seq<u8>,
    peeked: Peeked,
    rounds: nat,
)
    ensures
        response(endpoint, bytes, StreamEnd::Open, Peeked::Closed, rounds) matches ProgressModel::Done(
            r,
        ) ==> (r.result is Ok ==> !r.reusable),
        response(endpoint, bytes, StreamEnd::Closed, peeked, rounds) matches ProgressModel::Done(r)
            ==> (r.result is Ok ==> !r.reusable),
    decreases rounds,
{
    if rounds > 0 {
        if let Some(at) = head_end(bytes, 0) {
            law_closed_stream_is_not_used_again(
                endpoint,
                bytes.skip(at),
                peeked,
                (rounds - 1) as nat,
            );
        }
    }
}

proof fn lemma_decimal_digits(n: nat)
    ensures
        digits(n, 10).len() > 0,
        forall|i: int| 0 <= i < digits(n, 10).len() ==> '0' <= #[trigger] digits(n, 10)[i] <= '9',
    decreases n,
{
    if n >= 10 {
        lemma_decimal_digits(n / 10);
    }
}

proof fn lemma_word_before_space(word: Seq<char>, rest: Seq<char>)
    requires
        forall|i: int| 0 <= i < word.len() ==> '0' <= #[trigger] word[i] <= '9',
    ensures
        until_space(word + seq![' '] + rest) == word,
    decreases word.len(),
{
    let all = word + seq![' '] + rest;
    if word.len() > 0 {
        let behind = word.drop_first();
        assert(all.drop_first() =~= behind + seq![' '] + rest);
        assert forall|i: int| 0 <= i < behind.len() implies '0' <= #[trigger] behind[i] <= '9' by {
            assert(behind[i] == word[i + 1]);
        }
        lemma_word_before_space(behind, rest);
        assert(all[0] == word[0]);
        assert(seq![word[0]] + behind =~= word);
    } else {
        assert(all[0] == ' ');
    }
}

/// The status of a response is the number behind the protocol in its first line, and a line that does
/// not begin with the protocol has none.
pub proof fn law_status_stands_behind_the_protocol(status: nat, reason: Seq<char>, line: Seq<char>)
    requires
        status <= usize::MAX,
    ensures
        status_in("HTTP/1.1 "@ + (dec(status as int) + seq![' '] + reason)) == Ok::<
            nat,
            ApiErrorModel,
        >(status),
        !begins_with(line, "HTTP/1.1 "@) ==> status_in(line) == Err::<nat, ApiErrorModel>(
            ApiErrorModel::MissingProtocol,
        ),
{
    let word = dec(status as int);
    let behind = word + seq![' '] + reason;
    lemma_decimal_digits(status);
    law_prefix_is_taken_off("HTTP/1.1 "@, behind);
    assert(behind[0] == word[0]);
    assert('0' <= word[0] <= '9');
    assert(trimmed_front(behind) == behind);
    lemma_word_before_space(word, reason);
    law_decimal_text_is_read_back(status, usize::MAX as nat);
}

/// A head that is not text is refused. One that is has the status of its first line, and the length
/// that the lines behind it name.
pub proof fn law_head_tells_status_and_length(
    head: Seq<u8>,
    first: Seq<char>,
    others: Seq<Seq<char>>,
    status: nat,
    length: Option<nat>,
)
    requires
        lines_of(decode_utf8(head)) == seq![first] + others,
        status_in(first) == Ok::<nat, ApiErrorModel>(status),
        length_in(others, None) == Ok::<Option<nat>, ApiErrorModel>(length),
    ensures
        valid_utf8(head) ==> head_in(head) == Ok::<(nat, Option<nat>), ApiErrorModel>(
            (status, length),
        ),
        !valid_utf8(head) ==> head_in(head) is Err,
{
    assert((seq![first] + others).drop_first() =~= others);
}

} // verus!
