//! Requests to the Cloud Hypervisor API and the framing of its responses.
use crate::error::StatusCode;
use crate::text::{
    cat2, cat3, cat4, chars_of, dec, dec_u64, debug_text, equal_but_case, first_word, number,
    number_in, parse_number, quoted, same, same_but_case, strip_prefix, text_of, trim, trimmed,
    trimmed_front, until_space, after_prefix, ParseFailure, sub_chars,
};
use vstd::prelude::*;
use vstd::slice::{slice_subrange, slice_to_vec};
use vstd::utf8::{decode_utf8, encode_utf8, valid_utf8};

verus! {

/// The error with which bytes are refused that are not UTF-8.
#[verifier::external_type_specification]
#[verifier::external_body]
pub struct ExUtf8Error(std::str::Utf8Error);

/// `std::str::from_utf8` gives the text whose UTF-8 encoding the bytes are, and refuses exactly
/// the bytes that are no such encoding.
pub assume_specification[ std::str::from_utf8 ](v: &[u8]) -> (r: Result<
    &str,
    std::str::Utf8Error,
>)
    ensures
        r is Ok <==> valid_utf8(v@),
        r matches Ok(s) ==> encode_utf8(s@) == v@,
;

/// The most bytes that the head of a response may have.
pub const MAX_HTTP_HEADER_SIZE: usize = 65_536;

/// The most bytes that the body of a response may have.
pub const MAX_HTTP_BODY_SIZE: u64 = 1_048_576;

/// The most informational responses that are passed over before the real one, and one more.
pub const MAX_HTTP_ROUNDS: u32 = 8;

/// The part of a request with which its descriptors travel.
pub open spec fn request_line(method: Seq<char>, endpoint: Seq<char>) -> Seq<char> {
    method + " /api/v1/"@ + endpoint + " HTTP/1.1\r\nHost: localhost\r\nAccept: */*\r\n"@
}

/// The text of a request.
pub open spec fn request_text(method: Seq<char>, endpoint: Seq<char>, body: Option<Seq<char>>) -> Seq<
    char,
> {
    let head = request_line(method, endpoint);
    match body {
        None => head + "\r\n"@,
        Some(body) => head + "Content-Length: "@ + dec(encode_utf8(body).len() as int) + "\r\n"@
            + "\r\n"@ + body,
    }
}

fn line_of_request(method: &str, endpoint: &str) -> (r: String)
    ensures
        r@ == request_line(method@, endpoint@),
{
    cat4(method, " /api/v1/", endpoint, " HTTP/1.1\r\nHost: localhost\r\nAccept: */*\r\n")
}

/// The text of a request.
pub fn request(method: &str, endpoint: &str, body: Option<&str>) -> (r: String)
    ensures
        r@ == request_text(
            method@,
            endpoint@,
            match body {
                Some(body) => Some(body@),
                None => None,
            },
        ),
{
    let head = line_of_request(method, endpoint);
    match body {
        None => head.concat("\r\n"),
        Some(body) => {
            let length: usize = body.as_bytes().len();
            head.concat("Content-Length: ").concat(dec_u64(length as u64).as_str()).concat(
                "\r\n",
            ).concat("\r\n").concat(body)
        },
    }
}

/// Why a request has no usable response.
#[derive(Clone, Debug)]
pub enum ApiError {
    /// The socket failed, or what came over it is not a response.
    Socket(String),
    /// The response does not begin with the protocol and a status.
    MissingProtocol,
    /// The status is not a number.
    StatusCodeParsing(ParseFailure),
    /// The length of the body is not a number.
    ContentLengthParsing(ParseFailure),
    /// The server answered with a status other than success.
    ServerResponse(StatusCode, Option<String>),
}

/// The model of an [`ApiError`].
pub enum ApiErrorModel {
    Socket(Seq<char>),
    MissingProtocol,
    StatusCodeParsing(ParseFailure),
    ContentLengthParsing(ParseFailure),
    ServerResponse(StatusCode, Option<Seq<char>>),
}

impl DeepView for ApiError {
    type V = ApiErrorModel;

    open spec fn deep_view(&self) -> ApiErrorModel {
        match *self {
            ApiError::Socket(text) => ApiErrorModel::Socket(text@),
            ApiError::MissingProtocol => ApiErrorModel::MissingProtocol,
            ApiError::StatusCodeParsing(failure) => ApiErrorModel::StatusCodeParsing(failure),
            ApiError::ContentLengthParsing(failure) => ApiErrorModel::ContentLengthParsing(failure),
            ApiError::ServerResponse(status, body) => ApiErrorModel::ServerResponse(
                status,
                body.deep_view(),
            ),
        }
    }
}

/// How the stream of a response stands after the bytes that came over it.
#[derive(Clone, Debug)]
pub enum StreamEnd {
    /// More bytes may come.
    Open,
    /// The peer has closed the stream.
    Closed,
    /// Reading failed.
    Failed(String),
}

/// What a look at the stream behind a response found.
#[derive(Clone, Debug)]
pub enum Peeked {
    /// Nobody looked yet.
    NotYet,
    /// The peer has closed the stream.
    Closed,
    /// Nothing is there.
    Silent,
    /// More bytes are there.
    More,
    /// The look failed.
    Failed(String),
}

/// What has come of a response so far.
#[derive(Clone, Debug)]
pub struct Received {
    pub bytes: Vec<u8>,
    pub end: StreamEnd,
    pub peeked: Peeked,
}

/// A response that is there in full, or why there is none; and whether the stream can carry
/// another request.
#[derive(Debug)]
pub struct Response {
    pub result: Result<Option<String>, ApiError>,
    pub reusable: bool,
}

/// The model of a [`Response`].
pub struct ResponseModel {
    pub result: Result<Option<Seq<char>>, ApiErrorModel>,
    pub reusable: bool,
}

impl DeepView for Response {
    type V = ResponseModel;

    open spec fn deep_view(&self) -> ResponseModel {
        ResponseModel {
            result: match self.result {
                Ok(body) => Ok(body.deep_view()),
                Err(error) => Err(error.deep_view()),
            },
            reusable: self.reusable,
        }
    }
}

/// How far the reading of a response has come.
#[derive(Debug)]
pub enum Progress {
    /// Up to that many more bytes are to be read.
    Read(usize),
    /// A look behind the response is due.
    Peek,
    /// The response is there.
    Done(Response),
}

/// The model of a [`Progress`].
pub enum ProgressModel {
    Read(int),
    Peek,
    Done(ResponseModel),
}

impl DeepView for Progress {
    type V = ProgressModel;

    open spec fn deep_view(&self) -> ProgressModel {
        match *self {
            Progress::Read(n) => ProgressModel::Read(n as int),
            Progress::Peek => ProgressModel::Peek,
            Progress::Done(response) => ProgressModel::Done(response.deep_view()),
        }
    }
}

pub open spec fn failed(error: ApiErrorModel, reusable: bool) -> ProgressModel {
    ProgressModel::Done(ResponseModel { result: Err(error), reusable })
}

/// The status that a number stands for.
pub open spec fn status_of(code: nat) -> StatusCode {
    if code == 100 {
        StatusCode::Continue
    } else if code == 200 {
        StatusCode::Success
    } else if code == 204 {
        StatusCode::NoContent
    } else if code == 400 {
        StatusCode::BadRequest
    } else if code == 404 {
        StatusCode::NotFound
    } else if code == 429 {
        StatusCode::TooManyRequests
    } else if code == 500 {
        StatusCode::InternalServerError
    } else if code == 501 {
        StatusCode::NotImplemented
    } else {
        StatusCode::Unknown
    }
}

/// The status that a number stands for.
pub fn status_code_from_raw(code: u64) -> (r: StatusCode)
    ensures
        r == status_of(code as nat),
{
    match code {
        100 => StatusCode::Continue,
        200 => StatusCode::Success,
        204 => StatusCode::NoContent,
        400 => StatusCode::BadRequest,
        404 => StatusCode::NotFound,
        429 => StatusCode::TooManyRequests,
        500 => StatusCode::InternalServerError,
        501 => StatusCode::NotImplemented,
        _ => StatusCode::Unknown,
    }
}

/// Whether an empty line ends at `end`.
pub open spec fn blank_line_ends_at(bytes: Seq<u8>, end: int) -> bool {
    4 <= end <= bytes.len() && bytes[end - 4] == 13 && bytes[end - 3] == 10 && bytes[end - 2] == 13
        && bytes[end - 1] == 10
}

/// Where the first empty line from `end` on ends; none where there is none.
pub open spec fn head_end(bytes: Seq<u8>, end: int) -> Option<int>
    decreases bytes.len() + 1 - end,
{
    if end > bytes.len() {
        None
    } else if blank_line_ends_at(bytes, end) {
        Some(end)
    } else {
        head_end(bytes, end + 1)
    }
}

/// How many bytes an unfinished head still needs at least.
pub open spec fn missing(bytes: Seq<u8>) -> int {
    let n = bytes.len() as int;
    if n >= 3 && bytes[n - 3] == 13 && bytes[n - 2] == 10 && bytes[n - 1] == 13 {
        1
    } else if n >= 2 && bytes[n - 2] == 13 && bytes[n - 1] == 10 {
        2
    } else if n >= 1 && bytes[n - 1] == 13 {
        3
    } else {
        4
    }
}

/// `s` cut at each line end.
pub open spec fn lines_of(s: Seq<char>) -> Seq<Seq<char>>
    decreases s.len(),
{
    let at = line_end(s);
    if at >= s.len() {
        seq![s]
    } else {
        proof {
            lemma_line_end(s);
        }
        seq![s.take(at)] + lines_of(s.skip(at + 2))
    }
}

/// Where the first line of `s` ends; the length where there is no line end.
pub open spec fn line_end(s: Seq<char>) -> int
    decreases s.len(),
{
    if s.len() < 2 {
        s.len() as int
    } else if s[0] == '\r' && s[1] == '\n' {
        0
    } else {
        1 + line_end(s.drop_first())
    }
}

/// The status in the first line of a head.
pub open spec fn status_in(line: Seq<char>) -> Result<nat, ApiErrorModel> {
    match after_prefix(line, "HTTP/1.1 "@) {
        None => Err(ApiErrorModel::MissingProtocol),
        Some(rest) => {
            let word = until_space(trimmed_front(rest));
            if word.len() == 0 {
                Err(ApiErrorModel::MissingProtocol)
            } else {
                match number_in(word, usize::MAX as nat) {
                    Ok(status) => Ok(status),
                    Err(failure) => Err(ApiErrorModel::StatusCodeParsing(failure)),
                }
            }
        },
    }
}

/// Where the first colon is; the length where there is none.
pub open spec fn colon(line: Seq<char>) -> int {
    crate::qmp::fdset::index_of_char(line, ':')
}

/// The length of the body that the header lines name, each at most once. `found` was named before.
pub open spec fn length_in(lines: Seq<Seq<char>>, found: Option<nat>) -> Result<
    Option<nat>,
    ApiErrorModel,
>
    decreases lines.len(),
{
    if lines.len() == 0 {
        Ok(found)
    } else {
        let line = lines[0];
        let at = colon(line);
        if line.len() == 0 {
            length_in(lines.drop_first(), found)
        } else if at >= line.len() {
            Err(ApiErrorModel::Socket("invalid HTTP header "@ + debug_text(line)))
        } else if !same_but_case(trimmed(line.take(at)), "content-length"@) {
            length_in(lines.drop_first(), found)
        } else if found is Some {
            Err(ApiErrorModel::Socket("duplicate HTTP Content-Length header"@))
        } else {
            match number_in(trimmed(line.skip(at + 1)), usize::MAX as nat) {
                Ok(length) => length_in(lines.drop_first(), Some(length)),
                Err(failure) => Err(ApiErrorModel::ContentLengthParsing(failure)),
            }
        }
    }
}

/// The status and the length of the body that a head names.
pub open spec fn head_in(head: Seq<u8>) -> Result<(nat, Option<nat>), ApiErrorModel> {
    if !valid_utf8(head) {
        Err(ApiErrorModel::Socket("HTTP response headers are not UTF-8"@))
    } else {
        let lines = lines_of(decode_utf8(head));
        match status_in(lines[0]) {
            Err(error) => Err(error),
            Ok(status) => match length_in(lines.drop_first(), None) {
                Err(error) => Err(error),
                Ok(length) => Ok((status, length)),
            },
        }
    }
}

pub open spec fn is_informational(status: nat) -> bool {
    100 <= status < 200
}

pub open spec fn forbids_body(status: nat) -> bool {
    is_informational(status) || status == 204 || status == 304
}

/// The last part of a response: nothing may follow it, and its status decides.
pub open spec fn concluded(
    rest: Seq<u8>,
    end: StreamEnd,
    peeked: Peeked,
    status: nat,
    body: Option<Seq<char>>,
    reusable: bool,
) -> ProgressModel {
    let verdict = |reusable: bool|
        ProgressModel::Done(
            ResponseModel {
                result: if status_of(status) == StatusCode::Success || status_of(status)
                    == StatusCode::NoContent {
                    Ok(body)
                } else {
                    Err(ApiErrorModel::ServerResponse(status_of(status), body))
                },
                reusable,
            },
        );
    if rest.len() > 0 {
        failed(ApiErrorModel::Socket("HTTP response has bytes beyond Content-Length"@), reusable)
    } else if end is Closed {
        verdict(false)
    } else {
        match peeked {
            Peeked::NotYet => ProgressModel::Peek,
            Peeked::Closed => verdict(false),
            Peeked::Silent => verdict(reusable),
            Peeked::More => failed(
                ApiErrorModel::Socket("HTTP response has bytes beyond Content-Length"@),
                reusable,
            ),
            Peeked::Failed(text) => failed(ApiErrorModel::Socket(text@), reusable),
        }
    }
}

/// The body of a response of that length, and what follows it.
pub open spec fn body_read(
    rest: Seq<u8>,
    end: StreamEnd,
    peeked: Peeked,
    status: nat,
    length: nat,
) -> ProgressModel {
    if length > MAX_HTTP_BODY_SIZE {
        failed(
            ApiErrorModel::Socket(
                "HTTP response body exceeds "@ + dec(MAX_HTTP_BODY_SIZE as int) + " bytes"@,
            ),
            true,
        )
    } else if rest.len() < length {
        match end {
            StreamEnd::Open => ProgressModel::Read(length - rest.len()),
            StreamEnd::Closed => failed(
                ApiErrorModel::Socket(
                    "HTTP body does not match Content-Length: failed to fill whole buffer"@,
                ),
                true,
            ),
            StreamEnd::Failed(text) => failed(
                ApiErrorModel::Socket("HTTP body does not match Content-Length: "@ + text@),
                true,
            ),
        }
    } else if !valid_utf8(rest.take(length as int)) {
        failed(ApiErrorModel::Socket("HTTP response body is not UTF-8"@), true)
    } else {
        concluded(
            rest.skip(length as int),
            end,
            peeked,
            status,
            Some(decode_utf8(rest.take(length as int))),
            true,
        )
    }
}

/// What follows the head of a response that is not informational.
pub open spec fn after_head(
    endpoint: Seq<char>,
    rest: Seq<u8>,
    end: StreamEnd,
    peeked: Peeked,
    status: nat,
    length: Option<nat>,
) -> ProgressModel {
    if forbids_body(status) {
        concluded(rest, end, peeked, status, None, length is Some)
    } else {
        match length {
            Some(length) => body_read(rest, end, peeked, status, length),
            None => if endpoint == "vmm.shutdown"@ {
                concluded(rest, end, peeked, status, None, false)
            } else {
                failed(
                    ApiErrorModel::Socket(
                        "HTTP response permits a body but has no Content-Length"@,
                    ),
                    false,
                )
            },
        }
    }
}

/// A response in the bytes that have come. Informational responses are passed over, `rounds` heads
/// at most are looked at.
pub open spec fn response(
    endpoint: Seq<char>,
    bytes: Seq<u8>,
    end: StreamEnd,
    peeked: Peeked,
    rounds: nat,
) -> ProgressModel
    decreases rounds,
{
    if rounds == 0 {
        failed(ApiErrorModel::Socket("too many informational HTTP responses"@), true)
    } else {
        match head_end(bytes, 0) {
            Some(at) if at <= MAX_HTTP_HEADER_SIZE => match head_in(bytes.take(at)) {
                Err(error) => failed(error, true),
                Ok((status, length)) => if forbids_body(status) && length is Some && length->0
                    != 0 {
                    failed(
                        ApiErrorModel::Socket(
                            "HTTP status "@ + dec(status as int) + " forbids a response body"@,
                        ),
                        true,
                    )
                } else if is_informational(status) {
                    response(endpoint, bytes.skip(at), end, peeked, (rounds - 1) as nat)
                } else {
                    after_head(endpoint, bytes.skip(at), end, peeked, status, length)
                },
            },
            _ => if bytes.len() >= MAX_HTTP_HEADER_SIZE {
                failed(ApiErrorModel::Socket("HTTP response headers exceed 64 KiB"@), true)
            } else {
                match end {
                    StreamEnd::Open => ProgressModel::Read(
                        if missing(bytes) <= MAX_HTTP_HEADER_SIZE - bytes.len() {
                            missing(bytes)
                        } else {
                            MAX_HTTP_HEADER_SIZE - bytes.len()
                        },
                    ),
                    StreamEnd::Closed => failed(
                        ApiErrorModel::Socket("HTTP response ended before complete headers"@),
                        true,
                    ),
                    StreamEnd::Failed(text) => failed(ApiErrorModel::Socket(text@), true),
                }
            },
        }
    }
}

fn invalid_http(message: &str) -> (r: ApiError)
    ensures
        r.deep_view() == ApiErrorModel::Socket(message@),
{
    ApiError::Socket(message.to_owned())
}

fn find_head_end(bytes: &[u8]) -> (r: Option<usize>)
    ensures
        match r {
            Some(at) => head_end(bytes@, 0) == Some(at as int) && 4 <= at <= bytes@.len(),
            None => head_end(bytes@, 0) is None,
        },
{
    let mut end: usize = 0;
    while end <= bytes.len()
        invariant
            0 <= end <= bytes@.len() + 1,
            head_end(bytes@, 0) == head_end(bytes@, end as int),
        decreases bytes@.len() + 1 - end,
    {
        if end >= 4 && bytes[end - 4] == 13 && bytes[end - 3] == 10 && bytes[end - 2] == 13
            && bytes[end - 1] == 10 {
            return Some(end);
        }
        if end == bytes.len() {
            assert(head_end(bytes@, end + 1) is None);
            return None;
        }
        end = end + 1;
    }
    None
}

fn count_missing(bytes: &[u8]) -> (r: usize)
    ensures
        r == missing(bytes@),
{
    let n: usize = bytes.len();
    if n >= 3 && bytes[n - 3] == 13 && bytes[n - 2] == 10 && bytes[n - 1] == 13 {
        1
    } else if n >= 2 && bytes[n - 2] == 13 && bytes[n - 1] == 10 {
        2
    } else if n >= 1 && bytes[n - 1] == 13 {
        3
    } else {
        4
    }
}

/// A line ends within the text, with its line end.
pub proof fn lemma_line_end(s: Seq<char>)
    ensures
        0 <= line_end(s) <= s.len(),
        line_end(s) < s.len() ==> line_end(s) + 2 <= s.len(),
    decreases s.len(),
{
    if s.len() >= 2 && !(s[0] == '\r' && s[1] == '\n') {
        lemma_line_end(s.drop_first());
    }
}

fn find_line_end(s: &Vec<char>, from: usize) -> (r: usize)
    requires
        from <= s@.len(),
    ensures
        from <= r <= s@.len(),
        r - from == line_end(s@.skip(from as int)),
{
    let mut i: usize = from;
    while i < s.len()
        invariant
            from <= i <= s@.len(),
            line_end(s@.skip(from as int)) == (i - from) + line_end(s@.skip(i as int)),
        decreases s@.len() - i,
    {
        let ghost rest = s@.skip(i as int);
        if s.len() - i < 2 {
            return s.len();
        }
        if s[i] == '\r' && s[i + 1] == '\n' {
            return i;
        }
        assert(rest.drop_first() =~= s@.skip(i + 1));
        i = i + 1;
    }
    i
}

fn split_lines(s: &Vec<char>) -> (r: Vec<Vec<char>>)
    ensures
        r@.len() == lines_of(s@).len(),
        forall|k: int| 0 <= k < r@.len() ==> (#[trigger] r@[k])@ == lines_of(s@)[k],
{
    let mut lines: Vec<Vec<char>> = Vec::new();
    let mut from: usize = 0;
    let ghost all = lines_of(s@);
    assert(s@.skip(0) =~= s@);
    loop
        invariant
            0 <= from <= s@.len(),
            all == lines_of(s@),
            lines@.len() + lines_of(s@.skip(from as int)).len() == all.len(),
            all.skip(lines@.len() as int) =~= lines_of(s@.skip(from as int)),
            forall|k: int| 0 <= k < lines@.len() ==> (#[trigger] lines@[k])@ == all[k],
        decreases s@.len() - from,
    {
        let ghost rest = s@.skip(from as int);
        proof {
            lemma_line_end(rest);
        }
        let at: usize = find_line_end(s, from);
        let ghost tail = all.skip(lines@.len() as int);
        let ghost count = lines@.len() as int;
        lines.push(sub_chars(s, from, at));
        assert(s@.subrange(from as int, at as int) =~= rest.take(at - from));
        assert(tail[0] == all[count]);
        if at >= s.len() {
            assert(rest.take(at - from) =~= rest);
            return lines;
        }
        assert(rest.skip(at - from + 2) =~= s@.skip(at + 2));
        assert(tail.drop_first() =~= lines_of(s@.skip(at + 2)));
        assert(all.skip(lines@.len() as int) =~= tail.drop_first());
        from = at + 2;
    }
}

fn parse_status(line: &Vec<char>) -> (r: Result<u64, ApiError>)
    ensures
        match r {
            Ok(status) => status_in(line@) == Ok::<nat, ApiErrorModel>(status as nat),
            Err(error) => status_in(line@) == Err::<nat, ApiErrorModel>(error.deep_view()),
        },
{
    let text = text_of(line, 0, line.len());
    assert(line@.subrange(0, line@.len() as int) =~= line@);
    match strip_prefix(text.as_str(), "HTTP/1.1 ") {
        None => Err(ApiError::MissingProtocol),
        Some(rest) => {
            let word = first_word(&chars_of(rest.as_str()));
            if word.len() == 0 {
                return Err(ApiError::MissingProtocol);
            }
            match parse_number(&word, usize::MAX as u64) {
                Ok(status) => Ok(status),
                Err(failure) => Err(ApiError::StatusCodeParsing(failure)),
            }
        },
    }
}

fn find_colon(line: &Vec<char>) -> (r: usize)
    ensures
        r == colon(line@),
        r <= line@.len(),
{
    let mut i: usize = 0;
    while i < line.len()
        invariant
            0 <= i <= line@.len(),
            forall|j: int| 0 <= j < i ==> line@[j] != ':',
        decreases line@.len() - i,
    {
        if line[i] == ':' {
            proof {
                crate::qmp::fdset::lemma_index_of_char_is(line@, ':', i as int);
            }
            return i;
        }
        i = i + 1;
    }
    proof {
        crate::qmp::fdset::lemma_index_of_char_is(line@, ':', i as int);
    }
    i
}

/// The lines, as a model.
spec fn lines_view(lines: Seq<Vec<char>>) -> Seq<Seq<char>> {
    lines.map_values(|line: Vec<char>| line@)
}

/// A length, as a model.
spec fn length_view(r: Option<u64>) -> Option<nat> {
    match r {
        Some(n) => Some(n as nat),
        None => None,
    }
}

fn parse_length(lines: &Vec<Vec<char>>) -> (r: Result<Option<u64>, ApiError>)
    requires
        lines@.len() > 0,
    ensures
        match r {
            Ok(length) => length_in(lines_view(lines@).drop_first(), None) == Ok::<
                Option<nat>,
                ApiErrorModel,
            >(length_view(length)),
            Err(error) => length_in(lines_view(lines@).drop_first(), None) == Err::<
                Option<nat>,
                ApiErrorModel,
            >(error.deep_view()),
        },
{
    let name = chars_of("content-length");
    let mut found: Option<u64> = None;
    let mut i: usize = 1;
    let ghost all = lines_view(lines@);
    assert(all.skip(1) =~= all.drop_first());
    while i < lines.len()
        invariant
            1 <= i <= lines@.len(),
            all == lines_view(lines@),
            name@ == "content-length"@,
            length_in(all.drop_first(), None) == length_in(
                all.skip(i as int),
                length_view(found),
            ),
        decreases lines@.len() - i,
    {
        let line = &lines[i];
        assert(all.skip(i as int)[0] == line@);
        assert(all.skip(i as int).drop_first() =~= all.skip(i + 1));
        if line.len() > 0 {
            let at: usize = find_colon(line);
            if at >= line.len() {
                let text = text_of(line, 0, line.len());
                assert(line@.subrange(0, line@.len() as int) =~= line@);
                return Err(
                    ApiError::Socket(
                        cat2("invalid HTTP header ", quoted(text.as_str()).as_str()),
                    ),
                );
            }
            assert(line@.subrange(0, at as int) =~= line@.take(at as int));
            if equal_but_case(&trim(&sub_chars(line, 0, at)), &name) {
                if found.is_some() {
                    return Err(invalid_http("duplicate HTTP Content-Length header"));
                }
                assert(line@.subrange(at + 1, line@.len() as int) =~= line@.skip(at + 1));
                match parse_number(&trim(&sub_chars(line, at + 1, line.len())), usize::MAX as u64) {
                    Ok(length) => {
                        found = Some(length);
                    },
                    Err(failure) => {
                        return Err(ApiError::ContentLengthParsing(failure));
                    },
                }
            }
        }
        i = i + 1;
    }
    Ok(found)
}

proof fn lemma_lines_nonempty(s: Seq<char>)
    ensures
        lines_of(s).len() > 0,
{
}

fn parse_head(head: &[u8]) -> (r: Result<(u64, Option<u64>), ApiError>)
    ensures
        match r {
            Ok((status, length)) => head_in(head@) == Ok::<(nat, Option<nat>), ApiErrorModel>(
                (status as nat, length_view(length)),
            ),
            Err(error) => head_in(head@) == Err::<(nat, Option<nat>), ApiErrorModel>(
                error.deep_view(),
            ),
        },
{
    let text: String = match std::str::from_utf8(head) {
        Ok(text) => {
            proof {
                vstd::utf8::encode_utf8_decode_utf8(text@);
            }
            text.to_owned()
        },
        Err(_) => {
            return Err(invalid_http("HTTP response headers are not UTF-8"));
        },
    };
    let chars = chars_of(text.as_str());
    let lines = split_lines(&chars);
    proof {
        lemma_lines_nonempty(chars@);
        assert(lines_view(lines@) =~= lines_of(chars@));
    }
    let status: u64 = match parse_status(&lines[0]) {
        Ok(status) => status,
        Err(error) => {
            return Err(error);
        },
    };
    match parse_length(&lines) {
        Ok(length) => Ok((status, length)),
        Err(error) => Err(error),
    }
}

fn done(result: Result<Option<String>, ApiError>, reusable: bool) -> (r: Progress)
    ensures
        r.deep_view() == ProgressModel::Done(
            ResponseModel {
                result: match result {
                    Ok(body) => Ok(body.deep_view()),
                    Err(error) => Err(error.deep_view()),
                },
                reusable,
            },
        ),
{
    Progress::Done(Response { result, reusable })
}

fn conclude(
    rest: &[u8],
    received: &Received,
    status: u64,
    body: Option<String>,
    reusable: bool,
) -> (r: Progress)
    ensures
        r.deep_view() == concluded(
            rest@,
            received.end,
            received.peeked,
            status as nat,
            body.deep_view(),
            reusable,
        ),
{
    if rest.len() > 0 {
        return done(Err(invalid_http("HTTP response has bytes beyond Content-Length")), reusable);
    }
    let closed: bool = match &received.end {
        StreamEnd::Closed => true,
        _ => match &received.peeked {
            Peeked::NotYet => {
                return Progress::Peek;
            },
            Peeked::Closed => true,
            Peeked::Silent => false,
            Peeked::More => {
                return done(
                    Err(invalid_http("HTTP response has bytes beyond Content-Length")),
                    reusable,
                );
            },
            Peeked::Failed(text) => {
                return done(Err(invalid_http(text.as_str())), reusable);
            },
        },
    };
    let status = status_code_from_raw(status);
    let result = if status == StatusCode::Success || status == StatusCode::NoContent {
        Ok(body)
    } else {
        Err(ApiError::ServerResponse(status, body))
    };
    done(result, reusable && !closed)
}

fn read_body(rest: &[u8], received: &Received, status: u64, length: u64) -> (r: Progress)
    ensures
        r.deep_view() == body_read(
            rest@,
            received.end,
            received.peeked,
            status as nat,
            length as nat,
        ),
{
    if length > MAX_HTTP_BODY_SIZE {
        return done(
            Err(
                ApiError::Socket(
                    cat3(
                        "HTTP response body exceeds ",
                        dec_u64(MAX_HTTP_BODY_SIZE).as_str(),
                        " bytes",
                    ),
                ),
            ),
            true,
        );
    }
    let length: usize = length as usize;
    if rest.len() < length {
        return match &received.end {
            StreamEnd::Open => Progress::Read(length - rest.len()),
            StreamEnd::Closed => done(
                Err(
                    invalid_http(
                        "HTTP body does not match Content-Length: failed to fill whole buffer",
                    ),
                ),
                true,
            ),
            StreamEnd::Failed(text) => done(
                Err(
                    ApiError::Socket(
                        cat2("HTTP body does not match Content-Length: ", text.as_str()),
                    ),
                ),
                true,
            ),
        };
    }
    let body = slice_subrange(rest, 0, length);
    let after = slice_subrange(rest, length, rest.len());
    assert(body@ =~= rest@.take(length as int));
    assert(after@ =~= rest@.skip(length as int));
    match std::str::from_utf8(body) {
        Ok(text) => {
            proof {
                vstd::utf8::encode_utf8_decode_utf8(text@);
            }
            conclude(after, received, status, Some(text.to_owned()), true)
        },
        Err(_) => done(Err(invalid_http("HTTP response body is not UTF-8")), true),
    }
}

fn read_after_head(
    endpoint: &str,
    rest: &[u8],
    received: &Received,
    status: u64,
    length: Option<u64>,
) -> (r: Progress)
    ensures
        r.deep_view() == after_head(
            endpoint@,
            rest@,
            received.end,
            received.peeked,
            status as nat,
            length_view(length),
        ),
{
    if (status >= 100 && status < 200) || status == 204 || status == 304 {
        return conclude(rest, received, status, None, length.is_some());
    }
    match length {
        Some(length) => read_body(rest, received, status, length),
        None => if same(endpoint, "vmm.shutdown") {
            conclude(rest, received, status, None, false)
        } else {
            done(
                Err(invalid_http("HTTP response permits a body but has no Content-Length")),
                false,
            )
        },
    }
}

/// The response in what has come so far, or what is to be read next. No byte behind the response
/// is ever asked for.
pub fn read_response(endpoint: &str, received: &Received) -> (r: Progress)
    ensures
        r.deep_view() == response(
            endpoint@,
            received.bytes@,
            received.end,
            received.peeked,
            MAX_HTTP_ROUNDS as nat,
        ),
{
    let mut rest: &[u8] = received.bytes.as_slice();
    let mut rounds: u32 = MAX_HTTP_ROUNDS;
    while rounds > 0
        invariant
            response(
                endpoint@,
                received.bytes@,
                received.end,
                received.peeked,
                MAX_HTTP_ROUNDS as nat,
            ) == response(endpoint@, rest@, received.end, received.peeked, rounds as nat),
        decreases rounds,
    {
        let at: usize = match find_head_end(rest) {
            Some(at) if at <= MAX_HTTP_HEADER_SIZE => at,
            _ => {
                if rest.len() >= MAX_HTTP_HEADER_SIZE {
                    return done(Err(invalid_http("HTTP response headers exceed 64 KiB")), true);
                }
                return match &received.end {
                    StreamEnd::Open => {
                        let wanted: usize = count_missing(rest);
                        let room: usize = MAX_HTTP_HEADER_SIZE - rest.len();
                        Progress::Read(
                            if wanted <= room {
                                wanted
                            } else {
                                room
                            },
                        )
                    },
                    StreamEnd::Closed => done(
                        Err(invalid_http("HTTP response ended before complete headers")),
                        true,
                    ),
                    StreamEnd::Failed(text) => done(Err(invalid_http(text.as_str())), true),
                };
            },
        };
        let head = slice_subrange(rest, 0, at);
        let after = slice_subrange(rest, at, rest.len());
        assert(head@ =~= rest@.take(at as int));
        assert(after@ =~= rest@.skip(at as int));
        let (status, length) = match parse_head(head) {
            Ok(parsed) => parsed,
            Err(error) => {
                return done(Err(error), true);
            },
        };
        let informational: bool = status >= 100 && status < 200;
        let named: bool = match length {
            Some(length) => length != 0,
            None => false,
        };
        if (informational || status == 204 || status == 304) && named {
            return done(
                Err(
                    ApiError::Socket(
                        cat3(
                            "HTTP status ",
                            dec_u64(status).as_str(),
                            " forbids a response body",
                        ),
                    ),
                ),
                true,
            );
        }
        if !informational {
            return read_after_head(endpoint, after, received, status, length);
        }
        rest = after;
        rounds = rounds - 1;
    }
    done(Err(invalid_http("too many informational HTTP responses")), true)
}

proof fn lemma_head_end(bytes: Seq<u8>, end: int)
    requires
        0 <= end,
    ensures
        head_end(bytes, end) matches Some(at) ==> end <= at <= bytes.len() && blank_line_ends_at(
            bytes,
            at,
        ) && forall|e: int| end <= e < at ==> !#[trigger] blank_line_ends_at(bytes, e),
        head_end(bytes, end) is None ==> forall|e: int|
            end <= e <= bytes.len() ==> !#[trigger] blank_line_ends_at(bytes, e),
    decreases bytes.len() + 1 - end,
{
    if end <= bytes.len() && !blank_line_ends_at(bytes, end) {
        lemma_head_end(bytes, end + 1);
    }
}

proof fn lemma_head_end_is(bytes: Seq<u8>, at: int)
    requires
        0 <= at <= bytes.len(),
        blank_line_ends_at(bytes, at),
        forall|e: int| 0 <= e < at ==> !#[trigger] blank_line_ends_at(bytes, e),
    ensures
        head_end(bytes, 0) == Some(at),
{
    lemma_head_end(bytes, 0);
    match head_end(bytes, 0) {
        Some(found) => {
            if found < at {
                assert(!blank_line_ends_at(bytes, found));
            }
            if at < found {
                assert(!blank_line_ends_at(bytes, at));
            }
        },
        None => {
            assert(!blank_line_ends_at(bytes, at));
        },
    }
}

proof fn lemma_head_end_in_part(bytes: Seq<u8>, at: int, k: int)
    requires
        head_end(bytes, 0) == Some(at),
        0 <= k <= bytes.len(),
    ensures
        k >= at ==> head_end(bytes.take(k), 0) == Some(at),
        k < at ==> head_end(bytes.take(k), 0) is None && missing(bytes.take(k)) <= at - k,
{
    let part = bytes.take(k);
    lemma_head_end(bytes, 0);
    lemma_head_end(part, 0);
    if k >= at {
        assert(blank_line_ends_at(part, at));
        assert forall|e: int| 0 <= e < at implies !#[trigger] blank_line_ends_at(part, e) by {
            assert(!blank_line_ends_at(bytes, e));
        }
        lemma_head_end_is(part, at);
    } else {
        if let Some(found) = head_end(part, 0) {
            assert(blank_line_ends_at(bytes, found));
        }
        assert(blank_line_ends_at(bytes, at));
    }
}

/// How far the sending of a request has come.
#[derive(Clone, Debug)]
pub enum Sent {
    Nothing,
    /// That many bytes went together with the descriptors.
    WithFds(usize),
    /// All of it.
    Whole,
    /// The socket failed, for this reason.
    Failed(String),
}

/// What is to be done next for a command.
#[derive(Debug)]
pub enum Step {
    /// Send these bytes together with the descriptors, or as many of them as the socket takes.
    SendWithFds(Vec<u8>),
    /// Send all of these bytes.
    Write(Vec<u8>),
    /// The request is sent; go on with the response.
    Receive(Progress),
}

/// The model of a [`Step`].
pub enum StepModel {
    SendWithFds(Seq<u8>),
    Write(Seq<u8>),
    Receive(ProgressModel),
}

impl DeepView for Step {
    type V = StepModel;

    open spec fn deep_view(&self) -> StepModel {
        match *self {
            Step::SendWithFds(bytes) => StepModel::SendWithFds(bytes@),
            Step::Write(bytes) => StepModel::Write(bytes@),
            Step::Receive(progress) => StepModel::Receive(progress.deep_view()),
        }
    }
}

/// The exchange of a request for its response: descriptors travel with the first bytes of the
/// request, the rest of it follows, and then the response is read.
pub open spec fn commanded(
    method: Seq<char>,
    endpoint: Seq<char>,
    body: Option<Seq<char>>,
    with_fds: bool,
    sent: Sent,
    received: Received,
) -> StepModel {
    let whole = encode_utf8(request_text(method, endpoint, body));
    match sent {
        Sent::Nothing => if with_fds {
            StepModel::SendWithFds(encode_utf8(request_line(method, endpoint)))
        } else {
            StepModel::Write(whole)
        },
        Sent::WithFds(n) => StepModel::Write(whole.skip(n as int)),
        Sent::Whole => StepModel::Receive(
            response(
                endpoint,
                received.bytes@,
                received.end,
                received.peeked,
                MAX_HTTP_ROUNDS as nat,
            ),
        ),
        Sent::Failed(reason) => StepModel::Receive(
            failed(ApiErrorModel::Socket(reason@), true),
        ),
    }
}

proof fn lemma_encode_utf8_add(a: Seq<char>, b: Seq<char>)
    ensures
        encode_utf8(a + b) == encode_utf8(a) + encode_utf8(b),
    decreases a.len(),
{
    if a.len() == 0 {
        assert(a + b =~= b);
        assert(encode_utf8(a) + encode_utf8(b) =~= encode_utf8(b));
    } else {
        assert((a + b).drop_first() =~= a.drop_first() + b);
        assert((a + b)[0] == a[0]);
        lemma_encode_utf8_add(a.drop_first(), b);
    }
}

/// The exchange of a request for its response, as far as it has come, and what is to be done next
/// for it.
pub fn command(
    method: &str,
    endpoint: &str,
    body: Option<&str>,
    with_fds: bool,
    sent: &Sent,
    received: &Received,
) -> (r: Step)
    requires
        sent matches Sent::WithFds(n) ==> n <= encode_utf8(
            request_line(method@, endpoint@),
        ).len(),
    ensures
        r.deep_view() == commanded(
            method@,
            endpoint@,
            match body {
                Some(body) => Some(body@),
                None => None,
            },
            with_fds,
            *sent,
            *received,
        ),
{
    match sent {
        Sent::Nothing => if with_fds {
            Step::SendWithFds(line_of_request(method, endpoint).as_str().as_bytes_vec())
        } else {
            Step::Write(request(method, endpoint, body).as_str().as_bytes_vec())
        },
        Sent::WithFds(n) => {
            let whole = request(method, endpoint, body);
            proof {
                let line = request_line(method@, endpoint@);
                let rest = whole@.skip(line.len() as int);
                assert(whole@ =~= line + rest);
                lemma_encode_utf8_add(line, rest);
            }
            let bytes: &[u8] = whole.as_str().as_bytes();
            Step::Write(slice_to_vec(slice_subrange(bytes, *n, bytes.len())))
        },
        Sent::Whole => Step::Receive(read_response(endpoint, received)),
        Sent::Failed(reason) => Step::Receive(
            done(Err(ApiError::Socket(reason.clone())), true),
        ),
    }
}

/// What is sent of a request is the whole of it, once: whatever went together with the descriptors,
/// the rest follows.
pub proof fn law_request_is_sent_once(
    method: Seq<char>,
    endpoint: Seq<char>,
    body: Option<Seq<char>>,
    n: usize,
    received: Received,
)
    requires
        n <= encode_utf8(request_line(method, endpoint)).len(),
    ensures
        ({
            let whole = encode_utf8(request_text(method, endpoint, body));
            &&& commanded(method, endpoint, body, false, Sent::Nothing, received)
                == StepModel::Write(whole)
            &&& commanded(method, endpoint, body, true, Sent::Nothing, received) matches
                StepModel::SendWithFds(line) && commanded(
                method,
                endpoint,
                body,
                true,
                Sent::WithFds(n),
                received,
            ) matches StepModel::Write(rest) && line.take(n as int) + rest == whole
        }),
{
    let line = request_line(method, endpoint);
    let text = request_text(method, endpoint, body);
    let rest = text.skip(line.len() as int);
    assert(text =~= line + rest);
    lemma_encode_utf8_add(line, rest);
    let whole = encode_utf8(text);
    assert(encode_utf8(line).take(n as int) + whole.skip(n as int) =~= whole);
}

/// A response is never read beyond its end: as long as a part of it has come, at most the missing
/// bytes are asked for. So the bytes of the next response are left for the next request.
pub proof fn law_reading_stops_at_the_end(
    endpoint: Seq<char>,
    bytes: Seq<u8>,
    rounds: nat,
    k: int,
)
    requires
        response(endpoint, bytes, StreamEnd::Open, Peeked::NotYet, rounds) == ProgressModel::Peek,
        0 <= k < bytes.len(),
    ensures
        response(endpoint, bytes.take(k), StreamEnd::Open, Peeked::NotYet, rounds)
            matches ProgressModel::Read(n) && 0 < n <= bytes.len() - k,
    decreases rounds,
{
    let part = bytes.take(k);
    let at = head_end(bytes, 0)->0;
    lemma_head_end(bytes, 0);
    lemma_head_end_in_part(bytes, at, k);
    if k >= at {
        assert(part.take(at) =~= bytes.take(at));
        assert(part.skip(at) =~= bytes.skip(at).take(k - at));
        let (status, length) = head_in(bytes.take(at))->Ok_0;
        if is_informational(status) {
            law_reading_stops_at_the_end(
                endpoint,
                bytes.skip(at),
                (rounds - 1) as nat,
                k - at,
            );
        }
    }
}

proof fn lemma_length_is_no_response(lines: Seq<Seq<char>>, found: Option<nat>)
    ensures
        length_in(lines, found) matches Err(error) ==> !(error is ServerResponse),
    decreases lines.len(),
{
    if lines.len() > 0 {
        lemma_length_is_no_response(lines.drop_first(), found);
        let line = lines[0];
        let value = number_in(trimmed(line.skip(colon(line) + 1)), usize::MAX as nat);
        if let Ok(length) = value {
            lemma_length_is_no_response(lines.drop_first(), Some(length));
        }
    }
}

/// A stream carries another request only after a response of known length behind which nothing
/// follows: whatever leaves the framing in doubt leaves the stream behind.
pub proof fn law_reused_stream_is_silent(
    endpoint: Seq<char>,
    bytes: Seq<u8>,
    end: StreamEnd,
    peeked: Peeked,
    rounds: nat,
)
    ensures
        response(endpoint, bytes, end, peeked, rounds) matches ProgressModel::Done(r)
            ==> r.reusable ==> (r.result is Ok || (r.result matches Err(error) && error
            is ServerResponse)) ==> peeked is Silent && !(end is Closed),
    decreases rounds,
{
    if rounds > 0 {
        if let Some(at) = head_end(bytes, 0) {
            lemma_length_is_no_response(
                lines_of(decode_utf8(bytes.take(at))).drop_first(),
                None,
            );
            if let Ok((status, _)) = head_in(bytes.take(at)) {
                if is_informational(status) {
                    law_reused_stream_is_silent(
                        endpoint,
                        bytes.skip(at),
                        end,
                        peeked,
                        (rounds - 1) as nat,
                    );
                }
            }
        }
    }
}

} // verus!
