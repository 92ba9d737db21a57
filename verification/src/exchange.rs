//! One outbound HTTP exchange: from the request that a guest asks for to the response it gets.
//!
//! The exchange awaits the network, and only the embedding program can do that. What is sent, what
//! is kept of the reply and what fails is decided here: [`begin_send`] gives what to send, and a
//! [`ResponseReader`] is fed with what arrives.

use vstd::prelude::*;

use crate::headers;
use crate::outside;
use crate::outside::{RequestBody, RequestHead};
use crate::table;
use crate::table::HeaderTable;
use crate::text;

verus! {

/// Maximum HTTP response body size (16 MiB).
pub const MAX_RESPONSE_BYTES: usize = 16 * 1024 * 1024;

/// Maximum concurrent outbound HTTP requests per sandbox.
pub const MAX_CONCURRENT_REQUESTS: usize = 16;

/// Default HTTP request timeout in seconds.
pub const REQUEST_TIMEOUT_SECS: u64 = 30;

/// Why an exchange failed.
pub enum HttpError {
    /// Outbound HTTP is switched off.
    Unavailable,
    /// The method is no HTTP method.
    InvalidMethod,
    /// The URL makes no request URI.
    InvalidUri,
    /// A header cannot be sent.
    InvalidRequest,
    /// The request could not be sent; with a description.
    SendFailed(String),
    /// The response body did not arrive in time.
    ReadTimedOut,
    /// The response body could not be read; with a description.
    ReadFailed(String),
    /// The response body is larger than [`MAX_RESPONSE_BYTES`].
    BodyTooLarge,
}

impl HttpError {
    /// What the error reads as.
    pub open spec fn text(&self) -> Seq<char> {
        match self {
            HttpError::Unavailable =>
                "outbound HTTP is unavailable: the `wasi-http` feature is disabled"@,
            HttpError::InvalidMethod => "invalid HTTP method: invalid HTTP method"@,
            HttpError::InvalidUri => "failed to build request URI"@,
            HttpError::InvalidRequest => "failed to build request"@,
            HttpError::SendFailed(detail) => "HTTP request failed: "@ + detail@,
            HttpError::ReadTimedOut => "response body read timed out"@,
            HttpError::ReadFailed(detail) => "response body read error: "@ + detail@,
            HttpError::BodyTooLarge => "response body exceeded 16 MiB limit"@,
        }
    }

    /// What the error reads as.
    pub fn message(&self) -> (message: String)
        ensures
            message@ == self.text(),
    {
        match self {
            HttpError::Unavailable =>
                "outbound HTTP is unavailable: the `wasi-http` feature is disabled".to_owned(),
            HttpError::InvalidMethod => "invalid HTTP method: invalid HTTP method".to_owned(),
            HttpError::InvalidUri => "failed to build request URI".to_owned(),
            HttpError::InvalidRequest => "failed to build request".to_owned(),
            HttpError::SendFailed(detail) => text::joined("HTTP request failed: ", detail.as_str()),
            HttpError::ReadTimedOut => "response body read timed out".to_owned(),
            HttpError::ReadFailed(detail) => text::joined(
                "response body read error: ",
                detail.as_str(),
            ),
            HttpError::BodyTooLarge => "response body exceeded 16 MiB limit".to_owned(),
        }
    }
}

/// A URL, read once and taken apart.
pub struct ParsedUrl {
    /// The whole URL, normalized.
    pub serialization: String,
    /// The scheme, in lower case.
    pub scheme: String,
    /// User information, host and port.
    pub authority: String,
    /// All that follows the authority.
    pub path_and_query: String,
}

impl ParsedUrl {
    /// Reads `text` as a URL.
    pub fn parse(text: &str) -> (url: Result<ParsedUrl, url::ParseError>)
        ensures
            url is Ok <==> outside::url_parts(text@) is Some,
            url matches Ok(u) ==> outside::url_parts(text@) == Some(
                (u.serialization@, u.scheme@, u.authority@, u.path_and_query@),
            ),
    {
        match outside::parse_url(text) {
            Ok((serialization, scheme, authority, path_and_query)) => Ok(
                ParsedUrl { serialization, scheme, authority, path_and_query },
            ),
            Err(error) => Err(error),
        }
    }

    /// Whether the URL asks for TLS.
    pub open spec fn wants_tls(&self) -> bool {
        self.scheme@ == "https"@
    }

    /// The scheme of the request URI: `https` for itself, `http` for all others.
    pub open spec fn request_scheme(&self) -> Seq<char> {
        if self.wants_tls() {
            "https"@
        } else {
            "http"@
        }
    }

    /// The text of the request URI, where there is one.
    pub open spec fn request_uri(&self) -> Option<Seq<char>> {
        if outside::makes_uri(self.request_scheme(), self.authority@, self.path_and_query@) {
            Some(outside::uri_of(self.request_scheme(), self.authority@, self.path_and_query@))
        } else {
            None
        }
    }
}

/// A backend-agnostic HTTP request.
pub struct HttpRequest {
    pub url: ParsedUrl,
    pub method: String,
    pub headers: Vec<(String, String)>,
    pub body: RequestBody,
}

/// The bytes of optional data: none of no data.
pub open spec fn data_or_empty(data: Option<Vec<u8>>) -> Seq<u8> {
    match data {
        Some(bytes) => bytes@,
        None => Seq::empty(),
    }
}

/// `head` with those of the headers that a guest may set.
pub open spec fn with_allowed_headers(
    head: RequestHead,
    headers: Seq<(String, String)>,
) -> RequestHead
    decreases headers.len(),
{
    if headers.len() == 0 {
        head
    } else {
        let before = with_allowed_headers(head, headers.drop_last());
        if headers::is_forbidden(headers.last().0@) {
            before
        } else {
            outside::with_header(before, headers.last().0@, headers.last().1@)
        }
    }
}

/// Whether one of the headers that a guest may set comes where those before it, with those of
/// `head`, have `room` names or more.
pub open spec fn crowded(head: RequestHead, headers: Seq<(String, String)>, room: nat) -> bool
    decreases headers.len(),
{
    headers.len() > 0 && {
        let before = headers.drop_last();
        ||| crowded(head, before, room)
        ||| !headers::is_forbidden(headers.last().0@) && outside::name_count(
            with_allowed_headers(head, before).headers,
        ) >= room
    }
}

/// Whether each of the headers that a guest may set can be sent.
pub open spec fn headers_sendable(headers: Seq<(String, String)>) -> bool {
    forall|i: int|
        0 <= i < headers.len() && !headers::is_forbidden((#[trigger] headers[i]).0@)
            ==> outside::is_header_name(headers[i].0@) && outside::is_header_value(headers[i].1@)
}

impl HttpRequest {
    /// Create a request body from raw bytes (or empty). The bytes are sent in one piece.
    pub fn body_from_bytes(data: Option<Vec<u8>>) -> (body: RequestBody)
        ensures
            outside::body_frames(body) == outside::one_piece(data_or_empty(data)),
    {
        match data {
            Some(data) => {
                if data.len() > 0 {
                    outside::full_body(data)
                } else {
                    outside::empty_body()
                }
            },
            None => outside::empty_body(),
        }
    }

    /// The head before any header of the guest: the method, the URI, and the host.
    pub open spec fn base_head(&self) -> RequestHead {
        outside::with_header(
            RequestHead {
                method: self.method@,
                uri: self.url.request_uri()->0,
                headers: Seq::empty(),
            },
            "host"@,
            self.url.authority@,
        )
    }

    /// The head that is sent.
    pub open spec fn sent_head(&self) -> RequestHead {
        with_allowed_headers(self.base_head(), self.headers@)
    }

    /// Whether every header that would be sent can be.
    pub open spec fn sendable(&self) -> bool {
        outside::is_header_value(self.url.authority@) && headers_sendable(self.headers@)
    }

    /// Whether a header is sent where the names before it may leave no room for it.
    pub open spec fn crowds(&self) -> bool {
        crowded(self.base_head(), self.headers@, outside::header_room())
    }

    /// Whether a header is sent where the names before it leave no room for any.
    pub open spec fn overflows(&self) -> bool {
        crowded(self.base_head(), self.headers@, outside::header_limit())
    }

    /// Whether `built` is what building this request gives, where the header map has room for all
    /// headers that are sent (`fits`), or has not.
    pub open spec fn builds_where(
        &self,
        fits: bool,
        built: Result<(hyper::Request<RequestBody>, bool), HttpError>,
    ) -> bool {
        if !outside::is_token(self.method@) {
            built == Err::<(hyper::Request<RequestBody>, bool), _>(HttpError::InvalidMethod)
        } else if self.url.request_uri() is None {
            built == Err::<(hyper::Request<RequestBody>, bool), _>(HttpError::InvalidUri)
        } else if !self.sendable() || !fits {
            built == Err::<(hyper::Request<RequestBody>, bool), _>(HttpError::InvalidRequest)
        } else {
            &&& built matches Ok((request, use_tls))
            &&& outside::request_head(request) == self.sent_head()
            &&& outside::request_frames(request) == outside::body_frames(self.body)
            &&& use_tls == self.url.wants_tls()
        }
    }

    /// Whether `built` is what building this request gives.
    ///
    /// Whether the header map has room is settled where the request does not crowd it, and where
    /// it overflows it. In between it is left open. Forbidden headers are not sent, and do not
    /// count; nor do further values of a name.
    pub open spec fn builds(
        &self,
        built: Result<(hyper::Request<RequestBody>, bool), HttpError>,
    ) -> bool {
        ||| !self.overflows() && self.builds_where(true, built)
        ||| self.crowds() && self.builds_where(false, built)
    }
}

/// One more header makes the head one header longer.
proof fn lemma_with_entry_len(
    entries: Seq<(Seq<char>, Seq<u8>)>,
    name: Seq<char>,
    value: Seq<u8>,
)
    ensures
        outside::with_entry(entries, name, value).len() == entries.len() + 1,
    decreases entries.len(),
{
    if entries.len() > 0 {
        lemma_with_entry_len(entries.drop_last(), name, value);
    }
}

/// The headers of a guest change neither the method nor the URI, and no more are sent than it has.
proof fn lemma_allowed_keeps_target(head: RequestHead, headers: Seq<(String, String)>)
    ensures
        with_allowed_headers(head, headers).headers.len() <= head.headers.len() + headers.len(),
        with_allowed_headers(head, headers).method == head.method,
        with_allowed_headers(head, headers).uri == head.uri,
    decreases headers.len(),
{
    if headers.len() > 0 {
        lemma_allowed_keeps_target(head, headers.drop_last());
        let before = with_allowed_headers(head, headers.drop_last());
        lemma_with_entry_len(
            before.headers,
            text::ascii_lower(headers.last().0@),
            vstd::utf8::encode_utf8(headers.last().1@),
        );
    }
}

/// Headers that crowd a request still do where more follow.
proof fn lemma_prefix_crowds(
    head: RequestHead,
    headers: Seq<(String, String)>,
    k: int,
    room: nat,
)
    requires
        0 <= k <= headers.len(),
        crowded(head, headers.take(k), room),
    ensures
        crowded(head, headers, room),
    decreases headers.len(),
{
    if k == headers.len() {
        assert(headers.take(k) =~= headers);
    } else {
        assert(headers.drop_last().take(k) =~= headers.take(k));
        lemma_prefix_crowds(head, headers.drop_last(), k, room);
    }
}

/// Headers that leave no room crowd the more where there is less.
proof fn lemma_less_room_crowds(
    head: RequestHead,
    headers: Seq<(String, String)>,
    room: nat,
    less: nat,
)
    requires
        less <= room,
        crowded(head, headers, room),
    ensures
        crowded(head, headers, less),
    decreases headers.len(),
{
    if crowded(head, headers.drop_last(), room) {
        lemma_less_room_crowds(head, headers.drop_last(), room, less);
    }
}

/// There are no more names than headers.
proof fn lemma_name_count(entries: Seq<(Seq<char>, Seq<u8>)>)
    ensures
        outside::name_count(entries) <= entries.len(),
{
    entries.map_values(|entry: (Seq<char>, Seq<u8>)| entry.0).lemma_cardinality_of_set();
}

/// Few headers crowd nothing.
proof fn lemma_few_do_not_crowd(head: RequestHead, headers: Seq<(String, String)>, room: nat)
    requires
        head.headers.len() + headers.len() <= room,
    ensures
        !crowded(head, headers, room),
    decreases headers.len(),
{
    if headers.len() > 0 {
        let before = headers.drop_last();
        lemma_few_do_not_crowd(head, before, room);
        lemma_allowed_keeps_target(head, before);
        lemma_name_count(with_allowed_headers(head, before).headers);
    }
}

proof fn lemma_host_is_a_name()
    ensures
        outside::is_header_name("host"@),
        text::ascii_lower("host"@) == "host"@,
{
    reveal_strlit("host");
    assert(text::ascii_lower("host"@) =~= "host"@);
}

/// Build a `hyper::Request` from an [`HttpRequest`], stripping forbidden headers.
pub fn build_hyper_request(req: HttpRequest) -> (built: Result<
    (hyper::Request<RequestBody>, bool),
    HttpError,
>)
    ensures
        req.builds(built),
{
    proof {
        if req.overflows() {
            lemma_less_room_crowds(
                req.base_head(),
                req.headers@,
                outside::header_limit(),
                outside::header_room(),
            );
        }
        lemma_name_count(Seq::empty());
    }
    let method = match outside::method_from_text(req.method.as_str()) {
        Ok(method) => method,
        Err(_) => {
            return Err(HttpError::InvalidMethod);
        },
    };
    let use_tls = text::same_text(req.url.scheme.as_str(), "https");
    let scheme = if use_tls {
        "https"
    } else {
        "http"
    };
    let uri = match outside::build_uri(
        scheme,
        req.url.authority.as_str(),
        req.url.path_and_query.as_str(),
    ) {
        Ok(uri) => uri,
        Err(_) => {
            return Err(HttpError::InvalidUri);
        },
    };
    let ghost uri_view = outside::uri_text(uri);
    let mut builder = outside::add_header(
        outside::start_request(method, uri),
        "host",
        req.url.authority.as_str(),
    );
    proof {
        lemma_host_is_a_name();
        lemma_with_entry_len(
            Seq::empty(),
            text::ascii_lower("host"@),
            vstd::utf8::encode_utf8(req.url.authority@),
        );
        assert(req.headers@.take(0) =~= Seq::empty());
    }
    let mut i: usize = 0;
    while i < req.headers.len()
        invariant
            i <= req.headers@.len(),
            req.base_head().headers.len() == 1,
            match outside::builder_head(builder) {
                Some(head) => {
                    &&& outside::is_header_value(req.url.authority@)
                    &&& headers_sendable(req.headers@.take(i as int))
                    &&& head == with_allowed_headers(req.base_head(), req.headers@.take(i as int))
                    &&& !crowded(
                        req.base_head(),
                        req.headers@.take(i as int),
                        outside::header_limit(),
                    )
                },
                None => !req.sendable() || req.crowds(),
            },
        decreases req.headers@.len() - i,
    {
        let ghost k = i as int;
        proof {
            assert(req.headers@.take(k + 1).drop_last() =~= req.headers@.take(k));
            assert(req.headers@.take(k + 1).last() == req.headers@[k]);
            if crowded(req.base_head(), req.headers@.take(k + 1), outside::header_room()) {
                lemma_prefix_crowds(req.base_head(), req.headers@, k + 1, outside::header_room());
            }
            assert forall|j: int|
                0 <= j < k + 1 && headers_sendable(req.headers@.take(k)) && (
                headers::is_forbidden(req.headers@[k].0@) || (outside::is_header_name(
                    req.headers@[k].0@,
                ) && outside::is_header_value(req.headers@[k].1@))) && !headers::is_forbidden(
                    (#[trigger] req.headers@.take(k + 1)[j]).0@,
                ) implies outside::is_header_name(req.headers@.take(k + 1)[j].0@)
                && outside::is_header_value(req.headers@.take(k + 1)[j].1@) by {
                if j < k {
                    assert(req.headers@.take(k)[j] == req.headers@.take(k + 1)[j]);
                }
            }
        }
        if !headers::is_forbidden_request_header(req.headers[i].0.as_str()) {
            builder = outside::add_header(
                builder,
                req.headers[i].0.as_str(),
                req.headers[i].1.as_str(),
            );
        }
        i = i + 1;
    }
    assert(req.headers@.take(i as int) =~= req.headers@);
    proof {
        lemma_allowed_keeps_target(req.base_head(), req.headers@);
    }
    match outside::finish_request(builder, req.body) {
        Ok(request) => Ok((request, use_tls)),
        Err(_) => Err(HttpError::InvalidRequest),
    }
}

/// What to send, and how long to wait.
pub struct Outgoing {
    pub request: hyper::Request<RequestBody>,
    pub use_tls: bool,
    pub connect_timeout_secs: u64,
    pub first_byte_timeout_secs: u64,
    pub between_bytes_timeout_secs: u64,
}

/// The first half of an exchange: what to send for `req`, where outbound HTTP is `available`.
pub fn begin_send(available: bool, req: HttpRequest) -> (outgoing: Result<Outgoing, HttpError>)
    ensures
        match outgoing {
            Ok(o) => {
                &&& available
                &&& req.builds(Ok((o.request, o.use_tls)))
                &&& o.connect_timeout_secs == REQUEST_TIMEOUT_SECS
                &&& o.first_byte_timeout_secs == REQUEST_TIMEOUT_SECS
                &&& o.between_bytes_timeout_secs == REQUEST_TIMEOUT_SECS
            },
            Err(HttpError::Unavailable) => !available,
            Err(error) => available && req.builds(Err(error)),
        },
{
    if !available {
        return Err(HttpError::Unavailable);
    }
    match build_hyper_request(req) {
        Ok((request, use_tls)) => Ok(
            Outgoing {
                request,
                use_tls,
                connect_timeout_secs: REQUEST_TIMEOUT_SECS,
                first_byte_timeout_secs: REQUEST_TIMEOUT_SECS,
                between_bytes_timeout_secs: REQUEST_TIMEOUT_SECS,
            },
        ),
        Err(error) => Err(error),
    }
}

/// A backend-agnostic HTTP response with capped headers and body.
pub struct HttpResponse {
    pub status: u16,
    pub headers: HeaderTable,
    pub body: Vec<u8>,
}

/// What arrives of a response body.
pub enum BodyEvent {
    /// A frame of data.
    Data(Vec<u8>),
    /// A frame that holds no data.
    NoData,
    /// The end of the body.
    End,
    /// Nothing, for too long.
    TimedOut,
    /// An error; with a description.
    Failed(String),
}

/// How far a response body has come.
pub enum Progress {
    /// These bytes have arrived, and more may.
    Reading(Seq<u8>),
    /// These are all the bytes.
    Finished(Seq<u8>),
    /// The body is lost.
    Failed(HttpError),
}

/// What one event makes of a body of which `body` has arrived.
pub open spec fn after_event(body: Seq<u8>, event: BodyEvent) -> Progress {
    match event {
        BodyEvent::Data(data) => if body.len() + data@.len() > MAX_RESPONSE_BYTES {
            Progress::Failed(HttpError::BodyTooLarge)
        } else {
            Progress::Reading(body + data@)
        },
        BodyEvent::NoData => Progress::Reading(body),
        BodyEvent::End => Progress::Finished(body),
        BodyEvent::TimedOut => Progress::Failed(HttpError::ReadTimedOut),
        BodyEvent::Failed(detail) => Progress::Failed(HttpError::ReadFailed(detail)),
    }
}

/// What some events make of a body of which `body` has arrived. Nothing after the end or a
/// failure counts.
pub open spec fn after_events(body: Seq<u8>, events: Seq<BodyEvent>) -> Progress
    decreases events.len(),
{
    if events.len() == 0 {
        Progress::Reading(body)
    } else {
        match after_event(body, events[0]) {
            Progress::Reading(more) => after_events(more, events.drop_first()),
            done => done,
        }
    }
}

/// The second half of an exchange: a response whose body is being read.
pub struct ResponseReader {
    status: u16,
    headers: HeaderTable,
    body: Vec<u8>,
}

/// What has become of a response.
pub enum ReadStep {
    /// Ask for the next event.
    Continue(ResponseReader),
    /// The response is complete.
    Finished(HttpResponse),
    /// The exchange has failed.
    Failed(HttpError),
}

impl ResponseReader {
    /// The headers are a table, and the body is within the limit.
    pub closed spec fn wf(&self) -> bool {
        self.headers.wf() && self.body@.len() <= MAX_RESPONSE_BYTES
    }

    /// The status of the response.
    pub closed spec fn status(&self) -> u16 {
        self.status
    }

    /// The headers of the response.
    pub closed spec fn headers(&self) -> HeaderTable {
        self.headers
    }

    /// What has arrived of the body.
    pub closed spec fn body(&self) -> Seq<u8> {
        self.body@
    }

    /// A well-formed reader holds a table of headers and a body within the limit.
    pub proof fn lemma_wf(&self)
        requires
            self.wf(),
        ensures
            self.headers().wf(),
            self.body().len() <= MAX_RESPONSE_BYTES,
    {
    }

    /// A response of which the head has arrived.
    pub fn new(status: u16, raw: &http::HeaderMap) -> (reader: ResponseReader)
        ensures
            reader.wf(),
            reader.status() == status,
            headers::is_capped(
                headers::shown_headers(outside::header_entries(*raw)),
                table::texts_of(reader.headers()@),
            ),
            reader.body() == Seq::<u8>::empty(),
    {
        ResponseReader { status, headers: headers::cap_response_headers(raw), body: Vec::new() }
    }

    /// Takes in what has arrived, up to [`MAX_RESPONSE_BYTES`].
    pub fn feed(self, event: BodyEvent) -> (step: ReadStep)
        requires
            self.wf(),
        ensures
            match step {
                ReadStep::Continue(reader) => {
                    &&& after_event(self.body(), event) == Progress::Reading(reader.body())
                    &&& reader.wf()
                    &&& reader.status() == self.status()
                    &&& reader.headers() == self.headers()
                },
                ReadStep::Finished(response) => {
                    &&& after_event(self.body(), event) == Progress::Finished(response.body@)
                    &&& response.status == self.status()
                    &&& response.headers == self.headers()
                    &&& response.headers.wf()
                },
                ReadStep::Failed(error) => after_event(self.body(), event) == Progress::Failed(
                    error,
                ),
            },
    {
        let ResponseReader { status, headers, mut body } = self;
        match event {
            BodyEvent::Data(data) => {
                if body.len().saturating_add(data.len()) > MAX_RESPONSE_BYTES {
                    return ReadStep::Failed(HttpError::BodyTooLarge);
                }
                let ghost before = body@;
                body.extend_from_slice(data.as_slice());
                assert(body@ =~= before + data@);
                ReadStep::Continue(ResponseReader { status, headers, body })
            },
            BodyEvent::NoData => ReadStep::Continue(ResponseReader { status, headers, body }),
            BodyEvent::End => ReadStep::Finished(HttpResponse { status, headers, body }),
            BodyEvent::TimedOut => ReadStep::Failed(HttpError::ReadTimedOut),
            BodyEvent::Failed(detail) => ReadStep::Failed(HttpError::ReadFailed(detail)),
        }
    }
}

/// The data of some frames, one after the other.
pub open spec fn data_of(events: Seq<BodyEvent>) -> Seq<u8>
    decreases events.len(),
{
    if events.len() == 0 {
        Seq::empty()
    } else {
        match events[0] {
            BodyEvent::Data(data) => data@ + data_of(events.drop_first()),
            _ => data_of(events.drop_first()),
        }
    }
}

/// Whether some events are all frames.
pub open spec fn are_frames(events: Seq<BodyEvent>) -> bool {
    forall|i: int|
        0 <= i < events.len() ==> (#[trigger] events[i]) is Data || events[i] is NoData
}

/// While only frames arrive, the body is their data one after the other if that is within
/// [`MAX_RESPONSE_BYTES`], and lost for its size if it is not.
pub proof fn law_body_is_the_data_up_to_the_limit(body: Seq<u8>, events: Seq<BodyEvent>)
    requires
        body.len() <= MAX_RESPONSE_BYTES,
        are_frames(events),
    ensures
        body.len() + data_of(events).len() <= MAX_RESPONSE_BYTES ==> after_events(body, events)
            == Progress::Reading(body + data_of(events)),
        body.len() + data_of(events).len() > MAX_RESPONSE_BYTES ==> after_events(body, events)
            == Progress::Failed(HttpError::BodyTooLarge),
    decreases events.len(),
{
    if events.len() == 0 {
        assert(body + data_of(events) =~= body);
    } else {
        let rest = events.drop_first();
        assert forall|i: int| 0 <= i < rest.len() implies (#[trigger] rest[i]) is Data
            || rest[i] is NoData by {
            assert(rest[i] == events[i + 1]);
        }
        match events[0] {
            BodyEvent::Data(data) => {
                if body.len() + data@.len() <= MAX_RESPONSE_BYTES {
                    law_body_is_the_data_up_to_the_limit(body + data@, rest);
                    assert((body + data@) + data_of(rest) =~= body + data_of(events));
                }
            },
            _ => {
                law_body_is_the_data_up_to_the_limit(body, rest);
            },
        }
    }
}

/// A body of which all frames and then the end arrive is the data of the frames one after the
/// other, where that is within [`MAX_RESPONSE_BYTES`], and is lost for its size where it is not.
pub proof fn law_complete_body_is_all_the_data(frames: Seq<BodyEvent>)
    requires
        are_frames(frames),
    ensures
        after_events(Seq::empty(), frames.push(BodyEvent::End)) == if data_of(frames).len()
            <= MAX_RESPONSE_BYTES {
            Progress::Finished(data_of(frames))
        } else {
            Progress::Failed(HttpError::BodyTooLarge)
        },
{
    law_body_is_the_data_up_to_the_limit(Seq::empty(), frames);
    lemma_one_more_event(Seq::empty(), frames, BodyEvent::End);
    assert(Seq::<u8>::empty() + data_of(frames) =~= data_of(frames));
}

/// One event more counts where no earlier one was the last.
proof fn lemma_one_more_event(body: Seq<u8>, events: Seq<BodyEvent>, last: BodyEvent)
    ensures
        after_events(body, events.push(last)) == match after_events(body, events) {
            Progress::Reading(more) => after_event(more, last),
            done => done,
        },
    decreases events.len(),
{
    let longer = events.push(last);
    if events.len() == 0 {
        assert(longer.drop_first() =~= Seq::empty());
        reveal_with_fuel(after_events, 2);
    } else {
        assert(longer.drop_first() =~= events.drop_first().push(last));
        if let Progress::Reading(more) = after_event(body, events[0]) {
            lemma_one_more_event(more, events.drop_first(), last);
        }
    }
}

/// Whatever arrives, a body that is complete is within [`MAX_RESPONSE_BYTES`].
pub proof fn law_finished_body_within_limit(body: Seq<u8>, events: Seq<BodyEvent>)
    requires
        body.len() <= MAX_RESPONSE_BYTES,
    ensures
        after_events(body, events) matches Progress::Finished(all) ==> all.len()
            <= MAX_RESPONSE_BYTES,
        after_events(body, events) matches Progress::Reading(all) ==> all.len()
            <= MAX_RESPONSE_BYTES,
    decreases events.len(),
{
    if events.len() > 0 {
        if let Progress::Reading(more) = after_event(body, events[0]) {
            law_finished_body_within_limit(more, events.drop_first());
        }
    }
}

/// The entries after one more are the entries before and the new one.
proof fn lemma_with_entry_contains(
    entries: Seq<(Seq<char>, Seq<u8>)>,
    name: Seq<char>,
    value: Seq<u8>,
    entry: (Seq<char>, Seq<u8>),
)
    ensures
        outside::with_entry(entries, name, value).contains(entry) <==> entries.contains(entry)
            || entry == (name, value),
    decreases entries.len(),
{
    let after = outside::with_entry(entries, name, value);
    if entries.len() == 0 || entries.last().0 == name || (forall|i: int|
        0 <= i < entries.len() ==> (#[trigger] entries[i]).0 != name) {
        lemma_push_contains(entries, (name, value), entry);
    } else {
        lemma_with_entry_contains(entries.drop_last(), name, value, entry);
        let inner = outside::with_entry(entries.drop_last(), name, value);
        lemma_push_contains(inner, entries.last(), entry);
        lemma_push_contains(entries.drop_last(), entries.last(), entry);
        assert(entries.drop_last().push(entries.last()) =~= entries);
    }
}

proof fn lemma_push_contains(
    entries: Seq<(Seq<char>, Seq<u8>)>,
    last: (Seq<char>, Seq<u8>),
    entry: (Seq<char>, Seq<u8>),
)
    ensures
        entries.push(last).contains(entry) <==> entries.contains(entry) || entry == last,
{
    let after = entries.push(last);
    if entries.contains(entry) {
        let i = choose|i: int| 0 <= i < entries.len() && entries[i] == entry;
        assert(after[i] == entry);
    }
    assert(after[entries.len() as int] == last);
    if after.contains(entry) && entry != last {
        let i = choose|i: int| 0 <= i < after.len() && after[i] == entry;
        assert(entries[i] == entry);
    }
}

/// The header that a guest's header is sent as.
pub open spec fn sent_as(header: (String, String)) -> (Seq<char>, Seq<u8>) {
    (text::ascii_lower(header.0@), vstd::utf8::encode_utf8(header.1@))
}

/// Lower case is reached in one step.
proof fn lemma_lower_twice(s: Seq<char>)
    ensures
        text::ascii_lower(text::ascii_lower(s)) == text::ascii_lower(s),
{
    assert(text::ascii_lower(text::ascii_lower(s)) =~= text::ascii_lower(s));
}

proof fn lemma_allowed_contains(
    head: RequestHead,
    headers: Seq<(String, String)>,
    entry: (Seq<char>, Seq<u8>),
)
    ensures
        with_allowed_headers(head, headers).headers.contains(entry) <==> (head.headers.contains(
            entry,
        ) || exists|i: int|
            0 <= i < headers.len() && !headers::is_forbidden((#[trigger] headers[i]).0@)
                && sent_as(headers[i]) == entry),
    decreases headers.len(),
{
    if headers.len() > 0 {
        let shorter = headers.drop_last();
        let last = headers.last();
        lemma_allowed_contains(head, shorter, entry);
        let before = with_allowed_headers(head, shorter);
        lemma_with_entry_contains(before.headers, sent_as(last).0, sent_as(last).1, entry);
        if exists|i: int|
            0 <= i < shorter.len() && !headers::is_forbidden((#[trigger] shorter[i]).0@) && sent_as(
                shorter[i],
            ) == entry {
            let i = choose|i: int|
                0 <= i < shorter.len() && !headers::is_forbidden((#[trigger] shorter[i]).0@)
                    && sent_as(shorter[i]) == entry;
            assert(headers[i] == shorter[i]);
        }
        if exists|i: int|
            0 <= i < headers.len() && !headers::is_forbidden((#[trigger] headers[i]).0@) && sent_as(
                headers[i],
            ) == entry {
            let i = choose|i: int|
                0 <= i < headers.len() && !headers::is_forbidden((#[trigger] headers[i]).0@)
                    && sent_as(headers[i]) == entry;
            if i < shorter.len() {
                assert(headers[i] == shorter[i]);
            }
        }
    }
}

/// The headers of a request as sent are the host of its URL and those headers of the guest that
/// are not forbidden, and no others.
pub proof fn law_sent_headers(req: HttpRequest, entry: (Seq<char>, Seq<u8>))
    ensures
        req.sent_head().headers.contains(entry) <==> (entry == ("host"@, vstd::utf8::encode_utf8(
            req.url.authority@,
        )) || exists|i: int|
            0 <= i < req.headers@.len() && !headers::is_forbidden((#[trigger] req.headers@[i]).0@)
                && sent_as(req.headers@[i]) == entry),
{
    lemma_host_is_a_name();
    lemma_allowed_contains(req.base_head(), req.headers@, entry);
    lemma_with_entry_contains(
        Seq::empty(),
        "host"@,
        vstd::utf8::encode_utf8(req.url.authority@),
        entry,
    );
}

/// What is sent: the method and the URI as asked for, the host, and of the guest's headers no
/// more than it has. Fewer headers than [`outside::header_room`] crowd nothing.
pub proof fn law_sent_head(req: HttpRequest)
    requires
        req.url.request_uri() is Some,
    ensures
        req.sent_head().method == req.method@,
        Some(req.sent_head().uri) == req.url.request_uri(),
        req.sent_head().headers.len() <= req.headers@.len() + 1,
        req.headers@.len() < outside::header_room() ==> !req.crowds(),
{
    lemma_with_entry_len(
        Seq::empty(),
        text::ascii_lower("host"@),
        vstd::utf8::encode_utf8(req.url.authority@),
    );
    lemma_allowed_keeps_target(req.base_head(), req.headers@);
    if req.headers@.len() < outside::header_room() {
        lemma_few_do_not_crowd(req.base_head(), req.headers@, outside::header_room());
    }
}

/// Those of some headers that a guest may set, in order.
pub open spec fn allowed(headers: Seq<(String, String)>) -> Seq<(String, String)> {
    headers.filter(|header: (String, String)| !headers::is_forbidden(header.0@))
}

/// Whether `stripped` is `req` without its forbidden headers.
pub open spec fn is_stripped(req: HttpRequest, stripped: HttpRequest) -> bool {
    &&& stripped.url.scheme@ == req.url.scheme@
    &&& stripped.url.authority@ == req.url.authority@
    &&& stripped.url.path_and_query@ == req.url.path_and_query@
    &&& stripped.method@ == req.method@
    &&& outside::body_frames(stripped.body) == outside::body_frames(req.body)
    &&& stripped.headers@ == allowed(req.headers@)
}

/// Whether two requests were built alike: with the same method, URI, headers, body and TLS, or not
/// at all, for the same reason.
pub open spec fn built_alike(
    a: Result<(hyper::Request<RequestBody>, bool), HttpError>,
    b: Result<(hyper::Request<RequestBody>, bool), HttpError>,
) -> bool {
    match (a, b) {
        (Ok((a, a_tls)), Ok((b, b_tls))) => {
            &&& outside::request_head(a) == outside::request_head(b)
            &&& outside::request_frames(a) == outside::request_frames(b)
            &&& a_tls == b_tls
        },
        (Err(a), Err(b)) => a == b,
        _ => false,
    }
}

/// Forbidden headers change nothing about what is built. A request and the request without them
/// send the same head, and crowd the header map alike. Whether that map has room (`fits`) or not,
/// both are built alike: a forbidden header neither reaches the request nor keeps it from being
/// built, not even by a value that cannot be sent. And where room is settled, whatever building
/// the two gives is alike.
pub proof fn law_forbidden_headers_change_nothing(
    req: HttpRequest,
    stripped: HttpRequest,
    fits: bool,
    built: Result<(hyper::Request<RequestBody>, bool), HttpError>,
    built_stripped: Result<(hyper::Request<RequestBody>, bool), HttpError>,
)
    requires
        is_stripped(req, stripped),
    ensures
        req.sent_head() == stripped.sent_head(),
        req.sendable() == stripped.sendable(),
        req.crowds() == stripped.crowds(),
        req.overflows() == stripped.overflows(),
        req.builds(built) == stripped.builds(built),
        req.builds_where(fits, built) && stripped.builds_where(fits, built_stripped)
            ==> built_alike(built, built_stripped),
        req.builds(built) && stripped.builds(built_stripped) && (!req.crowds() || req.overflows())
            ==> built_alike(built, built_stripped),
{
    lemma_allowed_is_all_that_counts(req.base_head(), req.headers@);
    lemma_sendable_is_of_allowed(req.headers@);
    lemma_crowding_is_of_allowed(req.base_head(), req.headers@, outside::header_room());
    lemma_crowding_is_of_allowed(req.base_head(), req.headers@, outside::header_limit());
}

proof fn lemma_crowding_is_of_allowed(
    head: RequestHead,
    headers: Seq<(String, String)>,
    room: nat,
)
    ensures
        crowded(head, headers, room) == crowded(head, allowed(headers), room),
    decreases headers.len(),
{
    reveal(Seq::filter);
    if headers.len() > 0 {
        let shorter = headers.drop_last();
        lemma_crowding_is_of_allowed(head, shorter, room);
        lemma_allowed_is_all_that_counts(head, shorter);
        if !headers::is_forbidden(headers.last().0@) {
            assert(allowed(headers).drop_last() =~= allowed(shorter));
            assert(allowed(headers).last() == headers.last());
        }
    }
}

proof fn lemma_allowed_is_all_that_counts(head: RequestHead, headers: Seq<(String, String)>)
    ensures
        with_allowed_headers(head, headers) == with_allowed_headers(head, allowed(headers)),
    decreases headers.len(),
{
    reveal(Seq::filter);
    if headers.len() > 0 {
        let shorter = headers.drop_last();
        lemma_allowed_is_all_that_counts(head, shorter);
        if !headers::is_forbidden(headers.last().0@) {
            assert(allowed(headers).drop_last() =~= allowed(shorter));
            assert(allowed(headers).last() == headers.last());
        }
    }
}

proof fn lemma_sendable_is_of_allowed(headers: Seq<(String, String)>)
    ensures
        headers_sendable(headers) == headers_sendable(allowed(headers)),
    decreases headers.len(),
{
    reveal(Seq::filter);
    if headers.len() > 0 {
        let shorter = headers.drop_last();
        let last = headers.last();
        lemma_sendable_is_of_allowed(shorter);
        assert(shorter.push(last) =~= headers);
        lemma_one_more_sendable(shorter, last);
        if !headers::is_forbidden(last.0@) {
            assert(allowed(headers) =~= allowed(shorter).push(last));
            lemma_one_more_sendable(allowed(shorter), last);
        }
    }
}

proof fn lemma_one_more_sendable(headers: Seq<(String, String)>, last: (String, String))
    ensures
        headers_sendable(headers.push(last)) == (headers_sendable(headers) && (
        headers::is_forbidden(last.0@) || (outside::is_header_name(last.0@)
            && outside::is_header_value(last.1@)))),
{
    let longer = headers.push(last);
    assert(longer[headers.len() as int] == last);
    assert forall|i: int| 0 <= i < headers.len() implies longer[i] == #[trigger] headers[i] by {}
    if headers_sendable(longer) {
        assert forall|i: int|
            0 <= i < headers.len() && !headers::is_forbidden((#[trigger] headers[i]).0@) implies (
        outside::is_header_name(headers[i].0@) && outside::is_header_value(headers[i].1@)) by {
            assert(longer[i] == headers[i]);
        }
    }
}

/// Whether the first of some entries is `first` and no other has a forbidden name.
spec fn only_first_forbidden(
    entries: Seq<(Seq<char>, Seq<u8>)>,
    first: (Seq<char>, Seq<u8>),
) -> bool {
    &&& entries.len() > 0
    &&& entries[0] == first
    &&& forall|i: int| 0 < i < entries.len() ==> !headers::is_forbidden((#[trigger] entries[i]).0)
}

proof fn lemma_first_stays_first(
    entries: Seq<(Seq<char>, Seq<u8>)>,
    first: (Seq<char>, Seq<u8>),
    name: Seq<char>,
    value: Seq<u8>,
)
    requires
        only_first_forbidden(entries, first),
        headers::is_forbidden(first.0),
        !headers::is_forbidden(name),
    ensures
        only_first_forbidden(outside::with_entry(entries, name, value), first),
    decreases entries.len(),
{
    if !(entries.last().0 == name || (forall|i: int|
        0 <= i < entries.len() ==> (#[trigger] entries[i]).0 != name)) {
        assert(entries.len() > 1);
        let shorter = entries.drop_last();
        assert forall|i: int| 0 < i < shorter.len() implies !headers::is_forbidden(
            (#[trigger] shorter[i]).0,
        ) by {
            assert(shorter[i] == entries[i]);
        }
        lemma_first_stays_first(shorter, first, name, value);
    }
}

proof fn lemma_allowed_keeps_first(
    head: RequestHead,
    first: (Seq<char>, Seq<u8>),
    headers: Seq<(String, String)>,
)
    requires
        only_first_forbidden(head.headers, first),
        headers::is_forbidden(first.0),
    ensures
        only_first_forbidden(with_allowed_headers(head, headers).headers, first),
    decreases headers.len(),
{
    if headers.len() > 0 {
        lemma_allowed_keeps_first(head, first, headers.drop_last());
        let last = headers.last();
        if !headers::is_forbidden(last.0@) {
            lemma_lower_twice(last.0@);
            headers::law_forbidden_ignores_case(sent_as(last).0, last.0@);
            lemma_first_stays_first(
                with_allowed_headers(head, headers.drop_last()).headers,
                first,
                sent_as(last).0,
                sent_as(last).1,
            );
        }
    }
}

/// The first header of a request as sent is the host of its URL, and no other header that is sent
/// has a forbidden name: a guest can neither set the host nor add a second.
pub proof fn law_no_forbidden_header_is_sent(req: HttpRequest)
    ensures
        req.sent_head().headers.len() > 0,
        req.sent_head().headers[0] == ("host"@, vstd::utf8::encode_utf8(req.url.authority@)),
        forall|i: int|
            0 < i < req.sent_head().headers.len() ==> !headers::is_forbidden(
                (#[trigger] req.sent_head().headers[i]).0,
            ),
{
    let host = ("host"@, vstd::utf8::encode_utf8(req.url.authority@));
    lemma_host_is_a_name();
    assert(req.base_head().headers =~= seq![host]);
    lemma_allowed_keeps_first(req.base_head(), host, req.headers@);
}

} // verus!
