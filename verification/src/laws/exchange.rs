//! Laws of an outbound HTTP exchange.

use vstd::prelude::*;

use crate::exchange;
use crate::exchange::{
    BodyEvent, HttpError, HttpRequest, HttpResponse, Outgoing, ParsedUrl, ReadStep, ResponseReader,
    MAX_RESPONSE_BYTES, REQUEST_TIMEOUT_SECS,
};
use crate::headers;
use crate::laws::headers as header_laws;
use crate::laws::shared;
use crate::outside;
use crate::outside::{BodyFrame, RequestBody, RequestHead};
use crate::table::Table;
use crate::text;

verus! {

/// The values that a name has among some headers, in order.
pub open spec fn values_of(
    entries: Seq<(Seq<char>, Seq<u8>)>,
    name: Seq<char>,
) -> Seq<Seq<u8>>
    decreases entries.len(),
{
    if entries.len() == 0 {
        Seq::empty()
    } else if entries.last().0 == name {
        values_of(entries.drop_last(), name).push(entries.last().1)
    } else {
        values_of(entries.drop_last(), name)
    }
}

/// The values that a guest gives to a name in small letters, in order, where it may set that name.
pub open spec fn values_given(headers: Seq<(String, String)>, name: Seq<char>) -> Seq<Seq<u8>>
    decreases headers.len(),
{
    if headers.len() == 0 {
        Seq::empty()
    } else {
        let before = values_given(headers.drop_last(), name);
        let last = headers.last();
        if !header_laws::must_not_be_set(last.0@) && shared::spells(last.0@, name) {
            before.push(vstd::utf8::encode_utf8(last.1@))
        } else {
            before
        }
    }
}

/// A head to which a guest's headers are added from the first to the last, but for those that it
/// must not set.
pub open spec fn with_given(head: RequestHead, headers: Seq<(String, String)>) -> RequestHead
    decreases headers.len(),
{
    if headers.len() == 0 {
        head
    } else if header_laws::must_not_be_set(headers[0].0@) {
        with_given(head, headers.drop_first())
    } else {
        with_given(
            outside::with_header(head, headers[0].0@, headers[0].1@),
            headers.drop_first(),
        )
    }
}

proof fn lemma_given_last(head: RequestHead, headers: Seq<(String, String)>)
    requires
        headers.len() > 0,
    ensures
        with_given(head, headers) == if header_laws::must_not_be_set(headers.last().0@) {
            with_given(head, headers.drop_last())
        } else {
            outside::with_header(
                with_given(head, headers.drop_last()),
                headers.last().0@,
                headers.last().1@,
            )
        },
    decreases headers.len(),
{
    let rest = headers.drop_first();
    if headers.len() == 1 {
        reveal_with_fuel(with_given, 2);
        assert(headers.drop_last() =~= Seq::empty());
        assert(rest =~= Seq::empty());
    } else {
        let next = if header_laws::must_not_be_set(headers[0].0@) {
            head
        } else {
            outside::with_header(head, headers[0].0@, headers[0].1@)
        };
        lemma_given_last(next, rest);
        assert(rest.drop_last() =~= headers.drop_last().drop_first());
        assert(rest.last() == headers.last());
        assert(headers.drop_last()[0] == headers[0]);
    }
}

proof fn lemma_given(head: RequestHead, headers: Seq<(String, String)>)
    ensures
        exchange::with_allowed_headers(head, headers) == with_given(head, headers),
    decreases headers.len(),
{
    if headers.len() > 0 {
        lemma_given(head, headers.drop_last());
        lemma_given_last(head, headers);
        header_laws::law_forbidden_names(headers.last().0@);
    }
}

/// How many headers a guest gives that it may set.
pub open spec fn given_count(headers: Seq<(String, String)>) -> nat
    decreases headers.len(),
{
    if headers.len() == 0 {
        0
    } else if header_laws::must_not_be_set(headers.last().0@) {
        given_count(headers.drop_last())
    } else {
        given_count(headers.drop_last()) + 1
    }
}

/// The names that are sent: that of the host, and those that the guest gives and may set.
pub open spec fn names_sent(headers: Seq<(String, String)>) -> Set<Seq<char>> {
    Set::new(
        |name: Seq<char>|
            name == "host"@ || exists|i: int|
                0 <= i < headers.len() && !header_laws::must_not_be_set((#[trigger] headers[i]).0@)
                    && shared::spells(headers[i].0@, name),
    )
}

/// The scheme of a request: that of a URL that asks for TLS, or the plain one.
pub open spec fn scheme_asked_for(req: HttpRequest) -> Seq<char> {
    if req.url.scheme@ == "https"@ {
        "https"@
    } else {
        "http"@
    }
}

/// Whether the method of a request is one.
pub open spec fn has_method(req: HttpRequest) -> bool {
    outside::is_token(req.method@)
}

/// Whether the URL of a request makes a request URI.
pub open spec fn has_uri(req: HttpRequest) -> bool {
    outside::makes_uri(scheme_asked_for(req), req.url.authority@, req.url.path_and_query@)
}

/// Whether the host, and each header that the guest may set, can be sent.
pub open spec fn has_good_headers(req: HttpRequest) -> bool {
    &&& outside::is_header_value(req.url.authority@)
    &&& forall|i: int|
        0 <= i < req.headers@.len() && !header_laws::must_not_be_set(
            (#[trigger] req.headers@[i]).0@,
        ) ==> outside::is_header_name(req.headers@[i].0@) && outside::is_header_value(
            req.headers@[i].1@,
        )
}

/// Whether a request is what was asked for: its method, its URI and TLS, the body as given, and as
/// headers the host first and then, in order, what the guest gives to names that it may set, value
/// by value, and no others.
pub open spec fn is_asked_for(
    req: HttpRequest,
    request: hyper::Request<RequestBody>,
    use_tls: bool,
) -> bool {
    let head = outside::request_head(request);
    let host = vstd::utf8::encode_utf8(req.url.authority@);
    &&& head.method == req.method@
    &&& head.uri == outside::uri_of(
        scheme_asked_for(req),
        req.url.authority@,
        req.url.path_and_query@,
    )
    &&& use_tls <==> req.url.scheme@ == "https"@
    &&& outside::request_frames(request) == outside::body_frames(req.body)
    &&& head == with_given(
        RequestHead { headers: seq![("host"@, host)], ..head },
        req.headers@,
    )
    &&& head.headers.len() == given_count(req.headers@) + 1
    &&& head.headers[0] == ("host"@, host)
    &&& forall|name: Seq<char>| #[trigger]
        values_of(head.headers, name) == if name == "host"@ {
            seq![host]
        } else {
            values_given(req.headers@, name)
        }
}

/// Whether `built` is what building a request should give.
pub open spec fn is_right_build(
    req: HttpRequest,
    built: Result<(hyper::Request<RequestBody>, bool), HttpError>,
) -> bool {
    match built {
        Ok((request, use_tls)) => {
            &&& has_method(req)
            &&& has_uri(req)
            &&& has_good_headers(req)
            &&& names_sent(req.headers@).len() <= outside::header_limit()
            &&& is_asked_for(req, request, use_tls)
        },
        Err(HttpError::InvalidMethod) => !has_method(req),
        Err(HttpError::InvalidUri) => has_method(req) && !has_uri(req),
        Err(HttpError::InvalidRequest) => {
            &&& has_method(req)
            &&& has_uri(req)
            &&& !has_good_headers(req) || names_sent(req.headers@).len() >= outside::header_room()
        },
        Err(_) => false,
    }
}

proof fn lemma_values_of_entry(
    entries: Seq<(Seq<char>, Seq<u8>)>,
    name: Seq<char>,
    value: Seq<u8>,
    m: Seq<char>,
)
    ensures
        values_of(outside::with_entry(entries, name, value), m) == if m == name {
            values_of(entries, m).push(value)
        } else {
            values_of(entries, m)
        },
        outside::with_entry(entries, name, value).len() == entries.len() + 1,
    decreases entries.len(),
{
    let after = outside::with_entry(entries, name, value);
    if entries.len() == 0 || entries.last().0 == name || (forall|i: int|
        0 <= i < entries.len() ==> (#[trigger] entries[i]).0 != name) {
        assert(after.drop_last() =~= entries);
    } else {
        let shorter = entries.drop_last();
        lemma_values_of_entry(shorter, name, value, m);
        assert(after.drop_last() =~= outside::with_entry(shorter, name, value));
        assert(after.last() == entries.last());
    }
}

proof fn lemma_sent(head: RequestHead, headers: Seq<(String, String)>, name: Seq<char>)
    ensures
        values_of(exchange::with_allowed_headers(head, headers).headers, name) == values_of(
            head.headers,
            name,
        ) + values_given(headers, name),
        exchange::with_allowed_headers(head, headers).headers.len() == head.headers.len()
            + given_count(headers),
    decreases headers.len(),
{
    let values = values_of(exchange::with_allowed_headers(head, headers).headers, name);
    if headers.len() == 0 {
        assert(values =~= values_of(head.headers, name) + values_given(headers, name));
    } else {
        let before = exchange::with_allowed_headers(head, headers.drop_last());
        let last = headers.last();
        lemma_sent(head, headers.drop_last(), name);
        header_laws::law_forbidden_names(last.0@);
        shared::law_folded_text(last.0@, name);
        lemma_values_of_entry(
            before.headers,
            text::ascii_lower(last.0@),
            vstd::utf8::encode_utf8(last.1@),
            name,
        );
        assert(values =~= values_of(head.headers, name) + values_given(headers, name));
    }
}

proof fn lemma_host()
    ensures
        text::ascii_lower("host"@) == "host"@,
        header_laws::must_not_be_set("host"@),
{
    reveal_strlit("host");
    assert(shared::spells("host"@, "host"@));
    shared::law_folded_text("host"@, "host"@);
}

/// No value is given to the host.
proof fn lemma_host_is_not_given(headers: Seq<(String, String)>)
    ensures
        values_given(headers, "host"@).len() == 0,
    decreases headers.len(),
{
    if headers.len() > 0 {
        lemma_host_is_not_given(headers.drop_last());
    }
}

/// The names among some entries.
spec fn names_among(entries: Seq<(Seq<char>, Seq<u8>)>) -> Set<Seq<char>> {
    entries.map_values(|entry: (Seq<char>, Seq<u8>)| entry.0).to_set()
}

proof fn lemma_names_of_entry(
    entries: Seq<(Seq<char>, Seq<u8>)>,
    name: Seq<char>,
    value: Seq<u8>,
)
    ensures
        names_among(outside::with_entry(entries, name, value)) == names_among(entries).insert(name),
    decreases entries.len(),
{
    let after = outside::with_entry(entries, name, value);
    if entries.len() == 0 || entries.last().0 == name || (forall|i: int|
        0 <= i < entries.len() ==> (#[trigger] entries[i]).0 != name) {
        lemma_names_of_push(entries, (name, value));
    } else {
        let shorter = entries.drop_last();
        lemma_names_of_entry(shorter, name, value);
        lemma_names_of_push(outside::with_entry(shorter, name, value), entries.last());
        lemma_names_of_push(shorter, entries.last());
        assert(shorter.push(entries.last()) =~= entries);
        assert(names_among(after) =~= names_among(entries).insert(name));
    }
}

proof fn lemma_names_of_push(
    entries: Seq<(Seq<char>, Seq<u8>)>,
    entry: (Seq<char>, Seq<u8>),
)
    ensures
        names_among(entries.push(entry)) == names_among(entries).insert(entry.0),
{
    let names = entries.map_values(|entry: (Seq<char>, Seq<u8>)| entry.0);
    let longer = entries.push(entry).map_values(|entry: (Seq<char>, Seq<u8>)| entry.0);
    assert(longer =~= names.push(entry.0));
    assert forall|name: Seq<char>| longer.contains(name) <==> names.contains(name) || name
        == entry.0 by {
        if names.contains(name) {
            let i = choose|i: int| 0 <= i < names.len() && names[i] == name;
            assert(longer[i] == name);
        }
        assert(longer[names.len() as int] == entry.0);
        if longer.contains(name) && name != entry.0 {
            let i = choose|i: int| 0 <= i < longer.len() && longer[i] == name;
            assert(names[i] == name);
        }
    }
    assert(names_among(entries.push(entry)) =~= names_among(entries).insert(entry.0));
}

/// The names that are sent are those of the head, and they crowd it as they come.
proof fn lemma_names_sent(head: RequestHead, headers: Seq<(String, String)>, room: nat)
    requires
        names_among(head.headers) == set!["host"@],
        room > 0,
    ensures
        names_among(exchange::with_allowed_headers(head, headers).headers) == names_sent(headers),
        names_sent(headers).finite(),
        exchange::crowded(head, headers, room) ==> names_sent(headers).len() >= room,
        names_sent(headers).len() > room ==> exchange::crowded(head, headers, room),
    decreases headers.len(),
{
    let all = exchange::with_allowed_headers(head, headers);
    let names = all.headers.map_values(|entry: (Seq<char>, Seq<u8>)| entry.0);
    if headers.len() == 0 {
        assert(names_sent(headers) =~= set!["host"@]);
    } else {
        let shorter = headers.drop_last();
        let last = headers.last();
        let before = exchange::with_allowed_headers(head, shorter);
        let folded = text::ascii_lower(last.0@);
        lemma_names_sent(head, shorter, room);
        header_laws::law_forbidden_names(last.0@);
        lemma_names_of_entry(before.headers, folded, vstd::utf8::encode_utf8(last.1@));
        assert forall|name: Seq<char>| names_sent(headers).contains(name) <==> names_sent(
            shorter,
        ).contains(name) || (!header_laws::must_not_be_set(last.0@) && name == folded) by {
            shared::law_folded_text(last.0@, name);
            if name != "host"@ && names_sent(shorter).contains(name) {
                let i = choose|i: int|
                    0 <= i < shorter.len() && !header_laws::must_not_be_set(
                        (#[trigger] shorter[i]).0@,
                    ) && shared::spells(shorter[i].0@, name);
                assert(headers[i] == shorter[i]);
            }
            if !header_laws::must_not_be_set(last.0@) && name == folded {
                assert(headers[headers.len() - 1] == last);
            }
            if name != "host"@ && names_sent(headers).contains(name) {
                let i = choose|i: int|
                    0 <= i < headers.len() && !header_laws::must_not_be_set(
                        (#[trigger] headers[i]).0@,
                    ) && shared::spells(headers[i].0@, name);
                if i < shorter.len() {
                    assert(headers[i] == shorter[i]);
                }
            }
        }
        if header_laws::must_not_be_set(last.0@) {
            assert(names_sent(headers) =~= names_sent(shorter));
        } else {
            assert(names_sent(headers) =~= names_sent(shorter).insert(folded));
        }
    }
}

proof fn lemma_build(
    req: HttpRequest,
    built: Result<(hyper::Request<RequestBody>, bool), HttpError>,
)
    requires
        req.builds(built),
    ensures
        is_right_build(req, built),
{
    let host = vstd::utf8::encode_utf8(req.url.authority@);
    let base = req.base_head();
    lemma_host();
    assert(base.headers =~= seq![("host"@, host)]);
    lemma_names_of_push(Seq::empty(), ("host"@, host));
    assert(Seq::<(Seq<char>, Seq<u8>)>::empty().push(("host"@, host)) =~= base.headers);
    assert(names_among(Seq::empty()) =~= Set::empty());
    assert(names_among(base.headers) =~= set!["host"@]);
    lemma_names_sent(base, req.headers@, outside::header_room());
    lemma_names_sent(base, req.headers@, outside::header_limit());
    assert forall|i: int| 0 <= i < req.headers@.len() implies headers::is_forbidden(
        (#[trigger] req.headers@[i]).0@,
    ) == header_laws::must_not_be_set(req.headers@[i].0@) by {
        header_laws::law_forbidden_names(req.headers@[i].0@);
    }
    assert(has_good_headers(req) == req.sendable());
    if let Ok((request, use_tls)) = built {
        exchange::law_sent_head(req);
        exchange::law_no_forbidden_header_is_sent(req);
        lemma_sent(base, req.headers@, "host"@);
        lemma_given(base, req.headers@);
        assert(base =~= (RequestHead {
            headers: seq![("host"@, host)],
            ..outside::request_head(request)
        }));
        assert forall|name: Seq<char>| #[trigger]
            values_of(outside::request_head(request).headers, name) == if name == "host"@ {
                seq![host]
            } else {
                values_given(req.headers@, name)
            } by {
            lemma_sent(base, req.headers@, name);
            lemma_host_is_not_given(req.headers@);
            reveal_with_fuel(values_of, 2);
            assert(base.headers.drop_last() =~= Seq::empty());
            assert(values_of(base.headers, name) =~= if name == "host"@ {
                seq![host]
            } else {
                Seq::empty()
            });
            assert(values_of(outside::request_head(request).headers, name) =~= if name == "host"@ {
                seq![host]
            } else {
                values_given(req.headers@, name)
            });
        }
    }
}

/// Building a request gives what was asked for, whatever the method; or it fails because the
/// method is none, because the URL makes no request URI, or because a header cannot be sent, and
/// says which. Too many names can only be too many from the room that is sure on, and are from the
/// limit on.
pub proof fn law_built_request(
    req: HttpRequest,
    built: Result<(hyper::Request<RequestBody>, bool), HttpError>,
)
    requires
        call_ensures(exchange::build_hyper_request, (req,), built),
    ensures
        is_right_build(req, built),
{
    lemma_build(req, built);
}

/// A request that is built carries the body it was given.
pub proof fn law_body_is_carried(
    req: HttpRequest,
    request: hyper::Request<RequestBody>,
    use_tls: bool,
)
    requires
        call_ensures(
            exchange::build_hyper_request,
            (req,),
            Ok::<(hyper::Request<RequestBody>, bool), HttpError>((request, use_tls)),
        ),
    ensures
        outside::request_frames(request) == outside::body_frames(req.body),
{
}

/// A request is sent as it is built, with the configured timeouts, unless outbound HTTP is
/// switched off.
pub proof fn law_sending_begins(
    available: bool,
    req: HttpRequest,
    outgoing: Result<Outgoing, HttpError>,
)
    requires
        call_ensures(exchange::begin_send, (available, req), outgoing),
    ensures
        !available <==> outgoing == Err::<Outgoing, HttpError>(HttpError::Unavailable),
        outgoing matches Ok(o) ==> {
            &&& is_right_build(req, Ok((o.request, o.use_tls)))
            &&& o.connect_timeout_secs == REQUEST_TIMEOUT_SECS
            &&& o.first_byte_timeout_secs == REQUEST_TIMEOUT_SECS
            &&& o.between_bytes_timeout_secs == REQUEST_TIMEOUT_SECS
        },
        available ==> (outgoing matches Err(error) ==> is_right_build(req, Err(error))),
{
    match outgoing {
        Ok(o) => lemma_build(req, Ok((o.request, o.use_tls))),
        Err(error) => if available {
            lemma_build(req, Err(error));
        },
    }
}

/// A body made of bytes yields those bytes in one piece, or nothing where there are none.
pub proof fn law_body_of_bytes(data: Option<Vec<u8>>, body: RequestBody)
    requires
        call_ensures(HttpRequest::body_from_bytes, (data,), body),
    ensures
        data is None ==> outside::body_frames(body).len() == 0,
        data matches Some(bytes) ==> if bytes@.len() == 0 {
            outside::body_frames(body).len() == 0
        } else {
            outside::body_frames(body) == seq![BodyFrame::Data(bytes@)]
        },
{
}

/// A URL is taken apart into the parts that it has.
pub proof fn law_parsed_url(text: &str, parsed: Result<ParsedUrl, url::ParseError>)
    requires
        call_ensures(ParsedUrl::parse, (text,), parsed),
    ensures
        outside::url_parts(text@) is None <==> parsed is Err,
        parsed matches Ok(url) ==> (outside::url_parts(text@) matches Some(parts) && {
            let (serialization, scheme, authority, path_and_query) = parts;
            &&& url.serialization@ == serialization
            &&& url.scheme@ == scheme
            &&& url.authority@ == authority
            &&& url.path_and_query@ == path_and_query
        }),
{
}

/// A response that ends at once has the status it came with, the headers that are kept of those it
/// came with, and an empty body.
pub proof fn law_empty_response(
    status: u16,
    raw: &http::HeaderMap,
    reader: ResponseReader,
    step: ReadStep,
    key: &str,
    got: Option<&String>,
    count: usize,
)
    requires
        call_ensures(ResponseReader::new, (status, raw), reader),
        call_ensures(ResponseReader::feed, (reader, BodyEvent::End), step),
        step matches ReadStep::Finished(response) ==> call_ensures(
            Table::<String>::get,
            (&response.headers, key),
            got,
        ) && call_ensures(Table::<String>::len, (&response.headers,), count),
    ensures
        step matches ReadStep::Finished(response) && {
            &&& response.status == status
            &&& response.body@.len() == 0
            &&& exists|n: int|
                header_laws::is_kept_up_to(
                    outside::header_entries(*raw),
                    count as nat,
                    key@,
                    header_laws::view_of(got),
                    n,
                )
        },
{
    if let ReadStep::Finished(response) = step {
        header_laws::lemma_kept(
            outside::header_entries(*raw),
            response.headers,
            key@,
            header_laws::view_of(got),
        );
    }
}

/// A frame of data that arrives before the end adds its bytes to the body and changes nothing
/// else, as long as the body stays within the limit; else the response is lost for its size.
pub proof fn law_data_adds_up(
    reader: ResponseReader,
    data: Vec<u8>,
    without: HttpResponse,
    step: ReadStep,
    with: ReadStep,
)
    requires
        call_ensures(
            ResponseReader::feed,
            (reader, BodyEvent::End),
            ReadStep::Finished(without),
        ),
        call_ensures(ResponseReader::feed, (reader, BodyEvent::Data(data)), step),
        step matches ReadStep::Continue(next) ==> call_ensures(
            ResponseReader::feed,
            (next, BodyEvent::End),
            with,
        ),
    ensures
        without.body@.len() + data@.len() > MAX_RESPONSE_BYTES ==> step == ReadStep::Failed(
            HttpError::BodyTooLarge,
        ),
        without.body@.len() + data@.len() <= MAX_RESPONSE_BYTES ==> step is Continue && (
        with matches ReadStep::Finished(response) && {
            &&& response.status == without.status
            &&& response.headers == without.headers
            &&& response.body@ == without.body@ + data@
        }),
{
}

/// A frame without data changes nothing.
pub proof fn law_frame_without_data(
    reader: ResponseReader,
    without: HttpResponse,
    step: ReadStep,
    with: ReadStep,
)
    requires
        call_ensures(
            ResponseReader::feed,
            (reader, BodyEvent::End),
            ReadStep::Finished(without),
        ),
        call_ensures(ResponseReader::feed, (reader, BodyEvent::NoData), step),
        step matches ReadStep::Continue(next) ==> call_ensures(
            ResponseReader::feed,
            (next, BodyEvent::End),
            with,
        ),
    ensures
        step is Continue,
        with matches ReadStep::Finished(response) && {
            &&& response.status == without.status
            &&& response.headers == without.headers
            &&& response.body@ == without.body@
        },
{
}

/// Only the end completes a response; a body that is late or broken loses it, and a broken one
/// tells how.
pub proof fn law_ends_of_a_response(
    reader: ResponseReader,
    at_end: ReadStep,
    late: ReadStep,
    words: String,
    broken: ReadStep,
)
    requires
        call_ensures(ResponseReader::feed, (reader, BodyEvent::End), at_end),
        call_ensures(ResponseReader::feed, (reader, BodyEvent::TimedOut), late),
        call_ensures(ResponseReader::feed, (reader, BodyEvent::Failed(words)), broken),
    ensures
        at_end is Finished,
        late == ReadStep::Failed(HttpError::ReadTimedOut),
        broken == ReadStep::Failed(HttpError::ReadFailed(words)),
{
}

/// What the errors of an exchange read as; those that have a detail end with it.
pub proof fn law_http_messages(error: &HttpError, message: String)
    requires
        call_ensures(HttpError::message, (error,), message),
    ensures
        message@ == match *error {
            HttpError::Unavailable =>
                "outbound HTTP is unavailable: the `wasi-http` feature is disabled"@,
            HttpError::InvalidMethod => "invalid HTTP method: invalid HTTP method"@,
            HttpError::InvalidUri => "failed to build request URI"@,
            HttpError::InvalidRequest => "failed to build request"@,
            HttpError::SendFailed(detail) => "HTTP request failed: "@ + detail@,
            HttpError::ReadTimedOut => "response body read timed out"@,
            HttpError::ReadFailed(detail) => "response body read error: "@ + detail@,
            HttpError::BodyTooLarge => "response body exceeded 16 MiB limit"@,
        },
{
}

} // verus!
