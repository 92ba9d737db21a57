//! Laws of the host tools.

use vstd::prelude::*;

use crate::exchange::HttpResponse;
use crate::headers::MAX_RESPONSE_HEADER_COUNT;
use crate::laws::headers as header_laws;
use crate::outside;
use crate::outside::{BodyFrame, Json};
use crate::table;
use crate::table::Table;
use crate::tools;
use crate::tools::{
    FetchAsking, FetchOptions, FetchRead, FetchStep, FileReply, FileWrite, Permission, ToolCall,
    ToolError,
};

verus! {

/// Whether a value has a text under a name.
pub open spec fn has_text(json: Json, key: Seq<char>, text: Seq<char>) -> bool {
    json matches Json::Object(fields) && fields.contains_key(key) && fields[key] == Json::Text(text)
}

/// Whether a value has no text under a name.
pub open spec fn lacks_text(json: Json, key: Seq<char>) -> bool {
    forall|text: Seq<char>| !#[trigger] has_text(json, key, text)
}

proof fn lemma_text(json: Json, key: Seq<char>)
    ensures
        tools::text_field(json, key) is None <==> lacks_text(json, key),
        tools::text_field(json, key) matches Some(text) ==> has_text(json, key, text),
        forall|text: Seq<char>| #[trigger]
            has_text(json, key, text) ==> tools::text_field(json, key) == Some(text),
{
    if let Some(text) = tools::text_field(json, key) {
        assert(has_text(json, key, text));
    }
}

/// A `call_tool` calls the tool of the name that is given, with the arguments that are given, or
/// with null. It fails exactly where no name is given.
pub proof fn law_tool_is_called(
    args: &serde_json::Value,
    call: Result<ToolCall, ToolError>,
)
    requires
        call_ensures(tools::plan_call_tool, (args,), call),
    ensures
        lacks_text(outside::json_of(*args), "name"@) <==> call is Err,
        call is Err ==> call == Err::<ToolCall, ToolError>(ToolError::CallWithoutName),
        call matches Ok(c) ==> {
            &&& has_text(outside::json_of(*args), "name"@, c.name@)
            &&& outside::json_of(*args) matches Json::Object(fields)
            &&& outside::json_of(c.args) == if fields.contains_key("args"@) {
                fields["args"@]
            } else {
                Json::Null
            }
        },
{
    lemma_text(outside::json_of(*args), "name"@);
}

/// A `read_file` reads the file at the path that is given. It fails exactly where none is given.
pub proof fn law_file_is_read(args: &serde_json::Value, path: Result<String, ToolError>)
    requires
        call_ensures(tools::plan_read_file, (args,), path),
    ensures
        lacks_text(outside::json_of(*args), "path"@) <==> path is Err,
        path is Err ==> path == Err::<String, ToolError>(ToolError::ReadWithoutPath),
        path matches Ok(p) ==> has_text(outside::json_of(*args), "path"@, p@),
{
    lemma_text(outside::json_of(*args), "path"@);
}

/// A `read_file` is answered with all bytes of the file, one number each, and nothing else; or
/// fails as the files did.
pub proof fn law_read_answer(
    reply: FileReply<Vec<u8>>,
    answer: Result<serde_json::Value, ToolError>,
)
    requires
        call_ensures(tools::answer_read_file, (reply,), answer),
    ensures
        reply matches FileReply::Done(data) ==> (answer matches Ok(value) && {
            &&& outside::json_of(value) matches Json::Object(fields)
            &&& fields.dom() == set!["data"@]
            &&& fields["data"@] matches Json::Array(items)
            &&& items.len() == data@.len()
            &&& forall|i: int|
                0 <= i < data@.len() ==> #[trigger] items[i] == Json::Number(
                    Some(data@[i] as int),
                )
        }),
        reply is Poisoned ==> answer == Err::<serde_json::Value, ToolError>(
            ToolError::FilesystemPoisoned,
        ),
        reply matches FileReply::Refused(words) ==> answer == Err::<serde_json::Value, ToolError>(
            ToolError::Host(words),
        ),
{
    if let Ok(value) = answer {
        assert(outside::json_of(value)->Object_0.dom() =~= set!["data"@]);
    }
}

/// A `write_file` that gives a text writes all of it, encoded as UTF-8, to the path that is given:
/// what is written reads back as the text.
pub proof fn law_text_is_written(
    args: &serde_json::Value,
    path: Seq<char>,
    text: Seq<char>,
    write: Result<FileWrite, ToolError>,
)
    requires
        call_ensures(tools::plan_write_file, (args,), write),
        has_text(outside::json_of(*args), "path"@, path),
        has_text(outside::json_of(*args), "text"@, text),
    ensures
        write matches Ok(w) && {
            &&& w.path@ == path
            &&& w.data@ == vstd::utf8::encode_utf8(text)
            &&& vstd::utf8::valid_utf8(w.data@)
            &&& vstd::utf8::decode_utf8(w.data@) == text
        },
{
    lemma_text(outside::json_of(*args), "path"@);
    lemma_text(outside::json_of(*args), "text"@);
    vstd::utf8::encode_utf8_valid_utf8(text);
    vstd::utf8::encode_utf8_decode_utf8(text);
}

/// Whether some items are the numbers of some bytes.
pub open spec fn are_bytes(items: Seq<Json>, bytes: Seq<u8>) -> bool {
    &&& items.len() == bytes.len()
    &&& forall|i: int|
        0 <= i < bytes.len() ==> #[trigger] items[i] == Json::Number(Some(bytes[i] as int))
}

/// A `write_file` that gives no text but bytes writes all of them to the path that is given, where
/// they are bytes, and fails where they are not.
pub proof fn law_bytes_are_written(
    args: &serde_json::Value,
    path: Seq<char>,
    given: Json,
    write: Result<FileWrite, ToolError>,
)
    requires
        call_ensures(tools::plan_write_file, (args,), write),
        has_text(outside::json_of(*args), "path"@, path),
        lacks_text(outside::json_of(*args), "text"@),
        outside::json_of(*args) matches Json::Object(fields) && fields.contains_key("bytes"@)
            && fields["bytes"@] == given,
    ensures
        write matches Ok(w) ==> {
            &&& w.path@ == path
            &&& given matches Json::Array(items)
            &&& are_bytes(items, w.data@)
        },
        write is Err ==> {
            &&& write == Err::<FileWrite, ToolError>(ToolError::WriteOfNoBytes)
            &&& forall|items: Seq<Json>, bytes: Seq<u8>|
                given == Json::Array(items) ==> !#[trigger] are_bytes(items, bytes)
        },
{
    lemma_text(outside::json_of(*args), "path"@);
    lemma_text(outside::json_of(*args), "text"@);
    if write is Err {
        assert forall|items: Seq<Json>, bytes: Seq<u8>| given == Json::Array(
            items,
        ) implies !#[trigger] are_bytes(items, bytes) by {
            if are_bytes(items, bytes) {
                assert forall|i: int| 0 <= i < items.len() implies (#[trigger]
                items[i]).is_byte() by {}
                assert(given.is_bytes());
            }
        }
    } else {
        let w = write->Ok_0;
        let items = given->Array_0;
        assert forall|i: int| 0 <= i < w.data@.len() implies #[trigger] items[i] == Json::Number(
            Some(w.data@[i] as int),
        ) by {
            assert(items[i].is_byte());
        }
    }
}

/// A `write_file` without a path fails for that, and one with a path but neither text nor bytes
/// fails for those.
pub proof fn law_write_without_content(
    args: &serde_json::Value,
    write: Result<FileWrite, ToolError>,
)
    requires
        call_ensures(tools::plan_write_file, (args,), write),
    ensures
        lacks_text(outside::json_of(*args), "path"@) <==> write == Err::<FileWrite, ToolError>(
            ToolError::WriteWithoutPath,
        ),
        !lacks_text(outside::json_of(*args), "path"@) && lacks_text(
            outside::json_of(*args),
            "text"@,
        ) && (outside::json_of(*args) matches Json::Object(fields) && !fields.contains_key(
            "bytes"@,
        )) ==> write == Err::<FileWrite, ToolError>(ToolError::WriteOfNothing),
{
    lemma_text(outside::json_of(*args), "path"@);
    lemma_text(outside::json_of(*args), "text"@);
}

/// A `write_file` is answered that it is done, or fails as the files did.
pub proof fn law_write_answer(
    reply: FileReply<()>,
    answer: Result<serde_json::Value, ToolError>,
)
    requires
        call_ensures(tools::answer_write_file, (reply,), answer),
    ensures
        reply is Done ==> (answer matches Ok(value) && {
            &&& outside::json_of(value) matches Json::Object(fields)
            &&& fields.dom() == set!["ok"@]
            &&& fields["ok"@] == Json::Bool(true)
        }),
        reply is Poisoned ==> answer == Err::<serde_json::Value, ToolError>(
            ToolError::FilesystemPoisoned,
        ),
        reply matches FileReply::Refused(words) ==> answer == Err::<serde_json::Value, ToolError>(
            ToolError::Host(words),
        ),
{
    if let Ok(value) = answer {
        assert(outside::json_of(value)->Object_0.dom() =~= set!["ok"@]);
    }
}

/// The option of a name: a field of an object, or an item of an array that lists the options.
pub open spec fn option_given(json: Json, key: Seq<char>, index: int) -> Option<Json> {
    match json {
        Json::Object(fields) => if fields.contains_key(key) {
            Some(fields[key])
        } else {
            None
        },
        Json::Array(items) => if index < items.len() {
            Some(items[index])
        } else {
            None
        },
        _ => None,
    }
}

/// Whether a value is an object whose fields are all texts.
pub open spec fn holds_texts(json: Json) -> bool {
    json matches Json::Object(fields) && forall|key: Seq<char>|
        fields.contains_key(key) ==> (#[trigger] fields[key]) is Text
}

/// Whether a value holds options of a `fetch`: an object or a list of no more than three, of which
/// the method is a text, the headers are texts by name, and the body is a text or null.
pub open spec fn holds_options(json: Json) -> bool {
    &&& json is Object || (json matches Json::Array(items) && items.len() <= 3)
    &&& option_given(json, "method"@, 0) matches Some(method) ==> method is Text
    &&& option_given(json, "headers"@, 1) matches Some(headers) ==> holds_texts(headers)
    &&& option_given(json, "body"@, 2) matches Some(body) ==> body is Text || body is Null
}

/// Whether options are those that a value holds, as far as the header of one name is asked for.
pub open spec fn are_options_of(
    json: Json,
    options: FetchOptions,
    key: Seq<char>,
    got: Option<Seq<char>>,
) -> bool {
    &&& options.method@ == match option_given(json, "method"@, 0) {
        Some(method) => method->Text_0,
        None => "GET"@,
    }
    &&& match option_given(json, "headers"@, 1) {
        Some(Json::Object(fields)) => match got {
            Some(value) => fields.contains_key(key) && fields[key] == Json::Text(value),
            None => !fields.contains_key(key),
        },
        _ => got is None,
    }
    &&& match options.body {
        Some(body) => option_given(json, "body"@, 2) == Some(Json::Text(body@)),
        None => !(option_given(json, "body"@, 2) matches Some(body) && body is Text),
    }
}

proof fn lemma_options(json: Json, options: FetchOptions, key: Seq<char>, got: Option<Seq<char>>)
    requires
        options.reads(json),
        got is Some <==> options.headers@.contains_key(key),
        got is Some ==> got->0 == options.headers@[key]@,
    ensures
        are_options_of(json, options, key, got),
{
    let texts = table::texts_of(options.headers@);
    assert(texts.contains_key(key) <==> options.headers@.contains_key(key));
    assert(texts.contains_key(key) ==> texts[key] == options.headers@[key]@);
    if let Some(headers) = option_given(json, "headers"@, 1) {
        assert(tools::headers_option(json) == Some(headers));
        assert(headers.text_map().contains_key(key) <==> headers->Object_0.contains_key(key));
    }
}

proof fn lemma_is_options(json: Json)
    ensures
        tools::is_options(json) <==> holds_options(json),
{
    assert(tools::method_option(json) == option_given(json, "method"@, 0));
    assert(tools::headers_option(json) == option_given(json, "headers"@, 1));
    assert(tools::body_option(json) == option_given(json, "body"@, 2));
}

/// The options of a `fetch` are read as they are given, with `GET` where no method is, no headers
/// where none are, and no body where none or null is; and they are read exactly where they are of
/// the right shape.
pub proof fn law_options(
    args: &serde_json::Value,
    options: Result<FetchOptions, ToolError>,
    key: &str,
    got: Option<&String>,
)
    requires
        call_ensures(FetchOptions::from_json, (args,), options),
        options matches Ok(o) ==> call_ensures(Table::<String>::get, (&o.headers, key), got),
    ensures
        holds_options(outside::json_of(*args)) <==> options is Ok,
        options is Err ==> options == Err::<FetchOptions, ToolError>(
            ToolError::FetchOptionsInvalid,
        ),
        options matches Ok(o) ==> are_options_of(
            outside::json_of(*args),
            o,
            key@,
            header_laws::view_of(got),
        ),
{
    lemma_is_options(outside::json_of(*args));
    if let Ok(o) = options {
        lemma_options(outside::json_of(*args), o, key@, header_laws::view_of(got));
    }
}

/// The method of a `fetch` that names none is `GET`.
pub proof fn law_default_method(method: String)
    requires
        call_ensures(tools::default_get_method, (), method),
    ensures
        method@ == "GET"@,
{
}

/// A `fetch` is read as it is given: its URL, taken apart, and its options. It fails for a URL that
/// is missing, for options of the wrong shape, or for a text that is no URL, in this order.
pub proof fn law_fetch_is_read(
    args: &serde_json::Value,
    fetch: Result<FetchRead, ToolError>,
    key: &str,
    got: Option<&String>,
    url: Seq<char>,
)
    requires
        call_ensures(tools::plan_fetch, (args,), fetch),
        fetch matches Ok(f) ==> call_ensures(Table::<String>::get, (&f.options.headers, key), got),
    ensures
        lacks_text(outside::json_of(*args), "url"@) <==> fetch == Err::<FetchRead, ToolError>(
            ToolError::FetchWithoutUrl,
        ),
        has_text(outside::json_of(*args), "url"@, url) && !holds_options(outside::json_of(*args))
            ==> fetch == Err::<FetchRead, ToolError>(ToolError::FetchOptionsInvalid),
        has_text(outside::json_of(*args), "url"@, url) && holds_options(outside::json_of(*args))
            && outside::url_parts(url) is None ==> (fetch matches Err(
            ToolError::FetchUrlInvalid(words),
        ) && words@ == url),
        has_text(outside::json_of(*args), "url"@, url) && holds_options(outside::json_of(*args))
            && outside::url_parts(url) is Some ==> (fetch matches Ok(f) && {
            &&& outside::url_parts(url) == Some(
                (
                    f.url.serialization@,
                    f.url.scheme@,
                    f.url.authority@,
                    f.url.path_and_query@,
                ),
            )
            &&& are_options_of(
                outside::json_of(*args),
                f.options,
                key@,
                header_laws::view_of(got),
            )
        }),
{
    lemma_text(outside::json_of(*args), "url"@);
    lemma_is_options(outside::json_of(*args));
    if let Ok(f) = fetch {
        lemma_options(outside::json_of(*args), f.options, key@, header_laws::view_of(got));
    }
}

/// A `fetch` goes on with the method as the host gives it, and with its URL and options as they
/// were, or fails in the host's words.
pub proof fn law_method_is_the_hosts(
    fetch: FetchRead,
    parsed: Result<String, String>,
    asking: Result<FetchAsking, ToolError>,
)
    requires
        call_ensures(FetchRead::with_method, (fetch, parsed), asking),
    ensures
        parsed matches Ok(method) ==> (asking matches Ok(a) && {
            &&& a.method == method
            &&& a.url == fetch.url
            &&& a.options == fetch.options
        }),
        parsed matches Err(words) ==> asking == Err::<FetchAsking, ToolError>(
            ToolError::Host(words),
        ),
{
}

/// Whether a value answers a `fetch` with a status and a body, and under each name with what `got`
/// tells of the name `key`.
pub open spec fn is_answer(
    json: Json,
    status: int,
    body: Seq<char>,
    key: Seq<char>,
    got: Option<Seq<char>>,
) -> bool {
    &&& json matches Json::Object(fields)
    &&& fields.dom() == set!["status"@, "headers"@, "body"@]
    &&& fields["status"@] == Json::Number(Some(status))
    &&& fields["body"@] == Json::Text(body)
    &&& fields["headers"@] matches Json::Object(headers)
    &&& match got {
        Some(value) => headers.contains_key(key) && headers[key] == Json::Text(value),
        None => !headers.contains_key(key),
    }
}

proof fn lemma_answer(
    status: int,
    headers: Map<Seq<char>, Seq<char>>,
    body: Seq<char>,
    key: Seq<char>,
    got: Option<Seq<char>>,
)
    requires
        got is Some <==> headers.contains_key(key),
        got is Some ==> got->0 == headers[key],
    ensures
        is_answer(tools::http_answer(status, headers, body), status, body, key, got),
{
    reveal_strlit("status");
    reveal_strlit("headers");
    reveal_strlit("body");
    assert("status"@.len() == 6 && "headers"@.len() == 7 && "body"@.len() == 4);
    let fields = tools::http_answer(status, headers, body)->Object_0;
    assert(fields.dom() =~= set!["status"@, "headers"@, "body"@]);
    assert(fields["headers"@]->Object_0.contains_key(key) <==> headers.contains_key(key));
}

/// A `fetch` that is denied is answered with status 403, without headers, and with the method and
/// the URL that were denied; nothing is sent. Where the permissions are out of use it fails for
/// that.
pub proof fn law_denied_fetch(
    fetch: FetchAsking,
    step: Result<FetchStep, ToolError>,
    poisoned: Result<FetchStep, ToolError>,
    key: Seq<char>,
)
    requires
        call_ensures(FetchAsking::with_permission, (fetch, Permission::Denied), step),
        call_ensures(FetchAsking::with_permission, (fetch, Permission::Poisoned), poisoned),
    ensures
        step matches Ok(FetchStep::Answer(value)) && is_answer(
            outside::json_of(value),
            403,
            "HTTP request denied for "@ + fetch.method@ + " "@ + fetch.url.serialization@,
            key,
            None,
        ),
        poisoned == Err::<FetchStep, ToolError>(ToolError::NetworkPoisoned),
{
    lemma_answer(
        403,
        Map::empty(),
        "HTTP request denied for "@ + fetch.method@ + " "@ + fetch.url.serialization@,
        key,
        None,
    );
}

/// A `fetch` that is allowed is sent as it was asked for: its URL, its method, all its headers and
/// its whole body, encoded as UTF-8; unless it has more headers than allowed.
pub proof fn law_allowed_fetch(
    fetch: FetchAsking,
    count: usize,
    entries: &Vec<(String, String)>,
    step: Result<FetchStep, ToolError>,
)
    requires
        call_ensures(Table::<String>::len, (&fetch.options.headers,), count),
        call_ensures(Table::<String>::entries, (&fetch.options.headers,), entries),
        call_ensures(FetchAsking::with_permission, (fetch, Permission::Allowed), step),
    ensures
        count > MAX_RESPONSE_HEADER_COUNT <==> step == Err::<FetchStep, ToolError>(
            ToolError::FetchHeadersTooMany,
        ),
        count <= MAX_RESPONSE_HEADER_COUNT ==> (step matches Ok(FetchStep::Send(request)) && {
            &&& request.url == fetch.url
            &&& request.method == fetch.method
            &&& request.headers@ == entries@
            &&& match fetch.options.body {
                Some(body) => if vstd::utf8::encode_utf8(body@).len() == 0 {
                    outside::body_frames(request.body).len() == 0
                } else {
                    outside::body_frames(request.body) == seq![
                        BodyFrame::Data(vstd::utf8::encode_utf8(body@)),
                    ]
                },
                None => outside::body_frames(request.body).len() == 0,
            }
        }),
{
}

/// Whether a text is what a response body reads as: the text that those bytes encode, or where
/// they encode none, the text with what is ill-formed replaced.
pub open spec fn is_read_as(body: Seq<u8>, text: Seq<char>) -> bool {
    if vstd::utf8::valid_utf8(body) {
        vstd::utf8::encode_utf8(text) == body
    } else {
        text == outside::lossy_text(body)
    }
}

proof fn lemma_body_text(body: Seq<u8>)
    ensures
        is_read_as(body, tools::body_text(body)),
{
    if vstd::utf8::valid_utf8(body) {
        vstd::utf8::decode_utf8_encode_utf8(body);
    }
}

/// A response body reads as the text that it encodes.
pub proof fn law_body_text(body: Vec<u8>, read: String)
    requires
        call_ensures(tools::read_body_text, (body,), read),
    ensures
        is_read_as(body@, read@),
{
    lemma_body_text(body@);
}

/// A `fetch` that got a response is answered with its status, its headers and its body as text.
pub proof fn law_fetch_answer(
    response: HttpResponse,
    key: &str,
    got: Option<&String>,
    answer: serde_json::Value,
)
    requires
        call_ensures(Table::<String>::get, (&response.headers, key), got),
        call_ensures(tools::answer_fetch, (Ok::<HttpResponse, String>(response),), answer),
    ensures
        exists|text: Seq<char>| #[trigger]
            is_read_as(response.body@, text) && is_answer(
                outside::json_of(answer),
                response.status as int,
                text,
                key@,
                header_laws::view_of(got),
            ),
{
    let text = tools::body_text(response.body@);
    let texts = table::texts_of(response.headers@);
    lemma_body_text(response.body@);
    assert(texts.contains_key(key@) <==> response.headers@.contains_key(key@));
    lemma_answer(response.status as int, texts, text, key@, header_laws::view_of(got));
    assert(is_read_as(response.body@, text));
}

/// A `fetch` that got none is answered with status 502, without headers, and with why.
pub proof fn law_failed_fetch_answer(words: String, key: Seq<char>, answer: serde_json::Value)
    requires
        call_ensures(tools::answer_fetch, (Err::<HttpResponse, String>(words),), answer),
    ensures
        is_answer(outside::json_of(answer), 502, words@, key, None),
{
    lemma_answer(502, Map::empty(), words@, key, None);
}

/// What the errors of the tools read as.
pub proof fn law_tool_messages(error: &ToolError, message: String)
    requires
        call_ensures(ToolError::message, (error,), message),
    ensures
        message@ == match *error {
            ToolError::CallWithoutName => "call_tool: missing 'name'"@,
            ToolError::ReadWithoutPath => "read_file: missing 'path'"@,
            ToolError::WriteWithoutPath => "write_file: missing 'path'"@,
            ToolError::WriteOfNoBytes => "write_file: 'bytes' must be an array of byte values"@,
            ToolError::WriteOfNothing => "write_file: requires 'text' or 'bytes'"@,
            ToolError::FilesystemPoisoned => "filesystem mutex poisoned"@,
            ToolError::FetchWithoutUrl => "fetch: missing 'url'"@,
            ToolError::FetchOptionsInvalid => "fetch: invalid options"@,
            ToolError::FetchUrlInvalid(url) => "fetch: invalid URL "@ + url@,
            ToolError::FetchHeadersTooMany => "fetch: too many request headers"@,
            ToolError::NetworkPoisoned => "network mutex poisoned"@,
            ToolError::Host(words) => words@,
        },
{
}

} // verus!
