//! The host tools that a guest can call: `call_tool`, `read_file`, `write_file` and `fetch`.
//!
//! Each tool gets its arguments as JSON. What they ask for, in which order the host is consulted
//! and what the guest is answered is decided here. The tool registry, the guest's files, the
//! network permissions and the network itself belong to the embedding program, which hands back
//! what they gave.

use vstd::prelude::*;

use crate::exchange;
use crate::exchange::{HttpError, HttpRequest, HttpResponse, ParsedUrl};
use crate::headers;
use crate::outside;
use crate::outside::Json;
use crate::table;
use crate::table::HeaderTable;
use crate::text;

verus! {

/// The names under which the host tools are registered, in order.
pub const HOST_TOOLS: [&'static str; 4] = ["call_tool", "read_file", "write_file", "fetch"];

/// Why a tool call failed.
pub enum ToolError {
    /// `call_tool` without a name.
    CallWithoutName,
    /// `read_file` without a path.
    ReadWithoutPath,
    /// `write_file` without a path.
    WriteWithoutPath,
    /// `write_file` with bytes that are none.
    WriteOfNoBytes,
    /// `write_file` with neither text nor bytes.
    WriteOfNothing,
    /// The guest's files are out of use.
    FilesystemPoisoned,
    /// `fetch` without a URL.
    FetchWithoutUrl,
    /// `fetch` with options of the wrong shape.
    FetchOptionsInvalid,
    /// `fetch` of a text that is no URL.
    FetchUrlInvalid(String),
    /// `fetch` with more headers than allowed.
    FetchHeadersTooMany,
    /// The network permissions are out of use.
    NetworkPoisoned,
    /// The host refused; with its own words.
    Host(String),
}

impl ToolError {
    /// What the error reads as.
    pub open spec fn text(&self) -> Seq<char> {
        match self {
            ToolError::CallWithoutName => "call_tool: missing 'name'"@,
            ToolError::ReadWithoutPath => "read_file: missing 'path'"@,
            ToolError::WriteWithoutPath => "write_file: missing 'path'"@,
            ToolError::WriteOfNoBytes => "write_file: 'bytes' must be an array of byte values"@,
            ToolError::WriteOfNothing => "write_file: requires 'text' or 'bytes'"@,
            ToolError::FilesystemPoisoned => "filesystem mutex poisoned"@,
            ToolError::FetchWithoutUrl => "fetch: missing 'url'"@,
            ToolError::FetchOptionsInvalid => "fetch: invalid options"@,
            ToolError::FetchUrlInvalid(url) => "fetch: invalid URL "@ + url@,
            ToolError::FetchHeadersTooMany => "fetch: too many request headers"@,
            ToolError::NetworkPoisoned => "network mutex poisoned"@,
            ToolError::Host(words) => words@,
        }
    }

    /// What the error reads as.
    pub fn message(&self) -> (message: String)
        ensures
            message@ == self.text(),
    {
        match self {
            ToolError::CallWithoutName => "call_tool: missing 'name'".to_owned(),
            ToolError::ReadWithoutPath => "read_file: missing 'path'".to_owned(),
            ToolError::WriteWithoutPath => "write_file: missing 'path'".to_owned(),
            ToolError::WriteOfNoBytes =>
                "write_file: 'bytes' must be an array of byte values".to_owned(),
            ToolError::WriteOfNothing => "write_file: requires 'text' or 'bytes'".to_owned(),
            ToolError::FilesystemPoisoned => "filesystem mutex poisoned".to_owned(),
            ToolError::FetchWithoutUrl => "fetch: missing 'url'".to_owned(),
            ToolError::FetchOptionsInvalid => "fetch: invalid options".to_owned(),
            ToolError::FetchUrlInvalid(url) => text::joined("fetch: invalid URL ", url.as_str()),
            ToolError::FetchHeadersTooMany => "fetch: too many request headers".to_owned(),
            ToolError::NetworkPoisoned => "network mutex poisoned".to_owned(),
            ToolError::Host(words) => words.clone(),
        }
    }
}

/// The text of the field `key`, where there is one and it is a text.
pub open spec fn text_field(json: Json, key: Seq<char>) -> Option<Seq<char>> {
    match json.field(key) {
        Some(field) => field.text(),
        None => None,
    }
}

/// The text of the field `key`, where there is one and it is a text.
fn text_of_field(args: &serde_json::Value, key: &str) -> (found: Option<String>)
    ensures
        match found {
            Some(found) => text_field(outside::json_of(*args), key@) == Some(found@),
            None => text_field(outside::json_of(*args), key@) is None,
        },
{
    match outside::json_field(args, key) {
        Some(field) => match outside::json_text(field) {
            Some(found) => Some(found.to_owned()),
            None => None,
        },
        None => None,
    }
}

// ----- call_tool -----

/// A call of a registered tool.
pub struct ToolCall {
    pub name: String,
    pub args: serde_json::Value,
}

/// What a `call_tool` asks for: the tool `name`, with `args`, or null where there are none.
pub fn plan_call_tool(args: &serde_json::Value) -> (call: Result<ToolCall, ToolError>)
    ensures
        match call {
            Ok(call) => {
                &&& text_field(outside::json_of(*args), "name"@) == Some(call.name@)
                &&& outside::json_of(call.args) == match outside::json_of(*args).field("args"@) {
                    Some(tool_args) => tool_args,
                    None => Json::Null,
                }
            },
            Err(error) => {
                &&& text_field(outside::json_of(*args), "name"@) is None
                &&& error == ToolError::CallWithoutName
            },
        },
{
    match text_of_field(args, "name") {
        Some(name) => {
            let tool_args = match outside::json_field(args, "args") {
                Some(tool_args) => outside::json_clone(tool_args),
                None => outside::json_null(),
            };
            Ok(ToolCall { name, args: tool_args })
        },
        None => Err(ToolError::CallWithoutName),
    }
}

// ----- read_file and write_file -----

/// What the guest's files gave back.
pub enum FileReply<T> {
    /// The operation was done, with this result.
    Done(T),
    /// The files are out of use.
    Poisoned,
    /// The operation was refused; with a description.
    Refused(String),
}

/// What a `read_file` asks for: the file at `path`.
pub fn plan_read_file(args: &serde_json::Value) -> (path: Result<String, ToolError>)
    ensures
        match path {
            Ok(path) => text_field(outside::json_of(*args), "path"@) == Some(path@),
            Err(error) => {
                &&& text_field(outside::json_of(*args), "path"@) is None
                &&& error == ToolError::ReadWithoutPath
            },
        },
{
    match text_of_field(args, "path") {
        Some(path) => Ok(path),
        None => Err(ToolError::ReadWithoutPath),
    }
}

/// What a `read_file` is answered: the bytes of the file.
pub fn answer_read_file(reply: FileReply<Vec<u8>>) -> (answer: Result<serde_json::Value, ToolError>)
    ensures
        match reply {
            FileReply::Done(data) => answer matches Ok(value) && outside::json_of(value)
                == Json::Object(map!["data"@ => Json::of_bytes(data@)]),
            FileReply::Poisoned => answer == Err::<serde_json::Value, ToolError>(
                ToolError::FilesystemPoisoned,
            ),
            FileReply::Refused(words) => answer == Err::<serde_json::Value, ToolError>(
                ToolError::Host(words),
            ),
        },
{
    match reply {
        FileReply::Done(data) => {
            let mut fields: Vec<(String, serde_json::Value)> = Vec::new();
            fields.push(("data".to_owned(), outside::json_from_bytes(data)));
            proof {
                reveal_with_fuel(outside::fields_of, 2);
                assert(fields@.drop_last() =~= Seq::empty());
                assert(outside::fields_of(fields@) =~= map!["data"@ => Json::of_bytes(data@)]);
            }
            Ok(outside::json_object(fields))
        },
        FileReply::Poisoned => Err(ToolError::FilesystemPoisoned),
        FileReply::Refused(words) => Err(ToolError::Host(words)),
    }
}

/// A file to write, and its new content.
pub struct FileWrite {
    pub path: String,
    pub data: Vec<u8>,
}

/// The content that a `write_file` gives: that of `text` where it is a text, else `bytes`.
pub open spec fn content_of(json: Json) -> Result<Seq<u8>, ToolError> {
    match text_field(json, "text"@) {
        Some(text) => Ok(vstd::utf8::encode_utf8(text)),
        None => match json.field("bytes"@) {
            Some(bytes) => if bytes.is_bytes() {
                Ok(bytes.bytes())
            } else {
                Err(ToolError::WriteOfNoBytes)
            },
            None => Err(ToolError::WriteOfNothing),
        },
    }
}

/// What a `write_file` asks for: `text` or `bytes` as the new content of the file at `path`.
pub fn plan_write_file(args: &serde_json::Value) -> (write: Result<FileWrite, ToolError>)
    ensures
        match write {
            Ok(write) => {
                &&& text_field(outside::json_of(*args), "path"@) == Some(write.path@)
                &&& content_of(outside::json_of(*args)) == Ok::<Seq<u8>, ToolError>(write.data@)
            },
            Err(ToolError::WriteWithoutPath) => text_field(
                outside::json_of(*args),
                "path"@,
            ) is None,
            Err(error) => {
                &&& text_field(outside::json_of(*args), "path"@) is Some
                &&& content_of(outside::json_of(*args)) == Err::<Seq<u8>, ToolError>(error)
            },
        },
{
    let path = match text_of_field(args, "path") {
        Some(path) => path,
        None => {
            return Err(ToolError::WriteWithoutPath);
        },
    };
    match text_of_field(args, "text") {
        Some(content) => Ok(FileWrite { path, data: content.as_str().as_bytes_vec() }),
        None => match outside::json_field(args, "bytes") {
            Some(bytes) => match outside::json_bytes(bytes) {
                Ok(data) => Ok(FileWrite { path, data }),
                Err(_) => Err(ToolError::WriteOfNoBytes),
            },
            None => Err(ToolError::WriteOfNothing),
        },
    }
}

/// What a `write_file` is answered: that it is done.
pub fn answer_write_file(reply: FileReply<()>) -> (answer: Result<serde_json::Value, ToolError>)
    ensures
        match reply {
            FileReply::Done(_) => answer matches Ok(value) && outside::json_of(value)
                == Json::Object(map!["ok"@ => Json::Bool(true)]),
            FileReply::Poisoned => answer == Err::<serde_json::Value, ToolError>(
                ToolError::FilesystemPoisoned,
            ),
            FileReply::Refused(words) => answer == Err::<serde_json::Value, ToolError>(
                ToolError::Host(words),
            ),
        },
{
    match reply {
        FileReply::Done(_) => {
            let mut fields: Vec<(String, serde_json::Value)> = Vec::new();
            fields.push(("ok".to_owned(), outside::json_from_bool(true)));
            proof {
                reveal_with_fuel(outside::fields_of, 2);
                assert(fields@.drop_last() =~= Seq::empty());
                assert(outside::fields_of(fields@) =~= map!["ok"@ => Json::Bool(true)]);
            }
            Ok(outside::json_object(fields))
        },
        FileReply::Poisoned => Err(ToolError::FilesystemPoisoned),
        FileReply::Refused(words) => Err(ToolError::Host(words)),
    }
}

/// What a `read_file` answers can be written back: a `write_file` whose `bytes` are the `data` of
/// that answer, and which has no text, asks for the very bytes that were read.
pub proof fn law_read_bytes_can_be_written_back(data: Seq<u8>, args: Json)
    requires
        args.field("bytes"@) == Some(Json::of_bytes(data)),
        text_field(args, "text"@) is None,
    ensures
        content_of(args) == Ok::<Seq<u8>, ToolError>(data),
{
    let json = Json::of_bytes(data);
    assert forall|i: int| 0 <= i < json->Array_0.len() implies (
    #[trigger] json->Array_0[i]).is_byte() by {}
    assert(json.bytes() =~= data);
}

// ----- fetch -----

/// Options accepted by the host `fetch` tool.
pub struct FetchOptions {
    pub method: String,
    pub headers: HeaderTable,
    pub body: Option<String>,
}

/// The method of a `fetch` that names none.
pub fn default_get_method() -> (method: String)
    ensures
        method@ == "GET"@,
{
    "GET".to_owned()
}

/// The option `key`: the field of that name of an object, or the item at `index` where the
/// options are listed in an array.
pub open spec fn option_of(json: Json, key: Seq<char>, index: int) -> Option<Json> {
    match json {
        Json::Array(items) => if index < items.len() {
            Some(items[index])
        } else {
            None
        },
        _ => json.field(key),
    }
}

/// The method that options name.
pub open spec fn method_option(json: Json) -> Option<Json> {
    option_of(json, "method"@, 0)
}

/// The headers that options hold.
pub open spec fn headers_option(json: Json) -> Option<Json> {
    option_of(json, "headers"@, 1)
}

/// The body that options hold.
pub open spec fn body_option(json: Json) -> Option<Json> {
    option_of(json, "body"@, 2)
}

/// Whether a value has the shape of options: an object, in which fields of other names do not
/// matter, or an array that lists no more than the three.
pub open spec fn is_options(json: Json) -> bool {
    &&& json is Object || (json matches Json::Array(items) && items.len() <= 3)
    &&& method_option(json) matches Some(method) ==> method is Text
    &&& headers_option(json) matches Some(headers) ==> headers.is_text_map()
    &&& body_option(json) matches Some(body) ==> body is Null || body is Text
}

impl FetchOptions {
    /// Whether these are the options that `json` holds: `GET` where it names no method, no headers
    /// where it holds none, and no body where it holds none or null.
    pub open spec fn reads(&self, json: Json) -> bool {
        &&& is_options(json)
        &&& self.method@ == match method_option(json) {
            Some(method) => method->Text_0,
            None => "GET"@,
        }
        &&& self.headers.wf()
        &&& table::texts_of(self.headers@) == match headers_option(json) {
            Some(headers) => headers.text_map(),
            None => Map::empty(),
        }
        &&& match self.body {
            Some(body) => body_option(json) == Some(Json::Text(body@)),
            None => body_option(json) is None || body_option(json) == Some(Json::Null),
        }
    }

    /// Reads options from the arguments of a `fetch`.
    pub fn from_json(args: &serde_json::Value) -> (options: Result<FetchOptions, ToolError>)
        ensures
            match options {
                Ok(options) => options.reads(outside::json_of(*args)),
                Err(error) => {
                    &&& !is_options(outside::json_of(*args))
                    &&& error == ToolError::FetchOptionsInvalid
                },
            },
    {
        let (method, headers, body) = match outside::json_items(args) {
            Some(items) => {
                if items.len() > 3 {
                    return Err(ToolError::FetchOptionsInvalid);
                }
                (item_at(items, 0), item_at(items, 1), item_at(items, 2))
            },
            None => {
                if !outside::json_is_object(args) {
                    return Err(ToolError::FetchOptionsInvalid);
                }
                (
                    outside::json_field(args, "method"),
                    outside::json_field(args, "headers"),
                    outside::json_field(args, "body"),
                )
            },
        };
        let method = match method {
            Some(method) => match outside::json_text(method) {
                Some(method) => method.to_owned(),
                None => {
                    return Err(ToolError::FetchOptionsInvalid);
                },
            },
            None => default_get_method(),
        };
        let headers = match headers {
            Some(headers) => match outside::json_text_map(headers) {
                Ok(list) => HeaderTable::from_entries(list),
                Err(_) => {
                    return Err(ToolError::FetchOptionsInvalid);
                },
            },
            None => {
                let none = HeaderTable::new();
                assert(table::texts_of(none@) =~= Map::empty());
                none
            },
        };
        let body = match body {
            Some(body) => match outside::json_optional_text(body) {
                Ok(body) => body,
                Err(_) => {
                    return Err(ToolError::FetchOptionsInvalid);
                },
            },
            None => None,
        };
        Ok(FetchOptions { method, headers, body })
    }
}

/// The item at `index`, where there is one.
fn item_at(items: &Vec<serde_json::Value>, index: usize) -> (item: Option<&serde_json::Value>)
    ensures
        match item {
            Some(item) => index < items@.len() && *item == items@[index as int],
            None => index >= items@.len(),
        },
{
    if index < items.len() {
        Some(&items[index])
    } else {
        None
    }
}

/// A `fetch` whose URL and options are read. Its method is to be parsed next.
pub struct FetchRead {
    pub url: ParsedUrl,
    pub options: FetchOptions,
}

/// A `fetch` whose method is known. The network permissions are to be asked next, for its URL
/// and its method.
pub struct FetchAsking {
    pub url: ParsedUrl,
    pub method: String,
    pub options: FetchOptions,
}

/// What the network permissions gave back.
pub enum Permission {
    Allowed,
    Denied,
    /// The permissions are out of use.
    Poisoned,
}

/// What a `fetch` comes to once the network permissions have been asked.
pub enum FetchStep {
    /// Answer this, without a connection.
    Answer(serde_json::Value),
    /// Send this request.
    Send(HttpRequest),
}

/// Whether `url` is what `text` reads as.
pub open spec fn url_reads(url: ParsedUrl, text: Seq<char>) -> bool {
    outside::url_parts(text) == Some(
        (url.serialization@, url.scheme@, url.authority@, url.path_and_query@),
    )
}

/// What the arguments of a `fetch` hold: a URL, and options.
pub fn plan_fetch(args: &serde_json::Value) -> (fetch: Result<FetchRead, ToolError>)
    ensures
        match fetch {
            Ok(fetch) => {
                &&& text_field(outside::json_of(*args), "url"@) matches Some(url_text)
                &&& url_reads(fetch.url, url_text)
                &&& fetch.options.reads(outside::json_of(*args))
            },
            Err(ToolError::FetchWithoutUrl) => text_field(outside::json_of(*args), "url"@) is None,
            Err(ToolError::FetchOptionsInvalid) => {
                &&& text_field(outside::json_of(*args), "url"@) is Some
                &&& !is_options(outside::json_of(*args))
            },
            Err(ToolError::FetchUrlInvalid(url)) => {
                &&& text_field(outside::json_of(*args), "url"@) == Some(url@)
                &&& is_options(outside::json_of(*args))
                &&& outside::url_parts(url@) is None
            },
            Err(_) => false,
        },
{
    let url_text = match text_of_field(args, "url") {
        Some(url_text) => url_text,
        None => {
            return Err(ToolError::FetchWithoutUrl);
        },
    };
    let options = match FetchOptions::from_json(args) {
        Ok(options) => options,
        Err(error) => {
            return Err(error);
        },
    };
    match ParsedUrl::parse(url_text.as_str()) {
        Ok(url) => Ok(FetchRead { url, options }),
        Err(_) => Err(ToolError::FetchUrlInvalid(url_text)),
    }
}

impl FetchRead {
    /// Goes on with the method as the host parsed it, or fails with the host's words.
    pub fn with_method(self, parsed: Result<String, String>) -> (asking: Result<
        FetchAsking,
        ToolError,
    >)
        ensures
            match parsed {
                Ok(method) => asking == Ok::<FetchAsking, ToolError>(
                    FetchAsking { url: self.url, method, options: self.options },
                ),
                Err(words) => asking == Err::<FetchAsking, ToolError>(ToolError::Host(words)),
            },
    {
        match parsed {
            Ok(method) => Ok(FetchAsking { url: self.url, method, options: self.options }),
            Err(words) => Err(ToolError::Host(words)),
        }
    }
}

/// What a guest is answered about an HTTP exchange.
pub open spec fn http_answer(
    status: int,
    headers: Map<Seq<char>, Seq<char>>,
    body: Seq<char>,
) -> Json {
    Json::Object(
        map![
            "status"@ => Json::Number(Some(status)),
            "headers"@ => Json::of_text_map(headers),
            "body"@ => Json::Text(body),
        ],
    )
}

/// The table as a JSON object.
fn json_of_table(headers: &HeaderTable) -> (value: serde_json::Value)
    requires
        headers.wf(),
    ensures
        outside::json_of(value) == Json::of_text_map(table::texts_of(headers@)),
{
    proof {
        headers.lemma_list();
    }
    let entries = headers.entries();
    let mut fields: Vec<(String, serde_json::Value)> = Vec::new();
    let mut i: usize = 0;
    proof {
        assert(entries@.take(0) =~= Seq::empty());
        assert(outside::fields_of(fields@) =~= Json::of_text_map(
            table::texts_of(table::map_of(entries@.take(0))),
        )->Object_0);
    }
    while i < entries.len()
        invariant
            i <= entries@.len(),
            table::names_of(entries@).no_duplicates(),
            outside::fields_of(fields@) == Json::of_text_map(
                table::texts_of(table::map_of(entries@.take(i as int))),
            )->Object_0,
        decreases entries@.len() - i,
    {
        let ghost before = fields@;
        proof {
            table::lemma_prefix(entries@, i as int);
        }
        fields.push((entries[i].0.clone(), outside::json_from_text(entries[i].1.clone())));
        proof {
            assert(fields@.drop_last() =~= before);
            assert(outside::fields_of(fields@) =~= Json::of_text_map(
                table::texts_of(table::map_of(entries@.take(i + 1))),
            )->Object_0);
        }
        i = i + 1;
    }
    assert(entries@.take(i as int) =~= entries@);
    outside::json_object(fields)
}

/// What a guest is answered about an HTTP exchange.
fn build_http_answer(status: u16, headers: &HeaderTable, body: String) -> (value: serde_json::Value)
    requires
        headers.wf(),
    ensures
        outside::json_of(value) == http_answer(status as int, table::texts_of(headers@), body@),
{
    proof {
        reveal_strlit("status");
        reveal_strlit("headers");
        reveal_strlit("body");
    }
    let ghost body_view = body@;
    let mut fields: Vec<(String, serde_json::Value)> = Vec::new();
    fields.push(("status".to_owned(), outside::json_from_number(status)));
    let ghost one = fields@;
    fields.push(("headers".to_owned(), json_of_table(headers)));
    let ghost two = fields@;
    fields.push(("body".to_owned(), outside::json_from_text(body)));
    proof {
        assert(one.drop_last() =~= Seq::empty());
        assert(two.drop_last() =~= one);
        assert(fields@.drop_last() =~= two);
        assert("status"@.len() == 6 && "headers"@.len() == 7 && "body"@.len() == 4);
        assert(outside::fields_of(Seq::empty()) == Map::<Seq<char>, Json>::empty());
        assert(outside::fields_of(one) == outside::fields_of(one.drop_last()).insert(
            "status"@,
            Json::Number(Some(status as int)),
        ));
        assert(outside::fields_of(two) == outside::fields_of(one).insert(
            "headers"@,
            Json::of_text_map(table::texts_of(headers@)),
        ));
        assert(outside::fields_of(fields@) =~= http_answer(
            status as int,
            table::texts_of(headers@),
            body_view,
        )->Object_0);
    }
    outside::json_object(fields)
}

/// What a guest is answered where there was no exchange: a status and a text, without headers.
fn build_bare_answer(status: u16, body: String) -> (value: serde_json::Value)
    ensures
        outside::json_of(value) == http_answer(status as int, Map::empty(), body@),
{
    let none = HeaderTable::new();
    assert(table::texts_of(none@) =~= Map::empty());
    build_http_answer(status, &none, body)
}

impl FetchAsking {
    /// What the guest reads when the network permissions refuse.
    pub open spec fn denial(&self) -> Seq<char> {
        "HTTP request denied for "@ + self.method@ + " "@ + self.url.serialization@
    }

    /// Goes on with the answer of the network permissions: a refusal is answered with status 403
    /// and without a connection.
    pub fn with_permission(self, permission: Permission) -> (step: Result<FetchStep, ToolError>)
        requires
            self.options.headers.wf(),
        ensures
            match permission {
                Permission::Poisoned => step == Err::<FetchStep, ToolError>(
                    ToolError::NetworkPoisoned,
                ),
                Permission::Denied => step matches Ok(FetchStep::Answer(value))
                    && outside::json_of(value) == http_answer(403, Map::empty(), self.denial()),
                Permission::Allowed => if self.options.headers@.dom().len()
                    > headers::MAX_RESPONSE_HEADER_COUNT {
                    step == Err::<FetchStep, ToolError>(ToolError::FetchHeadersTooMany)
                } else {
                    &&& step matches Ok(FetchStep::Send(request))
                    &&& request.url == self.url
                    &&& request.method == self.method
                    &&& request.headers@ == self.options.headers.list()
                    &&& request.headers@.len() <= headers::MAX_RESPONSE_HEADER_COUNT
                    &&& outside::body_frames(request.body) == outside::one_piece(
                        match self.options.body {
                            Some(body) => vstd::utf8::encode_utf8(body@),
                            None => Seq::empty(),
                        },
                    )
                },
            },
    {
        match permission {
            Permission::Poisoned => Err(ToolError::NetworkPoisoned),
            Permission::Denied => {
                let mut words = text::joined("HTTP request denied for ", self.method.as_str());
                words.append(" ");
                words.append(self.url.serialization.as_str());
                Ok(FetchStep::Answer(build_bare_answer(403, words)))
            },
            Permission::Allowed => {
                proof {
                    self.options.headers.lemma_list();
                }
                if self.options.headers.len() > headers::MAX_RESPONSE_HEADER_COUNT {
                    return Err(ToolError::FetchHeadersTooMany);
                }
                let data = match self.options.body {
                    Some(body) => Some(body.as_str().as_bytes_vec()),
                    None => None,
                };
                Ok(
                    FetchStep::Send(
                        HttpRequest {
                            url: self.url,
                            method: self.method,
                            headers: self.options.headers.into_entries(),
                            body: HttpRequest::body_from_bytes(data),
                        },
                    ),
                )
            },
        }
    }
}

/// The text that a response body reads as: itself where it is UTF-8, else with what is not
/// replaced.
pub open spec fn body_text(body: Seq<u8>) -> Seq<char> {
    if vstd::utf8::valid_utf8(body) {
        vstd::utf8::decode_utf8(body)
    } else {
        outside::lossy_text(body)
    }
}

/// The text that a response body reads as.
pub fn read_body_text(body: Vec<u8>) -> (read: String)
    ensures
        read@ == body_text(body@),
{
    match outside::text_from_utf8(body) {
        Ok(read) => {
            proof {
                vstd::utf8::encode_utf8_decode_utf8(read@);
            }
            read
        },
        Err(body) => outside::text_from_utf8_lossy(body.as_slice()),
    }
}

/// What a `fetch` is answered: the response, or status 502 with the words of the failure.
pub fn answer_fetch(reply: Result<HttpResponse, String>) -> (answer: serde_json::Value)
    requires
        reply matches Ok(response) ==> response.headers.wf(),
    ensures
        outside::json_of(answer) == match reply {
            Ok(response) => http_answer(
                response.status as int,
                table::texts_of(response.headers@),
                body_text(response.body@),
            ),
            Err(words) => http_answer(502, Map::empty(), words@),
        },
{
    match reply {
        Ok(response) => build_http_answer(
            response.status,
            &response.headers,
            read_body_text(response.body),
        ),
        Err(words) => build_bare_answer(502, words),
    }
}

/// A `fetch` that is sent has so few headers that their number alone never keeps it from being
/// built: where building fails for the headers, one of them cannot be sent.
pub proof fn law_fetch_fails_for_bad_headers_only(request: HttpRequest)
    requires
        request.headers@.len() <= headers::MAX_RESPONSE_HEADER_COUNT,
        request.builds(Err(HttpError::InvalidRequest)),
    ensures
        !request.sendable(),
{
    exchange::law_sent_head(request);
}

} // verus!
