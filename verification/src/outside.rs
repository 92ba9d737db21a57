//! What the crate takes on trust.
//!
//! Every item of this module stands for a type or a function of another crate (or of `std`):
//! Verus does not look behind it. Each doc comment names what is called and says in words what
//! the contract claims of it.

use bytes::Bytes;
use http_body_util::combinators::UnsyncBoxBody;
use http_body_util::{BodyExt, Empty, Full};
use std::collections::HashMap;
use vstd::prelude::*;

use crate::table;
use crate::text;

verus! {

/// Body type of an outgoing request.
pub type RequestBody = UnsyncBoxBody<Bytes, anyhow::Error>;

/// `bytes::Bytes`, carried through.
#[verifier::external_type_specification]
#[verifier::external_body]
pub struct ExBytes(bytes::Bytes);

/// `anyhow::Error`, carried through as the error type of a request body.
#[verifier::external_type_specification]
#[verifier::external_body]
pub struct ExAnyhowError(anyhow::Error);

/// `http_body_util::combinators::UnsyncBoxBody`, the boxed body of a request.
#[verifier::external_type_specification]
#[verifier::external_body]
#[verifier::reject_recursive_types(D)]
#[verifier::reject_recursive_types(E)]
pub struct ExUnsyncBoxBody<D, E>(http_body_util::combinators::UnsyncBoxBody<D, E>);

/// `http::HeaderMap`, a multimap from header names to header values.
#[verifier::external_type_specification]
#[verifier::external_body]
#[verifier::reject_recursive_types(T)]
pub struct ExHeaderMap<T>(http::HeaderMap<T>);

/// `http::HeaderValue`, the value type of the header maps in use.
#[verifier::external_type_specification]
#[verifier::external_body]
pub struct ExHeaderValue(http::HeaderValue);

/// `http::Method`, the method of a request.
#[verifier::external_type_specification]
#[verifier::external_body]
pub struct ExMethod(http::Method);

/// `http::method::InvalidMethod`, what `http` reports for a text that is no method.
#[verifier::external_type_specification]
#[verifier::external_body]
pub struct ExInvalidMethod(http::method::InvalidMethod);

/// `http::Uri`, the target of a request.
#[verifier::external_type_specification]
#[verifier::external_body]
pub struct ExUri(http::Uri);

/// `http::Error`, what the `http` crate reports for a part it refuses.
#[verifier::external_type_specification]
#[verifier::external_body]
pub struct ExHttpError(http::Error);

/// `url::ParseError`, what the `url` crate reports for a text that is no URL.
#[verifier::external_type_specification]
#[verifier::external_body]
pub struct ExUrlParseError(url::ParseError);

/// `http::request::Builder`, a request in the making.
#[verifier::external_type_specification]
#[verifier::external_body]
pub struct ExRequestBuilder(http::request::Builder);

/// `http::Request`, a request ready to be sent.
#[verifier::external_type_specification]
#[verifier::external_body]
#[verifier::reject_recursive_types(T)]
pub struct ExRequest<T>(http::Request<T>);

/// `serde_json::Value`, a JSON value.
#[verifier::external_type_specification]
#[verifier::external_body]
pub struct ExJsonValue(serde_json::Value);

/// `serde_json::Error`, what `serde_json` reports for a value of the wrong shape.
#[verifier::external_type_specification]
#[verifier::external_body]
pub struct ExJsonError(serde_json::Error);

/// `std::path::PathBuf`, a host path carried through.
#[verifier::external_type_specification]
#[verifier::external_body]
pub struct ExPathBuf(std::path::PathBuf);

/// `std::fmt::Formatter`, where a value is shown.
#[verifier::external_type_specification]
#[verifier::external_body]
pub struct ExFormatter<'a>(std::fmt::Formatter<'a>);

/// `std::fmt::Error`, what a formatter reports.
#[verifier::external_type_specification]
#[verifier::external_body]
pub struct ExFormatError(std::fmt::Error);

/// What a request body yields, up to its end.
pub uninterp spec fn body_frames(body: RequestBody) -> Seq<BodyFrame>;

/// The headers that a map holds, each with its name (in lower case) and the bytes of its value,
/// in the order in which the map is walked.
pub uninterp spec fn header_entries(map: http::HeaderMap) -> Seq<(Seq<char>, Seq<u8>)>;

/// The text that has been written to a formatter.
pub uninterp spec fn written(f: std::fmt::Formatter<'_>) -> Seq<char>;

/// The encoded bytes that a path holds.
pub uninterp spec fn path_bytes(path: std::path::PathBuf) -> Seq<u8>;

/// The text of a method.
pub uninterp spec fn method_text(method: http::Method) -> Seq<char>;

/// The text of a URI.
pub uninterp spec fn uri_text(uri: http::Uri) -> Seq<char>;

/// Whether a scheme, an authority and a path with its query make a URI.
pub uninterp spec fn makes_uri(
    scheme: Seq<char>,
    authority: Seq<char>,
    path_and_query: Seq<char>,
) -> bool;

/// What a request in the making holds; `None` once it holds an error.
pub uninterp spec fn builder_head(builder: http::request::Builder) -> Option<RequestHead>;

/// The head of a request.
pub uninterp spec fn request_head(request: http::Request<RequestBody>) -> RequestHead;

/// What the body of a request yields, up to its end.
pub uninterp spec fn request_frames(request: http::Request<RequestBody>) -> Seq<BodyFrame>;

/// What a JSON value holds.
pub uninterp spec fn json_of(value: serde_json::Value) -> Json;

/// What a text reads as a URL: its serialization, its scheme, its authority, and what follows
/// the authority. `None` where the text is no URL.
pub uninterp spec fn url_parts(text: Seq<char>) -> Option<
    (Seq<char>, Seq<char>, Seq<char>, Seq<char>),
>;

/// The text that bytes read as where each ill-formed stretch of UTF-8 is replaced.
pub uninterp spec fn lossy_text(bytes: Seq<u8>) -> Seq<char>;

/// What a request body yields at a time.
pub enum BodyFrame {
    /// Data.
    Data(Seq<u8>),
    /// Headers that come after the data.
    Trailers,
    /// A failure to go on.
    Failed,
}

/// What a body yields that sends `data` in one piece: nothing where there is none, and neither
/// trailers nor a failure.
pub open spec fn one_piece(data: Seq<u8>) -> Seq<BodyFrame> {
    if data.len() == 0 {
        Seq::empty()
    } else {
        seq![BodyFrame::Data(data)]
    }
}

/// The head of a request: its method, the text of its URI, and its headers in order, each with
/// its name in lower case and the bytes of its value.
#[verifier::ext_equal]
pub struct RequestHead {
    pub method: Seq<char>,
    pub uri: Seq<char>,
    pub headers: Seq<(Seq<char>, Seq<u8>)>,
}

/// What a JSON value holds. A number that is an integer of 64 bits is that integer; of any other
/// number nothing is kept.
pub enum Json {
    Null,
    Bool(bool),
    Number(Option<int>),
    Text(Seq<char>),
    Array(Seq<Json>),
    Object(Map<Seq<char>, Json>),
}

impl Json {
    /// The field `key`, where this is an object that has it.
    pub open spec fn field(self, key: Seq<char>) -> Option<Json> {
        match self {
            Json::Object(fields) => if fields.contains_key(key) {
                Some(fields[key])
            } else {
                None
            },
            _ => None,
        }
    }

    /// The text, where this is one.
    pub open spec fn text(self) -> Option<Seq<char>> {
        match self {
            Json::Text(text) => Some(text),
            _ => None,
        }
    }

    /// Whether this is a number that one byte holds.
    pub open spec fn is_byte(self) -> bool {
        self matches Json::Number(Some(n)) && 0 <= n < 256
    }

    /// Whether this is an array of numbers that one byte holds.
    pub open spec fn is_bytes(self) -> bool {
        self matches Json::Array(items) && forall|i: int|
            0 <= i < items.len() ==> (#[trigger] items[i]).is_byte()
    }

    /// The bytes that an array of them spells.
    pub open spec fn bytes(self) -> Seq<u8>
        recommends
            self.is_bytes(),
    {
        self->Array_0.map_values(|item: Json| item->Number_0->0 as u8)
    }

    /// Whether this is an object whose fields are all texts.
    pub open spec fn is_text_map(self) -> bool {
        self matches Json::Object(fields) && forall|key: Seq<char>|
            fields.contains_key(key) ==> (#[trigger] fields[key]) is Text
    }

    /// The texts that an object of them holds.
    pub open spec fn text_map(self) -> Map<Seq<char>, Seq<char>>
        recommends
            self.is_text_map(),
    {
        self->Object_0.map_values(|item: Json| item->Text_0)
    }

    /// An object whose fields are the texts of a map.
    pub open spec fn of_text_map(texts: Map<Seq<char>, Seq<char>>) -> Json {
        Json::Object(texts.map_values(|text: Seq<char>| Json::Text(text)))
    }

    /// An array of bytes.
    pub open spec fn of_bytes(bytes: Seq<u8>) -> Json {
        Json::Array(bytes.map_values(|byte: u8| Json::Number(Some(byte as int))))
    }
}

/// The fields that a list spells, where a later entry takes the place of an earlier one of the
/// same name.
pub open spec fn fields_of(list: Seq<(String, serde_json::Value)>) -> Map<Seq<char>, Json>
    decreases list.len(),
{
    if list.len() == 0 {
        Map::empty()
    } else {
        fields_of(list.drop_last()).insert(list.last().0@, json_of(list.last().1))
    }
}

/// What stands before the fragment of a path with its query.
pub open spec fn without_fragment(path_and_query: Seq<char>) -> Seq<char> {
    match path_and_query.index_of_first('#') {
        Some(i) => path_and_query.take(i),
        None => path_and_query,
    }
}

/// A path with its query as a URI shows it: without a fragment, and with a slash for a path that
/// is empty.
pub open spec fn shown_path(path_and_query: Seq<char>) -> Seq<char> {
    let shown = without_fragment(path_and_query);
    if shown.len() == 0 || shown[0] == '?' {
        seq!['/'] + shown
    } else {
        shown
    }
}

/// The text of the URI made of a scheme, an authority and a path with its query.
pub open spec fn uri_of(
    scheme: Seq<char>,
    authority: Seq<char>,
    path_and_query: Seq<char>,
) -> Seq<char> {
    scheme + seq![':', '/', '/'] + authority + shown_path(path_and_query)
}

/// One of the characters of which HTTP makes methods and header names.
pub open spec fn is_token_char(c: char) -> bool {
    ||| '0' <= c && c <= '9'
    ||| 'A' <= c && c <= 'Z'
    ||| 'a' <= c && c <= 'z'
    ||| c == '!' || c == '#' || c == '$' || c == '%' || c == '&' || c == '\'' || c == '*'
    ||| c == '+' || c == '-' || c == '.' || c == '^' || c == '_' || c == '`' || c == '|'
    ||| c == '~'
}

/// A non-empty text of token characters.
pub open spec fn is_token(s: Seq<char>) -> bool {
    s.len() > 0 && forall|i: int| 0 <= i < s.len() ==> is_token_char(#[trigger] s[i])
}

/// A text that can name a header.
pub open spec fn is_header_name(s: Seq<char>) -> bool {
    is_token(s) && s.len() <= 65535
}

/// A text that can be a header's value: no control characters but the tab.
pub open spec fn is_header_value(s: Seq<char>) -> bool {
    forall|i: int|
        0 <= i < s.len() ==> (#[trigger] s[i] == '\t' || (s[i] >= ' ' && s[i] != '\x7f'))
}

/// Bytes that are all visible ASCII, spaces or tabs.
pub open spec fn is_visible(bytes: Seq<u8>) -> bool {
    forall|i: int| 0 <= i < bytes.len() ==> (#[trigger] bytes[i] == 9 || 32 <= bytes[i] < 127)
}

/// `entries` with one more value for `name`: behind the last value that `name` has, or at the
/// end where it has none.
pub open spec fn with_entry(
    entries: Seq<(Seq<char>, Seq<u8>)>,
    name: Seq<char>,
    value: Seq<u8>,
) -> Seq<(Seq<char>, Seq<u8>)>
    decreases entries.len(),
{
    if entries.len() == 0 || entries.last().0 == name || (forall|i: int|
        0 <= i < entries.len() ==> (#[trigger] entries[i]).0 != name) {
        entries.push((name, value))
    } else {
        with_entry(entries.drop_last(), name, value).push(entries.last())
    }
}

/// `head` with one more header.
pub open spec fn with_header(head: RequestHead, name: Seq<char>, value: Seq<char>) -> RequestHead {
    RequestHead {
        headers: with_entry(
            head.headers,
            text::ascii_lower(name),
            vstd::utf8::encode_utf8(value),
        ),
        ..head
    }
}

/// How many names some headers have.
pub open spec fn name_count(entries: Seq<(Seq<char>, Seq<u8>)>) -> nat {
    entries.map_values(|entry: (Seq<char>, Seq<u8>)| entry.0).to_set().len()
}

/// Number of names below which a request never refuses one more header for want of room.
pub open spec fn header_room() -> nat {
    6554
}

/// Number of names from which on a request refuses every further header.
pub open spec fn header_limit() -> nat {
    24576
}

/// `http_body_util::Full::new`, boxed: a body that sends `data` in one piece, or yields nothing
/// where there is none.
#[verifier::external_body]
pub(crate) fn full_body(data: Vec<u8>) -> (body: RequestBody)
    ensures
        body_frames(body) == one_piece(data@),
{
    Full::new(Bytes::from(data)).map_err(anyhow::Error::new).boxed_unsync()
}

/// `http_body_util::Empty::new`, boxed: a body that yields nothing.
#[verifier::external_body]
pub(crate) fn empty_body() -> (body: RequestBody)
    ensures
        body_frames(body) == Seq::<BodyFrame>::empty(),
{
    Empty::<Bytes>::new().map_err(anyhow::Error::new).boxed_unsync()
}

/// `http::Method::from_bytes`: a token is the method of that text, any other text is refused.
#[verifier::external_body]
pub(crate) fn method_from_text(text: &str) -> (method: Result<
    http::Method,
    http::method::InvalidMethod,
>)
    ensures
        method is Ok <==> is_token(text@),
        method matches Ok(m) ==> method_text(m) == text@,
{
    http::Method::from_bytes(text.as_bytes())
}

/// `http::Uri::builder` with its three parts. Whether they make a URI is a function of the parts.
/// The text of that URI is the scheme and the authority as given, and the path with its query up
/// to a fragment, where a slash stands for an empty path.
#[verifier::external_body]
pub(crate) fn build_uri(scheme: &str, authority: &str, path_and_query: &str) -> (uri: Result<
    http::Uri,
    http::Error,
>)
    ensures
        uri is Ok <==> makes_uri(scheme@, authority@, path_and_query@),
        uri matches Ok(u) ==> uri_text(u) == uri_of(scheme@, authority@, path_and_query@),
{
    http::Uri::builder().scheme(scheme).authority(authority).path_and_query(path_and_query).build()
}

/// `http::Request::builder` with a method and a URI: a request in the making, without headers.
#[verifier::external_body]
pub(crate) fn start_request(method: http::Method, uri: http::Uri) -> (builder: http::request::Builder)
    ensures
        builder_head(builder) == Some(
            RequestHead {
                method: method_text(method),
                uri: uri_text(uri),
                headers: Seq::empty(),
            },
        ),
{
    http::Request::builder().method(method).uri(uri)
}

/// `http::request::Builder::header`: puts the name in lower case and the value behind the others
/// of that name. A name that is no token or too long, and a value with control characters, turn
/// the builder into an error, which it then stays.
///
/// The builder also errs when its header map has no room. What counts is how many names the map
/// has, not how many values: below [`header_room`] there always is room, and from
/// [`header_limit`] on there never is. In between that depends on where the names fall in the map's
/// table, which is not the same on every machine (a name is hashed with a tag as wide as a
/// pointer), and the contract leaves it open.
#[verifier::external_body]
pub(crate) fn add_header(
    builder: http::request::Builder,
    name: &str,
    value: &str,
) -> (extended: http::request::Builder)
    ensures
        builder_head(builder) is None ==> builder_head(extended) is None,
        builder_head(extended) matches Some(head) ==> {
            &&& is_header_name(name@)
            &&& is_header_value(value@)
            &&& builder_head(builder) matches Some(before)
            &&& name_count(before.headers) < header_limit()
            &&& head == with_header(before, name@, value@)
        },
        builder_head(builder) matches Some(before) ==> is_header_name(name@) && is_header_value(
            value@,
        ) && name_count(before.headers) < header_room() ==> builder_head(extended) is Some,
{
    builder.header(name, value)
}

/// `http::request::Builder::body`: the request with that head and that body, or the error that
/// the builder holds.
#[verifier::external_body]
pub(crate) fn finish_request(builder: http::request::Builder, body: RequestBody) -> (request: Result<
    http::Request<RequestBody>,
    http::Error,
>)
    ensures
        request is Ok <==> builder_head(builder) is Some,
        request matches Ok(r) ==> {
            &&& builder_head(builder) == Some(request_head(r))
            &&& request_frames(r) == body_frames(body)
        },
{
    builder.body(body)
}

/// `http::HeaderMap::iter`: hands out the headers in order, each with its name and, where
/// `http::HeaderValue::to_str` reads the value as text, with that text.
#[verifier::external_body]
pub(crate) fn list_headers(map: &http::HeaderMap) -> (list: Vec<(String, Option<String>)>)
    ensures
        list@.len() == header_entries(*map).len(),
        forall|i: int|
            0 <= i < list@.len() ==> {
                &&& (#[trigger] list@[i]).0@ == header_entries(*map)[i].0
                &&& list@[i].1 is Some <==> is_visible(header_entries(*map)[i].1)
                &&& list@[i].1 matches Some(text) ==> vstd::utf8::encode_utf8(text@)
                    == header_entries(*map)[i].1
            },
{
    map.iter().map(|(name, value)| {
        (name.as_str().to_string(), value.to_str().ok().map(str::to_string))
    }).collect()
}

/// `url::Url::parse`, read off as plain parts: the serialization, the scheme, the authority, and
/// all that follows the authority. Whether the text is a URL, and what the parts are, is a
/// function of the text.
#[verifier::external_body]
pub(crate) fn parse_url(text: &str) -> (parts: Result<(String, String, String, String), url::ParseError>)
    ensures
        parts is Ok <==> url_parts(text@) is Some,
        parts matches Ok(p) ==> url_parts(text@) == Some((p.0@, p.1@, p.2@, p.3@)),
{
    url::Url::parse(text).map(|url| (
        url.as_str().to_string(),
        url.scheme().to_string(),
        url.authority().to_string(),
        url[url::Position::BeforePath..].to_string(),
    ))
}

/// `String::from_utf8`: the text of bytes that are UTF-8; other bytes are handed back.
#[verifier::external_body]
pub(crate) fn text_from_utf8(bytes: Vec<u8>) -> (text: Result<String, Vec<u8>>)
    ensures
        text is Ok <==> vstd::utf8::valid_utf8(bytes@),
        text matches Ok(t) ==> vstd::utf8::encode_utf8(t@) == bytes@,
        text matches Err(b) ==> b == bytes,
{
    String::from_utf8(bytes).map_err(|error| error.into_bytes())
}

/// `String::from_utf8_lossy`: the text of any bytes, a function of the bytes.
#[verifier::external_body]
pub(crate) fn text_from_utf8_lossy(bytes: &[u8]) -> (text: String)
    ensures
        text@ == lossy_text(bytes@),
{
    String::from_utf8_lossy(bytes).into_owned()
}

/// `serde_json::Value::get` with a text: the field of that name, where the value is an object
/// that has one.
#[verifier::external_body]
pub(crate) fn json_field<'a>(value: &'a serde_json::Value, key: &str) -> (field: Option<
    &'a serde_json::Value,
>)
    ensures
        field is Some <==> json_of(*value).field(key@) is Some,
        field matches Some(f) ==> json_of(*value).field(key@) == Some(json_of(*f)),
{
    value.get(key)
}

/// `serde_json::Value::is_object`.
#[verifier::external_body]
pub(crate) fn json_is_object(value: &serde_json::Value) -> (object: bool)
    ensures
        object == (json_of(*value) is Object),
{
    value.is_object()
}

/// `serde_json::Value::as_array`: the items of a value that is an array.
#[verifier::external_body]
pub(crate) fn json_items(value: &serde_json::Value) -> (items: Option<&Vec<serde_json::Value>>)
    ensures
        items is Some <==> json_of(*value) is Array,
        items matches Some(list) ==> json_of(*value)->Array_0 == list@.map_values(
            |item: serde_json::Value| json_of(item),
        ),
{
    value.as_array()
}

/// `serde_json::Value::as_str`: the text of a value that is one.
#[verifier::external_body]
pub(crate) fn json_text(value: &serde_json::Value) -> (text: Option<&str>)
    ensures
        text is Some <==> json_of(*value).text() is Some,
        text matches Some(t) ==> json_of(*value).text() == Some(t@),
{
    value.as_str()
}

/// `serde_json::from_value` into bytes: those of an array of numbers that one byte each holds;
/// any other value is refused.
#[verifier::external_body]
pub(crate) fn json_bytes(value: &serde_json::Value) -> (bytes: Result<Vec<u8>, serde_json::Error>)
    ensures
        bytes is Ok <==> json_of(*value).is_bytes(),
        bytes matches Ok(b) ==> b@ == json_of(*value).bytes(),
{
    serde_json::from_value::<Vec<u8>>(value.clone())
}

/// `serde_json::from_value` into a map of texts: the fields of an object that holds texts only,
/// each name once, in any order; any other value is refused.
#[verifier::external_body]
pub(crate) fn json_text_map(value: &serde_json::Value) -> (list: Result<
    Vec<(String, String)>,
    serde_json::Error,
>)
    ensures
        list is Ok <==> json_of(*value).is_text_map(),
        list matches Ok(l) ==> {
            &&& table::names_of(l@).no_duplicates()
            &&& table::texts_of(table::map_of(l@)) == json_of(*value).text_map()
        },
{
    serde_json::from_value::<HashMap<String, String>>(value.clone()).map(|map| map.into_iter().collect())
}

/// `serde_json::from_value` into an optional text: none of null, the text of a text; any other
/// value is refused.
#[verifier::external_body]
pub(crate) fn json_optional_text(value: &serde_json::Value) -> (text: Result<
    Option<String>,
    serde_json::Error,
>)
    ensures
        text is Ok <==> json_of(*value) is Null || json_of(*value) is Text,
        text matches Ok(None) ==> json_of(*value) is Null,
        text matches Ok(Some(t)) ==> json_of(*value) == Json::Text(t@),
{
    serde_json::from_value::<Option<String>>(value.clone())
}

/// `serde_json::Value::clone`: a value that holds the same.
#[verifier::external_body]
pub(crate) fn json_clone(value: &serde_json::Value) -> (copy: serde_json::Value)
    ensures
        json_of(copy) == json_of(*value),
{
    value.clone()
}

/// `serde_json::Value::Null`.
#[verifier::external_body]
pub(crate) fn json_null() -> (value: serde_json::Value)
    ensures
        json_of(value) == Json::Null,
{
    serde_json::Value::Null
}

/// `serde_json::Value::Bool`.
#[verifier::external_body]
pub(crate) fn json_from_bool(bool_value: bool) -> (value: serde_json::Value)
    ensures
        json_of(value) == Json::Bool(bool_value),
{
    serde_json::Value::Bool(bool_value)
}

/// `serde_json::Value::from` a number.
#[verifier::external_body]
pub(crate) fn json_from_number(number: u16) -> (value: serde_json::Value)
    ensures
        json_of(value) == Json::Number(Some(number as int)),
{
    serde_json::Value::from(number)
}

/// `serde_json::Value::String`.
#[verifier::external_body]
pub(crate) fn json_from_text(text: String) -> (value: serde_json::Value)
    ensures
        json_of(value) == Json::Text(text@),
{
    serde_json::Value::String(text)
}

/// `serde_json::Value::from` a vector of bytes: the array of those numbers.
#[verifier::external_body]
pub(crate) fn json_from_bytes(bytes: Vec<u8>) -> (value: serde_json::Value)
    ensures
        json_of(value) == Json::of_bytes(bytes@),
{
    serde_json::Value::from(bytes)
}

/// `serde_json::Value::Object` of a map collected from a list: its fields are those of the list,
/// where a later entry takes the place of an earlier one of the same name.
#[verifier::external_body]
pub(crate) fn json_object(list: Vec<(String, serde_json::Value)>) -> (value: serde_json::Value)
    ensures
        json_of(value) == Json::Object(fields_of(list@)),
{
    serde_json::Value::Object(list.into_iter().collect())
}

/// `PathBuf::clone`: the same path.
pub assume_specification[ <std::path::PathBuf as Clone>::clone ](path: &std::path::PathBuf) -> (copy:
    std::path::PathBuf)
    ensures
        copy == *path,
;

/// `PathBuf::new`: the empty path.
#[verifier::external_body]
pub(crate) fn empty_path() -> (path: std::path::PathBuf)
    ensures
        path_bytes(path) == Seq::<u8>::empty(),
{
    std::path::PathBuf::new()
}

/// `PathBuf::from` a text: the path that the text spells.
#[verifier::external_body]
pub(crate) fn path_from_text(text: &str) -> (path: std::path::PathBuf)
    ensures
        path_bytes(path) == vstd::utf8::encode_utf8(text@),
{
    std::path::PathBuf::from(text)
}

/// `std::fmt::Formatter::write_str`: writes the text behind what is there, and succeeds only where
/// it has written all of it.
#[verifier::external_body]
pub(crate) fn write_text(f: &mut std::fmt::Formatter<'_>, text: &str) -> (done: std::fmt::Result)
    ensures
        done is Ok ==> written(*final(f)) == written(*old(f)) + text@,
{
    f.write_str(text)
}

} // verus!
