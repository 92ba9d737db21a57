use serde_json::Value;
use unikraft_sandbox::exchange::{HttpRequest, HttpResponse};
use unikraft_sandbox::table::HeaderTable;
use unikraft_sandbox::tools::{
    answer_fetch, answer_read_file, answer_write_file, default_get_method, plan_call_tool,
    plan_fetch, plan_read_file, plan_write_file, read_body_text, FetchAsking, FetchOptions,
    FetchStep, FileReply, Permission, ToolError, HOST_TOOLS,
};

fn json(text: &str) -> Value {
    serde_json::from_str(text).unwrap()
}

fn failure<T>(outcome: Result<T, ToolError>) -> String {
    match outcome {
        Ok(_) => panic!("the call went well"),
        Err(error) => error.message(),
    }
}

fn success<T>(outcome: Result<T, ToolError>) -> T {
    match outcome {
        Ok(value) => value,
        Err(error) => panic!("{}", error.message()),
    }
}

fn asking(args: &str) -> FetchAsking {
    success(success(plan_fetch(&json(args))).with_method(Ok("GET".to_string())))
}

fn sent(args: &str) -> HttpRequest {
    match success(asking(args).with_permission(Permission::Allowed)) {
        FetchStep::Send(request) => request,
        FetchStep::Answer(value) => panic!("answered {value}"),
    }
}

#[test]
fn fetch_options_default_to_get() {
    let o = success(FetchOptions::from_json(&json("{}")));
    assert_eq!(o.method, "GET");
    assert!(o.headers.is_empty());
    assert!(o.body.is_none());

    let o = success(FetchOptions::from_json(&json(
        r#"{"method":"POST","headers":{"x":"y"},"body":"hello"}"#,
    )));
    assert_eq!(o.method, "POST");
    assert_eq!(o.headers.get("x").map(String::as_str), Some("y"));
    assert_eq!(o.body.as_deref(), Some("hello"));
}

#[test]
fn default_method_is_get() {
    assert_eq!(default_get_method(), "GET");
}

#[test]
fn fetch_options_of_the_wrong_shape_are_refused() {
    for text in [
        r#"{"method":null}"#,
        r#"{"method":1}"#,
        r#"{"headers":null}"#,
        r#"{"headers":["x"]}"#,
        r#"{"headers":{"x":1}}"#,
        r#"{"body":7}"#,
        r#"{"body":{}}"#,
        "null",
        "\"text\"",
        r#"[1]"#,
        r#"["GET",null]"#,
        r#"["GET",{},null,0]"#,
    ] {
        assert_eq!(
            failure(FetchOptions::from_json(&json(text))),
            "fetch: invalid options"
        );
    }
    let o = success(FetchOptions::from_json(&json(r#"{"body":null,"other":[1.5]}"#)));
    assert!(o.body.is_none());
}

#[test]
fn fetch_options_can_be_listed() {
    let o = success(FetchOptions::from_json(&json(r#"["PUT",{"x":"y"},"b"]"#)));
    assert_eq!(o.method, "PUT");
    assert_eq!(o.headers.get("x").map(String::as_str), Some("y"));
    assert_eq!(o.body.as_deref(), Some("b"));
    let o = success(FetchOptions::from_json(&json("[]")));
    assert_eq!(o.method, "GET");
    assert!(o.headers.is_empty());
    assert!(o.body.is_none());
}

#[test]
fn tools_are_registered_in_order() {
    assert_eq!(HOST_TOOLS, ["call_tool", "read_file", "write_file", "fetch"]);
}

#[test]
fn call_tool_takes_name_and_args() {
    let call = success(plan_call_tool(&json(r#"{"name":"add","args":{"a":1.5}}"#)));
    assert_eq!(call.name, "add");
    assert_eq!(call.args, json(r#"{"a":1.5}"#));
    let call = success(plan_call_tool(&json(r#"{"name":"add"}"#)));
    assert_eq!(call.args, Value::Null);
    for text in ["{}", r#"{"name":1}"#, "[]", "null"] {
        assert_eq!(failure(plan_call_tool(&json(text))), "call_tool: missing 'name'");
    }
}

#[test]
fn read_file_takes_a_path() {
    assert_eq!(success(plan_read_file(&json(r#"{"path":"/input/a"}"#))), "/input/a");
    assert_eq!(failure(plan_read_file(&json(r#"{"path":[]}"#))), "read_file: missing 'path'");
}

#[test]
fn read_file_answers_the_bytes() {
    assert_eq!(
        success(answer_read_file(FileReply::Done(vec![0, 104, 255]))),
        json(r#"{"data":[0,104,255]}"#)
    );
    assert_eq!(failure(answer_read_file(FileReply::Poisoned)), "filesystem mutex poisoned");
    assert_eq!(
        failure(answer_read_file(FileReply::Refused("no such file".to_string()))),
        "no such file"
    );
}

#[test]
fn write_file_takes_text_or_bytes() {
    let write = success(plan_write_file(&json(r#"{"path":"/output/a","text":"hé"}"#)));
    assert_eq!(write.path, "/output/a");
    assert_eq!(write.data, "h\u{e9}".as_bytes().to_vec());
    let write = success(plan_write_file(&json(r#"{"path":"p","bytes":[0,7,255]}"#)));
    assert_eq!(write.data, vec![0, 7, 255]);
    // Text goes before bytes; what is no text does not count as one.
    let write = success(plan_write_file(&json(r#"{"path":"p","text":"t","bytes":[1]}"#)));
    assert_eq!(write.data, b"t".to_vec());
    let write = success(plan_write_file(&json(r#"{"path":"p","text":5,"bytes":[1]}"#)));
    assert_eq!(write.data, vec![1]);
}

#[test]
fn write_file_refuses_what_is_no_content() {
    assert_eq!(
        failure(plan_write_file(&json(r#"{"text":"t"}"#))),
        "write_file: missing 'path'"
    );
    assert_eq!(
        failure(plan_write_file(&json(r#"{"path":"p"}"#))),
        "write_file: requires 'text' or 'bytes'"
    );
    for bytes in ["[256]", "[-1]", "[1.0]", "[\"a\"]", "\"a\"", "null", "{}", "[null]"] {
        assert_eq!(
            failure(plan_write_file(&json(&format!("{{\"path\":\"p\",\"bytes\":{bytes}}}")))),
            "write_file: 'bytes' must be an array of byte values"
        );
    }
}

#[test]
fn write_file_answers_ok() {
    assert_eq!(
        success(answer_write_file(FileReply::Done(()))),
        json(r#"{"ok":true}"#)
    );
    assert_eq!(failure(answer_write_file(FileReply::Poisoned)), "filesystem mutex poisoned");
    assert_eq!(failure(answer_write_file(FileReply::Refused("ro".to_string()))), "ro");
}

#[test]
fn read_bytes_can_be_written_back() {
    let data: Vec<u8> = (0..=255).collect();
    let answer = success(answer_read_file(FileReply::Done(data.clone())));
    let mut args = serde_json::Map::new();
    args.insert("path".to_string(), Value::from("/output/copy"));
    args.insert("bytes".to_string(), answer.get("data").unwrap().clone());
    assert_eq!(success(plan_write_file(&Value::Object(args))).data, data);
}

#[test]
fn fetch_reads_url_and_options() {
    let fetch = success(plan_fetch(&json(r#"{"url":"http://Example.com/a","method":"put"}"#)));
    assert_eq!(fetch.url.serialization, "http://example.com/a");
    assert_eq!(fetch.options.method, "put");
    assert_eq!(failure(plan_fetch(&json("{}"))), "fetch: missing 'url'");
    assert_eq!(
        failure(plan_fetch(&json(r#"{"url":"nonsense","method":1}"#))),
        "fetch: invalid options"
    );
    assert_eq!(
        failure(plan_fetch(&json(r#"{"url":"nonsense"}"#))),
        "fetch: invalid URL nonsense"
    );
}

#[test]
fn fetch_reports_a_bad_method_in_the_hosts_words() {
    let fetch = success(plan_fetch(&json(r#"{"url":"http://h/"}"#)));
    assert_eq!(failure(fetch.with_method(Err("unknown method".to_string()))), "unknown method");
}

#[test]
fn denied_fetch_is_answered_403() {
    let step = success(asking(r#"{"url":"http://h"}"#).with_permission(Permission::Denied));
    match step {
        FetchStep::Answer(value) => assert_eq!(
            value,
            json(r#"{"status":403,"headers":{},"body":"HTTP request denied for GET http://h/"}"#)
        ),
        FetchStep::Send(_) => panic!("sent"),
    }
    assert_eq!(
        failure(asking(r#"{"url":"http://h"}"#).with_permission(Permission::Poisoned)),
        "network mutex poisoned"
    );
}

#[test]
fn allowed_fetch_is_sent() {
    let request = sent(r#"{"url":"http://h/","headers":{"x":"y"},"body":"b"}"#);
    assert_eq!(request.url.serialization, "http://h/");
    assert_eq!(request.method, "GET");
    assert_eq!(request.headers, vec![("x".to_string(), "y".to_string())]);
}

#[test]
fn fetch_allows_so_many_headers() {
    let args = |count: usize| {
        let headers: Vec<String> = (0..count).map(|i| format!("\"x-{i}\":\"v\"")).collect();
        format!("{{\"url\":\"http://h/\",\"headers\":{{{}}}}}", headers.join(","))
    };
    assert_eq!(sent(&args(128)).headers.len(), 128);
    assert_eq!(
        failure(asking(&args(129)).with_permission(Permission::Allowed)),
        "fetch: too many request headers"
    );
    // A refusal comes before the headers are counted.
    assert!(asking(&args(129)).with_permission(Permission::Denied).is_ok());
}

#[test]
fn fetch_answers_the_response() {
    let mut headers = HeaderTable::new();
    headers.insert("x-a".to_string(), "1".to_string());
    headers.insert("x-b".to_string(), "2".to_string());
    headers.insert("x-a".to_string(), "3".to_string());
    let answer = answer_fetch(Ok(HttpResponse {
        status: 204,
        headers,
        body: "h\u{e9}".as_bytes().to_vec(),
    }));
    assert_eq!(
        answer,
        json(r#"{"status":204,"headers":{"x-a":"3","x-b":"2"},"body":"hé"}"#)
    );
}

#[test]
fn failed_fetch_is_answered_502() {
    assert_eq!(
        answer_fetch(Err("response body read timed out".to_string())),
        json(r#"{"status":502,"headers":{},"body":"response body read timed out"}"#)
    );
}

#[test]
fn body_text_replaces_what_is_no_utf8() {
    assert_eq!(read_body_text(b"plain".to_vec()), "plain");
    assert_eq!(read_body_text(vec![b'a', 0xff, b'b']), "a\u{fffd}b");
}

#[test]
fn table_keeps_each_name_once() {
    let mut table = HeaderTable::new();
    assert!(table.is_empty());
    table.insert("a".to_string(), "1".to_string());
    table.insert("b".to_string(), "2".to_string());
    table.insert("a".to_string(), "3".to_string());
    assert_eq!(table.len(), 2);
    assert_eq!(table.get("a").map(String::as_str), Some("3"));
    assert_eq!(table.get("c"), None);
    assert_eq!(
        table.into_entries(),
        vec![
            ("a".to_string(), "3".to_string()),
            ("b".to_string(), "2".to_string())
        ]
    );
}
