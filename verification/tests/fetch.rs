use oxibrowser_core::host_abi::{
    fetch_options, host_fetch_options, host_fetch_response, open_envelope, parsed_or_text,
    read_fetch_reply, response_of, unpack_to_string, unpack_to_value, FetchEnvelope, HostFetchResponse,
};
use oxibrowser_core::json::{number_json, text_json, Json};
use oxibrowser_core::json_codec::parse_json;

fn header(name: &str, value: &str) -> (String, String) {
    (name.to_string(), value.to_string())
}

#[test]
fn options_are_json_with_base64() {
    let headers = [header("Accept", "*/*"), header("X", "1")];
    assert_eq!(
        host_fetch_options("POST", &headers, Some(b"hello world~")),
        "{\"body\":\"aGVsbG8gd29ybGR+\",\"headers\":{\"Accept\":\"*/*\",\"X\":\"1\"},\"method\":\"POST\"}"
    );
    assert_eq!(
        host_fetch_options("GET", &[], None),
        "{\"body\":null,\"headers\":{},\"method\":\"GET\"}"
    );
    assert_eq!(
        host_fetch_options("GET", &[], Some(&[])),
        "{\"body\":\"\",\"headers\":{},\"method\":\"GET\"}"
    );
}

#[test]
fn last_header_of_a_name_counts() {
    let headers = [header("X", "1"), header("Y", "2"), header("X", "3")];
    let options = fetch_options("GET", &headers, None);
    let sent = options.get("headers").unwrap();
    assert_eq!(sent.get_str("X"), Some("3"));
    assert_eq!(sent.get_str("Y"), Some("2"));
    assert_eq!(sent.get("Z"), None);
}

#[test]
fn options_are_read_back() {
    let headers = [header("a", "b")];
    let text = host_fetch_options("PUT", &headers, Some(&[0, 255]));
    let options = parse_json(&text).unwrap();
    assert_eq!(options.get_str("method"), Some("PUT"));
    assert_eq!(options.get_str("body"), Some("AP8="));
    assert_eq!(options.get("headers").unwrap().get_str("a"), Some("b"));
}

#[test]
fn success_reply_is_read() {
    let reply = br#"{"status":200,"headers":[["a","b"],["c","d","e"]],"body":"aGk="}"#;
    assert_eq!(
        host_fetch_response(Some(&reply[..])),
        Ok(HostFetchResponse {
            status: 200,
            headers: vec![header("a", "b"), header("c", "d")],
            body: b"hi".to_vec(),
        })
    );
}

#[test]
fn failure_reply_is_read() {
    let reply = br#"{"error":"refused","status":200}"#;
    assert_eq!(host_fetch_response(Some(&reply[..])), Err("refused".to_string()));
}

#[test]
fn error_that_is_no_text_is_passed_over() {
    let reply = br#"{"error":5,"status":404}"#;
    let response = host_fetch_response(Some(&reply[..])).unwrap();
    assert_eq!(response.status, 404);
}

#[test]
fn status_is_cut_to_its_width() {
    let status = |n: u64| {
        let v = Json::Object(vec![("status".to_string(), number_json(n))]);
        read_fetch_reply(&v).unwrap().status
    };
    assert_eq!(status(65535), 65535);
    assert_eq!(status(65536 + 7), 7);
    let reply = br#"{"status":-1}"#;
    assert_eq!(host_fetch_response(Some(&reply[..])).unwrap().status, 0);
    let reply = br#"{"status":2.5}"#;
    assert_eq!(host_fetch_response(Some(&reply[..])).unwrap().status, 0);
}

#[test]
fn odd_headers_are_passed_over() {
    let reply = br#"{"headers":[["a"],"x",["b",1],[1,"b"],[],["c","d"],null]}"#;
    let response = host_fetch_response(Some(&reply[..])).unwrap();
    assert_eq!(response.headers, vec![header("c", "d")]);
    let reply = br#"{"headers":{"a":"b"}}"#;
    assert!(host_fetch_response(Some(&reply[..])).unwrap().headers.is_empty());
}

#[test]
fn bad_base64_is_an_empty_body() {
    for body in ["!", "aGk", "aGl=", "a"] {
        let v = Json::Object(vec![("body".to_string(), text_json(body))]);
        assert!(read_fetch_reply(&v).unwrap().body.is_empty());
    }
}

#[test]
fn envelope_keeps_the_base64() {
    let v = Json::Object(vec![
        ("status".to_string(), number_json(204)),
        ("body".to_string(), text_json("???")),
    ]);
    assert_eq!(
        open_envelope(&v),
        Ok(FetchEnvelope { status: 204, headers: vec![], body: Some("???".to_string()) })
    );
}

#[test]
fn no_reply_is_an_empty_response() {
    assert_eq!(
        host_fetch_response(None),
        Ok(HostFetchResponse { status: 0, headers: vec![], body: vec![] })
    );
}

#[test]
fn reply_that_is_not_json_is_a_text() {
    assert_eq!(unpack_to_value(Some(b"plain")), text_json("plain"));
    assert_eq!(unpack_to_value(Some(b"[1]")), Json::Array(vec![number_json(1)]));
    assert_eq!(unpack_to_value(None), Json::Null);
    assert_eq!(host_fetch_response(Some(b"plain")).unwrap().status, 0);
    assert_eq!(parsed_or_text("t".to_string(), None), text_json("t"));
    assert_eq!(parsed_or_text("t".to_string(), Some(Json::Null)), Json::Null);
}

#[test]
fn bytes_that_are_not_utf8_are_replaced() {
    assert_eq!(unpack_to_string(Some(&[b'a', 0xff, b'b'])), Some("a\u{fffd}b".to_string()));
    assert_eq!(unpack_to_string(Some("\u{e9}".as_bytes())), Some("\u{e9}".to_string()));
    assert_eq!(unpack_to_string(None), None);
}

#[test]
fn response_takes_the_decoded_body() {
    let envelope = || FetchEnvelope { status: 201, headers: vec![header("a", "b")], body: None };
    let response = response_of(envelope(), Some(vec![1, 2]));
    assert_eq!(response.status, 201);
    assert_eq!(response.headers, vec![header("a", "b")]);
    assert_eq!(response.body, vec![1, 2]);
    assert!(response_of(envelope(), None).body.is_empty());
}

#[test]
fn utf8_replies_are_read_as_they_are() {
    let reply = "{\"error\":\"h\u{f4}te\"}".as_bytes();
    assert_eq!(host_fetch_response(Some(reply)), Err("h\u{f4}te".to_string()));
    assert_eq!(unpack_to_value(Some("\u{f4}".as_bytes())), text_json("\u{f4}"));
}
