use varnishslog_types::{
    parse, Decode, DecodeError, ErrorKind, Float, Headers, HttpRequest, HttpResponse, IndexedLog, Json, Log, Number,
    Profile, RawLog, Step, Text,
};
use varnishslog_types::index::{decode_header_index, decode_variable_index, optional_header_index};

fn field(name: &str) -> Step {
    Step::Field(name.to_string())
}

fn error(kind: ErrorKind, path: Vec<Step>) -> DecodeError {
    DecodeError { kind, path }
}

fn text(s: &'static str) -> Json<'static> {
    Json::Text(Text::Borrowed(s))
}

fn texts(items: &[&'static str]) -> Json<'static> {
    Json::Array(items.iter().map(|s| text(s)).collect())
}

fn strings(items: &[&'static str]) -> Vec<&'static str> {
    items.to_vec()
}

#[test]
fn an_array_gives_raw_headers() {
    let doc = parse(r#"[["Host", "a.example"], ["Accept", "*/*"], ["Host", "b.example"]]"#).unwrap();
    let headers = Headers::decode(&doc, Profile::ZeroCopy).unwrap();
    let raw = headers.as_raw().unwrap();
    assert_eq!(
        raw,
        &vec![("Host", "a.example"), ("Accept", "*/*"), ("Host", "b.example")]
    );
    assert!(headers.as_indexed().is_none());
}

#[test]
fn an_object_gives_indexed_headers() {
    let doc = parse(r#"{"Host": ["a.example"], "Accept": ["text/html", "*/*"]}"#).unwrap();
    let headers = Headers::decode(&doc, Profile::ZeroCopy).unwrap();
    let index = headers.as_indexed().unwrap();
    assert!(headers.as_raw().is_none());
    assert_eq!(index.len(), 2);
    assert_eq!(index.get("Host"), Some(&strings(&["a.example"])));
    assert_eq!(index.get("Accept"), Some(&strings(&["text/html", "*/*"])));
    assert_eq!(index.get("host"), None);
    let names: Vec<&&str> = index.keys().collect();
    assert_eq!(names, vec![&"Host", &"Accept"]);
}

#[test]
fn empty_headers_of_either_shape() {
    let doc = parse("[]").unwrap();
    let headers = Headers::decode(&doc, Profile::ZeroCopy).unwrap();
    assert!(headers.as_raw().unwrap().is_empty());
    let doc = parse("{}").unwrap();
    let headers = Headers::decode(&doc, Profile::ZeroCopy).unwrap();
    assert!(headers.as_indexed().unwrap().is_empty());
}

#[test]
fn other_shapes_are_no_headers() {
    for line in [r#""Host: a""#, "1", "true", "null"] {
        let doc = parse(line).unwrap();
        let e = Headers::decode(&doc, Profile::ZeroCopy).unwrap_err();
        assert_eq!(e, error(ErrorKind::UnrecognizedVariant, vec![]), "{}", line);
    }
}

#[test]
fn ill_formed_headers_fail_where_they_are_ill_formed() {
    let doc = parse(r#"[["Host", "a"], ["Accept"]]"#).unwrap();
    let e = Headers::decode(&doc, Profile::ZeroCopy).unwrap_err();
    assert_eq!(e, error(ErrorKind::SchemaMismatch, vec![Step::Index(1)]));
    let doc = parse(r#"[["Host", "a"], ["Accept", 5]]"#).unwrap();
    let e = Headers::decode(&doc, Profile::ZeroCopy).unwrap_err();
    assert_eq!(e, error(ErrorKind::SchemaMismatch, vec![Step::Index(1), Step::Index(1)]));
    let doc = parse(r#"{"Host": ["a"], "Accept": "b"}"#).unwrap();
    let e = Headers::decode(&doc, Profile::ZeroCopy).unwrap_err();
    assert_eq!(e, error(ErrorKind::SchemaMismatch, vec![field("Accept")]));
    let doc = parse(r#"{"Host": ["a", 1]}"#).unwrap();
    let e = Headers::decode(&doc, Profile::ZeroCopy).unwrap_err();
    assert_eq!(e, error(ErrorKind::SchemaMismatch, vec![field("Host"), Step::Index(1)]));
}

#[test]
fn a_name_that_comes_again_adds_to_its_values() {
    let doc = Json::Object(vec![
        (Text::Borrowed("Set-Cookie"), texts(&["a=1"])),
        (Text::Borrowed("Vary"), texts(&["Accept"])),
        (Text::Borrowed("Set-Cookie"), texts(&["b=2", "c=3"])),
        (Text::Borrowed("Via"), texts(&[])),
    ]);
    let index = decode_header_index(&doc, Profile::ZeroCopy).unwrap();
    assert_eq!(index.len(), 3);
    let entries: Vec<(&&str, &Vec<&str>)> = index.iter().collect();
    assert_eq!(entries[0], (&"Set-Cookie", &strings(&["a=1", "b=2", "c=3"])));
    assert_eq!(entries[1], (&"Vary", &strings(&["Accept"])));
    assert_eq!(entries[2], (&"Via", &strings(&[])));
}

#[test]
fn a_header_index_must_be_an_object() {
    let e = decode_header_index(&parse("[]").unwrap(), Profile::ZeroCopy).unwrap_err();
    assert_eq!(e, error(ErrorKind::SchemaMismatch, vec![]));
}

#[test]
fn an_empty_index_is_not_an_absent_one() {
    let doc = parse(r#"{"empty": {}, "none": null, "some": {"A": ["1"]}, "bad": 1}"#).unwrap();
    let members = doc.as_object().unwrap();
    let p = Profile::ZeroCopy;
    let empty = optional_header_index(members, "empty", p).unwrap();
    assert_eq!(empty.map(|index| index.len()), Some(0));
    assert!(optional_header_index(members, "none", p).unwrap().is_none());
    assert!(optional_header_index(members, "missing", p).unwrap().is_none());
    let some = optional_header_index(members, "some", p).unwrap().unwrap();
    assert_eq!(some.get("A"), Some(&strings(&["1"])));
    let e = optional_header_index(members, "bad", p).unwrap_err();
    assert_eq!(e, error(ErrorKind::SchemaMismatch, vec![field("bad")]));
}

#[test]
fn a_variable_index_borrows_its_names() {
    let line = r#"{"x-key": "a", "y": "b\"c", "x-key": "d"}"#;
    let doc = parse(line).unwrap();
    let index = decode_variable_index(&doc, Profile::Copying).unwrap();
    let entries: Vec<(&&str, &&str)> = index.iter().collect();
    assert_eq!(entries, vec![(&"x-key", &"d"), (&"y", &"b\"c")]);
    let e = decode_variable_index(&doc, Profile::ZeroCopy).unwrap_err();
    assert_eq!(e, error(ErrorKind::UnsupportedEscape, vec![field("y")]));
    let doc = parse(r#"{"x-key": "a", "y": "b", "x-key": "d"}"#).unwrap();
    let index = decode_variable_index(&doc, Profile::ZeroCopy).unwrap();
    let entries: Vec<(&&str, &&str)> = index.iter().collect();
    assert_eq!(entries, vec![(&"x-key", &"d"), (&"y", &"b")]);
}

#[test]
fn a_variable_that_comes_again_replaces_its_value() {
    let doc = Json::Object(vec![
        (Text::Borrowed("a"), text("1")),
        (Text::Borrowed("b"), text("2")),
        (Text::Borrowed("a"), text("3")),
    ]);
    let index = decode_variable_index(&doc, Profile::ZeroCopy).unwrap();
    let entries: Vec<(&&str, &&str)> = index.iter().collect();
    assert_eq!(entries, vec![(&"a", &"3"), (&"b", &"2")]);
}

#[test]
fn an_escaped_variable_name_needs_the_copying_profile() {
    let line = r#"{"a\"b": "1"}"#;
    let doc = parse(line).unwrap();
    let e = decode_variable_index(&doc, Profile::ZeroCopy).unwrap_err();
    assert_eq!(e, error(ErrorKind::UnsupportedEscape, vec![field("a\"b")]));
    let index = decode_variable_index(&doc, Profile::Copying).unwrap();
    assert_eq!(index.get("a\"b"), Some(&"1"));
    let doc = parse(r#"{"a": 1}"#).unwrap();
    let e = decode_variable_index(&doc, Profile::Copying).unwrap_err();
    assert_eq!(e, error(ErrorKind::SchemaMismatch, vec![field("a")]));
    let e = decode_variable_index(&parse("[]").unwrap(), Profile::Copying).unwrap_err();
    assert_eq!(e, error(ErrorKind::SchemaMismatch, vec![]));
}

#[test]
fn an_array_gives_a_raw_log() {
    let line = r#"[{"entry_type": "VCL_call", "message": "RECV"},
        {"entry_type": "Error", "message": "no backend", "detail": "vcl.b1"},
        {"entry_type": "VCL_call", "message": "RECV", "detail": null}]"#;
    let doc = parse(line).unwrap();
    let log = Log::decode(&doc, Profile::ZeroCopy).unwrap();
    let entries: &Vec<RawLog> = log.as_raw().unwrap();
    assert!(log.as_indexed().is_none());
    assert_eq!(entries.len(), 3);
    assert_eq!(entries[0].entry_type, "VCL_call");
    assert_eq!(entries[0].message, "RECV");
    assert_eq!(entries[0].detail, None);
    assert_eq!(entries[1].entry_type, "Error");
    assert_eq!(entries[1].detail, Some("vcl.b1"));
    assert_eq!(entries[2].message, "RECV");
    assert_eq!(entries[2].detail, None);
}

#[test]
fn an_object_gives_an_indexed_log() {
    let line = r#"{"vars": {"route": "default"}, "messages": ["one", "two", "one"],
        "acl_matched": ["trusted"], "acl_not_matched": []}"#;
    let doc = parse(line).unwrap();
    let log = Log::decode(&doc, Profile::ZeroCopy).unwrap();
    let indexed: &IndexedLog = log.as_indexed().unwrap();
    assert!(log.as_raw().is_none());
    assert_eq!(indexed.vars.get("route"), Some(&"default"));
    assert_eq!(indexed.vars.len(), 1);
    assert_eq!(indexed.messages, strings(&["one", "two", "one"]));
    assert_eq!(indexed.acl_matched, vec!["trusted"]);
    assert!(indexed.acl_not_matched.is_empty());
}

#[test]
fn other_shapes_are_no_log() {
    for line in [r#""log""#, "0", "false", "null"] {
        let doc = parse(line).unwrap();
        let e = Log::decode(&doc, Profile::ZeroCopy).unwrap_err();
        assert_eq!(e, error(ErrorKind::UnrecognizedVariant, vec![]), "{}", line);
    }
}

#[test]
fn ill_formed_logs_fail_where_they_are_ill_formed() {
    let doc = parse(r#"[{"entry_type": "a", "message": "b"}, {"entry_type": "a"}]"#).unwrap();
    let e = Log::decode(&doc, Profile::ZeroCopy).unwrap_err();
    assert_eq!(e, error(ErrorKind::MissingRequiredField, vec![Step::Index(1), field("message")]));
    let doc = parse(r#"{"messages": [], "acl_matched": [], "acl_not_matched": []}"#).unwrap();
    let e = Log::decode(&doc, Profile::ZeroCopy).unwrap_err();
    assert_eq!(e, error(ErrorKind::MissingRequiredField, vec![field("vars")]));
    let doc = parse(r#"{"vars": {}, "messages": [], "acl_matched": ["a\tb"], "acl_not_matched": []}"#).unwrap();
    let e = Log::decode(&doc, Profile::ZeroCopy).unwrap_err();
    assert_eq!(e, error(ErrorKind::UnsupportedEscape, vec![field("acl_matched"), Step::Index(0)]));
    let log = Log::decode(&doc, Profile::Copying).unwrap();
    assert_eq!(log.as_indexed().unwrap().acl_matched, vec!["a\tb"]);
}

#[test]
fn request_and_response() {
    let line = r#"{"protocol": "HTTP/1.1", "method": "GET", "url": "/a?b=\"c\"",
        "headers": [["Host", "example.com"]]}"#;
    let doc = parse(line).unwrap();
    let e = HttpRequest::decode(&doc, Profile::ZeroCopy).unwrap_err();
    assert_eq!(e, error(ErrorKind::UnsupportedEscape, vec![field("url")]));
    let request = HttpRequest::decode(&doc, Profile::Copying).unwrap();
    assert_eq!(request.protocol, "HTTP/1.1");
    assert_eq!(request.method, "GET");
    assert_eq!(request.url, "/a?b=\"c\"");
    assert_eq!(request.headers.as_raw().unwrap().len(), 1);
    let line = r#"{"status": 503, "reason": "Backend fetch failed", "protocol": "HTTP/1.1",
        "headers": {"Retry-After": ["20"]}}"#;
    let doc = parse(line).unwrap();
    let response = HttpResponse::decode(&doc, Profile::ZeroCopy).unwrap();
    assert_eq!(response.status, 503);
    assert_eq!(response.reason, "Backend fetch failed");
    assert_eq!(response.protocol, "HTTP/1.1");
    assert_eq!(response.headers.as_indexed().unwrap().get("Retry-After"), Some(&strings(&["20"])));
    let doc = parse(r#"{"status": 200, "reason": "OK", "protocol": "HTTP/1.1", "headers": "none"}"#).unwrap();
    let e = HttpResponse::decode(&doc, Profile::ZeroCopy).unwrap_err();
    assert_eq!(e, error(ErrorKind::UnrecognizedVariant, vec![field("headers")]));
    let doc = parse(r#"{"status": -200, "reason": "OK", "protocol": "HTTP/1.1", "headers": []}"#).unwrap();
    let e = HttpResponse::decode(&doc, Profile::ZeroCopy).unwrap_err();
    assert_eq!(e, error(ErrorKind::NumericOverflow, vec![field("status")]));
}

#[test]
fn a_hand_made_number_is_read_by_its_parts() {
    let n = Json::Number(Number { float: Float { bits: 2.5f64.to_bits() }, whole: Some(2) });
    assert_eq!(u64::decode(&n, Profile::ZeroCopy), Ok(2));
    assert_eq!(Float::decode(&n, Profile::ZeroCopy).unwrap().bits, 2.5f64.to_bits());
}

#[test]
fn a_repeated_header_name_in_a_line_adds_to_its_values() {
    let doc = parse(r#"{"A": ["1"], "B": ["2"], "A": ["3"]}"#).unwrap();
    let headers = Headers::decode(&doc, Profile::ZeroCopy).unwrap();
    let index = headers.as_indexed().unwrap();
    assert!(headers.as_raw().is_none());
    let entries: Vec<(&&str, &Vec<&str>)> = index.iter().collect();
    assert_eq!(entries.len(), 2);
    assert_eq!(entries[0], (&"A", &strings(&["1", "3"])));
    assert_eq!(entries[1], (&"B", &strings(&["2"])));
}

#[test]
fn escaped_text_in_headers_needs_the_copying_profile() {
    let p = Profile::ZeroCopy;
    let doc = parse(r#"{"A\tB": ["1"]}"#).unwrap();
    let e = Headers::decode(&doc, p).unwrap_err();
    assert_eq!(e, error(ErrorKind::UnsupportedEscape, vec![field("A\tB")]));
    assert_eq!(Headers::decode(&doc, Profile::Copying).unwrap().as_indexed().unwrap().len(), 1);
    let doc = parse(r#"{"A": ["1", "\"2\""]}"#).unwrap();
    let e = Headers::decode(&doc, p).unwrap_err();
    assert_eq!(e, error(ErrorKind::UnsupportedEscape, vec![field("A"), Step::Index(1)]));
    let copied = Headers::decode(&doc, Profile::Copying).unwrap();
    assert_eq!(copied.as_indexed().unwrap().get("A"), Some(&strings(&["1", "\"2\""])));
    let doc = parse(r#"[["A\\", "1"]]"#).unwrap();
    let e = Headers::decode(&doc, p).unwrap_err();
    assert_eq!(e, error(ErrorKind::UnsupportedEscape, vec![Step::Index(0), Step::Index(0)]));
    let doc = parse(r#"[["A", "1\n"]]"#).unwrap();
    let e = Headers::decode(&doc, p).unwrap_err();
    assert_eq!(e, error(ErrorKind::UnsupportedEscape, vec![Step::Index(0), Step::Index(1)]));
    assert_eq!(
        Headers::decode(&doc, Profile::Copying).unwrap().as_raw().unwrap(),
        &vec![("A", "1\n")]
    );
}

#[test]
fn escaped_text_in_a_log_needs_the_copying_profile() {
    let doc = parse(r#"[{"entry_type": "Error", "message": "said \"no\""}]"#).unwrap();
    let e = Log::decode(&doc, Profile::ZeroCopy).unwrap_err();
    assert_eq!(e, error(ErrorKind::UnsupportedEscape, vec![Step::Index(0), field("message")]));
    let log = Log::decode(&doc, Profile::Copying).unwrap();
    assert_eq!(log.as_raw().unwrap()[0].message, "said \"no\"");
    let doc = parse(r#"[{"entry_type": "Error", "message": "no", "detail": "a\\b"}]"#).unwrap();
    let e = Log::decode(&doc, Profile::ZeroCopy).unwrap_err();
    assert_eq!(e, error(ErrorKind::UnsupportedEscape, vec![Step::Index(0), field("detail")]));
    let line = r#"{"vars": {}, "messages": ["a", "b\tc"], "acl_matched": [], "acl_not_matched": []}"#;
    let doc = parse(line).unwrap();
    let e = Log::decode(&doc, Profile::ZeroCopy).unwrap_err();
    assert_eq!(e, error(ErrorKind::UnsupportedEscape, vec![field("messages"), Step::Index(1)]));
    assert_eq!(Log::decode(&doc, Profile::Copying).unwrap().as_indexed().unwrap().messages, strings(&["a", "b\tc"]));
}
