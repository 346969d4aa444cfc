use varnishslog_types::{
    decode_record, parse, DecodeError, Encoding, ErrorKind, HttpAccessRecord, Json, Profile, Step,
};

const CLIENT: &str = r#"{"record_type":"client_request","vxid":1,"remote_address":{"ip":"127.0.0.1","port":80},"start_timestamp":0.0,"handling":"miss","ttfb_duration":0.01,"serve_duration":0.02,"recv_header_bytes":10,"recv_body_bytes":0,"recv_total_bytes":10,"sent_header_bytes":20,"sent_body_bytes":0,"sent_total_bytes":20,"esi_count":0,"restart_count":0,"log":[]}"#;

fn field(name: &str) -> Step {
    Step::Field(name.to_string())
}

fn failure(line: &str, encoding: Encoding, profile: Profile) -> DecodeError {
    let doc: Json = parse(line).unwrap();
    let result = decode_record(&doc, encoding, profile);
    match result {
        Ok(_) => panic!("decoded: {}", line),
        Err(e) => e,
    }
}

#[test]
fn client_request_round_trip() {
    let doc = parse(CLIENT).unwrap();
    let record = decode_record(&doc, Encoding::Tagged, Profile::ZeroCopy).unwrap();
    let client = record.as_client_request().unwrap();
    assert_eq!(client.vxid, 1);
    assert!(client.backend_access.is_none());
    assert_eq!(client.record_type, Some("client_request"));
    assert_eq!(client.remote_address.ip, "127.0.0.1");
    assert_eq!(client.remote_address.port, 80);
    assert_eq!(client.handling, "miss");
    assert_eq!(f64::from_bits(client.start_timestamp.bits), 0.0);
    assert_eq!(f64::from_bits(client.ttfb_duration.bits), 0.01);
    assert_eq!(f64::from_bits(client.serve_duration.bits), 0.02);
    assert_eq!(client.recv_header_bytes, 10);
    assert_eq!(client.recv_total_bytes, 10);
    assert_eq!(client.sent_header_bytes, 20);
    assert_eq!(client.sent_total_bytes, 20);
    assert_eq!(client.esi_count, 0);
    assert_eq!(client.restart_count, 0);
    assert!(client.log.as_raw().unwrap().is_empty());
    assert!(client.log.as_indexed().is_none());
    assert!(record.as_esi_subrequest().is_none());
    assert!(record.as_pipe_session().is_none());
}

#[test]
fn wrong_type_is_a_schema_mismatch_at_the_field() {
    let line = CLIENT.replace(r#""handling":"miss""#, r#""handling":123"#);
    let e = failure(&line, Encoding::Tagged, Profile::ZeroCopy);
    assert_eq!(e.kind, ErrorKind::SchemaMismatch);
    assert_eq!(e.path, vec![field("handling")]);
}

#[test]
fn no_tag_and_no_matching_shape_is_unrecognized() {
    let line = r#"{"vxid":1,"something":"else"}"#;
    let e = failure(line, Encoding::Untagged, Profile::ZeroCopy);
    assert_eq!(e.kind, ErrorKind::UnrecognizedVariant);
    assert!(e.path.is_empty());
    let e = failure(line, Encoding::Tagged, Profile::ZeroCopy);
    assert_eq!(e.kind, ErrorKind::UnrecognizedVariant);
    assert_eq!(e.path, vec![field("record_type")]);
}

#[test]
fn escaped_text_fails_zero_copy_and_succeeds_copying() {
    let line = CLIENT.replace(r#""handling":"miss""#, r#""handling":"a\"b""#);
    let e = failure(&line, Encoding::Tagged, Profile::ZeroCopy);
    assert_eq!(e.kind, ErrorKind::UnsupportedEscape);
    assert_eq!(e.path, vec![field("handling")]);
    let doc = parse(&line).unwrap();
    let record = decode_record(&doc, Encoding::Tagged, Profile::Copying).unwrap();
    assert_eq!(record.as_client_request().unwrap().handling, "a\"b");
}

#[test]
fn malformed_text_is_a_syntax_error() {
    let e = parse(r#"{"vxid":1"#).unwrap_err();
    assert_eq!(e.kind, ErrorKind::Syntax);
    assert!(e.path.is_empty());
    assert!(parse("").is_err());
    assert!(parse(r#"{"a":1} trailing"#).is_err());
}

#[test]
fn untagged_esi_subrequest_is_a_client_request() {
    let line = CLIENT.replace("client_request", "esi_subrequest");
    let doc = parse(&line).unwrap();
    let tagged = decode_record(&doc, Encoding::Tagged, Profile::ZeroCopy).unwrap();
    let untagged = decode_record(&doc, Encoding::Untagged, Profile::ZeroCopy).unwrap();
    assert!(matches!(tagged, HttpAccessRecord::EsiSubrequest(_)));
    let a = tagged.as_esi_subrequest().unwrap();
    let b = untagged.as_client_request().unwrap();
    assert_eq!(a.vxid, b.vxid);
    assert_eq!(a.record_type, Some("esi_subrequest"));
    assert_eq!(b.record_type, Some("esi_subrequest"));
}
