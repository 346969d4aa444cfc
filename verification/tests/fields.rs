use varnishslog_types::{
    Address, BackendConnection, Compression, Decode, DecodeError, ErrorKind, Float, Json, Number, Profile, Proxy,
    SessionInfo, Step, Text, parse,
};
use varnishslog_types::decode::{borrow_text, optional, required};
use varnishslog_types::document::{find, find_only, repeated, same_text};

fn field(name: &str) -> Step {
    Step::Field(name.to_string())
}

fn whole(n: i128) -> Json<'static> {
    Json::Number(Number { float: Float { bits: (n as f64).to_bits() }, whole: Some(n) })
}

fn error(kind: ErrorKind, path: Vec<Step>) -> DecodeError {
    DecodeError { kind, path }
}

#[test]
fn unsigned_64_bit_fields() {
    let p = Profile::ZeroCopy;
    assert_eq!(u64::decode(&whole(0), p), Ok(0));
    assert_eq!(u64::decode(&whole(18446744073709551615), p), Ok(u64::MAX));
    assert_eq!(u64::decode(&whole(18446744073709551616), p), Err(error(ErrorKind::NumericOverflow, vec![])));
    assert_eq!(u64::decode(&whole(-1), p), Err(error(ErrorKind::NumericOverflow, vec![])));
    assert_eq!(u64::decode(&parse("1.0").unwrap(), p), Err(error(ErrorKind::SchemaMismatch, vec![])));
    assert_eq!(u64::decode(&parse("1e10").unwrap(), p), Err(error(ErrorKind::SchemaMismatch, vec![])));
    assert_eq!(u64::decode(&parse("4294967295.5").unwrap(), p), Err(error(ErrorKind::SchemaMismatch, vec![])));
    let beyond_128_bits = "340282366920938463463374607431768211456";
    assert_eq!(parse(beyond_128_bits).unwrap(), Json::Number(Number {
        float: Float { bits: 340282366920938463463374607431768211456f64.to_bits() },
        whole: None,
    }));
    for line in [beyond_128_bits, "-340282366920938463463374607431768211456", "1e300", "18446744073709551616.0"] {
        assert_eq!(
            u64::decode(&parse(line).unwrap(), p),
            Err(error(ErrorKind::NumericOverflow, vec![])),
            "{}",
            line
        );
        assert_eq!(i64::decode(&parse(line).unwrap(), p), Err(error(ErrorKind::NumericOverflow, vec![])));
        assert_eq!(u32::decode(&parse(line).unwrap(), p), Err(error(ErrorKind::NumericOverflow, vec![])));
    }
    assert_eq!(u64::decode(&parse(r#""1""#).unwrap(), p), Err(error(ErrorKind::SchemaMismatch, vec![])));
    assert_eq!(u64::decode(&Json::Null, p), Err(error(ErrorKind::SchemaMismatch, vec![])));
}

#[test]
fn unsigned_32_bit_fields() {
    let p = Profile::ZeroCopy;
    assert_eq!(u32::decode(&whole(4294967295), p), Ok(u32::MAX));
    assert_eq!(u32::decode(&whole(4294967296), p), Err(error(ErrorKind::NumericOverflow, vec![])));
    assert_eq!(u32::decode(&whole(-5), p), Err(error(ErrorKind::NumericOverflow, vec![])));
    assert_eq!(u32::decode(&Json::Bool(true), p), Err(error(ErrorKind::SchemaMismatch, vec![])));
}

#[test]
fn signed_64_bit_fields() {
    let p = Profile::ZeroCopy;
    assert_eq!(i64::decode(&whole(-9223372036854775808), p), Ok(i64::MIN));
    assert_eq!(i64::decode(&whole(9223372036854775807), p), Ok(i64::MAX));
    assert_eq!(i64::decode(&whole(9223372036854775808), p), Err(error(ErrorKind::NumericOverflow, vec![])));
    assert_eq!(i64::decode(&whole(-9223372036854775809), p), Err(error(ErrorKind::NumericOverflow, vec![])));
    assert_eq!(i64::decode(&parse("-1.5").unwrap(), p), Err(error(ErrorKind::SchemaMismatch, vec![])));
}

#[test]
fn float_fields_take_any_number() {
    let p = Profile::ZeroCopy;
    assert_eq!(Float::decode(&parse("0.25").unwrap(), p).unwrap().bits, 0.25f64.to_bits());
    assert_eq!(Float::decode(&parse("3").unwrap(), p).unwrap().bits, 3.0f64.to_bits());
    assert_eq!(Float::decode(&parse("-2").unwrap(), p).unwrap().bits, (-2.0f64).to_bits());
    assert_eq!(Float::decode(&parse(r#""3""#).unwrap(), p), Err(error(ErrorKind::SchemaMismatch, vec![])));
}

#[test]
fn bool_fields() {
    let p = Profile::ZeroCopy;
    assert_eq!(bool::decode(&Json::Bool(true), p), Ok(true));
    assert_eq!(bool::decode(&Json::Bool(false), p), Ok(false));
    assert_eq!(bool::decode(&whole(1), p), Err(error(ErrorKind::SchemaMismatch, vec![])));
}

#[test]
fn borrowed_text_fields_refuse_copies_in_the_zero_copy_profile() {
    let plain = parse(r#""hit""#).unwrap();
    let escaped = parse(r#""a\"b""#).unwrap();
    assert_eq!(<&str>::decode(&plain, Profile::ZeroCopy), Ok("hit"));
    assert_eq!(<&str>::decode(&plain, Profile::Copying), Ok("hit"));
    assert_eq!(<&str>::decode(&escaped, Profile::ZeroCopy), Err(error(ErrorKind::UnsupportedEscape, vec![])));
    assert_eq!(<&str>::decode(&escaped, Profile::Copying), Ok("a\"b"));
    assert_eq!(<&str>::decode(&Json::Null, Profile::Copying), Err(error(ErrorKind::SchemaMismatch, vec![])));
    assert_eq!(borrow_text(&Text::Borrowed("x"), Profile::ZeroCopy), Ok("x"));
    assert_eq!(
        borrow_text(&Text::Owned("x".to_string()), Profile::ZeroCopy),
        Err(error(ErrorKind::UnsupportedEscape, vec![]))
    );
    assert_eq!(borrow_text(&Text::Owned("x".to_string()), Profile::Copying), Ok("x"));
}

#[test]
fn sequences_bind_each_element() {
    let p = Profile::ZeroCopy;
    let doc = parse("[1, 2, 3]").unwrap();
    assert_eq!(<Vec<u64>>::decode(&doc, p), Ok(vec![1, 2, 3]));
    assert_eq!(<Vec<u64>>::decode(&parse("[]").unwrap(), p), Ok(vec![]));
    let doc = parse(r#"[1, "x", 3.5]"#).unwrap();
    assert_eq!(<Vec<u64>>::decode(&doc, p), Err(error(ErrorKind::SchemaMismatch, vec![Step::Index(1)])));
    let doc = parse(r#"{"a": 1}"#).unwrap();
    assert_eq!(<Vec<u64>>::decode(&doc, p), Err(error(ErrorKind::SchemaMismatch, vec![])));
}

#[test]
fn pairs_are_arrays_of_two() {
    let p = Profile::ZeroCopy;
    let doc = parse(r#"["Host", "example.com"]"#).unwrap();
    assert_eq!(<(&str, &str)>::decode(&doc, p), Ok(("Host", "example.com")));
    for line in [r#"["Host"]"#, r#"["a", "b", "c"]"#, "[]", r#""Host""#] {
        let doc = parse(line).unwrap();
        assert_eq!(<(&str, &str)>::decode(&doc, p), Err(error(ErrorKind::SchemaMismatch, vec![])));
    }
    let doc = parse(r#"["Host", 1]"#).unwrap();
    assert_eq!(
        <(&str, &str)>::decode(&doc, p),
        Err(error(ErrorKind::SchemaMismatch, vec![Step::Index(1)]))
    );
    let doc = parse(r#"[2, 1]"#).unwrap();
    assert_eq!(
        <(&str, &str)>::decode(&doc, p),
        Err(error(ErrorKind::SchemaMismatch, vec![Step::Index(0)]))
    );
}

#[test]
fn find_gives_the_first_member_of_that_name() {
    let doc = Json::Object(vec![
        (Text::Borrowed("a"), whole(1)),
        (Text::Owned("b".to_string()), whole(2)),
        (Text::Borrowed("a"), whole(3)),
    ]);
    let members = doc.as_object().unwrap();
    assert_eq!(find(members, "a"), Some(&whole(1)));
    assert_eq!(find(members, "b"), Some(&whole(2)));
    assert_eq!(find(members, "c"), None);
    assert_eq!(find(members, ""), None);
}

#[test]
fn required_fields_must_be_there() {
    let doc = parse(r#"{"port": 80, "none": null}"#).unwrap();
    let members = doc.as_object().unwrap();
    let p = Profile::ZeroCopy;
    assert_eq!(required::<i64>(members, "port", p), Ok(80));
    assert_eq!(
        required::<i64>(members, "ip", p),
        Err(error(ErrorKind::MissingRequiredField, vec![field("ip")]))
    );
    assert_eq!(
        required::<i64>(members, "none", p),
        Err(error(ErrorKind::SchemaMismatch, vec![field("none")]))
    );
}

#[test]
fn optional_fields_are_absent_when_left_out_or_null() {
    let doc = parse(r#"{"port": 80, "none": null, "zero": 0, "empty": "", "bad": "x"}"#).unwrap();
    let members = doc.as_object().unwrap();
    let p = Profile::ZeroCopy;
    assert_eq!(optional::<i64>(members, "port", p), Ok(Some(80)));
    assert_eq!(optional::<i64>(members, "missing", p), Ok(None));
    assert_eq!(optional::<i64>(members, "none", p), Ok(None));
    assert_eq!(optional::<i64>(members, "zero", p), Ok(Some(0)));
    assert_eq!(optional::<&str>(members, "empty", p), Ok(Some("")));
    assert_eq!(optional::<&str>(members, "missing", p), Ok(None));
    assert_eq!(optional::<i64>(members, "bad", p), Err(error(ErrorKind::SchemaMismatch, vec![field("bad")])));
}

#[test]
fn address() {
    let p = Profile::ZeroCopy;
    let doc = parse(r#"{"ip": "192.168.1.10", "port": 40078, "more": [1]}"#).unwrap();
    let a = Address::decode(&doc, p).unwrap();
    assert_eq!(a.ip, "192.168.1.10");
    assert_eq!(a.port, 40078);
    let doc = parse(r#"{"ip": "not an address", "port": -1}"#).unwrap();
    let a = Address::decode(&doc, p).unwrap();
    assert_eq!(a.ip, "not an address");
    assert_eq!(a.port, -1);
    let doc = parse(r#"{"port": 1}"#).unwrap();
    assert_eq!(Address::decode(&doc, p).unwrap_err(), error(ErrorKind::MissingRequiredField, vec![field("ip")]));
    let doc = parse(r#"{"port": "x"}"#).unwrap();
    assert_eq!(Address::decode(&doc, p).unwrap_err(), error(ErrorKind::MissingRequiredField, vec![field("ip")]));
    let doc = parse(r#"{"ip": "::1", "port": 1.5}"#).unwrap();
    assert_eq!(Address::decode(&doc, p).unwrap_err(), error(ErrorKind::SchemaMismatch, vec![field("port")]));
    let doc = parse(r#"["::1", 80]"#).unwrap();
    assert_eq!(Address::decode(&doc, p).unwrap_err(), error(ErrorKind::SchemaMismatch, vec![]));
}

#[test]
fn session_with_proxy() {
    let line = r#"{"vxid": 7, "open_timestamp": 1469180762.484544,
        "local_address": {"ip": "127.0.0.1", "port": 1080},
        "remote_address": {"ip": "10.1.1.1", "port": 55555},
        "proxy": {"version": "2", "client_address": {"ip": "1.2.3.4", "port": 1},
                  "server_address": {"ip": "5.6.7.8", "port": 2}}}"#;
    let doc = parse(line).unwrap();
    let s = SessionInfo::decode(&doc, Profile::ZeroCopy).unwrap();
    assert_eq!(s.vxid, 7);
    assert_eq!(f64::from_bits(s.open_timestamp.bits), 1469180762.484544);
    assert_eq!(s.local_address.as_ref().unwrap().port, 1080);
    assert_eq!(s.remote_address.ip, "10.1.1.1");
    let proxy: &Proxy = s.proxy.as_ref().unwrap();
    assert_eq!(proxy.version, "2");
    assert_eq!(proxy.client_address.ip, "1.2.3.4");
    assert_eq!(proxy.server_address.port, 2);
}

#[test]
fn session_without_what_may_be_left_out() {
    let line = r#"{"vxid": 7, "open_timestamp": 1, "remote_address": {"ip": "10.1.1.1", "port": 5}, "proxy": null}"#;
    let doc = parse(line).unwrap();
    let s = SessionInfo::decode(&doc, Profile::ZeroCopy).unwrap();
    assert!(s.local_address.is_none());
    assert!(s.proxy.is_none());
    assert_eq!(f64::from_bits(s.open_timestamp.bits), 1.0);
}

#[test]
fn the_path_of_a_failure_leads_to_the_value() {
    let line = r#"{"vxid": 7, "open_timestamp": 1, "remote_address": {"ip": "10.1.1.1", "port": "x"}}"#;
    let doc = parse(line).unwrap();
    let e = SessionInfo::decode(&doc, Profile::ZeroCopy).unwrap_err();
    assert_eq!(e, error(ErrorKind::SchemaMismatch, vec![field("remote_address"), field("port")]));
    let line = r#"{"vxid": -1, "open_timestamp": 1, "remote_address": {"ip": "10.1.1.1", "port": 1}}"#;
    let doc = parse(line).unwrap();
    let e = SessionInfo::decode(&doc, Profile::ZeroCopy).unwrap_err();
    assert_eq!(e, error(ErrorKind::NumericOverflow, vec![field("vxid")]));
    let line = r#"{"vxid": 18446744073709551615, "open_timestamp": 1, "remote_address": {"ip": "::1", "port": 1}}"#;
    let doc = parse(line).unwrap();
    assert_eq!(SessionInfo::decode(&doc, Profile::ZeroCopy).unwrap().vxid, u64::MAX);
}

#[test]
fn the_first_field_that_fails_is_reported() {
    let line = r#"{"port": "x", "ip": 5}"#;
    let doc = parse(line).unwrap();
    let e = Address::decode(&doc, Profile::ZeroCopy).unwrap_err();
    assert_eq!(e, error(ErrorKind::SchemaMismatch, vec![field("ip")]));
}

#[test]
fn backend_connection_and_compression() {
    let p = Profile::ZeroCopy;
    let doc = parse(r#"{"fd": 19, "name": "boot.default", "local_address": {"ip": "10.0.0.1", "port": 51058}}"#).unwrap();
    let c = BackendConnection::decode(&doc, p).unwrap();
    assert_eq!(c.fd, 19);
    assert_eq!(c.name, "boot.default");
    assert!(c.remote_address.is_none());
    assert_eq!(c.local_address.port, 51058);
    let doc = parse(r#"{"operation": "Gunzip", "bytes_in": 29, "bytes_out": 9}"#).unwrap();
    let c = Compression::decode(&doc, p).unwrap();
    assert_eq!(c.operation, "Gunzip");
    assert_eq!(c.bytes_in, 29);
    assert_eq!(c.bytes_out, 9);
}

#[test]
fn failures_are_built_from_the_inside_out() {
    let e = DecodeError::here(ErrorKind::SchemaMismatch);
    assert_eq!(e, error(ErrorKind::SchemaMismatch, vec![]));
    let e = e.within_index(3).within_field("log");
    assert_eq!(e, error(ErrorKind::SchemaMismatch, vec![field("log"), Step::Index(3)]));
    let e = e.within(Step::Field("backend_access".to_string()));
    assert_eq!(
        e,
        error(ErrorKind::SchemaMismatch, vec![field("backend_access"), field("log"), Step::Index(3)])
    );
    assert_eq!(DecodeError::missing("vxid"), error(ErrorKind::MissingRequiredField, vec![field("vxid")]));
}

#[test]
fn every_kind_of_failure_has_its_cause_in_words() {
    assert_eq!(ErrorKind::Syntax.cause(), "the line is not well-formed JSON");
    assert_eq!(ErrorKind::SchemaMismatch.cause(), "the value has the wrong type");
    assert_eq!(ErrorKind::MissingRequiredField.cause(), "the field is missing");
    assert_eq!(ErrorKind::UnrecognizedVariant.cause(), "the value matches no known variant");
    assert_eq!(
        ErrorKind::UnsupportedEscape.cause(),
        "the text holds an escape sequence and cannot be borrowed"
    );
    assert_eq!(ErrorKind::NumericOverflow.cause(), "the number does not fit the field");
}

#[test]
fn a_field_that_comes_twice_is_refused() {
    let p = Profile::ZeroCopy;
    let doc = parse(r#"{"ip": "::1", "port": 1, "port": 1}"#).unwrap();
    let e = Address::decode(&doc, p).unwrap_err();
    assert_eq!(e, error(ErrorKind::SchemaMismatch, vec![field("port")]));
    let doc = parse(r#"{"ip": "::1", "port": 1, "extra": 1, "extra": 2}"#).unwrap();
    assert_eq!(Address::decode(&doc, p).unwrap().port, 1);
    let doc = parse(r#"{"a": 1, "a": 2, "b": null, "b": null, "c": 3}"#).unwrap();
    let members = doc.as_object().unwrap();
    assert_eq!(required::<i64>(members, "a", p), Err(error(ErrorKind::SchemaMismatch, vec![field("a")])));
    assert_eq!(optional::<i64>(members, "a", p), Err(error(ErrorKind::SchemaMismatch, vec![field("a")])));
    assert_eq!(optional::<i64>(members, "b", p), Err(error(ErrorKind::SchemaMismatch, vec![field("b")])));
    assert_eq!(required::<i64>(members, "c", p), Ok(3));
    assert_eq!(find(members, "a"), Some(&whole(1)));
    assert_eq!(find_only(members, "a"), Err(error(ErrorKind::SchemaMismatch, vec![field("a")])));
    assert_eq!(find_only(members, "c"), Ok(Some(&whole(3))));
    assert_eq!(find_only(members, "d"), Ok(None));
    assert!(repeated(members, "a"));
    assert!(repeated(members, "b"));
    assert!(!repeated(members, "c"));
    assert!(!repeated(members, "d"));
    let doc = parse(r#"{"a": 1, "a": 2, "a": 3}"#).unwrap();
    assert!(repeated(doc.as_object().unwrap(), "a"));
}

#[test]
fn strings_are_compared_by_their_characters() {
    assert!(same_text("", ""));
    assert!(same_text("vxid", "vxid"));
    assert!(same_text("héllo ✓", "héllo ✓"));
    assert!(!same_text("vxid", "vxi"));
    assert!(!same_text("vxid", "vxie"));
    assert!(!same_text("", "a"));
    assert!(!same_text("é", "e"));
}
