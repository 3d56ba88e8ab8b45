use stratum::codec::{decode_request, decode_response, encode_request, encode_response};
use stratum::error::{Error, RpcError};
use stratum::{Request, Response, Value};

#[test]
fn encode_request_exact() {
    let req = Request {
        method: "getinfo".to_owned(),
        params: vec![Value::Num(3), Value::Str("x".to_owned())],
        id: Value::Num(1),
    };
    assert_eq!(
        encode_request(&req),
        "{\"method\":\"getinfo\",\"params\":[3,\"x\"],\"id\":1}"
    );
}

#[test]
fn encode_request_empty_params() {
    let req = Request { method: "ping".to_owned(), params: vec![], id: Value::Num(2) };
    assert_eq!(encode_request(&req), "{\"method\":\"ping\",\"params\":[],\"id\":2}");
}

#[test]
fn encode_response_exact() {
    let resp = Response { result: Some(Value::Bool(true)), error: None, id: Value::Num(81) };
    assert_eq!(
        encode_response(&resp),
        "{\"result\":true,\"error\":null,\"id\":81}"
    );
}

#[test]
fn round_trip_result_true() {
    let resp = Response { result: Some(Value::Bool(true)), error: None, id: Value::Num(81) };
    let text = encode_response(&resp);
    let back = decode_response(&text).unwrap();
    assert_eq!(back.result, Some(Value::Bool(true)));
    assert!(back.error.is_none());
    assert_eq!(back.id, Value::Num(81));
    assert!(!back.is_none());
}

#[test]
fn round_trip_result_null() {
    let resp = Response { result: None, error: None, id: Value::Num(66) };
    let text = encode_response(&resp);
    let back = decode_response(&text).unwrap();
    assert!(back.result.is_none());
    assert!(back.error.is_none());
    assert_eq!(back.id, Value::Num(66));
    assert!(back.is_none());
}

#[test]
fn round_trip_error_object() {
    let resp = Response {
        result: None,
        error: Some(RpcError {
            code: -32700,
            message: "Parse error".to_owned(),
            data: Some(Value::Str("line 1".to_owned())),
        }),
        id: Value::Str("123".to_owned()),
    };
    let text = encode_response(&resp);
    let back = decode_response(&text).unwrap();
    let e = back.error.unwrap();
    assert_eq!(e.code, -32700);
    assert_eq!(e.message, "Parse error");
    assert_eq!(e.data, Some(Value::Str("line 1".to_owned())));
    assert_eq!(back.id, Value::Str("123".to_owned()));
}

#[test]
fn round_trip_escapes() {
    let resp = Response {
        result: Some(Value::Str("a\"b\\c\nd\te\u{1}".to_owned())),
        error: None,
        id: Value::Num(1),
    };
    let text = encode_response(&resp);
    let back = decode_response(&text).unwrap();
    assert_eq!(back.result, Some(Value::Str("a\"b\\c\nd\te\u{1}".to_owned())));
}

#[test]
fn round_trip_negative_and_large_ids() {
    for id in [i64::MIN, -11, 0, 7, i64::MAX] {
        let resp = Response { result: None, error: None, id: Value::Num(id) };
        let back = decode_response(&encode_response(&resp)).unwrap();
        assert_eq!(back.id, Value::Num(id));
    }
}

#[test]
fn decode_accepts_whitespace_and_field_order() {
    let text = " {\n \"id\" : 7 , \"error\" : null , \"result\" : [ 1 , 2 ] } \n";
    let back = decode_response(text).unwrap();
    assert_eq!(back.id, Value::Num(7));
    assert_eq!(back.result, Some(Value::Array(vec![Value::Num(1), Value::Num(2)])));
}

#[test]
fn decode_ignores_unknown_fields() {
    let text = "{\"jsonrpc\":\"2.0\",\"result\":true,\"id\":1}";
    let back = decode_response(text).unwrap();
    assert_eq!(back.result, Some(Value::Bool(true)));
}

#[test]
fn decode_rejects_bad_bodies() {
    for text in [
        "",
        "{",
        "not json",
        "[1,2]",
        "{\"result\":true}",
        "{\"id\":1} trailing",
        "{\"id\":1,\"error\":{\"code\":\"x\",\"message\":\"m\"}}",
        "{\"id\":1,\"error\":{\"code\":5000000000,\"message\":\"m\"}}",
        "{\"id\":01}",
        "{\"id\":1.5}",
    ] {
        assert!(
            matches!(decode_response(text), Err(Error::Decode)),
            "should not decode: {}",
            text
        );
    }
}

#[test]
fn decode_error_null_result_null() {
    let back = decode_response("{\"result\":null,\"error\":null,\"id\":null}").unwrap();
    assert!(back.result.is_none());
    assert!(back.error.is_none());
    assert_eq!(back.id, Value::Null);
}

#[test]
fn serde_json_reads_our_encoding() {
    let req = Request {
        method: "submit".to_owned(),
        params: vec![
            Value::Null,
            Value::Bool(false),
            Value::Num(-42),
            Value::Str("a\"b\n".to_owned()),
            Value::Array(vec![Value::Num(1)]),
            Value::Object(vec![("k".to_owned(), Value::Num(2))]),
        ],
        id: Value::Num(9),
    };
    let text = encode_request(&req);
    let parsed: serde_json::Value = serde_json::from_str(&text).unwrap();
    assert_eq!(parsed["method"], serde_json::Value::String("submit".to_owned()));
    assert_eq!(parsed["id"], serde_json::Value::from(9));
    assert_eq!(parsed["params"][0], serde_json::Value::Null);
    assert_eq!(parsed["params"][1], serde_json::Value::from(false));
    assert_eq!(parsed["params"][2], serde_json::Value::from(-42));
    assert_eq!(parsed["params"][3], serde_json::Value::from("a\"b\n"));
    assert_eq!(parsed["params"][4][0], serde_json::Value::from(1));
    assert_eq!(parsed["params"][5]["k"], serde_json::Value::from(2));
}

#[test]
fn our_decoder_reads_serde_json_encoding() {
    let v: serde_json::Value = serde_json::from_str(
        "{\"result\": {\"height\": 100, \"tags\": [\"a\", \"b\"]}, \"error\": null, \"id\": 5}",
    )
    .unwrap();
    let text = serde_json::to_string(&v).unwrap();
    let back = decode_response(&text).unwrap();
    assert_eq!(back.id, Value::Num(5));
    match back.result.unwrap() {
        Value::Object(ms) => {
            assert!(ms.iter().any(|(k, v)| k == "height" && *v == Value::Num(100)));
        },
        _ => panic!("expected an object result"),
    }
}

#[test]
fn round_trip_request() {
    let req = Request {
        method: "mining.subscribe".to_owned(),
        params: vec![Value::Str("agent/1.0".to_owned()), Value::Null],
        id: Value::Num(12),
    };
    let back = decode_request(&encode_request(&req)).unwrap();
    assert_eq!(back.method, "mining.subscribe");
    assert_eq!(back.params, vec![Value::Str("agent/1.0".to_owned()), Value::Null]);
    assert_eq!(back.id, Value::Num(12));
}

#[test]
fn decode_request_rejects_missing_fields() {
    assert!(matches!(
        decode_request("{\"method\":\"m\",\"id\":1}"),
        Err(Error::Decode)
    ));
    assert!(matches!(
        decode_request("{\"method\":\"m\",\"params\":{},\"id\":1}"),
        Err(Error::Decode)
    ));
}
