use stratum::error::StandardError::{
    InternalError, InvalidParams, InvalidRequest, MethodNotFound, ParseError,
};
use stratum::error::{result_to_response, standard_error};
use stratum::Value;

#[test]
fn test_parse_error() {
    let resp = result_to_response(Err(standard_error(ParseError, None)), Value::Num(1));
    assert!(resp.result.is_none());
    assert!(resp.error.is_some());
    assert_eq!(resp.id, Value::Num(1));
    assert_eq!(resp.error.unwrap().code, -32700);
}

#[test]
fn test_invalid_request() {
    let resp = result_to_response(Err(standard_error(InvalidRequest, None)), Value::Num(1));
    assert!(resp.result.is_none());
    assert!(resp.error.is_some());
    assert_eq!(resp.id, Value::Num(1));
    assert_eq!(resp.error.unwrap().code, -32600);
}

#[test]
fn test_method_not_found() {
    let resp = result_to_response(Err(standard_error(MethodNotFound, None)), Value::Num(1));
    assert!(resp.result.is_none());
    assert!(resp.error.is_some());
    assert_eq!(resp.id, Value::Num(1));
    assert_eq!(resp.error.unwrap().code, -32601);
}

#[test]
fn test_invalid_params() {
    let resp = result_to_response(
        Err(standard_error(InvalidParams, None)),
        Value::Str("123".to_owned()),
    );
    assert!(resp.result.is_none());
    assert!(resp.error.is_some());
    assert_eq!(resp.id, Value::Str("123".to_owned()));
    assert_eq!(resp.error.unwrap().code, -32602);
}

#[test]
fn test_internal_error() {
    let resp = result_to_response(Err(standard_error(InternalError, None)), Value::Num(-11));
    assert!(resp.result.is_none());
    assert!(resp.error.is_some());
    assert_eq!(resp.id, Value::Num(-11));
    assert_eq!(resp.error.unwrap().code, -32603);
}

#[test]
fn standard_error_messages() {
    assert_eq!(standard_error(ParseError, None).message, "Parse error");
    assert_eq!(standard_error(InvalidRequest, None).message, "Invalid Request");
    assert_eq!(standard_error(MethodNotFound, None).message, "Method not found");
    assert_eq!(standard_error(InvalidParams, None).message, "Invalid params");
    assert_eq!(standard_error(InternalError, None).message, "Internal error");
}

#[test]
fn standard_error_keeps_data() {
    let e = standard_error(ParseError, Some(Value::Str("extra".to_owned())));
    assert_eq!(e.data, Some(Value::Str("extra".to_owned())));
}

#[test]
fn result_to_response_success() {
    let resp = result_to_response(Ok(Value::Bool(true)), Value::Num(7));
    assert_eq!(resp.result, Some(Value::Bool(true)));
    assert!(resp.error.is_none());
    assert_eq!(resp.id, Value::Num(7));
}
