use stratum::error::{Error, RpcError};
use stratum::{Response, Value};

#[test]
fn response_is_none() {
    let joanna = Response { result: Some(Value::Bool(true)), error: None, id: Value::Num(81) };

    let bill = Response { result: None, error: None, id: Value::Num(66) };

    assert!(!joanna.is_none());
    assert!(bill.is_none());
}

#[test]
fn into_result_success() {
    let resp = Response { result: Some(Value::Num(5)), error: None, id: Value::Num(1) };
    match resp.into_result() {
        Ok(v) => assert_eq!(v, Value::Num(5)),
        Err(_) => panic!("expected the result value"),
    }
}

#[test]
fn into_result_error_wins() {
    let resp = Response {
        result: Some(Value::Num(5)),
        error: Some(RpcError { code: -1, message: "boom".to_owned(), data: None }),
        id: Value::Num(1),
    };
    match resp.into_result() {
        Err(Error::Rpc(e)) => assert_eq!(e.code, -1),
        _ => panic!("expected the error object"),
    }
}

#[test]
fn into_result_neither() {
    let resp = Response { result: None, error: None, id: Value::Num(1) };
    assert!(matches!(resp.into_result(), Err(Error::NoErrorOrResult)));
}

#[test]
fn check_error_reports_error() {
    let resp = Response {
        result: None,
        error: Some(RpcError { code: -2, message: "no".to_owned(), data: None }),
        id: Value::Num(1),
    };
    match resp.check_error() {
        Err(Error::Rpc(e)) => assert_eq!(e.code, -2),
        _ => panic!("expected the error object"),
    }
    let clean = Response { result: Some(Value::Null), error: None, id: Value::Num(1) };
    assert!(clean.check_error().is_ok());
}

#[test]
fn deep_eq_nested() {
    let a = Value::Array(vec![
        Value::Num(1),
        Value::Object(vec![("k".to_owned(), Value::Str("v".to_owned()))]),
    ]);
    let b = Value::Array(vec![
        Value::Num(1),
        Value::Object(vec![("k".to_owned(), Value::Str("v".to_owned()))]),
    ]);
    let c = Value::Array(vec![
        Value::Num(1),
        Value::Object(vec![("k".to_owned(), Value::Str("w".to_owned()))]),
    ]);
    assert_eq!(a, b);
    assert!(a != c);
}
