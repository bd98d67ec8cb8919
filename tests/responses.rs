use reapi::config::{config_value, listen_address, parse_args, ConfigError};
use reapi::json::Json;
use reapi::path::parse_path;
use reapi::reply::ReplyValue;
use reapi::response::{begin, classify, failure_response, on_reply, on_selected, Action, Failure};

fn s(t: &str) -> String {
    t.to_string()
}

fn error_body(msg: &str) -> Json {
    Json::Object(vec![(s("error"), Json::Str(s(msg)))])
}

#[test]
fn backend_error_reply_is_400() {
    let r = on_reply(Ok(ReplyValue::Error(s("ERR unknown command 'nope'"))));
    assert_eq!(r.status, 400);
    assert_eq!(r.body, error_body("ERR unknown command 'nope'"));
}

#[test]
fn reply_is_200_with_result_envelope() {
    let r = on_reply(Ok(ReplyValue::Integer(1)));
    assert_eq!(r.status, 200);
    assert_eq!(r.body, Json::Object(vec![(s("result"), Json::Int(1))]));
}

#[test]
fn failed_call_is_500() {
    let r = on_reply(Err(s("binding fault")));
    assert_eq!(r.status, 500);
    assert_eq!(r.body, error_body("binding fault"));
}

#[test]
fn classify_splits_outcomes() {
    assert_eq!(classify(Ok(ReplyValue::Error(s("E")))), Err(Failure::CommandFailure(s("E"))));
    assert_eq!(classify(Err(s("F"))), Err(Failure::InternalFailure(s("F"))));
    assert_eq!(classify(Ok(ReplyValue::Null)), Ok(ReplyValue::Null));
}

#[test]
fn selection_failure_is_400_and_runs_nothing() {
    match on_selected(3, false) {
        Action::Respond(r) => {
            assert_eq!(r.status, 400);
            assert_eq!(r.body, error_body("failed to select database 3"));
        }
        other => panic!("expected a response, got {:?}", other),
    }
    assert_eq!(on_selected(3, true), Action::Invoke);
}

#[test]
fn begin_selects_only_a_nonzero_database() {
    assert_eq!(begin(&parse_path("4/get/k").unwrap()), Action::SelectDb(4));
    assert_eq!(begin(&parse_path("get/k").unwrap()), Action::Invoke);
    assert_eq!(begin(&parse_path("0/get/k").unwrap()), Action::Invoke);
}

#[test]
fn malformed_path_is_400() {
    let r = failure_response(&Failure::MalformedPath);
    assert_eq!(r.status, 400);
    assert_eq!(r.body, error_body("malformed path: no command given"));
}

#[test]
fn failure_messages_and_statuses() {
    assert_eq!(Failure::DbSelectFailure(12).message(), "failed to select database 12");
    assert_eq!(Failure::DbSelectFailure(0).message(), "failed to select database 0");
    assert_eq!(Failure::InternalFailure(s("x")).status(), 500);
    assert_eq!(Failure::CommandFailure(s("x")).status(), 400);
    assert_eq!(Failure::DbSelectFailure(u64::MAX).message(), "failed to select database 18446744073709551615");
}

#[test]
fn args_pair_up() {
    let p = parse_args(vec![s("reapi_host"), s("0.0.0.0"), s("reapi_port"), s("80")]).unwrap();
    assert_eq!(p, vec![(s("reapi_host"), s("0.0.0.0")), (s("reapi_port"), s("80"))]);
    assert_eq!(listen_address(&p), "0.0.0.0:80");
    assert_eq!(parse_args(vec![]).unwrap(), vec![]);
}

#[test]
fn odd_args_are_an_error() {
    let e = parse_args(vec![s("reapi_host"), s("h"), s("reapi_port")]).unwrap_err();
    assert_eq!(e, ConfigError::MissingValue(s("reapi_port")));
    assert_eq!(e.message(), "missing value for key `reapi_port`");
}

#[test]
fn defaults_and_last_value_wins() {
    assert_eq!(listen_address(&vec![]), "127.0.0.1:9098");
    let p = parse_args(vec![s("reapi_port"), s("1"), s("other"), s("x"), s("reapi_port"), s("2")]).unwrap();
    assert_eq!(config_value(&p, "reapi_port"), Some(s("2")));
    assert_eq!(config_value(&p, "missing"), None);
    assert_eq!(listen_address(&p), "127.0.0.1:2");
}
