use reapi::path::parse_path;
use reapi::response::Failure;

fn strings(v: &[&str]) -> Vec<String> {
    v.iter().map(|s| s.to_string()).collect()
}

#[test]
fn path_with_database_index() {
    let inv = parse_path("2/set/foo/bar").unwrap();
    assert_eq!(inv.db_index, 2);
    assert_eq!(inv.command, "set");
    assert_eq!(inv.args, strings(&["foo", "bar"]));
}

#[test]
fn path_without_database_index() {
    let inv = parse_path("set/foo/bar").unwrap();
    assert_eq!(inv.db_index, 0);
    assert_eq!(inv.command, "set");
    assert_eq!(inv.args, strings(&["foo", "bar"]));
}

#[test]
fn empty_path_is_malformed() {
    assert_eq!(parse_path(""), Err(Failure::MalformedPath));
}

#[test]
fn lone_number_is_taken_as_index_and_is_malformed() {
    assert_eq!(parse_path("5"), Err(Failure::MalformedPath));
}

#[test]
fn empty_command_after_index_is_malformed() {
    assert_eq!(parse_path("2//x"), Err(Failure::MalformedPath));
    assert_eq!(parse_path("3/"), Err(Failure::MalformedPath));
}

#[test]
fn command_without_arguments() {
    let inv = parse_path("ping").unwrap();
    assert_eq!(inv.db_index, 0);
    assert_eq!(inv.command, "ping");
    assert!(inv.args.is_empty());
}

#[test]
fn plus_sign_index_and_empty_trailing_argument() {
    let inv = parse_path("+7/get/k/").unwrap();
    assert_eq!(inv.db_index, 7);
    assert_eq!(inv.command, "get");
    assert_eq!(inv.args, strings(&["k", ""]));
}

#[test]
fn index_too_large_is_a_command_name() {
    let inv = parse_path("18446744073709551616/get").unwrap();
    assert_eq!(inv.db_index, 0);
    assert_eq!(inv.command, "18446744073709551616");
    assert_eq!(inv.args, strings(&["get"]));
    let inv = parse_path("18446744073709551615/get").unwrap();
    assert_eq!(inv.db_index, u64::MAX);
    assert_eq!(inv.command, "get");
}

#[test]
fn negative_number_is_a_command_name() {
    let inv = parse_path("-1/x").unwrap();
    assert_eq!(inv.db_index, 0);
    assert_eq!(inv.command, "-1");
    assert_eq!(inv.args, strings(&["x"]));
}

#[test]
fn non_ascii_arguments_are_kept() {
    let inv = parse_path("1/set/clé/naïve").unwrap();
    assert_eq!(inv.db_index, 1);
    assert_eq!(inv.args, strings(&["clé", "naïve"]));
}
