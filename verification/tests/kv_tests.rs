use kv::KvError;
use kv::command::{Command, Subcommand, parse_command};
use kv::run::{Action, execute, reload};
use kv::store::{Store, load, load_from_str};

fn set_cmd(key: &str, value: &str) -> Command {
    Command::SetKey { key: key.to_string(), value: value.to_string() }
}

fn get_cmd(key: &str) -> Command {
    Command::GetKey { key: key.to_string() }
}

#[test]
fn subcommand_tokens() {
    assert_eq!(Subcommand::from_str(&"set".to_string()), Ok(Subcommand::SetCmd));
    assert_eq!(Subcommand::from_str(&"get".to_string()), Ok(Subcommand::GetCmd));
    assert_eq!(Subcommand::from_str(&"delete".to_string()), Err(KvError::InvalidCommand));
    assert_eq!(Subcommand::from_str(&"".to_string()), Err(KvError::InvalidCommand));
    assert_eq!(Subcommand::from_str(&"Set".to_string()), Err(KvError::InvalidCommand));
}

#[test]
fn invalid_subcommand_is_rejected() {
    let r = parse_command(&"delete".to_string(), "k".to_string(), Some("v".to_string()));
    assert_eq!(r, Err(KvError::InvalidCommand));
}

#[test]
fn empty_key_is_a_usage_error() {
    let r = parse_command(&"set".to_string(), "".to_string(), Some("v".to_string()));
    assert_eq!(r, Err(KvError::UsageError));
    let r = parse_command(&"get".to_string(), "".to_string(), None);
    assert_eq!(r, Err(KvError::UsageError));
}

#[test]
fn set_without_value_is_a_usage_error() {
    let r = parse_command(&"set".to_string(), "k".to_string(), None);
    assert_eq!(r, Err(KvError::UsageError));
}

#[test]
fn get_ignores_a_value_operand() {
    let r = parse_command(&"get".to_string(), "k".to_string(), Some("v".to_string()));
    assert_eq!(r, Ok(Command::GetKey { key: "k".to_string() }));
}

#[test]
fn parse_accepts_well_formed_commands() {
    let r = parse_command(&"set".to_string(), "k".to_string(), Some("v".to_string()));
    assert_eq!(r, Ok(Command::SetKey { key: "k".to_string(), value: "v".to_string() }));
}

#[test]
fn missing_file_loads_as_empty() {
    let st = load(&None).unwrap();
    assert_eq!(st.get(&"anything".to_string()), None);
}

#[test]
fn missing_file_set_creates_the_document() {
    let r = execute(set_cmd("k", "v"), &None);
    assert_eq!(r, Ok(Action::WriteBack { contents: "{\"k\":\"v\"}".to_string() }));
}

#[test]
fn missing_file_get_reports_key_not_found() {
    let r = execute(get_cmd("k"), &None);
    assert_eq!(r, Err(KvError::KeyNotFound));
}

#[test]
fn empty_file_loads_as_empty() {
    let st = load_from_str("").unwrap();
    assert_eq!(st.get(&"k".to_string()), None);
    let st = load(&Some("".to_string())).unwrap();
    assert_eq!(st.get(&"k".to_string()), None);
}

#[test]
fn corrupt_array_fails_to_load() {
    assert!(matches!(load_from_str("[1,2,3]"), Err(KvError::CorruptDatabase)));
    let contents = Some("[1,2,3]".to_string());
    assert_eq!(execute(set_cmd("k", "v"), &contents), Err(KvError::CorruptDatabase));
    assert_eq!(execute(get_cmd("k"), &contents), Err(KvError::CorruptDatabase));
}

#[test]
fn corrupt_non_string_value_fails_to_load() {
    assert!(matches!(load_from_str("{\"k\": 5}"), Err(KvError::CorruptDatabase)));
    let contents = Some("{\"k\": 5}".to_string());
    assert_eq!(execute(set_cmd("k", "v"), &contents), Err(KvError::CorruptDatabase));
    assert_eq!(execute(get_cmd("k"), &contents), Err(KvError::CorruptDatabase));
}

#[test]
fn corrupt_scalar_and_malformed_fail_to_load() {
    assert!(matches!(load_from_str("7"), Err(KvError::CorruptDatabase)));
    assert!(matches!(load_from_str("null"), Err(KvError::CorruptDatabase)));
    assert!(matches!(load_from_str("{\"k\":"), Err(KvError::CorruptDatabase)));
}

#[test]
fn persisted_document_is_real_json() {
    let mut st = Store::new();
    st.set("a".to_string(), "b".to_string());
    assert_eq!(st.to_json(), "{\"a\":\"b\"}");
    let empty = Store::new();
    assert_eq!(empty.to_json(), "{}");
}

#[test]
fn loaded_document_yields_its_entries() {
    let st = load_from_str("{\"a\":\"b\",\"c\":\"d\"}").unwrap();
    assert_eq!(st.get(&"a".to_string()), Some("b".to_string()));
    assert_eq!(st.get(&"c".to_string()), Some("d".to_string()));
    assert_eq!(st.get(&"e".to_string()), None);
}

#[test]
fn non_canonical_document_loads() {
    let st = load_from_str("{ \"k\" : \"v\" }").unwrap();
    assert_eq!(st.get(&"k".to_string()), Some("v".to_string()));
    let r = execute(get_cmd("k"), &Some("{ \"k\" : \"v\" }".to_string()));
    assert_eq!(r, Ok(Action::Report { value: "v".to_string() }));
    let r = execute(set_cmd("a", "b"), &Some("{ \"k\" : \"v\" }".to_string()));
    let doc = match r {
        Ok(Action::WriteBack { contents }) => contents,
        other => panic!("unexpected: {:?}", other),
    };
    let back = load_from_str(&doc).unwrap();
    assert_eq!(back.get(&"k".to_string()), Some("v".to_string()));
    assert_eq!(back.get(&"a".to_string()), Some("b".to_string()));
}

#[test]
fn round_trip_keeps_the_mapping() {
    let mut st = Store::new();
    st.set("brian".to_string(), "hello".to_string());
    st.set("alice".to_string(), "world".to_string());
    st.set("empty".to_string(), "".to_string());
    let back = load_from_str(&st.to_json()).unwrap();
    assert_eq!(back.get(&"brian".to_string()), Some("hello".to_string()));
    assert_eq!(back.get(&"alice".to_string()), Some("world".to_string()));
    assert_eq!(back.get(&"empty".to_string()), Some("".to_string()));
    assert_eq!(back.get(&"other".to_string()), None);

    let again = reload(&st);
    assert_eq!(again.get(&"brian".to_string()), Some("hello".to_string()));
    assert_eq!(again.get(&"alice".to_string()), Some("world".to_string()));
}

#[test]
fn round_trip_keeps_awkward_text() {
    let mut st = Store::new();
    st.set("qu\"ote".to_string(), "back\\slash".to_string());
    st.set("new\nline".to_string(), "tab\there".to_string());
    let back = load_from_str(&st.to_json()).unwrap();
    assert_eq!(back.get(&"qu\"ote".to_string()), Some("back\\slash".to_string()));
    assert_eq!(back.get(&"new\nline".to_string()), Some("tab\there".to_string()));
}

#[test]
fn set_twice_is_idempotent() {
    let once = match execute(set_cmd("k", "v"), &None) {
        Ok(Action::WriteBack { contents }) => contents,
        other => panic!("unexpected: {:?}", other),
    };
    let twice = match execute(set_cmd("k", "v"), &Some(once.clone())) {
        Ok(Action::WriteBack { contents }) => contents,
        other => panic!("unexpected: {:?}", other),
    };
    assert_eq!(once, twice);
}

#[test]
fn set_overwrites_without_stale_entries() {
    let mut st = Store::new();
    st.set("k".to_string(), "a".to_string());
    st.set("k".to_string(), "b".to_string());
    assert_eq!(st.to_json(), "{\"k\":\"b\"}");
    assert_eq!(st.get(&"k".to_string()), Some("b".to_string()));
}

#[test]
fn get_finds_what_set_wrote() {
    let doc = match execute(set_cmd("k", "v"), &None) {
        Ok(Action::WriteBack { contents }) => contents,
        other => panic!("unexpected: {:?}", other),
    };
    let r = execute(get_cmd("k"), &Some(doc.clone()));
    assert_eq!(r, Ok(Action::Report { value: "v".to_string() }));
    let r = execute(get_cmd("missing"), &Some(doc));
    assert_eq!(r, Err(KvError::KeyNotFound));
}

#[test]
fn two_sets_build_the_full_document() {
    let first = match execute(set_cmd("brian", "hello"), &None) {
        Ok(Action::WriteBack { contents }) => contents,
        other => panic!("unexpected: {:?}", other),
    };
    assert_eq!(first, "{\"brian\":\"hello\"}");
    let second = match execute(set_cmd("alice", "world"), &Some(first)) {
        Ok(Action::WriteBack { contents }) => contents,
        other => panic!("unexpected: {:?}", other),
    };
    let back = load_from_str(&second).unwrap();
    assert_eq!(back.get(&"brian".to_string()), Some("hello".to_string()));
    assert_eq!(back.get(&"alice".to_string()), Some("world".to_string()));
}
