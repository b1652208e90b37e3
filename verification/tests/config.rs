use frame_host::config::{
    find_json_member, load_server_details, read_contents, read_json_member, ConfigError,
    ServerDetails,
};

const CONFIG: &str = r#"{
    "root_url": "/opt",
    "parent_dir": "factorio",
    "executable": "bin/x64/factorio",
    "saves_dir": "saves",
    "default_save": "test.zip"
}"#;

#[test]
fn read_contents_fills_every_field() {
    let mut sd = ServerDetails::default();
    assert!(matches!(read_contents(CONFIG, &mut sd), Ok(())));
    assert_eq!(sd.root_url.as_deref(), Some("/opt"));
    assert_eq!(sd.parent_dir.as_deref(), Some("factorio"));
    assert_eq!(sd.executable.as_deref(), Some("bin/x64/factorio"));
    assert_eq!(sd.saves_dir.as_deref(), Some("saves"));
    assert_eq!(sd.default_save.as_deref(), Some("test.zip"));
}

#[test]
fn default_details_are_empty() {
    let sd = ServerDetails::default();
    assert_eq!(sd.root_url, None);
    assert_eq!(sd.parent_dir, None);
    assert_eq!(sd.executable, None);
    assert_eq!(sd.saves_dir, None);
    assert_eq!(sd.default_save, None);
}

#[test]
fn read_contents_rejects_invalid_json_and_leaves_details() {
    let mut sd = ServerDetails::default();
    sd.root_url = Some("kept".to_string());
    let before = sd.clone();
    match read_contents("{ not json", &mut sd) {
        Err(ConfigError::InvalidJson(e)) => assert!(e.is_syntax() || e.is_eof()),
        other => panic!("unexpected {:?}", other),
    }
    assert_eq!(sd, before);
}

#[test]
fn whole_read_agrees_with_member_reads() {
    let mut sd = ServerDetails::default();
    read_contents(CONFIG, &mut sd).unwrap();
    assert_eq!(sd.root_url.unwrap(), read_json_member(CONFIG, "root_url").unwrap());
    assert_eq!(sd.saves_dir.unwrap(), read_json_member(CONFIG, "saves_dir").unwrap());
}

#[test]
fn read_json_member_reads_a_string() {
    assert_eq!(read_json_member(CONFIG, "executable").unwrap(), "bin/x64/factorio");
}

#[test]
fn read_json_member_rejects_invalid_json() {
    match read_json_member("[", "root_url") {
        Err(ConfigError::InvalidJson(e)) => assert!(e.is_eof()),
        other => panic!("unexpected {:?}", other),
    }
}

#[test]
fn find_json_member_reports_absent_and_non_string_members() {
    assert_eq!(find_json_member(CONFIG, "nope").unwrap(), None);
    assert_eq!(find_json_member(r#"{"n": 3}"#, "n").unwrap(), None);
    assert_eq!(find_json_member(CONFIG, "saves_dir").unwrap(), Some("saves".to_string()));
    assert!(matches!(find_json_member("", "n"), Err(ConfigError::InvalidJson(_))));
}

#[test]
fn load_server_details_reads_everything() {
    let sd = load_server_details(CONFIG).unwrap();
    assert_eq!(sd.default_save.as_deref(), Some("test.zip"));
    assert_eq!(sd.root_url.as_deref(), Some("/opt"));
}

#[test]
fn load_server_details_names_the_first_missing_member() {
    let text = r#"{"root_url": "/opt", "parent_dir": "f", "saves_dir": 1}"#;
    match load_server_details(text) {
        Err(ConfigError::MissingMember(name)) => assert_eq!(name, "executable"),
        other => panic!("unexpected {:?}", other),
    }
}

#[test]
fn load_server_details_rejects_non_string_member() {
    let text = r#"{"root_url": 5}"#;
    match load_server_details(text) {
        Err(ConfigError::MissingMember(name)) => assert_eq!(name, "root_url"),
        other => panic!("unexpected {:?}", other),
    }
}

#[test]
fn load_server_details_rejects_invalid_json() {
    assert!(matches!(load_server_details("nope"), Err(ConfigError::InvalidJson(_))));
}
