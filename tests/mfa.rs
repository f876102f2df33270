use mfa_cli::config::Config;
use mfa_cli::mfa::{fetch_dump_path, join_path, DumpFile, Mfa, Profile};

fn empty_mfa() -> Mfa {
    Mfa::new(DumpFile::new("/path/to", "profile"), Config::default())
}

#[test]
fn dump_file_path() {
    let dump_file = DumpFile::new("/path/to", "file");

    let path = dump_file.path();

    assert_eq!(path, "/path/to/file");
}

#[test]
fn test_remove_profile() {
    let mut mfa = empty_mfa();
    mfa.register_profile("test", "hoge").unwrap();

    mfa.remove_profile("test").unwrap();
    assert!(mfa.get_secret_by_name("test").is_none());
}

#[test]
fn test_list_profiles() {
    let mut mfa = empty_mfa();
    mfa.register_profile("test1", "hoge").unwrap();
    mfa.register_profile("test2", "hoge").unwrap();

    let profiles = mfa.list_profiles();
    assert_eq!(profiles.get(0).unwrap().name(), "test1");
    assert_eq!(profiles.get(1).unwrap().name(), "test2");
    assert!(profiles.get(2).is_none());
}

#[test]
fn register_reports_validation_message() {
    let mut mfa = empty_mfa();
    assert_eq!(
        mfa.register_profile("ab", "x"),
        Err("Name requires at least 3 characters.".to_string())
    );
    mfa.register_profile("abc", "x").unwrap();
    assert_eq!(
        mfa.register_profile("abc", "y"),
        Err("This name already exists.".to_string())
    );
    assert_eq!(mfa.list_profiles().len(), 1);
}

#[test]
fn remove_missing_profile_reports_name() {
    let mut mfa = empty_mfa();
    assert_eq!(
        mfa.remove_profile("nobody"),
        Err("Can't find this profile: nobody".to_string())
    );
}

#[test]
fn code_at_time_for_rfc_secret() {
    let mut mfa = empty_mfa();
    mfa.register_profile("rfc", "GEZDGNBVGY3TQOJQGEZDGNBVGY3TQOJQ")
        .unwrap();

    assert_eq!(mfa.get_code_by_name_at("rfc", 59), Ok("287082".to_string()));
    assert_eq!(
        mfa.get_code_by_name_at("rfc", 1111111109),
        Ok("081804".to_string())
    );
}

#[test]
fn code_for_missing_or_undecodable_secret() {
    let mut mfa = empty_mfa();
    mfa.register_profile("broken", "1!").unwrap();

    assert_eq!(
        mfa.get_code_by_name("broken"),
        Err("can't get the secret that profile: broken".to_string())
    );
    assert_eq!(
        mfa.get_code_by_name_at("missing", 59),
        Err("can't get the secret that profile: missing".to_string())
    );
}

#[test]
fn code_now_has_six_digits() {
    let mut mfa = empty_mfa();
    mfa.register_profile("rfc", "GEZDGNBVGY3TQOJQGEZDGNBVGY3TQOJQ")
        .unwrap();

    let code = mfa.get_code_by_name("rfc").unwrap();
    assert_eq!(code.len(), 6);
}

#[test]
fn listed_profile_shows_name() {
    let profile = Profile::new("work".to_string());
    assert_eq!(profile.name(), "work");
}

#[test]
fn dump_path_prefers_override_root() {
    assert_eq!(
        fetch_dump_path(Some("/cfg"), Some("/xdg"), Some("/home/u"), Some("/cwd")),
        Some("/cfg/mfa-cli".to_string())
    );
    assert_eq!(
        fetch_dump_path(None, Some("/xdg/"), Some("/home/u"), Some("/cwd")),
        Some("/xdg/mfa-cli".to_string())
    );
    assert_eq!(
        fetch_dump_path(None, None, Some("/home/u"), Some("/cwd")),
        Some("/home/u/.mfa-cli".to_string())
    );
    assert_eq!(
        fetch_dump_path(None, None, None, Some("/cwd")),
        Some("/cwd/.mfa-cli".to_string())
    );
    assert_eq!(fetch_dump_path(None, None, None, None), None);
}

#[test]
fn join_path_cases() {
    assert_eq!(join_path("./tests/tmp", "mfa-cli"), "./tests/tmp/mfa-cli");
    assert_eq!(join_path("tests/tmp/", "mfa-cli"), "tests/tmp/mfa-cli");
    assert_eq!(join_path("", "profile"), "profile");
    assert_eq!(join_path("/a/b", "/etc/x"), "/etc/x");
}

#[test]
fn dump_file_parts_and_check() {
    let dump_file = DumpFile::new("/data/mfa-cli", "profile");
    assert_eq!(dump_file.dir_path(), "/data/mfa-cli");
    assert_eq!(dump_file.path(), "/data/mfa-cli/profile");

    assert!(DumpFile::check(true, true, 10));
    assert!(!DumpFile::check(true, true, 0));
    assert!(!DumpFile::check(true, false, 10));
    assert!(!DumpFile::check(false, true, 10));
}

#[test]
fn mfa_keeps_restored_store() {
    let mut config = Config::default();
    config.new_profile("one", "AAAA").unwrap();
    let mfa = Mfa::new(DumpFile::new("/d", "profile"), config);

    assert_eq!(mfa.config().get_profiles().len(), 1);
    assert_eq!(mfa.dump_file().path(), "/d/profile");
}
