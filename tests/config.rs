use mfa_cli::config::{Config, Profile, ValidationError};

#[test]
fn push_profile_validation_when_name_duplicates() {
    let mut config: Config = Default::default();
    config.new_profile("test", "a").unwrap();
    let second_time = config.new_profile("test", "");

    assert!(second_time.is_err());
}

#[test]
fn push_profile_validation_when_name_contains_multi_byte_char() {
    let mut config: Config = Default::default();
    let result = config.new_profile("あ", "");

    assert_eq!(
        result,
        Err(ValidationError::IllegalCharacter(
            "Name can contain only alphabet, number and symbol (@-_) ."
        ))
    );
}

#[test]
fn push_profile_validation_when_name_contains_symbols_other_than_hyphen_and_underscore_and_at_sign(
) {
    let mut config: Config = Default::default();
    let result = config.new_profile("!# $%&", "");

    assert_eq!(
        result,
        Err(ValidationError::IllegalCharacter(
            "Name can contain only alphabet, number and symbol (@-_) ."
        ))
    );
}

#[test]
fn push_profile_validation_when_name_contains_approved_symbols() {
    let mut config: Config = Default::default();
    let result = config.new_profile("-_@", "secret");

    assert_eq!(result, Ok(()));
}

#[test]
fn push_profile_validation_when_name_is_too_short() {
    let mut config: Config = Default::default();
    let result = config.new_profile("ab", "");

    assert_eq!(
        result,
        Err(ValidationError::TooShortLength(
            "Name requires at least 3 characters."
        ))
    );
}

#[test]
fn push_profile_validation_when_name_is_too_long() {
    let mut config: Config = Default::default();
    let result = config.new_profile(&"a".repeat(21), "");

    assert_eq!(
        result,
        Err(ValidationError::TooLongLength(
            "Name requires 20 characters or less."
        ))
    );
}

#[test]
fn push_profile_validation_when_secret_is_blank() {
    let mut config: Config = Default::default();
    let result = config.new_profile("aaa", "");

    assert_eq!(
        result,
        Err(ValidationError::Requires("Secret must be present."))
    );
}

#[test]
fn name_of_twenty_characters_is_accepted() {
    let mut config: Config = Default::default();
    assert_eq!(config.new_profile(&"a".repeat(20), "secret"), Ok(()));
    assert_eq!(config.new_profile("Ab9", "secret"), Ok(()));
    assert_eq!(config.get_profiles().len(), 2);
}

#[test]
fn name_with_other_symbol_is_illegal() {
    let mut config: Config = Default::default();
    assert_eq!(
        config.new_profile("abc.def", "secret"),
        Err(ValidationError::IllegalCharacter(
            "Name can contain only alphabet, number and symbol (@-_) ."
        ))
    );
    assert_eq!(
        config.new_profile("ab c", "secret"),
        Err(ValidationError::IllegalCharacter(
            "Name can contain only alphabet, number and symbol (@-_) ."
        ))
    );
    assert!(config.get_profiles().is_empty());
}

#[test]
fn short_name_of_two_multi_byte_characters_counts_bytes() {
    // Two characters, four bytes: long enough, but not allowed characters.
    let mut config: Config = Default::default();
    assert_eq!(
        config.new_profile("éé", "secret"),
        Err(ValidationError::IllegalCharacter(
            "Name can contain only alphabet, number and symbol (@-_) ."
        ))
    );
    // Eleven two-byte characters make 22 bytes: too long.
    assert_eq!(
        config.new_profile(&"é".repeat(11), "secret"),
        Err(ValidationError::TooLongLength(
            "Name requires 20 characters or less."
        ))
    );
}

#[test]
fn duplicate_name_leaves_store_unchanged() {
    let mut config: Config = Default::default();
    config.new_profile("first", "AAAA").unwrap();
    config.new_profile("second", "BBBB").unwrap();
    let result = config.new_profile("first", "CCCC");

    assert_eq!(
        result,
        Err(ValidationError::Deplication("This name already exists."))
    );
    assert_eq!(config.get_profiles().len(), 2);
    assert_eq!(config.get_profiles()[0].get_encoded_secret(), "AAAA");
}

#[test]
fn remove_absent_name_fails_without_change() {
    let mut config: Config = Default::default();
    config.new_profile("first", "AAAA").unwrap();
    let result = config.remove_profile("other");

    assert_eq!(result, Err("Can't find this profile: other".to_string()));
    assert_eq!(config.get_profiles().len(), 1);
}

#[test]
fn remove_present_name_shrinks_store_by_one() {
    let mut config: Config = Default::default();
    config.new_profile("first", "GEZDGNBV").unwrap();
    config.new_profile("second", "GEZDGNBV").unwrap();
    config.new_profile("third", "GEZDGNBV").unwrap();

    assert!(config.get_secret_by_name("second").is_some());
    assert_eq!(config.remove_profile("second"), Ok(()));
    assert_eq!(config.get_profiles().len(), 2);
    assert!(config.get_secret_by_name("second").is_none());
    assert_eq!(config.get_profiles()[0].get_name(), "first");
    assert_eq!(config.get_profiles()[1].get_name(), "third");
}

#[test]
fn secret_is_decoded_from_base32() {
    let mut config: Config = Default::default();
    config
        .new_profile("rfc", "GEZDGNBVGY3TQOJQGEZDGNBVGY3TQOJQ")
        .unwrap();

    assert_eq!(
        config.get_secret_by_name("rfc"),
        Some(b"12345678901234567890".to_vec())
    );
    assert_eq!(config.get_secret_by_name("missing"), None);
}

#[test]
fn undecodable_secret_is_accepted_and_fails_at_lookup() {
    let mut config: Config = Default::default();
    assert_eq!(config.new_profile("broken", "not base32!"), Ok(()));

    assert_eq!(config.get_secret_by_name("broken"), None);
    assert_eq!(config.get_profiles()[0].get_secret(), None);
}

#[test]
fn profile_keeps_its_fields() {
    let profile = Profile::new("name", "MZXW6===");

    assert_eq!(profile.get_name(), "name");
    assert_eq!(profile.get_encoded_secret(), "MZXW6===");
    assert_eq!(profile.get_secret(), Some(b"foo".to_vec()));
    assert_eq!(profile.is_vaild(), Ok(()));
}

#[test]
fn profile_validation_checks_name_before_secret() {
    assert_eq!(
        Profile::new("ab", "").is_vaild(),
        Err(ValidationError::TooShortLength(
            "Name requires at least 3 characters."
        ))
    );
    assert_eq!(
        Profile::new("abc", "").is_vaild(),
        Err(ValidationError::Requires("Secret must be present."))
    );
}

#[test]
fn from_profiles_keeps_order() {
    let config = Config::from_profiles(vec![Profile::new("b-b", "X"), Profile::new("a-a", "Y")]);

    assert_eq!(config.get_profiles().len(), 2);
    assert_eq!(config.get_profiles()[0].get_name(), "b-b");
    assert_eq!(config.get_profiles()[1].get_name(), "a-a");
}

#[test]
fn validation_error_messages() {
    assert_eq!(
        ValidationError::Deplication("This name already exists.").message(),
        "This name already exists."
    );
    assert_eq!(
        ValidationError::Requires("Secret must be present.").message(),
        "Secret must be present."
    );
}
