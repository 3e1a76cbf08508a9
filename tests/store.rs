use wpe::store::{get, initialize, login, reset, ConfigError, Removal, Startup, Stored};

#[test]
fn login_then_get_returns_entered_values() {
    let t = login("https://api.example.com".to_string(), "me".to_string(), "pw".to_string());
    let d = get(&Stored::Text(t)).unwrap();
    assert_eq!(d.wpengine_api, "https://api.example.com");
    assert_eq!(d.wpengine_user_id, "me");
    assert_eq!(d.wpengine_password, "pw");
}

#[test]
fn login_keeps_any_value() {
    let t = login("x".to_string(), " y ".to_string(), "p\nq\\".to_string());
    let d = get(&Stored::Text(t)).unwrap();
    assert_eq!(d.wpengine_user_id, " y ");
    assert_eq!(d.wpengine_password, "p\nq\\");
}

#[test]
fn get_without_record_is_not_authenticated() {
    assert!(matches!(get(&Stored::Absent), Err(ConfigError::NotAuthenticated)));
}

#[test]
fn get_on_unreadable_or_corrupt_store_is_storage_error() {
    assert!(matches!(get(&Stored::Unreadable), Err(ConfigError::StorageError)));
    assert!(matches!(get(&Stored::Text("garbage".to_string())), Err(ConfigError::StorageError)));
}

#[test]
fn initialize_with_record_does_not_ask_for_login() {
    let t = login("u".to_string(), "i".to_string(), "p".to_string());
    match initialize(&Stored::Text(t)) {
        Ok(Startup::Ready(d)) => assert_eq!(d.wpengine_user_id, "i"),
        _ => panic!("expected the stored record"),
    }
}

#[test]
fn initialize_without_record_asks_for_login() {
    assert!(matches!(initialize(&Stored::Absent), Ok(Startup::Login)));
}

#[test]
fn initialize_on_unreadable_store_fails() {
    assert!(matches!(initialize(&Stored::Unreadable), Err(ConfigError::StorageError)));
    assert!(matches!(initialize(&Stored::Text("api=x\n".to_string())), Err(ConfigError::StorageError)));
}

#[test]
fn reset_twice_succeeds() {
    assert_eq!(reset(Removal::Removed), Ok(()));
    assert_eq!(reset(Removal::Missing), Ok(()));
}

#[test]
fn failed_removal_is_storage_error() {
    assert_eq!(reset(Removal::Failed), Err(ConfigError::StorageError));
}
