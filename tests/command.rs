use wpe::command::{dispatch, needs_login, Action};

#[test]
fn sites_lists_all() {
    let a = dispatch(Some("sites"), None, None);
    assert!(matches!(a, Action::ListSites));
    assert!(needs_login(&a));
}

#[test]
fn site_with_id_shows_one() {
    let a = dispatch(Some("site"), None, Some("42"));
    match &a {
        Action::ShowSite(id) => assert_eq!(id, "42"),
        _ => panic!("expected a site"),
    }
    assert!(needs_login(&a));
    assert!(matches!(dispatch(Some("site"), None, None), Action::Invalid));
}

#[test]
fn auth_subcommands() {
    assert!(matches!(dispatch(Some("auth"), Some("login"), None), Action::Login));
    assert!(matches!(dispatch(Some("auth"), Some("reset"), None), Action::Reset));
    assert!(matches!(dispatch(Some("auth"), Some("other"), None), Action::Nothing));
    assert!(matches!(dispatch(Some("auth"), None, None), Action::Nothing));
    assert!(!needs_login(&Action::Login));
    assert!(!needs_login(&Action::Reset));
}

#[test]
fn other_commands_are_invalid() {
    assert!(matches!(dispatch(Some("deploy"), None, None), Action::Invalid));
    assert!(matches!(dispatch(None, None, None), Action::Invalid));
}
