use dsh_studio::readiness::{parse, Ready};

#[test]
fn accepts_the_announcement_dsh_actually_prints() {
    assert_eq!(
        parse("dsh web: http://127.0.0.1:52175"),
        Some(Ready::At("http://127.0.0.1:52175".into()))
    );
}

#[test]
fn tolerates_trailing_whitespace_and_carriage_returns() {
    assert_eq!(
        parse("dsh web: http://127.0.0.1:3080/\r\n"),
        Some(Ready::At("http://127.0.0.1:3080".into()))
    );
}

#[test]
fn names_the_address_the_shell_is_same_site_with() {
    assert_eq!(
        parse("dsh web: http://localhost:3080/"),
        Some(Ready::At("http://127.0.0.1:3080".into()))
    );
    assert_eq!(
        parse("dsh web: http://localhost:3080/?token=abc"),
        Some(Ready::At("http://127.0.0.1:3080/?token=abc".into()))
    );
}

#[test]
fn ignores_ordinary_log_output() {
    assert_eq!(parse(""), None);
    assert_eq!(parse("loading plugin dsh-tool-bash"), None);
    assert_eq!(parse("  dsh web: http://127.0.0.1:1"), None);
}

#[test]
fn refuses_to_be_steered_off_the_loopback() {
    assert!(matches!(
        parse("dsh web: http://example.com:80"),
        Some(Ready::Rejected(_))
    ));
    assert!(matches!(
        parse("dsh web: https://127.0.0.1:443"),
        Some(Ready::Rejected(_))
    ));
    assert!(matches!(
        parse("dsh web: file:///etc/passwd"),
        Some(Ready::Rejected(_))
    ));
}

#[test]
fn requires_an_explicit_port() {
    assert!(matches!(
        parse("dsh web: http://127.0.0.1"),
        Some(Ready::Rejected(_))
    ));
}

#[test]
fn preserves_authentication_without_child_selected_navigation() {
    assert_eq!(
        parse("dsh web: http://127.0.0.1:3080/other?token=abc_def&redirect=https://example.com#fragment"),
        Some(Ready::At("http://127.0.0.1:3080/?token=abc_def".into()))
    );
}

#[test]
fn rejects_garbage_after_the_marker() {
    assert!(matches!(
        parse("dsh web: not-a-url"),
        Some(Ready::Rejected(_))
    ));
}

#[test]
fn a_token_is_written_again_as_it_was_read() {
    assert_eq!(
        parse("dsh web: http://127.0.0.1:3080/?token=a%20b%26c"),
        Some(Ready::At("http://127.0.0.1:3080/?token=a+b%26c".into()))
    );
}
