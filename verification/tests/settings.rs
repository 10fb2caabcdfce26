use codex_tamer::config::{
    resolve_config_path_from, validate_managed_socket_path, Endpoint, MAX_UNIX_SOCKET_PATH_BYTES,
};
use codex_tamer::json::Json;
use codex_tamer::parse::parse_json;
use codex_tamer::rate_limit_reset::{
    optional_nonempty_string, select_best_rate_limit_reset_credit,
};
use codex_tamer::turns::waiter::turn_poll_quiet_secs;

fn json(text: &str) -> Json {
    parse_json(text).unwrap()
}

#[test]
fn config_path_precedence_prefers_flag_then_env_then_default() {
    let home = "/home/tester";
    assert_eq!(
        resolve_config_path_from(
            Some("/tmp/a.toml".to_string()),
            Some("/tmp/b.toml"),
            home
        ),
        "/tmp/a.toml"
    );
    assert_eq!(
        resolve_config_path_from(None, Some("/tmp/b.toml"), home),
        "/tmp/b.toml"
    );
    assert_eq!(
        resolve_config_path_from(None, None, home),
        "/home/tester/.config/codex-tamer/config.toml"
    );
}

#[test]
fn managed_socket_paths_reject_the_portable_unix_limit() {
    let socket = format!("/tmp/{}", "x".repeat(104));

    let error = validate_managed_socket_path(&socket).unwrap_err();

    assert!(error.contains("Unix socket path"));
    assert!(error.contains("103 bytes"));
}

#[test]
fn socket_paths_up_to_the_limit_are_accepted() {
    let longest = "x".repeat(MAX_UNIX_SOCKET_PATH_BYTES);
    assert!(validate_managed_socket_path(&longest).is_ok());
    let multibyte = format!("{}é", "x".repeat(MAX_UNIX_SOCKET_PATH_BYTES - 1));
    assert!(validate_managed_socket_path(&multibyte).is_err());
}

#[test]
fn endpoints_are_displayed_as_urls() {
    assert_eq!(
        Endpoint::Unix {
            path: "/tmp/a.sock".to_string()
        }
        .display(),
        "unix:///tmp/a.sock"
    );
    assert_eq!(
        Endpoint::WebSocket {
            url: "ws://127.0.0.1:1".to_string(),
            auth_token: None
        }
        .display(),
        "ws://127.0.0.1:1"
    );
}

#[test]
fn selects_earliest_expiring_available_credit_with_stable_ties() {
    let usage = json(
        r#"{
            "rateLimitResetCredits": {
                "credits": [
                    { "id": "never", "status": "available", "grantedAt": 1 },
                    { "id": "later", "status": "available", "grantedAt": 1, "expiresAt": 30 },
                    { "id": "newer", "status": "available", "grantedAt": 20, "expiresAt": 10 },
                    { "id": "older-b", "status": "available", "grantedAt": 10, "expiresAt": 10 },
                    { "id": "older-a", "status": "available", "grantedAt": 10, "expiresAt": 10 },
                    { "id": "redeemed", "status": "redeemed", "expiresAt": 1 }
                ]
            }
        }"#,
    );

    assert_eq!(
        select_best_rate_limit_reset_credit(&usage).unwrap().id,
        "older-a"
    );
}

#[test]
fn refuses_when_the_server_does_not_supply_selectable_credit_details() {
    let usage = json(r#"{ "rateLimitResetCredits": { "availableCount": 2 } }"#);

    assert_eq!(
        select_best_rate_limit_reset_credit(&usage)
            .unwrap_err()
            .message,
        "no selectable rate-limit reset credits are available"
    );
}

#[test]
fn blank_credit_fields_are_dropped() {
    let usage = json(
        r#"{"rateLimitResetCredits": {"credits": [
            {"id": "  ", "status": "available", "expiresAt": 1},
            {"id": " a ", "status": "available", "title": " T ", "description": " \t "},
            {"id": "a", "status": "available", "title": "second"}
        ]}}"#,
    );
    let credit = select_best_rate_limit_reset_credit(&usage).unwrap();
    assert_eq!(credit.id, "a");
    assert_eq!(credit.title.as_deref(), Some("T"));
    assert_eq!(credit.description, None);
    assert_eq!(credit.granted_at, None);
    assert_eq!(credit.expires_at, None);
    assert_eq!(optional_nonempty_string(&json("3")), None);
}

#[test]
fn the_quiet_time_is_clamped_and_has_a_default() {
    assert_eq!(turn_poll_quiet_secs(None), 3);
    assert_eq!(turn_poll_quiet_secs(Some(" 12\n")), 12);
    assert_eq!(turn_poll_quiet_secs(Some("+7")), 7);
    assert_eq!(turn_poll_quiet_secs(Some("0")), 1);
    assert_eq!(turn_poll_quiet_secs(Some("301")), 300);
    assert_eq!(turn_poll_quiet_secs(Some("18446744073709551615")), 300);
    assert_eq!(turn_poll_quiet_secs(Some("18446744073709551616")), 3);
    assert_eq!(turn_poll_quiet_secs(Some("-4")), 3);
    assert_eq!(turn_poll_quiet_secs(Some("+")), 3);
    assert_eq!(turn_poll_quiet_secs(Some("")), 3);
}
