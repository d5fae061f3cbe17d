use clipsync::protocol::{ProfileDto, WsClientMsg, WsServerMsg};
use clipsync::server::auth::{extract_token, require_auth, verify_auth, verify_ws_token};
use clipsync::server::config::Config;
use clipsync::server::db::{
    backlog_entries, device_name_from_row, latest_from_row, name_to_record, profile_from_row, registered_name,
    HistoryRow,
};
use clipsync::server::handler::{
    authenticate, backlog_message, broadcast_after_save, client_action, clip_broadcast, latest_reply,
    session_opening,
    ClientAction, SessionOp,
};
use clipsync::server::routes::{
    latest_or_default, latest_with_source_or_default, sanitize_file_name, sanitize_path,
    HTTP_API_DEVICE_ID,
};
use clipsync::server::session::{should_deliver, WsMessage};

fn profile(text: &str) -> ProfileDto {
    ProfileDto {
        content_type: "Text".into(),
        hash: "h".into(),
        text: text.into(),
        has_data: false,
        data_name: String::new(),
        size: text.len() as i64,
    }
}

#[test]
fn basic_header_carries_the_token() {
    // base64(":secret"), base64("user:secret"), base64("a:b:c"), base64("secret")
    assert_eq!(extract_token(Some("Basic OnNlY3JldA==")).as_deref(), Some("secret"));
    assert_eq!(extract_token(Some("Basic dXNlcjpzZWNyZXQ=")).as_deref(), Some("secret"));
    assert_eq!(extract_token(Some("Basic YTpiOmM=")).as_deref(), Some("b:c"));
    assert_eq!(extract_token(Some("Basic c2VjcmV0")).as_deref(), Some("secret"));
    assert_eq!(extract_token(Some("Bearer OnNlY3JldA==")), None);
    assert_eq!(extract_token(Some("Basic !!!")), None);
    assert_eq!(extract_token(Some("Basic Ov8=")), None);
    assert_eq!(extract_token(None), None);
    assert!(verify_auth(Some("Basic OnNlY3JldA=="), "secret"));
    assert!(!verify_auth(Some("Basic OnNlY3JldA=="), "other"));
    assert_eq!(require_auth(Some("Basic OnNlY3JldA=="), "secret"), Ok(()));
    assert_eq!(require_auth(None, "secret"), Err(401));
}

#[test]
fn ws_token_accepts_raw_or_base64_credentials() {
    assert!(verify_ws_token("secret", "secret"));
    assert!(verify_ws_token("OnNlY3JldA==", "secret"));
    assert!(verify_ws_token("dXNlcjpzZWNyZXQ=", "secret"));
    assert!(verify_ws_token("c2VjcmV0", "secret"));
    assert!(!verify_ws_token("d3Jvbmc=", "secret"));
    assert!(!verify_ws_token("wrong", "secret"));
    assert!(!verify_ws_token("", "secret"));
}

#[test]
fn server_config_from_environment_values() {
    let c = Config::from_vars(None, None, None, None, None, None);
    assert_eq!(c.port, 8765);
    assert_eq!(c.token(), "liteclipsync");
    assert_eq!(c.storage_path, "./data");
    assert_eq!(c.max_history_days, 7);
    assert_eq!(c.ws_inline_max_bytes, 1_048_576);
    assert_eq!(c.tls_cert_path, None);
    let c = Config::from_vars(
        Some("9000"),
        Some("tok".into()),
        Some("/srv".into()),
        Some("-3"),
        Some("c.pem".into()),
        Some("k.pem".into()),
    );
    assert_eq!(c.port, 9000);
    assert_eq!(c.token(), "tok");
    assert_eq!(c.storage_path, "/srv");
    assert_eq!(c.max_history_days, -3);
    assert_eq!(c.tls_key_path.as_deref(), Some("k.pem"));
    assert_eq!(Config::from_vars(Some("+80"), None, None, Some("+5"), None, None).port, 80);
    assert_eq!(Config::from_vars(Some("70000"), None, None, None, None, None).port, 8765);
    assert_eq!(Config::from_vars(Some("abc"), None, None, None, None, None).port, 8765);
    assert_eq!(Config::from_vars(Some(""), None, None, None, None, None).port, 8765);
    assert_eq!(Config::from_vars(Some("-1"), None, None, None, None, None).port, 8765);
    assert_eq!(Config::from_vars(None, None, None, Some("x"), None, None).max_history_days, 7);
    assert_eq!(Config::from_vars(None, None, None, Some("-9223372036854775808"), None, None).max_history_days, i64::MIN);
    assert_eq!(Config::from_vars(None, None, None, Some("9223372036854775808"), None, None).max_history_days, 7);
    assert_eq!(Config::from_vars(Some("65535"), None, None, None, None, None).port, 65535);
}

#[test]
fn rows_become_profiles() {
    let p = profile_from_row("h".into(), "Text".into(), None, Some("n".into()), 3, None);
    assert_eq!(p.text, "");
    assert_eq!(p.data_name, "n");
    assert!(!p.has_data);
    assert_eq!(p.size, 3);
    let (q, d, t) = latest_from_row(p, Some("dev".into()), None);
    assert_eq!(q.hash, "h");
    assert_eq!(d, "dev");
    assert_eq!(t, "");
    assert_eq!(device_name_from_row(Some(String::new())), None);
    assert_eq!(device_name_from_row(Some("Phone".into())).as_deref(), Some("Phone"));
    assert_eq!(device_name_from_row(None), None);
    assert_eq!(registered_name(None), "");
}

#[test]
fn plain_file_names_are_defused() {
    assert_eq!(sanitize_file_name("../a/b\\c"), "_a_b_c");
    assert_eq!(sanitize_file_name("x.png"), "x.png");
    assert_eq!(sanitize_file_name("...."), "");
}

#[test]
fn stored_paths_stay_under_the_files_directory() {
    assert_eq!(sanitize_path("a.txt", "./data").as_deref(), Some("./data/files/a.txt"));
    assert_eq!(sanitize_path("a.txt", "/srv/").as_deref(), Some("/srv/files/a.txt"));
    assert_eq!(sanitize_path("a.txt", "").as_deref(), Some("files/a.txt"));
    assert_eq!(sanitize_path("", "./data"), None);
    assert_eq!(sanitize_path(".", "./data"), None);
    assert_eq!(sanitize_path("..", "./data"), None);
    assert_eq!(sanitize_path("a/b", "./data"), None);
    assert_eq!(sanitize_path("a\\b", "./data"), None);
    assert_eq!(sanitize_path("a\0b", "./data"), None);
    assert_eq!(sanitize_path(&"x".repeat(256), "./data"), None);
    assert!(sanitize_path(&"x".repeat(255), "./data").is_some());
    assert_eq!(sanitize_path("con", "./data"), None);
    assert_eq!(sanitize_path("Nul.txt", "./data"), None);
    assert_eq!(sanitize_path("lpt9", "./data"), None);
    assert_eq!(sanitize_path("COM1.txt", "./data"), None);
    assert_eq!(sanitize_path("lpt3.log", "./data"), None);
    assert!(sanitize_path("COM10.txt", "./data").is_some());
    assert!(sanitize_path("COM1x.txt", "./data").is_some());
    assert!(sanitize_path("console", "./data").is_some());
    assert_eq!(sanitize_path("a.txt", "../data"), None);
    assert_eq!(sanitize_path("..a", "./data"), None);
    assert_eq!(sanitize_path(".env", "/data"), None);
    assert_eq!(sanitize_path("a.env", "/data").as_deref(), Some("/data/files/a.env"));
}

#[test]
fn latest_defaults_when_nothing_is_stored() {
    let p = latest_or_default(None);
    assert_eq!(p.content_type, "Text");
    assert_eq!(p.hash, "");
    assert_eq!(latest_or_default(Some(profile("x"))).text, "x");
    let (q, d, t) = latest_with_source_or_default(None);
    assert_eq!(q.content_type, "");
    assert!(d.is_empty() && t.is_empty());
    assert_eq!(HTTP_API_DEVICE_ID, "http-api");
}

#[test]
fn channel_messages_reach_the_right_devices() {
    let broadcast = WsMessage { data: "{}".into(), source_device_id: Some("a".into()), target_device_id: None };
    assert!(!should_deliver(&broadcast, "a"));
    assert!(should_deliver(&broadcast, "b"));
    let reply = WsMessage { data: "{}".into(), source_device_id: Some("a".into()), target_device_id: Some("a".into()) };
    assert!(should_deliver(&reply, "a"));
    assert!(!should_deliver(&reply, "b"));
    let anonymous = WsMessage { data: "{}".into(), source_device_id: None, target_device_id: None };
    assert!(should_deliver(&anonymous, "a"));
}

#[test]
fn first_message_must_authenticate() {
    let ok = authenticate(
        Some(WsClientMsg::Auth { token: "secret".into(), device_id: "d1".into(), name: Some("PC".into()) }),
        "secret",
    );
    assert!(matches!(ok.0, Some(WsServerMsg::AuthOk { ref device_id }) if device_id == "d1"));
    assert_eq!(ok.1, Some(("d1".to_string(), Some("PC".to_string()))));
    let bad = authenticate(Some(WsClientMsg::Auth { token: "x".into(), device_id: "d1".into(), name: None }), "secret");
    assert!(matches!(bad.0, Some(WsServerMsg::AuthError { ref reason }) if reason == "invalid token"));
    assert_eq!(bad.1, None);
    let other = authenticate(Some(WsClientMsg::GetLatest), "secret");
    assert!(matches!(other.0, Some(WsServerMsg::AuthError { ref reason }) if reason == "first message must be Auth"));
    assert_eq!(other.1, None);
    let none = authenticate(None, "secret");
    assert!(none.0.is_none() && none.1.is_none());
}

#[test]
fn client_messages_are_stored_broadcast_or_answered() {
    assert!(matches!(client_action(WsClientMsg::GetLatest), ClientAction::SendLatest));
    assert!(matches!(
        client_action(WsClientMsg::Auth { token: "t".into(), device_id: "d".into(), name: None }),
        ClientAction::Ignore
    ));
    match client_action(WsClientMsg::LiteClipSync { payload: profile("hi"), device_id: "d".into() }) {
        ClientAction::Store { payload, device_id } => {
            assert_eq!(payload.text, "hi");
            assert_eq!(device_id, "d");
        }
        _ => panic!("expected Store"),
    }
    let o = clip_broadcast(profile("hi"), "d".into(), None, "conn");
    assert!(matches!(o.msg, WsServerMsg::ClipBroadcast { ref source_device_id, ref source_device_name, .. }
        if source_device_id == "d" && source_device_name.is_empty()));
    assert_eq!(o.source_device_id.as_deref(), Some("conn"));
    assert_eq!(o.target_device_id, None);
    let o = latest_reply(None, "conn");
    assert!(matches!(o.msg, WsServerMsg::LatestProfile { ref payload, ref created_at, .. }
        if payload.content_type.is_empty() && created_at.is_empty()));
    assert_eq!(o.target_device_id.as_deref(), Some("conn"));
    let o = latest_reply(Some((profile("x"), "d".into(), "t".into())), "conn");
    assert!(matches!(o.msg, WsServerMsg::LatestProfile { ref payload, ref source_device_id, .. }
        if payload.text == "x" && source_device_id == "d"));
    assert!(backlog_message(vec![]).is_none());
    assert!(matches!(backlog_message(vec![profile("a")]), Some(WsServerMsg::Backlog { ref entries }) if entries.len() == 1));
}

#[test]
fn session_reads_the_backlog_before_registering() {
    let ops = session_opening("d1", Some("PC".into()));
    assert_eq!(ops.len(), 3);
    assert!(matches!(&ops[0], SessionOp::LoadBacklog { device_id } if device_id == "d1"));
    assert!(matches!(&ops[1], SessionOp::Register { device_id, name } if device_id == "d1" && name == "PC"));
    assert!(matches!(&ops[2], SessionOp::SendBacklog));
    let ops = session_opening("d2", None);
    assert!(matches!(&ops[1], SessionOp::Register { name, .. } if name.is_empty()));
}

#[test]
fn history_is_kept_for_the_configured_days() {
    let c = Config::from_vars(None, None, None, None, None, None);
    assert_eq!(c.history_retention_days(), Some(7));
    let c = Config::from_vars(None, None, None, Some("30"), None, None);
    assert_eq!(c.history_retention_days(), Some(30));
    let c = Config::from_vars(None, None, None, Some("0"), None, None);
    assert_eq!(c.history_retention_days(), None);
    let c = Config::from_vars(None, None, None, Some("-3"), None, None);
    assert_eq!(c.history_retention_days(), None);
}

#[test]
fn plain_file_names_hold_no_parent_or_separator() {
    for name in ["...", "....", "a/../b", "..\\..\\x", "x...y", "./.", "a..b..c", "....."] {
        let r = sanitize_file_name(name);
        assert!(!r.contains(".."), "{name} -> {r}");
        assert!(!r.contains('/') && !r.contains('\\'), "{name} -> {r}");
    }
    assert_eq!(sanitize_file_name("x...y"), "x.y");
    assert_eq!(sanitize_file_name("....."), ".");
}

#[test]
fn an_empty_name_keeps_the_recorded_one() {
    assert_eq!(name_to_record(Some("PC".into()), String::new()), "PC");
    assert_eq!(name_to_record(Some("PC".into()), "Laptop".into()), "Laptop");
    assert_eq!(name_to_record(None, String::new()), "");
    assert_eq!(name_to_record(None, "Phone".into()), "Phone");
}

fn row(created_at: &str, device_id: &str, text: &str) -> HistoryRow {
    HistoryRow { created_at: created_at.into(), device_id: device_id.into(), profile: profile(text) }
}

#[test]
fn backlog_holds_what_other_devices_saved_since_last_seen() {
    let rows = vec![
        row("2024-01-01 10:00:00", "d2", "old"),
        row("2024-01-01 12:00:00", "d2", "a"),
        row("2024-01-01 12:00:00", "d1", "mine"),
        row("2024-01-01 11:00:00", "d3", "same second"),
        row("2024-01-02 09:00:00", "d3", "b"),
    ];
    let got = backlog_entries(&rows, Some("2024-01-01 11:00:00".into()), "d1");
    let texts: Vec<&str> = got.iter().map(|p| p.text.as_str()).collect();
    assert_eq!(texts, vec!["a", "b"]);
    assert!(backlog_entries(&rows, None, "d1").is_empty());
    assert_eq!(backlog_entries(&rows, Some(String::new()), "d9").len(), 5);
}

#[test]
fn a_failed_save_is_not_broadcast() {
    assert!(broadcast_after_save(false, profile("x"), "d1".into(), None, "d1").is_none());
    let o = broadcast_after_save(true, profile("x"), "d1".into(), Some("PC".into()), "d1").unwrap();
    assert!(matches!(&o.msg, WsServerMsg::ClipBroadcast { source_device_name, .. } if source_device_name == "PC"));
    assert_eq!(o.source_device_id.as_deref(), Some("d1"));
    assert!(o.target_device_id.is_none());
}
