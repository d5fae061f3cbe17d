use clipsync::desktop::client::{
    auth_frame, auth_message, auth_reply, clip_message, file_url, latest_url, read_step,
    AuthFrameError, LatestProfileResponse, ReadStep, WsFrame,
};
use clipsync::desktop::clipboard::{
    bitmap_content, clipboard_choice, encode_png, file_content, file_kind, image_to_png,
    ClipboardContent, ClipboardMonitor, FileKind,
};
use clipsync::desktop::command::{SyncCommand, SyncStatus};
use clipsync::desktop::config::{
    default_auto_sync_max_bytes, default_hostname, default_hotkey_copy, default_hotkey_paste,
    default_hotkey_toggle, default_http_timeout, default_language, default_true,
    default_ws_inline_max_bytes, Config,
};
use clipsync::desktop::sync::{
    backlog_to_apply, broadcast_origin, decode_png_quick, download_status, fits_auto_sync,
    image_file_name, local_upload, plain_status, received_status, remote_action, remote_text,
    auto_read, reconnect_delay_secs, shorten_id, should_apply_latest, tick_action,
    toggle_auto_sync, AutoRead, RemoteAction, TickAction,
};
use clipsync::desktop::tray::{
    from_label, handle_hotkey, handle_menu_event, is_syncing, language_value, last_sync_label,
    menu_label, menu_language, parse_hotkey, status_entry, IconState, Language, MenuAction,
    MenuLabel, TrayState,
};
use clipsync::protocol::{ProfileDto, WsClientMsg, WsServerMsg};
use clipsync::server::auth::verify_auth;

const HELLO_SHA256: &str = "2cf24dba5fb0a30e26e83b2ac5b9e29e1b161e5c1fa7425e73043362938b9824";

fn config() -> Config {
    let mut c = Config::default_with_hostname("pc".to_string());
    c.device_id = "11111111-2222-4333-8444-555555555555".to_string();
    c.server_url = "http://example.org:8765/".to_string();
    c
}

fn profile(content_type: &str, hash: &str, text: &str, has_data: bool, data_name: &str, size: i64) -> ProfileDto {
    ProfileDto {
        content_type: content_type.to_string(),
        hash: hash.to_string(),
        text: text.to_string(),
        has_data,
        data_name: data_name.to_string(),
        size,
    }
}

#[test]
fn defaults_match_the_documented_configuration() {
    assert!(default_true());
    assert_eq!(default_auto_sync_max_bytes(), 10_485_760);
    assert_eq!(default_http_timeout(), 180);
    assert_eq!(default_hotkey_copy(), "Ctrl+Shift+C");
    assert_eq!(default_hotkey_paste(), "Ctrl+Shift+V");
    assert_eq!(default_hotkey_toggle(), "Ctrl+Alt+V");
    assert_eq!(default_language(), "en");
    assert_eq!(default_ws_inline_max_bytes(), 1_048_576);
    let c = Config::default_with_hostname("MyPC".to_string());
    assert_eq!(c.server_url, "http://192.168.245.134:8765");
    assert_eq!(c.token, "liteclipsync");
    assert_eq!(c.device_id, "");
    assert_eq!(c.device_name, "MyPC");
    assert_eq!(c.ws_inline_max_bytes, 1_048_576);
    assert_eq!(c.auto_sync_max_bytes, 10_485_760);
    assert_eq!(c.http_timeout_secs, 180);
    assert!(c.auto_sync);
    assert!(!c.autostart);
    assert_eq!(c.hotkey_toggle, "Ctrl+Alt+V");
}

#[test]
fn default_hostname_prefers_computername() {
    assert_eq!(default_hostname(Some("A".into()), Some("B".into())), "A");
    assert_eq!(default_hostname(None, Some("B".into())), "B");
    assert_eq!(default_hostname(None, None), "windows-pc");
}

#[test]
fn config_path_sits_beside_the_executable() {
    assert_eq!(Config::config_path("C:\\Apps\\clipsync.exe").as_deref(), Some("C:\\Apps\\config.toml"));
    assert_eq!(Config::config_path("/usr/bin/clipsync").as_deref(), Some("/usr/bin/config.toml"));
    assert_eq!(Config::config_path("clipsync").as_deref(), Some("config.toml"));
    assert_eq!(Config::config_path(""), None);
}

#[test]
fn ensure_device_id_fills_only_an_empty_id() {
    let mut c = Config::default_with_hostname("pc".into());
    assert!(c.ensure_device_id());
    assert_eq!(c.device_id.len(), 36);
    assert_eq!(c.device_id.as_bytes()[8], b'-');
    assert_eq!(c.device_id.as_bytes()[14], b'4');
    assert!(matches!(c.device_id.as_bytes()[19], b'8' | b'9' | b'a' | b'b'));
    let id = c.device_id.clone();
    assert!(!c.ensure_device_id());
    assert_eq!(c.device_id, id);
}

#[test]
fn urls_follow_the_server_url() {
    let mut c = config();
    assert_eq!(c.api_base(), "http://example.org:8765");
    assert_eq!(c.ws_url(), "ws://example.org:8765//ws");
    c.server_url = "https://host".into();
    assert_eq!(c.ws_url(), "wss://host/ws");
    c.server_url = "http://a///".into();
    assert_eq!(c.api_base(), "http://a");
    assert_eq!(file_url(&c, "x.png"), "http://a/file/x.png");
    assert_eq!(latest_url(&c), "http://a/profile/latest");
}

#[test]
fn basic_auth_value_is_accepted_by_the_server() {
    let c = config();
    let v = c.basic_auth_value();
    assert_eq!(v, "Basic OmxpdGVjbGlwc3luYw==");
    assert!(verify_auth(Some(&v), "liteclipsync"));
    assert!(!verify_auth(Some(&v), "other"));
}

#[test]
fn parse_hotkey_reads_modifiers_and_key() {
    assert_eq!(parse_hotkey("Ctrl+Shift+C"), Some((0x0006, b'C' as u16)));
    assert_eq!(parse_hotkey("Ctrl+Shift+V"), Some((0x0006, b'V' as u16)));
    assert_eq!(parse_hotkey("Ctrl+Alt+V"), Some((0x0003, b'V' as u16)));
    assert_eq!(parse_hotkey("Win+5"), Some((0x0008, b'5' as u16)));
    assert_eq!(parse_hotkey(" Ctrl + Shift + x "), Some((0x0006, b'X' as u16)));
    assert_eq!(parse_hotkey("Ctrl+Ctrl+A"), Some((0x0002, b'A' as u16)));
    assert_eq!(parse_hotkey("Z"), Some((0, b'Z' as u16)));
    assert_eq!(parse_hotkey("ctrl+C"), None);
    assert_eq!(parse_hotkey("Ctrl+F1"), None);
    assert_eq!(parse_hotkey("Ctrl+é"), None);
    assert_eq!(parse_hotkey(""), None);
    assert_eq!(parse_hotkey("Ctrl+"), None);
}

#[test]
fn hotkeys_map_to_commands() {
    assert_eq!(handle_hotkey(1), Some(SyncCommand::CopyAndSync));
    assert_eq!(handle_hotkey(2), Some(SyncCommand::SyncAndPaste));
    assert_eq!(handle_hotkey(3), Some(SyncCommand::ToggleAutoSync));
    assert_eq!(handle_hotkey(4), None);
}

#[test]
fn menu_items_map_to_actions() {
    let mut auto = true;
    assert_eq!(handle_menu_event("sync-upload", &mut auto), MenuAction::Send(SyncCommand::SyncUpload));
    assert_eq!(handle_menu_event("sync-download", &mut auto), MenuAction::Send(SyncCommand::SyncDownload));
    assert!(auto);
    assert_eq!(handle_menu_event("auto-sync", &mut auto), MenuAction::Send(SyncCommand::ToggleAutoSync));
    assert!(!auto);
    assert_eq!(handle_menu_event("quit", &mut auto), MenuAction::Quit);
    assert_eq!(handle_menu_event("tray-restart", &mut auto), MenuAction::Restart);
    assert_eq!(handle_menu_event("open-log", &mut auto), MenuAction::OpenLog);
    assert_eq!(handle_menu_event("launch-startup", &mut auto), MenuAction::ToggleStartup);
    assert_eq!(handle_menu_event("edit-config", &mut auto), MenuAction::EditConfig);
    assert_eq!(handle_menu_event("open-dir", &mut auto), MenuAction::OpenConfigDir);
    assert_eq!(handle_menu_event("lang-zh", &mut auto), MenuAction::SetLanguage(Language::Chinese));
    assert_eq!(handle_menu_event("lang-en", &mut auto), MenuAction::SetLanguage(Language::English));
    assert_eq!(handle_menu_event("status-text", &mut auto), MenuAction::Nothing);
    assert!(!auto);
}

#[test]
fn menu_labels() {
    let en = Language::English;
    let zh = Language::Chinese;
    assert_eq!(status_entry(true, en), ("Connected", 0x44, 0xCC, 0x44));
    assert_eq!(status_entry(false, en), ("Disconnected", 0xFF, 0x44, 0x44));
    assert_eq!(last_sync_label("12:00:00", en), "Last sync: 12:00:00");
    assert_eq!(from_label("phone", en), "From: phone");
    assert_eq!(status_entry(true, zh), ("已连接", 0x44, 0xCC, 0x44));
    assert_eq!(status_entry(false, zh), ("已断开", 0xFF, 0x44, 0x44));
    assert_eq!(last_sync_label("12:00:00", zh), "最后同步: 12:00:00");
    assert_eq!(from_label("phone", zh), "来源: phone");
    assert_eq!(menu_label(zh, MenuLabel::Quit), "退出");
    assert_eq!(menu_label(en, MenuLabel::Quit), "Quit");
    assert_eq!(menu_label(zh, MenuLabel::Settings), "设置");
    assert_eq!(menu_label(en, MenuLabel::ChineseChoice), "中文");
    assert_eq!(menu_label(zh, MenuLabel::EnglishChoice), "English");
}

#[test]
fn language_setting_selects_and_persists_the_menu_language() {
    assert_eq!(menu_language("zh"), Language::Chinese);
    assert_eq!(menu_language("en"), Language::English);
    assert_eq!(menu_language("fr"), Language::English);
    assert_eq!(language_value(Language::Chinese), "zh");
    assert_eq!(menu_language(language_value(Language::Chinese)), Language::Chinese);
    assert_eq!(menu_language(language_value(Language::English)), Language::English);
    let mut c = config();
    c.set_language(Language::Chinese);
    assert_eq!(c.language, "zh");
    assert_eq!(c.token, "liteclipsync");
    c.set_language(Language::English);
    assert_eq!(c.language, "en");
}

#[test]
fn hotkey_modifier_order_and_repetition_do_not_matter() {
    assert_eq!(parse_hotkey("Ctrl+Shift+C"), parse_hotkey("Shift+Ctrl+C"));
    assert_eq!(parse_hotkey("Alt+Alt+V"), parse_hotkey("Alt+V"));
    assert_eq!(parse_hotkey("Win+Ctrl+Win+1"), parse_hotkey("Ctrl+Win+1"));
    assert!(parse_hotkey("Shift+Ctrl+C").is_some());
}

#[test]
fn ticks_run_commands_before_reading_the_clipboard() {
    assert_eq!(tick_action(Some(SyncCommand::SyncUpload), true), TickAction::Run(SyncCommand::SyncUpload));
    assert_eq!(tick_action(Some(SyncCommand::Shutdown), true), TickAction::Close);
    assert_eq!(tick_action(None, true), TickAction::ReadClipboard);
    assert_eq!(tick_action(None, false), TickAction::Wait);
}

#[test]
fn automatic_reads_push_new_small_contents_only() {
    let mut c = config();
    c.auto_sync_max_bytes = 5;
    let mut m = ClipboardMonitor::new();
    match auto_read(&mut m, Some(ClipboardContent::Text("hello".to_string())), &c) {
        AutoRead::Push(ClipboardContent::Text(t)) => assert_eq!(t, "hello"),
        _ => panic!("a new small text is pushed"),
    }
    assert!(matches!(auto_read(&mut m, Some(ClipboardContent::Text("hello".to_string())), &c), AutoRead::Unchanged));
    assert!(matches!(auto_read(&mut m, Some(ClipboardContent::Text("hello!".to_string())), &c), AutoRead::TooLarge(6)));
    assert!(matches!(auto_read(&mut m, Some(ClipboardContent::Text("hello!".to_string())), &c), AutoRead::Unchanged));
    assert!(matches!(auto_read(&mut m, None, &c), AutoRead::Unchanged));
}

#[test]
fn reconnect_wait_doubles_up_to_a_minute() {
    let waits: Vec<u64> = (0..8).map(reconnect_delay_secs).collect();
    assert_eq!(waits, vec![3, 6, 12, 24, 48, 60, 60, 60]);
    assert_eq!(reconnect_delay_secs(u32::MAX), 60);
}

#[test]
fn written_content_is_remembered() {
    let mut m = ClipboardMonitor::new();
    let c = ClipboardContent::File { name: "a.txt".to_string(), bytes: b"hello".to_vec() };
    assert_eq!(m.remember(&c), HELLO_SHA256);
    assert!(m.read_and_check(Some(c.clone())).is_none());
    assert!(m.read_and_check(Some(ClipboardContent::Text("hello".to_string()))).is_none());
}

#[test]
fn clipboard_reads_prefer_files_then_text_then_bitmaps() {
    let file = ClipboardContent::File { name: "a.bin".to_string(), bytes: vec![1, 2] };
    let bmp = ClipboardContent::Image { png_bytes: vec![9] };
    assert!(matches!(clipboard_choice(Some(file.clone()), Some("t".to_string()), Some(bmp.clone())),
        Some(ClipboardContent::File { .. })));
    assert!(matches!(clipboard_choice(None, Some("t".to_string()), Some(bmp.clone())),
        Some(ClipboardContent::Text(ref t)) if t == "t"));
    assert!(matches!(clipboard_choice(None, None, Some(bmp)), Some(ClipboardContent::Image { .. })));
    assert!(clipboard_choice(None, None, None).is_none());
    match file_content("bin", "a.bin".to_string(), vec![1, 2]) {
        Some(ClipboardContent::File { name, bytes }) => {
            assert_eq!(name, "a.bin");
            assert_eq!(bytes, vec![1, 2]);
        }
        _ => panic!("a generic file stays a file"),
    }
    match file_content("PNG", "a.png".to_string(), vec![1, 2]) {
        Some(ClipboardContent::Image { png_bytes }) => assert_eq!(png_bytes, vec![1, 2]),
        _ => panic!("a PNG file is an image of its bytes"),
    }
    assert!(file_content("jpg", "a.jpg".to_string(), vec![1, 2]).is_none());
    let rgba = vec![255u8, 0, 0, 255];
    let png = encode_png(&rgba, 1, 1);
    match file_content("gif", "a.gif".to_string(), png.clone()) {
        Some(ClipboardContent::Image { png_bytes }) => assert_eq!(png_bytes, png),
        _ => panic!("a decodable image is re-encoded as PNG"),
    }
    match bitmap_content(&rgba, 1, 1) {
        Some(ClipboardContent::Image { png_bytes }) => assert_eq!(png_bytes, png),
        _ => panic!("a bitmap becomes its PNG"),
    }
}

#[test]
fn tray_icon_blinks_while_syncing_and_shows_connection_otherwise() {
    assert!(is_syncing(1000, 500, false));
    assert!(!is_syncing(2000, 500, false));
    assert!(is_syncing(2000, 500, true));
    assert!(is_syncing(100, 500, false));
    let mut t = TrayState::new(true);
    let u = t.refresh(true, false, 250);
    assert!(u.icon_refreshed);
    assert_eq!(u.icon, Some((0x44, 0xCC, 0x44)));
    assert!(u.rebuild_menu);
    assert_eq!(u.tooltip.as_deref(), Some("ClipSync - connected"));
    let u = t.refresh(true, false, 250);
    assert_eq!(u.icon, None);
    assert!(!u.rebuild_menu);
    assert_eq!(u.tooltip, None);
    let a = t.refresh(true, true, 300).icon;
    let b = t.refresh(true, true, 300).icon;
    assert_eq!(a, Some((0x88, 0xCC, 0xFF)));
    assert_eq!(b, Some((0x44, 0xAA, 0xFF)));
    assert_eq!(t.icon_state, IconState::SyncingOff);
    let u = t.refresh(false, false, 10);
    assert!(!u.icon_refreshed);
    assert_eq!(u.icon, None);
    assert_eq!(u.tooltip.as_deref(), Some("ClipSync - disconnected"));
    let u = t.refresh(false, false, 200);
    assert_eq!(u.icon, Some((0xFF, 0x44, 0x44)));
}

#[test]
fn tray_status_keeps_shown_times_when_empty() {
    let mut t = TrayState::new(false);
    let s = SyncStatus { connected: true, auto_sync: true, last_sync_time: "10:00:00".into(), last_sync_from: "phone".into() };
    assert!(t.apply_status(s));
    assert!(t.auto_sync);
    let s = SyncStatus { connected: false, auto_sync: false, last_sync_time: String::new(), last_sync_from: String::new() };
    assert!(!t.apply_status(s));
    assert_eq!(t.last_sync_time, "10:00:00");
    assert_eq!(t.last_sync_from, "phone");
    assert!(!t.auto_sync);
    assert!(t.menu_dirty);
}

#[test]
fn content_kind_size_and_hash() {
    let t = ClipboardContent::Text("hello".into());
    assert_eq!(t.content_type(), "Text");
    assert_eq!(t.size(), 5);
    assert_eq!(t.compute_hash(), HELLO_SHA256);
    let f = ClipboardContent::File { name: "a.bin".into(), bytes: b"hello".to_vec() };
    assert_eq!(f.content_type(), "File");
    assert_eq!(f.compute_hash(), HELLO_SHA256);
    let i = ClipboardContent::Image { png_bytes: vec![1, 2, 3] };
    assert_eq!(i.content_type(), "Image");
    assert_eq!(i.size(), 3);
    assert_eq!(ClipboardContent::Text("é".into()).size(), 2);
    let g = ClipboardContent::File { name: "other.txt".into(), bytes: b"hello".to_vec() };
    let im = ClipboardContent::Image { png_bytes: b"hello".to_vec() };
    assert_eq!(g.compute_hash(), f.compute_hash());
    assert_eq!(im.compute_hash(), t.compute_hash());
    for c in [t, f, i, ClipboardContent::Text(String::new())] {
        let h = c.compute_hash();
        assert_eq!(h.len(), 64);
        assert!(h.chars().all(|ch| ch.is_ascii_digit() || ('a'..='f').contains(&ch)));
    }
}

#[test]
fn monitor_reports_each_new_content_once() {
    let mut m = ClipboardMonitor::new();
    assert!(m.read_and_check(None).is_none());
    let got = m.read_and_check(Some(ClipboardContent::Text("a".into())));
    assert!(matches!(got, Some(ClipboardContent::Text(ref s)) if s == "a"));
    assert!(m.read_and_check(Some(ClipboardContent::Text("a".into()))).is_none());
    assert!(m.read_and_check(Some(ClipboardContent::Text("b".into()))).is_some());
}

#[test]
fn monitor_stays_silent_for_content_written_by_this_client() {
    let mut m = ClipboardMonitor::new();
    let c = ClipboardContent::Text("hello".into());
    m.set_last_hash(&c.compute_hash());
    assert!(m.read_and_check(Some(c)).is_none());
    let f = ClipboardContent::File { name: "x".into(), bytes: b"hello".to_vec() };
    assert!(m.read_and_check(Some(f)).is_none());
}

#[test]
fn file_kinds_by_extension() {
    assert_eq!(file_kind("png"), FileKind::PngImage);
    assert_eq!(file_kind("PNG"), FileKind::PngImage);
    assert_eq!(file_kind("JpEg"), FileKind::OtherImage);
    assert_eq!(file_kind("webp"), FileKind::OtherImage);
    assert_eq!(file_kind("txt"), FileKind::Generic);
    assert_eq!(file_kind(""), FileKind::Generic);
}

#[test]
fn png_encode_then_decode_gives_back_the_pixels() {
    let rgba = vec![10u8, 20, 30, 255, 40, 50, 60, 128];
    let png = encode_png(&rgba, 2, 1);
    assert_eq!(&png[..8], b"\x89PNG\r\n\x1a\n");
    let (pixels, w, h) = decode_png_quick(&png).unwrap();
    assert_eq!((w, h), (2, 1));
    assert_eq!(pixels, rgba);
    let again = image_to_png(&png).unwrap();
    assert_eq!(decode_png_quick(&again).unwrap().0, rgba);
    assert!(decode_png_quick(b"not an image").is_none());
    assert!(image_to_png(b"not an image").is_none());
}

#[test]
fn shorten_id_cuts_after_eight_bytes() {
    assert_eq!(shorten_id("abcdefghij"), "abcdefgh\u{2026}");
    assert_eq!(shorten_id("abcdefgh"), "abcdefgh");
    assert_eq!(shorten_id("short"), "short");
    assert_eq!(shorten_id("ééééé"), "éééé\u{2026}");
}

#[test]
fn broadcasts_are_filtered() {
    let c = config();
    let p = profile("Text", "h", "hi", false, "", 2);
    assert_eq!(broadcast_origin(&c, true, &p, &c.device_id, "me"), None);
    assert_eq!(broadcast_origin(&c, false, &p, "other-device-id", ""), None);
    let big = profile("Text", "h", "", true, "h.txt", 10_485_761);
    assert_eq!(broadcast_origin(&c, true, &big, "other-device-id", ""), None);
    let neg = profile("Text", "h", "", true, "h.txt", -1);
    assert_eq!(broadcast_origin(&c, true, &neg, "other-device-id", ""), None);
    assert_eq!(broadcast_origin(&c, true, &p, "other-device-id", "").as_deref(), Some("other-de\u{2026}"));
    assert_eq!(broadcast_origin(&c, true, &p, "other-device-id", "Phone").as_deref(), Some("Phone"));
    assert_eq!(backlog_to_apply(false, vec![p.clone()]).len(), 0);
    assert_eq!(backlog_to_apply(true, vec![p.clone(), p]).len(), 2);
    assert!(fits_auto_sync(10_485_760, &c));
    assert!(!fits_auto_sync(10_485_761, &c));
}

#[test]
fn small_text_travels_inline_and_arrives_unchanged() {
    let c = config();
    let content = ClipboardContent::Text("hello".into());
    let up = local_upload(&content, &c);
    assert!(up.upload_name.is_none());
    assert_eq!(up.profile.content_type, "Text");
    assert_eq!(up.profile.hash, HELLO_SHA256);
    assert_eq!(up.profile.text, "hello");
    assert!(!up.profile.has_data);
    assert_eq!(up.profile.size, 5);
    match remote_action(&up.profile) {
        RemoteAction::SetText(t) => assert_eq!(t, "hello"),
        _ => panic!("expected inline text"),
    }
}

#[test]
fn large_text_is_uploaded_and_fetched_by_name() {
    let mut c = config();
    c.ws_inline_max_bytes = 3;
    let content = ClipboardContent::Text("hello".into());
    let up = local_upload(&content, &c);
    let name = format!("{}.txt", HELLO_SHA256);
    assert_eq!(up.upload_name.as_deref(), Some(name.as_str()));
    assert!(up.profile.has_data);
    assert_eq!(up.profile.text, "");
    match remote_action(&up.profile) {
        RemoteAction::DownloadText(n) => assert_eq!(n, name),
        _ => panic!("expected a download"),
    }
}

#[test]
fn files_and_images_arrive_by_upload_name() {
    let c = config();
    let file = ClipboardContent::File { name: "notes_v2.txt".into(), bytes: b"hello".to_vec() };
    let up = local_upload(&file, &c);
    let name = format!("{}_notes_v2.txt", HELLO_SHA256);
    assert_eq!(up.upload_name.as_deref(), Some(name.as_str()));
    assert_eq!(up.profile.content_type, "File");
    match remote_action(&up.profile) {
        RemoteAction::DownloadFile { data_name, file_name } => {
            assert_eq!(data_name, name);
            assert_eq!(file_name, "notes_v2.txt");
        }
        _ => panic!("expected a file"),
    }
    let img = ClipboardContent::Image { png_bytes: b"hello".to_vec() };
    let up = local_upload(&img, &c);
    assert_eq!(up.profile.data_name, format!("{}.png", HELLO_SHA256));
    assert_eq!(up.profile.size, 5);
    match remote_action(&up.profile) {
        RemoteAction::DownloadImage(n) => assert_eq!(n, format!("{}.png", HELLO_SHA256)),
        _ => panic!("expected an image"),
    }
    assert!(matches!(remote_action(&profile("Video", "h", "", false, "", 0)), RemoteAction::Unknown));
    match remote_action(&profile("File", "h", "", true, "plain", 1)) {
        RemoteAction::DownloadFile { file_name, .. } => assert_eq!(file_name, "plain"),
        _ => panic!("expected a file"),
    }
}

#[test]
fn received_bytes_become_clipboard_content() {
    assert!(matches!(remote_text(b"hi"), ClipboardContent::Text(ref t) if t == "hi"));
    assert!(matches!(remote_text(&[0x68, 0xff]), ClipboardContent::Text(ref t) if t == "h\u{fffd}"));
    assert_eq!(image_file_name(HELLO_SHA256), "2cf24dba.png");
}

#[test]
fn statuses_report_the_sync() {
    let s = plain_status(false, true);
    assert!(!s.connected && s.auto_sync && s.last_sync_time.is_empty() && s.last_sync_from.is_empty());
    let s = received_status(true, "10:00:00".into(), "phone".into());
    assert!(s.connected);
    assert_eq!(s.last_sync_from, "phone");
    let latest = LatestProfileResponse {
        payload: profile("Text", "h", "x", false, "", 1),
        source_device_id: "0123456789".into(),
        created_at: "2024-01-01 00:00:00".into(),
    };
    assert!(should_apply_latest(&latest));
    let s = download_status(true, false, &latest);
    assert_eq!(s.last_sync_from, "01234567\u{2026}");
    assert_eq!(s.last_sync_time, "2024-01-01 00:00:00");
    let mut auto = true;
    let s = toggle_auto_sync(true, &mut auto);
    assert!(!auto && !s.auto_sync && s.connected);
    let empty = LatestProfileResponse { payload: profile("", "", "", false, "", 0), source_device_id: String::new(), created_at: String::new() };
    assert!(!should_apply_latest(&empty));
}

#[test]
fn websocket_handshake_and_reading() {
    let c = config();
    match auth_message(&c) {
        WsClientMsg::Auth { token, device_id, name } => {
            assert_eq!(token, "liteclipsync");
            assert_eq!(device_id, c.device_id);
            assert_eq!(name.as_deref(), Some("pc"));
        }
        _ => panic!("expected Auth"),
    }
    assert_eq!(auth_reply(WsServerMsg::AuthOk { device_id: "d".into() }, "{}"), Ok("d".to_string()));
    assert_eq!(auth_reply(WsServerMsg::AuthError { reason: "invalid token".into() }, "{}"), Err("auth error: invalid token".to_string()));
    assert_eq!(auth_reply(WsServerMsg::Backlog { entries: vec![] }, "raw"), Err("unexpected response: raw".to_string()));
    assert_eq!(auth_frame(WsFrame::Text("x".into())), Ok("x".to_string()));
    assert_eq!(auth_frame(WsFrame::Ping), Err(AuthFrameError::UnexpectedMessage));
    assert_eq!(auth_frame(WsFrame::Failed), Err(AuthFrameError::Failed));
    assert_eq!(auth_frame(WsFrame::Ended), Err(AuthFrameError::Closed));
    assert!(matches!(read_step(WsFrame::Text("t".into())), ReadStep::Parse(ref t) if t == "t"));
    assert!(matches!(read_step(WsFrame::Pong), ReadStep::Skip));
    assert!(matches!(read_step(WsFrame::Binary), ReadStep::Skip));
    assert!(matches!(read_step(WsFrame::Close), ReadStep::Stop));
    assert!(matches!(read_step(WsFrame::Ended), ReadStep::Stop));
    let p = profile("Text", "h", "x", false, "", 1);
    match clip_message(&p, &c) {
        WsClientMsg::LiteClipSync { payload, device_id } => {
            assert_eq!(payload.text, "x");
            assert_eq!(device_id, c.device_id);
        }
        _ => panic!("expected LiteClipSync"),
    }
}
