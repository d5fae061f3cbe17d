use vstd::prelude::*;

use crate::desktop::command::{SyncCommand, SyncStatus};
use crate::text::{
    concat, opt_string, chars_eq, chars_of, is_white_space, lemma_split_from_nonempty,
    lemma_split_last_piece, lemma_split_piece, lemma_trim_untouched, split_chars, split_on,
    trim_chars, trim_ws,
};

verus! {

pub open spec fn ctrl_name() -> Seq<char> {
    seq!['C', 't', 'r', 'l']
}

pub open spec fn shift_name() -> Seq<char> {
    seq!['S', 'h', 'i', 'f', 't']
}

pub open spec fn alt_name() -> Seq<char> {
    seq!['A', 'l', 't']
}

pub open spec fn win_name() -> Seq<char> {
    seq!['W', 'i', 'n']
}

/// A modifier name that a hotkey accepts.
pub open spec fn modifier_known(p: Seq<char>) -> bool {
    p == ctrl_name() || p == shift_name() || p == alt_name() || p == win_name()
}

/// The `RegisterHotKey` modifier mask of the named modifiers: Alt 0x1, Ctrl 0x2,
/// Shift 0x4, Win 0x8, each counted once however often it is named.
pub open spec fn modifier_mask(mods: Seq<Seq<char>>) -> u32 {
    ((if mods.contains(alt_name()) { 1int } else { 0int }) + (if mods.contains(ctrl_name()) {
        2int
    } else {
        0int
    }) + (if mods.contains(shift_name()) { 4int } else { 0int }) + (if mods.contains(
        win_name(),
    ) {
        8int
    } else {
        0int
    })) as u32
}

/// The virtual-key code of a key name: one ASCII letter (upper-cased) or one digit.
pub open spec fn key_code(k: Seq<char>) -> Option<u16> {
    if k.len() == 1 && 'a' <= k[0] && k[0] <= 'z' {
        Some((k[0] as u32 - 32) as u16)
    } else if k.len() == 1 && (('A' <= k[0] && k[0] <= 'Z') || ('0' <= k[0] && k[0] <= '9')) {
        Some(k[0] as u16)
    } else {
        None
    }
}

/// The pieces of a hotkey text: split at `+`, each trimmed of white space.
pub open spec fn hotkey_parts(s: Seq<char>) -> Seq<Seq<char>> {
    split_on(s, '+').map_values(|p: Seq<char>| trim_ws(p))
}

/// What a hotkey text such as `Ctrl+Shift+C` denotes: the modifier mask and the
/// key code, when every piece but the last is a modifier and the last is a key.
pub open spec fn hotkey(s: Seq<char>) -> Option<(u32, u16)> {
    let parts = hotkey_parts(s);
    let mods = parts.drop_last();
    if (forall|i: int| 0 <= i < mods.len() ==> modifier_known(#[trigger] mods[i])) && key_code(
        parts.last(),
    ) is Some {
        Some((modifier_mask(mods), key_code(parts.last())->0))
    } else {
        None
    }
}

proof fn lemma_push_contains(s: Seq<Seq<char>>, x: Seq<char>, y: Seq<char>)
    ensures
        s.push(x).contains(y) == (s.contains(y) || x == y),
{
    if s.push(x).contains(y) {
        let i = choose|i: int| 0 <= i < s.push(x).len() && s.push(x)[i] == y;
        if i < s.len() {
            assert(s[i] == y);
        }
    }
    if s.contains(y) {
        let i = choose|i: int| 0 <= i < s.len() && s[i] == y;
        assert(s.push(x)[i] == y);
    }
    if x == y {
        assert(s.push(x)[s.len() as int] == y);
    }
}

proof fn lemma_names_distinct()
    ensures
        ctrl_name() != shift_name(),
        ctrl_name() != alt_name(),
        ctrl_name() != win_name(),
        shift_name() != alt_name(),
        shift_name() != win_name(),
        alt_name() != win_name(),
{
    assert(ctrl_name()[0] != shift_name()[0]);
    assert(ctrl_name()[0] != alt_name()[0]);
    assert(ctrl_name()[0] != win_name()[0]);
    assert(shift_name()[0] != alt_name()[0]);
    assert(shift_name()[0] != win_name()[0]);
    assert(alt_name()[0] != win_name()[0]);
}

fn key_code_of(k: &Vec<char>) -> (r: Option<u16>)
    ensures
        r == key_code(k@),
{
    if k.len() != 1 {
        return None;
    }
    let ch = k[0];
    if 'a' <= ch && ch <= 'z' {
        let u = ch as u32 - 32;
        Some(u as u16)
    } else if ('A' <= ch && ch <= 'Z') || ('0' <= ch && ch <= '9') {
        let u = ch as u32;
        Some(u as u16)
    } else {
        None
    }
}

/// Parses a hotkey text such as `Ctrl+Shift+C` into a modifier mask and a key code.
pub fn parse_hotkey(s: &str) -> (r: Option<(u32, u16)>)
    ensures
        r == hotkey(s@),
{
    let chars = chars_of(s);
    let raw = split_chars(&chars, '+');
    let ghost ps = hotkey_parts(s@);
    proof {
        lemma_split_from_nonempty(Seq::empty(), s@, '+');
    }
    let mut parts: Vec<Vec<char>> = Vec::new();
    let mut i: usize = 0;
    while i < raw.len()
        invariant
            i <= raw.len(),
            raw@.len() == split_on(s@, '+').len(),
            forall|k: int| 0 <= k < raw@.len() ==> #[trigger] raw@[k]@ == split_on(s@, '+')[k],
            ps == hotkey_parts(s@),
            parts@.len() == i,
            forall|k: int| 0 <= k < i ==> #[trigger] parts@[k]@ == ps[k],
        decreases raw.len() - i,
    {
        let t = trim_chars(&raw[i]);
        parts.push(t);
        i += 1;
    }
    let n = parts.len();
    let ghost mods = ps.drop_last();
    let ctrl_v = vec!['C', 't', 'r', 'l'];
    let shift_v = vec!['S', 'h', 'i', 'f', 't'];
    let alt_v = vec!['A', 'l', 't'];
    let win_v = vec!['W', 'i', 'n'];
    let mut alt = false;
    let mut ctrl = false;
    let mut shift = false;
    let mut win = false;
    let mut j: usize = 0;
    while j < n - 1
        invariant
            n == parts@.len(),
            n == ps.len(),
            n >= 1,
            j <= n - 1,
            mods == ps.drop_last(),
            ps == hotkey_parts(s@),
            forall|k: int| 0 <= k < n ==> #[trigger] parts@[k]@ == ps[k],
            ctrl_v@ == ctrl_name(),
            shift_v@ == shift_name(),
            alt_v@ == alt_name(),
            win_v@ == win_name(),
            forall|k: int| 0 <= k < j ==> modifier_known(#[trigger] mods[k]),
            alt == mods.take(j as int).contains(alt_name()),
            ctrl == mods.take(j as int).contains(ctrl_name()),
            shift == mods.take(j as int).contains(shift_name()),
            win == mods.take(j as int).contains(win_name()),
        decreases n - 1 - j,
    {
        let p = &parts[j];
        assert(p@ == mods[j as int]);
        proof {
            lemma_names_distinct();
            let t = mods.take(j as int);
            assert(mods.take(j + 1) =~= t.push(mods[j as int]));
            lemma_push_contains(t, mods[j as int], ctrl_name());
            lemma_push_contains(t, mods[j as int], shift_name());
            lemma_push_contains(t, mods[j as int], alt_name());
            lemma_push_contains(t, mods[j as int], win_name());
        }
        if chars_eq(p, &ctrl_v) {
            ctrl = true;
        } else if chars_eq(p, &shift_v) {
            shift = true;
        } else if chars_eq(p, &alt_v) {
            alt = true;
        } else if chars_eq(p, &win_v) {
            win = true;
        } else {
            assert(!modifier_known(mods[j as int]));
            assert(mods.len() == n - 1);
            assert(!(forall|i: int| 0 <= i < mods.len() ==> modifier_known(#[trigger] mods[i])));
            return None;
        }
        j += 1;
    }
    assert(mods.take(j as int) =~= mods);
    let key = key_code_of(&parts[n - 1]);
    match key {
        Some(vk) => {
            let mask: u32 = (if alt { 1u32 } else { 0u32 }) + (if ctrl { 2u32 } else { 0u32 }) + (
            if shift {
                4u32
            } else {
                0u32
            }) + (if win { 8u32 } else { 0u32 });
            Some((mask, vk))
        },
        None => None,
    }
}

/// The command that a registered hotkey id stands for (1 copy-and-sync,
/// 2 sync-and-paste, 3 toggle auto-sync).
pub fn handle_hotkey(id: i32) -> (r: Option<SyncCommand>)
    ensures
        id == 1 ==> r == Some(SyncCommand::CopyAndSync),
        id == 2 ==> r == Some(SyncCommand::SyncAndPaste),
        id == 3 ==> r == Some(SyncCommand::ToggleAutoSync),
        !(1 <= id <= 3) ==> r is None,
{
    match id {
        1 => Some(SyncCommand::CopyAndSync),
        2 => Some(SyncCommand::SyncAndPaste),
        3 => Some(SyncCommand::ToggleAutoSync),
        _ => None,
    }
}

/// What a tray menu item asks for.
#[derive(Debug, Clone, Copy, PartialEq, Eq, Structural)]
pub enum MenuAction {
    /// Hand this command to the synchronisation loop.
    Send(SyncCommand),
    /// Open `config.toml` in an editor.
    EditConfig,
    /// Open the directory of `config.toml`.
    OpenConfigDir,
    /// Flip "launch at startup".
    ToggleStartup,
    /// Open the log file.
    OpenLog,
    /// Show the menu in this language and store the choice in `config.toml`.
    SetLanguage(Language),
    /// Close the session with the server, start a new instance and exit.
    Restart,
    /// Close the session with the server, then exit.
    Quit,
    /// An item without an action.
    Nothing,
}

/// The action of a menu item by its id.
pub open spec fn menu_action_of(id: Seq<char>) -> MenuAction {
    if id == "sync-upload"@ {
        MenuAction::Send(SyncCommand::SyncUpload)
    } else if id == "sync-download"@ {
        MenuAction::Send(SyncCommand::SyncDownload)
    } else if id == "auto-sync"@ {
        MenuAction::Send(SyncCommand::ToggleAutoSync)
    } else if id == "edit-config"@ {
        MenuAction::EditConfig
    } else if id == "open-dir"@ {
        MenuAction::OpenConfigDir
    } else if id == "launch-startup"@ {
        MenuAction::ToggleStartup
    } else if id == "open-log"@ {
        MenuAction::OpenLog
    } else if id == "lang-zh"@ {
        MenuAction::SetLanguage(Language::Chinese)
    } else if id == "lang-en"@ {
        MenuAction::SetLanguage(Language::English)
    } else if id == "tray-restart"@ {
        MenuAction::Restart
    } else if id == "quit"@ {
        MenuAction::Quit
    } else {
        MenuAction::Nothing
    }
}

/// Handles a click on a menu item: gives its action, and flips the tray's own copy
/// of auto-sync when the item is "Auto-Sync".
pub fn handle_menu_event(id: &str, auto_sync: &mut bool) -> (r: MenuAction)
    ensures
        r == menu_action_of(id@),
        *final(auto_sync) == if id@ == "auto-sync"@ {
            !*old(auto_sync)
        } else {
            *old(auto_sync)
        },
{
    proof {
        reveal_strlit("sync-upload");
        reveal_strlit("sync-download");
        reveal_strlit("auto-sync");
        assert("sync-upload"@.len() != "auto-sync"@.len());
        assert("sync-download"@.len() != "auto-sync"@.len());
    }
    let cs = chars_of(id);
    if chars_eq(&cs, &chars_of("sync-upload")) {
        MenuAction::Send(SyncCommand::SyncUpload)
    } else if chars_eq(&cs, &chars_of("sync-download")) {
        MenuAction::Send(SyncCommand::SyncDownload)
    } else if chars_eq(&cs, &chars_of("auto-sync")) {
        *auto_sync = !*auto_sync;
        MenuAction::Send(SyncCommand::ToggleAutoSync)
    } else if chars_eq(&cs, &chars_of("edit-config")) {
        MenuAction::EditConfig
    } else if chars_eq(&cs, &chars_of("open-dir")) {
        MenuAction::OpenConfigDir
    } else if chars_eq(&cs, &chars_of("launch-startup")) {
        MenuAction::ToggleStartup
    } else if chars_eq(&cs, &chars_of("open-log")) {
        MenuAction::OpenLog
    } else if chars_eq(&cs, &chars_of("lang-zh")) {
        MenuAction::SetLanguage(Language::Chinese)
    } else if chars_eq(&cs, &chars_of("lang-en")) {
        MenuAction::SetLanguage(Language::English)
    } else if chars_eq(&cs, &chars_of("tray-restart")) {
        MenuAction::Restart
    } else if chars_eq(&cs, &chars_of("quit")) {
        MenuAction::Quit
    } else {
        MenuAction::Nothing
    }
}

/// The language of the tray menu.
#[derive(Debug, Clone, Copy, PartialEq, Eq, Structural)]
pub enum Language {
    English,
    Chinese,
}

/// The menu language that a configured `language` value selects: `zh` gives Chinese,
/// any other value English.
pub open spec fn language_of(code: Seq<char>) -> Language {
    if code == "zh"@ {
        Language::Chinese
    } else {
        Language::English
    }
}

/// The `language` value that stands for a menu language in `config.toml`.
pub open spec fn language_code(lang: Language) -> Seq<char> {
    match lang {
        Language::English => "en"@,
        Language::Chinese => "zh"@,
    }
}

/// The menu language of a configured `language` value.
pub fn menu_language(code: &str) -> (l: Language)
    ensures
        l == language_of(code@),
{
    if chars_eq(&chars_of(code), &chars_of("zh")) {
        Language::Chinese
    } else {
        Language::English
    }
}

/// The `language` value to store for a menu language.
pub fn language_value(lang: Language) -> (r: &'static str)
    ensures
        r@ == language_code(lang),
{
    match lang {
        Language::English => "en",
        Language::Chinese => "zh",
    }
}

/// The texts of the tray menu.
#[derive(Debug, Clone, Copy, PartialEq, Eq, Structural)]
pub enum MenuLabel {
    Connected,
    Disconnected,
    LastSync,
    From,
    Upload,
    Download,
    AutoSync,
    Settings,
    EditConfig,
    OpenConfigDir,
    ChineseChoice,
    EnglishChoice,
    LaunchAtStartup,
    OpenLog,
    Restart,
    Quit,
}

/// The text of a menu entry in a language. The two language choices are written in
/// their own language whatever the menu language is.
pub open spec fn label_text(lang: Language, item: MenuLabel) -> Seq<char> {
    match lang {
        Language::English => match item {
            MenuLabel::Connected => "Connected"@,
            MenuLabel::Disconnected => "Disconnected"@,
            MenuLabel::LastSync => "Last sync: "@,
            MenuLabel::From => "From: "@,
            MenuLabel::Upload => "Upload"@,
            MenuLabel::Download => "Download"@,
            MenuLabel::AutoSync => "Auto-Sync"@,
            MenuLabel::Settings => "Settings"@,
            MenuLabel::EditConfig => "Edit Config"@,
            MenuLabel::OpenConfigDir => "Open Config Directory"@,
            MenuLabel::ChineseChoice => "中文"@,
            MenuLabel::EnglishChoice => "English"@,
            MenuLabel::LaunchAtStartup => "Launch at Startup"@,
            MenuLabel::OpenLog => "Open Log"@,
            MenuLabel::Restart => "Restart"@,
            MenuLabel::Quit => "Quit"@,
        },
        Language::Chinese => match item {
            MenuLabel::Connected => "已连接"@,
            MenuLabel::Disconnected => "已断开"@,
            MenuLabel::LastSync => "最后同步: "@,
            MenuLabel::From => "来源: "@,
            MenuLabel::Upload => "上传"@,
            MenuLabel::Download => "下载"@,
            MenuLabel::AutoSync => "自动同步"@,
            MenuLabel::Settings => "设置"@,
            MenuLabel::EditConfig => "编辑配置"@,
            MenuLabel::OpenConfigDir => "打开配置目录"@,
            MenuLabel::ChineseChoice => "中文"@,
            MenuLabel::EnglishChoice => "English"@,
            MenuLabel::LaunchAtStartup => "开机自启"@,
            MenuLabel::OpenLog => "打开日志"@,
            MenuLabel::Restart => "重启"@,
            MenuLabel::Quit => "退出"@,
        },
    }
}

/// The text of a menu entry in the menu language.
pub fn menu_label(lang: Language, item: MenuLabel) -> (r: &'static str)
    ensures
        r@ == label_text(lang, item),
{
    match lang {
        Language::English => match item {
            MenuLabel::Connected => "Connected",
            MenuLabel::Disconnected => "Disconnected",
            MenuLabel::LastSync => "Last sync: ",
            MenuLabel::From => "From: ",
            MenuLabel::Upload => "Upload",
            MenuLabel::Download => "Download",
            MenuLabel::AutoSync => "Auto-Sync",
            MenuLabel::Settings => "Settings",
            MenuLabel::EditConfig => "Edit Config",
            MenuLabel::OpenConfigDir => "Open Config Directory",
            MenuLabel::ChineseChoice => "中文",
            MenuLabel::EnglishChoice => "English",
            MenuLabel::LaunchAtStartup => "Launch at Startup",
            MenuLabel::OpenLog => "Open Log",
            MenuLabel::Restart => "Restart",
            MenuLabel::Quit => "Quit",
        },
        Language::Chinese => match item {
            MenuLabel::Connected => "已连接",
            MenuLabel::Disconnected => "已断开",
            MenuLabel::LastSync => "最后同步: ",
            MenuLabel::From => "来源: ",
            MenuLabel::Upload => "上传",
            MenuLabel::Download => "下载",
            MenuLabel::AutoSync => "自动同步",
            MenuLabel::Settings => "设置",
            MenuLabel::EditConfig => "编辑配置",
            MenuLabel::OpenConfigDir => "打开配置目录",
            MenuLabel::ChineseChoice => "中文",
            MenuLabel::EnglishChoice => "English",
            MenuLabel::LaunchAtStartup => "开机自启",
            MenuLabel::OpenLog => "打开日志",
            MenuLabel::Restart => "重启",
            MenuLabel::Quit => "退出",
        },
    }
}

/// The first line of the menu: the connection state in the menu language and the
/// colour of its dot.
pub fn status_entry(connected: bool, lang: Language) -> (r: (&'static str, u8, u8, u8))
    ensures
        connected ==> r.0@ == label_text(lang, MenuLabel::Connected) && r.1 == 0x44 && r.2 == 0xCC
            && r.3 == 0x44,
        !connected ==> r.0@ == label_text(lang, MenuLabel::Disconnected) && r.1 == 0xFF && r.2
            == 0x44 && r.3 == 0x44,
{
    if connected {
        (menu_label(lang, MenuLabel::Connected), 0x44u8, 0xCCu8, 0x44u8)
    } else {
        (menu_label(lang, MenuLabel::Disconnected), 0xFFu8, 0x44u8, 0x44u8)
    }
}

/// The menu line with the time of the last synchronisation.
pub fn last_sync_label(time: &str, lang: Language) -> (r: String)
    ensures
        r@ == label_text(lang, MenuLabel::LastSync) + time@,
{
    concat(menu_label(lang, MenuLabel::LastSync), time)
}

/// The menu line with the origin of the last synchronisation.
pub fn from_label(from: &str, lang: Language) -> (r: String)
    ensures
        r@ == label_text(lang, MenuLabel::From) + from@,
{
    concat(menu_label(lang, MenuLabel::From), from)
}

/// Whether the tray shows activity: a synchronisation began less than 800 ms ago
/// (a clock that went back counts as no time passed) or an upload is running.
pub fn is_syncing(now_ms: u64, last_sync_at_ms: u64, uploading: bool) -> (r: bool)
    ensures
        r == ((if now_ms >= last_sync_at_ms {
            now_ms - last_sync_at_ms
        } else {
            0
        }) < 800 || uploading),
{
    now_ms.saturating_sub(last_sync_at_ms) < 800 || uploading
}

/// The phase of the tray icon; while syncing it blinks between two blues.
#[derive(Debug, Clone, Copy, PartialEq, Eq, Structural)]
pub enum IconState {
    Connecting,
    SyncingOn,
    SyncingOff,
    Connected,
    Disconnected,
}

/// The next icon phase and its colour.
pub open spec fn next_icon(state: IconState, syncing: bool, connected: bool) -> (IconState, (
    u8,
    u8,
    u8,
)) {
    if syncing {
        if state == IconState::SyncingOn {
            (IconState::SyncingOff, (0x44, 0xAA, 0xFF))
        } else {
            (IconState::SyncingOn, (0x88, 0xCC, 0xFF))
        }
    } else if connected {
        (IconState::Connected, (0x44, 0xCC, 0x44))
    } else {
        (IconState::Disconnected, (0xFF, 0x44, 0x44))
    }
}

/// The tooltip: `ClipSync - syncing...`, `ClipSync - connected` or
/// `ClipSync - disconnected`.
pub open spec fn tooltip_of(syncing: bool, connected: bool) -> Seq<char> {
    "ClipSync -"@ + if syncing {
        " syncing..."@
    } else if connected {
        " connected"@
    } else {
        " disconnected"@
    }
}

/// What the tray shows between redraws.
pub struct TrayState {
    pub icon_state: IconState,
    pub menu_dirty: bool,
    pub last_sync_time: String,
    pub last_sync_from: String,
    pub auto_sync: bool,
    pub last_icon_color: Option<(u8, u8, u8)>,
    pub last_tooltip: Option<String>,
}

/// The changes one refresh makes to the tray.
pub struct TrayUpdate {
    /// The refresh redrew the icon phase; the caller restarts its 200 ms timer.
    pub icon_refreshed: bool,
    /// A new icon colour to show.
    pub icon: Option<(u8, u8, u8)>,
    /// The menu must be rebuilt.
    pub rebuild_menu: bool,
    /// A new tooltip to show.
    pub tooltip: Option<String>,
}

impl TrayState {
    /// The tray before the first status: connecting, menu to be drawn.
    pub fn new(auto_sync: bool) -> (t: TrayState)
        ensures
            t.icon_state == IconState::Connecting,
            t.menu_dirty,
            t.last_sync_time@.len() == 0,
            t.last_sync_from@.len() == 0,
            t.auto_sync == auto_sync,
            t.last_icon_color is None,
            t.last_tooltip is None,
    {
        TrayState {
            icon_state: IconState::Connecting,
            menu_dirty: true,
            last_sync_time: String::new(),
            last_sync_from: String::new(),
            auto_sync,
            last_icon_color: None,
            last_tooltip: None,
        }
    }

    /// Takes in a status from the synchronisation loop; returns the connection state
    /// it reports. Empty times and origins keep the ones shown.
    pub fn apply_status(&mut self, status: SyncStatus) -> (connected: bool)
        ensures
            connected == status.connected,
            final(self).auto_sync == status.auto_sync,
            final(self).menu_dirty,
            final(self).last_sync_time == if status.last_sync_time@.len() == 0 {
                old(self).last_sync_time
            } else {
                status.last_sync_time
            },
            final(self).last_sync_from == if status.last_sync_from@.len() == 0 {
                old(self).last_sync_from
            } else {
                status.last_sync_from
            },
            final(self).icon_state == old(self).icon_state,
            final(self).last_icon_color == old(self).last_icon_color,
            final(self).last_tooltip == old(self).last_tooltip,
    {
        if !status.last_sync_time.as_str().is_empty() {
            self.last_sync_time = status.last_sync_time;
        }
        if !status.last_sync_from.as_str().is_empty() {
            self.last_sync_from = status.last_sync_from;
        }
        self.auto_sync = status.auto_sync;
        self.menu_dirty = true;
        status.connected
    }

    /// One refresh of the tray, given the connection and activity and the time since
    /// the icon phase was last redrawn: the phase advances at most every 200 ms, the
    /// icon is set only when its colour changes, the menu is rebuilt when a status
    /// arrived, and the tooltip is set only when its text changes.
    pub fn refresh(&mut self, connected: bool, syncing: bool, ms_since_icon: u64) -> (u: TrayUpdate)
        ensures
            u.icon_refreshed == (ms_since_icon >= 200),
            ms_since_icon >= 200 ==> {
                let (st, color) = next_icon(old(self).icon_state, syncing, connected);
                &&& final(self).icon_state == st
                &&& final(self).last_icon_color == Some(color)
                &&& u.icon == if old(self).last_icon_color == Some(color) {
                    None
                } else {
                    Some(color)
                }
            },
            ms_since_icon < 200 ==> final(self).icon_state == old(self).icon_state
                && final(self).last_icon_color == old(self).last_icon_color && u.icon is None,
            u.rebuild_menu == old(self).menu_dirty,
            !final(self).menu_dirty,
            opt_string(final(self).last_tooltip) == Some(tooltip_of(syncing, connected)),
            opt_string(u.tooltip) == if opt_string(old(self).last_tooltip) == Some(
                tooltip_of(syncing, connected),
            ) {
                None
            } else {
                Some(tooltip_of(syncing, connected))
            },
            final(self).last_sync_time == old(self).last_sync_time,
            final(self).last_sync_from == old(self).last_sync_from,
            final(self).auto_sync == old(self).auto_sync,
    {
        let mut icon: Option<(u8, u8, u8)> = None;
        let icon_refreshed = ms_since_icon >= 200;
        if icon_refreshed {
            let color: (u8, u8, u8) = if syncing {
                if self.icon_state == IconState::SyncingOn {
                    self.icon_state = IconState::SyncingOff;
                    (0x44, 0xAA, 0xFF)
                } else {
                    self.icon_state = IconState::SyncingOn;
                    (0x88, 0xCC, 0xFF)
                }
            } else if connected {
                self.icon_state = IconState::Connected;
                (0x44, 0xCC, 0x44)
            } else {
                self.icon_state = IconState::Disconnected;
                (0xFF, 0x44, 0x44)
            };
            let same = match self.last_icon_color {
                Some(c) => c.0 == color.0 && c.1 == color.1 && c.2 == color.2,
                None => false,
            };
            if !same {
                self.last_icon_color = Some(color);
                icon = Some(color);
            }
        }
        let rebuild_menu = self.menu_dirty;
        self.menu_dirty = false;
        let ts = if syncing {
            " syncing..."
        } else if connected {
            " connected"
        } else {
            " disconnected"
        };
        let tooltip = concat("ClipSync -", ts);
        let unchanged = match &self.last_tooltip {
            Some(t) => chars_eq(&chars_of(t.as_str()), &chars_of(tooltip.as_str())),
            None => false,
        };
        let new_tooltip = if unchanged {
            None
        } else {
            self.last_tooltip = Some(tooltip.clone());
            Some(tooltip)
        };
        TrayUpdate { icon_refreshed, icon, rebuild_menu, tooltip: new_tooltip }
    }
}

/// While activity lasts, each redraw of the icon switches between its two blues.
pub proof fn lemma_syncing_icon_blinks(state: IconState, connected: bool)
    ensures
        next_icon(next_icon(state, true, connected).0, true, connected).1 != next_icon(
            state,
            true,
            connected,
        ).1,
{
}

/// Without activity the icon is green when connected and red otherwise.
pub proof fn lemma_idle_icon_shows_connection(state: IconState, connected: bool)
    ensures
        next_icon(state, false, connected).1 == if connected {
            (0x44u8, 0xCCu8, 0x44u8)
        } else {
            (0xFFu8, 0x44u8, 0x44u8)
        },
{
}

/// The order in which modifiers are named, and naming one twice, do not change what a
/// hotkey text denotes: two texts with the same key and the same modifier names
/// denote the same hotkey (or are both refused).
pub proof fn lemma_hotkey_ignores_modifier_order(s: Seq<char>, t: Seq<char>)
    requires
        hotkey_parts(s).last() == hotkey_parts(t).last(),
        forall|p: Seq<char>|
            hotkey_parts(s).drop_last().contains(p) <==> hotkey_parts(t).drop_last().contains(p),
    ensures
        hotkey(s) == hotkey(t),
{
    lemma_split_from_nonempty(Seq::empty(), s, '+');
    lemma_split_from_nonempty(Seq::empty(), t, '+');
    let ms = hotkey_parts(s).drop_last();
    let mt = hotkey_parts(t).drop_last();
    assert((forall|i: int| 0 <= i < ms.len() ==> modifier_known(#[trigger] ms[i])) <==> (forall|
        i: int,
    | 0 <= i < mt.len() ==> modifier_known(#[trigger] mt[i]))) by {
        if forall|i: int| 0 <= i < ms.len() ==> modifier_known(#[trigger] ms[i]) {
            assert forall|j: int| 0 <= j < mt.len() implies modifier_known(#[trigger] mt[j]) by {
                assert(mt.contains(mt[j]));
                assert(ms.contains(mt[j]));
            }
        }
        if forall|i: int| 0 <= i < mt.len() ==> modifier_known(#[trigger] mt[i]) {
            assert forall|j: int| 0 <= j < ms.len() implies modifier_known(#[trigger] ms[j]) by {
                assert(ms.contains(ms[j]));
                assert(mt.contains(ms[j]));
            }
        }
    }
    assert(modifier_mask(ms) == modifier_mask(mt));
}

/// A menu language chosen under Settings and stored in `config.toml` is the one the
/// menu shows when the setting is read back.
pub proof fn lemma_language_choice_persists(lang: Language)
    ensures
        language_of(language_code(lang)) == lang,
{
    reveal_strlit("en");
    reveal_strlit("zh");
    assert("en"@[0] != "zh"@[0]);
}

proof fn lemma_plain_piece(p: Seq<char>)
    requires
        p.len() > 0,
        forall|i: int| 0 <= i < p.len() ==> p[i] != '+' && !is_white_space(#[trigger] p[i]),
    ensures
        !p.contains('+'),
        trim_ws(p) == p,
{
    lemma_trim_untouched(p);
}

proof fn lemma_modifier_piece(a: Seq<char>)
    requires
        modifier_known(a),
    ensures
        !a.contains('+'),
        trim_ws(a) == a,
{
    assert(a.len() > 0);
    assert forall|i: int| 0 <= i < a.len() implies a[i] != '+' && !is_white_space(#[trigger] a[i]) by {
        assert('a' <= a[i] <= 'z' || 'A' <= a[i] <= 'Z');
    }
    lemma_plain_piece(a);
}

proof fn lemma_key_piece(k: char)
    requires
        key_code(seq![k]) is Some,
    ensures
        !seq![k].contains('+'),
        trim_ws(seq![k]) == seq![k],
{
    assert(seq![k][0] == k);
    lemma_plain_piece(seq![k]);
}

proof fn lemma_parts_two(a: Seq<char>, k: char)
    requires
        modifier_known(a),
        key_code(seq![k]) is Some,
    ensures
        hotkey_parts(a + seq!['+', k]) == seq![a, seq![k]],
{
    lemma_modifier_piece(a);
    lemma_key_piece(k);
    let s = a + seq!['+', k];
    assert(s =~= a + seq!['+'] + seq![k]);
    lemma_split_piece(Seq::empty(), a, seq![k], '+');
    lemma_split_last_piece(Seq::empty(), seq![k], '+');
    assert(Seq::<char>::empty() + a =~= a);
    assert(Seq::<char>::empty() + seq![k] =~= seq![k]);
    assert(split_on(s, '+') =~= seq![a, seq![k]]);
    assert(hotkey_parts(s) =~= seq![a, seq![k]]);
}

proof fn lemma_parts_three(a: Seq<char>, b: Seq<char>, k: char)
    requires
        modifier_known(a),
        modifier_known(b),
        key_code(seq![k]) is Some,
    ensures
        hotkey_parts(a + seq!['+'] + b + seq!['+', k]) == seq![a, b, seq![k]],
{
    lemma_modifier_piece(a);
    lemma_modifier_piece(b);
    lemma_key_piece(k);
    let rest = b + seq!['+'] + seq![k];
    let s = a + seq!['+'] + b + seq!['+', k];
    assert(s =~= a + seq!['+'] + rest);
    lemma_split_piece(Seq::empty(), a, rest, '+');
    lemma_split_piece(Seq::empty(), b, seq![k], '+');
    lemma_split_last_piece(Seq::empty(), seq![k], '+');
    assert(Seq::<char>::empty() + a =~= a);
    assert(Seq::<char>::empty() + b =~= b);
    assert(Seq::<char>::empty() + seq![k] =~= seq![k]);
    assert(split_on(s, '+') =~= seq![a, b, seq![k]]);
    assert(hotkey_parts(s) =~= seq![a, b, seq![k]]);
}

/// Naming two modifiers in either order, or one modifier twice, gives the same
/// hotkey; and every such text with a letter or digit as key is accepted.
pub proof fn lemma_hotkey_modifier_order_and_repetition(a: Seq<char>, b: Seq<char>, k: char)
    requires
        modifier_known(a),
        modifier_known(b),
        key_code(seq![k]) is Some,
    ensures
        hotkey(a + seq!['+'] + b + seq!['+', k]) is Some,
        hotkey(a + seq!['+'] + b + seq!['+', k]) == hotkey(b + seq!['+'] + a + seq!['+', k]),
        hotkey(a + seq!['+'] + a + seq!['+', k]) == hotkey(a + seq!['+', k]),
        hotkey(a + seq!['+', k]) is Some,
{
    lemma_parts_three(a, b, k);
    lemma_parts_three(b, a, k);
    lemma_parts_three(a, a, k);
    lemma_parts_two(a, k);
    let ab = seq![a, b, seq![k]];
    let ba = seq![b, a, seq![k]];
    let aa = seq![a, a, seq![k]];
    let one = seq![a, seq![k]];
    assert(ab.drop_last() =~= Seq::<Seq<char>>::empty().push(a).push(b));
    assert(ba.drop_last() =~= Seq::<Seq<char>>::empty().push(b).push(a));
    assert(aa.drop_last() =~= Seq::<Seq<char>>::empty().push(a).push(a));
    assert(one.drop_last() =~= Seq::<Seq<char>>::empty().push(a));
    assert forall|p: Seq<char>| #[trigger] ab.drop_last().contains(p) <==> ba.drop_last().contains(p) by {
        lemma_push_contains(Seq::<Seq<char>>::empty().push(a), b, p);
        lemma_push_contains(Seq::<Seq<char>>::empty().push(b), a, p);
        lemma_push_contains(Seq::<Seq<char>>::empty(), a, p);
        lemma_push_contains(Seq::<Seq<char>>::empty(), b, p);
    }
    assert forall|p: Seq<char>| #[trigger] aa.drop_last().contains(p) <==> one.drop_last().contains(p) by {
        lemma_push_contains(Seq::<Seq<char>>::empty().push(a), a, p);
        lemma_push_contains(Seq::<Seq<char>>::empty(), a, p);
    }
    assert(modifier_mask(ab.drop_last()) == modifier_mask(ba.drop_last()));
    assert(modifier_mask(aa.drop_last()) == modifier_mask(one.drop_last()));
    assert(ab.last() == seq![k] && ba.last() == seq![k] && aa.last() == seq![k] && one.last() == seq![k]);
    assert(forall|i: int| 0 <= i < ab.drop_last().len() ==> modifier_known(#[trigger] ab.drop_last()[i]));
    assert(forall|i: int| 0 <= i < ba.drop_last().len() ==> modifier_known(#[trigger] ba.drop_last()[i]));
    assert(forall|i: int| 0 <= i < aa.drop_last().len() ==> modifier_known(#[trigger] aa.drop_last()[i]));
    assert(forall|i: int| 0 <= i < one.drop_last().len() ==> modifier_known(#[trigger] one.drop_last()[i]));
}

} // verus!
