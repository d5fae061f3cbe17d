use vstd::prelude::*;
use vstd::utf8::{decode_utf8, encode_utf8, valid_utf8};

use crate::codec::{base64_encode, base64_encode_bytes, base64_len, new_uuid_v4};
use crate::server::auth::{basic_prefix, header_token, credentials_token};
use crate::text::{
    chars_of, concat, replace_all, replace_all_chars,
    opt_string, string_of, trim_end_char, trim_end_char_chars,
};

verus! {

broadcast use vstd::utf8::encode_utf8_decode_utf8, vstd::utf8::encode_utf8_valid_utf8;

pub fn default_true() -> (r: bool)
    ensures
        r,
{
    true
}

pub fn default_auto_sync_max_bytes() -> (r: usize)
    ensures
        r == 10_485_760,
{
    10_485_760
}

/// The largest text sent inline over the WebSocket when `config.toml` does not say.
pub fn default_ws_inline_max_bytes() -> (r: usize)
    ensures
        r == 1_048_576,
{
    1_048_576
}

pub fn default_http_timeout() -> (r: u64)
    ensures
        r == 180,
{
    180
}

pub fn default_hotkey_copy() -> (r: String)
    ensures
        r@ == "Ctrl+Shift+C"@,
{
    String::from_str("Ctrl+Shift+C")
}

pub fn default_hotkey_paste() -> (r: String)
    ensures
        r@ == "Ctrl+Shift+V"@,
{
    String::from_str("Ctrl+Shift+V")
}

pub fn default_hotkey_toggle() -> (r: String)
    ensures
        r@ == "Ctrl+Alt+V"@,
{
    String::from_str("Ctrl+Alt+V")
}

pub fn default_language() -> (r: String)
    ensures
        r@ == "en"@,
{
    String::from_str("en")
}

/// The desktop client's settings, kept in `config.toml` beside the executable.
#[derive(Debug, Clone)]
pub struct Config {
    pub server_url: String,
    pub token: String,
    pub device_id: String,
    pub device_name: String,
    pub ws_inline_max_bytes: usize,
    pub auto_sync_max_bytes: usize,
    pub http_timeout_secs: u64,
    pub auto_sync: bool,
    pub autostart: bool,
    pub hotkey_copy: String,
    pub hotkey_paste: String,
    pub hotkey_toggle: String,
    pub language: String,
    pub config_path: String,
}

/// `http://` and `https://`, and the WebSocket schemes that replace them.
pub open spec fn http_scheme() -> Seq<char> {
    seq!['h', 't', 't', 'p', ':', '/', '/']
}

pub open spec fn https_scheme() -> Seq<char> {
    seq!['h', 't', 't', 'p', 's', ':', '/', '/']
}

pub open spec fn ws_scheme() -> Seq<char> {
    seq!['w', 's', ':', '/', '/']
}

pub open spec fn wss_scheme() -> Seq<char> {
    seq!['w', 's', 's', ':', '/', '/']
}

pub open spec fn ws_path() -> Seq<char> {
    seq!['/', 'w', 's']
}

/// The WebSocket endpoint of a server URL: every `http://` becomes `ws://`, then
/// every `https://` becomes `wss://`, and `/ws` is appended.
pub open spec fn ws_url_of(server_url: Seq<char>) -> Seq<char> {
    replace_all(replace_all(server_url, http_scheme(), ws_scheme()), https_scheme(), wss_scheme())
        + ws_path()
}

/// The `Authorization` value for a token: `Basic ` and base64 of `:token` (an empty
/// user name and the token as password).
pub open spec fn basic_auth_of(token: Seq<char>) -> Seq<char> {
    basic_prefix() + base64_encode(encode_utf8(seq![':'] + token))
}

/// Whether a path character separates directories (the Windows client accepts both).
pub open spec fn is_separator(c: char) -> bool {
    c == '/' || c == '\\'
}

/// `config.toml`.
pub open spec fn config_file_name() -> Seq<char> {
    seq!['c', 'o', 'n', 'f', 'i', 'g', '.', 't', 'o', 'm', 'l']
}

/// The index of the last separator of `s` below `end`, if any.
pub open spec fn last_separator_below(s: Seq<char>, end: int) -> Option<int>
    decreases end,
{
    if end <= 0 {
        None
    } else if is_separator(s[end - 1]) {
        Some(end - 1)
    } else {
        last_separator_below(s, end - 1)
    }
}

/// `config.toml` in the directory of the executable at `exe`: the text of `exe` up to
/// and including its last separator, then `config.toml`; `None` for an empty path.
pub open spec fn config_path_of(exe: Seq<char>) -> Option<Seq<char>> {
    if exe.len() == 0 {
        None
    } else {
        match last_separator_below(exe, exe.len() as int) {
            Some(i) => Some(exe.take(i + 1) + config_file_name()),
            None => Some(config_file_name()),
        }
    }
}

/// The device name used when none is configured: `COMPUTERNAME`, else `HOSTNAME`,
/// else `windows-pc`.
pub fn default_hostname(computername: Option<String>, hostname: Option<String>) -> (r: String)
    ensures
        match computername {
            Some(c) => r@ == c@,
            None => match hostname {
                Some(h) => r@ == h@,
                None => r@ == "windows-pc"@,
            },
        },
{
    match computername {
        Some(c) => c,
        None => match hostname {
            Some(h) => h,
            None => String::from_str("windows-pc"),
        },
    }
}

impl Config {
    /// The settings written on first start, with `hostname` as the device name.
    pub fn default_with_hostname(hostname: String) -> (c: Config)
        ensures
            c.server_url@ == "http://192.168.245.134:8765"@,
            c.token@ == "liteclipsync"@,
            c.device_id@ == Seq::<char>::empty(),
            c.device_name == hostname,
            c.ws_inline_max_bytes == 1_048_576,
            c.auto_sync_max_bytes == 10_485_760,
            c.http_timeout_secs == 180,
            c.auto_sync,
            !c.autostart,
            c.hotkey_copy@ == "Ctrl+Shift+C"@,
            c.hotkey_paste@ == "Ctrl+Shift+V"@,
            c.hotkey_toggle@ == "Ctrl+Alt+V"@,
            c.language@ == "en"@,
            c.config_path@ == Seq::<char>::empty(),
    {
        Config {
            server_url: String::from_str("http://192.168.245.134:8765"),
            token: String::from_str("liteclipsync"),
            device_id: String::new(),
            device_name: hostname,
            ws_inline_max_bytes: 1_048_576,
            auto_sync_max_bytes: 10_485_760,
            http_timeout_secs: 180,
            auto_sync: true,
            autostart: false,
            hotkey_copy: String::from_str("Ctrl+Shift+C"),
            hotkey_paste: String::from_str("Ctrl+Shift+V"),
            hotkey_toggle: String::from_str("Ctrl+Alt+V"),
            language: String::from_str("en"),
            config_path: String::new(),
        }
    }

    /// The path of `config.toml` for the executable at `exe`.
    pub fn config_path(exe: &str) -> (r: Option<String>)
        ensures
            opt_string(r) == config_path_of(exe@),
    {
        let cs = chars_of(exe);
        if cs.len() == 0 {
            return None;
        }
        let mut end = cs.len();
        while end > 0 && !(cs[end - 1] == '/' || cs[end - 1] == '\\')
            invariant
                end <= cs.len(),
                cs@ == exe@,
                last_separator_below(exe@, exe@.len() as int) == last_separator_below(
                    exe@,
                    end as int,
                ),
            decreases end,
        {
            end -= 1;
        }
        let file = vec!['c', 'o', 'n', 'f', 'i', 'g', '.', 't', 'o', 'm', 'l'];
        let dir = crate::text::slice_chars(&cs, 0, end);
        assert(end > 0 ==> dir@ =~= exe@.take(end as int));
        let d = string_of(&dir);
        let f = string_of(&file);
        let r = concat(d.as_str(), f.as_str());
        assert(end == 0 ==> dir@ =~= Seq::<char>::empty());
        assert(end == 0 ==> r@ =~= config_file_name());
        Some(r)
    }

    /// Gives the configuration a fresh random UUID v4 as device id when it has none; returns
    /// whether it did.
    pub fn ensure_device_id(&mut self) -> (changed: bool)
        ensures
            changed == (old(self).device_id@.len() == 0),
            changed ==> crate::codec::is_uuid_v4(final(self).device_id@),
            !changed ==> final(self).device_id == old(self).device_id,
            final(self).server_url == old(self).server_url,
            final(self).token == old(self).token,
            final(self).device_name == old(self).device_name,
            final(self).ws_inline_max_bytes == old(self).ws_inline_max_bytes,
            final(self).auto_sync_max_bytes == old(self).auto_sync_max_bytes,
            final(self).http_timeout_secs == old(self).http_timeout_secs,
            final(self).auto_sync == old(self).auto_sync,
            final(self).autostart == old(self).autostart,
            final(self).hotkey_copy == old(self).hotkey_copy,
            final(self).hotkey_paste == old(self).hotkey_paste,
            final(self).hotkey_toggle == old(self).hotkey_toggle,
            final(self).language == old(self).language,
            final(self).config_path == old(self).config_path,
    {
        if self.device_id.as_str().is_empty() {
            self.device_id = new_uuid_v4();
            true
        } else {
            false
        }
    }

    /// Chooses the menu language; the other settings stay as they are.
    pub fn set_language(&mut self, lang: crate::desktop::tray::Language)
        ensures
            final(self).language@ == crate::desktop::tray::language_code(lang),
            final(self).server_url == old(self).server_url,
            final(self).token == old(self).token,
            final(self).device_id == old(self).device_id,
            final(self).device_name == old(self).device_name,
            final(self).ws_inline_max_bytes == old(self).ws_inline_max_bytes,
            final(self).auto_sync_max_bytes == old(self).auto_sync_max_bytes,
            final(self).http_timeout_secs == old(self).http_timeout_secs,
            final(self).auto_sync == old(self).auto_sync,
            final(self).autostart == old(self).autostart,
            final(self).hotkey_copy == old(self).hotkey_copy,
            final(self).hotkey_paste == old(self).hotkey_paste,
            final(self).hotkey_toggle == old(self).hotkey_toggle,
            final(self).config_path == old(self).config_path,
    {
        self.language = String::from_str(crate::desktop::tray::language_value(lang));
    }

    /// The WebSocket URL of the server.
    pub fn ws_url(&self) -> (r: String)
        ensures
            r@ == ws_url_of(self.server_url@),
    {
        let cs = chars_of(self.server_url.as_str());
        let http = vec!['h', 't', 't', 'p', ':', '/', '/'];
        let https = vec!['h', 't', 't', 'p', 's', ':', '/', '/'];
        let ws = vec!['w', 's', ':', '/', '/'];
        let wss = vec!['w', 's', 's', ':', '/', '/'];
        let a = replace_all_chars(&cs, &http, &ws);
        let mut b = replace_all_chars(&a, &https, &wss);
        b.push('/');
        b.push('w');
        b.push('s');
        let ghost base = replace_all(replace_all(self.server_url@, http_scheme(), ws_scheme()), https_scheme(), wss_scheme());
        assert(b@ =~= base + ws_path());
        string_of(&b)
    }

    /// The server URL without trailing slashes, the base of the HTTP API.
    pub fn api_base(&self) -> (r: String)
        ensures
            r@ == trim_end_char(self.server_url@, '/'),
    {
        let cs = chars_of(self.server_url.as_str());
        let t = trim_end_char_chars(&cs, '/');
        string_of(&t)
    }

    /// The `Authorization` header value: `Basic ` and base64 of `:token`. The server
    /// reads back exactly the token.
    pub fn basic_auth_value(&self) -> (r: String)
        requires
            base64_len(encode_utf8(seq![':'] + self.token@).len()) <= usize::MAX,
        ensures
            r@ == basic_auth_of(self.token@),
            header_token(r@) == Some(self.token@),
    {
        let cred = concat(":", self.token.as_str());
        proof {
            reveal_strlit(":");
            assert(":"@ =~= seq![':']);
        }
        let encoded = base64_encode_bytes(cred.as_str().as_bytes());
        let prefix = string_of(&vec!['B', 'a', 's', 'i', 'c', ' ']);
        let r = concat(prefix.as_str(), encoded.as_str());
        proof {
            let e = encoded@;
            assert(r@.take(6) =~= basic_prefix());
            assert(r@.skip(6) =~= e);
            let d = seq![':'] + self.token@;
            let b = encode_utf8(d);
            assert(decode_utf8(b) == d);
            assert(valid_utf8(b));
            assert(d[0] == ':');
            assert(d.contains(':'));
            crate::text::lemma_after_first_joined(Seq::empty(), self.token@, ':');
            assert(Seq::<char>::empty() + seq![':'] + self.token@ =~= d);
            assert(credentials_token(b) == Some(self.token@));
        }
        r
    }
}

/// The desktop client's `Authorization` header is accepted by the server for the
/// client's token, whatever the token (the header is any value that
/// `basic_auth_value` states for that token).
pub proof fn lemma_client_credentials_accepted(token: Seq<char>, header: Seq<char>)
    requires
        header_token(header) == Some(token),
    ensures
        crate::server::auth::extracted_token(Some(header)) == Some(token),
        crate::server::auth::ws_token_ok(token, token),
{
}

} // verus!
