use vstd::prelude::*;

use crate::codec::{hex_digit, hex_lower, utf8_lossy, utf8_lossy_string};
use crate::desktop::client::LatestProfileResponse;
use crate::desktop::clipboard::{
    check_read, content_hash, content_size, content_type_name, decode_png, image_decode,
    ClipboardContent, ClipboardMonitor,
};
use crate::desktop::command::{SyncCommand, SyncStatus};
use crate::desktop::config::Config;
use crate::protocol::{ProfileDto, ProfileView};
use crate::text::{
    after_first, after_first_chars, byte_len, byte_prefix, chars_eq,
    chars_of, concat, cuttable, opt_string, prefix_bytes, string_of,
};

verus! {

/// `…`, the mark of a shortened id.
pub open spec fn ellipsis() -> Seq<char> {
    seq!['\u{2026}']
}

/// An id as the tray shows it: cut after its first 8 UTF-8 bytes and marked `…`
/// when it is longer.
pub open spec fn shortened(id: Seq<char>) -> Seq<char> {
    if byte_len(id) > 8 {
        byte_prefix(id, 8) + ellipsis()
    } else {
        id
    }
}

/// Shortens a device id for display. Cutting inside a character would panic, so
/// `requires` asks that byte 8 starts one when the id is longer.
pub fn shorten_id(id: &str) -> (r: String)
    requires
        cuttable(id@, 8),
    ensures
        r@ == shortened(id@),
{
    if id.as_bytes().len() > 8 {
        let mut p = prefix_bytes(id, 8);
        p.push('\u{2026}');
        p
    } else {
        id.to_owned()
    }
}

/// Whether a broadcast is ignored: it came from this device, auto-sync is off, or it
/// announces more bytes than auto-sync takes (a size read as `usize`).
pub open spec fn broadcast_skipped(
    device_id: Seq<char>,
    auto_sync_max_bytes: usize,
    auto_sync: bool,
    payload: ProfileView,
    source_device_id: Seq<char>,
) -> bool {
    ||| source_device_id == device_id
    ||| !auto_sync
    ||| (#[verifier::truncate] (payload.size as usize)) > auto_sync_max_bytes
}

/// Who a broadcast is shown as coming from: its device name, or the shortened id.
pub open spec fn origin_label(source_device_id: Seq<char>, source_device_name: Seq<char>) -> Seq<
    char,
> {
    if source_device_name.len() == 0 {
        shortened(source_device_id)
    } else {
        source_device_name
    }
}

/// Decides whether a broadcast from the server is applied; when it is, gives the
/// label of its origin.
pub fn broadcast_origin(
    config: &Config,
    auto_sync: bool,
    payload: &ProfileDto,
    source_device_id: &str,
    source_device_name: &str,
) -> (r: Option<String>)
    requires
        !broadcast_skipped(
            config.device_id@,
            config.auto_sync_max_bytes,
            auto_sync,
            payload@,
            source_device_id@,
        ) && source_device_name@.len() == 0 ==> cuttable(source_device_id@, 8),
    ensures
        r is None <==> broadcast_skipped(
            config.device_id@,
            config.auto_sync_max_bytes,
            auto_sync,
            payload@,
            source_device_id@,
        ),
        r matches Some(label) ==> label@ == origin_label(source_device_id@, source_device_name@),
{
    let a = chars_of(source_device_id);
    let b = chars_of(config.device_id.as_str());
    if chars_eq(&a, &b) {
        return None;
    }
    if !auto_sync {
        return None;
    }
    if #[verifier::truncate] (payload.size as usize) > config.auto_sync_max_bytes {
        return None;
    }
    if source_device_name.is_empty() {
        Some(shorten_id(source_device_id))
    } else {
        Some(source_device_name.to_owned())
    }
}

/// The backlog entries applied: all of them with auto-sync on, none with it off.
pub fn backlog_to_apply(auto_sync: bool, entries: Vec<ProfileDto>) -> (r: Vec<ProfileDto>)
    ensures
        r@ == if auto_sync {
            entries@
        } else {
            Seq::<ProfileDto>::empty()
        },
{
    if auto_sync {
        entries
    } else {
        Vec::new()
    }
}

/// Whether a local content is small enough to be pushed automatically.
pub fn fits_auto_sync(size: i64, config: &Config) -> (r: bool)
    ensures
        r == ((#[verifier::truncate] (size as usize)) <= config.auto_sync_max_bytes),
{
    #[verifier::truncate] (size as usize) <= config.auto_sync_max_bytes
}

/// Whether a local content goes inline in the WebSocket message: a text no larger
/// than `ws_inline_max_bytes`.
pub open spec fn sent_inline(c: ClipboardContent, ws_inline_max_bytes: usize) -> bool {
    c is Text && (#[verifier::truncate] (content_size(c) as usize)) <= ws_inline_max_bytes
}

/// The name under which the bytes of a content are uploaded: `<hash>.txt` for a text,
/// `<hash>.png` for an image, `<hash>_<name>` for a file.
pub open spec fn upload_name_for(c: ClipboardContent, hash: Seq<char>) -> Seq<char> {
    match c {
        ClipboardContent::Text(_) => hash + seq!['.', 't', 'x', 't'],
        ClipboardContent::Image { .. } => hash + seq!['.', 'p', 'n', 'g'],
        ClipboardContent::File { name, .. } => hash + seq!['_'] + name@,
    }
}

/// The profile announced for a local content.
pub open spec fn local_profile(c: ClipboardContent, ws_inline_max_bytes: usize) -> ProfileView {
    let h = content_hash(c);
    if sent_inline(c, ws_inline_max_bytes) {
        ProfileView {
            content_type: content_type_name(c),
            hash: h,
            text: match c {
                ClipboardContent::Text(t) => t@,
                _ => Seq::empty(),
            },
            has_data: false,
            data_name: Seq::empty(),
            size: content_size(c),
        }
    } else {
        ProfileView {
            content_type: content_type_name(c),
            hash: h,
            text: Seq::empty(),
            has_data: true,
            data_name: upload_name_for(c, h),
            size: content_size(c),
        }
    }
}

/// The upload that goes before the announcement, if any.
pub open spec fn local_upload_name(c: ClipboardContent, ws_inline_max_bytes: usize) -> Option<
    Seq<char>,
> {
    if sent_inline(c, ws_inline_max_bytes) {
        None
    } else {
        Some(upload_name_for(c, content_hash(c)))
    }
}

/// The announcement of a local content and, when its bytes travel over HTTP, the
/// name to upload them under (the content's bytes are the upload's body).
pub struct LocalUpload {
    pub profile: ProfileDto,
    pub upload_name: Option<String>,
}

/// Prepares the announcement of a local clipboard change.
pub fn local_upload(content: &ClipboardContent, config: &Config) -> (r: LocalUpload)
    ensures
        r.profile@ == local_profile(*content, config.ws_inline_max_bytes),
        r.profile.hash@ == content_hash(*content),
        r.profile.size == content_size(*content),
        opt_string(r.upload_name) == local_upload_name(*content, config.ws_inline_max_bytes),
{
    let hash = content.compute_hash();
    let size = content.size();
    let ct = String::from_str(content.content_type());
    match content {
        ClipboardContent::Text(t) => {
            if #[verifier::truncate] (size as usize) <= config.ws_inline_max_bytes {
                LocalUpload {
                    profile: ProfileDto {
                        content_type: ct,
                        hash,
                        text: t.clone(),
                        has_data: false,
                        data_name: String::new(),
                        size,
                    },
                    upload_name: None,
                }
            } else {
                let name = concat(hash.as_str(), ".txt");
                proof {
                    reveal_strlit(".txt");
                    assert(".txt"@ =~= seq!['.', 't', 'x', 't']);
                }
                LocalUpload {
                    profile: ProfileDto {
                        content_type: ct,
                        hash,
                        text: String::new(),
                        has_data: true,
                        data_name: name.clone(),
                        size,
                    },
                    upload_name: Some(name),
                }
            }
        },
        ClipboardContent::Image { .. } => {
            let name = concat(hash.as_str(), ".png");
            proof {
                reveal_strlit(".png");
                assert(".png"@ =~= seq!['.', 'p', 'n', 'g']);
            }
            LocalUpload {
                profile: ProfileDto {
                    content_type: ct,
                    hash,
                    text: String::new(),
                    has_data: true,
                    data_name: name.clone(),
                    size,
                },
                upload_name: Some(name),
            }
        },
        ClipboardContent::File { name, .. } => {
            let head = concat(hash.as_str(), "_");
            let data_name = concat(head.as_str(), name.as_str());
            proof {
                reveal_strlit("_");
                    assert("_"@ =~= seq!['_']);
            }
            LocalUpload {
                profile: ProfileDto {
                    content_type: ct,
                    hash,
                    text: String::new(),
                    has_data: true,
                    data_name: data_name.clone(),
                    size,
                },
                upload_name: Some(data_name),
            }
        },
    }
}

/// What a device does with an announced profile.
pub enum RemoteAction {
    /// Write the inline text.
    SetText(String),
    /// Download the text stored under this name, then write it.
    DownloadText(String),
    /// Download the PNG stored under this name, then write it as image and file.
    DownloadImage(String),
    /// Download the file stored under `data_name` and offer it as `file_name`.
    DownloadFile { data_name: String, file_name: String },
    /// A content type this client does not know.
    Unknown,
}

/// The mathematical content of a `RemoteAction`.
pub enum RemoteStep {
    SetText(Seq<char>),
    DownloadText(Seq<char>),
    DownloadImage(Seq<char>),
    DownloadFile(Seq<char>, Seq<char>),
    Unknown,
}

impl View for RemoteAction {
    type V = RemoteStep;

    open spec fn view(&self) -> RemoteStep {
        match self {
            RemoteAction::SetText(t) => RemoteStep::SetText(t@),
            RemoteAction::DownloadText(n) => RemoteStep::DownloadText(n@),
            RemoteAction::DownloadImage(n) => RemoteStep::DownloadImage(n@),
            RemoteAction::DownloadFile { data_name, file_name } => RemoteStep::DownloadFile(
                data_name@,
                file_name@,
            ),
            RemoteAction::Unknown => RemoteStep::Unknown,
        }
    }
}

/// What to do with a profile by its type: a text inline or by download, an image or
/// a file by download (a file keeps the part of its data name after the first `_`).
pub open spec fn remote_step(p: ProfileView) -> RemoteStep {
    if p.content_type == seq!['T', 'e', 'x', 't'] {
        if p.has_data {
            RemoteStep::DownloadText(p.data_name)
        } else {
            RemoteStep::SetText(p.text)
        }
    } else if p.content_type == seq!['I', 'm', 'a', 'g', 'e'] {
        RemoteStep::DownloadImage(p.data_name)
    } else if p.content_type == seq!['F', 'i', 'l', 'e'] {
        RemoteStep::DownloadFile(p.data_name, after_first(p.data_name, '_'))
    } else {
        RemoteStep::Unknown
    }
}

/// Decides how a profile from another device is written to this clipboard.
pub fn remote_action(payload: &ProfileDto) -> (r: RemoteAction)
    ensures
        r@ == remote_step(payload@),
{
    let ct = chars_of(payload.content_type.as_str());
    if chars_eq(&ct, &vec!['T', 'e', 'x', 't']) {
        if payload.has_data {
            RemoteAction::DownloadText(payload.data_name.clone())
        } else {
            RemoteAction::SetText(payload.text.clone())
        }
    } else if chars_eq(&ct, &vec!['I', 'm', 'a', 'g', 'e']) {
        RemoteAction::DownloadImage(payload.data_name.clone())
    } else if chars_eq(&ct, &vec!['F', 'i', 'l', 'e']) {
        let dn = chars_of(payload.data_name.as_str());
        let f = after_first_chars(&dn, '_');
        RemoteAction::DownloadFile { data_name: payload.data_name.clone(), file_name: string_of(&f) }
    } else {
        RemoteAction::Unknown
    }
}

/// The text written for downloaded text bytes (invalid UTF-8 replaced, as
/// `String::from_utf8_lossy` does).
pub fn remote_text(data: &[u8]) -> (c: ClipboardContent)
    ensures
        c matches ClipboardContent::Text(t) && t@ == utf8_lossy(data@),
{
    ClipboardContent::Text(utf8_lossy_string(data))
}

/// The file name under which a received image is offered: the first 8 bytes of its
/// hash and `.png`. Cutting inside a character would panic, so `requires` asks for
/// at least 8 bytes with byte 8 starting a character.
pub fn image_file_name(hash: &str) -> (r: String)
    requires
        byte_len(hash@) >= 8,
        cuttable(hash@, 8),
    ensures
        r@ == byte_prefix(hash@, 8) + seq!['.', 'p', 'n', 'g'],
{
    proof {
        vstd::utf8::encode_utf8_valid_utf8(hash@);
        vstd::utf8::is_char_boundary_start_end_of_seq(vstd::utf8::encode_utf8(hash@));
        reveal_strlit(".png");
        assert(".png"@ =~= seq!['.', 'p', 'n', 'g']);
    }
    let p = prefix_bytes(hash, 8);
    concat(p.as_str(), ".png")
}

/// Decodes a received image to RGBA8 pixels, width and height.
pub fn decode_png_quick(data: &[u8]) -> (r: Option<(Vec<u8>, usize, usize)>)
    ensures
        match r {
            Some((v, w, h)) => image_decode(data@) == Some((v@, w, h)) && v@.len() == w * h * 4,
            None => image_decode(data@) is None,
        },
{
    decode_png(data)
}

/// Whether a fetched latest profile holds anything to write.
pub fn should_apply_latest(latest: &LatestProfileResponse) -> (r: bool)
    ensures
        r == (latest.payload.hash@.len() > 0),
{
    !latest.payload.hash.as_str().is_empty()
}

/// The status sent while connecting or after a change of auto-sync: no sync time and
/// no origin.
pub fn plain_status(connected: bool, auto_sync: bool) -> (s: SyncStatus)
    ensures
        s.connected == connected,
        s.auto_sync == auto_sync,
        s.last_sync_time@.len() == 0,
        s.last_sync_from@.len() == 0,
{
    SyncStatus {
        connected,
        auto_sync,
        last_sync_time: String::new(),
        last_sync_from: String::new(),
    }
}

/// The status after a broadcast was applied.
pub fn received_status(auto_sync: bool, time: String, from: String) -> (s: SyncStatus)
    ensures
        s.connected,
        s.auto_sync == auto_sync,
        s.last_sync_time == time,
        s.last_sync_from == from,
{
    SyncStatus { connected: true, auto_sync, last_sync_time: time, last_sync_from: from }
}

/// The status after a manual download: the profile's time and shortened origin.
pub fn download_status(connected: bool, auto_sync: bool, latest: &LatestProfileResponse) -> (s:
    SyncStatus)
    requires
        cuttable(latest.source_device_id@, 8),
    ensures
        s.connected == connected,
        s.auto_sync == auto_sync,
        s.last_sync_time@ == latest.created_at@,
        s.last_sync_from@ == shortened(latest.source_device_id@),
{
    SyncStatus {
        connected,
        auto_sync,
        last_sync_time: latest.created_at.clone(),
        last_sync_from: shorten_id(latest.source_device_id.as_str()),
    }
}

/// Flips auto-sync and gives the status that reports it.
pub fn toggle_auto_sync(connected: bool, auto_sync: &mut bool) -> (s: SyncStatus)
    ensures
        *final(auto_sync) == !*old(auto_sync),
        s.connected == connected,
        s.auto_sync == *final(auto_sync),
        s.last_sync_time@.len() == 0,
        s.last_sync_from@.len() == 0,
{
    *auto_sync = !*auto_sync;
    plain_status(connected, *auto_sync)
}

proof fn lemma_hex_lower_no_underscore(b: Seq<u8>)
    ensures
        !hex_lower(b).contains('_'),
    decreases b.len(),
{
    if b.len() > 0 {
        lemma_hex_lower_no_underscore(b.drop_first());
        let h = hex_lower(b);
        let head = seq![hex_digit(b[0] / 16), hex_digit(b[0] % 16)];
        let tail = hex_lower(b.drop_first());
        assert(h == head + tail);
        if h.contains('_') {
            let i = choose|i: int| 0 <= i < h.len() && h[i] == '_';
            if i >= 2 {
                assert(tail[i - 2] == '_');
            } else {
                let v: u8 = if i == 0 { b[0] / 16 } else { b[0] % 16 };
                assert(h[i] == hex_digit(v));
                assert(v < 16);
                if v < 10 {
                    assert(((v + 48) as u8) as char != '_');
                } else {
                    assert(((v + 87) as u8) as char != '_');
                }
            }
        }
    }
}

/// A text small enough to travel inline is written on the receiving device as the
/// very text that was copied.
pub proof fn lemma_inline_text_arrives(t: String, ws_inline_max_bytes: usize)
    requires
        sent_inline(ClipboardContent::Text(t), ws_inline_max_bytes),
    ensures
        remote_step(local_profile(ClipboardContent::Text(t), ws_inline_max_bytes))
            == RemoteStep::SetText(t@),
{
}

/// A content whose bytes travel over HTTP is fetched on the receiving device under
/// the name it was uploaded under; a file keeps its own name.
pub proof fn lemma_uploaded_content_is_fetched(c: ClipboardContent, ws_inline_max_bytes: usize)
    requires
        !sent_inline(c, ws_inline_max_bytes),
    ensures
        ({
            let n = local_upload_name(c, ws_inline_max_bytes)->0;
            remote_step(local_profile(c, ws_inline_max_bytes)) == match c {
                ClipboardContent::Text(_) => RemoteStep::DownloadText(n),
                ClipboardContent::Image { .. } => RemoteStep::DownloadImage(n),
                ClipboardContent::File { name, .. } => RemoteStep::DownloadFile(n, name@),
            }
        }),
{
    if let ClipboardContent::File { name, .. } = c {
        lemma_hex_lower_no_underscore(crate::codec::sha256(
            crate::desktop::clipboard::content_bytes(c),
        ));
        crate::text::lemma_after_first_joined(content_hash(c), name@, '_');
    }
}

/// What one tick of the synchronisation loop does next.
#[derive(Debug, Clone, Copy, PartialEq, Eq, Structural)]
pub enum TickAction {
    /// Carry out a queued command.
    Run(SyncCommand),
    /// Close the session with the server and stop.
    Close,
    /// Read the clipboard for an automatic push.
    ReadClipboard,
    /// Nothing more this tick.
    Wait,
}

/// The next step of a tick: queued commands come first (a shutdown closes the
/// session); with no command left, the clipboard is read when auto-sync is on.
pub fn tick_action(pending: Option<SyncCommand>, auto_sync: bool) -> (a: TickAction)
    ensures
        match pending {
            Some(SyncCommand::Shutdown) => a == TickAction::Close,
            Some(c) => a == TickAction::Run(c),
            None => a == if auto_sync {
                TickAction::ReadClipboard
            } else {
                TickAction::Wait
            },
        },
{
    match pending {
        Some(SyncCommand::Shutdown) => TickAction::Close,
        Some(c) => TickAction::Run(c),
        None => if auto_sync {
            TickAction::ReadClipboard
        } else {
            TickAction::Wait
        },
    }
}

/// The outcome of an automatic clipboard read.
pub enum AutoRead {
    /// A new content to push; the upload flag is raised only while it is pushed.
    Push(ClipboardContent),
    /// A new content too large to push automatically, with its size.
    TooLarge(i64),
    /// Nothing new.
    Unchanged,
}

/// Checks a clipboard read for an automatic push: a new content is remembered, and
/// pushed when it is no larger than `auto_sync_max_bytes`.
pub fn auto_read(monitor: &mut ClipboardMonitor, read: Option<ClipboardContent>, config: &Config) -> (r:
    AutoRead)
    ensures
        final(monitor).last_hash_view() == check_read(old(monitor).last_hash_view(), read).0,
        match check_read(old(monitor).last_hash_view(), read).1 {
            None => r is Unchanged,
            Some(c) => if (#[verifier::truncate] (content_size(c) as usize))
                <= config.auto_sync_max_bytes {
                r == AutoRead::Push(c)
            } else {
                r == AutoRead::TooLarge(content_size(c))
            },
        },
{
    match monitor.read_and_check(read) {
        Some(c) => {
            let size = c.size();
            if fits_auto_sync(size, config) {
                AutoRead::Push(c)
            } else {
                AutoRead::TooLarge(size)
            }
        },
        None => AutoRead::Unchanged,
    }
}

/// The wait before reconnecting, in seconds, after `failures` attempts in a row that
/// did not reach an authenticated session: 3 s, doubled after each failure, at most
/// 60 s.
pub open spec fn reconnect_wait(failures: nat) -> u64
    decreases failures,
{
    if failures == 0 {
        3
    } else {
        let p = reconnect_wait((failures - 1) as nat);
        if p >= 30 {
            60
        } else {
            (2 * p) as u64
        }
    }
}

/// The wait grows from 3 s, doubling, and stays at 60 s once it gets there.
pub proof fn lemma_reconnect_wait_grows(failures: nat)
    ensures
        3 <= reconnect_wait(failures) <= reconnect_wait(failures + 1) <= 60,
        reconnect_wait(failures) < 30 ==> reconnect_wait(failures + 1) == 2 * reconnect_wait(
            failures,
        ),
        failures >= 5 ==> reconnect_wait(failures) == 60,
    decreases failures,
{
    if failures > 0 {
        lemma_reconnect_wait_grows((failures - 1) as nat);
    }
    if failures == 5 {
        reveal_with_fuel(reconnect_wait, 6);
    }
}

/// The wait before the next connection attempt.
pub fn reconnect_delay_secs(failures: u32) -> (r: u64)
    ensures
        r == reconnect_wait(failures as nat),
{
    if failures >= 5 {
        proof {
            lemma_reconnect_wait_grows(failures as nat);
        }
        return 60;
    }
    let mut w: u64 = 3;
    let mut i: u32 = 0;
    while i < failures
        invariant
            i <= failures,
            failures < 5,
            w == reconnect_wait(i as nat),
        decreases failures - i,
    {
        proof {
            lemma_reconnect_wait_grows(i as nat);
        }
        w = if w >= 30 {
            60
        } else {
            2 * w
        };
        i += 1;
    }
    w
}

/// A copied file reaches another device under its own name: the device downloads it
/// by the name it was uploaded under and offers it with the file's name; written
/// there with the bytes that were uploaded, it has the hash of the original, and once
/// remembered it is not sent back when read again.
pub proof fn lemma_file_round_trip(c: ClipboardContent, ws_inline_max_bytes: usize, w: ClipboardContent)
    requires
        c is File,
        w is File,
        w->name@ == c->name@,
        w->bytes@ == c->bytes@,
    ensures
        remote_step(local_profile(c, ws_inline_max_bytes)) == RemoteStep::DownloadFile(
            local_upload_name(c, ws_inline_max_bytes)->0,
            w->name@,
        ),
        content_hash(w) == content_hash(c),
        check_read(Some(content_hash(w)), Some(w)).1 is None,
        check_read(Some(content_hash(w)), Some(w)).0 == Some(content_hash(c)),
{
    lemma_uploaded_content_is_fetched(c, ws_inline_max_bytes);
}

/// A broadcast is ignored exactly when it came from this device, auto-sync is off, or
/// it announces more bytes than auto-sync takes; its kind, whether its bytes travel
/// separately, its text and its names play no part.
pub proof fn lemma_broadcast_skipped_only_for_origin_switch_or_size(
    device_id: Seq<char>,
    auto_sync_max_bytes: usize,
    auto_sync: bool,
    payload: ProfileView,
    other: ProfileView,
    source_device_id: Seq<char>,
)
    requires
        other.size == payload.size,
    ensures
        broadcast_skipped(device_id, auto_sync_max_bytes, auto_sync, payload, source_device_id) <==> (
        source_device_id == device_id || !auto_sync || (#[verifier::truncate] (payload.size as usize))
            > auto_sync_max_bytes),
        broadcast_skipped(device_id, auto_sync_max_bytes, auto_sync, payload, source_device_id)
            == broadcast_skipped(device_id, auto_sync_max_bytes, auto_sync, other, source_device_id),
        0 <= payload.size && payload.size <= auto_sync_max_bytes && auto_sync && source_device_id
            != device_id ==> !broadcast_skipped(
            device_id,
            auto_sync_max_bytes,
            auto_sync,
            payload,
            source_device_id,
        ),
{
}

/// The profile announced for a local content carries the content's own hash, kind
/// and size, whatever the content is and however it travels; contents with the same
/// bytes are announced with the same hash.
pub proof fn lemma_announcement_describes_the_content(c: ClipboardContent, d: ClipboardContent, ws_inline_max_bytes: usize)
    ensures
        local_profile(c, ws_inline_max_bytes).hash == hex_lower(
            crate::codec::sha256(crate::desktop::clipboard::content_bytes(c)),
        ),
        local_profile(c, ws_inline_max_bytes).content_type == content_type_name(c),
        local_profile(c, ws_inline_max_bytes).size == content_size(c),
        crate::desktop::clipboard::content_bytes(c) == crate::desktop::clipboard::content_bytes(d)
            ==> local_profile(c, ws_inline_max_bytes).hash == local_profile(d, ws_inline_max_bytes).hash,
{
}

/// An applied broadcast is shown as coming from the sending device's name when it has
/// one, and otherwise from its id, which is shown whole when it has at most 8 bytes
/// and otherwise as its first 8 bytes followed by `…`.
pub proof fn lemma_origin_is_name_or_id(source_device_id: Seq<char>, source_device_name: Seq<char>)
    ensures
        source_device_name.len() > 0 ==> origin_label(source_device_id, source_device_name)
            == source_device_name,
        source_device_name.len() == 0 && byte_len(source_device_id) <= 8 ==> origin_label(
            source_device_id,
            source_device_name,
        ) == source_device_id,
        source_device_name.len() == 0 && byte_len(source_device_id) > 8 ==> origin_label(
            source_device_id,
            source_device_name,
        ).last() == '\u{2026}',
{
    if source_device_name.len() == 0 && byte_len(source_device_id) > 8 {
        let s = byte_prefix(source_device_id, 8) + ellipsis();
        assert(s.last() == '\u{2026}');
    }
}

/// How a local content travels: a text within the inline limit goes in the message
/// itself, with nothing to upload; anything else is uploaded first under the name the
/// announcement gives, which begins with the content's hash.
pub proof fn lemma_announcement_and_upload_agree(c: ClipboardContent, ws_inline_max_bytes: usize)
    ensures
        local_profile(c, ws_inline_max_bytes).has_data <==> local_upload_name(c, ws_inline_max_bytes) is Some,
        local_profile(c, ws_inline_max_bytes).has_data ==> local_upload_name(c, ws_inline_max_bytes)
            == Some(local_profile(c, ws_inline_max_bytes).data_name)
            && local_profile(c, ws_inline_max_bytes).text.len() == 0
            && local_profile(c, ws_inline_max_bytes).data_name.take(content_hash(c).len() as int)
            == content_hash(c),
        c matches ClipboardContent::Text(t) ==> ((#[verifier::truncate] (content_size(c) as usize))
            <= ws_inline_max_bytes ==> !local_profile(c, ws_inline_max_bytes).has_data
            && local_profile(c, ws_inline_max_bytes).text == t@
            && local_profile(c, ws_inline_max_bytes).data_name.len() == 0),
        !(c is Text) ==> local_profile(c, ws_inline_max_bytes).has_data,
{
    let h = content_hash(c);
    match c {
        ClipboardContent::Text(_) => {
            assert((h + seq!['.', 't', 'x', 't']).take(h.len() as int) =~= h);
        },
        ClipboardContent::Image { .. } => {
            assert((h + seq!['.', 'p', 'n', 'g']).take(h.len() as int) =~= h);
        },
        ClipboardContent::File { name, .. } => {
            assert((h + seq!['_'] + name@).take(h.len() as int) =~= h);
        },
    }
}

} // verus!
