use vstd::prelude::*;

use crate::protocol::ProfileDto;
use crate::text::{chars_eq, chars_of, opt_string};

verus! {

/// A text column that may be missing or unreadable, read as empty in that case.
pub open spec fn text_or_empty(v: Option<String>) -> Seq<char> {
    match v {
        Some(s) => s@,
        None => Seq::empty(),
    }
}

/// A history row as a profile. `hash`, `content_type` and `size` must be readable
/// (the row is skipped otherwise); an unreadable `text` or `data_name` reads as empty
/// and an unreadable `has_data` as false.
pub fn profile_from_row(
    hash: String,
    content_type: String,
    text: Option<String>,
    data_name: Option<String>,
    size: i64,
    has_data: Option<bool>,
) -> (p: ProfileDto)
    ensures
        p.hash == hash,
        p.content_type == content_type,
        p.text@ == text_or_empty(text),
        p.data_name@ == text_or_empty(data_name),
        p.size == size,
        p.has_data == match has_data {
            Some(b) => b,
            None => false,
        },
{
    ProfileDto {
        hash,
        content_type,
        text: match text {
            Some(t) => t,
            None => String::new(),
        },
        has_data: match has_data {
            Some(b) => b,
            None => false,
        },
        data_name: match data_name {
            Some(d) => d,
            None => String::new(),
        },
        size,
    }
}

/// The latest profile with the device that sent it and when; an unreadable device or
/// time reads as empty.
pub fn latest_from_row(profile: ProfileDto, device_id: Option<String>, created_at: Option<String>) -> (r: (
    ProfileDto,
    String,
    String,
))
    ensures
        r.0 == profile,
        r.1@ == text_or_empty(device_id),
        r.2@ == text_or_empty(created_at),
{
    (
        profile,
        match device_id {
            Some(d) => d,
            None => String::new(),
        },
        match created_at {
            Some(c) => c,
            None => String::new(),
        },
    )
}

/// A device's registered name: none when the device is unknown or its name is empty.
pub fn device_name_from_row(name: Option<String>) -> (r: Option<String>)
    ensures
        opt_string(r) == match name {
            Some(n) => if n@.len() == 0 {
                None
            } else {
                Some(n@)
            },
            None => None,
        },
{
    match name {
        Some(n) => if n.as_str().is_empty() {
            None
        } else {
            Some(n)
        },
        None => None,
    }
}

/// The name to register for a device: the one it sent, or empty.
pub fn registered_name(name: Option<String>) -> (r: String)
    ensures
        r@ == text_or_empty(name),
{
    match name {
        Some(n) => n,
        None => String::new(),
    }
}

/// The name a device is recorded under when it registers: the name it sent, except
/// that an empty name leaves the one already on record.
pub open spec fn kept_name(stored: Option<Seq<char>>, sent: Seq<char>) -> Seq<char> {
    match stored {
        Some(old) => if sent.len() == 0 {
            old
        } else {
            sent
        },
        None => sent,
    }
}

/// The name to record for a registering device, given the one on record (if the device
/// is known) and the one it sent.
pub fn name_to_record(stored: Option<String>, sent: String) -> (r: String)
    ensures
        r@ == kept_name(opt_string(stored), sent@),
{
    match stored {
        Some(old) => if sent.as_str().is_empty() {
            old
        } else {
            sent
        },
        None => sent,
    }
}

/// Whether text `a` sorts before text `b` from position `i` on, comparing characters
/// (which orders UTF-8 text as its bytes do, as SQLite compares text).
pub open spec fn text_before_from(a: Seq<char>, b: Seq<char>, i: int) -> bool
    decreases a.len() - i,
{
    if i < 0 || i >= a.len() {
        0 <= i < b.len()
    } else if i >= b.len() {
        false
    } else if a[i] != b[i] {
        (a[i] as u32) < (b[i] as u32)
    } else {
        text_before_from(a, b, i + 1)
    }
}

/// Whether text `a` sorts strictly before text `b`.
pub open spec fn text_before(a: Seq<char>, b: Seq<char>) -> bool {
    text_before_from(a, b, 0)
}

fn chars_before(a: &Vec<char>, b: &Vec<char>) -> (r: bool)
    ensures
        r == text_before(a@, b@),
{
    let mut i: usize = 0;
    while i < a.len() && i < b.len() && a[i] == b[i]
        invariant
            i <= a.len(),
            i <= b.len(),
            text_before(a@, b@) == text_before_from(a@, b@, i as int),
        decreases a.len() - i,
    {
        i += 1;
    }
    if i < a.len() && i < b.len() {
        (a[i] as u32) < (b[i] as u32)
    } else {
        i >= a.len() && i < b.len()
    }
}

/// A row of the clipboard history: when and by which device it was saved, and its
/// profile.
pub struct HistoryRow {
    pub created_at: String,
    pub device_id: String,
    pub profile: ProfileDto,
}

/// Whether a history row belongs to the backlog of `device`: saved after the device
/// was last seen, by another device.
pub open spec fn in_backlog(last_seen: Seq<char>, device: Seq<char>, row: HistoryRow) -> bool {
    text_before(last_seen, row.created_at@) && row.device_id@ != device
}

/// The backlog of `device` among `rows` (in the order they were saved): the profiles
/// of the rows that belong to it, in that order.
pub open spec fn backlog_of(rows: Seq<HistoryRow>, last_seen: Seq<char>, device: Seq<char>) -> Seq<
    ProfileDto,
>
    decreases rows.len(),
{
    if rows.len() == 0 {
        Seq::empty()
    } else {
        let prev = backlog_of(rows.drop_last(), last_seen, device);
        if in_backlog(last_seen, device, rows.last()) {
            prev.push(rows.last().profile)
        } else {
            prev
        }
    }
}

/// The profiles that a reconnecting device missed: those saved by other devices
/// after it was last seen, in the order they were saved; none for a device never
/// seen before.
pub fn backlog_entries(rows: &Vec<HistoryRow>, last_seen: Option<String>, device_id: &str) -> (r: Vec<
    ProfileDto,
>)
    ensures
        match last_seen {
            Some(l) => r@ == backlog_of(rows@, l@, device_id@),
            None => r@.len() == 0,
        },
{
    let l = match last_seen {
        Some(l) => l,
        None => return Vec::new(),
    };
    let lc = chars_of(l.as_str());
    let me = chars_of(device_id);
    let mut r: Vec<ProfileDto> = Vec::new();
    let mut i: usize = 0;
    while i < rows.len()
        invariant
            i <= rows.len(),
            lc@ == l@,
            me@ == device_id@,
            r@ == backlog_of(rows@.take(i as int), l@, device_id@),
        decreases rows.len() - i,
    {
        let row = &rows[i];
        assert(rows@.take(i + 1).drop_last() =~= rows@.take(i as int));
        assert(rows@.take(i + 1).last() == rows@[i as int]);
        let after = chars_before(&lc, &chars_of(row.created_at.as_str()));
        let other = !chars_eq(&chars_of(row.device_id.as_str()), &me);
        if after && other {
            r.push(row.profile.duplicate());
        }
        i += 1;
    }
    assert(rows@.take(rows.len() as int) =~= rows@);
    r
}

/// Whether `p` is the profile of a row that belongs to the backlog of `device`.
pub open spec fn missed_profile(rows: Seq<HistoryRow>, last_seen: Seq<char>, device: Seq<char>, p: ProfileDto) -> bool {
    exists|k: int| 0 <= k < rows.len() && #[trigger] in_backlog(last_seen, device, rows[k]) && rows[k].profile == p
}

/// Every profile in a backlog comes from a row of another device saved after the
/// device was last seen, and the backlog is no longer than the history.
pub proof fn lemma_backlog_only_missed_entries(rows: Seq<HistoryRow>, last_seen: Seq<char>, device: Seq<char>)
    ensures
        backlog_of(rows, last_seen, device).len() <= rows.len(),
        forall|j: int|
            0 <= j < backlog_of(rows, last_seen, device).len() ==> missed_profile(
                rows,
                last_seen,
                device,
                #[trigger] backlog_of(rows, last_seen, device)[j],
            ),
    decreases rows.len(),
{
    if rows.len() > 0 {
        let pr = rows.drop_last();
        lemma_backlog_only_missed_entries(pr, last_seen, device);
        let b = backlog_of(rows, last_seen, device);
        let bp = backlog_of(pr, last_seen, device);
        assert forall|j: int| 0 <= j < b.len() implies missed_profile(rows, last_seen, device, #[trigger] b[j]) by {
            if j < bp.len() {
                assert(b[j] == bp[j]);
                assert(missed_profile(pr, last_seen, device, bp[j]));
                let k = choose|k: int|
                    0 <= k < pr.len() && #[trigger] in_backlog(last_seen, device, pr[k]) && pr[k].profile == bp[j];
                assert(rows[k] == pr[k]);
                assert(in_backlog(last_seen, device, rows[k]) && rows[k].profile == b[j]);
            } else {
                let k = rows.len() - 1;
                assert(rows[k] == rows.last());
                assert(in_backlog(last_seen, device, rows.last()));
                assert(b == bp.push(rows.last().profile));
                assert(b[j] == rows.last().profile);
                assert(in_backlog(last_seen, device, rows[k]) && rows[k].profile == b[j]);
            }
        }
    }
}

/// The backlog is exactly the profiles of the history rows saved by another device
/// strictly after the device was last seen, all of them and in the order they were
/// saved, whatever the profiles hold.
pub proof fn lemma_backlog_is_every_missed_row(rows: Seq<HistoryRow>, last_seen: Seq<char>, device: Seq<char>)
    ensures
        backlog_of(rows, last_seen, device) == rows.filter(
            |r: HistoryRow| text_before(last_seen, r.created_at@) && r.device_id@ != device,
        ).map_values(|r: HistoryRow| r.profile),
    decreases rows.len(),
{
    reveal(Seq::filter);
    if rows.len() > 0 {
        lemma_backlog_is_every_missed_row(rows.drop_last(), last_seen, device);
        let pred = |r: HistoryRow| text_before(last_seen, r.created_at@) && r.device_id@ != device;
        let f = rows.drop_last().filter(pred);
        if pred(rows.last()) {
            assert(f.push(rows.last()).map_values(|r: HistoryRow| r.profile) =~= f.map_values(
                |r: HistoryRow| r.profile,
            ).push(rows.last().profile));
        }
    }
}

/// No missed row is left out: every row saved by another device strictly after the
/// device was last seen has its profile in the backlog.
pub proof fn lemma_backlog_is_complete(rows: Seq<HistoryRow>, last_seen: Seq<char>, device: Seq<char>, k: int)
    requires
        0 <= k < rows.len(),
        text_before(last_seen, rows[k].created_at@),
        rows[k].device_id@ != device,
    ensures
        backlog_of(rows, last_seen, device).contains(rows[k].profile),
{
    lemma_backlog_is_every_missed_row(rows, last_seen, device);
    let pred = |r: HistoryRow| text_before(last_seen, r.created_at@) && r.device_id@ != device;
    let f = rows.filter(pred);
    rows.lemma_filter_contains(pred, k);
    let j = choose|j: int| 0 <= j < f.len() && f[j] == rows[k];
    assert(f.map_values(|r: HistoryRow| r.profile)[j] == rows[k].profile);
}

proof fn lemma_text_before_from_facts(a: Seq<char>, b: Seq<char>, i: int)
    requires
        0 <= i,
        a.take(i) == b.take(i) || i == 0,
        i <= a.len(),
        i <= b.len(),
    ensures
        !text_before_from(a, a, i),
        text_before_from(a, b, i) ==> !text_before_from(b, a, i),
        (a.len() < b.len() && b.take(a.len() as int) == a) ==> text_before_from(a, b, i),
    decreases a.len() - i,
{
    if i < a.len() && i < b.len() {
        if a[i] == b[i] {
            assert(a.take(i + 1) =~= a.take(i).push(a[i]));
            assert(b.take(i + 1) =~= b.take(i).push(b[i]));
            if i > 0 {
                assert(a.take(i + 1) == b.take(i + 1));
            } else {
                assert(a.take(1) =~= b.take(1));
            }
            lemma_text_before_from_facts(a, b, i + 1);
        } else if a.len() < b.len() && b.take(a.len() as int) == a {
            assert(b.take(a.len() as int)[i] == b[i]);
        }
    } else if i < a.len() {
        lemma_text_before_from_facts(a, a, i + 1);
    }
    if i < a.len() {
        assert(a.take(i + 1) =~= a.take(i).push(a[i]));
        lemma_self_not_before(a, i);
    }
}

proof fn lemma_self_not_before(a: Seq<char>, i: int)
    requires
        0 <= i,
    ensures
        !text_before_from(a, a, i),
    decreases a.len() - i,
{
    if 0 <= i < a.len() {
        lemma_self_not_before(a, i + 1);
    }
}

/// "Saved after" is a strict order on texts: no text sorts before itself, of two
/// texts at most one sorts before the other, a proper prefix sorts before the longer
/// text, and otherwise the first differing character decides.
pub proof fn lemma_text_before_is_strict(a: Seq<char>, b: Seq<char>, k: int)
    ensures
        !text_before(a, a),
        text_before(a, b) ==> !text_before(b, a),
        (a.len() < b.len() && b.take(a.len() as int) == a) ==> text_before(a, b),
        (0 <= k < a.len() && k < b.len() && a.take(k) == b.take(k) && a[k] != b[k]) ==> (text_before(
            a,
            b,
        ) <==> (a[k] as u32) < (b[k] as u32)),
{
    lemma_text_before_from_facts(a, b, 0);
    if 0 <= k < a.len() && k < b.len() && a.take(k) == b.take(k) && a[k] != b[k] {
        lemma_first_difference_decides(a, b, 0, k);
    }
}

proof fn lemma_first_difference_decides(a: Seq<char>, b: Seq<char>, i: int, k: int)
    requires
        0 <= i <= k,
        k < a.len(),
        k < b.len(),
        a.take(k) == b.take(k),
        a[k] != b[k],
    ensures
        text_before_from(a, b, i) <==> (a[k] as u32) < (b[k] as u32),
    decreases k - i,
{
    if i < k {
        assert(a[i] == a.take(k)[i] && b[i] == b.take(k)[i]);
        lemma_first_difference_decides(a, b, i + 1, k);
    }
}

} // verus!
