use vstd::prelude::*;

use crate::protocol::{ProfileDto, ProfileView};
use crate::text::{
    contains_char, chars_eq, chars_of, opt_string, replace_all, replace_all_chars, split_chars, split_on,
    string_of,
};

verus! {

/// The device id under which profiles stored through the HTTP API are recorded.
pub const HTTP_API_DEVICE_ID: &'static str = "http-api";

/// A requested file name made harmless by the plain rule: every `..` removed, then
/// every `/` and every `\` replaced by `_`.
pub open spec fn plain_file_name(name: Seq<char>) -> Seq<char> {
    replace_all(
        replace_all(replace_all(name, seq!['.', '.'], Seq::empty()), seq!['/'], seq!['_']),
        seq!['\\'],
        seq!['_'],
    )
}

/// Whether `s` has two dots in a row.
pub open spec fn has_double_dot(s: Seq<char>) -> bool {
    exists|i: int| 0 <= i < s.len() - 1 && #[trigger] s[i] == '.' && s[i + 1] == '.'
}

proof fn lemma_replace_char(s: Seq<char>, c: char, d: char)
    ensures
        replace_all(s, seq![c], seq![d]).len() == s.len(),
        forall|i: int|
            0 <= i < s.len() ==> #[trigger] replace_all(s, seq![c], seq![d])[i] == if s[i] == c {
                d
            } else {
                s[i]
            },
    decreases s.len(),
{
    if s.len() > 0 {
        lemma_replace_char(s.skip(1), c, d);
        let r = replace_all(s, seq![c], seq![d]);
        let t = replace_all(s.skip(1), seq![c], seq![d]);
        if s.take(1) == seq![c] {
            assert(s[0] == c) by {
                assert(s.take(1)[0] == s[0]);
            }
            assert(r == seq![d] + t);
        } else {
            assert(s[0] != c) by {
                if s[0] == c {
                    assert(s.take(1) =~= seq![c]);
                }
            }
            assert(r == seq![s[0]] + t);
        }
        assert forall|i: int| 0 <= i < s.len() implies #[trigger] r[i] == if s[i] == c {
            d
        } else {
            s[i]
        } by {
            if i > 0 {
                assert(r[i] == t[i - 1]);
                assert(s.skip(1)[i - 1] == s[i]);
            }
        }
    }
}

proof fn lemma_no_double_dot_after_removal(s: Seq<char>)
    ensures
        !has_double_dot(replace_all(s, seq!['.', '.'], Seq::empty())),
        s.len() > 0 && s[0] != '.' ==> replace_all(s, seq!['.', '.'], Seq::empty()).len() > 0
            && replace_all(s, seq!['.', '.'], Seq::empty())[0] == s[0],
    decreases s.len(),
{
    let dd = seq!['.', '.'];
    let r = replace_all(s, dd, Seq::empty());
    if s.len() < 2 {
        assert(r == s);
    } else if s.take(2) == dd {
        lemma_no_double_dot_after_removal(s.skip(2));
        assert(r == Seq::<char>::empty() + replace_all(s.skip(2), dd, Seq::empty()));
        assert(r =~= replace_all(s.skip(2), dd, Seq::empty()));
        assert(s[0] == '.') by {
            assert(s.take(2)[0] == s[0]);
        }
    } else {
        let t = replace_all(s.skip(1), dd, Seq::empty());
        lemma_no_double_dot_after_removal(s.skip(1));
        assert(r == seq![s[0]] + t);
        if has_double_dot(r) {
            let i = choose|i: int| 0 <= i < r.len() - 1 && #[trigger] r[i] == '.' && r[i + 1] == '.';
            if i > 0 {
                assert(t[i - 1] == '.' && t[i] == '.');
                assert(has_double_dot(t));
            } else {
                assert(s[0] == '.' && t[0] == '.');
                assert(s[1] != '.') by {
                    if s[1] == '.' {
                        assert(s.take(2) =~= dd);
                    }
                }
                assert(s.skip(1)[0] == s[1]);
            }
        }
    }
}

/// A name made harmless by the plain rule holds no `/`, no `\` and no two dots in
/// a row, so it cannot leave the files directory.
pub proof fn lemma_plain_file_name_is_harmless(name: Seq<char>)
    ensures
        !plain_file_name(name).contains('/'),
        !plain_file_name(name).contains('\\'),
        !has_double_dot(plain_file_name(name)),
{
    let r1 = replace_all(name, seq!['.', '.'], Seq::empty());
    let r2 = replace_all(r1, seq!['/'], seq!['_']);
    let r3 = replace_all(r2, seq!['\\'], seq!['_']);
    lemma_no_double_dot_after_removal(name);
    lemma_replace_char(r1, '/', '_');
    lemma_replace_char(r2, '\\', '_');
    assert(plain_file_name(name) == r3);
    if r3.contains('/') {
        let i = choose|i: int| 0 <= i < r3.len() && r3[i] == '/';
        assert(r2[i] == r3[i]);
    }
    if r3.contains('\\') {
        let i = choose|i: int| 0 <= i < r3.len() && r3[i] == '\\';
        assert(r2[i] != '\\');
    }
    if has_double_dot(r3) {
        let i = choose|i: int| 0 <= i < r3.len() - 1 && #[trigger] r3[i] == '.' && r3[i + 1] == '.';
        assert(r2[i] == '.' && r2[i + 1] == '.');
        assert(r1[i] == '.' && r1[i + 1] == '.');
        assert(has_double_dot(r1));
    }
}

/// Sanitises a requested file name by the plain rule.
pub fn sanitize_file_name(name: &str) -> (r: String)
    ensures
        r@ == plain_file_name(name@),
{
    let cs = chars_of(name);
    let dots = vec!['.', '.'];
    let slash = vec!['/'];
    let backslash = vec!['\\'];
    let underscore = vec!['_'];
    let nothing: Vec<char> = Vec::new();
    assert(dots@ =~= seq!['.', '.']);
    assert(slash@ =~= seq!['/']);
    assert(backslash@ =~= seq!['\\']);
    assert(underscore@ =~= seq!['_']);
    assert(nothing@ =~= Seq::<char>::empty());
    let a = replace_all_chars(&cs, &dots, &nothing);
    let b = replace_all_chars(&a, &slash, &underscore);
    let c = replace_all_chars(&b, &backslash, &underscore);
    string_of(&c)
}

/// `c` with ASCII small letters made capital.
pub open spec fn ascii_upper(c: char) -> char {
    if 'a' <= c && c <= 'z' {
        (((c as u32) - 32) as u8) as char
    } else {
        c
    }
}

/// Whether an upper-cased name is the reserved device name `r`, alone or followed by
/// an extension (`r` and then a `.`).
pub open spec fn reserved_match(upper: Seq<char>, r: Seq<char>) -> bool {
    ||| upper == r
    ||| (upper.len() > r.len() && upper.take(r.len() as int) == r && upper[r.len() as int] == '.')
}

/// Whether an upper-cased name is a reserved Windows device name (`CON`, `PRN`, `AUX`,
/// `NUL`, `COM1`..`COM9`, `LPT1`..`LPT9`), alone or before an extension.
pub open spec fn is_reserved(upper: Seq<char>) -> bool {
    ||| reserved_match(upper, seq!['C', 'O', 'N'])
    ||| reserved_match(upper, seq!['P', 'R', 'N'])
    ||| reserved_match(upper, seq!['A', 'U', 'X'])
    ||| reserved_match(upper, seq!['N', 'U', 'L'])
    ||| reserved_match(upper, seq!['C', 'O', 'M', '1'])
    ||| reserved_match(upper, seq!['C', 'O', 'M', '2'])
    ||| reserved_match(upper, seq!['C', 'O', 'M', '3'])
    ||| reserved_match(upper, seq!['C', 'O', 'M', '4'])
    ||| reserved_match(upper, seq!['C', 'O', 'M', '5'])
    ||| reserved_match(upper, seq!['C', 'O', 'M', '6'])
    ||| reserved_match(upper, seq!['C', 'O', 'M', '7'])
    ||| reserved_match(upper, seq!['C', 'O', 'M', '8'])
    ||| reserved_match(upper, seq!['C', 'O', 'M', '9'])
    ||| reserved_match(upper, seq!['L', 'P', 'T', '1'])
    ||| reserved_match(upper, seq!['L', 'P', 'T', '2'])
    ||| reserved_match(upper, seq!['L', 'P', 'T', '3'])
    ||| reserved_match(upper, seq!['L', 'P', 'T', '4'])
    ||| reserved_match(upper, seq!['L', 'P', 'T', '5'])
    ||| reserved_match(upper, seq!['L', 'P', 'T', '6'])
    ||| reserved_match(upper, seq!['L', 'P', 'T', '7'])
    ||| reserved_match(upper, seq!['L', 'P', 'T', '8'])
    ||| reserved_match(upper, seq!['L', 'P', 'T', '9'])
}

fn reserved_match_chars(upper: &Vec<char>, r: &Vec<char>) -> (b: bool)
    ensures
        b == reserved_match(upper@, r@),
{
    if chars_eq(upper, r) {
        return true;
    }
    if upper.len() > r.len() && upper[r.len()] == '.' {
        let head = crate::text::slice_chars(upper, 0, r.len());
        assert(head@ =~= upper@.take(r@.len() as int));
        return chars_eq(&head, r);
    }
    false
}

fn is_reserved_upper(upper: &Vec<char>) -> (b: bool)
    ensures
        b == is_reserved(upper@),
{
    if reserved_match_chars(upper, &vec!['C', 'O', 'N']) {
        return true;
    }
    if reserved_match_chars(upper, &vec!['P', 'R', 'N']) {
        return true;
    }
    if reserved_match_chars(upper, &vec!['A', 'U', 'X']) {
        return true;
    }
    if reserved_match_chars(upper, &vec!['N', 'U', 'L']) {
        return true;
    }
    if reserved_match_chars(upper, &vec!['C', 'O', 'M', '1']) {
        return true;
    }
    if reserved_match_chars(upper, &vec!['C', 'O', 'M', '2']) {
        return true;
    }
    if reserved_match_chars(upper, &vec!['C', 'O', 'M', '3']) {
        return true;
    }
    if reserved_match_chars(upper, &vec!['C', 'O', 'M', '4']) {
        return true;
    }
    if reserved_match_chars(upper, &vec!['C', 'O', 'M', '5']) {
        return true;
    }
    if reserved_match_chars(upper, &vec!['C', 'O', 'M', '6']) {
        return true;
    }
    if reserved_match_chars(upper, &vec!['C', 'O', 'M', '7']) {
        return true;
    }
    if reserved_match_chars(upper, &vec!['C', 'O', 'M', '8']) {
        return true;
    }
    if reserved_match_chars(upper, &vec!['C', 'O', 'M', '9']) {
        return true;
    }
    if reserved_match_chars(upper, &vec!['L', 'P', 'T', '1']) {
        return true;
    }
    if reserved_match_chars(upper, &vec!['L', 'P', 'T', '2']) {
        return true;
    }
    if reserved_match_chars(upper, &vec!['L', 'P', 'T', '3']) {
        return true;
    }
    if reserved_match_chars(upper, &vec!['L', 'P', 'T', '4']) {
        return true;
    }
    if reserved_match_chars(upper, &vec!['L', 'P', 'T', '5']) {
        return true;
    }
    if reserved_match_chars(upper, &vec!['L', 'P', 'T', '6']) {
        return true;
    }
    if reserved_match_chars(upper, &vec!['L', 'P', 'T', '7']) {
        return true;
    }
    if reserved_match_chars(upper, &vec!['L', 'P', 'T', '8']) {
        return true;
    }
    if reserved_match_chars(upper, &vec!['L', 'P', 'T', '9']) {
        return true;
    }
    false
}

/// Joins a path piece to a directory with `/`, as `Path::join` does for a relative
/// piece: nothing is added to an empty directory or after a trailing `/`.
pub open spec fn path_join(dir: Seq<char>, piece: Seq<char>) -> Seq<char> {
    if dir.len() == 0 {
        piece
    } else if dir.last() == '/' {
        dir + piece
    } else {
        dir + seq!['/'] + piece
    }
}

fn path_join_chars(dir: &Vec<char>, piece: &Vec<char>) -> (r: Vec<char>)
    ensures
        r@ == path_join(dir@, piece@),
{
    let mut r: Vec<char> = Vec::new();
    let mut i: usize = 0;
    while i < dir.len()
        invariant
            i <= dir.len(),
            r@ == dir@.take(i as int),
        decreases dir.len() - i,
    {
        r.push(dir[i]);
        assert(dir@.take(i + 1) =~= dir@.take(i as int).push(dir@[i as int]));
        i += 1;
    }
    assert(dir@.take(dir.len() as int) =~= dir@);
    if dir.len() > 0 && dir[dir.len() - 1] != '/' {
        r.push('/');
    }
    let ghost r0 = r@;
    let mut j: usize = 0;
    while j < piece.len()
        invariant
            j <= piece.len(),
            r@ == r0 + piece@.take(j as int),
        decreases piece.len() - j,
    {
        r.push(piece[j]);
        assert(piece@.take(j + 1) =~= piece@.take(j as int).push(piece@[j as int]));
        j += 1;
    }
    assert(piece@.take(piece.len() as int) =~= piece@);
    assert(r@ =~= path_join(dir@, piece@));
    r
}

/// Whether a name is refused outright: empty, starting with a `.` (so `.` and `..`
/// too), holding `/`, `\` or a NUL, longer than 255 bytes, or a reserved device name
/// in any letter case, alone or before an extension.
pub open spec fn name_refused(name: Seq<char>) -> bool {
    ||| name.len() == 0
    ||| name[0] == '.'
    ||| name.contains('/')
    ||| name.contains('\\')
    ||| name.contains('\0')
    ||| crate::text::byte_len(name) > 255
    ||| is_reserved(name.map_values(|c: char| ascii_upper(c)))
}

/// The stored path of a file: `files/<name>` under the storage directory, refused
/// when the name is refused or the path holds a `..` component (`/`-separated).
pub open spec fn stored_path(name: Seq<char>, base: Seq<char>) -> Option<Seq<char>> {
    if name_refused(name) {
        None
    } else {
        let path = path_join(path_join(base, seq!['f', 'i', 'l', 'e', 's']), name);
        if split_on(path, '/').contains(seq!['.', '.']) {
            None
        } else {
            Some(path)
        }
    }
}

/// The path under which a requested file is stored, or `None` when the request is
/// refused. Upper-casing for the reserved names folds ASCII letters only; the reserved
/// names are ASCII and no other character upper-cases to a start of one of them, so
/// this refuses what Unicode upper-casing would.
pub fn sanitize_path(name: &str, base: &str) -> (r: Option<String>)
    ensures
        opt_string(r) == stored_path(name@, base@),
{
    let cs = chars_of(name);
    if cs.len() == 0 || cs[0] == '.'
        || contains_char(&cs, '/') || contains_char(&cs, '\\') || contains_char(&cs, '\0')
        || name.as_bytes().len() > 255 {
        return None;
    }
    let mut upper: Vec<char> = Vec::new();
    let mut i: usize = 0;
    while i < cs.len()
        invariant
            i <= cs.len(),
            cs@ == name@,
            upper@ == cs@.take(i as int).map_values(|c: char| ascii_upper(c)),
        decreases cs.len() - i,
    {
        let c = cs[i];
        let u = if 'a' <= c && c <= 'z' {
            let b = (c as u32 - 32) as u8;
            b as char
        } else {
            c
        };
        upper.push(u);
        assert(cs@.take(i + 1).map_values(|c: char| ascii_upper(c)) =~= cs@.take(i as int).map_values(
            |c: char| ascii_upper(c),
        ).push(ascii_upper(c)));
        i += 1;
    }
    assert(cs@.take(cs.len() as int) =~= cs@);
    if is_reserved_upper(&upper) {
        return None;
    }
    assert(!name_refused(name@));
    let files = vec!['f', 'i', 'l', 'e', 's'];
    assert(files@ =~= seq!['f', 'i', 'l', 'e', 's']);
    let dir = path_join_chars(&chars_of(base), &files);
    let path = path_join_chars(&dir, &cs);
    let parts = split_chars(&path, '/');
    let dots = vec!['.', '.'];
    assert(dots@ =~= seq!['.', '.']);
    let mut k: usize = 0;
    while k < parts.len()
        invariant
            k <= parts.len(),
            parts@.len() == split_on(path@, '/').len(),
            forall|j: int| 0 <= j < parts@.len() ==> #[trigger] parts@[j]@ == split_on(path@, '/')[j],
            dots@ == seq!['.', '.'],
            !name_refused(name@),
            path@ == path_join(path_join(base@, seq!['f', 'i', 'l', 'e', 's']), name@),
            forall|j: int| 0 <= j < k ==> split_on(path@, '/')[j] != seq!['.', '.'],
        decreases parts.len() - k,
    {
        if chars_eq(&parts[k], &dots) {
            assert(split_on(path@, '/')[k as int] == seq!['.', '.']);
            return None;
        }
        k += 1;
    }
    Some(string_of(&path))
}

/// The profile served by `GET /SyncClipboard.json` when none is stored: an empty text.
pub fn latest_or_default(latest: Option<ProfileDto>) -> (p: ProfileDto)
    ensures
        match latest {
            Some(l) => p == l,
            None => p@ == ProfileView {
                content_type: "Text"@,
                hash: Seq::empty(),
                text: Seq::empty(),
                has_data: false,
                data_name: Seq::empty(),
                size: 0,
            },
        },
{
    match latest {
        Some(l) => l,
        None => ProfileDto {
            content_type: String::from_str("Text"),
            hash: String::new(),
            text: String::new(),
            has_data: false,
            data_name: String::new(),
            size: 0,
        },
    }
}

/// An entirely empty profile.
pub open spec fn empty_profile() -> ProfileView {
    ProfileView {
        content_type: Seq::empty(),
        hash: Seq::empty(),
        text: Seq::empty(),
        has_data: false,
        data_name: Seq::empty(),
        size: 0,
    }
}

/// The profile with its origin served as the latest one, all empty when none is stored.
pub fn latest_with_source_or_default(latest: Option<(ProfileDto, String, String)>) -> (r: (
    ProfileDto,
    String,
    String,
))
    ensures
        match latest {
            Some(l) => r == l,
            None => r.0@ == empty_profile() && r.1@.len() == 0 && r.2@.len() == 0,
        },
{
    match latest {
        Some(l) => l,
        None => (
            ProfileDto {
                content_type: String::new(),
                hash: String::new(),
                text: String::new(),
                has_data: false,
                data_name: String::new(),
                size: 0,
            },
            String::new(),
            String::new(),
        ),
    }
}

/// A stored path is always `files/<name>` under the storage directory, and no
/// `/`-separated component of it is `..`.
pub proof fn lemma_stored_path_stays_inside(name: Seq<char>, base: Seq<char>)
    requires
        stored_path(name, base) is Some,
    ensures
        stored_path(name, base)->0 == path_join(path_join(base, seq!['f', 'i', 'l', 'e', 's']), name),
        !split_on(stored_path(name, base)->0, '/').contains(seq!['.', '.']),
        !name.contains('/') && !name.contains('\\') && name.len() > 0 && name[0] != '.',
        !name.contains('\0'),
        crate::text::byte_len(name) <= 255,
        !is_reserved(name.map_values(|c: char| ascii_upper(c))),
{
}

/// Every safe name is accepted, and stored as `files/<name>` under the storage
/// directory: a name that is not empty, does not start with `.`, holds no `/`, `\`
/// or NUL, has at most 255 bytes and is no reserved device name (in any letter case,
/// alone or before an extension) is refused only when the resulting path has a `..`
/// component (which only the storage directory can bring).
pub proof fn lemma_safe_names_are_accepted(name: Seq<char>, base: Seq<char>)
    requires
        name.len() > 0,
        name[0] != '.',
        !name.contains('/'),
        !name.contains('\\'),
        !name.contains('\0'),
        crate::text::byte_len(name) <= 255,
        !is_reserved(name.map_values(|c: char| ascii_upper(c))),
        !split_on(path_join(path_join(base, seq!['f', 'i', 'l', 'e', 's']), name), '/').contains(
            seq!['.', '.'],
        ),
    ensures
        stored_path(name, base) == Some(
            path_join(path_join(base, seq!['f', 'i', 'l', 'e', 's']), name),
        ),
{
}

/// A refused name is refused for one of the documented reasons and no other.
pub proof fn lemma_refusals_have_a_reason(name: Seq<char>, base: Seq<char>)
    requires
        stored_path(name, base) is None,
    ensures
        ({
        ||| name.len() == 0
        ||| name[0] == '.'
        ||| name.contains('/')
        ||| name.contains('\\')
        ||| name.contains('\0')
        ||| crate::text::byte_len(name) > 255
        ||| is_reserved(name.map_values(|c: char| ascii_upper(c)))
        ||| split_on(path_join(path_join(base, seq!['f', 'i', 'l', 'e', 's']), name), '/').contains(
            seq!['.', '.'],
        )
        }),
{
}

proof fn lemma_reserved_match_prefix(upper: Seq<char>, r: Seq<char>)
    requires
        r.len() == 3 || r.len() == 4,
        reserved_match(upper, r),
    ensures
        upper.len() >= 3,
        upper.take(3) == r.take(3),
        upper.len() == r.len() || upper[r.len() as int] == '.',
{
    if upper == r {
    } else {
        assert(upper.take(3) =~= upper.take(r.len() as int).take(3));
    }
}

/// Only the Windows device names are reserved: an upper-cased name that does not
/// begin with `CON`, `PRN`, `AUX`, `NUL`, `COM` or `LPT` is never reserved, and one
/// that does is reserved only alone or before an extension.
pub proof fn lemma_only_device_names_are_reserved(upper: Seq<char>)
    ensures
        (upper.len() < 3 || (upper.take(3) != seq!['C', 'O', 'N'] && upper.take(3) != seq!['P', 'R', 'N']
            && upper.take(3) != seq!['A', 'U', 'X'] && upper.take(3) != seq!['N', 'U', 'L']
            && upper.take(3) != seq!['C', 'O', 'M'] && upper.take(3) != seq!['L', 'P', 'T']))
            ==> !is_reserved(upper),
        is_reserved(upper) ==> (upper.len() == 3 || upper.len() == 4 || upper[3] == '.' || upper[4]
            == '.'),
{
    if is_reserved(upper) {
        let names = seq![
            seq!['C', 'O', 'N'], seq!['P', 'R', 'N'], seq!['A', 'U', 'X'], seq!['N', 'U', 'L'],
            seq!['C', 'O', 'M', '1'], seq!['C', 'O', 'M', '2'], seq!['C', 'O', 'M', '3'],
            seq!['C', 'O', 'M', '4'], seq!['C', 'O', 'M', '5'], seq!['C', 'O', 'M', '6'],
            seq!['C', 'O', 'M', '7'], seq!['C', 'O', 'M', '8'], seq!['C', 'O', 'M', '9'],
            seq!['L', 'P', 'T', '1'], seq!['L', 'P', 'T', '2'], seq!['L', 'P', 'T', '3'],
            seq!['L', 'P', 'T', '4'], seq!['L', 'P', 'T', '5'], seq!['L', 'P', 'T', '6'],
            seq!['L', 'P', 'T', '7'], seq!['L', 'P', 'T', '8'], seq!['L', 'P', 'T', '9'],
        ];
        assert(exists|i: int| 0 <= i < 22 && reserved_match(upper, #[trigger] names[i]));
        let i = choose|i: int| 0 <= i < 22 && reserved_match(upper, #[trigger] names[i]);
        lemma_reserved_match_prefix(upper, names[i]);
        assert(names[i].take(3) == seq!['C', 'O', 'N'] || names[i].take(3) == seq!['P', 'R', 'N']
            || names[i].take(3) == seq!['A', 'U', 'X'] || names[i].take(3) == seq!['N', 'U', 'L']
            || names[i].take(3) == seq!['C', 'O', 'M'] || names[i].take(3) == seq!['L', 'P', 'T']);
    }
}

} // verus!
