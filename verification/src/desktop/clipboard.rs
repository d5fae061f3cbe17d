use vstd::prelude::*;
use vstd::utf8::encode_utf8;

use crate::codec::{hex_encode, hex_lower, is_lower_hex, lemma_hex_lower_shape, sha256, sha256_digest};
use crate::text::{chars_eq, chars_of};

use image::ImageEncoder;

verus! {

/// What the image crate decodes `bytes` to (`load_from_memory`, then RGBA8):
/// the pixels, the width and the height; `None` where it reports an error.
pub uninterp spec fn image_decode(bytes: Seq<u8>) -> Option<(Seq<u8>, usize, usize)>;

/// The PNG that the image crate's `PngEncoder` writes for RGBA8 pixels of the given
/// size (the bytes written before any error it reports).
pub uninterp spec fn png_encode(rgba: Seq<u8>, width: usize, height: usize) -> Seq<u8>;

/// The contents of the clipboard that the client synchronises.
#[derive(Debug, Clone)]
pub enum ClipboardContent {
    Text(String),
    Image { png_bytes: Vec<u8> },
    File { name: String, bytes: Vec<u8> },
}

/// The bytes that stand for a clipboard content: the UTF-8 of a text, the PNG of an
/// image, the bytes of a file.
pub open spec fn content_bytes(c: ClipboardContent) -> Seq<u8> {
    match c {
        ClipboardContent::Text(t) => encode_utf8(t@),
        ClipboardContent::Image { png_bytes } => png_bytes@,
        ClipboardContent::File { bytes, .. } => bytes@,
    }
}

/// The size of a content as the protocol carries it: its byte count as `i64`.
pub open spec fn content_size(c: ClipboardContent) -> i64 {
    #[verifier::truncate]
    ((#[verifier::truncate] (content_bytes(c).len() as usize)) as i64)
}

/// The name of a content's kind as the protocol spells it.
pub open spec fn content_type_name(c: ClipboardContent) -> Seq<char> {
    match c {
        ClipboardContent::Text(_) => seq!['T', 'e', 'x', 't'],
        ClipboardContent::Image { .. } => seq!['I', 'm', 'a', 'g', 'e'],
        ClipboardContent::File { .. } => seq!['F', 'i', 'l', 'e'],
    }
}

/// The hash that identifies a content: lower-case hex of the SHA-256 of its bytes.
pub open spec fn content_hash(c: ClipboardContent) -> Seq<char> {
    hex_lower(sha256(content_bytes(c)))
}

impl ClipboardContent {
    pub fn content_type(&self) -> (r: &'static str)
        ensures
            r@ == content_type_name(*self),
    {
        proof {
            reveal_strlit("Text");
            reveal_strlit("Image");
            reveal_strlit("File");
        }
        match self {
            ClipboardContent::Text(_) => "Text",
            ClipboardContent::Image { .. } => "Image",
            ClipboardContent::File { .. } => "File",
        }
    }

    /// The hex SHA-256 of the content's bytes: 64 lower-case hex digits.
    pub fn compute_hash(&self) -> (r: String)
        ensures
            r@ == content_hash(*self),
            r@.len() == 64,
            forall|i: int| 0 <= i < r@.len() ==> is_lower_hex(#[trigger] r@[i]),
    {
        let d = match self {
            ClipboardContent::Text(t) => sha256_digest(t.as_str().as_bytes()),
            ClipboardContent::Image { png_bytes } => sha256_digest(png_bytes.as_slice()),
            ClipboardContent::File { bytes, .. } => sha256_digest(bytes.as_slice()),
        };
        proof {
            lemma_hex_lower_shape(d@);
        }
        hex_encode(d.as_slice())
    }

    /// The number of bytes of the content.
    pub fn size(&self) -> (r: i64)
        ensures
            r == content_size(*self),
    {
        match self {
            ClipboardContent::Text(t) => #[verifier::truncate] (t.as_str().len() as i64),
            ClipboardContent::Image { png_bytes } => #[verifier::truncate] (png_bytes.len() as i64),
            ClipboardContent::File { bytes, .. } => #[verifier::truncate] (bytes.len() as i64),
        }
    }
}

/// Remembers the hash of the last content seen, so that a content is reported once.
pub struct ClipboardMonitor {
    last_hash: Option<String>,
}

/// The outcome of checking a read: the hash remembered after it, and the content
/// reported (a new content is reported; nothing read, or the remembered content
/// again, is not).
pub open spec fn check_read(last: Option<Seq<char>>, read: Option<ClipboardContent>) -> (
    Option<Seq<char>>,
    Option<ClipboardContent>,
) {
    match read {
        None => (last, None),
        Some(c) => if last == Some(content_hash(c)) {
            (last, None)
        } else {
            (Some(content_hash(c)), Some(c))
        },
    }
}

impl ClipboardMonitor {
    /// The hash the monitor remembers.
    pub closed spec fn last_hash_view(self) -> Option<Seq<char>> {
        match self.last_hash {
            Some(h) => Some(h@),
            None => None,
        }
    }

    pub fn new() -> (m: ClipboardMonitor)
        ensures
            m.last_hash_view() is None,
    {
        ClipboardMonitor { last_hash: None }
    }

    /// Reports the content just read from the clipboard when it differs from the last
    /// one seen, and remembers it.
    pub fn read_and_check(&mut self, read: Option<ClipboardContent>) -> (r: Option<
        ClipboardContent,
    >)
        ensures
            final(self).last_hash_view() == check_read(old(self).last_hash_view(), read).0,
            r == check_read(old(self).last_hash_view(), read).1,
    {
        match read {
            Some(c) => {
                let hash = c.compute_hash();
                let same = match &self.last_hash {
                    Some(h) => {
                        let a = chars_of(h.as_str());
                        let b = chars_of(hash.as_str());
                        chars_eq(&a, &b)
                    },
                    None => false,
                };
                if same {
                    return None;
                }
                self.last_hash = Some(hash);
                Some(c)
            },
            None => None,
        }
    }

    /// Remembers a content as the last one seen: one that this client writes to the
    /// clipboard or sends itself, so that reading it back reports nothing. Gives its
    /// hash.
    pub fn remember(&mut self, content: &ClipboardContent) -> (hash: String)
        ensures
            hash@ == content_hash(*content),
            hash@.len() == 64,
            final(self).last_hash_view() == Some(content_hash(*content)),
    {
        let hash = content.compute_hash();
        self.last_hash = Some(hash.clone());
        hash
    }

    /// Remembers `hash` as the last content seen.
    pub fn set_last_hash(&mut self, hash: &str)
        ensures
            final(self).last_hash_view() == Some(hash@),
    {
        self.last_hash = Some(String::from_str(hash));
    }
}

/// Once the hash of a content is remembered, reading that content again reports
/// nothing: a content that this client itself wrote is not sent back.
pub proof fn lemma_remembered_content_is_silent(m: ClipboardMonitor, c: ClipboardContent)
    requires
        m.last_hash_view() == Some(content_hash(c)),
    ensures
        check_read(m.last_hash_view(), Some(c)).1 is None,
        check_read(m.last_hash_view(), Some(c)).0 == m.last_hash_view(),
{
}

/// A content that the monitor reported is not reported again by the next read of the
/// same content.
pub proof fn lemma_reported_once(last: Option<Seq<char>>, c: ClipboardContent)
    ensures
        check_read(check_read(last, Some(c)).0, Some(c)).1 is None,
{
}

/// A read is reported exactly when its hash differs from the one remembered.
pub proof fn lemma_reported_iff_new(last: Option<Seq<char>>, c: ClipboardContent)
    ensures
        check_read(last, Some(c)).1 is Some <==> last != Some(content_hash(c)),
{
}

/// Contents with the same bytes have the same hash, whatever their kind or name.
pub proof fn lemma_hash_depends_on_bytes(a: ClipboardContent, b: ClipboardContent)
    requires
        content_bytes(a) == content_bytes(b),
    ensures
        content_hash(a) == content_hash(b),
{
}

/// Calls the image crate's `PngEncoder::write_image` with RGBA8 pixels. The result is
/// named `png_encode`. The encoder panics unless the buffer holds
/// `width * height * 4` bytes (with width and height taken as `u32`), so `requires`
/// demands that.
#[verifier::external_body]
pub fn encode_png(rgba: &[u8], width: usize, height: usize) -> (r: Vec<u8>)
    requires
        (width as u32) * (height as u32) * 4 == rgba@.len(),
    ensures
        r@ == png_encode(rgba@, width, height),
{
    let mut buf = std::io::Cursor::new(Vec::new());
    let encoder = image::codecs::png::PngEncoder::new(&mut buf);
    let _ = encoder.write_image(rgba, width as u32, height as u32, image::ExtendedColorType::Rgba8);
    buf.into_inner()
}

/// Calls the image crate's `load_from_memory`, then `to_rgba8`, `dimensions` and
/// `into_raw`. The result is named `image_decode`; as an RGBA8 image buffer it holds
/// four bytes per pixel and its sides come from `u32`.
#[verifier::external_body]
pub(crate) fn decode_png(data: &[u8]) -> (r: Option<(Vec<u8>, usize, usize)>)
    ensures
        match r {
            Some((v, w, h)) => {
                &&& image_decode(data@) == Some((v@, w, h))
                &&& w <= u32::MAX
                &&& h <= u32::MAX
                &&& v@.len() == w * h * 4
            },
            None => image_decode(data@) is None,
        },
{
    let img = image::load_from_memory(data).ok()?;
    let rgba = img.to_rgba8();
    let (w, h) = rgba.dimensions();
    Some((rgba.into_raw(), w as usize, h as usize))
}

/// The PNG of an image file in another format: decoded, then encoded as PNG.
pub open spec fn reencoded_png(bytes: Seq<u8>) -> Option<Seq<u8>> {
    match image_decode(bytes) {
        Some((pixels, w, h)) => Some(png_encode(pixels, w, h)),
        None => None,
    }
}

/// Re-encodes an image file (JPEG, GIF, BMP, WebP) as PNG.
pub fn image_to_png(bytes: &[u8]) -> (r: Option<Vec<u8>>)
    ensures
        match r {
            Some(p) => reencoded_png(bytes@) == Some(p@),
            None => reencoded_png(bytes@) is None,
        },
{
    match decode_png(bytes) {
        Some((pixels, w, h)) => {
            assert((w as u32) * (h as u32) * 4 == pixels@.len());
            Some(encode_png(pixels.as_slice(), w, h))
        },
        None => None,
    }
}

/// How a file found on the clipboard is read: a PNG image as it is, another image
/// format converted to PNG, anything else as a plain file.
#[derive(Debug, Clone, Copy, PartialEq, Eq, Structural)]
pub enum FileKind {
    PngImage,
    OtherImage,
    Generic,
}

/// `c` with ASCII capitals made small.
pub open spec fn ascii_lower(c: char) -> char {
    if 'A' <= c && c <= 'Z' {
        (((c as u32) + 32) as u8) as char
    } else {
        c
    }
}

/// The kind of a file by its extension, compared without regard to case (no other
/// character lower-cases to a letter of these extensions, so ASCII folding is exact).
pub open spec fn file_kind_of(ext: Seq<char>) -> FileKind {
    let e = ext.map_values(|c: char| ascii_lower(c));
    if e == seq!['p', 'n', 'g'] {
        FileKind::PngImage
    } else if e == seq!['j', 'p', 'g'] || e == seq!['j', 'p', 'e', 'g'] || e == seq!['g', 'i', 'f']
        || e == seq!['b', 'm', 'p'] || e == seq!['w', 'e', 'b', 'p'] {
        FileKind::OtherImage
    } else {
        FileKind::Generic
    }
}

/// The kind of a file on the clipboard by its extension.
pub fn file_kind(ext: &str) -> (k: FileKind)
    ensures
        k == file_kind_of(ext@),
{
    let cs = chars_of(ext);
    let mut e: Vec<char> = Vec::new();
    let mut i: usize = 0;
    while i < cs.len()
        invariant
            i <= cs.len(),
            cs@ == ext@,
            e@ == cs@.take(i as int).map_values(|c: char| ascii_lower(c)),
        decreases cs.len() - i,
    {
        let c = cs[i];
        let l = if 'A' <= c && c <= 'Z' {
            let b = (c as u32 + 32) as u8;
            b as char
        } else {
            c
        };
        e.push(l);
        assert(cs@.take(i + 1).map_values(|c: char| ascii_lower(c)) =~= cs@.take(i as int).map_values(
            |c: char| ascii_lower(c),
        ).push(ascii_lower(c)));
        i += 1;
    }
    assert(cs@.take(cs.len() as int) =~= cs@);
    if chars_eq(&e, &vec!['p', 'n', 'g']) {
        FileKind::PngImage
    } else if chars_eq(&e, &vec!['j', 'p', 'g']) || chars_eq(&e, &vec!['j', 'p', 'e', 'g'])
        || chars_eq(&e, &vec!['g', 'i', 'f']) || chars_eq(&e, &vec!['b', 'm', 'p']) || chars_eq(
        &e,
        &vec!['w', 'e', 'b', 'p'],
    ) {
        FileKind::OtherImage
    } else {
        FileKind::Generic
    }
}

/// The content that a file copied on this machine stands for, by the kind of its
/// extension: a PNG as an image of its bytes, another image format as an image of the
/// PNG it re-encodes to (nothing when it does not decode), anything else as a file
/// with its name and bytes.
pub fn file_content(ext: &str, name: String, bytes: Vec<u8>) -> (r: Option<ClipboardContent>)
    ensures
        file_kind_of(ext@) == FileKind::PngImage ==> r == Some(
            ClipboardContent::Image { png_bytes: bytes },
        ),
        file_kind_of(ext@) == FileKind::OtherImage ==> match reencoded_png(bytes@) {
            Some(p) => r matches Some(ClipboardContent::Image { png_bytes }) && png_bytes@ == p,
            None => r is None,
        },
        file_kind_of(ext@) == FileKind::Generic ==> r == Some(
            ClipboardContent::File { name, bytes },
        ),
{
    match file_kind(ext) {
        FileKind::PngImage => Some(ClipboardContent::Image { png_bytes: bytes }),
        FileKind::OtherImage => match image_to_png(bytes.as_slice()) {
            Some(png) => Some(ClipboardContent::Image { png_bytes: png }),
            None => None,
        },
        FileKind::Generic => Some(ClipboardContent::File { name, bytes }),
    }
}

/// The content of a bitmap on the clipboard: its PNG, nothing when encoding gives no
/// bytes. The encoder panics unless the buffer holds four bytes per pixel, which
/// `requires` asks.
pub fn bitmap_content(rgba: &[u8], width: usize, height: usize) -> (r: Option<ClipboardContent>)
    requires
        (width as u32) * (height as u32) * 4 == rgba@.len(),
    ensures
        png_encode(rgba@, width, height).len() == 0 ==> r is None,
        png_encode(rgba@, width, height).len() > 0 ==> (r matches Some(
            ClipboardContent::Image { png_bytes },
        ) && png_bytes@ == png_encode(rgba@, width, height)),
{
    let png = encode_png(rgba, width, height);
    if png.len() == 0 {
        None
    } else {
        Some(ClipboardContent::Image { png_bytes: png })
    }
}

/// The content read from the clipboard: a copied file first, then text, then a
/// bitmap; nothing when none of them is there.
pub fn clipboard_choice(
    file: Option<ClipboardContent>,
    text: Option<String>,
    bitmap: Option<ClipboardContent>,
) -> (r: Option<ClipboardContent>)
    ensures
        file is Some ==> r == file,
        file is None && text is Some ==> r == Some(ClipboardContent::Text(text->0)),
        file is None && text is None ==> r == bitmap,
{
    match file {
        Some(f) => Some(f),
        None => match text {
            Some(t) => Some(ClipboardContent::Text(t)),
            None => bitmap,
        },
    }
}

/// The kind of a file does not depend on the letter case of its extension: an
/// extension and its lower-case form give the same kind; `png` is a PNG image,
/// `jpg`, `jpeg`, `gif`, `bmp` and `webp` are other images, in any letter case; any
/// other extension is a plain file.
pub proof fn lemma_file_kind_ignores_case(ext: Seq<char>)
    ensures
        file_kind_of(ext) == file_kind_of(ext.map_values(|c: char| ascii_lower(c))),
        ext.map_values(|c: char| ascii_lower(c)) == seq!['p', 'n', 'g'] ==> file_kind_of(ext)
            == FileKind::PngImage,
        ({
            let e = ext.map_values(|c: char| ascii_lower(c));
            e == seq!['j', 'p', 'g'] || e == seq!['j', 'p', 'e', 'g'] || e == seq!['g', 'i', 'f']
                || e == seq!['b', 'm', 'p'] || e == seq!['w', 'e', 'b', 'p']
        }) ==> file_kind_of(ext) == FileKind::OtherImage,
        ({
            let e = ext.map_values(|c: char| ascii_lower(c));
            e != seq!['p', 'n', 'g'] && e != seq!['j', 'p', 'g'] && e != seq!['j', 'p', 'e', 'g']
                && e != seq!['g', 'i', 'f'] && e != seq!['b', 'm', 'p'] && e != seq!['w', 'e', 'b', 'p']
        }) ==> file_kind_of(ext) == FileKind::Generic,
{
    let e = ext.map_values(|c: char| ascii_lower(c));
    assert(e.map_values(|c: char| ascii_lower(c)) =~= e);
}

/// Case does not matter for concrete spellings either: `JPG` and `jpg` are the same
/// kind, as are any two extensions that differ only in the case of ASCII letters.
pub proof fn lemma_file_kind_same_for_same_letters(a: Seq<char>, b: Seq<char>)
    requires
        a.map_values(|c: char| ascii_lower(c)) == b.map_values(|c: char| ascii_lower(c)),
    ensures
        file_kind_of(a) == file_kind_of(b),
{
    lemma_file_kind_ignores_case(a);
    lemma_file_kind_ignores_case(b);
}

} // verus!
