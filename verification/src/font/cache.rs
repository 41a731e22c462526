//! Persistent font resolution and cell metrics cache: its binary form, and when it is still valid.

use crate::font::CellMetrics;
use crate::kitty::command::push_bytes;
use crate::text;
use vstd::prelude::*;
use vstd::utf8::{decode_utf8, encode_utf8, valid_utf8};

verus! {

/// Most families and most fallbacks that a cache holds.
pub const MAX_ENTRIES: u32 = 64;

/// Most bytes in the name of a family.
pub const MAX_NAME: u32 = 1024;

/// Most bytes in a path.
pub const MAX_PATH: u32 = 4096;

/// File metadata tracking a resolved font on disk.
#[derive(Debug, Clone, PartialEq, Eq)]
pub struct CachedFontFile {
    pub path: String,
    pub index: u32,
    pub mtime_secs: i64,
    pub mtime_nanos: u32,
    pub file_size: u64,
}

/// What a font file's record holds.
#[verifier::ext_equal]
pub struct FileModel {
    pub path: Seq<char>,
    pub index: u32,
    pub mtime_secs: i64,
    pub mtime_nanos: u32,
    pub file_size: u64,
}

impl View for CachedFontFile {
    type V = FileModel;

    open spec fn view(&self) -> FileModel {
        FileModel {
            path: self.path@,
            index: self.index,
            mtime_secs: self.mtime_secs,
            mtime_nanos: self.mtime_nanos,
            file_size: self.file_size,
        }
    }
}

/// What font files' records hold.
pub open spec fn file_models(v: Seq<CachedFontFile>) -> Seq<FileModel> {
    v.map_values(|f: CachedFontFile| f@)
}

impl CachedFontFile {
    /// Tells whether a file still has the size and the modification time that were recorded.
    pub fn is_valid(&self, file_size: u64, mtime_secs: i64, mtime_nanos: u32) -> (r: bool)
        ensures
            r == (self.file_size == file_size && self.mtime_secs == mtime_secs && self.mtime_nanos
                == mtime_nanos),
    {
        self.file_size == file_size && self.mtime_secs == mtime_secs && self.mtime_nanos
            == mtime_nanos
    }
}

/// Serialized font cache holding resolved primary font, metrics, and fallback paths. The font size
/// is the bit pattern of a single-precision number.
#[derive(Debug, Clone, PartialEq, Eq)]
pub struct FontCacheData {
    pub families: Vec<String>,
    pub font_size: u32,
    pub subpixel: bool,
    pub primary: CachedFontFile,
    pub metrics: CellMetrics,
    pub fallbacks: Vec<CachedFontFile>,
}

/// What a font cache holds.
#[verifier::ext_equal]
pub struct CacheModel {
    pub families: Seq<Seq<char>>,
    pub font_size: u32,
    pub subpixel: bool,
    pub primary: FileModel,
    pub metrics: CellMetrics,
    pub fallbacks: Seq<FileModel>,
}

impl View for FontCacheData {
    type V = CacheModel;

    open spec fn view(&self) -> CacheModel {
        CacheModel {
            families: text::texts(self.families@),
            font_size: self.font_size,
            subpixel: self.subpixel,
            primary: self.primary@,
            metrics: self.metrics,
            fallbacks: file_models(self.fallbacks@),
        }
    }
}

/// What an optional cache holds.
pub open spec fn cache_model(c: Option<FontCacheData>) -> Option<CacheModel> {
    match c {
        Some(c) => Some(c@),
        None => None,
    }
}

/// The path of the cache file: `ftty/font_cache.bin` in the cache directory, which is `.cache` in
/// the home directory where none is set. Empty names of directories count as none.
pub open spec fn cache_path(xdg: Option<Seq<char>>, home: Option<Seq<char>>) -> Option<Seq<char>> {
    let dir = match (xdg, home) {
        (Some(x), _) if x.len() > 0 => Some(x),
        (_, Some(h)) if h.len() > 0 => Some(crate::config::paths::joined_path(h, ".cache"@)),
        _ => None,
    };
    match dir {
        Some(d) => Some(
            crate::config::paths::joined_path(
                crate::config::paths::joined_path(d, "ftty"@),
                "font_cache.bin"@,
            ),
        ),
        None => None,
    }
}

/// Locates the persistent font cache file, given the directories that the environment names.
pub fn cache_file_path(xdg_cache_home: Option<&str>, home: Option<&str>) -> (r: Option<String>)
    ensures
        crate::config::paths::owned_text(r) == cache_path(
            crate::config::paths::optional_text(xdg_cache_home),
            crate::config::paths::optional_text(home),
        ),
{
    let mut dir: Option<String> = None;
    if let Some(x) = xdg_cache_home {
        if text::chars_of(x).len() > 0 {
            dir = Some(x.to_owned());
        }
    }
    if dir.is_none() {
        if let Some(h) = home {
            if text::chars_of(h).len() > 0 {
                dir = Some(crate::config::paths::join_path(h, &text::chars_of(".cache")));
            }
        }
    }
    match dir {
        Some(d) => {
            let sub: String = crate::config::paths::join_path(d.as_str(), &text::chars_of("ftty"));
            Some(
                crate::config::paths::join_path(
                    sub.as_str(),
                    &text::chars_of("font_cache.bin"),
                ),
            )
        },
        None => None,
    }
}

/// Four bytes of a number, least significant first.
#[verifier::opaque]
pub open spec fn le32(n: u32) -> Seq<u8> {
    seq![
        (n % 256) as u8,
        (n / 256 % 256) as u8,
        (n / 65536 % 256) as u8,
        (n / 16777216) as u8,
    ]
}

/// Eight bytes of a number, least significant first.
#[verifier::opaque]
pub open spec fn le64(n: u64) -> Seq<u8> {
    le32((n % 0x1_0000_0000) as u32) + le32((n / 0x1_0000_0000) as u32)
}

/// The number that four bytes give.
pub open spec fn from_le32(s: Seq<u8>) -> u32 {
    (s[0] + 256 * s[1] + 65536 * s[2] + 16777216 * s[3]) as u32
}

/// The number that eight bytes give.
pub open spec fn from_le64(s: Seq<u8>) -> u64 {
    (from_le32(s.take(4)) + 0x1_0000_0000 * from_le32(s.skip(4))) as u64
}

/// A signed number as an unsigned one of the same width.
pub open spec fn unsigned32(n: i32) -> u32 {
    if n < 0 {
        (n + 0x1_0000_0000) as u32
    } else {
        n as u32
    }
}

/// An unsigned number as a signed one of the same width.
pub open spec fn signed32(n: u32) -> i32 {
    if n >= 0x8000_0000 {
        (n - 0x1_0000_0000) as i32
    } else {
        n as i32
    }
}

/// A signed number as an unsigned one of the same width.
pub open spec fn unsigned64(n: i64) -> u64 {
    if n < 0 {
        (n + 0x1_0000_0000_0000_0000) as u64
    } else {
        n as u64
    }
}

/// An unsigned number as a signed one of the same width.
pub open spec fn signed64(n: u64) -> i64 {
    if n >= 0x8000_0000_0000_0000 {
        (n - 0x1_0000_0000_0000_0000) as i64
    } else {
        n as i64
    }
}

/// A length as it is written.
pub open spec fn written_length(n: nat) -> u32 {
    (n % 0x1_0000_0000) as u32
}

/// A text with the number of its bytes before it.
#[verifier::opaque]
pub open spec fn text_bytes(s: Seq<char>) -> Seq<u8> {
    le32(written_length(encode_utf8(s).len())) + encode_utf8(s)
}

/// Texts one after the other.
pub open spec fn texts_bytes(v: Seq<Seq<char>>) -> Seq<u8>
    decreases v.len(),
{
    if v.len() == 0 {
        Seq::empty()
    } else {
        text_bytes(v[0]) + texts_bytes(v.drop_first())
    }
}

/// The record of a font file.
#[verifier::opaque]
pub open spec fn file_bytes(f: FileModel) -> Seq<u8> {
    text_bytes(f.path) + (le32(f.index) + (le64(unsigned64(f.mtime_secs)) + (le32(f.mtime_nanos)
        + le64(f.file_size))))
}

/// Records one after the other.
pub open spec fn files_bytes(v: Seq<FileModel>) -> Seq<u8>
    decreases v.len(),
{
    if v.len() == 0 {
        Seq::empty()
    } else {
        file_bytes(v[0]) + files_bytes(v.drop_first())
    }
}

/// The mark at the start of a cache.
pub open spec fn magic() -> Seq<u8> {
    seq![0x46u8, 0x54, 0x54, 0x59, 0x46, 0x4f, 0x4e, 0x54]
}

/// The flag for subpixels as a byte.
pub open spec fn flag_byte(b: bool) -> u8 {
    if b {
        1
    } else {
        0
    }
}

/// The binary form of a cache.
pub open spec fn cache_bytes(c: CacheModel) -> Seq<u8> {
    magic() + (le32(1) + (le32(written_length(c.families.len())) + (texts_bytes(c.families) + (
    le32(c.font_size) + (seq![flag_byte(c.subpixel)] + (file_bytes(c.primary) + (le32(
        c.metrics.cell_width,
    ) + (le32(c.metrics.cell_height) + (le32(unsigned32(c.metrics.ascent)) + (le32(
        written_length(c.fallbacks.len()),
    ) + files_bytes(c.fallbacks)))))))))))
}

/// Reads a number, and gives what follows.
#[verifier::opaque]
pub open spec fn read32(s: Seq<u8>) -> Option<(u32, Seq<u8>)> {
    if s.len() < 4 {
        None
    } else {
        Some((from_le32(s.take(4)), s.skip(4)))
    }
}

/// Reads a wide number, and gives what follows.
#[verifier::opaque]
pub open spec fn read64(s: Seq<u8>) -> Option<(u64, Seq<u8>)> {
    if s.len() < 8 {
        None
    } else {
        Some((from_le64(s.take(8)), s.skip(8)))
    }
}

/// Reads a text of at most `max` bytes, and gives what follows.
#[verifier::opaque]
pub open spec fn read_text(s: Seq<u8>, max: u32) -> Option<(Seq<char>, Seq<u8>)> {
    match read32(s) {
        Some((n, rest)) => if n > max || rest.len() < n || !valid_utf8(rest.take(n as int)) {
            None
        } else {
            Some((decode_utf8(rest.take(n as int)), rest.skip(n as int)))
        },
        None => None,
    }
}

/// Reads a number of texts, and gives what follows.
pub open spec fn read_texts(s: Seq<u8>, n: nat) -> Option<(Seq<Seq<char>>, Seq<u8>)>
    decreases n,
{
    if n == 0 {
        Some((Seq::empty(), s))
    } else {
        match read_text(s, MAX_NAME) {
            Some((first, rest)) => match read_texts(rest, (n - 1) as nat) {
                Some((more, rest)) => Some((seq![first] + more, rest)),
                None => None,
            },
            None => None,
        }
    }
}

/// Reads the record of a font file, and gives what follows.
#[verifier::opaque]
pub open spec fn read_file(s: Seq<u8>) -> Option<(FileModel, Seq<u8>)> {
    match read_text(s, MAX_PATH) {
        Some((path, s)) => match read32(s) {
            Some((index, s)) => match read64(s) {
                Some((secs, s)) => match read32(s) {
                    Some((mtime_nanos, s)) => match read64(s) {
                        Some((file_size, s)) => Some(
                            (
                                FileModel {
                                    path,
                                    index,
                                    mtime_secs: signed64(secs),
                                    mtime_nanos,
                                    file_size,
                                },
                                s,
                            ),
                        ),
                        None => None,
                    },
                    None => None,
                },
                None => None,
            },
            None => None,
        },
        None => None,
    }
}

/// Reads a number of records, and gives what follows.
pub open spec fn read_files(s: Seq<u8>, n: nat) -> Option<(Seq<FileModel>, Seq<u8>)>
    decreases n,
{
    if n == 0 {
        Some((Seq::empty(), s))
    } else {
        match read_file(s) {
            Some((first, rest)) => match read_files(rest, (n - 1) as nat) {
                Some((more, rest)) => Some((seq![first] + more, rest)),
                None => None,
            },
            None => None,
        }
    }
}

/// Reads a list of families with its length before it.
pub open spec fn read_families(s: Seq<u8>) -> Option<(Seq<Seq<char>>, Seq<u8>)> {
    match read32(s) {
        Some((n, s)) => if n > MAX_ENTRIES {
            None
        } else {
            read_texts(s, n as nat)
        },
        None => None,
    }
}

/// Reads a list of records with its length before it.
pub open spec fn read_fallbacks(s: Seq<u8>) -> Option<(Seq<FileModel>, Seq<u8>)> {
    match read32(s) {
        Some((n, s)) => if n > MAX_ENTRIES {
            None
        } else {
            read_files(s, n as nat)
        },
        None => None,
    }
}

/// Reads cell metrics, and gives what follows.
pub open spec fn read_metrics(s: Seq<u8>) -> Option<(CellMetrics, Seq<u8>)> {
    match read32(s) {
        Some((cell_width, s)) => match read32(s) {
            Some((cell_height, s)) => match read32(s) {
                Some((ascent, s)) => Some(
                    (CellMetrics { cell_width, cell_height, ascent: signed32(ascent) }, s),
                ),
                None => None,
            },
            None => None,
        },
        None => None,
    }
}

/// Reads a font size and the flag for subpixels, and gives what follows.
pub open spec fn read_size(s: Seq<u8>) -> Option<(u32, bool, Seq<u8>)> {
    match read32(s) {
        Some((size, s)) => if s.len() < 1 {
            None
        } else {
            Some((size, s[0] != 0, s.skip(1)))
        },
        None => None,
    }
}

/// Reads what follows the version of a cache.
pub open spec fn read_body(s: Seq<u8>) -> Option<CacheModel> {
    match read_families(s) {
        Some((families, s)) => match read_size(s) {
            Some((font_size, subpixel, s)) => match read_file(s) {
                Some((primary, s)) => match read_metrics(s) {
                    Some((metrics, s)) => match read_fallbacks(s) {
                        Some((fallbacks, _)) => Some(
                            CacheModel {
                                families,
                                font_size,
                                subpixel,
                                primary,
                                metrics,
                                fallbacks,
                            },
                        ),
                        None => None,
                    },
                    None => None,
                },
                None => None,
            },
            None => None,
        },
        None => None,
    }
}

/// The cache that bytes hold, if they begin with the mark and a known version and nothing in them
/// is cut off, too long or no text.
pub open spec fn cache_of(bytes: Seq<u8>) -> Option<CacheModel> {
    if bytes.len() < 12 || bytes.take(8) != magic() {
        None
    } else {
        match read32(bytes.skip(8)) {
            Some((version, s)) => if version != 1 {
                None
            } else {
                read_body(s)
            },
            None => None,
        }
    }
}

/// Whether a cache stays within the limits that reading sets.
pub open spec fn within_limits(c: CacheModel) -> bool {
    &&& c.families.len() <= MAX_ENTRIES
    &&& forall|i: int|
        0 <= i < c.families.len() ==> encode_utf8(#[trigger] c.families[i]).len() <= MAX_NAME
    &&& encode_utf8(c.primary.path).len() <= MAX_PATH
    &&& c.fallbacks.len() <= MAX_ENTRIES
    &&& forall|i: int|
        0 <= i < c.fallbacks.len() ==> encode_utf8((#[trigger] c.fallbacks[i]).path).len()
            <= MAX_PATH
}

/// A number is read back as it was written.
proof fn lemma_read32(n: u32, rest: Seq<u8>)
    ensures
        read32(le32(n) + rest) == Some((n, rest)),
{
    reveal(le32);
    reveal(read32);
    let s = le32(n) + rest;
    assert(s.take(4) =~= le32(n));
    assert(s.skip(4) =~= rest);
}

/// A wide number is read back as it was written.
proof fn lemma_read64(n: u64, rest: Seq<u8>)
    ensures
        read64(le64(n) + rest) == Some((n, rest)),
{
    reveal(le32);
    reveal(le64);
    reveal(read32);
    reveal(read64);
    let s = le64(n) + rest;
    let low = (n % 0x1_0000_0000) as u32;
    let high = (n / 0x1_0000_0000) as u32;
    assert(s.take(8) =~= le64(n));
    assert(s.skip(8) =~= rest);
    assert(le64(n).take(4) =~= le32(low));
    assert(le64(n).skip(4) =~= le32(high));
    lemma_read32(low, Seq::empty());
    lemma_read32(high, Seq::empty());
    assert(le32(low) + Seq::<u8>::empty() =~= le32(low));
    assert(le32(high) + Seq::<u8>::empty() =~= le32(high));
    assert(le32(low).take(4) =~= le32(low));
    assert(le32(high).take(4) =~= le32(high));
}

/// A text is read back as it was written.
proof fn lemma_read_text(t: Seq<char>, max: u32, rest: Seq<u8>)
    requires
        encode_utf8(t).len() <= max,
    ensures
        read_text(text_bytes(t) + rest, max) == Some((t, rest)),
{
    reveal(text_bytes);
    reveal(read_text);
    let body = encode_utf8(t);
    let s = text_bytes(t) + rest;
    assert(s =~= le32(written_length(body.len())) + (body + rest));
    lemma_read32(written_length(body.len()), body + rest);
    assert((body + rest).take(body.len() as int) =~= body);
    assert((body + rest).skip(body.len() as int) =~= rest);
    vstd::utf8::encode_utf8_valid_utf8(t);
    vstd::utf8::encode_utf8_decode_utf8(t);
}

/// Texts are read back as they were written.
proof fn lemma_read_texts(v: Seq<Seq<char>>, rest: Seq<u8>)
    requires
        forall|i: int| 0 <= i < v.len() ==> encode_utf8(#[trigger] v[i]).len() <= MAX_NAME,
    ensures
        read_texts(texts_bytes(v) + rest, v.len()) == Some((v, rest)),
    decreases v.len(),
{
    if v.len() == 0 {
        assert(texts_bytes(v) + rest =~= rest);
        assert(v =~= Seq::<Seq<char>>::empty());
    } else {
        let tail = v.drop_first();
        assert(texts_bytes(v) + rest =~= text_bytes(v[0]) + (texts_bytes(tail) + rest));
        lemma_read_text(v[0], MAX_NAME, texts_bytes(tail) + rest);
        assert forall|i: int| 0 <= i < tail.len() implies encode_utf8(#[trigger] tail[i]).len()
            <= MAX_NAME by {
            assert(tail[i] == v[i + 1]);
        }
        lemma_read_texts(tail, rest);
        assert(seq![v[0]] + tail =~= v);
    }
}

/// The record of a font file is read back as it was written.
proof fn lemma_read_file(f: FileModel, rest: Seq<u8>)
    requires
        encode_utf8(f.path).len() <= MAX_PATH,
    ensures
        read_file(file_bytes(f) + rest) == Some((f, rest)),
{
    reveal(file_bytes);
    reveal(read_file);
    let r4 = le64(f.file_size) + rest;
    let r3 = le32(f.mtime_nanos) + r4;
    let r2 = le64(unsigned64(f.mtime_secs)) + r3;
    let r1 = le32(f.index) + r2;
    assert(file_bytes(f) + rest =~= text_bytes(f.path) + r1);
    lemma_read_text(f.path, MAX_PATH, r1);
    lemma_read32(f.index, r2);
    lemma_read64(unsigned64(f.mtime_secs), r3);
    lemma_read32(f.mtime_nanos, r4);
    lemma_read64(f.file_size, rest);
    assert(signed64(unsigned64(f.mtime_secs)) == f.mtime_secs);
}

/// Records are read back as they were written.
proof fn lemma_read_files(v: Seq<FileModel>, rest: Seq<u8>)
    requires
        forall|i: int| 0 <= i < v.len() ==> encode_utf8((#[trigger] v[i]).path).len() <= MAX_PATH,
    ensures
        read_files(files_bytes(v) + rest, v.len()) == Some((v, rest)),
    decreases v.len(),
{
    if v.len() == 0 {
        assert(files_bytes(v) + rest =~= rest);
        assert(v =~= Seq::<FileModel>::empty());
    } else {
        let tail = v.drop_first();
        assert(files_bytes(v) + rest =~= file_bytes(v[0]) + (files_bytes(tail) + rest));
        lemma_read_file(v[0], files_bytes(tail) + rest);
        assert forall|i: int| 0 <= i < tail.len() implies encode_utf8((#[trigger] tail[i]).path).len()
            <= MAX_PATH by {
            assert(tail[i] == v[i + 1]);
        }
        lemma_read_files(tail, rest);
        assert(seq![v[0]] + tail =~= v);
    }
}

/// What follows the last record of a cache, if reading gets there.
spec fn body_end(s: Seq<u8>) -> Option<Seq<u8>> {
    match read_families(s) {
        Some((_, s)) => match read_size(s) {
            Some((_, _, s)) => match read_file(s) {
                Some((_, s)) => match read_metrics(s) {
                    Some((_, s)) => match read_fallbacks(s) {
                        Some((_, s)) => Some(s),
                        None => None,
                    },
                    None => None,
                },
                None => None,
            },
            None => None,
        },
        None => None,
    }
}

/// What a cache holds behind its version.
spec fn body_bytes(c: CacheModel) -> Seq<u8> {
    le32(written_length(c.families.len())) + (texts_bytes(c.families) + (le32(c.font_size) + (
    seq![flag_byte(c.subpixel)] + (file_bytes(c.primary) + (le32(c.metrics.cell_width) + (le32(
        c.metrics.cell_height,
    ) + (le32(unsigned32(c.metrics.ascent)) + (le32(written_length(c.fallbacks.len()))
        + files_bytes(c.fallbacks)))))))))
}

/// What follows the version is read back as it was written, to its end.
proof fn lemma_read_body(c: CacheModel)
    requires
        within_limits(c),
    ensures
        read_body(body_bytes(c)) == Some(c),
        body_end(body_bytes(c)) == Some(Seq::<u8>::empty()),
{
    let fallbacks = files_bytes(c.fallbacks);
    let r10 = le32(written_length(c.fallbacks.len())) + fallbacks;
    let r9 = le32(unsigned32(c.metrics.ascent)) + r10;
    let r8 = le32(c.metrics.cell_height) + r9;
    let r7 = le32(c.metrics.cell_width) + r8;
    let r6 = file_bytes(c.primary) + r7;
    let r5 = seq![flag_byte(c.subpixel)] + r6;
    let r4 = le32(c.font_size) + r5;
    let r3 = texts_bytes(c.families) + r4;
    lemma_read32(written_length(c.families.len()), r3);
    lemma_read_texts(c.families, r4);
    lemma_read32(c.font_size, r5);
    assert(r5[0] == flag_byte(c.subpixel));
    assert(r5.skip(1) =~= r6);
    lemma_read_file(c.primary, r7);
    lemma_read32(c.metrics.cell_width, r8);
    lemma_read32(c.metrics.cell_height, r9);
    lemma_read32(unsigned32(c.metrics.ascent), r10);
    assert(signed32(unsigned32(c.metrics.ascent)) == c.metrics.ascent);
    lemma_read32(written_length(c.fallbacks.len()), fallbacks);
    lemma_read_files(c.fallbacks, Seq::empty());
    assert(fallbacks + Seq::<u8>::empty() =~= fallbacks);
    assert(read_body(body_bytes(c))->0 =~= c);
}

/// A cache begins with the mark and its version.
proof fn lemma_header(c: CacheModel)
    ensures
        cache_bytes(c) == (magic() + le32(1)) + body_bytes(c),
        le32(1).len() == 4,
{
    reveal(le32);
    assert(cache_bytes(c) =~= (magic() + le32(1)) + body_bytes(c));
}

/// A cache within the limits is read back exactly as it was written.
pub proof fn law_cache_round_trip(c: CacheModel)
    requires
        within_limits(c),
    ensures
        cache_of(cache_bytes(c)) == Some(c),
{
    let all = cache_bytes(c);
    lemma_header(c);
    lemma_read_body(c);
    assert(all.take(8) =~= magic());
    assert(all.skip(8) =~= le32(1) + body_bytes(c));
    lemma_read32(1, body_bytes(c));
}

/// Bytes behind a number do not change how it is read.
proof fn lemma_longer32(s: Seq<u8>, t: Seq<u8>)
    ensures
        read32(s) matches Some((n, rest)) ==> read32(s + t) == Some((n, rest + t)),
{
    reveal(read32);
    if s.len() >= 4 {
        assert((s + t).take(4) =~= s.take(4));
        assert((s + t).skip(4) =~= s.skip(4) + t);
    }
}

/// Bytes behind a wide number do not change how it is read.
proof fn lemma_longer64(s: Seq<u8>, t: Seq<u8>)
    ensures
        read64(s) matches Some((n, rest)) ==> read64(s + t) == Some((n, rest + t)),
{
    reveal(read64);
    if s.len() >= 8 {
        assert((s + t).take(8) =~= s.take(8));
        assert((s + t).skip(8) =~= s.skip(8) + t);
    }
}

/// Bytes behind a text do not change how it is read.
proof fn lemma_longer_text(s: Seq<u8>, max: u32, t: Seq<u8>)
    ensures
        read_text(s, max) matches Some((text, rest)) ==> read_text(s + t, max) == Some(
            (text, rest + t),
        ),
{
    reveal(read_text);
    lemma_longer32(s, t);
    if let Some((n, rest)) = read32(s) {
        if rest.len() >= n {
            assert((rest + t).take(n as int) =~= rest.take(n as int));
            assert((rest + t).skip(n as int) =~= rest.skip(n as int) + t);
        }
    }
}

/// Bytes behind texts do not change how they are read.
proof fn lemma_longer_texts(s: Seq<u8>, n: nat, t: Seq<u8>)
    ensures
        read_texts(s, n) matches Some((v, rest)) ==> read_texts(s + t, n) == Some((v, rest + t)),
    decreases n,
{
    if n > 0 {
        lemma_longer_text(s, MAX_NAME, t);
        if let Some((_, rest)) = read_text(s, MAX_NAME) {
            lemma_longer_texts(rest, (n - 1) as nat, t);
        }
    }
}

/// Bytes behind a record do not change how it is read.
proof fn lemma_longer_file(s: Seq<u8>, t: Seq<u8>)
    ensures
        read_file(s) matches Some((f, rest)) ==> read_file(s + t) == Some((f, rest + t)),
{
    reveal(read_file);
    lemma_longer_text(s, MAX_PATH, t);
    if let Some((_, s1)) = read_text(s, MAX_PATH) {
        lemma_longer32(s1, t);
        if let Some((_, s2)) = read32(s1) {
            lemma_longer64(s2, t);
            if let Some((_, s3)) = read64(s2) {
                lemma_longer32(s3, t);
                if let Some((_, s4)) = read32(s3) {
                    lemma_longer64(s4, t);
                }
            }
        }
    }
}

/// Bytes behind records do not change how they are read.
proof fn lemma_longer_files(s: Seq<u8>, n: nat, t: Seq<u8>)
    ensures
        read_files(s, n) matches Some((v, rest)) ==> read_files(s + t, n) == Some((v, rest + t)),
    decreases n,
{
    if n > 0 {
        lemma_longer_file(s, t);
        if let Some((_, rest)) = read_file(s) {
            lemma_longer_files(rest, (n - 1) as nat, t);
        }
    }
}

/// Bytes behind cell metrics do not change how they are read.
proof fn lemma_longer_metrics(s: Seq<u8>, t: Seq<u8>)
    ensures
        read_metrics(s) matches Some((m, rest)) ==> read_metrics(s + t) == Some((m, rest + t)),
{
    lemma_longer32(s, t);
    if let Some((_, s1)) = read32(s) {
        lemma_longer32(s1, t);
        if let Some((_, s2)) = read32(s1) {
            lemma_longer32(s2, t);
        }
    }
}

/// Bytes behind a cache stay behind it.
proof fn lemma_longer_body(s: Seq<u8>, t: Seq<u8>)
    ensures
        body_end(s) matches Some(rest) ==> body_end(s + t) == Some(rest + t),
{
    lemma_longer32(s, t);
    if let Some((n, s1)) = read32(s) {
        lemma_longer_texts(s1, n as nat, t);
    }
    if let Some((_, s2)) = read_families(s) {
        lemma_longer32(s2, t);
        if let Some((_, s3)) = read32(s2) {
            if s3.len() >= 1 {
                assert((s3 + t).skip(1) =~= s3.skip(1) + t);
            }
        }
        if let Some((_, _, s4)) = read_size(s2) {
            lemma_longer_file(s4, t);
            if let Some((_, s5)) = read_file(s4) {
                lemma_longer_metrics(s5, t);
                if let Some((_, s6)) = read_metrics(s5) {
                    lemma_longer32(s6, t);
                    if let Some((n, s7)) = read32(s6) {
                        lemma_longer_files(s7, n as nat, t);
                    }
                }
            }
        }
    }
}

/// A cache that was cut off anywhere is refused.
pub proof fn law_truncated_caches_are_refused(c: CacheModel, n: int)
    requires
        within_limits(c),
        0 <= n < cache_bytes(c).len(),
    ensures
        cache_of(cache_bytes(c).take(n)) is None,
{
    let cut = cache_bytes(c).take(n);
    let body = body_bytes(c);
    lemma_header(c);
    if n >= 12 {
        let part = body.take(n - 12);
        let missing = body.skip(n - 12);
        assert(cut.skip(8) =~= le32(1) + part);
        lemma_read32(1, part);
        lemma_read_body(c);
        lemma_longer_body(part, missing);
        assert(part + missing =~= body);
        assert(missing.len() > 0);
        if let Some(rest) = body_end(part) {
            assert((rest + missing).len() > 0);
        }
    }
}

/// Bytes that do not begin with the mark and the version are refused.
pub proof fn law_foreign_files_are_refused(bytes: Seq<u8>)
    requires
        !(magic() + le32(1)).is_prefix_of(bytes),
    ensures
        cache_of(bytes) is None,
{
    reveal(le32);
    reveal(read32);
    if bytes.len() >= 12 && bytes.take(8) == magic() {
        let v = bytes.skip(8).take(4);
        assert(bytes.subrange(0, 12) =~= bytes.take(8) + v);
        if from_le32(v) == 1 {
            assert(v[0] + 256 * v[1] + 65536 * v[2] + 16777216 * v[3] == 1);
            assert(v =~= le32(1));
        }
    }
}

fn push32(out: &mut Vec<u8>, n: u32)
    ensures
        final(out)@ == old(out)@ + le32(n),
{
    reveal(le32);
    let ghost before = out@;
    out.push((n % 256) as u8);
    out.push((n / 256 % 256) as u8);
    out.push((n / 65536 % 256) as u8);
    out.push((n / 16777216) as u8);
    assert(out@ =~= before + le32(n));
}

fn push64(out: &mut Vec<u8>, n: u64)
    ensures
        final(out)@ == old(out)@ + le64(n),
{
    reveal(le64);
    let ghost before = out@;
    push32(out, (n % 0x1_0000_0000) as u32);
    push32(out, (n / 0x1_0000_0000) as u32);
    assert(out@ =~= before + le64(n));
}

fn length_of(n: usize) -> (r: u32)
    ensures
        r == written_length(n as nat),
{
    (n as u64 % 0x1_0000_0000) as u32
}

fn push_text(out: &mut Vec<u8>, s: &str)
    ensures
        final(out)@ == old(out)@ + text_bytes(s@),
{
    reveal(text_bytes);
    let ghost before = out@;
    let bytes: &[u8] = s.as_bytes();
    push32(out, length_of(bytes.len()));
    push_bytes(out, bytes);
    assert(out@ =~= before + text_bytes(s@));
}

fn write_cached_file(out: &mut Vec<u8>, file: &CachedFontFile)
    ensures
        final(out)@ == old(out)@ + file_bytes(file@),
{
    reveal(file_bytes);
    let ghost before = out@;
    push_text(out, file.path.as_str());
    push32(out, file.index);
    let secs: u64 = if file.mtime_secs < 0 {
        (file.mtime_secs as i128 + 0x1_0000_0000_0000_0000) as u64
    } else {
        file.mtime_secs as u64
    };
    push64(out, secs);
    push32(out, file.mtime_nanos);
    push64(out, file.file_size);
    assert(out@ =~= before + file_bytes(file@));
}

/// A list of texts with one more at the end.
proof fn lemma_texts_push(v: Seq<Seq<char>>, t: Seq<char>)
    ensures
        texts_bytes(v.push(t)) == texts_bytes(v) + text_bytes(t),
    decreases v.len(),
{
    reveal_with_fuel(texts_bytes, 2);
    if v.len() == 0 {
        assert(v.push(t).drop_first() =~= Seq::<Seq<char>>::empty());
        assert(texts_bytes(v.push(t)) =~= texts_bytes(v) + text_bytes(t));
    } else {
        assert(v.push(t).drop_first() =~= v.drop_first().push(t));
        lemma_texts_push(v.drop_first(), t);
        assert(texts_bytes(v.push(t)) =~= texts_bytes(v) + text_bytes(t));
    }
}

/// A list of records with one more at the end.
proof fn lemma_files_push(v: Seq<FileModel>, f: FileModel)
    ensures
        files_bytes(v.push(f)) == files_bytes(v) + file_bytes(f),
    decreases v.len(),
{
    reveal_with_fuel(files_bytes, 2);
    if v.len() == 0 {
        assert(v.push(f).drop_first() =~= Seq::<FileModel>::empty());
        assert(files_bytes(v.push(f)) =~= files_bytes(v) + file_bytes(f));
    } else {
        assert(v.push(f).drop_first() =~= v.drop_first().push(f));
        lemma_files_push(v.drop_first(), f);
        assert(files_bytes(v.push(f)) =~= files_bytes(v) + file_bytes(f));
    }
}

/// A piece can be moved from what is to be written to what was written.
proof fn lemma_move(all: Seq<u8>, before: Seq<u8>, piece: Seq<u8>, rest: Seq<u8>)
    requires
        all == before + (piece + rest),
    ensures
        all == (before + piece) + rest,
{
    assert(all =~= (before + piece) + rest);
}

fn push_names(out: &mut Vec<u8>, families: &Vec<String>)
    ensures
        final(out)@ == old(out)@ + texts_bytes(text::texts(families@)),
{
    let ghost names = text::texts(families@);
    let ghost start = out@;
    let mut i: usize = 0;
    assert(names.take(0) =~= Seq::<Seq<char>>::empty());
    assert(start + texts_bytes(names.take(0)) =~= start);
    while i < families.len()
        invariant
            i <= families@.len(),
            names == text::texts(families@),
            out@ == start + texts_bytes(names.take(i as int)),
        decreases families@.len() - i,
    {
        push_text(out, families[i].as_str());
        proof {
            lemma_texts_push(names.take(i as int), names[i as int]);
            assert(names.take(i + 1) =~= names.take(i as int).push(names[i as int]));
            assert(out@ =~= start + texts_bytes(names.take(i + 1)));
        }
        i += 1;
    }
    assert(names.take(names.len() as int) =~= names);
}

fn push_records(out: &mut Vec<u8>, fallbacks: &Vec<CachedFontFile>)
    ensures
        final(out)@ == old(out)@ + files_bytes(file_models(fallbacks@)),
{
    let ghost files = file_models(fallbacks@);
    let ghost start = out@;
    let mut k: usize = 0;
    assert(files.take(0) =~= Seq::<FileModel>::empty());
    assert(start + files_bytes(files.take(0)) =~= start);
    while k < fallbacks.len()
        invariant
            k <= fallbacks@.len(),
            files == file_models(fallbacks@),
            out@ == start + files_bytes(files.take(k as int)),
        decreases fallbacks@.len() - k,
    {
        write_cached_file(out, &fallbacks[k]);
        proof {
            lemma_files_push(files.take(k as int), files[k as int]);
            assert(files.take(k + 1) =~= files.take(k as int).push(files[k as int]));
            assert(out@ =~= start + files_bytes(files.take(k + 1)));
        }
        k += 1;
    }
    assert(files.take(files.len() as int) =~= files);
}

fn push_magic(out: &mut Vec<u8>)
    ensures
        final(out)@ == old(out)@ + magic(),
{
    let ghost before = out@;
    out.push(0x46);
    out.push(0x54);
    out.push(0x54);
    out.push(0x59);
    out.push(0x46);
    out.push(0x4f);
    out.push(0x4e);
    out.push(0x54);
    assert(out@ =~= before + magic());
}

/// Serializes font cache data to compact binary buffer.
pub fn serialize_cache(data: &FontCacheData) -> (r: Vec<u8>)
    ensures
        r@ == cache_bytes(data@),
{
    let ghost c = data@;
    let ghost all = cache_bytes(c);
    let ghost r11 = files_bytes(c.fallbacks);
    let ghost r10 = le32(written_length(c.fallbacks.len())) + r11;
    let ghost r9 = le32(unsigned32(c.metrics.ascent)) + r10;
    let ghost r8 = le32(c.metrics.cell_height) + r9;
    let ghost r7 = le32(c.metrics.cell_width) + r8;
    let ghost r6 = file_bytes(c.primary) + r7;
    let ghost r5 = seq![flag_byte(c.subpixel)] + r6;
    let ghost r4 = le32(c.font_size) + r5;
    let ghost r3 = texts_bytes(c.families) + r4;
    let ghost r2 = le32(written_length(c.families.len())) + r3;
    let mut out: Vec<u8> = Vec::new();
    push_magic(&mut out);
    assert(out@ =~= magic());
    assert(all == out@ + (le32(1) + r2));
    proof {
        lemma_move(all, out@, le32(1), r2);
    }
    push32(&mut out, 1);
    proof {
        lemma_move(all, out@, le32(written_length(c.families.len())), r3);
    }
    push32(&mut out, length_of(data.families.len()));
    proof {
        lemma_move(all, out@, texts_bytes(c.families), r4);
    }
    push_names(&mut out, &data.families);
    proof {
        lemma_move(all, out@, le32(c.font_size), r5);
    }
    push32(&mut out, data.font_size);
    proof {
        lemma_move(all, out@, seq![flag_byte(c.subpixel)], r6);
    }
    let ghost before = out@;
    let flag: u8 = if data.subpixel {
        1
    } else {
        0
    };
    out.push(flag);
    assert(out@ =~= before + seq![flag_byte(c.subpixel)]);
    proof {
        lemma_move(all, out@, file_bytes(c.primary), r7);
    }
    write_cached_file(&mut out, &data.primary);
    proof {
        lemma_move(all, out@, le32(c.metrics.cell_width), r8);
    }
    push32(&mut out, data.metrics.cell_width);
    proof {
        lemma_move(all, out@, le32(c.metrics.cell_height), r9);
    }
    push32(&mut out, data.metrics.cell_height);
    let ascent: u32 = if data.metrics.ascent < 0 {
        (data.metrics.ascent as i64 + 0x1_0000_0000) as u32
    } else {
        data.metrics.ascent as u32
    };
    proof {
        lemma_move(all, out@, le32(unsigned32(c.metrics.ascent)), r10);
    }
    push32(&mut out, ascent);
    proof {
        lemma_move(all, out@, le32(written_length(c.fallbacks.len())), r11);
    }
    push32(&mut out, length_of(data.fallbacks.len()));
    push_records(&mut out, &data.fallbacks);
    out
}

/// Bytes and how many of them were read.
struct Reader {
    bytes: Vec<u8>,
    at: usize,
}

impl Reader {
    spec fn wf(&self) -> bool {
        self.at <= self.bytes@.len()
    }

    spec fn rest(&self) -> Seq<u8> {
        self.bytes@.skip(self.at as int)
    }

    fn read_u32(&mut self) -> (r: Option<u32>)
        requires
            old(self).wf(),
        ensures
            final(self).wf(),
            match read32(old(self).rest()) {
                Some((n, rest)) => r == Some(n) && final(self).rest() == rest,
                None => r is None,
            },
    {
        proof {
            reveal(read32);
        }
        let total: usize = self.bytes.len();
        if total - self.at < 4 {
            return None;
        }
        let ghost s = self.rest();
        let a: u8 = self.bytes[self.at];
        let b: u8 = self.bytes[self.at + 1];
        let c: u8 = self.bytes[self.at + 2];
        let d: u8 = self.bytes[self.at + 3];
        self.at = self.at + 4;
        assert(self.rest() =~= s.skip(4));
        assert(s.take(4)[0] == a && s.take(4)[1] == b && s.take(4)[2] == c && s.take(4)[3] == d);
        Some(a as u32 + 256 * b as u32 + 65536 * c as u32 + 16777216 * d as u32)
    }

    fn read_u64(&mut self) -> (r: Option<u64>)
        requires
            old(self).wf(),
        ensures
            final(self).wf(),
            match read64(old(self).rest()) {
                Some((n, rest)) => r == Some(n) && final(self).rest() == rest,
                None => r is None,
            },
    {
        proof {
            reveal(read32);
            reveal(read64);
        }
        if self.bytes.len() - self.at < 8 {
            return None;
        }
        let ghost s = self.rest();
        let low: u32 = match self.read_u32() {
            Some(n) => n,
            None => {
                return None;
            },
        };
        let high: u32 = match self.read_u32() {
            Some(n) => n,
            None => {
                return None;
            },
        };
        assert(s.take(8).take(4) =~= s.take(4));
        assert(s.take(8).skip(4) =~= s.skip(4).take(4));
        assert(s.skip(4).skip(4) =~= s.skip(8));
        Some(low as u64 + 0x1_0000_0000 * high as u64)
    }

    fn read_byte(&mut self) -> (r: Option<u8>)
        requires
            old(self).wf(),
        ensures
            final(self).wf(),
            match r {
                Some(b) => old(self).rest().len() > 0 && b == old(self).rest()[0]
                    && final(self).rest() == old(self).rest().skip(1),
                None => old(self).rest().len() == 0,
            },
    {
        let total: usize = self.bytes.len();
        if total - self.at < 1 {
            return None;
        }
        let ghost s = self.rest();
        let b: u8 = self.bytes[self.at];
        self.at = self.at + 1;
        assert(self.rest() =~= s.skip(1));
        Some(b)
    }

    fn read_string(&mut self, max: u32) -> (r: Option<String>)
        requires
            old(self).wf(),
        ensures
            final(self).wf(),
            match read_text(old(self).rest(), max) {
                Some((t, rest)) => r is Some && r->0@ == t && final(self).rest() == rest,
                None => r is None,
            },
    {
        proof {
            reveal(read_text);
        }
        let n: u32 = match self.read_u32() {
            Some(n) => n,
            None => {
                return None;
            },
        };
        let total: usize = self.bytes.len();
        if n > max || total - self.at < n as usize {
            return None;
        }
        let ghost s = self.rest();
        let mut body: Vec<u8> = Vec::new();
        let mut i: usize = 0;
        while i < n as usize
            invariant
                i <= n,
                self.wf(),
                total == self.bytes@.len(),
                s == self.rest(),
                n <= s.len(),
                body@ == s.take(i as int),
            decreases n - i,
        {
            assert(s[i as int] == self.bytes@[self.at + i]);
            body.push(self.bytes[self.at + i]);
            assert(body@ =~= s.take(i + 1));
            i += 1;
        }
        self.at = self.at + n as usize;
        assert(self.rest() =~= s.skip(n as int));
        match text::decode_text(body.as_slice()) {
            Ok(t) => Some(t.to_owned()),
            Err(_) => None,
        }
    }

    fn read_cached_file(&mut self) -> (r: Option<CachedFontFile>)
        requires
            old(self).wf(),
        ensures
            final(self).wf(),
            match read_file(old(self).rest()) {
                Some((f, rest)) => r is Some && r->0@ == f && final(self).rest() == rest,
                None => r is None,
            },
    {
        proof {
            reveal(read_file);
        }
        let path: String = match self.read_string(MAX_PATH) {
            Some(path) => path,
            None => {
                return None;
            },
        };
        let index: u32 = match self.read_u32() {
            Some(n) => n,
            None => {
                return None;
            },
        };
        let secs: u64 = match self.read_u64() {
            Some(n) => n,
            None => {
                return None;
            },
        };
        let mtime_nanos: u32 = match self.read_u32() {
            Some(n) => n,
            None => {
                return None;
            },
        };
        let file_size: u64 = match self.read_u64() {
            Some(n) => n,
            None => {
                return None;
            },
        };
        let mtime_secs: i64 = if secs >= 0x8000_0000_0000_0000 {
            (secs as i128 - 0x1_0000_0000_0000_0000) as i64
        } else {
            secs as i64
        };
        Some(CachedFontFile { path, index, mtime_secs, mtime_nanos, file_size })
    }

    fn read_names(&mut self, n: u32) -> (r: Option<Vec<String>>)
        requires
            old(self).wf(),
        ensures
            final(self).wf(),
            match read_texts(old(self).rest(), n as nat) {
                Some((v, rest)) => r is Some && text::texts(r->0@) == v && final(self).rest()
                    == rest,
                None => r is None,
            },
    {
        let ghost s = self.rest();
        let mut out: Vec<String> = Vec::new();
        let mut i: u32 = 0;
        while i < n
            invariant
                i <= n,
                self.wf(),
                read_texts(s, n as nat) == (match read_texts(self.rest(), (n - i) as nat) {
                    Some((more, rest)) => Some((text::texts(out@) + more, rest)),
                    None => None,
                }),
                s == old(self).rest(),
            decreases n - i,
        {
            let ghost before = text::texts(out@);
            let ghost here = self.rest();
            match self.read_string(MAX_NAME) {
                Some(name) => {
                    let ghost t = name@;
                    out.push(name);
                    proof {
                        assert(text::texts(out@) =~= before.push(t));
                        if let Some((more, rest)) = read_texts(self.rest(), (n - i - 1) as nat) {
                            assert(before + (seq![t] + more) =~= text::texts(out@) + more);
                        }
                    }
                },
                None => {
                    return None;
                },
            }
            i += 1;
        }
        assert(text::texts(out@) + Seq::<Seq<char>>::empty() =~= text::texts(out@));
        Some(out)
    }

    fn read_records(&mut self, n: u32) -> (r: Option<Vec<CachedFontFile>>)
        requires
            old(self).wf(),
        ensures
            final(self).wf(),
            match read_files(old(self).rest(), n as nat) {
                Some((v, rest)) => r is Some && file_models(r->0@) == v && final(self).rest()
                    == rest,
                None => r is None,
            },
    {
        let ghost s = self.rest();
        let mut out: Vec<CachedFontFile> = Vec::new();
        let mut i: u32 = 0;
        assert(file_models(out@) =~= Seq::<FileModel>::empty());
        while i < n
            invariant
                i <= n,
                self.wf(),
                read_files(s, n as nat) == (match read_files(self.rest(), (n - i) as nat) {
                    Some((more, rest)) => Some((file_models(out@) + more, rest)),
                    None => None,
                }),
                s == old(self).rest(),
            decreases n - i,
        {
            let ghost before = file_models(out@);
            match self.read_cached_file() {
                Some(file) => {
                    let ghost f = file@;
                    out.push(file);
                    proof {
                        assert(file_models(out@) =~= before.push(f));
                        if let Some((more, rest)) = read_files(self.rest(), (n - i - 1) as nat) {
                            assert(before + (seq![f] + more) =~= file_models(out@) + more);
                        }
                    }
                },
                None => {
                    return None;
                },
            }
            i += 1;
        }
        assert(file_models(out@) + Seq::<FileModel>::empty() =~= file_models(out@));
        Some(out)
    }

    fn read_cell_metrics(&mut self) -> (r: Option<CellMetrics>)
        requires
            old(self).wf(),
        ensures
            final(self).wf(),
            match read_metrics(old(self).rest()) {
                Some((m, rest)) => r == Some(m) && final(self).rest() == rest,
                None => r is None,
            },
    {
        let cell_width: u32 = match self.read_u32() {
            Some(n) => n,
            None => {
                return None;
            },
        };
        let cell_height: u32 = match self.read_u32() {
            Some(n) => n,
            None => {
                return None;
            },
        };
        let raw: u32 = match self.read_u32() {
            Some(n) => n,
            None => {
                return None;
            },
        };
        let ascent: i32 = if raw >= 0x8000_0000 {
            (raw as i64 - 0x1_0000_0000) as i32
        } else {
            raw as i32
        };
        Some(CellMetrics { cell_width, cell_height, ascent })
    }

    fn read_cache_body(&mut self) -> (r: Option<FontCacheData>)
        requires
            old(self).wf(),
        ensures
            cache_model(r) == read_body(old(self).rest()),
    {
        let n: u32 = match self.read_u32() {
            Some(n) => n,
            None => {
                return None;
            },
        };
        if n > MAX_ENTRIES {
            return None;
        }
        let families: Vec<String> = match self.read_names(n) {
            Some(v) => v,
            None => {
                return None;
            },
        };
        let font_size: u32 = match self.read_u32() {
            Some(n) => n,
            None => {
                return None;
            },
        };
        let subpixel: bool = match self.read_byte() {
            Some(b) => b != 0,
            None => {
                return None;
            },
        };
        let primary: CachedFontFile = match self.read_cached_file() {
            Some(f) => f,
            None => {
                return None;
            },
        };
        let metrics: CellMetrics = match self.read_cell_metrics() {
            Some(m) => m,
            None => {
                return None;
            },
        };
        let count: u32 = match self.read_u32() {
            Some(n) => n,
            None => {
                return None;
            },
        };
        if count > MAX_ENTRIES {
            return None;
        }
        let fallbacks: Vec<CachedFontFile> = match self.read_records(count) {
            Some(v) => v,
            None => {
                return None;
            },
        };
        Some(FontCacheData { families, font_size, subpixel, primary, metrics, fallbacks })
    }
}

/// Deserializes font cache data from compact binary buffer.
pub fn deserialize_cache(bytes: &[u8]) -> (r: Option<FontCacheData>)
    ensures
        cache_model(r) == cache_of(bytes@),
{
    if bytes.len() < 12 {
        return None;
    }
    if !(bytes[0] == 0x46 && bytes[1] == 0x54 && bytes[2] == 0x54 && bytes[3] == 0x59 && bytes[4]
        == 0x46 && bytes[5] == 0x4f && bytes[6] == 0x4e && bytes[7] == 0x54) {
        proof {
            let head = bytes@.take(8);
            if head == magic() {
                assert(head[0] == 0x46 && head[1] == 0x54 && head[2] == 0x54 && head[3] == 0x59
                    && head[4] == 0x46 && head[5] == 0x4f && head[6] == 0x4e && head[7] == 0x54);
            }
        }
        return None;
    }
    assert(bytes@.take(8) =~= magic());
    let mut copy: Vec<u8> = Vec::new();
    push_bytes(&mut copy, bytes);
    assert(copy@ =~= bytes@);
    let mut reader: Reader = Reader { bytes: copy, at: 8 };
    match reader.read_u32() {
        Some(version) => if version != 1 {
            None
        } else {
            reader.read_cache_body()
        },
        None => None,
    }
}

/// Tells whether a cache was made for what is asked for now. Whether the font sizes agree is told
/// by the caller.
pub fn cache_matches(data: &FontCacheData, families: &Vec<String>, same_size: bool, subpixel: bool)
    -> (r: bool)
    ensures
        r == (data@.families == text::texts(families@) && same_size && data.subpixel == subpixel),
{
    same_size && data.subpixel == subpixel && text::same_strings(&data.families, families)
}

} // verus!
