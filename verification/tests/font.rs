//! Glyphs: sizes, the atlas, the caches and the pictures of a face.

use ftty::config::{FreeTypeLoadFlags, FreeTypeLoadTarget, FreeTypeRenderTarget};
use ftty::font::atlas::{GlyphAtlas, Shelf};
use ftty::font::cache::{
    cache_file_path, cache_matches, deserialize_cache, serialize_cache, CachedFontFile,
    FontCacheData,
};
use ftty::font::engine::{is_buffer_counted, BitmapShape, LineUnits};
use ftty::font::face::{
    convert_bitmap, FreeTypeConfig, GlyphBitmap, PixelMode, RasterizedGlyph, RenderMode,
    LINEAR_TO_SRGB,
};
use ftty::font::fallback::{FallbackCache, FallbackFace, SearchStep, MAX_RESOLVED_CACHE};
use ftty::font::render::{
    cell_metrics, glyph_picture, is_picture_held, DrawnBitmap, Font, FontLibrary, StyleChain,
};
use ftty::font::tables::{
    are_advance_variations_sound, are_line_variations_sound, cell_units, find_glyph, find_table,
    is_descent_out_of_range, is_header_sound, is_part_sound, parse_cell_units, units_of_face,
    CellUnits, FontTables, TableEntry, CMAP, FVAR, HEAD, HHEA, HMTX, HVAR, MAXP, MVAR, OS2,
};
use ftty::font::{
    configured_key, discovered_key, face_source, family_names, is_valid_font_size, style_index,
    substitute_style, CellMetrics, FaceKey, FaceSource,
};
use ftty::grid::CellFlags;

/// A glyph of visible pixels.
fn glyph(width: u32, height: u32) -> RasterizedGlyph {
    RasterizedGlyph {
        width,
        height,
        offset_x: 1,
        offset_y: -1,
        pitch: (width * 4) as usize,
        pixels: vec![200; (width * height * 4) as usize],
    }
}

fn flag_sets() -> [CellFlags; 4] {
    [
        CellFlags::empty(),
        CellFlags::bold(),
        CellFlags::italic(),
        CellFlags::bold().union(CellFlags::italic()),
    ]
}

/// A bitmap font with the digit zero and the letter A.
fn bitmap_font() -> Vec<u8> {
    "STARTFONT 2.1
FONT -ftty-fixed-medium-r-normal--8-80-72-72-c-80-iso10646-1
SIZE 8 72 72
FONTBOUNDINGBOX 8 8 0 0
STARTPROPERTIES 8
PIXEL_SIZE 8
POINT_SIZE 80
RESOLUTION_X 72
RESOLUTION_Y 72
FONT_ASCENT 8
FONT_DESCENT 0
CHARSET_REGISTRY \"ISO10646\"
CHARSET_ENCODING \"1\"
ENDPROPERTIES
CHARS 2
STARTCHAR zero
ENCODING 48
SWIDTH 1000 0
DWIDTH 8 0
BBX 8 8 0 0
BITMAP
3C
42
42
42
42
42
3C
00
ENDCHAR
STARTCHAR A
ENCODING 65
SWIDTH 1000 0
DWIDTH 8 0
BBX 8 8 0 0
BITMAP
18
24
42
42
7E
42
42
81
ENDCHAR
ENDFONT
"
    .as_bytes()
    .to_vec()
}

fn invalid_sizes() {
    for size in [0.0f32, -1.0, 5.9, 72.1, f32::NAN, f32::INFINITY] {
        assert!(!is_valid_font_size(size.to_bits()));
    }
    for size in [6.0f32, 14.0, 72.0] {
        assert!(is_valid_font_size(size.to_bits()));
    }
}

#[test]
fn font_rejects_invalid_font_sizes() {
    invalid_sizes();
}

#[test]
fn tests_rejects_invalid_font_sizes() {
    invalid_sizes();
}

fn exact_fits() {
    let mut shelf = Shelf::default();
    let first = shelf.allocate(10, 10, [32, 32]).unwrap();
    assert_eq!(first, [1, 1]);
    assert_eq!(shelf.x, 12);
    assert_eq!(shelf.height, 12);
    let second = shelf.allocate(10, 10, [32, 32]).unwrap();
    assert_eq!(second, [13, 1]);
    assert_eq!(shelf.x, 24);
}

#[test]
fn font_shelf_accepts_exact_fits_and_preserves_padding() {
    exact_fits();
}

#[test]
fn tests_shelf_accepts_exact_fits_and_preserves_padding() {
    exact_fits();
}

fn failed_allocation() {
    let mut shelf = Shelf::default();
    let _ = shelf.allocate(10, 10, [32, 32]).unwrap();
    let state_before = (shelf.x, shelf.y, shelf.height);
    assert!(shelf.allocate(30, 30, [32, 32]).is_none());
    assert_eq!((shelf.x, shelf.y, shelf.height), state_before);
}

#[test]
fn font_failed_allocation_does_not_consume_space() {
    failed_allocation();
}

#[test]
fn tests_failed_allocation_does_not_consume_space() {
    failed_allocation();
}

fn spaces() {
    let mut atlas = GlyphAtlas::new(32, 32);
    let a = atlas.get_or_insert('A', CellFlags::empty(), &glyph(8, 10)).unwrap();
    assert!(a.width > 0 && a.height > 0);
    atlas.dirty = false;
    let colored = CellFlags::dim().union(CellFlags::reverse());
    assert_eq!(atlas.get_or_insert('A', colored, &glyph(8, 10)), Some(a));
    assert!(!atlas.dirty);
    let space = atlas
        .get_or_insert(' ', CellFlags::empty(), &RasterizedGlyph::empty())
        .unwrap();
    assert_eq!(space.width * space.height, 0);
    assert!(!atlas.dirty);
    assert_eq!(atlas.get(' ', CellFlags::empty()), Some(space));
}

#[test]
fn font_glyph_cache_ignores_color_attributes_and_caches_spaces() {
    spaces();
}

#[test]
fn tests_glyph_cache_ignores_color_attributes_and_caches_spaces() {
    spaces();
}

#[test]
fn tests_styled_glyphs_have_separate_cache_entries() {
    let mut atlas = GlyphAtlas::new(64, 64);
    for flags in flag_sets() {
        assert!(atlas.get_or_insert('A', flags, &glyph(8, 10)).is_some());
    }
    let styled_ascii_count = atlas.ascii_cache.iter().flatten().count();
    assert_eq!(styled_ascii_count, 4);
    assert_eq!(atlas.cache.len(), 0);
}

fn growth() {
    let mut atlas = GlyphAtlas::new(32, 32);
    let first = atlas.get_or_insert('A', CellFlags::empty(), &glyph(20, 20)).unwrap();
    assert!(atlas.get_or_insert('W', CellFlags::empty(), &glyph(20, 20)).is_some());
    assert!(atlas.get_or_insert('M', CellFlags::empty(), &glyph(20, 20)).is_some());
    assert!(atlas.width > 32);
    let relooked = atlas.get('A', CellFlags::empty()).unwrap();
    assert_eq!(first, relooked);
    let [x, y] = relooked.position;
    assert!(x > 0 && y > 0);
    assert_eq!(atlas.pixels[(4 * (y * atlas.width + x - 1)) as usize], 0);
    assert_eq!(atlas.pixels[(4 * (y * atlas.width + x)) as usize], 200);
}

#[test]
fn font_growth_preserves_glyph_coordinates_pixels_and_padding() {
    growth();
}

#[test]
fn tests_growth_preserves_glyph_coordinates_pixels_and_padding() {
    growth();
}

fn eviction() {
    let mut atlas = GlyphAtlas::new(16, 16);
    let mut full = false;
    for c in 'A'..='Z' {
        if atlas.get_or_insert(c, CellFlags::empty(), &glyph(900, 900)).is_none() {
            full = true;
            break;
        }
    }
    assert!(full);
    assert_eq!((atlas.width, atlas.height), (2048, 2048));
    atlas.clear();
    assert!(atlas.get_or_insert('A', CellFlags::empty(), &glyph(900, 900)).is_some());
    assert!(atlas.get_or_insert('B', CellFlags::empty(), &glyph(3000, 1)).is_none());
}

#[test]
fn font_atlas_growth_and_full_eviction() {
    eviction();
}

#[test]
fn tests_atlas_growth_and_full_eviction() {
    eviction();
}

fn reuse() {
    let mut atlas = GlyphAtlas::new(16, 16);
    let _ = atlas.get_or_insert('A', CellFlags::empty(), &glyph(8, 10));
    atlas.clear();
    assert!(atlas.cache.is_empty());
    assert_eq!(atlas.pixels.iter().map(|&p| p as u32).sum::<u32>(), 0);
    assert!(atlas.dirty);
    assert!(atlas.get_or_insert('A', CellFlags::empty(), &glyph(8, 10)).is_some());
}

#[test]
fn font_full_atlas_can_be_reused_between_frames() {
    reuse();
}

#[test]
fn tests_full_atlas_can_be_reused_between_frames() {
    reuse();
}

#[test]
fn test_ascii_direct_cache_consistency() {
    let mut atlas = GlyphAtlas::new(256, 256);
    for flags in flag_sets() {
        for c in ['A', 'z', '0', '$', ' '] {
            let picture = if c == ' ' { RasterizedGlyph::empty() } else { glyph(8, 10) };
            let inserted = atlas.get_or_insert(c, flags, &picture).expect("fit ascii");
            let retrieved = atlas.get(c, flags).expect("cached ascii");
            assert_eq!(inserted, retrieved);
        }
    }
    // Atlas clear invalidates ASCII cache
    atlas.clear();
    assert_eq!(atlas.get('A', CellFlags::empty()), None);
}

#[test]
fn test_whitespace_and_empty_glyph_safeguards() {
    let mut atlas = GlyphAtlas::new(256, 256);
    // Space is whitespace: width * height is 0 and it is successfully cached
    let space = atlas
        .get_or_insert(' ', CellFlags::empty(), &RasterizedGlyph::empty())
        .expect("space glyph must be cached");
    assert_eq!(space.width * space.height, 0);
    assert_eq!(atlas.get(' ', CellFlags::empty()), Some(space));

    // Null char is not whitespace and has no glyph; get_or_insert must not poison ascii_cache
    let res = atlas.get_or_insert('\0', CellFlags::empty(), &RasterizedGlyph::empty());
    assert!(res.is_none());
    assert_eq!(atlas.ascii_cache[0], None);
}

#[test]
fn test_atlas_dirty_rect_tracking_and_full_upload_reset() {
    let mut atlas = GlyphAtlas::new(128, 128);
    assert!(atlas.full_upload);
    assert!(atlas.dirty);
    assert!(atlas.dirty_rect.is_none());

    // Simulate first full upload
    atlas.full_upload = false;
    atlas.dirty = false;

    // Insert first glyph
    assert!(atlas.get_or_insert('A', CellFlags::empty(), &glyph(8, 10)).is_some());
    assert!(atlas.dirty);
    assert!(!atlas.full_upload);
    let rect1 = atlas.dirty_rect.expect("dirty rect must be set on glyph insertion");
    assert!(rect1[2] > rect1[0]);
    assert!(rect1[3] > rect1[1]);

    // Insert second glyph expands bounding box
    assert!(atlas.get_or_insert('B', CellFlags::empty(), &glyph(8, 10)).is_some());
    let rect2 = atlas.dirty_rect.expect("dirty rect must be expanded");
    assert!(rect2[0] <= rect1[0]);
    assert!(rect2[1] <= rect1[1]);
    assert!(rect2[2] >= rect1[2]);
    assert!(rect2[3] >= rect1[3]);

    // Clearing atlas resets to full upload and clears dirty rect
    atlas.clear();
    assert!(atlas.full_upload);
    assert!(atlas.dirty);
    assert!(atlas.dirty_rect.is_none());
}

fn capacity() {
    let mut cache = FallbackCache::default();
    for i in 0..MAX_RESOLVED_CACHE {
        let c = char::from_u32(0x1000 + i as u32).unwrap_or('A');
        cache.remember(c, 0, None);
    }
    assert_eq!(cache.resolved.len(), MAX_RESOLVED_CACHE);
    let oldest = char::from_u32(0x1000).unwrap();
    assert!(cache.lookup(oldest, 0).is_some());

    // Resolving a new character evicts the oldest entry (FIFO)
    assert!(cache.lookup('Z', 1).is_none());
    cache.remember('Z', 1, None);
    assert_eq!(cache.resolved.len(), MAX_RESOLVED_CACHE);
    assert!(cache.lookup(oldest, 0).is_none());
    assert!(cache.lookup('Z', 1).is_some());
}

#[test]
fn font_fallback_cache_has_bounded_capacity() {
    capacity();
}

#[test]
fn tests_fallback_cache_has_bounded_capacity() {
    capacity();
}

#[test]
fn test_srgb_optical_alpha_transfer_table() {
    // Boundaries must map identically to 0 and 255
    assert_eq!(LINEAR_TO_SRGB[0], 0);
    assert_eq!(LINEAR_TO_SRGB[255], 255);

    // Curve must be strictly non-decreasing across the entire u8 domain
    for i in 0..255 {
        assert!(LINEAR_TO_SRGB[i] <= LINEAR_TO_SRGB[i + 1]);
    }

    // Mid-tone (50% geometric coverage) must be perceptually expanded for sRGB displays (~73.5%)
    assert_eq!(LINEAR_TO_SRGB[128], 188);
    // Low-mid tone (25% coverage) must be expanded (~53.7%)
    assert_eq!(LINEAR_TO_SRGB[64], 137);

    // Rasterization must apply the sRGB table
    let bitmap = GlyphBitmap {
        mode: PixelMode::Gray,
        width: 2,
        rows: 1,
        pitch: 2,
        left: 0,
        top: 1,
        buffer: vec![64, 128],
    };
    let picture = convert_bitmap(&bitmap, false);
    assert!(picture.pixels.contains(&137));
    assert!(picture.pixels.contains(&188));
}

#[test]
fn test_font_cache_roundtrip() {
    let original = || FontCacheData {
        families: vec!["monospace".to_string(), "JoyPixels".to_string()],
        font_size: 14.5f32.to_bits(),
        subpixel: true,
        primary: CachedFontFile {
            path: "/usr/share/fonts/TTF/DejaVuSansMono.ttf".to_string(),
            index: 0,
            mtime_secs: 1_700_000_000,
            mtime_nanos: 123_456,
            file_size: 334_128,
        },
        metrics: CellMetrics {
            cell_width: 9,
            cell_height: 18,
            ascent: 14,
        },
        fallbacks: vec![CachedFontFile {
            path: "/usr/share/fonts/JoyPixels.ttf".to_string(),
            index: 1,
            mtime_secs: 1_700_000_100,
            mtime_nanos: 0,
            file_size: 20_000_000,
        }],
    };
    let serialized = serialize_cache(&original());
    let deserialized = deserialize_cache(&serialized).unwrap();
    assert_eq!(format!("{deserialized:?}"), format!("{:?}", original()));
    assert!(deserialized.primary.is_valid(334_128, 1_700_000_000, 123_456));
    assert!(!deserialized.primary.is_valid(334_129, 1_700_000_000, 123_456));
    let families = vec!["monospace".to_string(), "JoyPixels".to_string()];
    assert!(cache_matches(&deserialized, &families, true, true));
    assert!(!cache_matches(&deserialized, &families, true, false));
    assert!(!cache_matches(&deserialized, &Vec::new(), true, true));
}

#[test]
fn test_corrupted_cache_handled_safely() {
    assert!(deserialize_cache(b"").is_none());
    assert!(deserialize_cache(b"INVALID_HEADER_DATA").is_none());
    assert!(deserialize_cache(b"FTTYFONT\x02\x00\x00\x00").is_none()); // Version mismatch
}

#[test]
fn cache_files_have_a_place() {
    assert_eq!(
        cache_file_path(Some("/c"), Some("/home/u")),
        Some("/c/ftty/font_cache.bin".to_string())
    );
    assert_eq!(
        cache_file_path(None, Some("/home/u")),
        Some("/home/u/.cache/ftty/font_cache.bin".to_string())
    );
    assert_eq!(cache_file_path(None, None), None);
}

#[test]
fn faces_are_found_by_their_keys() {
    assert_eq!(
        configured_key(1, 0, &vec![0, 7]),
        Some(FaceKey { face: 2, glyph: 7, style: 1 })
    );
    assert_eq!(configured_key(1, 0, &vec![0, 0]), None);
    let key = discovered_key(1, 2, Some((3, 9)));
    assert_eq!(key, FaceKey { face: 6, glyph: 9, style: 1 });
    assert_eq!(face_source(key.face, 2), FaceSource::Discovered(3));
    assert_eq!(face_source(2, 2), FaceSource::Configured(1));
    assert_eq!(face_source(0, 2), FaceSource::Primary);
    assert_eq!(discovered_key(0, 2, None).glyph, 0);
    assert_eq!(style_index(CellFlags::bold().union(CellFlags::italic())), 3);
}

#[test]
fn fallback_faces_are_kept_once() {
    let face = |index: u32| FallbackFace {
        path: "/f.ttf".to_string(),
        index,
        style: 0,
    };
    let mut cache = FallbackCache::default();
    assert_eq!(cache.insert_face(face(0)), 0);
    assert_eq!(cache.insert_face(face(1)), 1);
    assert_eq!(cache.insert_face(face(0)), 0);
    assert_eq!(cache.covering_face(Some(0), &vec![0, 5]), Some((1, 5)));
    assert_eq!(cache.covering_face(Some(1), &vec![4, 5]), None);
    assert_eq!(cache.covering_face(None, &vec![4, 5]), Some((0, 4)));
}

#[test]
fn searches_load_candidates_in_order() {
    let face = |path: &str, style: u8| FallbackFace {
        path: path.to_string(),
        index: 0,
        style,
    };
    let wanted = vec![face("/a.ttf", 0), face("/b.ttf", 0)];
    let mut cache = FallbackCache::default();
    cache.insert_face(face("/c.ttf", 1));
    assert_eq!(cache.search(&wanted, 0, &vec![9]), SearchStep::Load(0));
    // The first candidate cannot be loaded; the second lacks the character.
    assert_eq!(cache.search(&wanted, 1, &vec![9]), SearchStep::Load(1));
    cache.insert_face(face("/b.ttf", 0));
    assert_eq!(cache.search(&wanted, 1, &vec![9, 0]), SearchStep::Found(0, 9));
    assert_eq!(cache.search(&wanted, 1, &vec![0, 0]), SearchStep::Nothing);
    assert_eq!(cache.search(&wanted, 1, &vec![9, 7]), SearchStep::Found(1, 7));
}

#[test]
fn families_are_looked_for_before_any_monospace_font() {
    assert_eq!(family_names("  Iosevka Term "), ["Iosevka Term", "monospace"]);
    assert_eq!(family_names("MonoSpace"), ["monospace"]);
    assert_eq!(family_names(" "), ["monospace"]);
    assert_eq!(family_names("a\0b"), ["monospace"]);
    assert_eq!([0, 1, 2, 3].map(substitute_style), [0, 0, 0, 1]);
}

#[test]
fn subpixel_bitmaps_become_colors() {
    let bitmap = |pitch: i32| GlyphBitmap {
        mode: PixelMode::Lcd,
        width: 3,
        rows: 2,
        pitch,
        left: 4,
        top: 9,
        buffer: vec![0, 128, 64, 255, 0, 0],
    };
    let picture = convert_bitmap(&bitmap(3), false);
    assert_eq!((picture.width, picture.height), (1, 2));
    assert_eq!((picture.offset_x, picture.offset_y), (4, 7));
    assert_eq!(picture.pixels, [0, 188, 137, 128, 255, 0, 0, 255]);
    let picture = convert_bitmap(&bitmap(3), true);
    assert_eq!(picture.pixels[..4], [137, 188, 0, 128]);
    // Rows that run upward are turned round.
    let picture = convert_bitmap(&bitmap(-3), false);
    assert_eq!(picture.pixels[4..], [0, 188, 137, 128]);
}

#[test]
fn rendering_options_become_flags() {
    let config = FreeTypeConfig::default();
    assert_eq!(config.compute_load_flags(), 0x1_0000);
    assert_eq!(config.compute_render_mode(true), RenderMode::Lcd);
    assert_eq!(config.compute_render_mode(false), RenderMode::Normal);
    let plain = FreeTypeConfig {
        load_target: FreeTypeLoadTarget::Mono,
        render_target: FreeTypeRenderTarget::Mono,
        load_flags: FreeTypeLoadFlags::NoHinting,
    };
    assert_eq!(plain.compute_load_flags(), 2);
    assert_eq!(plain.compute_render_mode(true), RenderMode::Mono);
}

#[test]
fn faces_draw_their_glyphs() {
    let library = FontLibrary::new().expect("library");
    let mut font = Font::from_bytes(&library, bitmap_font(), 0).expect("font");
    let a = font.lookup_glyph_index('A');
    assert_ne!(a, 0);
    assert_eq!(font.lookup_glyph_index('B'), 0);
    let picture = font.rasterize_indexed(a, 8 * 64, FreeTypeConfig::default(), false, false);
    assert_eq!((picture.width, picture.height), (8, 8));
    assert_eq!((picture.offset_x, picture.offset_y), (0, 0));
    let opaque: Vec<u8> = picture
        .pixels
        .chunks(32)
        .map(|row| row.chunks(4).fold(0, |bits, p| bits << 1 | u8::from(p[3] != 0)))
        .collect();
    assert_eq!(opaque, [0x18, 0x24, 0x42, 0x42, 0x7e, 0x42, 0x42, 0x81]);

    // A glyph that the face does not have leaves no pixels.
    let none = font.rasterize_indexed(999, 8 * 64, FreeTypeConfig::default(), false, false);
    assert_eq!((none.width, none.height), (0, 0));
    assert!(none.pixels.is_empty());
}

#[test]
fn faces_measure_a_cell() {
    let library = FontLibrary::new().expect("library");
    let mut font = Font::from_bytes(&library, bitmap_font(), 0).expect("font");
    let fallback = CellMetrics {
        cell_width: 1,
        cell_height: 2,
        ascent: 3,
    };
    let cell = font.compute_cell_metrics(8 * 64, fallback);
    assert_eq!(
        cell,
        CellMetrics {
            cell_width: 8,
            cell_height: 8,
            ascent: 8,
        }
    );
}

#[test]
fn bytes_that_are_no_font_are_refused() {
    let library = FontLibrary::new().expect("library");
    let e = Font::from_bytes(&library, b"no font".to_vec(), 0).err().unwrap();
    assert!(e.to_string().starts_with("FreeType new_memory_face failed: "));
    assert!(Font::from_bytes(&library, bitmap_font(), u32::MAX).is_err());
    let e = FontLibrary::opened(Err("OutOfMemory".to_string())).err().unwrap();
    assert_eq!(e.to_string(), "initialize FreeType library: OutOfMemory");
    let e = Font::opened(Err("UnknownFileFormat".to_string())).err().unwrap();
    assert_eq!(e.to_string(), "FreeType new_memory_face failed: UnknownFileFormat");
}

#[test]
fn the_first_face_with_a_glyph_is_chosen() {
    let library = FontLibrary::new().expect("library");
    let font = || Font::from_bytes(&library, bitmap_font(), 0).expect("font");
    let chain = StyleChain {
        primary: font(),
        fallbacks: vec![font()],
    };
    let key = chain.face_key('A', 2).unwrap();
    assert_eq!((key.face, key.style), (0, 2));
    assert_ne!(key.glyph, 0);
    assert_eq!(chain.face_key('B', 2), None);
}

#[test]
fn cells_are_measured_in_whole_pixels() {
    let fallback = CellMetrics {
        cell_width: 1,
        cell_height: 2,
        ascent: 3,
    };
    let line = |ascender: i64, descender: i64, height: i64| LineUnits {
        ascender,
        descender,
        height,
    };
    assert_eq!(cell_metrics(None, None, fallback), fallback);
    assert_eq!(
        cell_metrics(Some(513), Some(line(-65, 0, 1024)), fallback),
        CellMetrics {
            cell_width: 9,
            cell_height: 16,
            ascent: -1,
        }
    );
    assert_eq!(
        cell_metrics(Some(0), Some(line(640, -130, 0)), fallback),
        CellMetrics {
            cell_width: 1,
            cell_height: 13,
            ascent: 10,
        }
    );
    assert_eq!(glyph_picture(None, true).width, 0);
}

#[test]
fn tables_give_the_size_of_a_cell() {
    let tables = FontTables {
        units_per_em: 1000,
        ascender: 800,
        descender: -200,
        line_gap: 90,
    };
    assert_eq!(
        cell_units(Some(tables), Some(600)),
        Some(CellUnits {
            units_per_em: 1000,
            line: 1090,
            ascent: 800,
            advance: 600,
        })
    );
    let unscaled = FontTables {
        units_per_em: 0,
        ..tables
    };
    assert_eq!(cell_units(Some(unscaled), Some(600)), None);
    assert_eq!(cell_units(None, Some(600)), None);
    assert_eq!(parse_cell_units(b"no font", 0), None);
    assert_eq!(parse_cell_units(&bitmap_font(), 0), None);
}

#[test]
fn cut_or_foreign_caches_are_refused() {
    let file = |path: &str| CachedFontFile {
        path: path.to_string(),
        index: 1,
        mtime_secs: -5,
        mtime_nanos: 6,
        file_size: 7,
    };
    let data = FontCacheData {
        families: vec!["Mono".to_string(), "Other".to_string()],
        font_size: 14,
        subpixel: true,
        primary: file("/a.ttf"),
        metrics: CellMetrics {
            cell_width: 8,
            cell_height: 16,
            ascent: -1,
        },
        fallbacks: vec![file("/b.ttf"), file("")],
    };
    let bytes = serialize_cache(&data);
    assert!(deserialize_cache(&bytes).is_some());
    for n in 0..bytes.len() {
        assert!(deserialize_cache(&bytes[..n]).is_none());
    }
    for i in 0..12 {
        let mut foreign = bytes.clone();
        foreign[i] ^= 1;
        assert!(deserialize_cache(&foreign).is_none());
    }
}

#[test]
fn other_pixel_modes_count_as_gray() {
    let bitmap = |mode: PixelMode| GlyphBitmap {
        mode,
        width: 2,
        rows: 1,
        pitch: 2,
        left: 0,
        top: 1,
        buffer: vec![0, 128],
    };
    let gray = convert_bitmap(&bitmap(PixelMode::Gray), false);
    assert_eq!(gray.pixels, [0, 0, 0, 0, 188, 188, 188, 128]);
    for mode in [
        PixelMode::Unset,
        PixelMode::Gray2,
        PixelMode::Gray4,
        PixelMode::LcdV,
        PixelMode::Bgra,
        PixelMode::Unexpected,
    ] {
        assert_eq!(convert_bitmap(&bitmap(mode), false).pixels, gray.pixels);
    }
}

#[test]
fn faces_are_asked_for_the_character() {
    let library = FontLibrary::new().expect("library");
    let font = || Font::from_bytes(&library, bitmap_font(), 0).expect("font");
    let chain = StyleChain {
        primary: font(),
        fallbacks: vec![font()],
    };
    assert_eq!(chain.face_key('A', 1).unwrap().glyph, font().lookup_glyph_index('A'));
    assert!(chain.face_key('B', 1).is_none());
}

/// A number in two bytes, most significant first.
fn word(bytes: &mut Vec<u8>, at: usize, n: u16) {
    bytes[at..at + 2].copy_from_slice(&n.to_be_bytes());
}

fn head() -> Vec<u8> {
    let mut t = vec![0; 54];
    word(&mut t, 18, 1000);
    t
}

/// A header with an ascender, a descender and a gap, for two glyphs with an advance.
fn hhea(ascender: i16, descender: i16, gap: i16) -> Vec<u8> {
    let mut t = vec![0; 36];
    word(&mut t, 4, ascender as u16);
    word(&mut t, 6, descender as u16);
    word(&mut t, 8, gap as u16);
    word(&mut t, 34, 2);
    t
}

/// Metrics for Windows with a descent.
fn os2(descent: u16) -> Vec<u8> {
    let mut t = vec![0; 78];
    word(&mut t, 76, descent);
    t
}

/// A character map with one part that gives a glyph for the digit zero.
fn cmap(glyph: u16) -> Vec<u8> {
    let words = [0, 1, 0, 3, 0, 12, 6, 12, 0, 0x30, 1, glyph];
    words.iter().flat_map(|w: &u16| w.to_be_bytes()).collect()
}

fn tables(hhea: Vec<u8>, os2: Vec<u8>) -> Vec<(u32, Vec<u8>)> {
    vec![
        (OS2, os2),
        (CMAP, cmap(1)),
        (HEAD, head()),
        (HHEA, hhea),
        (HMTX, vec![1, 0, 0, 0, 2, 88, 0, 0]),
        (MAXP, vec![0, 0, 0x50, 0, 0, 2]),
    ]
}

/// A font file of tables that begins at a place.
fn font_file(at: u32, tables: &[(u32, Vec<u8>)]) -> Vec<u8> {
    let mut bytes = vec![0, 1, 0, 0, 0, tables.len() as u8, 0, 0, 0, 0, 0, 0];
    let mut end = at + 12 + 16 * tables.len() as u32;
    for (tag, data) in tables {
        for n in [*tag, 0, end, data.len() as u32] {
            bytes.extend(n.to_be_bytes());
        }
        end += data.len() as u32;
    }
    for (_, data) in tables {
        bytes.extend(data);
    }
    bytes
}

#[test]
fn cells_are_measured_by_the_tables_of_a_file() {
    let expected = Some(CellUnits {
        units_per_em: 1000,
        line: 1090,
        ascent: 800,
        advance: 600,
    });
    let all = tables(hhea(800, -200, 90), os2(7));
    assert_eq!(parse_cell_units(&font_file(0, &all), 0), expected);
    assert_eq!(parse_cell_units(&font_file(0, &all), 1), None);

    // A collection has its faces by number.
    let mut many: Vec<u8> = b"ttcf".to_vec();
    for n in [0x1_0000u32, 2, 0xffff, 20] {
        many.extend(n.to_be_bytes());
    }
    many.extend(font_file(20, &all));
    assert_eq!(parse_cell_units(&many, 1), expected);
    assert_eq!(parse_cell_units(&many, 0), None);
    assert_eq!(parse_cell_units(&many, 2), None);

    // Without a character map the first glyph counts, without advances none does.
    let advance = |all: &[(u32, Vec<u8>)]| parse_cell_units(&font_file(0, all), 0).unwrap().advance;
    assert_eq!(advance(&[&all[..1], &all[2..]].concat()), 256);
    assert_eq!(advance(&[&all[..4], &all[5..]].concat()), 0);
    for needed in [2, 3, 5] {
        let mut fewer = all.clone();
        fewer.remove(needed);
        assert_eq!(parse_cell_units(&font_file(0, &fewer), 0), None);
    }
}

#[test]
fn lines_come_from_the_first_table_that_has_them() {
    let line = |h: Vec<u8>, o: Vec<u8>| parse_cell_units(&font_file(0, &tables(h, o)), 0);
    assert_eq!(line(hhea(800, 0, 0), os2(7)).unwrap().line, 807);
    let mut typographic = os2(7);
    word(&mut typographic, 68, 700);
    word(&mut typographic, 70, (-100i16) as u16);
    assert_eq!(line(hhea(800, 0, 0), typographic.clone()).unwrap().line, 900);
    assert_eq!(line(hhea(0, 0, 0), typographic).unwrap().line, 800);
    // A descent that has no negation is refused, where it would count.
    assert!(is_descent_out_of_range(&hhea(800, 0, 0), Some(&os2(0x8000))));
    assert!(!is_descent_out_of_range(&hhea(800, -1, 0), Some(&os2(0x8000))));
    assert!(!is_descent_out_of_range(&hhea(800, 0, 0), Some(&os2(0x8001))));
    assert!(!is_descent_out_of_range(&hhea(800, 0, 0), None));
    assert_eq!(line(hhea(800, 0, 0), os2(0x8000)), None);
    assert_eq!(line(hhea(800, -1, 0), os2(0x8000)).unwrap().line, 801);
}

#[test]
fn headers_beyond_four_gigabytes_are_refused() {
    let collection = |words: &[u32]| {
        let mut bytes: Vec<u8> = b"ttcf".to_vec();
        for n in words {
            bytes.extend(n.to_be_bytes());
        }
        bytes
    };
    let long = collection(&[0x1_0000, u32::MAX]);
    assert!(!is_header_sound(&long, 0));
    assert_eq!(parse_cell_units(&long, 0), None);
    let edge = collection(&[0x1_0000, 0x3fff_fffd]);
    assert!(!is_header_sound(&edge, 0));
    let short = collection(&[0x1_0000, 0x3fff_fffc]);
    assert!(is_header_sound(&short, 0));
    assert_eq!(parse_cell_units(&short, 0), None);
    assert!(is_header_sound(b"no font", u32::MAX));
}

#[test]
fn characters_are_found_in_character_maps() {
    assert_eq!(find_glyph(&cmap(5), '0'), Some(5));
    assert_eq!(find_glyph(&cmap(5), '1'), None);
    assert_eq!(find_glyph(b"", '0'), None);
    // A part for another platform does not count.
    let mut foreign = cmap(5);
    word(&mut foreign, 4, 1);
    assert_eq!(find_glyph(&foreign, '0'), None);
    // The list of a part must end below four gigabytes; one that does not ends the search.
    let mut long = cmap(5);
    word(&mut long, 12, 12);
    for at in [18, 20, 22] {
        word(&mut long, at, 0x7fff);
    }
    long.extend([0xff; 8]);
    assert!(!is_part_sound(&long, 0));
    assert!(is_part_sound(&long, 1));
    assert_eq!(find_glyph(&long, '0'), None);
    assert!(is_part_sound(&cmap(5), 0));
}

#[test]
fn the_last_entry_for_a_table_counts() {
    let entry = |tag: u32, offset: u32, length: u32| TableEntry {
        tag,
        offset,
        length,
    };
    let bytes = [1, 2, 3, 4];
    let entries = vec![entry(HEAD, 0, 1), entry(HEAD, 1, 3), entry(CMAP, 2, 3), entry(OS2, 4, 0)];
    assert_eq!(find_table(&bytes, &entries, HEAD), Some(&bytes[1..]));
    assert_eq!(find_table(&bytes, &entries, CMAP), None);
    assert_eq!(find_table(&bytes, &entries, OS2), Some(&bytes[4..]));
    assert_eq!(find_table(&bytes, &entries, MAXP), None);
    assert_eq!(find_table(&bytes, &vec![entry(HEAD, u32::MAX, u32::MAX)], HEAD), None);
    assert_eq!(units_of_face(&bytes, &entries), None);
}

#[test]
fn bitmaps_beyond_their_counters_have_no_picture() {
    assert!(is_buffer_counted(0, i32::MAX));
    assert!(is_buffer_counted(1, -i32::MAX));
    assert!(is_buffer_counted(46340, 46340));
    assert!(!is_buffer_counted(46341, 46341));
    assert!(!is_buffer_counted(46341, -46341));
    assert!(!is_buffer_counted(0, i32::MIN));
    assert!(!is_buffer_counted(-1, 1));

    // What counts of a subpixel bitmap is its pixels, a third of its samples.
    assert!(is_picture_held(PixelMode::Gray, 32767, 32768, 0));
    assert!(!is_picture_held(PixelMode::Gray, 32768, 32768, 0));
    assert!(is_picture_held(PixelMode::Lcd, 32768, 32768, 0));
    assert!(is_picture_held(PixelMode::Lcd, 3 * 32768 - 1, 32768, 0));
    assert!(!is_picture_held(PixelMode::Lcd, 3 * 32768, 32768, 0));
    assert!(is_picture_held(PixelMode::Lcd, 2, 0x3fff_ffff, 0));
    assert!(!is_picture_held(PixelMode::Lcd, 2, 0x4000_0000, 0));
    assert!(!is_picture_held(PixelMode::Gray, 0, 1, 0));
    assert!(!is_picture_held(PixelMode::Gray, 1, 0, 0));
    assert!(!is_picture_held(PixelMode::Gray, 1, 1, i32::MIN));
    assert!(is_picture_held(PixelMode::Gray, 1, 1, i32::MIN + 1));
}

#[test]
fn what_a_face_drew_becomes_a_picture() {
    let drawn = |pixels: PixelMode, width: i32, rows: i32, pitch: i32| DrawnBitmap {
        pixels,
        shape: BitmapShape {
            width,
            rows,
            pitch,
            left: 2,
            top: 1,
        },
        buffer: vec![128, 128, 128],
    };
    let gray = glyph_picture(Some(drawn(PixelMode::Gray, 3, 1, 3)), false);
    assert_eq!((gray.width, gray.height, gray.offset_x, gray.offset_y), (3, 1, 2, 0));
    assert_eq!(gray.pixels, [188, 188, 188, 128].repeat(3));
    let colored = glyph_picture(Some(drawn(PixelMode::Lcd, 3, 1, 3)), false);
    assert_eq!((colored.width, colored.height), (1, 1));
    assert_eq!(colored.pixels, [188, 188, 188, 128]);
    for (width, rows, pitch) in [(0, 1, 3), (-3, 1, 3), (3, 0, 3), (3, 1, i32::MIN), (3, 2, i32::MAX)] {
        let none = glyph_picture(Some(drawn(PixelMode::Gray, width, rows, pitch)), false);
        assert_eq!((none.width, none.height), (0, 0));
        assert!(none.pixels.is_empty());
    }
}

#[test]
fn given_areas_do_not_overlap() {
    let mut shelf = Shelf::default();
    let mut given: Vec<[u32; 4]> = Vec::new();
    for (w, h) in [(10, 10), (30, 5), (20, 12), (1, 1), (40, 3), (7, 9), (25, 25)] {
        if let Some([x, y]) = shelf.allocate(w, h, [64, 64]) {
            assert!(x + w < 64 && y + h < 64);
            for [a, b, c, d] in &given {
                assert!(x + w <= *a || a + c <= x || y + h <= *b || b + d <= y);
            }
            given.push([x, y, w, h]);
        }
    }
    assert!(given.len() >= 5);
}

#[test]
fn fallbacks_are_asked_themselves() {
    let library = FontLibrary::new().expect("library");
    let other = String::from_utf8(bitmap_font()).unwrap();
    let other = other.replace("STARTCHAR A\nENCODING 65", "STARTCHAR B\nENCODING 66");
    let open = |bytes: Vec<u8>| Font::from_bytes(&library, bytes, 0).expect("font");
    let chain = StyleChain {
        primary: open(bitmap_font()),
        fallbacks: vec![open(bitmap_font()), open(other.into_bytes())],
    };
    assert_eq!(chain.face_key('A', 0).unwrap().face, 0);
    let second = chain.face_key('B', 0).unwrap();
    assert_eq!(second.face, 2);
    assert_eq!(second.glyph, chain.fallbacks[1].lookup_glyph_index('B'));
    assert_eq!(chain.face_key('C', 0), None);
}

#[test]
fn sizes_do_not_carry_over() {
    let library = FontLibrary::new().expect("library");
    let mut font = Font::from_bytes(&library, bitmap_font(), 0).expect("font");
    let a = font.lookup_glyph_index('A');
    let fallback = CellMetrics {
        cell_width: 1,
        cell_height: 2,
        ascent: 3,
    };
    let cell = font.compute_cell_metrics(8 * 64, fallback);
    // A bitmap face refuses a size that it does not have and keeps its own.
    let large = font.rasterize_indexed(a, 99 * 64, FreeTypeConfig::default(), false, false);
    assert_eq!((large.width, large.height), (8, 8));
    assert_eq!(font.compute_cell_metrics(8 * 64, fallback), cell);
}

/// Words as bytes, most significant first.
fn bytes_of(words: &[u16]) -> Vec<u8> {
    words.iter().flat_map(|w| w.to_be_bytes()).collect()
}

/// One axis of variation.
fn fvar() -> Vec<u8> {
    let mut t = bytes_of(&[1, 0, 16, 0, 1, 20, 0, 0]);
    t.extend([0; 20]);
    t
}

/// A store of two wide deltas for a region that every face lies in.
fn store(deltas: [u16; 2]) -> Vec<u16> {
    let [a, b] = deltas;
    vec![1, 0, 12, 1, 0, 22, 1, 1, 0, 0, 0, 2, 1, 1, 0, a, b]
}

fn hvar(store: &[u16]) -> Vec<u8> {
    bytes_of(&[&[1, 0, 0, 20, 0, 0, 0, 0, 0, 0], store].concat())
}

fn mvar(tag: [u16; 2], store: &[u16]) -> Vec<u8> {
    bytes_of(&[&[1, 0, 0, 8, 1, 20, tag[0], tag[1], 0, 0], store].concat())
}

#[test]
fn variations_change_the_size_of_a_cell() {
    let mut typographic = os2(7);
    word(&mut typographic, 68, 700);
    let varied = |more: Vec<(u32, Vec<u8>)>| {
        let mut all = tables(hhea(0, -200, 90), typographic.clone());
        all.extend(more);
        parse_cell_units(&font_file(0, &all), 0).unwrap()
    };
    let plain = varied(vec![]);
    assert_eq!((plain.ascent, plain.advance), (700, 600));
    let advances = varied(vec![(FVAR, fvar()), (HVAR, hvar(&store([5, 40])))]);
    assert_eq!((advances.ascent, advances.advance), (700, 640));
    let hasc = [0x6861, 0x7363];
    let lines = varied(vec![(FVAR, fvar()), (MVAR, mvar(hasc, &store([7, 9])))]);
    assert_eq!((lines.ascent, lines.line, lines.advance), (707, 907, 600));
    // Without axes nothing varies, and a line varies by its own tag.
    assert_eq!(varied(vec![(HVAR, hvar(&store([5, 40])))]), plain);
    let other = mvar([0x6864, 0x7363], &store([7, 9]));
    assert_eq!(varied(vec![(FVAR, fvar()), (MVAR, other)]), plain);
}

#[test]
fn variations_beyond_their_counters_count_for_nothing() {
    let changed = |at: usize, n: u16| {
        let mut words = store([5, 40]);
        words[at] = n;
        words
    };
    assert!(are_advance_variations_sound(&hvar(&store([5, 40]))));
    assert!(are_line_variations_sound(&mvar([0, 0], &store([5, 40]))));
    assert!(are_advance_variations_sound(b""));
    assert!(are_line_variations_sound(b""));
    // Places of lists, the length of a row, and the place of a region.
    let mut far = changed(1, 0xffff);
    far[2] = 0xffff;
    let long_row = changed(12, 0xffff);
    let mut region = changed(14, 0xffff);
    region[6] = 2;
    region[7] = 0;
    for words in [far, long_row, region] {
        assert!(!are_advance_variations_sound(&hvar(&words)));
        assert!(!are_line_variations_sound(&mvar([0, 0], &words)));
        let mut all = tables(hhea(800, -200, 90), os2(7));
        all.push((FVAR, fvar()));
        all.push((HVAR, hvar(&words)));
        assert_eq!(parse_cell_units(&font_file(0, &all), 0).unwrap().advance, 600);
    }
    assert!(are_advance_variations_sound(&hvar(&changed(4, 0xffff))));
}
