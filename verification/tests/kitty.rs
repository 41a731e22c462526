//! Graphics commands in the byte stream.

use base64::engine::general_purpose::STANDARD as BASE64_STANDARD;
use base64::Engine;
use ftty::kitty::decode::{
    check_shm_size, check_shm_unchanged, complete_load, may_remove_file,
};
use ftty::kitty::{
    kitty_response, parse_control_keys, DeleteTarget, KittyAction, KittyEvent, KittyParser,
};
use ftty::text::path_starts_with;

#[test]
fn test_parse_kitty_query() {
    let mut parser = KittyParser::new();
    let (text, events) = parser.filter_bytes(b"\x1b_Gi=42,a=q;\x1b\\");
    assert!(text.is_empty());
    assert_eq!(events.len(), 1);
    match &events[0] {
        KittyEvent::Response(resp) => {
            assert_eq!(resp, b"\x1b_Gi=42;OK\x1b\\");
        }
        other => panic!("Expected query response, got {:?}", other),
    }
}

#[test]
fn test_parse_kitty_direct_rgba() {
    let mut parser = KittyParser::new();
    // 2x1 RGBA: [255, 0, 0, 255, 0, 255, 0, 255]
    let raw_pixels = [255u8, 0, 0, 255, 0, 255, 0, 255];
    let b64 = BASE64_STANDARD.encode(raw_pixels);
    let seq = format!("\x1b_Ga=t,f=32,s=2,v=1,i=10;{b64}\x1b\\");

    let (text, events) = parser.filter_bytes(seq.as_bytes());
    assert!(text.is_empty());
    assert_eq!(events.len(), 1);

    match &events[0] {
        KittyEvent::Transmit { command, image } => {
            assert_eq!(command.image_id, Some(10));
            assert_eq!(image.width, 2);
            assert_eq!(image.height, 1);
            assert_eq!(image.rgba, raw_pixels.to_vec());
        }
        other => panic!("Expected Transmit, got {:?}", other),
    }
}

#[test]
fn test_parse_kitty_chunking() {
    let mut parser = KittyParser::new();
    let raw_pixels = [10u8, 20, 30, 255];
    let b64 = BASE64_STANDARD.encode(raw_pixels);
    let part1 = &b64[..2];
    let part2 = &b64[2..];

    let seq1 = format!("\x1b_Ga=t,f=32,s=1,v=1,i=5,m=1;{part1}\x1b\\");
    let seq2 = format!("\x1b_Gm=0;{part2}\x1b\\");

    let (t1, e1) = parser.filter_bytes(seq1.as_bytes());
    assert!(t1.is_empty());
    assert!(e1.is_empty());

    let (t2, e2) = parser.filter_bytes(seq2.as_bytes());
    assert!(t2.is_empty());
    assert_eq!(e2.len(), 1);

    match &e2[0] {
        KittyEvent::Transmit { command, image } => {
            assert_eq!(command.image_id, Some(5));
            assert_eq!(image.rgba, raw_pixels.to_vec());
        }
        other => panic!("Expected Transmit, got {:?}", other),
    }
}

#[test]
fn test_parse_kitty_delete() {
    let mut parser = KittyParser::new();
    let (text, events) = parser.filter_bytes(b"\x1b_Ga=d,d=a;\x1b\\");
    assert!(text.is_empty());
    assert_eq!(events.len(), 1);
    assert_eq!(
        events[0],
        KittyEvent::Delete {
            target: DeleteTarget::All
        }
    );
}

#[test]
fn test_parse_kitty_png_format() {
    // Create 1x1 red PNG
    let mut png_bytes = Vec::new();
    {
        let mut encoder = png::Encoder::new(&mut png_bytes, 1, 1);
        encoder.set_color(png::ColorType::Rgba);
        encoder.set_depth(png::BitDepth::Eight);
        let mut writer = encoder.write_header().unwrap();
        writer.write_image_data(&[255, 0, 0, 255]).unwrap();
    }

    let b64 = BASE64_STANDARD.encode(&png_bytes);
    let seq = format!("\x1b_Ga=t,f=100,i=99;{b64}\x1b\\");

    let mut parser = KittyParser::new();
    let (text, events) = parser.filter_bytes(seq.as_bytes());
    assert!(text.is_empty());
    assert_eq!(events.len(), 1);

    match &events[0] {
        KittyEvent::Transmit { command, image } => {
            assert_eq!(command.image_id, Some(99));
            assert_eq!(image.width, 1);
            assert_eq!(image.height, 1);
            assert_eq!(image.rgba, vec![255, 0, 0, 255]);
        }
        other => panic!("Expected Transmit with PNG, got {:?}", other),
    }
}

#[test]
fn test_kitty_transmit_with_response() {
    let raw = [0u8, 0, 255, 255];
    let b64 = BASE64_STANDARD.encode(raw);
    let seq = format!("\x1b_Ga=T,f=32,s=1,v=1,i=77;{b64}\x1b\\");

    let mut parser = KittyParser::new();
    let (text, events) = parser.filter_bytes(seq.as_bytes());
    assert!(text.is_empty());
    assert_eq!(events.len(), 1);

    match &events[0] {
        KittyEvent::Transmit { command, image } => {
            assert_eq!(command.action, KittyAction::TransmitAndDisplayWithResponse);
            assert_eq!(command.image_id, Some(77));
            assert_eq!(image.rgba, raw.to_vec());
        }
        other => panic!("Expected Transmit with response, got {:?}", other),
    }
}

#[test]
fn test_split_apc_framing() {
    let mut parser = KittyParser::new();
    let (t1, e1) = parser.filter_bytes(b"hello\x1b");
    assert_eq!(t1, b"hello");
    assert!(e1.is_empty());

    let (t2, e2) = parser.filter_bytes(b"_Gi=1,a=q;\x1b");
    assert!(t2.is_empty());
    assert!(e2.is_empty());

    let (t3, e3) = parser.filter_bytes(b"\\world");
    assert_eq!(t3, b"world");
    assert_eq!(e3.len(), 1);
    assert_eq!(e3[0], KittyEvent::Response(b"\x1b_Gi=1;OK\x1b\\".to_vec()));
}

#[test]
fn test_order_independent_delete() {
    let cmd = parse_control_keys("d=i,i=7,a=d");
    assert_eq!(cmd.action, KittyAction::Delete);
    assert_eq!(cmd.delete_target, DeleteTarget::ById(7));
}

#[test]
fn explicit_image_id_tracking() {
    assert!(parse_control_keys("a=t,i=7").id_explicit);
    assert!(parse_control_keys("i=7").image_id == Some(7));
    assert!(!parse_control_keys("a=t").id_explicit);
    assert!(parse_control_keys("a=t").image_id.is_none());
}

#[test]
fn response_encoding_includes_only_real_placement_ids() {
    assert_eq!(
        kitty_response(3, None, "OK"),
        b"\x1b_Gi=3;OK\x1b\\".to_vec()
    );
    assert_eq!(
        kitty_response(3, Some(0), "OK"),
        b"\x1b_Gi=3;OK\x1b\\".to_vec()
    );
    assert_eq!(
        kitty_response(3, Some(5), "ENOENT:image not found"),
        b"\x1b_Gi=3,p=5;ENOENT:image not found\x1b\\".to_vec()
    );
}

#[test]
fn test_kitty_probe_interleaving() {
    let mut kitty_parser = KittyParser::new();
    let query = b"\x1b_Gi=31,s=1,v=1,a=q,t=d,f=24;AAAA\x1b\\\x1b[c\x1b[16t\x1b]11;?\x07\x1b[5n";
    let (clean, events) = kitty_parser.filter_bytes(query);
    println!("clean: {:?}", std::str::from_utf8(&clean).unwrap());
    println!("events: {:?}", events);
}

#[test]
fn chunked_transmit_preserves_explicit_id_and_quiet() {
    let b64 = BASE64_STANDARD.encode([1u8, 2, 3, 4]);
    let first = format!("\x1b_Ga=t,f=32,s=1,v=1,i=9,q=0,m=1;{}\x1b\\", &b64[..2]);
    let last = format!("\x1b_Gm=0;{}\x1b\\", &b64[2..]);
    let mut parser = KittyParser::new();
    assert!(parser.filter_bytes(first.as_bytes()).1.is_empty());
    let (_, events) = parser.filter_bytes(last.as_bytes());
    match &events[0] {
        KittyEvent::Transmit { command, .. } => {
            assert!(command.id_explicit);
            assert_eq!(command.image_id, Some(9));
            assert_eq!(command.quiet, 0);
        }
        other => panic!("Expected Transmit, got {other:?}"),
    }
}

#[test]
fn test_filter_fast_path_direct_borrow() {
    let mut parser = KittyParser::new();

    // 1. Plain text is fast-path eligible
    let plain = b"Hello world, normal text from cat or grep\n";
    assert!(parser.is_fast_path(plain));
    let (clean, events) = parser.filter_bytes(plain);
    assert_eq!(clean, plain);
    assert!(events.is_empty());

    // 2. ANSI color and cursor escapes are also fast-path eligible
    let ansi = b"\x1b[31mRed text\x1b[0m and \x1b[10;20Hcursor\x1b]8;;https://x.com\x1b\\";
    assert!(parser.is_fast_path(ansi));
    let (clean, events) = parser.filter_bytes(ansi);
    assert_eq!(clean, ansi);
    assert!(events.is_empty());

    // 3. Kitty graphics sequence requires slow-path filtering
    let kitty_payload = b"before\x1b_Gi=42,a=q;\x1b\\after";
    assert!(!parser.is_fast_path(kitty_payload));
    let (text, events) = parser.filter_bytes(kitty_payload);
    assert_eq!(text, b"beforeafter");
    assert_eq!(events.len(), 1);
    assert_eq!(
        events[0],
        KittyEvent::Response(b"\x1b_Gi=42;OK\x1b\\".to_vec())
    );
    // Events must be transferred out; parser must not retain image/event data
    assert!(parser.events_scratch.is_empty());
}

#[test]
fn test_scratch_buffer_reused_without_reallocation() {
    let mut parser = KittyParser::new();
    let payload = b"start\x1b_Gi=10,a=q;\x1b\\end";

    // First call populates scratch buffer
    let _ = parser.filter_bytes(payload);
    let cap_text = parser.clean_scratch.capacity();
    assert!(cap_text > 0);
    // Events are drained so events_scratch does not keep image memory
    assert!(parser.events_scratch.is_empty());

    // Subsequent calls reuse existing capacity
    for _ in 0..100 {
        let _ = parser.filter_bytes(payload);
        assert_eq!(parser.clean_scratch.capacity(), cap_text);
        assert!(parser.events_scratch.is_empty());
    }
}

#[test]
fn test_split_escape_crosses_chunk_into_processed() {
    let mut parser = KittyParser::new();
    // Chunk 1 ends with escape (not fast path)
    let chunk1 = b"text\x1b";
    assert!(!parser.is_fast_path(chunk1));
    let (text, events) = parser.filter_bytes(chunk1);
    assert_eq!(text, b"text");
    assert!(events.is_empty());

    // Chunk 2 completes the Kitty sequence
    let chunk2 = b"_Gi=99,a=q;\x1b\\more";
    assert!(!parser.is_fast_path(chunk2));
    let (text, events) = parser.filter_bytes(chunk2);
    assert_eq!(text, b"more");
    assert_eq!(events.len(), 1);
    assert_eq!(
        events[0],
        KittyEvent::Response(b"\x1b_Gi=99;OK\x1b\\".to_vec())
    );
    assert!(parser.events_scratch.is_empty());
}

#[test]
fn test_is_fast_path() {
    let mut parser = KittyParser::new();
    // Plain text is fast path
    assert!(parser.is_fast_path(b"Hello world\n"));
    // ANSI escape codes (colors, cursor, hyperlinks) are fast path
    assert!(parser.is_fast_path(b"\x1b[31mRed\x1b[0m \x1b[10;20H \x1b]8;;https://x.com\x1b\\"));
    // Kitty sequence is NOT fast path
    assert!(!parser.is_fast_path(b"\x1b_Gi=1,a=q;\x1b\\"));
    // Chunk ending in 0x1b is NOT fast path (could split across read boundaries)
    assert!(!parser.is_fast_path(b"hello\x1b"));

    // While in APC, even plain text is NOT fast path
    parser.in_apc = true;
    assert!(!parser.is_fast_path(b"more data"));
}

/// The answer among the events of a stream.
fn only_answer(stream: &[u8]) -> Option<String> {
    let (_, events) = KittyParser::new().filter_bytes(stream);
    match events.first() {
        Some(KittyEvent::Response(b)) => Some(String::from_utf8(b.clone()).unwrap()),
        _ => None,
    }
}

#[test]
fn failed_transmissions_are_answered_unless_silenced() {
    assert_eq!(
        only_answer(b"\x1b_Ga=t,f=32,s=2,v=1,i=7;AAAAAA==\x1b\\"),
        Some("\x1b_Gi=7;raw RGBA byte size mismatch: expected 8, got 4\x1b\\".to_string())
    );
    assert_eq!(
        only_answer(b"\x1b_Ga=t,f=24,v=1,i=7;AAAA\x1b\\"),
        Some("\x1b_Gi=7;missing width for raw RGB\x1b\\".to_string())
    );
    assert_eq!(
        only_answer(b"\x1b_Ga=t,f=24,s=1,i=7;AAAA\x1b\\"),
        Some("\x1b_Gi=7;missing height for raw RGB\x1b\\".to_string())
    );
    assert!(only_answer(b"\x1b_Ga=t,f=32,s=1,v=1,i=7;!!\x1b\\").is_some());
    assert!(only_answer(b"\x1b_Ga=t,f=100,i=7;AAAA\x1b\\").is_some());
    assert_eq!(only_answer(b"\x1b_Ga=t,f=32,s=2,v=1,i=7,q=2;AAAAAA==\x1b\\"), None);
}

#[test]
fn opaque_pixels_are_added_to_raw_colors() {
    let (_, events) = KittyParser::new().filter_bytes(b"\x1b_Ga=t,f=24,s=1,v=1,i=7;AQID\x1b\\");
    match &events[0] {
        KittyEvent::Transmit { image, .. } => assert_eq!(image.rgba, [1, 2, 3, 255]),
        other => panic!("unexpected {other:?}"),
    }
}

#[test]
fn files_are_loaded_outside() {
    let name = BASE64_STANDARD.encode("/tmp/image");
    let stream = format!("\x1b_Ga=t,t=t,f=24,s=1,v=1,i=7;{name}\x1b\\");
    let (_, mut events) = KittyParser::new().filter_bytes(stream.as_bytes());
    match events.remove(0) {
        KittyEvent::Load {
            command,
            image_id,
            name,
        } => {
            assert_eq!((image_id, name.as_str()), (7, "/tmp/image"));
            match complete_load(command, image_id, Ok(vec![1, 2, 3])) {
                Some(KittyEvent::Transmit { image, .. }) => {
                    assert_eq!(image.rgba, [1, 2, 3, 255]);
                }
                other => panic!("unexpected {other:?}"),
            }
            match complete_load(command, image_id, Err("gone".to_string())) {
                Some(KittyEvent::Response(b)) => assert_eq!(b, b"\x1b_Gi=7;gone\x1b\\"),
                other => panic!("unexpected {other:?}"),
            }
        }
        other => panic!("unexpected {other:?}"),
    }
    // A name that is no text is refused.
    let name = BASE64_STANDARD.encode([0xff, 0xfe]);
    assert!(only_answer(format!("\x1b_Ga=t,t=f,i=7;{name}\x1b\\").as_bytes()).is_some());
}

#[test]
fn only_temporary_files_may_be_removed() {
    assert!(may_remove_file("/tmp/a", "/var/tmp"));
    assert!(may_remove_file("/dev/shm/a", "/var/tmp"));
    assert!(may_remove_file("/var/tmp/a", "/var/tmp"));
    assert!(!may_remove_file("/home/a", "/var/tmp"));
    assert!(!may_remove_file("/tmpfile", "/var/tmp"));
    assert!(may_remove_file("//tmp/./a", "/var/tmp"));
    assert!(!may_remove_file("tmp/a", "/var/tmp/"));
    assert!(may_remove_file("/var/tmp/a", "/var/./tmp/"));
    assert!(!may_remove_file("./a", "a"));
    assert!(may_remove_file("./a", "."));
    assert!(may_remove_file("/a", ""));
    for (path, base) in [
        ("/a/b", "/a/"),
        ("/a/./b", "/a/b"),
        ("a/./b", "a/b"),
        ("./b", "b"),
        ("././b", "./b"),
        ("/../a", "/.."),
        ("/", "/"),
        ("", "/"),
        ("a", ""),
        ("/a/..", "/a/.."),
        ("..", "."),
        ("/ab", "/a"),
    ] {
        assert_eq!(
            path_starts_with(path, base),
            std::path::Path::new(path).starts_with(base)
        );
    }
}

#[test]
fn shared_memory_is_limited_and_must_not_change() {
    assert!(check_shm_size(32 * 1024 * 1024).is_ok());
    assert_eq!(
        check_shm_size(32 * 1024 * 1024 + 1),
        Err("shared memory exceeds the 32 MiB image payload limit")
    );
    assert!(check_shm_unchanged(5, 5).is_ok());
    assert_eq!(
        check_shm_unchanged(5, 6),
        Err("shared memory changed size during transfer")
    );
}

#[test]
fn streams_may_come_in_pieces() {
    let stream = b"ab\x1b_Gi=42,a=q;\x1b\\cd\x1b_Ga=t,f=24,s=1,v=1,i=7;AQID\x1b\\\x1b[mef";
    let (text, events) = KittyParser::new().filter_bytes(stream);
    assert_eq!(text, b"abcd\x1b[mef");
    let mut parser = KittyParser::new();
    let mut pieces = (Vec::new(), Vec::new());
    for b in stream {
        let (t, e) = parser.filter_bytes(&[*b]);
        pieces.0.extend(t);
        pieces.1.extend(e);
    }
    assert_eq!(pieces.0, text);
    assert_eq!(format!("{:?}", pieces.1), format!("{events:?}"));
}

#[test]
fn control_keys_come_in_any_order() {
    let first = parse_control_keys("a=T,f=24,s=2,v=3,i=7,p=9,z=-4,q=1,d=p,c=5");
    let second = parse_control_keys("d=p,c=5,q=1,z=-4,p=9,i=7,v=3,s=2,f=24,a=T");
    assert_eq!(format!("{first:?}"), format!("{second:?}"));
    assert!(first.id_explicit);
    assert_eq!(first.delete_target, DeleteTarget::ByPlacement(9));
    assert!(!parse_control_keys("a=T,p=9").id_explicit);
}
