//! What holds of image commands, of the answers to them, and of the images that they carry.

use crate::kitty::command::{
    action_of, ascii_bytes, command_of, digits_value, format_of, key_part, keys_read, medium_of,
    piece_key, piece_value, response_bytes, signed_number, target_of, unsigned_number, value_part,
    with_key, word,
};
use crate::kitty::decode::{
    base64_decoded, decoded_outcome, image_of, png_image_of, transmission_of, with_opacity,
    FrameModel, PngColor, MAX_SHM_PAYLOAD,
};
use crate::kitty::parser::{law_pieces_do_not_matter, Filtered, ParserModel, MAX_APC_PAYLOAD};
use crate::kitty::{
    DeleteTarget, EventModel, ImageModel, KittyAction, KittyCommand, KittyFormat, KittyMedium,
};
use crate::text;
use crate::text::laws::{
    law_decimal_numbers_read_back, law_text_without_separators_is_one_piece,
    law_trimming_keeps_plain_text, reading, written,
};
use vstd::prelude::*;
use vstd::utf8::{decode_utf8, encode_utf8, valid_utf8};

verus! {

/// An answer is an escape, an underscore and a `G`, the number of the image behind `i=`, the number
/// of the placement behind `,p=` where one other than zero was given, a semicolon and the message,
/// and an escape and a backslash.
pub proof fn law_layout_of_answers(id: u32, placement: Option<u32>, message: Seq<char>)
    ensures
        placement is None || placement == Some(0u32) ==> response_bytes(id, placement, message)
            == seq![0x1bu8, 0x5f, 0x47, 0x69, 0x3d] + written(id as nat) + seq![0x3bu8]
            + encode_utf8(message) + seq![0x1bu8, 0x5c],
        placement is Some && placement->0 != 0 ==> response_bytes(id, placement, message)
            == seq![0x1bu8, 0x5f, 0x47, 0x69, 0x3d] + written(id as nat) + seq![0x2cu8, 0x70, 0x3d]
            + written(placement->0 as nat) + seq![0x3bu8] + encode_utf8(message)
            + seq![0x1bu8, 0x5c],
{
    assert(ascii_bytes(text::decimal(id as nat)) =~= written(id as nat));
    let r = response_bytes(id, placement, message);
    if placement is Some && placement->0 != 0 {
        assert(ascii_bytes(text::decimal(placement->0 as nat)) =~= written(placement->0 as nat));
        assert(r =~= seq![0x1bu8, 0x5f, 0x47, 0x69, 0x3d] + written(id as nat) + seq![
            0x2cu8,
            0x70,
            0x3d,
        ] + written(placement->0 as nat) + seq![0x3bu8] + encode_utf8(message) + seq![0x1bu8, 0x5c]);
    } else {
        assert(r =~= seq![0x1bu8, 0x5f, 0x47, 0x69, 0x3d] + written(id as nat) + seq![0x3bu8]
            + encode_utf8(message) + seq![0x1bu8, 0x5c]);
    }
}

proof fn lemma_reading(s: Seq<char>)
    requires
        forall|i: int| 0 <= i < s.len() ==> '0' <= #[trigger] s[i] <= '9',
    ensures
        digits_value(s) == reading(s),
    decreases s.len(),
{
    if s.len() > 0 {
        assert forall|i: int| 0 <= i < s.drop_last().len() implies '0' <= #[trigger] s.drop_last()[i]
            <= '9' by {
            assert(s.drop_last()[i] == s[i]);
        }
        lemma_reading(s.drop_last());
        assert('0' <= s[s.len() - 1] <= '9');
    }
}

/// A number is read back as it is written, with or without a plus sign, up to the largest that is
/// allowed, and with a minus sign where numbers below zero are allowed.
pub proof fn law_numbers_read_back(n: nat, max: nat)
    ensures
        n <= max ==> unsigned_number(text::decimal(n), max) == Some(n),
        n <= max ==> unsigned_number(seq!['+'] + text::decimal(n), max) == Some(n),
        n > max ==> unsigned_number(text::decimal(n), max) is None,
        n <= u32::MAX ==> word(text::decimal(n)) == Some(n as u32),
        n > u32::MAX ==> word(text::decimal(n)) is None,
        n <= i32::MAX ==> signed_number(text::decimal(n)) == Some(n as int),
        n > i32::MAX ==> signed_number(text::decimal(n)) is None,
        n <= i32::MAX + 1 ==> signed_number(seq!['-'] + text::decimal(n)) == Some(-(n as int)),
        n > i32::MAX + 1 ==> signed_number(seq!['-'] + text::decimal(n)) is None,
{
    let d = text::decimal(n);
    law_decimal_numbers_read_back(n);
    lemma_reading(d);
    assert('0' <= d[0] <= '9');
    assert((seq!['+'] + d).drop_first() =~= d);
    assert((seq!['-'] + d).drop_first() =~= d);
}

/// A text with anything but digits behind its sign is no number, and neither is one without digits.
pub proof fn law_other_text_is_no_number(s: Seq<char>, max: nat, i: int)
    requires
        s.len() == 0 || (0 < i < s.len() && !('0' <= s[i] <= '9')) || (s.len() > 0 && s[0] != '+'
            && s[0] != '-' && !('0' <= s[0] <= '9')),
    ensures
        unsigned_number(s, max) is None,
        word(s) is None,
        signed_number(s) is None,
{
    if 0 < i < s.len() {
        assert(s.drop_first()[i - 1] == s[i]);
    }
}

/// The one-character text of a character.
pub open spec fn only(c: char) -> Seq<char> {
    seq![c]
}

/// A key gives its own parameter and leaves the others as they were: `s` and `v` the size of the
/// image, `c` and `r` the columns and rows to show it in, `X` and `Y` the offset, `i` and `p` the
/// numbers of the image and of the placement.
pub proof fn law_number_keys(cmd: KittyCommand, v: Seq<char>)
    ensures
        with_key(cmd, only('s'), v) == (KittyCommand { width: word(v), ..cmd }),
        with_key(cmd, only('v'), v) == (KittyCommand { height: word(v), ..cmd }),
        with_key(cmd, only('c'), v) == (KittyCommand { cols: word(v), ..cmd }),
        with_key(cmd, only('r'), v) == (KittyCommand { rows: word(v), ..cmd }),
        with_key(cmd, only('i'), v) == (KittyCommand {
            image_id: word(v),
            id_explicit: true,
            ..cmd
        }),
        with_key(cmd, only('p'), v) == (KittyCommand { placement_id: word(v), ..cmd }),
        word(v) matches Some(n) ==> with_key(cmd, only('X'), v) == (KittyCommand {
            offset_x: n,
            ..cmd
        }),
        word(v) matches Some(n) ==> with_key(cmd, only('Y'), v) == (KittyCommand {
            offset_y: n,
            ..cmd
        }),
        word(v) is None ==> with_key(cmd, only('X'), v) == (KittyCommand { offset_x: 0, ..cmd }),
        word(v) is None ==> with_key(cmd, only('Y'), v) == (KittyCommand { offset_y: 0, ..cmd }),
        signed_number(v) matches Some(n) ==> with_key(cmd, only('z'), v) == (KittyCommand {
            z_index: n as i32,
            ..cmd
        }),
        signed_number(v) is None ==> with_key(cmd, only('z'), v) == (KittyCommand {
            z_index: 0,
            ..cmd
        }),
        unsigned_number(v, 255) matches Some(n) ==> with_key(cmd, only('q'), v) == (KittyCommand {
            quiet: n as u8,
            ..cmd
        }),
        unsigned_number(v, 255) is None ==> with_key(cmd, only('q'), v) == (KittyCommand {
            quiet: 0,
            ..cmd
        }),
{
}

/// A switch is on where its value is the digit one alone: `m` for more pieces, `C` for a cursor that
/// stays, `U` for a virtual placement.
pub proof fn law_switch_keys(cmd: KittyCommand, v: Seq<char>)
    ensures
        with_key(cmd, only('m'), v) == (KittyCommand { more_chunks: v == only('1'), ..cmd }),
        with_key(cmd, only('C'), v) == (KittyCommand { do_not_move_cursor: v == only('1'), ..cmd }),
        with_key(cmd, only('U'), v) == (KittyCommand { is_virtual: v == only('1'), ..cmd }),
{
    assert(v.len() == 1 && v[0] == '1' ==> v =~= only('1'));
}

/// The values of the keys `a`, `f` and `t`: the action, the format and the medium. An unknown value
/// stands for the usual one.
pub proof fn law_word_keys(cmd: KittyCommand, v: Seq<char>)
    ensures
        with_key(cmd, only('a'), v) == (KittyCommand { action: action_of(v), ..cmd }),
        with_key(cmd, only('f'), v) == (KittyCommand { format: format_of(v), ..cmd }),
        with_key(cmd, only('t'), v) == (KittyCommand { medium: medium_of(v), ..cmd }),
        action_of(only('t')) == KittyAction::TransmitAndDisplay,
        action_of(only('T')) == KittyAction::TransmitAndDisplayWithResponse,
        action_of(only('q')) == KittyAction::Query,
        action_of(only('p')) == KittyAction::Place,
        action_of(only('d')) == KittyAction::Delete,
        v != only('T') && v != only('q') && v != only('p') && v != only('d') ==> action_of(v)
            == KittyAction::TransmitAndDisplay,
        format_of(text::decimal(24)) == KittyFormat::Rgb24,
        format_of(text::decimal(32)) == KittyFormat::Rgba32,
        format_of(text::decimal(100)) == KittyFormat::Png,
        v != text::decimal(24) && v != text::decimal(100) ==> format_of(v) == KittyFormat::Rgba32,
        medium_of(only('d')) == KittyMedium::Direct,
        medium_of(only('f')) == KittyMedium::File,
        medium_of(only('t')) == KittyMedium::TempFile,
        medium_of(only('s')) == KittyMedium::SharedMemory,
        v != only('f') && v != only('t') && v != only('s') ==> medium_of(v) == KittyMedium::Direct,
{
    reveal_with_fuel(text::decimal, 4);
    assert(text::decimal(24) =~= seq!['2', '4']);
    assert(text::decimal(32) =~= seq!['3', '2']);
    assert(text::decimal(32)[0] == '3');
    assert(text::decimal(100) =~= seq!['1', '0', '0']);
    assert forall|c: char| v.len() == 1 && v[0] == c implies v == #[trigger] only(c) by {
        assert(v =~= only(c));
    }
}

/// A key of another length, or another letter, gives no parameter.
pub proof fn law_other_keys_are_ignored(cmd: KittyCommand, key: Seq<char>, v: Seq<char>)
    ensures
        key.len() != 1 ==> with_key(cmd, key, v) == cmd,
        key.len() == 1 && !seq![
            'a',
            'f',
            't',
            's',
            'v',
            'i',
            'p',
            'c',
            'r',
            'X',
            'Y',
            'z',
            'm',
            'C',
            'U',
            'q',
        ].contains(key[0]) ==> with_key(cmd, key, v) == cmd,
{
    let all = seq![
        'a',
        'f',
        't',
        's',
        'v',
        'i',
        'p',
        'c',
        'r',
        'X',
        'Y',
        'z',
        'm',
        'C',
        'U',
        'q',
    ];
    assert(all[0] == 'a' && all[1] == 'f' && all[2] == 't' && all[3] == 's' && all[4] == 'v');
    assert(all[5] == 'i' && all[6] == 'p' && all[7] == 'c' && all[8] == 'r' && all[9] == 'X');
    assert(all[10] == 'Y' && all[11] == 'z' && all[12] == 'm' && all[13] == 'C' && all[14] == 'U');
    assert(all[15] == 'q');
}

/// What a deletion names: the place of the cursor, the image or the placement with the number that
/// the command gives, or everything.
pub proof fn law_deletion_targets(cmd: KittyCommand, v: Seq<char>, n: u32)
    ensures
        target_of(cmd, only('c')) == DeleteTarget::AtCursor,
        target_of(cmd, only('C')) == DeleteTarget::AtCursor,
        cmd.image_id == Some(n) ==> target_of(cmd, only('i')) == DeleteTarget::ById(n),
        cmd.image_id == Some(n) ==> target_of(cmd, only('I')) == DeleteTarget::ById(n),
        cmd.image_id is None ==> target_of(cmd, only('i')) == DeleteTarget::All,
        cmd.placement_id == Some(n) ==> target_of(cmd, only('p')) == DeleteTarget::ByPlacement(n),
        cmd.placement_id == Some(n) ==> target_of(cmd, only('P')) == DeleteTarget::ByPlacement(n),
        cmd.placement_id is None ==> target_of(cmd, only('p')) == DeleteTarget::All,
        v.len() != 1 || !seq!['c', 'C', 'i', 'I', 'p', 'P'].contains(v[0]) ==> target_of(cmd, v)
            == DeleteTarget::All,
{
    let all = seq!['c', 'C', 'i', 'I', 'p', 'P'];
    assert(all[0] == 'c' && all[1] == 'C' && all[2] == 'i' && all[3] == 'I' && all[4] == 'p'
        && all[5] == 'P');
}

/// A command without keys asks for nothing in particular: it transmits and shows an image of four
/// bytes a pixel, sent with the command, without numbers, sizes or offsets.
pub proof fn law_a_command_without_keys()
    ensures
        ({
            let cmd = keys_read(Seq::empty()).0;
            &&& cmd.action == KittyAction::TransmitAndDisplay
            &&& cmd.format == KittyFormat::Rgba32
            &&& cmd.medium == KittyMedium::Direct
            &&& cmd.delete_target == DeleteTarget::All
            &&& cmd.image_id is None && !cmd.id_explicit && cmd.placement_id is None
            &&& cmd.width is None && cmd.height is None && cmd.cols is None && cmd.rows is None
            &&& cmd.offset_x == 0 && cmd.offset_y == 0 && cmd.z_index == 0 && cmd.quiet == 0
            &&& !cmd.more_chunks && !cmd.do_not_move_cursor && !cmd.is_virtual
        }),
        keys_read(Seq::empty()).1 is None,
{
}

/// A further key of a command changes what the keys before it gave; the key `d` names what is to be
/// deleted.
pub proof fn law_keys_are_read_in_order(pieces: Seq<Seq<char>>, piece: Seq<char>)
    ensures
        keys_read(pieces.push(piece)).0 == with_key(
            keys_read(pieces).0,
            piece_key(piece),
            piece_value(piece),
        ),
        piece_key(piece) == only('d') ==> keys_read(pieces.push(piece)).1 == Some(
            piece_value(piece),
        ),
        piece_key(piece) != only('d') ==> keys_read(pieces.push(piece)).1 == keys_read(pieces).1,
{
    assert(pieces.push(piece).drop_last() =~= pieces);
    let key = piece_key(piece);
    assert(key.len() == 1 && key[0] == 'd' ==> key =~= only('d'));
}

/// A key and its value stand before and behind the first equals sign of their piece.
pub proof fn law_keys_and_values(k: char, v: Seq<char>)
    requires
        k != '=',
        !text::white_space(k),
        v.len() > 0 ==> !text::white_space(v[0]) && !text::white_space(v.last()),
    ensures
        piece_key(only(k).push('=') + v) == only(k),
        piece_value(only(k).push('=') + v) == v,
        piece_key(only(k)) == only(k),
        piece_value(only(k)).len() == 0,
{
    reveal_with_fuel(key_part, 3);
    let s = only(k).push('=') + v;
    assert(!text::white_space('='));
    assert(s[0] == k && s[1] == '=');
    assert(s.last() == (if v.len() > 0 {
        v.last()
    } else {
        '='
    }));
    law_trimming_keeps_plain_text(s);
    assert(s.drop_first()[0] == '=');
    assert(key_part(s.drop_first()) =~= Seq::<char>::empty());
    assert(key_part(s) =~= only(k));
    assert(s.skip(2) =~= v);
    law_trimming_keeps_plain_text(only(k));
    law_trimming_keeps_plain_text(v);
    law_trimming_keeps_plain_text(Seq::empty());
    assert(only(k).drop_first() =~= Seq::<char>::empty());
    assert(key_part(only(k).drop_first()) =~= Seq::<char>::empty());
    assert(key_part(only(k)) =~= only(k));
    assert(value_part(only(k)) =~= Seq::<char>::empty());
}

/// A command with one key has the parameter of that key, and a deletion names what its key says.
pub proof fn law_a_command_with_one_key(k: char, v: Seq<char>)
    requires
        k != '=' && k != ',' && k != 'd',
        !text::white_space(k),
        !v.contains(','),
        v.len() > 0 ==> !text::white_space(v[0]) && !text::white_space(v.last()),
    ensures
        command_of(only(k).push('=') + v) == with_key(keys_read(Seq::empty()).0, only(k), v),
{
    let s = only(k).push('=') + v;
    assert(!s.contains(',')) by {
        if s.contains(',') {
            let i = choose|i: int| 0 <= i < s.len() && s[i] == ',';
            assert(s[0] == k && s[1] == '=');
            assert(i >= 2);
            assert(v[i - 2] == ',');
        }
    }
    law_text_without_separators_is_one_piece(s, ',');
    law_keys_and_values(k, v);
    assert(Seq::<Seq<char>>::empty().push(s) =~= seq![s]);
    law_keys_are_read_in_order(Seq::empty(), s);
    assert(only('d')[0] == 'd' && only(k)[0] == k);
}

/// Colors without an opacity become opaque, pixel by pixel: red, green and blue stay in their order.
pub proof fn law_opaque_pixels(rgb: Seq<u8>, i: int)
    requires
        0 <= i < rgb.len() / 3,
    ensures
        with_opacity(rgb).len() == rgb.len() / 3 * 4,
        with_opacity(rgb)[4 * i] == rgb[3 * i],
        with_opacity(rgb)[4 * i + 1] == rgb[3 * i + 1],
        with_opacity(rgb)[4 * i + 2] == rgb[3 * i + 2],
        with_opacity(rgb)[4 * i + 3] == 255,
{
}

/// An image that came as a PNG file has the size of its frame, and each of its pixels the color of
/// that pixel: gray stands for red, green and blue alike, and opacity is full where none is given.
pub proof fn law_pictures_keep_their_colors(id: u32, frame: FrameModel, i: int)
    requires
        i >= 0,
        4 * i + 3 < (match png_image_of(id, frame) {
            Ok(image) => image.rgba.len() as int,
            Err(_) => 4 * i + 4,
        }),
    ensures
        match png_image_of(id, frame) {
            Ok(image) => {
                let d = frame.data;
                let p = image.rgba;
                &&& image.id == id && image.width == frame.width && image.height == frame.height
                &&& frame.color == PngColor::Rgba ==> p == d
                &&& frame.color == PngColor::Rgb ==> p.len() == d.len() / 3 * 4 && p[4 * i] == d[3
                    * i] && p[4 * i + 1] == d[3 * i + 1] && p[4 * i + 2] == d[3 * i + 2] && p[4 * i
                    + 3] == 255
                &&& frame.color == PngColor::Grayscale ==> p.len() == d.len() * 4 && p[4 * i]
                    == d[i] && p[4 * i + 1] == d[i] && p[4 * i + 2] == d[i] && p[4 * i + 3] == 255
                &&& frame.color == PngColor::GrayscaleAlpha ==> p.len() == d.len() / 2 * 4 && p[4
                    * i] == d[2 * i] && p[4 * i + 1] == d[2 * i] && p[4 * i + 2] == d[2 * i] && p[4
                    * i + 3] == d[2 * i + 1]
                &&& frame.color != PngColor::Indexed
            },
            Err(text) => frame.color == PngColor::Indexed && text
                == "unsupported PNG color format"@,
        },
{
}

/// Raw pixels make an image where width and height are given and the bytes are exactly three or four
/// a pixel; the image has that width and height, and otherwise there is none.
pub proof fn law_raw_pixels_make_an_image(id: u32, cmd: KittyCommand, bytes: Seq<u8>)
    requires
        cmd.format != KittyFormat::Png,
    ensures
        ({
            let samples: int = if cmd.format == KittyFormat::Rgb24 {
                3
            } else {
                4
            };
            let sized = cmd.width is Some && cmd.height is Some && bytes.len() == cmd.width->0
                * cmd.height->0 * samples;
            match image_of(id, cmd, bytes) {
                Ok(image) => {
                    &&& sized
                    &&& image.id == id
                    &&& cmd.width == Some(image.width) && cmd.height == Some(image.height)
                    &&& cmd.format == KittyFormat::Rgba32 ==> image.rgba == bytes
                    &&& cmd.format == KittyFormat::Rgb24 ==> image.rgba == with_opacity(bytes)
                },
                Err(_) => !sized,
            }
        }),
{
}

/// Raw pixels that make no image are refused for the first thing that is wrong: a width or a height
/// that is missing, or another number of bytes than the size asks for.
pub proof fn law_raw_pixels_are_refused_for_a_reason(id: u32, cmd: KittyCommand, bytes: Seq<u8>)
    requires
        cmd.format != KittyFormat::Png,
    ensures
        ({
            let (kind, samples) = if cmd.format == KittyFormat::Rgb24 {
                ("RGB"@, 3int)
            } else {
                ("RGBA"@, 4int)
            };
            match image_of(id, cmd, bytes) {
                Ok(_) => true,
                Err(e) => {
                    &&& cmd.width is None ==> e == "missing width for raw "@ + kind
                    &&& cmd.width is Some && cmd.height is None ==> e == "missing height for raw "@
                        + kind
                    &&& cmd.width is Some && cmd.height is Some ==> e == "raw "@ + kind
                        + " byte size mismatch: expected "@ + text::decimal(
                        (cmd.width->0 * cmd.height->0 * samples) as nat,
                    ) + ", got "@ + text::decimal(bytes.len())
                },
            }
        }),
{
}

/// An image is handed on under the number that it got, with the command that brought it; a failure
/// is answered under that number unless the command is to be quiet about it.
pub proof fn law_images_are_handed_on(cmd: KittyCommand, id: u32, image: ImageModel, e: Seq<char>)
    ensures
        match transmission_of(cmd, id, Ok(image)) {
            Some(EventModel::Transmit { command, image: handed }) => {
                &&& handed == image
                &&& command.image_id == Some(id)
                &&& command == (KittyCommand { image_id: Some(id), ..cmd })
            },
            _ => false,
        },
        cmd.quiet >= 2 ==> transmission_of(cmd, id, Err(e)) is None,
        cmd.quiet < 2 ==> transmission_of(cmd, id, Err(e)) == Some(
            EventModel::Response(response_bytes(id, cmd.placement_id, e)),
        ),
{
}

/// A payload that came with its command is the image; any other payload names the file or the
/// shared memory that holds it.
pub proof fn law_payloads(cmd: KittyCommand, id: u32, bytes: Seq<u8>, e: Seq<char>)
    ensures
        cmd.medium == KittyMedium::Direct ==> decoded_outcome(cmd, id, Ok(bytes))
            == transmission_of(cmd, id, image_of(id, cmd, bytes)),
        cmd.medium != KittyMedium::Direct && valid_utf8(bytes) ==> decoded_outcome(
            cmd,
            id,
            Ok(bytes),
        ) == Some(
            EventModel::Load { command: cmd, image_id: id, name: decode_utf8(bytes) },
        ),
        decoded_outcome(cmd, id, Err(e)) == transmission_of(cmd, id, Err(e)),
        MAX_SHM_PAYLOAD == 32 * 1024 * 1024,
{
}

/// Whether nothing of a command has been read.
pub open spec fn is_idle(p: ParserModel) -> bool {
    !p.in_apc && p.apc.len() == 0 && p.pending.len() == 0
}

/// A list of the one event that there may be.
pub open spec fn at_most_one(e: Option<EventModel>) -> Seq<EventModel> {
    if e is Some {
        seq![e->0]
    } else {
        Seq::empty()
    }
}

proof fn lemma_body(p: ParserModel, body: Seq<u8>)
    requires
        p.in_apc,
        p.pending.len() == 0,
        p.apc.len() + body.len() <= MAX_APC_PAYLOAD,
        forall|i: int| 0 <= i < body.len() ==> #[trigger] body[i] != 0x1b && body[i] != 0x07,
    ensures
        p.filtered(body) == (Filtered {
            parser: ParserModel { apc: p.apc + body, ..p },
            text: Seq::empty(),
            events: Seq::empty(),
        }),
    decreases body.len(),
{
    assert(p.pending + body =~= body);
    assert(ParserModel { pending: Seq::empty(), ..p } =~= p);
    if body.len() == 0 {
        assert(p.apc + body =~= p.apc);
    } else {
        let rest = body.skip(1);
        let next = ParserModel { apc: p.apc.push(body[0]), ..p };
        assert(body[0] != 0x1b && body[0] != 0x07);
        assert(p.step(body) == p.collected(body[0]));
        assert forall|i: int| 0 <= i < rest.len() implies #[trigger] rest[i] != 0x1b && rest[i]
            != 0x07 by {
            assert(body[i + 1] == rest[i]);
        }
        lemma_body(next, rest);
        assert(next.pending + rest =~= rest);
        assert(ParserModel { pending: Seq::empty(), ..next } =~= next);
        assert(next.apc + rest =~= p.apc + body);
        let tail = next.scanned(rest);
        assert(tail.text =~= Seq::<u8>::empty());
        assert(Seq::<u8>::empty() + tail.text =~= Seq::<u8>::empty());
        assert(Seq::<EventModel>::empty() + tail.events =~= Seq::<EventModel>::empty());
    }
}

proof fn lemma_semicolon(keys: Seq<u8>, payload: Seq<u8>)
    requires
        !keys.contains(0x3b),
    ensures
        crate::kitty::parser::semicolon(keys.push(0x3b) + payload) == keys.len(),
    decreases keys.len(),
{
    let s = keys.push(0x3b) + payload;
    if keys.len() == 0 {
        assert(s[0] == 0x3b);
    } else {
        assert(s[0] == keys[0]);
        assert(keys[0] != 0x3b) by {
            if keys[0] == 0x3b {
                assert(keys.contains(0x3b));
            }
        }
        let t = keys.drop_first();
        assert(!t.contains(0x3b)) by {
            if t.contains(0x3b) {
                let k = choose|k: int| 0 <= k < t.len() && t[k] == 0x3b;
                assert(keys[k + 1] == 0x3b);
            }
        }
        lemma_semicolon(t, payload);
        assert(s.drop_first() =~= t.push(0x3b) + payload);
    }
}

proof fn lemma_executed_apart(p: ParserModel, apc: Seq<u8>, cmd: KittyCommand, payload: Seq<u8>)
    requires
        p.apc.len() == 0,
    ensures
        ({
            let (after, event) = (ParserModel { apc, ..p }).executed(cmd, payload);
            p.executed(cmd, payload) == (ParserModel { apc: Seq::empty(), ..after }, event)
        }),
{
    assert(p.apc =~= Seq::empty());
    let q = ParserModel { apc, ..p };
    let (after, event) = q.executed(cmd, payload);
    let (other, same) = p.executed(cmd, payload);
    assert(other =~= ParserModel { apc: Seq::empty(), ..after });
}

/// A command in the output stream, from an escape, an underscore and a `G` up to an escape and a
/// backslash or up to a bell, is taken out of the text and carried out: its keys stand before the
/// first semicolon, and its payload behind it.
#[verifier::rlimit(40)]
pub proof fn law_commands_are_taken_out(
    p: ParserModel,
    keys: Seq<u8>,
    payload: Seq<u8>,
    bell: bool,
)
    requires
        is_idle(p),
        valid_utf8(keys),
        !keys.contains(0x3b),
        keys.len() + 1 + payload.len() <= MAX_APC_PAYLOAD,
        forall|i: int|
            0 <= i < keys.len() ==> #[trigger] keys[i] != 0x1b && keys[i] != 0x07,
        forall|i: int|
            0 <= i < payload.len() ==> #[trigger] payload[i] != 0x1b && payload[i] != 0x07,
    ensures
        ({
            let end = if bell {
                seq![0x07u8]
            } else {
                seq![0x1bu8, 0x5c]
            };
            let (after, event) = p.executed(command_of(decode_utf8(keys)), payload);
            p.filtered(seq![0x1bu8, 0x5f, 0x47] + (keys.push(0x3b) + payload) + end) == (Filtered {
                parser: after,
                text: Seq::empty(),
                events: at_most_one(event),
            })
        }),
{
    let start = seq![0x1bu8, 0x5f, 0x47];
    let body = keys.push(0x3b) + payload;
    let end = if bell {
        seq![0x07u8]
    } else {
        seq![0x1bu8, 0x5c]
    };
    let open = ParserModel { in_apc: true, apc: Seq::empty(), ..p };
    assert(p.pending =~= Seq::empty());
    assert(p.apc =~= Seq::empty());
    assert(ParserModel { pending: Seq::empty(), ..p } =~= p);
    assert(p.pending + start =~= start);
    assert(start.skip(3) =~= Seq::<u8>::empty());
    assert(open.scanned(start.skip(3)) == Filtered {
        parser: open,
        text: Seq::empty(),
        events: Seq::empty(),
    });
    assert(p.step(start).parser == open && p.step(start).used == 3);
    let opened = p.filtered(start);
    assert(opened.parser == open);
    assert(opened.text =~= Seq::<u8>::empty());
    assert(opened.events =~= Seq::<EventModel>::empty());
    assert forall|i: int| 0 <= i < body.len() implies #[trigger] body[i] != 0x1b && body[i]
        != 0x07 by {
        if i < keys.len() {
            assert(body[i] == keys[i]);
        } else if i > keys.len() {
            assert(body[i] == payload[i - keys.len() - 1]);
        }
    }
    lemma_body(open, body);
    assert(open.apc + body =~= body);
    let full = ParserModel { apc: body, ..open };
    let read = open.filtered(body);
    assert(read.parser == full);
    lemma_semicolon(keys, payload);
    assert(body.take(keys.len() as int) =~= keys);
    assert(body.skip(keys.len() as int + 1) =~= payload);
    let whole = ParserModel { apc: body, ..p };
    assert(ParserModel { in_apc: false, ..full } =~= whole);
    lemma_executed_apart(p, body, command_of(decode_utf8(keys)), payload);
    assert(ParserModel { pending: Seq::empty(), ..full } =~= full);
    assert(full.pending + end =~= end);
    let n = end.len();
    assert(full.step(end) == full.closed(n));
    assert(end.skip(n as int) =~= Seq::<u8>::empty());
    let shut = full.closed(n).parser;
    assert(shut.scanned(end.skip(n as int)) == Filtered {
        parser: shut,
        text: Seq::empty(),
        events: Seq::empty(),
    });
    let closed = full.filtered(end);
    let (after, event) = p.executed(command_of(decode_utf8(keys)), payload);
    assert(closed.parser == after);
    assert(closed.text =~= Seq::<u8>::empty());
    assert(closed.events =~= at_most_one(event));
    law_pieces_do_not_matter(p, start, body);
    law_pieces_do_not_matter(p, start + body, end);
    assert(p.filtered(start + body).events =~= Seq::<EventModel>::empty());
    assert(p.filtered(start + body).text =~= Seq::<u8>::empty());
    assert(Seq::<EventModel>::empty() + closed.events =~= at_most_one(event));
}

/// An escape and an underscore start a command only together with a `G`; other bytes behind them are
/// text. Within a command, an escape ends it only together with a backslash.
pub proof fn law_other_escapes_are_kept(p: ParserModel, b: u8, c: u8)
    requires
        p.pending.len() == 0,
        b != 0x47 && b != 0x1b,
        c != 0x5c && c != 0x1b && c != 0x07,
        p.apc.len() + 2 <= MAX_APC_PAYLOAD,
    ensures
        !p.in_apc ==> p.filtered(seq![0x1bu8, 0x5f, b]) == (Filtered {
            parser: p,
            text: seq![0x1bu8, 0x5f, b],
            events: Seq::empty(),
        }),
        p.in_apc ==> p.filtered(seq![0x1bu8, c]) == (Filtered {
            parser: ParserModel { apc: p.apc + seq![0x1bu8, c], ..p },
            text: Seq::empty(),
            events: Seq::empty(),
        }),
{
    reveal_with_fuel(ParserModel::scanned, 4);
    assert(p.pending =~= Seq::empty());
    assert(ParserModel { pending: Seq::empty(), ..p } =~= p);
    if !p.in_apc {
        let s = seq![0x1bu8, 0x5f, b];
        assert(p.pending + s =~= s);
        assert(s.skip(1) =~= seq![0x5fu8, b]);
        assert(s.skip(1).skip(1) =~= seq![b]);
        assert(s.skip(1).skip(1).skip(1) =~= Seq::<u8>::empty());
        assert(p.step(s) == p.passed(0x1b));
        assert(p.step(s.skip(1)) == p.passed(0x5f));
        assert(p.step(s.skip(1).skip(1)) == p.passed(b));
        assert(p.filtered(s).text =~= s);
        assert(p.filtered(s).events =~= Seq::<EventModel>::empty());
    } else {
        let s = seq![0x1bu8, c];
        assert(p.pending + s =~= s);
        let q = ParserModel { apc: p.apc.push(0x1b), ..p };
        let r = ParserModel { apc: p.apc.push(0x1b).push(c), ..p };
        assert(s.skip(1) =~= seq![c]);
        assert(s.skip(1).skip(1) =~= Seq::<u8>::empty());
        assert(p.step(s) == p.collected(0x1b));
        assert(q.step(s.skip(1)) == q.collected(c));
        assert(p.apc.push(0x1b).push(c) =~= p.apc + s);
        assert(p.filtered(s).text =~= Seq::<u8>::empty());
        assert(p.filtered(s).events =~= Seq::<EventModel>::empty());
    }
}

/// A command of more than thirty-two mebibytes is dropped, and with it what was collected of a
/// transmission in pieces.
pub proof fn law_overlong_commands_are_dropped(p: ParserModel, rest: Seq<u8>)
    requires
        p.in_apc,
        p.apc.len() > 32 * 1024 * 1024,
    ensures
        ({
            let s = p.step(rest);
            &&& !s.parser.in_apc && s.parser.apc.len() == 0
            &&& s.parser.chunked is None && s.parser.payload.len() == 0
            &&& s.parser.next_id == p.next_id
            &&& s.text.len() == 0 && s.event is None
        }),
{
}

/// A query is answered with its number, a deletion and a placement are handed on as they are, and
/// none of them changes anything in the parser.
pub proof fn law_commands_without_images(p: ParserModel, cmd: KittyCommand, payload: Seq<u8>)
    ensures
        cmd.action == KittyAction::Query ==> p.executed(cmd, payload) == (
            p,
            Some(
                EventModel::Response(
                    response_bytes(
                        if cmd.image_id is Some {
                            cmd.image_id->0
                        } else {
                            0
                        },
                        None,
                        "OK"@,
                    ),
                ),
            ),
        ),
        cmd.action == KittyAction::Delete ==> p.executed(cmd, payload) == (
            p,
            Some(EventModel::Delete { target: cmd.delete_target }),
        ),
        cmd.action == KittyAction::Place ==> p.executed(cmd, payload) == (
            p,
            Some(EventModel::Place { command: cmd }),
        ),
{
}

/// An image keeps the number that its command gives; one without a number gets the next free one,
/// and the one after it the next.
pub proof fn law_images_are_numbered(p: ParserModel, cmd: KittyCommand, payload: Seq<u8>)
    requires
        cmd.action == KittyAction::TransmitAndDisplay || cmd.action
            == KittyAction::TransmitAndDisplayWithResponse,
        !cmd.more_chunks,
        p.chunked is None,
    ensures
        ({
            let (after, event) = p.executed(cmd, payload);
            let decoded = base64_decoded(payload);
            &&& cmd.image_id matches Some(id) ==> after == p && event == decoded_outcome(
                cmd,
                id,
                decoded,
            )
            &&& cmd.image_id is None ==> event == decoded_outcome(cmd, p.next_id, decoded)
            &&& cmd.image_id is None ==> after == (ParserModel { next_id: after.next_id, ..p })
            &&& cmd.image_id is None && p.next_id < u32::MAX ==> after.next_id == p.next_id + 1
            &&& cmd.image_id is None && p.next_id == u32::MAX ==> after.next_id == 0
        }),
{
}

} // verus!
