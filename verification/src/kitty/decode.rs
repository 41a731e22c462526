//! From a transmitted payload to pixels.

use crate::kitty::command::{kitty_response, response_bytes};
use crate::kitty::{
    event_model, EventModel, ImageData, ImageModel, KittyCommand, KittyEvent, KittyFormat,
    KittyMedium,
};
use crate::text;
use base64::engine::general_purpose::STANDARD;
use base64::Engine;
use png::{ColorType, Transformations};
use vstd::prelude::*;
use vstd::utf8::{decode_utf8, valid_utf8};

verus! {

/// A shared-memory command contains only a name, so its backing object needs a separate cap.
pub const MAX_SHM_PAYLOAD: u64 = 0x200_0000;

/// What `base64`'s standard engine makes of encoded bytes: the decoded bytes, or the text of its
/// error.
pub uninterp spec fn base64_decoded(encoded: Seq<u8>) -> Result<Seq<u8>, Seq<char>>;

/// What the `png` decoder makes of a file, expanded to eight-bit samples with alpha: the first
/// frame, or the text of its error.
pub uninterp spec fn png_frame(bytes: Seq<u8>) -> Result<FrameModel, Seq<char>>;

/// What a fallible byte decoder returned.
pub open spec fn bytes_result(r: Result<Vec<u8>, String>) -> Result<Seq<u8>, Seq<char>> {
    match r {
        Ok(bytes) => Ok(bytes@),
        Err(text) => Err(text@),
    }
}

/// What a fallible image decoder returned.
pub open spec fn image_result(r: Result<ImageData, String>) -> Result<ImageModel, Seq<char>> {
    match r {
        Ok(image) => Ok(image@),
        Err(text) => Err(text@),
    }
}

/// `Engine::decode` of `base64`'s `STANDARD` engine. The result depends on the encoded bytes
/// alone; its error is turned into text by the error's own `Display`.
#[verifier::external_body]
fn decode_base64(encoded: &[u8]) -> (r: Result<Vec<u8>, String>)
    ensures
        bytes_result(r) == base64_decoded(encoded@),
{
    STANDARD.decode(encoded).map_err(|e| e.to_string())
}

/// How the samples of a decoded picture are laid out.
#[derive(Debug, Clone, Copy, PartialEq, Eq, Structural)]
pub enum PngColor {
    Grayscale,
    Rgb,
    Indexed,
    GrayscaleAlpha,
    Rgba,
}

/// A decoded picture: its size, the layout of its samples and the samples row by row.
#[derive(Debug)]
pub struct PngFrame {
    pub width: u32,
    pub height: u32,
    pub color: PngColor,
    pub data: Vec<u8>,
}

/// What a decoded picture holds.
#[verifier::ext_equal]
pub struct FrameModel {
    pub width: u32,
    pub height: u32,
    pub color: PngColor,
    pub data: Seq<u8>,
}

impl View for PngFrame {
    type V = FrameModel;

    open spec fn view(&self) -> FrameModel {
        FrameModel {
            width: self.width,
            height: self.height,
            color: self.color,
            data: self.data@,
        }
    }
}

/// What a fallible picture decoder returned.
pub open spec fn frame_result(r: Result<PngFrame, String>) -> Result<FrameModel, Seq<char>> {
    match r {
        Ok(frame) => Ok(frame@),
        Err(text) => Err(text@),
    }
}

/// `png::Decoder`, set to expand palettes and low depths, strip sixteen-bit samples and add alpha,
/// followed by `Reader::next_frame`: the first frame of the file, cut to the size that
/// `OutputInfo::buffer_size` gives, or the text of the error. Running out of memory for the frame
/// is left out.
#[verifier::external_body]
fn read_png(bytes: &[u8]) -> (r: Result<PngFrame, String>)
    ensures
        frame_result(r) == png_frame(bytes@),
{
    let mut decoder = png::Decoder::new(std::io::Cursor::new(bytes));
    decoder.set_transformations(Transformations::EXPAND | Transformations::STRIP_16 | Transformations::ALPHA);
    let mut reader = decoder.read_info().map_err(|e| e.to_string())?;
    let mut data = vec![0; reader.output_buffer_size().unwrap_or(4096)];
    let info = reader.next_frame(&mut data).map_err(|e| e.to_string())?;
    data.truncate(info.buffer_size());
    let color = match info.color_type {
        ColorType::Grayscale => PngColor::Grayscale,
        ColorType::Rgb => PngColor::Rgb,
        ColorType::Indexed => PngColor::Indexed,
        ColorType::GrayscaleAlpha => PngColor::GrayscaleAlpha,
        ColorType::Rgba => PngColor::Rgba,
    };
    Ok(PngFrame { width: info.width, height: info.height, color, data })
}

/// Whether a temporary image file may be removed once it has been read: it lies in the system's
/// temporary directory, in `/tmp` or in `/dev/shm`.
pub fn may_remove_file(path: &str, temp_dir: &str) -> (r: bool)
    ensures
        r == (text::lies_within(path@, temp_dir@) || text::lies_within(path@, "/tmp"@)
            || text::lies_within(path@, "/dev/shm"@)),
{
    text::path_starts_with(path, temp_dir) || text::path_starts_with(path, "/tmp")
        || text::path_starts_with(path, "/dev/shm")
}

/// Checks the size of a shared memory object before it is read.
pub fn check_shm_size(size: u64) -> (r: Result<(), &'static str>)
    ensures
        match r {
            Ok(_) => size <= MAX_SHM_PAYLOAD,
            Err(e) => size > MAX_SHM_PAYLOAD && e@
                == "shared memory exceeds the 32 MiB image payload limit"@,
        },
{
    if size > MAX_SHM_PAYLOAD {
        Err("shared memory exceeds the 32 MiB image payload limit")
    } else {
        Ok(())
    }
}

/// Checks that a shared memory object still has the size that was read.
pub fn check_shm_unchanged(size: u64, size_after: u64) -> (r: Result<(), &'static str>)
    ensures
        match r {
            Ok(_) => size == size_after,
            Err(e) => size != size_after && e@ == "shared memory changed size during transfer"@,
        },
{
    if size != size_after {
        Err("shared memory changed size during transfer")
    } else {
        Ok(())
    }
}

/// Pixels with full opacity added to each three samples.
pub open spec fn with_opacity(rgb: Seq<u8>) -> Seq<u8> {
    Seq::new(
        rgb.len() / 3 * 4,
        |i: int|
            if i % 4 == 3 {
                255
            } else {
                rgb[i / 4 * 3 + i % 4]
            },
    )
}

/// Pixels of gray samples.
pub open spec fn from_gray(gray: Seq<u8>) -> Seq<u8> {
    Seq::new(
        gray.len() * 4,
        |i: int|
            if i % 4 == 3 {
                255
            } else {
                gray[i / 4]
            },
    )
}

/// Pixels of pairs of a gray sample and its opacity.
pub open spec fn from_gray_alpha(pairs: Seq<u8>) -> Seq<u8> {
    Seq::new(
        pairs.len() / 2 * 4,
        |i: int|
            if i % 4 == 3 {
                pairs[i / 4 * 2 + 1]
            } else {
                pairs[i / 4 * 2]
            },
    )
}

/// The image that a decoded picture gives.
pub open spec fn png_image_of(id: u32, frame: FrameModel) -> Result<ImageModel, Seq<char>> {
    let image = |rgba: Seq<u8>|
        Ok(ImageModel { id, width: frame.width, height: frame.height, rgba });
    match frame.color {
        PngColor::Rgba => image(frame.data),
        PngColor::Rgb => image(with_opacity(frame.data)),
        PngColor::Grayscale => image(from_gray(frame.data)),
        PngColor::GrayscaleAlpha => image(from_gray_alpha(frame.data)),
        PngColor::Indexed => Err("unsupported PNG color format"@),
    }
}

/// The message for raw pixels whose number of bytes does not fit their size.
pub open spec fn mismatch(kind: Seq<char>, expected: nat, got: nat) -> Seq<char> {
    "raw "@ + kind + " byte size mismatch: expected "@ + text::decimal(expected) + ", got "@
        + text::decimal(got)
}

/// The image that raw pixels of `samples` bytes each give.
pub open spec fn raw_image_of(
    id: u32,
    cmd: KittyCommand,
    samples: nat,
    kind: Seq<char>,
    rgba: Seq<u8>,
    got: nat,
) -> Result<ImageModel, Seq<char>> {
    match (cmd.width, cmd.height) {
        (None, _) => Err("missing width for raw "@ + kind),
        (Some(_), None) => Err("missing height for raw "@ + kind),
        (Some(width), Some(height)) => {
            let expected = width as nat * height as nat * samples;
            if got != expected {
                Err(mismatch(kind, expected, got))
            } else {
                Ok(ImageModel { id, width, height, rgba })
            }
        },
    }
}

/// The image that the bytes of a transmission give.
pub open spec fn image_of(id: u32, cmd: KittyCommand, bytes: Seq<u8>) -> Result<
    ImageModel,
    Seq<char>,
> {
    match cmd.format {
        KittyFormat::Png => match png_frame(bytes) {
            Ok(frame) => png_image_of(id, frame),
            Err(text) => Err(text),
        },
        KittyFormat::Rgba32 => raw_image_of(id, cmd, 4, "RGBA"@, bytes, bytes.len()),
        KittyFormat::Rgb24 => raw_image_of(id, cmd, 3, "RGB"@, with_opacity(bytes), bytes.len()),
    }
}

/// The event for a transmission that gave an image or failed. A failure is answered unless the
/// command asks for silence.
pub open spec fn transmission_of(
    cmd: KittyCommand,
    id: u32,
    image: Result<ImageModel, Seq<char>>,
) -> Option<EventModel> {
    match image {
        Ok(image) => Some(
            EventModel::Transmit { command: KittyCommand { image_id: Some(id), ..cmd }, image },
        ),
        Err(text) => if cmd.quiet < 2 {
            Some(EventModel::Response(response_bytes(id, cmd.placement_id, text)))
        } else {
            None
        },
    }
}

/// The event for a transmission whose bytes were read, or could not be.
pub open spec fn load_outcome(
    cmd: KittyCommand,
    id: u32,
    read: Result<Seq<u8>, Seq<char>>,
) -> Option<EventModel> {
    match read {
        Ok(bytes) => transmission_of(cmd, id, image_of(id, cmd, bytes)),
        Err(text) => transmission_of(cmd, id, Err(text)),
    }
}

/// The event for the decoded payload of a transmission: the pixels themselves, or the name of
/// what holds them.
pub open spec fn decoded_outcome(
    cmd: KittyCommand,
    id: u32,
    decoded: Result<Seq<u8>, Seq<char>>,
) -> Option<EventModel> {
    match decoded {
        Ok(bytes) if cmd.medium != KittyMedium::Direct => if valid_utf8(bytes) {
            Some(EventModel::Load { command: cmd, image_id: id, name: decode_utf8(bytes) })
        } else {
            transmission_of(cmd, id, Err(text::utf8_error_text(bytes)))
        },
        _ => load_outcome(cmd, id, decoded),
    }
}

/// Adds full opacity to each three samples.
fn add_opacity(rgb: &Vec<u8>) -> (r: Vec<u8>)
    ensures
        r@ == with_opacity(rgb@),
{
    let mut out: Vec<u8> = Vec::new();
    let len: usize = rgb.len();
    let total: usize = len / 3;
    let mut i: usize = 0;
    while i < total
        invariant
            i <= total,
            len == rgb@.len(),
            total == len / 3,
            out@.len() == 4 * i,
            forall|j: int| 0 <= j < 4 * i ==> #[trigger] out@[j] == with_opacity(rgb@)[j],
        decreases total - i,
    {
        let ghost before = out@;
        out.push(rgb[3 * i]);
        out.push(rgb[3 * i + 1]);
        out.push(rgb[3 * i + 2]);
        out.push(255);
        assert forall|j: int| 0 <= j < 4 * (i + 1) implies #[trigger] out@[j] == with_opacity(
            rgb@,
        )[j] by {
            if j < 4 * i {
                assert(out@[j] == before[j]);
            } else {
                assert(j / 4 == i);
            }
        }
        i += 1;
    }
    assert(out@ =~= with_opacity(rgb@));
    out
}

/// Spreads gray samples to pixels.
fn spread_gray(gray: &Vec<u8>) -> (r: Vec<u8>)
    ensures
        r@ == from_gray(gray@),
{
    let mut out: Vec<u8> = Vec::new();
    let mut i: usize = 0;
    while i < gray.len()
        invariant
            i <= gray@.len(),
            out@.len() == 4 * i,
            forall|j: int| 0 <= j < 4 * i ==> #[trigger] out@[j] == from_gray(gray@)[j],
        decreases gray@.len() - i,
    {
        let ghost before = out@;
        let sample: u8 = gray[i];
        out.push(sample);
        out.push(sample);
        out.push(sample);
        out.push(255);
        assert forall|j: int| 0 <= j < 4 * (i + 1) implies #[trigger] out@[j] == from_gray(
            gray@,
        )[j] by {
            if j < 4 * i {
                assert(out@[j] == before[j]);
            } else {
                assert(j / 4 == i);
            }
        }
        i += 1;
    }
    assert(out@ =~= from_gray(gray@));
    out
}

/// Spreads pairs of a gray sample and its opacity to pixels.
fn spread_gray_alpha(pairs: &Vec<u8>) -> (r: Vec<u8>)
    ensures
        r@ == from_gray_alpha(pairs@),
{
    let mut out: Vec<u8> = Vec::new();
    let len: usize = pairs.len();
    let total: usize = len / 2;
    let mut i: usize = 0;
    while i < total
        invariant
            i <= total,
            len == pairs@.len(),
            total == len / 2,
            out@.len() == 4 * i,
            forall|j: int| 0 <= j < 4 * i ==> #[trigger] out@[j] == from_gray_alpha(pairs@)[j],
        decreases total - i,
    {
        let ghost before = out@;
        let sample: u8 = pairs[2 * i];
        out.push(sample);
        out.push(sample);
        out.push(sample);
        out.push(pairs[2 * i + 1]);
        assert forall|j: int| 0 <= j < 4 * (i + 1) implies #[trigger] out@[j] == from_gray_alpha(
            pairs@,
        )[j] by {
            if j < 4 * i {
                assert(out@[j] == before[j]);
            } else {
                assert(j / 4 == i);
            }
        }
        i += 1;
    }
    assert(out@ =~= from_gray_alpha(pairs@));
    out
}

/// Turns a decoded picture into an image.
pub fn png_image(id: u32, frame: PngFrame) -> (r: Result<ImageData, String>)
    ensures
        image_result(r) == png_image_of(id, frame@),
{
    let rgba: Vec<u8> = match frame.color {
        PngColor::Rgba => frame.data,
        PngColor::Rgb => add_opacity(&frame.data),
        PngColor::Grayscale => spread_gray(&frame.data),
        PngColor::GrayscaleAlpha => spread_gray_alpha(&frame.data),
        PngColor::Indexed => {
            return Err("unsupported PNG color format".to_owned());
        },
    };
    Ok(ImageData { id, width: frame.width, height: frame.height, rgba })
}

fn decode_png(id: u32, bytes: &Vec<u8>) -> (r: Result<ImageData, String>)
    ensures
        image_result(r) == (match png_frame(bytes@) {
            Ok(frame) => png_image_of(id, frame),
            Err(text) => Err(text),
        }),
{
    match read_png(bytes.as_slice()) {
        Ok(frame) => png_image(id, frame),
        Err(text) => Err(text),
    }
}

/// The message for raw pixels whose number of bytes does not fit their size.
fn mismatch_text(kind: &str, expected: u128, got: usize) -> (r: String)
    ensures
        r@ == mismatch(kind@, expected as nat, got as nat),
{
    let mut out: String = "raw ".to_owned();
    out.append(kind);
    out.append(" byte size mismatch: expected ");
    out.append(text::string_of(text::wide_decimal_chars(expected).as_slice()).as_str());
    out.append(", got ");
    out.append(text::string_of(text::decimal_chars(got as u64).as_slice()).as_str());
    out
}

/// Checks the size of raw pixels.
fn check_raw(cmd: &KittyCommand, samples: u8, kind: &str, got: usize) -> (r: Result<
    (u32, u32),
    String,
>)
    ensures
        match r {
            Ok((width, height)) => cmd.width == Some(width) && cmd.height == Some(height) && got
                == width as nat * height as nat * samples as nat,
            Err(e) => raw_image_of(0, *cmd, samples as nat, kind@, Seq::empty(), got as nat)
                == Err::<ImageModel, Seq<char>>(e@),
        },
{
    let width: u32 = match cmd.width {
        Some(width) => width,
        None => {
            return Err(text::joined("missing width for raw ", kind));
        },
    };
    let height: u32 = match cmd.height {
        Some(height) => height,
        None => {
            return Err(text::joined("missing height for raw ", kind));
        },
    };
    assert(width * height <= 0xffff_ffff * 0xffff_ffff) by (nonlinear_arith)
        requires
            width <= 0xffff_ffff,
            height <= 0xffff_ffff,
    ;
    let pixels: u128 = width as u128 * height as u128;
    assert(pixels * samples <= 0xffff_ffff * 0xffff_ffff * 255) by (nonlinear_arith)
        requires
            pixels <= 0xffff_ffff * 0xffff_ffff,
            samples <= 255,
    ;
    let expected: u128 = pixels * samples as u128;
    if got as u128 != expected {
        Err(mismatch_text(kind, expected, got))
    } else {
        Ok((width, height))
    }
}

/// Turns the bytes of a transmission into an image.
pub fn decode_bytes(id: u32, cmd: &KittyCommand, bytes: Vec<u8>) -> (r: Result<ImageData, String>)
    ensures
        image_result(r) == image_of(id, *cmd, bytes@),
{
    match cmd.format {
        KittyFormat::Png => decode_png(id, &bytes),
        KittyFormat::Rgba32 => match check_raw(cmd, 4, "RGBA", bytes.len()) {
            Ok((width, height)) => Ok(ImageData { id, width, height, rgba: bytes }),
            Err(text) => Err(text),
        },
        KittyFormat::Rgb24 => match check_raw(cmd, 3, "RGB", bytes.len()) {
            Ok((width, height)) => Ok(
                ImageData { id, width, height, rgba: add_opacity(&bytes) },
            ),
            Err(text) => Err(text),
        },
    }
}

/// The event for a transmission that gave an image or failed.
pub fn transmission(cmd: KittyCommand, id: u32, image: Result<ImageData, String>) -> (r: Option<
    KittyEvent,
>)
    ensures
        event_model(r) == transmission_of(cmd, id, image_result(image)),
{
    match image {
        Ok(image) => {
            let mut command: KittyCommand = cmd;
            command.image_id = Some(id);
            Some(KittyEvent::Transmit { command, image })
        },
        Err(text) => if cmd.quiet < 2 {
            Some(KittyEvent::Response(kitty_response(id, cmd.placement_id, text.as_str())))
        } else {
            None
        },
    }
}

/// The event that takes the place of a `KittyEvent::Load` once the named bytes were read, or
/// could not be.
pub fn complete_load(command: KittyCommand, image_id: u32, read: Result<Vec<u8>, String>) -> (r:
    Option<KittyEvent>)
    ensures
        event_model(r) == load_outcome(command, image_id, bytes_result(read)),
{
    match read {
        Ok(bytes) => transmission(command, image_id, decode_bytes(image_id, &command, bytes)),
        Err(text) => transmission(command, image_id, Err(text)),
    }
}

/// The event for the decoded payload of a transmission.
pub fn decoded_payload(cmd: KittyCommand, id: u32, decoded: Result<Vec<u8>, String>) -> (r: Option<
    KittyEvent,
>)
    ensures
        event_model(r) == decoded_outcome(cmd, id, bytes_result(decoded)),
{
    match decoded {
        Ok(bytes) => if cmd.medium == KittyMedium::Direct {
            complete_load(cmd, id, Ok(bytes))
        } else {
            match text::decode_text(bytes.as_slice()) {
                Ok(name) => Some(
                    KittyEvent::Load { command: cmd, image_id: id, name: name.to_owned() },
                ),
                Err(text) => transmission(cmd, id, Err(text)),
            }
        },
        Err(text) => complete_load(cmd, id, Err(text)),
    }
}

/// The event for the payload of a transmission, still in base64.
pub fn decode_image_data(id: u32, cmd: KittyCommand, raw_payload: &[u8]) -> (r: Option<KittyEvent>)
    ensures
        event_model(r) == decoded_outcome(cmd, id, base64_decoded(raw_payload@)),
{
    decoded_payload(cmd, id, decode_base64(raw_payload))
}

/// A failed transmission is answered with its error message, for the image that was sent, unless
/// the command asks for silence.
pub proof fn law_failures_are_answered(cmd: KittyCommand, id: u32, text: Seq<char>)
    ensures
        transmission_of(cmd, id, Err(text)) is Some <==> cmd.quiet < 2,
        cmd.quiet < 2 ==> transmission_of(cmd, id, Err(text)) == Some(
            EventModel::Response(response_bytes(id, cmd.placement_id, text)),
        ),
{
}

/// Every accepted raw image has four bytes per pixel.
pub proof fn law_raw_images_are_complete(id: u32, cmd: KittyCommand, bytes: Seq<u8>)
    requires
        cmd.format != KittyFormat::Png,
    ensures
        match image_of(id, cmd, bytes) {
            Ok(image) => image.id == id && image.rgba.len() == image.width as nat
                * image.height as nat * 4,
            Err(_) => true,
        },
{
    if let Ok(image) = image_of(id, cmd, bytes) {
        let pixels = image.width as nat * image.height as nat;
        if cmd.format == KittyFormat::Rgb24 {
            assert(pixels * 3 / 3 == pixels);
        }
    }
}

} // verus!
