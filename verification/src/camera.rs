//! Camera streaming: the commands that the server sends over the camera
//! WebSocket, the capture loop's decisions, and the frames sent back as JPEG
//! data URLs.
use vstd::prelude::*;
use crate::numbers::{IntErrorKind, decimal, parse_int_spec, parse_u32, u64_to_string};
use crate::container::int_error_text;
use crate::text::{chars_of, concat2, owned, str_eq};
use base64::Engine;

verus! {

/// Width and height of the frames to capture.
#[derive(Debug, Clone, Copy, PartialEq, Eq, Structural)]
pub struct CameraDimensions {
    pub width: u32,
    pub height: u32,
}

/// The frame size used when none is given.
pub fn frame_size(dimensions: Option<CameraDimensions>) -> (r: (u32, u32))
    ensures
        r == match dimensions {
            Some(d) => (d.width, d.height),
            None => (1280u32, 720u32),
        },
{
    match dimensions {
        Some(d) => (d.width, d.height),
        None => (1280, 720),
    }
}

/// Commands to the capture loop.
#[derive(Debug, Clone, Copy, PartialEq, Eq, Structural)]
pub enum CaptureCommand {
    /// Read images from the camera.
    Start,
    /// Stop reading images.
    Stop,
    /// End the capture loop.
    Quit,
}

/// The command that a text message of the server names: `START` or `STOP`.
pub fn capture_command(text: &str) -> (r: Option<CaptureCommand>)
    ensures
        r == if text@ == "START"@ {
            Some(CaptureCommand::Start)
        } else if text@ == "STOP"@ {
            Some(CaptureCommand::Stop)
        } else {
            None::<CaptureCommand>
        },
{
    if str_eq(text, "START") {
        Some(CaptureCommand::Start)
    } else if str_eq(text, "STOP") {
        Some(CaptureCommand::Stop)
    } else {
        None
    }
}

/// What the capture loop does with the camera on a command.
#[derive(Debug, Clone, Copy, PartialEq, Eq, Structural)]
pub enum CaptureAction {
    OpenStream,
    StopStream,
    Quit,
    Nothing,
}

/// The capture loop's decision on a command, given whether it streams:
/// a stream is opened only when none is open, stopped only when one is.
pub open spec fn capture_spec(streaming: bool, cmd: CaptureCommand) -> CaptureAction {
    match cmd {
        CaptureCommand::Start => if streaming {
            CaptureAction::Nothing
        } else {
            CaptureAction::OpenStream
        },
        CaptureCommand::Stop => if streaming {
            CaptureAction::StopStream
        } else {
            CaptureAction::Nothing
        },
        CaptureCommand::Quit => CaptureAction::Quit,
    }
}

pub fn capture_step(streaming: bool, cmd: CaptureCommand) -> (a: CaptureAction)
    ensures
        a == capture_spec(streaming, cmd),
{
    match cmd {
        CaptureCommand::Start => if streaming {
            CaptureAction::Nothing
        } else {
            CaptureAction::OpenStream
        },
        CaptureCommand::Stop => if streaming {
            CaptureAction::StopStream
        } else {
            CaptureAction::Nothing
        },
        CaptureCommand::Quit => CaptureAction::Quit,
    }
}

/// Whether the loop streams after carrying out an action (that succeeded).
pub open spec fn streaming_after(streaming: bool, a: CaptureAction) -> bool {
    match a {
        CaptureAction::OpenStream => true,
        CaptureAction::StopStream => false,
        _ => streaming,
    }
}

/// Starting twice opens one stream; stopping after starting closes it.
pub proof fn law_capture_start_stop(streaming: bool)
    ensures
        capture_spec(
            streaming_after(streaming, capture_spec(streaming, CaptureCommand::Start)),
            CaptureCommand::Start,
        ) == CaptureAction::Nothing,
        streaming_after(
            streaming_after(streaming, capture_spec(streaming, CaptureCommand::Start)),
            capture_spec(
                streaming_after(streaming, capture_spec(streaming, CaptureCommand::Start)),
                CaptureCommand::Stop,
            ),
        ) == false,
{
}

/// The index of the camera that a path names, as `str::parse::<u32>` reads
/// it.
pub open spec fn camera_index_spec(path: Seq<char>) -> Result<u32, Seq<char>> {
    match parse_int_spec(path, false, 0, u32::MAX as int) {
        Ok(n) => Ok(n as u32),
        Err(e) => Err("error parsing camera index: "@ + int_error_text(e)),
    }
}

pub fn camera_index(path: &str) -> (r: Result<u32, String>)
    ensures
        match r {
            Ok(n) => camera_index_spec(path@) == Ok::<u32, Seq<char>>(n),
            Err(e) => camera_index_spec(path@) == Err::<u32, Seq<char>>(e@),
        },
{
    let v = chars_of(path);
    match parse_u32(v.as_slice()) {
        Ok(n) => Ok(n),
        Err(e) => Err(concat2("error parsing camera index: ", e.description())),
    }
}

/// Whether a camera index names one of the `n_devices` cameras found; the
/// error names the index.  At least one camera must have been found.
pub fn check_camera_index(index: u32, n_devices: usize) -> (r: Result<(), String>)
    requires
        n_devices > 0,
    ensures
        index < n_devices ==> r is Ok,
        index >= n_devices ==> (r matches Err(e) && e@ == "camera index is out of range: "@
            + decimal(index as nat)),
{
    if index as usize > n_devices - 1 {
        let d = u64_to_string(index as u64);
        return Err(concat2("camera index is out of range: ", d.as_str()));
    }
    Ok(())
}

/// Whether an RGB buffer of `len` bytes holds a `width` by `height` image
/// (`ImageBuffer::from_vec` refuses a smaller one, or one whose size does
/// not fit in memory).
pub open spec fn frame_fits(width: u32, height: u32, len: nat) -> bool {
    3 * width * height <= len && 3 * width * height <= usize::MAX
}

/// What `image::write_buffer_with_format` writes for an RGB image of
/// `width` by `height` pixels as JPEG of quality 75 (`ImageFormat::Jpeg`),
/// or the text of its error.
pub uninterp spec fn jpeg_of(width: u32, height: u32, rgb: Seq<u8>) -> Result<Seq<u8>, Seq<char>>;

/// Wraps `image::write_buffer_with_format` with `ColorType::Rgb8` and
/// `ImageFormat::Jpeg`, writing into memory.  Claimed: the result is a
/// function of the size and the pixels, named `jpeg_of`.  The buffer must
/// hold exactly the image's bytes (the encoder asserts it).
#[verifier::external_body]
fn encode_jpeg(width: u32, height: u32, rgb: &[u8]) -> (r: Result<Vec<u8>, String>)
    requires
        rgb@.len() == 3 * width * height,
    ensures
        match jpeg_of(width, height, rgb@) {
            Ok(j) => r matches Ok(v) && v@ == j,
            Err(e) => r matches Err(m) && m@ == e,
        },
{
    let mut out: Vec<u8> = Vec::new();
    let mut cursor = std::io::Cursor::new(&mut out);
    match image::write_buffer_with_format(
        &mut cursor,
        rgb,
        width,
        height,
        image::ColorType::Rgb8,
        image::ImageFormat::Jpeg,
    ) {
        Ok(()) => Ok(out),
        Err(e) => Err(e.to_string()),
    }
}

/// The character of a six-bit value in the standard base64 alphabet
/// (RFC 4648): `A`-`Z`, `a`-`z`, `0`-`9`, `+`, `/`.
pub open spec fn b64_char(v: int) -> char {
    if v < 26 {
        (65 + v) as char
    } else if v < 52 {
        (97 + v - 26) as char
    } else if v < 62 {
        (48 + v - 52) as char
    } else if v == 62 {
        '+'
    } else {
        '/'
    }
}

/// Standard base64 with padding (RFC 4648, section 4): every three bytes
/// become four characters; a last group of one or two bytes is padded with
/// `=` to four characters.
pub open spec fn base64_standard(data: Seq<u8>) -> Seq<char>
    decreases data.len(),
{
    if data.len() == 0 {
        seq![]
    } else if data.len() == 1 {
        let a = data[0] as int;
        seq![b64_char(a / 4), b64_char((a % 4) * 16), '=', '=']
    } else if data.len() == 2 {
        let a = data[0] as int;
        let b = data[1] as int;
        seq![b64_char(a / 4), b64_char((a % 4) * 16 + b / 16), b64_char((b % 16) * 4), '=']
    } else {
        let a = data[0] as int;
        let b = data[1] as int;
        let c = data[2] as int;
        seq![b64_char(a / 4), b64_char((a % 4) * 16 + b / 16), b64_char((b % 16) * 4 + c / 64), b64_char(c % 64)]
            + base64_standard(data.subrange(3, data.len() as int))
    }
}

/// Wraps `base64::engine::general_purpose::STANDARD.encode`.  Claimed: the
/// text is the standard base64 encoding of the bytes, with padding.
#[verifier::external_body]
fn encode_base64(data: &[u8]) -> (s: String)
    ensures
        s@ == base64_standard(data@),
{
    base64::engine::general_purpose::STANDARD.encode(data)
}

/// The message that carries a frame: a JPEG data URL.
pub open spec fn frame_message_spec(width: u32, height: u32, rgb: Seq<u8>) -> Option<
    Result<Seq<char>, Seq<char>>,
> {
    if !frame_fits(width, height, rgb.len()) {
        None
    } else {
        match jpeg_of(width, height, rgb.subrange(0, 3 * width * height)) {
            Ok(j) => Some(Ok("data:image/jpeg;base64,"@ + base64_standard(j))),
            Err(e) => Some(Err(e)),
        }
    }
}

/// The message that carries a captured frame; nothing when the frame's
/// bytes do not hold an image of the size asked for, and the encoder's error
/// when it fails.
pub fn frame_message(width: u32, height: u32, rgb: &[u8]) -> (r: Option<Result<String, String>>)
    ensures
        match frame_message_spec(width, height, rgb@) {
            None => r is None,
            Some(Ok(m)) => r matches Some(Ok(s)) && s@ == m,
            Some(Err(e)) => r matches Some(Err(s)) && s@ == e,
        },
{
    let len = rgb.len();
    assert(rgb@.len() == len);
    let w = width as u64;
    let h = height as u64;
    assert(w * h <= 0xffff_ffffu64 * 0xffff_ffffu64) by (nonlinear_arith)
        requires
            w <= 0xffff_ffffu64,
            h <= 0xffff_ffffu64,
    ;
    let wh = w * h;
    assert(3 * width * height == 3 * (width * height)) by (nonlinear_arith);
    assert(wh == width * height);
    if wh > 0x5555_5555_5555_5555u64 {
        assert(rgb@.len() <= usize::MAX);
        assert(!frame_fits(width, height, rgb@.len()));
        return None;
    }
    let n = 3 * wh;
    if n > len as u64 {
        return None;
    }
    let n = n as usize;
    let pixels = vstd::slice::slice_subrange(rgb, 0, n);
    match encode_jpeg(width, height, pixels) {
        Ok(jpg) => {
            let b = encode_base64(jpg.as_slice());
            Some(Ok(concat2("data:image/jpeg;base64,", b.as_str())))
        },
        Err(e) => Some(Err(e)),
    }
}

} // verus!
