//! Encoding raw RGB frames to an H.264 MP4 with the `ffmpeg` command-line
//! tool: the checks made before it runs, the arguments it is given, and the
//! errors it can end in.

use vstd::prelude::*;

use crate::text::{chars_of, decimal, push_decimal, string_of, trim_range, trimmed};

verus! {

broadcast use vstd::string::group_string_axioms;

/// Why a video could not be encoded.
pub enum VideoError {
    /// The `ffmpeg` tool is not on `PATH`.
    FfmpegNotFound,
    /// `ffmpeg` failed; what it wrote to its error stream.
    EncodeFailed(String),
    /// An I/O operation failed; the text of the failure.
    Io(String),
    /// Any other failure.
    Other(String),
}

impl VideoError {
    /// The text that describes the error.
    pub open spec fn spec_message(&self) -> Seq<char> {
        match self {
            VideoError::FfmpegNotFound => "the `ffmpeg` command-line tool was not found on PATH; it is required to encode a Video from a numpy array. Install ffmpeg or pass raw encoded video bytes instead."@,
            VideoError::EncodeFailed(s) => "ffmpeg failed to encode the video:\n"@ + s@,
            VideoError::Io(s) => "io error: "@ + s@,
            VideoError::Other(s) => s@,
        }
    }

    /// The text that describes the error (what `Display` prints).
    pub fn message(&self) -> (r: String)
        ensures
            r@ == self.spec_message(),
    {
        let mut m = String::new();
        match self {
            VideoError::FfmpegNotFound => {
                m.append(
                    "the `ffmpeg` command-line tool was not found on PATH; it is required to encode a Video from a numpy array. Install ffmpeg or pass raw encoded video bytes instead.",
                );
            },
            VideoError::EncodeFailed(s) => {
                m.append("ffmpeg failed to encode the video:\n");
                m.append(s.as_str());
            },
            VideoError::Io(s) => {
                m.append("io error: ");
                m.append(s.as_str());
            },
            VideoError::Other(s) => {
                m.append(s.as_str());
            },
        }
        m
    }
}

/// The number of bytes that `frames` RGB frames of the given size take.
pub open spec fn frame_buffer_len(width: u32, height: u32, frames: usize) -> int {
    (width as int) * (height as int) * 3 * (frames as int)
}

/// The message for a frame buffer of the wrong length.
pub open spec fn frame_buffer_message(len: usize, width: u32, height: u32, frames: usize) -> Seq<
    char,
> {
    "frame buffer is "@ + decimal(len as nat) + " bytes, expected "@ + decimal(
        frame_buffer_len(width, height, frames) as nat,
    ) + " ("@ + decimal(frames as nat) + " frames of "@ + decimal(width as nat) + "x"@ + decimal(
        height as nat,
    ) + " RGB)"@
}

/// Checks that a buffer of `len` bytes holds exactly `frames` RGB frames of
/// `width` by `height` pixels.
pub fn check_frame_buffer(len: usize, width: u32, height: u32, frames: usize) -> (r: Result<
    (),
    VideoError,
>)
    requires
        frame_buffer_len(width, height, frames) <= usize::MAX,
    ensures
        len == frame_buffer_len(width, height, frames) ==> r is Ok,
        len != frame_buffer_len(width, height, frames) ==> (r matches Err(VideoError::Other(m))
            && m@ == frame_buffer_message(len, width, height, frames)),
{
    assert((width as int) * (height as int) <= 0xffff_ffff_ffff_ffff) by (nonlinear_arith)
        requires
            width <= 0xffff_ffffu32,
            height <= 0xffff_ffffu32,
    ;
    let frame_bytes: u128 = (width as u128) * (height as u128) * 3;
    assert(frame_bytes * (frames as int) == frame_buffer_len(width, height, frames)) by (nonlinear_arith)
        requires
            frame_bytes == (width as int) * (height as int) * 3,
    ;
    assert(frame_bytes * (frames as int) <= usize::MAX);
    let expected: u128 = frame_bytes * (frames as u128);
    if (len as u128) != expected {
        let mut m = String::new();
        m.append("frame buffer is ");
        push_decimal(&mut m, len as u128);
        m.append(" bytes, expected ");
        push_decimal(&mut m, expected);
        m.append(" (");
        push_decimal(&mut m, frames as u128);
        m.append(" frames of ");
        push_decimal(&mut m, width as u128);
        m.append("x");
        push_decimal(&mut m, height as u128);
        m.append(" RGB)");
        return Err(VideoError::Other(m));
    }
    Ok(())
}

/// The frame rate used: at least one frame per second.
pub fn effective_fps(fps: u32) -> (r: u32)
    ensures
        r == if fps == 0 {
            1
        } else {
            fps
        },
{
    if fps == 0 {
        1
    } else {
        fps
    }
}

/// The arguments given to `ffmpeg` (before the output path) to read raw RGB
/// frames of the given size from its standard input at `fps` frames per
/// second (at least one) and write an H.264 MP4 without audio.
pub open spec fn ffmpeg_arg_list(width: u32, height: u32, fps: u32) -> Seq<Seq<char>> {
    let rate: nat = if fps == 0 {
        1
    } else {
        fps as nat
    };
    seq![
        "-y"@,
        "-hide_banner"@,
        "-loglevel"@,
        "error"@,
        "-f"@,
        "rawvideo"@,
        "-pixel_format"@,
        "rgb24"@,
        "-video_size"@,
        decimal(width as nat) + "x"@ + decimal(height as nat),
        "-framerate"@,
        decimal(rate),
        "-i"@,
        "pipe:0"@,
        "-an"@,
        "-c:v"@,
        "libx264"@,
        "-pix_fmt"@,
        "yuv420p"@,
        "-movflags"@,
        "+faststart"@,
    ]
}

/// `ffmpeg` reads the frames at the requested rate, one frame per second
/// when none is requested, and at the requested size: the argument after
/// `-framerate` is the decimal rendering of the rate, so different rates
/// give different arguments, and the one after `-video_size` is
/// `{width}x{height}`.
pub proof fn law_ffmpeg_rate_and_size(width: u32, height: u32, fps: u32, other_fps: u32)
    ensures
        ffmpeg_arg_list(width, height, fps).len() == 21,
        ffmpeg_arg_list(width, height, fps)[10] == "-framerate"@,
        fps > 0 ==> ffmpeg_arg_list(width, height, fps)[11] == decimal(fps as nat),
        fps == 0 ==> ffmpeg_arg_list(width, height, fps)[11] == decimal(1),
        fps > 0 && other_fps > 0 && fps != other_fps ==> ffmpeg_arg_list(width, height, fps)[11]
            != ffmpeg_arg_list(width, height, other_fps)[11],
        ffmpeg_arg_list(width, height, fps)[8] == "-video_size"@,
        ffmpeg_arg_list(width, height, fps)[9] == decimal(width as nat) + "x"@ + decimal(
            height as nat,
        ),
{
    crate::text::lemma_decimal_injective(fps as nat, other_fps as nat);
}

/// The arguments given to `ffmpeg`, before the output path.
pub fn ffmpeg_args(width: u32, height: u32, fps: u32) -> (r: Vec<String>)
    ensures
        r@.map_values(|s: String| s@) == ffmpeg_arg_list(width, height, fps),
{
    let fps = effective_fps(fps);
    let mut size = String::new();
    push_decimal(&mut size, width as u128);
    size.append("x");
    push_decimal(&mut size, height as u128);
    let mut rate = String::new();
    push_decimal(&mut rate, fps as u128);
    let mut r: Vec<String> = Vec::new();
    r.push(string_of("-y"));
    r.push(string_of("-hide_banner"));
    r.push(string_of("-loglevel"));
    r.push(string_of("error"));
    r.push(string_of("-f"));
    r.push(string_of("rawvideo"));
    r.push(string_of("-pixel_format"));
    r.push(string_of("rgb24"));
    r.push(string_of("-video_size"));
    r.push(size);
    r.push(string_of("-framerate"));
    r.push(rate);
    r.push(string_of("-i"));
    r.push(string_of("pipe:0"));
    r.push(string_of("-an"));
    r.push(string_of("-c:v"));
    r.push(string_of("libx264"));
    r.push(string_of("-pix_fmt"));
    r.push(string_of("yuv420p"));
    r.push(string_of("-movflags"));
    r.push(string_of("+faststart"));
    assert(r@.map_values(|s: String| s@) =~= ffmpeg_arg_list(width, height, fps));
    r
}

/// The error for a failure to start `ffmpeg`: whether the program was not
/// found, and the text of the failure.
pub fn spawn_error(not_found: bool, message: String) -> (r: VideoError)
    ensures
        not_found ==> r is FfmpegNotFound,
        !not_found ==> (r matches VideoError::Io(m) && m@ == message@),
{
    if not_found {
        VideoError::FfmpegNotFound
    } else {
        VideoError::Io(message)
    }
}

/// The error for an `ffmpeg` run that failed, from what it wrote to its
/// error stream: that text without surrounding white space.
pub fn encode_failure(stderr: &str) -> (r: VideoError)
    ensures
        r matches VideoError::EncodeFailed(m) && m@ == trimmed(stderr@),
{
    let v = chars_of(stderr);
    let t = trim_range(&v, 0, v.len());
    assert(v@.subrange(0, v@.len() as int) =~= stderr@);
    VideoError::EncodeFailed(t)
}

} // verus!
