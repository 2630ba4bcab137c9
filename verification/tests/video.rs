use wandb_ft::video::{check_frame_buffer, effective_fps, encode_failure, ffmpeg_args, spawn_error, VideoError};

#[test]
fn frame_buffer_length_is_checked() {
    assert!(check_frame_buffer(2 * 3 * 3 * 4, 2, 3, 4).is_ok());
    match check_frame_buffer(10, 2, 3, 4) {
        Err(VideoError::Other(m)) => assert_eq!(
            m,
            "frame buffer is 10 bytes, expected 72 (4 frames of 2x3 RGB)"
        ),
        _ => panic!("wrong length accepted"),
    }
    assert!(check_frame_buffer(0, 640, 480, 0).is_ok());
}

#[test]
fn fps_is_at_least_one() {
    assert_eq!(effective_fps(0), 1);
    assert_eq!(effective_fps(30), 30);
}

#[test]
fn ffmpeg_arguments() {
    let args = ffmpeg_args(640, 480, 0);
    assert_eq!(
        args,
        vec![
            "-y", "-hide_banner", "-loglevel", "error", "-f", "rawvideo", "-pixel_format", "rgb24",
            "-video_size", "640x480", "-framerate", "1", "-i", "pipe:0", "-an", "-c:v", "libx264",
            "-pix_fmt", "yuv420p", "-movflags", "+faststart",
        ]
    );
    assert_eq!(ffmpeg_args(1, 2, 24)[11], "24");
}

#[test]
fn video_error_messages() {
    assert_eq!(
        spawn_error(true, "ignored".into()).message(),
        "the `ffmpeg` command-line tool was not found on PATH; it is required to encode a Video from a numpy array. Install ffmpeg or pass raw encoded video bytes instead."
    );
    assert_eq!(spawn_error(false, "denied".into()).message(), "io error: denied");
    assert_eq!(
        encode_failure("\n  bad input  \n").message(),
        "ffmpeg failed to encode the video:\nbad input"
    );
    assert_eq!(VideoError::Other("x".into()).message(), "x");
}
