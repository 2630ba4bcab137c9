use wandb_ft::data_value::DataValue;
use wandb_ft::error::InputErrorKind;
use wandb_ft::media::{
    image_from_bytes, image_from_pixels, image_shape, inject_head, is_plotly_figure,
    plotly_from_json, sanitize_key, video_from_bytes, video_from_mp4, video_shape, Html,
};

const SNIPPET: &str = "<base target=\"_blank\"><link rel=\"stylesheet\" type=\"text/css\" href=\"https://app.wandb.ai/normalize.css\" />";

fn dict_get<'a>(v: &'a DataValue, k: &str) -> &'a DataValue {
    match v {
        DataValue::Dict(m) => m.get(k).expect("missing key"),
        _ => panic!("expected a dict"),
    }
}

fn as_str(v: &DataValue) -> &str {
    match v {
        DataValue::String(s) => s.as_str(),
        _ => panic!("expected a string"),
    }
}

fn as_int(v: &DataValue) -> u64 {
    match v {
        DataValue::Int(i) => *i,
        _ => panic!("expected an int"),
    }
}

#[test]
fn keys_are_sanitized_for_file_names() {
    assert_eq!(sanitize_key("train/loss acc"), "train_loss_acc");
    assert_eq!(sanitize_key("a-b_c.d09"), "a-b_c.d09");
    assert_eq!(sanitize_key("é✓"), "__");
    assert_eq!(sanitize_key(&sanitize_key("x/y z")), sanitize_key("x/y z"));
    assert_eq!(sanitize_key(""), "");
}

#[test]
fn stylesheet_goes_after_the_first_head_tag() {
    assert_eq!(
        inject_head("<html><HEAD><title>t</title></head>"),
        format!("<html><HEAD>{SNIPPET}<title>t</title></head>")
    );
    assert_eq!(
        inject_head("<head>a<head>b"),
        format!("<head>{SNIPPET}a<head>b")
    );
    assert_eq!(inject_head("<p>hi</p>"), format!("<head>{SNIPPET}</head><p>hi</p>"));
    assert_eq!(inject_head(""), format!("<head>{SNIPPET}</head>"));
    assert_eq!(inject_head("<hea"), format!("<head>{SNIPPET}</head><hea"));
}

#[test]
fn html_media_file() {
    let h = Html::new("<p>x</p>");
    let expected = format!("<head>{SNIPPET}</head><p>x</p>");
    assert_eq!(h.file.bytes(), &expected.into_bytes());
    let (path, record) = h.file.record("page", 3);
    let hex = wandb_ft::digest::sha256_hex(h.file.bytes());
    assert_eq!(path, format!("media/html/page_3_{}.html", &hex[..20]));
    assert_eq!(as_str(dict_get(&record, "_type")), "html-file");
    assert_eq!(as_str(dict_get(&record, "path")), path);
    assert_eq!(as_str(dict_get(&record, "sha256")), hex);
    assert_eq!(as_int(dict_get(&record, "size")), h.file.bytes().len() as u64);
}

#[test]
fn record_path_uses_the_sha256_prefix() {
    let v = video_from_bytes(b"abc".to_vec());
    let (path, record) = v.record("clips/a b", 7);
    assert_eq!(path, "media/videos/clips_a_b_7_ba7816bf8f01cfea4141.mp4");
    assert_eq!(as_int(dict_get(&record, "size")), 3);
    assert_eq!(as_str(dict_get(&record, "_type")), "video-file");
}

#[test]
fn image_shapes() {
    assert!(matches!(image_shape(&[4, 5]), Ok((4, 5, 1))));
    assert!(matches!(image_shape(&[4, 5, 3]), Ok((4, 5, 3))));
    assert!(matches!(image_shape(&[4, 5, 4]), Ok((4, 5, 4))));
    match image_shape(&[4]) {
        Err(e) => {
            assert_eq!(e.kind, InputErrorKind::Value);
            assert_eq!(e.message, "Image numpy array must be 2D (H, W) or 3D (H, W, C)");
        }
        Ok(_) => panic!("1-D shape accepted"),
    }
    match image_shape(&[4, 5, 2]) {
        Err(e) => assert_eq!(
            e.message,
            "Image numpy array channels must be 1 (gray), 3 (RGB), or 4 (RGBA)"
        ),
        Ok(_) => panic!("2 channels accepted"),
    }
}

#[test]
fn pixels_become_a_png_that_decodes_back() {
    let pixels: Vec<u8> = (0..2 * 3 * 3).map(|i| i as u8).collect();
    let f = match image_from_pixels(2, 3, 3, pixels) {
        Ok(f) => f,
        Err(e) => panic!("{}", e.message),
    };
    assert_eq!(&f.bytes()[..8], &[0x89, b'P', b'N', b'G', 0x0d, 0x0a, 0x1a, 0x0a]);
    let (path, record) = f.record("img", 0);
    assert!(path.starts_with("media/images/img_0_"));
    assert!(path.ends_with(".png"));
    assert_eq!(as_str(dict_get(&record, "format")), "png");
    assert_eq!(as_int(dict_get(&record, "width")), 3);
    assert_eq!(as_int(dict_get(&record, "height")), 2);
    let again = match image_from_bytes(f.bytes()) {
        Ok(g) => g,
        Err(e) => panic!("{}", e.message),
    };
    let (p2, r2) = again.record("img", 0);
    assert_eq!(p2, path);
    assert_eq!(as_int(dict_get(&r2, "width")), 3);
    assert_eq!(as_int(dict_get(&r2, "height")), 2);
    assert_eq!(as_str(dict_get(&r2, "format")), "png");
}

#[test]
fn grayscale_and_rgba_pixels() {
    assert!(image_from_pixels(2, 2, 1, vec![0, 64, 128, 255]).is_ok());
    assert!(image_from_pixels(1, 1, 4, vec![1, 2, 3, 4]).is_ok());
}

#[test]
fn pixel_buffer_must_match_its_shape() {
    match image_from_pixels(2, 2, 3, vec![0; 11]) {
        Err(e) => {
            assert_eq!(e.kind, InputErrorKind::Value);
            assert_eq!(e.message, "Image array data did not match its shape");
        }
        Ok(_) => panic!("short buffer accepted"),
    }
}

#[test]
fn undetectable_image_bytes_are_refused() {
    match image_from_bytes(b"not an image") {
        Err(e) => {
            assert_eq!(e.kind, InputErrorKind::Value);
            assert!(e.message.starts_with("could not detect image format: "));
        }
        Ok(_) => panic!("garbage accepted"),
    }
    let mut png_header = vec![0x89, b'P', b'N', b'G', 0x0d, 0x0a, 0x1a, 0x0a];
    png_header.extend_from_slice(b"truncated");
    match image_from_bytes(&png_header) {
        Err(e) => assert!(e.message.starts_with("could not decode image: ")),
        Ok(_) => panic!("truncated png accepted"),
    }
}

#[test]
fn video_shapes_and_files() {
    assert!(matches!(video_shape(&[5, 4, 6, 3]), Ok((5, 4, 6))));
    match video_shape(&[5, 4, 6, 4]) {
        Err(e) => assert_eq!(
            e.message,
            "Video numpy array must have shape (frames, height, width, 3)"
        ),
        Ok(_) => panic!("4 channels accepted"),
    }
    assert!(video_shape(&[4, 6, 3]).is_err());
    let f = video_from_mp4(vec![1, 2, 3], 6, 4);
    let (_, record) = f.record("v", 1);
    assert_eq!(as_int(dict_get(&record, "width")), 6);
    assert_eq!(as_int(dict_get(&record, "height")), 4);
}

#[test]
fn plotly_figures() {
    assert!(is_plotly_figure("plotly.graph_objs._figure", true));
    assert!(!is_plotly_figure("plotly.graph_objs._figure", false));
    assert!(!is_plotly_figure("matplotlib.figure", true));
    assert!(!is_plotly_figure("plot", true));
    let f = plotly_from_json("{\"data\":[]}".to_string());
    assert_eq!(f.bytes(), &b"{\"data\":[]}".to_vec());
    let (path, record) = f.record("fig", 2);
    assert!(path.starts_with("media/plotly/fig_2_"));
    assert!(path.ends_with(".plotly.json"));
    assert_eq!(as_str(dict_get(&record, "_type")), "plotly-file");
}

#[test]
fn jpeg_bytes_keep_their_format() {
    let img = image::RgbImage::from_raw(4, 2, vec![200u8; 4 * 2 * 3]).unwrap();
    let mut out = std::io::Cursor::new(Vec::new());
    image::DynamicImage::ImageRgb8(img)
        .write_to(&mut out, image::ImageFormat::Jpeg)
        .unwrap();
    let jpeg = out.into_inner();
    let f = match image_from_bytes(&jpeg) {
        Ok(f) => f,
        Err(e) => panic!("{}", e.message),
    };
    assert_eq!(f.bytes(), &jpeg);
    let (path, record) = f.record("photo", 1);
    assert!(path.ends_with(".jpg"));
    assert_eq!(as_str(dict_get(&record, "format")), "jpeg");
    assert_eq!(as_int(dict_get(&record, "width")), 4);
    assert_eq!(as_int(dict_get(&record, "height")), 2);
}
