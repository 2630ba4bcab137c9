//! wandb media logging: images, HTML, videos and plotly figures.
//!
//! Each media value becomes a [`MediaFile`]: the encoded file bytes plus the
//! metadata wandb records. When it is logged, the file is uploaded to the run
//! and a `{"_type": ...-file, "path", "sha256", "size", ...}` record takes its
//! place in the logged row.

use vstd::prelude::*;

use crate::data_value::{DataMap, DataValue, DataValueView};
use crate::digest::{sha256_digest, sha256_hex};
use crate::error::{fails_with, InputError, InputErrorKind};
use crate::text::{chars_of, decimal, hex_lower, push_char, push_decimal, push_range, string_of};

verus! {

broadcast use vstd::string::group_string_axioms;

/// An encoded media file plus the extra wandb metadata for its `_type`
/// record.
pub struct MediaFile {
    bytes: Vec<u8>,
    subdir: String,
    ext: String,
    log_type: String,
    extra: Vec<(String, DataValue)>,
}

/// The content of a [`MediaFile`].
pub struct MediaFileView {
    pub bytes: Seq<u8>,
    pub subdir: Seq<char>,
    pub ext: Seq<char>,
    pub log_type: Seq<char>,
    pub extra: Seq<(Seq<char>, DataValueView)>,
}

/// The views of a list of named values.
pub open spec fn pairs_view(s: Seq<(String, DataValue)>) -> Seq<(Seq<char>, DataValueView)> {
    s.map_values(|p: (String, DataValue)| (p.0@, p.1@))
}

impl View for MediaFile {
    type V = MediaFileView;

    closed spec fn view(&self) -> MediaFileView {
        MediaFileView {
            bytes: self.bytes@,
            subdir: self.subdir@,
            ext: self.ext@,
            log_type: self.log_type@,
            extra: pairs_view(self.extra@),
        }
    }
}

/// `m` with the pairs of `s` stored in turn, later ones replacing earlier.
pub open spec fn with_pairs(m: Map<Seq<char>, DataValueView>, s: Seq<(Seq<char>, DataValueView)>) -> Map<
    Seq<char>,
    DataValueView,
>
    decreases s.len(),
{
    if s.len() == 0 {
        m
    } else {
        with_pairs(m, s.drop_last()).insert(s.last().0, s.last().1)
    }
}

/// Storing pairs in turn leaves a key that none of them names as it was,
/// and gives a key that some of them name the value of the last such pair.
pub proof fn lemma_with_pairs(
    m: Map<Seq<char>, DataValueView>,
    s: Seq<(Seq<char>, DataValueView)>,
    k: Seq<char>,
)
    ensures
        (forall|i: int| 0 <= i < s.len() ==> s[i].0 != k) ==> (with_pairs(m, s).contains_key(k)
            == m.contains_key(k) && (m.contains_key(k) ==> with_pairs(m, s)[k] == m[k])),
        forall|i: int|
            0 <= i < s.len() && s[i].0 == k && (forall|j: int| i < j < s.len() ==> s[j].0 != k)
                ==> with_pairs(m, s).contains_key(k) && with_pairs(m, s)[k] == s[i].1,
    decreases s.len(),
{
    if s.len() > 0 {
        let t = s.drop_last();
        lemma_with_pairs(m, t, k);
        assert forall|i: int|
            0 <= i < s.len() && s[i].0 == k && (forall|j: int| i < j < s.len() ==> s[j].0 != k)
                implies with_pairs(m, s).contains_key(k) && with_pairs(m, s)[k] == s[i].1 by {
            if i < s.len() - 1 {
                assert(s[s.len() - 1].0 != k);
                assert(t[i] == s[i]);
                assert forall|j: int| i < j < t.len() implies t[j].0 != k by {
                    assert(t[j] == s[j]);
                }
            }
        }
        if forall|i: int| 0 <= i < s.len() ==> s[i].0 != k {
            assert forall|i: int| 0 <= i < t.len() implies t[i].0 != k by {
                assert(t[i] == s[i]);
            }
            assert(s[s.len() - 1].0 != k);
        }
    }
}

/// A metric key made safe for a file name: every character other than an
/// ASCII letter or digit, `_`, `-` or `.` becomes `_`.
pub open spec fn sanitized(key: Seq<char>) -> Seq<char> {
    key.map_values(|c: char| if safe_char(c) { c } else { '_' })
}

/// The characters kept as they are in a file name.
pub open spec fn safe_char(c: char) -> bool {
    ('a' <= c && c <= 'z') || ('A' <= c && c <= 'Z') || ('0' <= c && c <= '9') || c == '_' || c
        == '-' || c == '.'
}

/// Sanitizes a metric key for use in a file name (as wandb does).
pub fn sanitize_key(key: &str) -> (r: String)
    ensures
        r@ == sanitized(key@),
{
    let v = chars_of(key);
    let mut s = String::new();
    let mut i: usize = 0;
    while i < v.len()
        invariant
            i <= v@.len(),
            v@ == key@,
            s@ == sanitized(key@.take(i as int)),
        decreases v@.len() - i,
    {
        let c = v[i];
        let safe = ('a' <= c && c <= 'z') || ('A' <= c && c <= 'Z') || ('0' <= c && c <= '9') || c
            == '_' || c == '-' || c == '.';
        if safe {
            push_char(&mut s, c);
        } else {
            push_char(&mut s, '_');
        }
        assert(sanitized(key@.take(i + 1)) =~= sanitized(key@.take(i as int)).push(
            if safe_char(c) {
                c
            } else {
                '_'
            },
        ));
        i = i + 1;
    }
    assert(key@.take(i as int) =~= key@);
    s
}

/// Sanitizing a sanitized key changes nothing, and sanitizing keeps the
/// length of a key.
pub proof fn lemma_sanitized_idempotent(key: Seq<char>)
    ensures
        sanitized(sanitized(key)) == sanitized(key),
        sanitized(key).len() == key.len(),
{
    assert(sanitized(sanitized(key)) =~= sanitized(key));
}

/// The run-relative path a media file is uploaded to when logged under
/// `key` at `step`: `{subdir}/{sanitized key}_{step}_{first 20 hex digits
/// of the SHA-256}{ext}`.
pub open spec fn record_path(f: MediaFileView, key: Seq<char>, step: u64) -> Seq<char> {
    f.subdir + seq!['/'] + sanitized(key) + seq!['_'] + decimal(step as nat) + seq!['_'] + hex_lower(
        sha256_digest(f.bytes),
    ).take(20) + f.ext
}

/// A media file logged at a step is uploaded under a path that holds the
/// full decimal step between `{subdir}/{sanitized key}_` and `_`, so the
/// same file logged under the same key at two different steps gets two
/// different paths.
pub proof fn law_record_path_step(f: MediaFileView, key: Seq<char>, s1: u64, s2: u64)
    ensures
        ({
            let pre = f.subdir + seq!['/'] + sanitized(key) + seq!['_'];
            let p = record_path(f, key, s1);
            let d = decimal(s1 as nat);
            &&& p.take(pre.len() as int) == pre
            &&& p.subrange(pre.len() as int, (pre.len() + d.len()) as int) == d
            &&& p[(pre.len() + d.len()) as int] == '_'
        }),
        record_path(f, key, s1) == record_path(f, key, s2) ==> s1 == s2,
{
    let pre = f.subdir + seq!['/'] + sanitized(key) + seq!['_'];
    let post = seq!['_'] + hex_lower(sha256_digest(f.bytes)).take(20) + f.ext;
    let (d1, d2) = (decimal(s1 as nat), decimal(s2 as nat));
    let (p1, p2) = (record_path(f, key, s1), record_path(f, key, s2));
    assert(p1 =~= pre + d1 + post);
    assert(p2 =~= pre + d2 + post);
    assert(p1.take(pre.len() as int) =~= pre);
    assert(p1.subrange(pre.len() as int, (pre.len() + d1.len()) as int) =~= d1);
    assert(p1[(pre.len() + d1.len()) as int] == post[0]);
    if p1 == p2 {
        assert(d1.len() == d2.len());
        assert(d1 =~= p1.subrange(pre.len() as int, (pre.len() + d1.len()) as int));
        assert(d2 =~= p2.subrange(pre.len() as int, (pre.len() + d2.len()) as int));
        crate::text::lemma_decimal_injective(s1 as nat, s2 as nat);
    }
}

/// The record logged in place of a media file: its type, path, digest and
/// size, then its extra metadata.
pub open spec fn record_map(f: MediaFileView, key: Seq<char>, step: u64) -> Map<
    Seq<char>,
    DataValueView,
> {
    with_pairs(
        Map::empty().insert("_type"@, DataValueView::Str(f.log_type)).insert(
            "path"@,
            DataValueView::Str(record_path(f, key, step)),
        ).insert("sha256"@, DataValueView::Str(hex_lower(sha256_digest(f.bytes)))).insert(
            "size"@,
            DataValueView::Int(f.bytes.len() as u64),
        ),
        f.extra,
    )
}

/// A copy of a list of named values.
pub fn duplicate_pairs(v: &Vec<(String, DataValue)>) -> (r: Vec<(String, DataValue)>)
    ensures
        pairs_view(r@) == pairs_view(v@),
{
    let mut r: Vec<(String, DataValue)> = Vec::new();
    let mut i: usize = 0;
    while i < v.len()
        invariant
            i <= v@.len(),
            r@.len() == i,
            forall|k: int| 0 <= k < i ==> (#[trigger] r@[k]).0@ == v@[k].0@ && r@[k].1@ == v@[k].1@,
        decreases v@.len() - i,
    {
        r.push((v[i].0.clone(), v[i].1.duplicate()));
        i = i + 1;
    }
    assert(pairs_view(r@) =~= pairs_view(v@));
    r
}

impl MediaFile {
    /// A copy of the file.
    pub fn duplicate(&self) -> (r: MediaFile)
        ensures
            r@ == self@,
    {
        MediaFile {
            bytes: self.bytes.clone(),
            subdir: self.subdir.clone(),
            ext: self.ext.clone(),
            log_type: self.log_type.clone(),
            extra: duplicate_pairs(&self.extra),
        }
    }

    /// The encoded bytes of the file.
    pub fn bytes(&self) -> (r: &Vec<u8>)
        ensures
            r@ == self@.bytes,
    {
        &self.bytes
    }

    /// The run-relative upload path and the history `_type` record of this
    /// file, given the metric key and step it is logged under.
    pub fn record(&self, key: &str, step: u64) -> (r: (String, DataValue))
        ensures
            r.0@ == record_path(self@, key@, step),
            r.1@ == DataValueView::Dict(record_map(self@, key@, step)),
    {
        let hex = sha256_hex(self.bytes.as_slice());
        let hexv = chars_of(hex.as_str());
        let mut path = String::new();
        path.append(self.subdir.as_str());
        push_char(&mut path, '/');
        let k = sanitize_key(key);
        path.append(k.as_str());
        push_char(&mut path, '_');
        push_decimal(&mut path, step as u128);
        push_char(&mut path, '_');
        push_range(&mut path, &hexv, 0, 20);
        path.append(self.ext.as_str());
        assert(path@ =~= record_path(self@, key@, step));
        let mut map = DataMap::new();
        map.insert("_type".to_string(), DataValue::String(self.log_type.clone()));
        map.insert("path".to_string(), DataValue::String(path.clone()));
        map.insert("sha256".to_string(), DataValue::String(hex));
        map.insert("size".to_string(), DataValue::Int(self.bytes.len() as u64));
        let ghost base = map@;
        let mut i: usize = 0;
        while i < self.extra.len()
            invariant
                i <= self.extra@.len(),
                map@ == with_pairs(base, pairs_view(self.extra@).take(i as int)),
            decreases self.extra@.len() - i,
        {
            let k = self.extra[i].0.clone();
            let v = self.extra[i].1.duplicate();
            map.insert(k, v);
            assert(pairs_view(self.extra@).take(i + 1).drop_last() =~= pairs_view(self.extra@).take(
                i as int,
            ));
            i = i + 1;
        }
        assert(pairs_view(self.extra@).take(i as int) =~= pairs_view(self.extra@));
        (path, DataValue::Dict(map))
    }
}

// ---------------------------------------------------------------------------
// HTML
// ---------------------------------------------------------------------------

/// `c` with ASCII upper-case letters made lower-case.
pub open spec fn ascii_lower(c: char) -> char {
    if 'A' <= c && c <= 'Z' {
        (((c as u8) + 32) as u8) as char
    } else {
        c
    }
}

/// The tag after which the stylesheet is injected.
pub open spec fn head_tag() -> Seq<char> {
    seq!['<', 'h', 'e', 'a', 'd', '>']
}

/// `<head>`, in any mix of letter cases, starts at position `i` of `s`.
pub open spec fn head_at(s: Seq<char>, i: int) -> bool {
    0 <= i && i + 6 <= s.len() && forall|j: int| 0 <= j < 6 ==> ascii_lower(#[trigger] s[i + j]) == head_tag()[j]
}

/// The position of the first `<head>` tag of `s`, in any mix of letter
/// cases.
pub open spec fn first_head(s: Seq<char>) -> Option<int> {
    if exists|i: int| #[trigger] head_at(s, i) {
        Some(choose|i: int| #[trigger] head_at(s, i) && forall|j: int| 0 <= j < i ==> !head_at(s, j))
    } else {
        None
    }
}

/// The wandb stylesheet and base tag injected into HTML snippets.
pub open spec fn head_snippet() -> Seq<char> {
    "<base target=\"_blank\"><link rel=\"stylesheet\" type=\"text/css\" href=\"https://app.wandb.ai/normalize.css\" />"@
}

/// `html` with the wandb stylesheet injected right after its first `<head>`
/// tag, or, without such a tag, in a `<head>` element put before it.
pub open spec fn injected(html: Seq<char>) -> Seq<char> {
    match first_head(html) {
        Some(i) => html.take(i + 6) + head_snippet() + html.skip(i + 6),
        None => "<head>"@ + head_snippet() + "</head>"@ + html,
    }
}

/// The lower-case form of an ASCII letter; other characters are kept.
fn to_ascii_lower(c: char) -> (r: char)
    ensures
        r == ascii_lower(c),
{
    if 'A' <= c && c <= 'Z' {
        ((c as u8) + 32) as char
    } else {
        c
    }
}

/// The first position of `<head>` in `v`, in any mix of letter cases.
fn find_head(v: &Vec<char>) -> (r: Option<usize>)
    ensures
        match r {
            Some(i) => head_at(v@, i as int) && forall|j: int| 0 <= j < i ==> !head_at(v@, j),
            None => forall|j: int| !head_at(v@, j),
        },
{
    let tag = vec!['<', 'h', 'e', 'a', 'd', '>'];
    assert(tag@ =~= head_tag());
    let mut i: usize = 0;
    while v.len() >= 6 && i <= v.len() - 6
        invariant
            tag@ == head_tag(),
            i <= v@.len(),
            forall|j: int| 0 <= j < i ==> !head_at(v@, j),
        decreases v@.len() - i,
    {
        let mut k: usize = 0;
        while k < 6 && to_ascii_lower(v[i + k]) == tag[k]
            invariant
                v.len() >= 6,
                i <= v.len() - 6,
                k <= 6,
                tag@ == head_tag(),
                forall|j: int| 0 <= j < k ==> ascii_lower(#[trigger] v@[i + j]) == head_tag()[j],
            decreases 6 - k,
        {
            k = k + 1;
        }
        if k == 6 {
            return Some(i);
        }
        assert(!head_at(v@, i as int)) by {
            assert(ascii_lower(v@[i + k]) != head_tag()[k as int]);
        }
        i = i + 1;
    }
    assert forall|j: int| !head_at(v@, j) by {
        if head_at(v@, j) {
            assert(j < i);
        }
    }
    None
}

/// Injects the wandb stylesheet and base tag into an HTML snippet.
pub fn inject_head(html: &str) -> (r: String)
    ensures
        r@ == injected(html@),
{
    let v = chars_of(html);
    let snippet = "<base target=\"_blank\"><link rel=\"stylesheet\" type=\"text/css\" href=\"https://app.wandb.ai/normalize.css\" />";
    let mut s = String::new();
    match find_head(&v) {
        Some(i) => {
            proof {
                assert(exists|j: int| #[trigger] head_at(html@, j));
                let c = choose|j: int| #[trigger] head_at(html@, j) && forall|k: int| 0 <= k < j ==> !head_at(html@, k);
                assert(head_at(html@, i as int));
                if c < i {
                } else if c > i {
                }
                assert(c == i);
            }
            assert(head_at(v@, i as int));
            assert(i + 6 <= v.len());
            push_range(&mut s, &v, 0, i + 6);
            s.append(snippet);
            push_range(&mut s, &v, i + 6, v.len());
            assert(s@ =~= injected(html@));
        },
        None => {
            s.append("<head>");
            s.append(snippet);
            s.append("</head>");
            s.append(html);
        },
    }
    s
}

/// A string with a `<head>` tag has a first one.
proof fn lemma_first_head_exists(s: Seq<char>, i: int)
    requires
        head_at(s, i),
    ensures
        exists|m: int| #[trigger] head_at(s, m) && forall|j: int| 0 <= j < m ==> !head_at(s, j),
    decreases i,
{
    if exists|j: int| 0 <= j < i && #[trigger] head_at(s, j) {
        let j = choose|j: int| 0 <= j < i && #[trigger] head_at(s, j);
        lemma_first_head_exists(s, j);
    } else {
        assert(head_at(s, i) && forall|j: int| 0 <= j < i ==> !head_at(s, j));
    }
}

/// The first `<head>` tag is a `<head>` tag, and none comes before it.
pub proof fn lemma_first_head(s: Seq<char>)
    ensures
        match first_head(s) {
            Some(i) => head_at(s, i) && forall|j: int| 0 <= j < i ==> !head_at(s, j),
            None => forall|j: int| !head_at(s, j),
        },
{
    if exists|i: int| #[trigger] head_at(s, i) {
        let i = choose|i: int| #[trigger] head_at(s, i);
        lemma_first_head_exists(s, i);
    }
}

/// Where the stylesheet goes, the text of the snippet is unchanged: taking
/// the injected part out gives back the HTML as given.
pub proof fn lemma_injected_keeps_html(html: Seq<char>)
    ensures
        match first_head(html) {
            Some(i) => injected(html).take(i + 6) + injected(html).skip(
                i + 6 + head_snippet().len(),
            ) == html,
            None => injected(html).skip(injected(html).len() - html.len()) == html,
        },
{
    lemma_first_head(html);
    match first_head(html) {
        Some(i) => {
            let r = injected(html);
            assert(r.take(i + 6) =~= html.take(i + 6));
            assert(r.skip(i + 6 + head_snippet().len()) =~= html.skip(i + 6));
            assert(html.take(i + 6) + html.skip(i + 6) =~= html);
        },
        None => {
            let r = injected(html);
            assert(r.skip(r.len() - html.len()) =~= html);
        },
    }
}

/// The bytes of a UTF-8 string.
fn utf8_bytes(s: &String) -> (r: Vec<u8>)
    ensures
        r@ == vstd::utf8::encode_utf8(s@),
{
    s.as_str().as_bytes_vec()
}

// ---------------------------------------------------------------------------
// Media files of each kind
// ---------------------------------------------------------------------------

/// An HTML snippet to log.
pub struct Html {
    pub file: MediaFile,
}

impl Html {
    /// The HTML snippet `data`, with the wandb stylesheet injected.
    pub fn new(data: &str) -> (r: Html)
        ensures
            r.file@ == (MediaFileView {
                bytes: vstd::utf8::encode_utf8(injected(data@)),
                subdir: "media/html"@,
                ext: ".html"@,
                log_type: "html-file"@,
                extra: Seq::empty(),
            }),
    {
        let html = inject_head(data);
        let bytes = utf8_bytes(&html);
        let file = MediaFile {
            bytes,
            subdir: string_of("media/html"),
            ext: string_of(".html"),
            log_type: string_of("html-file"),
            extra: Vec::new(),
        };
        assert(file@.extra =~= Seq::<(Seq<char>, DataValueView)>::empty());
        Html { file }
    }
}

/// An image to log.
pub struct Image {
    pub file: MediaFile,
}

/// A video to log.
pub struct Video {
    pub file: MediaFile,
}

#[verifier::external_type_specification]
#[verifier::external_body]
pub struct ExImageFormat(image::ImageFormat);

#[verifier::external_type_specification]
#[verifier::external_body]
pub struct ExDynamicImage(image::DynamicImage);

/// The format `image::guess_format` detects in `bytes`, or the text of its
/// error.
pub uninterp spec fn image_guess(bytes: Seq<u8>) -> Result<image::ImageFormat, Seq<char>>;

/// Whether a detected format is JPEG.
pub uninterp spec fn image_format_is_jpeg(f: image::ImageFormat) -> bool;

/// The image `image::load_from_memory_with_format` decodes from `bytes` in
/// format `f`, or the text of its error.
pub uninterp spec fn image_decode(bytes: Seq<u8>, f: image::ImageFormat) -> Result<
    image::DynamicImage,
    Seq<char>,
>;

/// The width of an image.
pub uninterp spec fn image_width(img: image::DynamicImage) -> u32;

/// The height of an image.
pub uninterp spec fn image_height(img: image::DynamicImage) -> u32;

/// The 8-bit grayscale image of the given size over the raw pixels `buf`.
pub uninterp spec fn luma8_image(w: u32, h: u32, buf: Seq<u8>) -> image::DynamicImage;

/// The 8-bit RGB image of the given size over the raw pixels `buf`.
pub uninterp spec fn rgb8_image(w: u32, h: u32, buf: Seq<u8>) -> image::DynamicImage;

/// The 8-bit RGBA image of the given size over the raw pixels `buf`.
pub uninterp spec fn rgba8_image(w: u32, h: u32, buf: Seq<u8>) -> image::DynamicImage;

/// The PNG file `DynamicImage::write_to` writes for `img`, or the text of
/// its error.
pub uninterp spec fn png_encoding(img: image::DynamicImage) -> Result<Seq<u8>, Seq<char>>;

/// Calls `image::guess_format`; the result is the one `image_guess` names.
#[verifier::external_body]
fn guess_format(bytes: &[u8]) -> (r: Result<image::ImageFormat, String>)
    ensures
        match r {
            Ok(f) => image_guess(bytes@) == Ok::<image::ImageFormat, Seq<char>>(f),
            Err(e) => image_guess(bytes@) == Err::<image::ImageFormat, Seq<char>>(e@),
        },
{
    image::guess_format(bytes).map_err(|e| e.to_string())
}

/// Compares a format with `ImageFormat::Jpeg`; the result is the one
/// `image_format_is_jpeg` names.
#[verifier::external_body]
fn is_jpeg(f: &image::ImageFormat) -> (r: bool)
    ensures
        r == image_format_is_jpeg(*f),
{
    *f == image::ImageFormat::Jpeg
}

/// Calls `image::load_from_memory_with_format`; the result is the one
/// `image_decode` names.
#[verifier::external_body]
fn decode_image(bytes: &[u8], f: image::ImageFormat) -> (r: Result<image::DynamicImage, String>)
    ensures
        match r {
            Ok(img) => image_decode(bytes@, f) == Ok::<image::DynamicImage, Seq<char>>(img),
            Err(e) => image_decode(bytes@, f) == Err::<image::DynamicImage, Seq<char>>(e@),
        },
{
    image::load_from_memory_with_format(bytes, f).map_err(|e| e.to_string())
}

/// Calls `DynamicImage::width`; the result is the one `image_width` names.
#[verifier::external_body]
fn width_of(img: &image::DynamicImage) -> (r: u32)
    ensures
        r == image_width(*img),
{
    img.width()
}

/// Calls `DynamicImage::height`; the result is the one `image_height` names.
#[verifier::external_body]
fn height_of(img: &image::DynamicImage) -> (r: u32)
    ensures
        r == image_height(*img),
{
    img.height()
}

/// Calls `ImageBuffer::<Luma<u8>, _>::from_raw`, which accepts the buffer
/// exactly when it holds at least `w * h` bytes, and wraps the result as a
/// `DynamicImage`.
#[verifier::external_body]
fn luma8_from_raw(w: u32, h: u32, buf: Vec<u8>) -> (r: Option<image::DynamicImage>)
    ensures
        r is Some <==> (w as int) * (h as int) <= buf@.len(),
        r is Some ==> r == Some(luma8_image(w, h, buf@)),
{
    image::ImageBuffer::from_raw(w, h, buf).map(image::DynamicImage::ImageLuma8)
}

/// Calls `ImageBuffer::<Rgb<u8>, _>::from_raw`, which accepts the buffer
/// exactly when it holds at least `3 * w * h` bytes, and wraps the result as
/// a `DynamicImage`.
#[verifier::external_body]
fn rgb8_from_raw(w: u32, h: u32, buf: Vec<u8>) -> (r: Option<image::DynamicImage>)
    ensures
        r is Some <==> 3 * (w as int) * (h as int) <= buf@.len(),
        r is Some ==> r == Some(rgb8_image(w, h, buf@)),
{
    image::ImageBuffer::from_raw(w, h, buf).map(image::DynamicImage::ImageRgb8)
}

/// Calls `ImageBuffer::<Rgba<u8>, _>::from_raw`, which accepts the buffer
/// exactly when it holds at least `4 * w * h` bytes, and wraps the result as
/// a `DynamicImage`.
#[verifier::external_body]
fn rgba8_from_raw(w: u32, h: u32, buf: Vec<u8>) -> (r: Option<image::DynamicImage>)
    ensures
        r is Some <==> 4 * (w as int) * (h as int) <= buf@.len(),
        r is Some ==> r == Some(rgba8_image(w, h, buf@)),
{
    image::ImageBuffer::from_raw(w, h, buf).map(image::DynamicImage::ImageRgba8)
}

/// Whether `img` is an 8-bit gray, RGB or RGBA image whose raw buffer holds
/// exactly its pixels: the PNG encoder asserts that the buffer's length is
/// the pixel size times the width times the height.
pub open spec fn exact_raw_image(img: image::DynamicImage) -> bool {
    exists|w: u32, h: u32, buf: Seq<u8>|
        #![trigger luma8_image(w, h, buf)]
        #![trigger rgb8_image(w, h, buf)]
        #![trigger rgba8_image(w, h, buf)]
        {
            ||| img == luma8_image(w, h, buf) && buf.len() == (w as int) * (h as int)
            ||| img == rgb8_image(w, h, buf) && buf.len() == 3 * (w as int) * (h as int)
            ||| img == rgba8_image(w, h, buf) && buf.len() == 4 * (w as int) * (h as int)
        }
}

/// Calls `DynamicImage::write_to` with `ImageFormat::Png` on an in-memory
/// buffer; the bytes written (or the text of the error) are the ones
/// `png_encoding` names. The encoder panics unless the image's raw buffer
/// holds exactly its pixels, so only such images are accepted.
#[verifier::external_body]
fn encode_png(img: &image::DynamicImage) -> (r: Result<Vec<u8>, String>)
    requires
        exact_raw_image(*img),
    ensures
        match r {
            Ok(b) => png_encoding(*img) == Ok::<Seq<u8>, Seq<char>>(b@),
            Err(e) => png_encoding(*img) == Err::<Seq<u8>, Seq<char>>(e@),
        },
{
    let mut out = std::io::Cursor::new(Vec::new());
    img.write_to(&mut out, image::ImageFormat::Png).map(|_| out.into_inner()).map_err(|e| e.to_string())
}

/// A named integer metadata value.
fn int_pair(name: &str, v: u64) -> (r: (String, DataValue))
    ensures
        r.0@ == name@,
        r.1@ == DataValueView::Int(v),
{
    (string_of(name), DataValue::Int(v))
}

/// A named string metadata value.
fn str_pair(name: &str, v: &str) -> (r: (String, DataValue))
    ensures
        r.0@ == name@,
        r.1@ == DataValueView::Str(v@),
{
    (string_of(name), DataValue::String(string_of(v)))
}

/// The content of an image file's metadata: its format, width and height.
pub open spec fn image_extra(format: Seq<char>, w: u64, h: u64) -> Seq<(Seq<char>, DataValueView)> {
    seq![
        ("format"@, DataValueView::Str(format)),
        ("width"@, DataValueView::Int(w)),
        ("height"@, DataValueView::Int(h)),
    ]
}

/// The media file of an encoded image (PNG or JPEG): the bytes as given,
/// named by the detected format, with the decoded width and height.
pub fn image_from_bytes(bytes: &[u8]) -> (r: Result<MediaFile, InputError>)
    ensures
        match image_guess(bytes@) {
            Err(e) => fails_with(r, InputErrorKind::Value, "could not detect image format: "@ + e),
            Ok(f) => match image_decode(bytes@, f) {
                Err(e) => fails_with(r, InputErrorKind::Value, "could not decode image: "@ + e),
                Ok(img) => r matches Ok(m) && m@ == (MediaFileView {
                    bytes: bytes@,
                    subdir: "media/images"@,
                    ext: if image_format_is_jpeg(f) {
                        ".jpg"@
                    } else {
                        ".png"@
                    },
                    log_type: "image-file"@,
                    extra: image_extra(
                        if image_format_is_jpeg(f) {
                            "jpeg"@
                        } else {
                            "png"@
                        },
                        image_width(img) as u64,
                        image_height(img) as u64,
                    ),
                }),
            },
        },
{
    let format = match guess_format(bytes) {
        Ok(f) => f,
        Err(e) => {
            let mut m = string_of("could not detect image format: ");
            m.append(e.as_str());
            return Err(InputError { kind: InputErrorKind::Value, message: m });
        },
    };
    let jpeg = is_jpeg(&format);
    let img = match decode_image(bytes, format) {
        Ok(img) => img,
        Err(e) => {
            let mut m = string_of("could not decode image: ");
            m.append(e.as_str());
            return Err(InputError { kind: InputErrorKind::Value, message: m });
        },
    };
    let (format_name, ext) = if jpeg {
        ("jpeg", ".jpg")
    } else {
        ("png", ".png")
    };
    let mut extra: Vec<(String, DataValue)> = Vec::new();
    extra.push(str_pair("format", format_name));
    extra.push(int_pair("width", width_of(&img) as u64));
    extra.push(int_pair("height", height_of(&img) as u64));
    let file = MediaFile {
        bytes: vstd::slice::slice_to_vec(bytes),
        subdir: string_of("media/images"),
        ext: string_of(ext),
        log_type: string_of("image-file"),
        extra,
    };
    assert(file@.extra =~= image_extra(
        if jpeg {
            "jpeg"@
        } else {
            "png"@
        },
        image_width(img) as u64,
        image_height(img) as u64,
    ));
    Ok(file)
}

/// The height, width and channel count of an image array of the given
/// shape: `(H, W)` is grayscale, `(H, W, C)` has `C` channels, which must be
/// 1, 3 or 4.
pub fn image_shape(shape: &[usize]) -> (r: Result<(usize, usize, usize), InputError>)
    ensures
        shape@.len() != 2 && shape@.len() != 3 ==> fails_with(
            r,
            InputErrorKind::Value,
            "Image numpy array must be 2D (H, W) or 3D (H, W, C)"@,
        ),
        shape@.len() == 2 ==> r == Ok::<(usize, usize, usize), InputError>(
            (shape@[0], shape@[1], 1usize),
        ),
        shape@.len() == 3 && (shape@[2] == 1 || shape@[2] == 3 || shape@[2] == 4) ==> r == Ok::<
            (usize, usize, usize),
            InputError,
        >((shape@[0], shape@[1], shape@[2])),
        shape@.len() == 3 && !(shape@[2] == 1 || shape@[2] == 3 || shape@[2] == 4) ==> fails_with(
            r,
            InputErrorKind::Value,
            "Image numpy array channels must be 1 (gray), 3 (RGB), or 4 (RGBA)"@,
        ),
{
    let (h, w, c) = if shape.len() == 2 {
        (shape[0], shape[1], 1usize)
    } else if shape.len() == 3 {
        (shape[0], shape[1], shape[2])
    } else {
        return Err(
            InputError::new(
                InputErrorKind::Value,
                "Image numpy array must be 2D (H, W) or 3D (H, W, C)",
            ),
        );
    };
    if !(c == 1 || c == 3 || c == 4) {
        return Err(
            InputError::new(
                InputErrorKind::Value,
                "Image numpy array channels must be 1 (gray), 3 (RGB), or 4 (RGBA)",
            ),
        );
    }
    Ok((h, w, c))
}

/// The raw image of `c` channels over `buf`, as the image crate builds it
/// for the (truncated) 32-bit width and height.
pub open spec fn raw_image(c: usize, w: u32, h: u32, buf: Seq<u8>) -> image::DynamicImage {
    if c == 1 {
        luma8_image(w, h, buf)
    } else if c == 3 {
        rgb8_image(w, h, buf)
    } else {
        rgba8_image(w, h, buf)
    }
}

/// The PNG media file of an image array with height `h`, width `w` and `c`
/// channels (1, 3 or 4), whose pixels `buf` holds in row-major order. The
/// image crate takes 32-bit sizes: a non-empty array wider or higher than
/// that makes its PNG encoder panic, so such arrays are not accepted.
pub fn image_from_pixels(h: usize, w: usize, c: usize, buf: Vec<u8>) -> (r: Result<
    MediaFile,
    InputError,
>)
    requires
        c == 1 || c == 3 || c == 4,
        (h as int) * (w as int) * (c as int) <= usize::MAX,
        buf@.len() == (h as int) * (w as int) * (c as int) ==> h == 0 || w == 0 || (h
            <= u32::MAX && w <= u32::MAX),
    ensures
        buf@.len() != (h as int) * (w as int) * (c as int) ==> fails_with(
            r,
            InputErrorKind::Value,
            "Image array data did not match its shape"@,
        ),
        buf@.len() == (h as int) * (w as int) * (c as int) ==> {
            let (w32, h32) = (w as u32, h as u32);
            if (c as int) * (w32 as int) * (h32 as int) > buf@.len() {
                fails_with(
                    r,
                    InputErrorKind::Value,
                    if c == 1 {
                        "invalid grayscale image buffer"@
                    } else if c == 3 {
                        "invalid RGB image buffer"@
                    } else {
                        "invalid RGBA image buffer"@
                    },
                )
            } else {
                match png_encoding(raw_image(c, w32, h32, buf@)) {
                    Err(e) => fails_with(r, InputErrorKind::Value, "could not encode PNG: "@ + e),
                    Ok(png) => r matches Ok(m) && m@ == (MediaFileView {
                        bytes: png,
                        subdir: "media/images"@,
                        ext: ".png"@,
                        log_type: "image-file"@,
                        extra: image_extra("png"@, w as u64, h as u64),
                    }),
                }
            }
        },
{
    assert((h as int) * (w as int) * (c as int) <= usize::MAX);
    let hw = h * w;
    if buf.len() != hw * c {
        return Err(InputError::new(InputErrorKind::Value, "Image array data did not match its shape"));
    }
    let w32 = w as u32;
    let h32 = h as u32;
    let ghost pixels = buf@;
    let img = if c == 1 {
        match luma8_from_raw(w32, h32, buf) {
            Some(i) => i,
            None => {
                return Err(InputError::new(InputErrorKind::Value, "invalid grayscale image buffer"));
            },
        }
    } else if c == 3 {
        match rgb8_from_raw(w32, h32, buf) {
            Some(i) => i,
            None => {
                return Err(InputError::new(InputErrorKind::Value, "invalid RGB image buffer"));
            },
        }
    } else {
        match rgba8_from_raw(w32, h32, buf) {
            Some(i) => i,
            None => {
                return Err(InputError::new(InputErrorKind::Value, "invalid RGBA image buffer"));
            },
        }
    };
    proof {
        let (wi, hi, ci) = (w32 as int, h32 as int, c as int);
        assert(pixels.len() == ci * wi * hi) by (nonlinear_arith)
            requires
                pixels.len() == (h as int) * (w as int) * ci,
                h == 0 ==> hi == 0,
                w == 0 ==> wi == 0,
                h != 0 && w != 0 ==> hi == h && wi == w,
        ;
        if c == 1 {
            assert(img == luma8_image(w32, h32, pixels));
        } else if c == 3 {
            assert(img == rgb8_image(w32, h32, pixels));
        } else {
            assert(img == rgba8_image(w32, h32, pixels));
        }
    }
    let png = match encode_png(&img) {
        Ok(b) => b,
        Err(e) => {
            let mut m = string_of("could not encode PNG: ");
            m.append(e.as_str());
            return Err(InputError { kind: InputErrorKind::Value, message: m });
        },
    };
    let mut extra: Vec<(String, DataValue)> = Vec::new();
    extra.push(str_pair("format", "png"));
    extra.push(int_pair("width", w as u64));
    extra.push(int_pair("height", h as u64));
    let file = MediaFile {
        bytes: png,
        subdir: string_of("media/images"),
        ext: string_of(".png"),
        log_type: string_of("image-file"),
        extra,
    };
    assert(file@.extra =~= image_extra("png"@, w as u64, h as u64));
    Ok(file)
}

/// The media file of an encoded video (treated as MP4), with no metadata.
pub fn video_from_bytes(bytes: Vec<u8>) -> (r: MediaFile)
    ensures
        r@ == (MediaFileView {
            bytes: bytes@,
            subdir: "media/videos"@,
            ext: ".mp4"@,
            log_type: "video-file"@,
            extra: Seq::empty(),
        }),
{
    let file = MediaFile {
        bytes,
        subdir: string_of("media/videos"),
        ext: string_of(".mp4"),
        log_type: string_of("video-file"),
        extra: Vec::new(),
    };
    assert(file@.extra =~= Seq::<(Seq<char>, DataValueView)>::empty());
    file
}

/// The frame count, height and width of a video array, whose shape must
/// be `(frames, height, width, 3)`.
pub fn video_shape(shape: &[usize]) -> (r: Result<(usize, usize, usize), InputError>)
    ensures
        shape@.len() == 4 && shape@[3] == 3 ==> r == Ok::<(usize, usize, usize), InputError>(
            (shape@[0], shape@[1], shape@[2]),
        ),
        !(shape@.len() == 4 && shape@[3] == 3) ==> fails_with(
            r,
            InputErrorKind::Value,
            "Video numpy array must have shape (frames, height, width, 3)"@,
        ),
{
    if shape.len() != 4 || shape[3] != 3 {
        return Err(
            InputError::new(
                InputErrorKind::Value,
                "Video numpy array must have shape (frames, height, width, 3)",
            ),
        );
    }
    Ok((shape[0], shape[1], shape[2]))
}

/// The media file of a video encoded to MP4 from frames of the given width
/// and height.
pub fn video_from_mp4(mp4: Vec<u8>, w: usize, h: usize) -> (r: MediaFile)
    ensures
        r@ == (MediaFileView {
            bytes: mp4@,
            subdir: "media/videos"@,
            ext: ".mp4"@,
            log_type: "video-file"@,
            extra: seq![("width"@, DataValueView::Int(w as u64)), ("height"@, DataValueView::Int(h as u64))],
        }),
{
    let mut extra: Vec<(String, DataValue)> = Vec::new();
    extra.push(int_pair("width", w as u64));
    extra.push(int_pair("height", h as u64));
    let file = MediaFile {
        bytes: mp4,
        subdir: string_of("media/videos"),
        ext: string_of(".mp4"),
        log_type: string_of("video-file"),
        extra,
    };
    assert(file@.extra =~= seq![("width"@, DataValueView::Int(w as u64)), ("height"@, DataValueView::Int(h as u64))]);
    file
}

/// Whether a value of a type defined in module `module` is a plotly
/// figure: its module name starts with `plotly` and it has `to_plotly_json`.
pub fn is_plotly_figure(module: &str, has_to_plotly_json: bool) -> (r: bool)
    ensures
        r == (has_to_plotly_json && module@.len() >= 6 && module@.take(6) == "plotly"@),
{
    let v = chars_of(module);
    let p = vec!['p', 'l', 'o', 't', 'l', 'y'];
    proof {
        reveal_strlit("plotly");
        assert(p@ =~= "plotly"@);
    }
    if v.len() < 6 {
        return false;
    }
    let mut k: usize = 0;
    while k < 6
        invariant
            k <= 6,
            v@.len() >= 6,
            v@ == module@,
            p@ == "plotly"@,
            p@.len() == 6,
            forall|j: int| 0 <= j < k ==> v@[j] == p@[j],
        decreases 6 - k,
    {
        if v[k] != p[k] {
            assert(v@.take(6)[k as int] != p@[k as int]);
            return false;
        }
        k = k + 1;
    }
    assert(v@.take(6) =~= p@);
    has_to_plotly_json
}

/// The media file of a plotly figure, from its JSON text.
pub fn plotly_from_json(json: String) -> (r: MediaFile)
    ensures
        r@ == (MediaFileView {
            bytes: vstd::utf8::encode_utf8(json@),
            subdir: "media/plotly"@,
            ext: ".plotly.json"@,
            log_type: "plotly-file"@,
            extra: Seq::empty(),
        }),
{
    let file = MediaFile {
        bytes: utf8_bytes(&json),
        subdir: string_of("media/plotly"),
        ext: string_of(".plotly.json"),
        log_type: string_of("plotly-file"),
        extra: Vec::new(),
    };
    assert(file@.extra =~= Seq::<(Seq<char>, DataValueView)>::empty());
    file
}

/// A parsed `Run.log` row: scalar metrics plus the media to upload.
pub struct ParsedRow {
    pub scalars: crate::data_value::LogData,
    pub media: Vec<(String, MediaFile)>,
}

} // verus!
