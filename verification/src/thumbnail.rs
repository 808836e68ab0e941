//! Where thumbnails are cached, how a video frame is grabbed for one, and
//! how an image is scaled to one.
//!
//! Each wallpaper's thumbnail is cached under a name derived from a hash
//! of its path, so it is found again without reading the wallpaper.
use vstd::prelude::*;
use crate::paths::{file_name, is_sep, join_with_separator, joined, law_joined_file_name};
use crate::text::{
    append_chars, append_str, chars_of, hex_chars, hex_fixed, lemma_not_starts_with, starts_with,
    string_from_chars, string_views, to_owned_string,
};

verus! {

/// The width of a thumbnail, in pixels.
pub const THUMB_WIDTH: u32 = 384;
/// The height of a thumbnail, in pixels.
pub const THUMB_HEIGHT: u32 = 216;
/// The version of the thumbnail cache, mixed into every cache name so that
/// a new version never reads an old thumbnail.
pub const THUMB_CACHE_VERSION: u64 = 6;

/// What `hash_path` returns for a path with characters `path`.
pub uninterp spec fn spec_hash_path(path: Seq<char>) -> u64;

/// The 64-bit hash of a path's text: `hash_one` of a
/// `BuildHasherDefault<DefaultHasher>` (which hashes with
/// `DefaultHasher::new()`, whose keys are fixed). The contract names the
/// result as a function of the text and claims nothing else of it. std
/// documents that the algorithm may change between Rust releases, so a
/// build with another toolchain may name cached thumbnails differently
/// (and make them again).
#[verifier::external_body]
pub(crate) fn hash_path(path: &str) -> (r: u64)
    ensures
        r == spec_hash_path(path@),
{
    std::hash::BuildHasher::hash_one(
        &std::hash::BuildHasherDefault::<std::collections::hash_map::DefaultHasher>::default(),
        path,
    )
}

/// The name of a cached thumbnail whose key is `key`: `v`, sixteen
/// lower-case hexadecimal digits, `.jpg`.
pub open spec fn cache_file_name(key: u64) -> Seq<char> {
    "v"@ + hex_fixed(key as nat, 16) + ".jpg"@
}

/// The cached thumbnail of `file` in `cache_dir` for cache `version`: its
/// name is made from the path's hash combined (exclusive or) with the
/// version.
pub open spec fn cache_path_spec(file: Seq<char>, cache_dir: Seq<char>, version: u64, sep: char) -> Seq<char> {
    joined(cache_dir, cache_file_name(spec_hash_path(file) ^ version), sep)
}

/// The path of the cached thumbnail of `file` in `cache_dir`, joined with
/// the separator `sep`.
pub fn cache_path(file: &str, cache_dir: &str, version: u64, sep: char) -> (r: String)
    requires
        is_sep(sep),
    ensures
        r@ == cache_path_spec(file@, cache_dir@, version, sep),
{
    let key = hash_path(file) ^ version;
    let mut name: Vec<char> = Vec::new();
    name.push('v');
    append_chars(&mut name, &hex_chars(key, 16));
    append_str(&mut name, ".jpg");
    proof {
        reveal_strlit("v");
    }
    assert(name@ =~= cache_file_name(key));
    let dir = chars_of(cache_dir);
    let full = join_with_separator(&dir, &name, sep);
    string_from_chars(&full)
}

/// The folder of static thumbnails below the cache root.
pub open spec fn static_thumbs_dir(cache_root: Seq<char>, sep: char) -> Seq<char> {
    joined(cache_root, "static-thumbs"@, sep)
}

/// The folder of video thumbnails below the cache root.
pub open spec fn video_thumbs_dir(cache_root: Seq<char>, sep: char) -> Seq<char> {
    joined(cache_root, "video-thumbs"@, sep)
}

/// `dir` joined with the literal `name` by `sep`.
fn join_literal(dir: &str, name: &str, sep: char) -> (r: String)
    ensures
        r@ == joined(dir@, name@, sep),
{
    let d = chars_of(dir);
    let n = chars_of(name);
    string_from_chars(&join_with_separator(&d, &n, sep))
}

/// The folder of cached static-image thumbnails.
pub fn static_thumbnail_dir(cache_root: &str, sep: char) -> (r: String)
    requires
        is_sep(sep),
    ensures
        r@ == static_thumbs_dir(cache_root@, sep),
{
    join_literal(cache_root, "static-thumbs", sep)
}

/// The folder of cached video thumbnails.
pub fn video_thumbnail_dir(cache_root: &str, sep: char) -> (r: String)
    requires
        is_sep(sep),
    ensures
        r@ == video_thumbs_dir(cache_root@, sep),
{
    join_literal(cache_root, "video-thumbs", sep)
}

/// The folder a video frame is grabbed into, in `cache_dir`: `tmp_` and
/// the sixteen hexadecimal digits of the video path's hash.
pub open spec fn grab_dir_spec(video: Seq<char>, cache_dir: Seq<char>, sep: char) -> Seq<char> {
    joined(cache_dir, "tmp_"@ + hex_fixed(spec_hash_path(video) as nat, 16), sep)
}

/// The folder a frame of `video` is grabbed into.
pub fn grab_dir(video: &str, cache_dir: &str, sep: char) -> (r: String)
    requires
        is_sep(sep),
    ensures
        r@ == grab_dir_spec(video@, cache_dir@, sep),
{
    let h = hash_path(video);
    let mut name = chars_of("tmp_");
    append_chars(&mut name, &hex_chars(h, 16));
    let dir = chars_of(cache_dir);
    string_from_chars(&join_with_separator(&dir, &name, sep))
}

/// The file a grabbed frame is read from: `thumb.jpg` in the grab folder.
pub open spec fn grabbed_frame_path(grab_dir: Seq<char>, sep: char) -> Seq<char> {
    joined(grab_dir, "thumb.jpg"@, sep)
}

/// The grabbed frame inside the grab folder.
pub fn grabbed_frame(grab_dir: &str, sep: char) -> (r: String)
    requires
        is_sep(sep),
    ensures
        r@ == grabbed_frame_path(grab_dir@, sep),
{
    join_literal(grab_dir, "thumb.jpg", sep)
}

/// The arguments of `mpv` that grab one frame, half a second in, of
/// `video` as `thumb.jpg` in `grab_dir`, quietly and at idle priority.
pub open spec fn grab_args_spec(grab_dir: Seq<char>, video: Seq<char>) -> Seq<Seq<char>> {
    seq![
        "--no-config"@,
        "--no-audio"@,
        "--start=0.5"@,
        "--frames=1"@,
        "--vo=null"@,
        "--priority=idle"@,
        "--vd-lavc-threads=1"@,
        "--hwdec=auto-safe"@,
        "--demuxer-max-bytes=4M"@,
        "--cache=no"@,
        "--screenshot-format=jpg"@,
        "--screenshot-jpeg-quality=85"@,
        "--screenshot-directory="@ + grab_dir,
        "--screenshot-template=thumb"@,
        "--really-quiet"@,
        video,
    ]
}

/// The arguments of `mpv` that grab a frame of `video` into `grab_dir`.
pub fn grab_args(grab_dir: &str, video: &str) -> (r: Vec<String>)
    ensures
        string_views(r@) == grab_args_spec(grab_dir@, video@),
{
    let mut r: Vec<String> = Vec::new();
    r.push(to_owned_string("--no-config"));
    r.push(to_owned_string("--no-audio"));
    r.push(to_owned_string("--start=0.5"));
    r.push(to_owned_string("--frames=1"));
    r.push(to_owned_string("--vo=null"));
    r.push(to_owned_string("--priority=idle"));
    r.push(to_owned_string("--vd-lavc-threads=1"));
    r.push(to_owned_string("--hwdec=auto-safe"));
    r.push(to_owned_string("--demuxer-max-bytes=4M"));
    r.push(to_owned_string("--cache=no"));
    r.push(to_owned_string("--screenshot-format=jpg"));
    r.push(to_owned_string("--screenshot-jpeg-quality=85"));
    let mut d = chars_of("--screenshot-directory=");
    append_str(&mut d, grab_dir);
    r.push(string_from_chars(&d));
    r.push(to_owned_string("--screenshot-template=thumb"));
    r.push(to_owned_string("--really-quiet"));
    r.push(to_owned_string(video));
    assert(string_views(r@) =~= grab_args_spec(grab_dir@, video@));
    r
}

/// The frame `mpv` writes is the file read back: the frame-grab
/// arguments name the grab folder as the screenshot directory, and the
/// screenshot template and format they give make, as `template.format` in
/// that folder, the path `grabbed_frame` names. Only the options (the
/// arguments before the video) are read as such.
pub proof fn law_grabbed_frame_is_the_file_mpv_writes(grab_dir: Seq<char>, video: Seq<char>, sep: char)
    ensures
        ({
            let args = grab_args_spec(grab_dir, video);
            &&& exists|i: int| 0 <= i < args.len() - 1 && #[trigger] starts_with(args[i], "--screenshot-directory="@)
            &&& exists|i: int| 0 <= i < args.len() - 1 && #[trigger] starts_with(args[i], "--screenshot-template="@)
            &&& exists|j: int| 0 <= j < args.len() - 1 && #[trigger] starts_with(args[j], "--screenshot-format="@)
            &&& forall|i: int|
                0 <= i < args.len() - 1 && #[trigger] starts_with(args[i], "--screenshot-directory="@) ==> args[i].skip(23)
                    == grab_dir
            &&& forall|i: int, j: int|
                0 <= i < args.len() - 1 && 0 <= j < args.len() - 1 && #[trigger] starts_with(
                    args[i],
                    "--screenshot-template="@,
                ) && #[trigger] starts_with(args[j], "--screenshot-format="@) ==> joined(
                    grab_dir,
                    args[i].skip(22) + seq!['.'] + args[j].skip(20),
                    sep,
                ) == grabbed_frame_path(grab_dir, sep)
        }),
{
    let args = grab_args_spec(grab_dir, video);
    let fp = "--screenshot-format="@;
    let tp = "--screenshot-template="@;
    let dp = "--screenshot-directory="@;
    reveal_strlit("--no-config");
    reveal_strlit("--no-audio");
    reveal_strlit("--start=0.5");
    reveal_strlit("--frames=1");
    reveal_strlit("--vo=null");
    reveal_strlit("--priority=idle");
    reveal_strlit("--vd-lavc-threads=1");
    reveal_strlit("--hwdec=auto-safe");
    reveal_strlit("--demuxer-max-bytes=4M");
    reveal_strlit("--cache=no");
    reveal_strlit("--screenshot-format=jpg");
    reveal_strlit("--screenshot-jpeg-quality=85");
    reveal_strlit("--screenshot-template=thumb");
    reveal_strlit("--really-quiet");
    reveal_strlit("--screenshot-format=");
    reveal_strlit("--screenshot-template=");
    reveal_strlit("--screenshot-directory=");
    reveal_strlit("--screenshot-directory=");
    reveal_strlit("thumb");
    reveal_strlit("jpg");
    reveal_strlit("thumb.jpg");
    assert(args.len() == 16);
    assert(args[10].take(20) =~= fp);
    assert(args[13].take(22) =~= tp);
    assert(args[12].take(23) =~= dp);
    assert(args[12].skip(23) =~= grab_dir);
    assert(starts_with(args[10], fp));
    assert(starts_with(args[13], tp));
    assert(starts_with(args[12], dp));
    assert(args[13].skip(22) + seq!['.'] + args[10].skip(20) =~= "thumb.jpg"@);
    assert forall|i: int| 0 <= i < args.len() - 1 && i != 10 implies !starts_with(args[i], fp) by {
        if i == 0 {
            lemma_not_starts_with(args[0], fp, 2);
        } else if i == 1 {
            lemma_not_starts_with(args[1], fp, 2);
        } else if i == 2 {
            lemma_not_starts_with(args[2], fp, 3);
        } else if i == 3 {
            lemma_not_starts_with(args[3], fp, 2);
        } else if i == 4 {
            lemma_not_starts_with(args[4], fp, 2);
        } else if i == 5 {
            lemma_not_starts_with(args[5], fp, 2);
        } else if i == 6 {
            lemma_not_starts_with(args[6], fp, 2);
        } else if i == 7 {
            lemma_not_starts_with(args[7], fp, 2);
        } else if i == 8 {
            lemma_not_starts_with(args[8], fp, 2);
        } else if i == 9 {
            lemma_not_starts_with(args[9], fp, 2);
        } else if i == 11 {
            lemma_not_starts_with(args[11], fp, 13);
        } else if i == 12 {
            lemma_not_starts_with(args[12], fp, 13);
        } else if i == 13 {
            lemma_not_starts_with(args[13], fp, 13);
        } else if i == 14 {
            lemma_not_starts_with(args[14], fp, 2);
        }
    }
    assert forall|i: int| 0 <= i < args.len() - 1 && i != 13 implies !starts_with(args[i], tp) by {
        if i == 0 {
            lemma_not_starts_with(args[0], tp, 2);
        } else if i == 1 {
            lemma_not_starts_with(args[1], tp, 2);
        } else if i == 2 {
            lemma_not_starts_with(args[2], tp, 3);
        } else if i == 3 {
            lemma_not_starts_with(args[3], tp, 2);
        } else if i == 4 {
            lemma_not_starts_with(args[4], tp, 2);
        } else if i == 5 {
            lemma_not_starts_with(args[5], tp, 2);
        } else if i == 6 {
            lemma_not_starts_with(args[6], tp, 2);
        } else if i == 7 {
            lemma_not_starts_with(args[7], tp, 2);
        } else if i == 8 {
            lemma_not_starts_with(args[8], tp, 2);
        } else if i == 9 {
            lemma_not_starts_with(args[9], tp, 2);
        } else if i == 10 {
            lemma_not_starts_with(args[10], tp, 13);
        } else if i == 11 {
            lemma_not_starts_with(args[11], tp, 13);
        } else if i == 12 {
            lemma_not_starts_with(args[12], tp, 13);
        } else if i == 14 {
            lemma_not_starts_with(args[14], tp, 2);
        }
    }
    assert forall|i: int| 0 <= i < args.len() - 1 && i != 12 implies !starts_with(args[i], dp) by {
        if i == 0 {
            lemma_not_starts_with(args[0], dp, 2);
        } else if i == 1 {
            lemma_not_starts_with(args[1], dp, 2);
        } else if i == 2 {
            lemma_not_starts_with(args[2], dp, 3);
        } else if i == 3 {
            lemma_not_starts_with(args[3], dp, 2);
        } else if i == 4 {
            lemma_not_starts_with(args[4], dp, 2);
        } else if i == 5 {
            lemma_not_starts_with(args[5], dp, 2);
        } else if i == 6 {
            lemma_not_starts_with(args[6], dp, 2);
        } else if i == 7 {
            lemma_not_starts_with(args[7], dp, 2);
        } else if i == 8 {
            lemma_not_starts_with(args[8], dp, 2);
        } else if i == 9 {
            lemma_not_starts_with(args[9], dp, 2);
        } else if i == 10 {
            lemma_not_starts_with(args[10], dp, 13);
        } else if i == 11 {
            lemma_not_starts_with(args[11], dp, 13);
        } else if i == 13 {
            lemma_not_starts_with(args[13], dp, 13);
        } else if i == 14 {
            lemma_not_starts_with(args[14], dp, 2);
        }
    }
}

/// The colour of a placeholder thumbnail (red, green, blue).
pub open spec fn placeholder_rgb() -> Seq<u8> {
    seq![24u8, 25u8, 32u8]
}

/// The pixels of the placeholder thumbnail shown for a video whose frame
/// could not be grabbed: `THUMB_WIDTH` by `THUMB_HEIGHT` pixels, row by
/// row, three bytes (red, green, blue) each, all of the placeholder colour.
pub fn placeholder_pixels() -> (r: Vec<u8>)
    ensures
        r@.len() == THUMB_WIDTH * THUMB_HEIGHT * 3,
        forall|i: int| 0 <= i < r@.len() ==> #[trigger] r@[i] == placeholder_rgb()[i % 3],
{
    let n: usize = 384 * 216;
    let mut r: Vec<u8> = Vec::new();
    let mut k: usize = 0;
    while k < n
        invariant
            k <= n,
            n == 384 * 216,
            r@.len() == 3 * k,
            forall|i: int| 0 <= i < r@.len() ==> #[trigger] r@[i] == placeholder_rgb()[i % 3],
        decreases n - k,
    {
        r.push(24u8);
        r.push(25u8);
        r.push(32u8);
        assert forall|i: int| 0 <= i < r@.len() implies #[trigger] r@[i] == placeholder_rgb()[i % 3] by {
            if i >= 3 * k {
                assert(i % 3 == i - 3 * k);
            }
        }
        k = k + 1;
    }
    r
}

/// A decoded image with eight bits per sample and three samples per pixel
/// (red, green, blue), row by row from the top left.
pub struct Image {
    pub width: u32,
    pub height: u32,
    pub bytes: Vec<u8>,
}

impl Image {
    /// Whether the samples fill the image exactly.
    pub open spec fn wf(&self) -> bool {
        self.bytes@.len() == self.width as int * self.height as int * 3
    }

    /// The image of the given size holding `bytes`, when their number is
    /// three for each pixel.
    pub fn from_parts(width: u32, height: u32, bytes: Vec<u8>) -> (r: Option<Image>)
        ensures
            match r {
                Some(img) => img.wf() && img.width == width && img.height == height && img.bytes@
                    == bytes@,
                None => bytes@.len() != width as int * height as int * 3,
            },
    {
        let w: u128 = width as u128;
        let h: u128 = height as u128;
        assert(w * h <= 0xffff_ffff * 0xffff_ffff) by (nonlinear_arith)
            requires
                w <= 0xffff_ffff,
                h <= 0xffff_ffff,
        ;
        let want: u128 = w * h * 3;
        if bytes.len() as u128 == want {
            Some(Image { width, height, bytes })
        } else {
            None
        }
    }
}

/// Whether `imageops::thumbnail` scales a `width` by `height` image to
/// `new_width` by `new_height` without overflow: the target is not empty,
/// the source sides are at most 2^24 (so pixel positions are exact in
/// `f32`), and a block of source pixels averaged into one target pixel,
/// at most the side ratios plus a margin of 8 for rounding, sums its
/// samples (255 at most, and 255 for the alpha channel the crate adds to
/// RGB pixels) with its rounding term within a `u32`.
pub open spec fn scalable(width: u32, height: u32, new_width: u32, new_height: u32) -> bool {
    &&& new_width > 0
    &&& new_height > 0
    &&& width <= 0x100_0000
    &&& height <= 0x100_0000
    &&& (width / new_width + 8) * (height / new_height + 8) * 256 <= u32::MAX
}

/// Whether an image of `width` by `height` pixels can be scaled to a
/// thumbnail.
pub fn thumbnail_scalable(width: u32, height: u32) -> (r: bool)
    ensures
        r == scalable(width, height, THUMB_WIDTH, THUMB_HEIGHT),
{
    if width > 0x100_0000 || height > 0x100_0000 {
        return false;
    }
    let a: u64 = (width / THUMB_WIDTH + 8) as u64;
    let b: u64 = (height / THUMB_HEIGHT + 8) as u64;
    assert(width / 384 <= 0x1_0000) by (nonlinear_arith)
        requires
            width <= 0x100_0000,
    ;
    assert(height / 216 <= 0x1_4000) by (nonlinear_arith)
        requires
            height <= 0x100_0000,
    ;
    assert(a * b <= 0x1_0008 * 0x1_4008) by (nonlinear_arith)
        requires
            a <= 0x1_0008,
            b <= 0x1_4008,
    ;
    a * b * 256 <= 0xffff_ffff
}

/// What `DynamicImage::thumbnail_exact` makes of an image of
/// `width` by `height` pixels with samples `bytes`, scaled to
/// `new_width` by `new_height`: the samples of the scaled image.
pub uninterp spec fn spec_thumbnail_exact(
    width: u32,
    height: u32,
    bytes: Seq<u8>,
    new_width: u32,
    new_height: u32,
) -> Seq<u8>;

/// `DynamicImage::thumbnail_exact` (which runs `imageops::thumbnail`) on
/// an eight-bit RGB image: the image scaled to exactly `new_width` by
/// `new_height` pixels, each channel averaged on its own over the source
/// pixels that fall in a target pixel, not keeping the aspect ratio. The
/// contract claims the new size, the layout (the variant is kept), and
/// names the samples as a function of the arguments; how they are
/// computed is left unsaid.
#[verifier::external_body]
fn thumbnail_exact(img: &Image, new_width: u32, new_height: u32) -> (r: Image)
    requires
        img.wf(),
        scalable(img.width, img.height, new_width, new_height),
        new_width as int * new_height as int * 3 <= isize::MAX as int,
    ensures
        r.width == new_width,
        r.height == new_height,
        r.wf(),
        r.bytes@ == spec_thumbnail_exact(img.width, img.height, img.bytes@, new_width, new_height),
{
    let buf = image::RgbImage::from_raw(img.width, img.height, img.bytes.clone()).unwrap();
    let t = image::DynamicImage::ImageRgb8(buf).thumbnail_exact(new_width, new_height);
    Image { width: t.width(), height: t.height(), bytes: t.into_bytes() }
}

/// The thumbnail of a decoded image: the image scaled to exactly
/// `THUMB_WIDTH` by `THUMB_HEIGHT` pixels. The image must be one the
/// scaling takes without overflow (`thumbnail_scalable` tells).
pub fn make_thumbnail(img: &Image) -> (r: Image)
    requires
        img.wf(),
        scalable(img.width, img.height, THUMB_WIDTH, THUMB_HEIGHT),
    ensures
        r.width == THUMB_WIDTH,
        r.height == THUMB_HEIGHT,
        r.wf(),
        r.bytes@ == spec_thumbnail_exact(img.width, img.height, img.bytes@, THUMB_WIDTH, THUMB_HEIGHT),
{
    thumbnail_exact(img, THUMB_WIDTH, THUMB_HEIGHT)
}

/// What to write as a video's thumbnail once `mpv` has been asked for a
/// frame.
pub enum FrameAction {
    /// Save this thumbnail of the frame.
    SaveThumbnail(Image),
    /// Copy the frame file as it is: it was written but does not decode.
    CopyFrame,
    /// Write nothing: no frame was grabbed.
    Nothing,
}

/// The decision after grabbing a frame: whether `mpv` ran and succeeded,
/// whether it wrote the frame file, and the frame decoded (`None` when it
/// does not decode). A decoded frame is scaled to a thumbnail; a frame
/// that does not decode is copied as it is; otherwise nothing is written.
pub fn frame_action(succeeded: bool, frame_written: bool, decoded: Option<Image>) -> (r: FrameAction)
    requires
        decoded matches Some(img) ==> img.wf() && scalable(img.width, img.height, THUMB_WIDTH, THUMB_HEIGHT),
    ensures
        match r {
            FrameAction::SaveThumbnail(t) => succeeded && frame_written && (decoded matches Some(img)
                && t.width == THUMB_WIDTH && t.height == THUMB_HEIGHT && t.wf() && t.bytes@
                == spec_thumbnail_exact(img.width, img.height, img.bytes@, THUMB_WIDTH, THUMB_HEIGHT)),
            FrameAction::CopyFrame => succeeded && frame_written && decoded is None,
            FrameAction::Nothing => !(succeeded && frame_written),
        },
{
    if !(succeeded && frame_written) {
        return FrameAction::Nothing;
    }
    match decoded {
        Some(img) => FrameAction::SaveThumbnail(make_thumbnail(&img)),
        None => FrameAction::CopyFrame,
    }
}

/// Two versions of the cache give the same file different cache names, so
/// a new version never reads a thumbnail of an old one.
pub proof fn law_cache_name_depends_on_version(file: Seq<char>, v1: u64, v2: u64)
    requires
        v1 != v2,
    ensures
        cache_file_name(spec_hash_path(file) ^ v1) != cache_file_name(spec_hash_path(file) ^ v2),
{
    let h = spec_hash_path(file);
    assert((h ^ v1) != (h ^ v2)) by (bit_vector)
        requires
            v1 != v2,
    ;
    reveal_with_fuel(pow16, 17);
    assert(pow16(16) == 0x1_0000_0000_0000_0000);
    lemma_hex_fixed_injective((h ^ v1) as nat, (h ^ v2) as nat, 16);
    lemma_hex_fixed_len((h ^ v1) as nat, 16);
    lemma_hex_fixed_len((h ^ v2) as nat, 16);
    reveal_strlit("v");
    let a = cache_file_name(h ^ v1);
    let b = cache_file_name(h ^ v2);
    assert(a.subrange(1, 17) =~= hex_fixed((h ^ v1) as nat, 16));
    assert(b.subrange(1, 17) =~= hex_fixed((h ^ v2) as nat, 16));
    assert(a != b) by {
        if a == b {
            assert(a.subrange(1, 17) == b.subrange(1, 17));
        }
    }
}

/// A cached thumbnail is found again: the cache path of a file is the
/// cache folder joined with a name that depends only on the file's path
/// and the version, and that name is the file name of the cache path. So
/// the path written when the cache is filled is the one read when the
/// thumbnail is looked up with the same file, folder and version.
pub proof fn law_cache_path_found_again(file: Seq<char>, cache_dir: Seq<char>, version: u64, sep: char)
    requires
        is_sep(sep),
    ensures
        cache_path_spec(file, cache_dir, version, sep)
            == joined(cache_dir, cache_file_name(spec_hash_path(file) ^ version), sep),
        file_name(cache_path_spec(file, cache_dir, version, sep))
            == Some(cache_file_name(spec_hash_path(file) ^ version)),
{
    let key = spec_hash_path(file) ^ version;
    let name = cache_file_name(key);
    let hex = hex_fixed(key as nat, 16);
    reveal_strlit("v");
    reveal_strlit(".jpg");
    lemma_hex_fixed_len(key as nat, 16);
    lemma_hex_fixed_digits(key as nat, 16);
    assert(name.len() == 21);
    assert forall|i: int| 0 <= i < name.len() implies !is_sep(#[trigger] name[i]) by {
        if 1 <= i < 17 {
            assert(name[i] == hex[i - 1]);
        }
    }
    assert(name[1] == hex[0]);
    law_joined_file_name(cache_dir, name, sep);
}

/// Every character of `hex_fixed(n, k)` is a digit `0`-`9` or `a`-`f`.
proof fn lemma_hex_fixed_digits(n: nat, k: nat)
    ensures
        forall|i: int|
            0 <= i < hex_fixed(n, k).len() ==> ('0' <= #[trigger] hex_fixed(n, k)[i] <= '9') || ('a'
                <= hex_fixed(n, k)[i] <= 'f'),
    decreases k,
{
    if k > 0 {
        lemma_hex_fixed_digits(n / 16, (k - 1) as nat);
        let d = n % 16;
        let c = crate::text::digit_char(d);
        assert(('0' <= c <= '9') || ('a' <= c <= 'f'));
        let prev = hex_fixed(n / 16, (k - 1) as nat);
        assert(hex_fixed(n, k) == prev.push(c));
        assert forall|i: int| 0 <= i < hex_fixed(n, k).len() implies ('0' <= #[trigger] hex_fixed(n, k)[i] <= '9')
            || ('a' <= hex_fixed(n, k)[i] <= 'f') by {
            if i < prev.len() {
                assert(hex_fixed(n, k)[i] == prev[i]);
            }
        }
    }
}

/// Sixteen hexadecimal digits tell apart any two numbers below 16^16.
proof fn lemma_hex_fixed_injective(a: nat, b: nat, k: nat)
    requires
        a != b,
        a < pow16(k),
        b < pow16(k),
    ensures
        hex_fixed(a, k) != hex_fixed(b, k),
    decreases k,
{
    lemma_hex_fixed_len(a, k);
    lemma_hex_fixed_len(b, k);
    if k == 0 {
    } else {
        let ha = hex_fixed(a, k);
        let hb = hex_fixed(b, k);
        if a % 16 != b % 16 {
            lemma_digit_char_injective(a % 16, b % 16);
            assert(ha.last() != hb.last());
        } else {
            assert(a / 16 != b / 16) by (nonlinear_arith)
                requires
                    a != b,
                    a % 16 == b % 16,
            ;
            assert(a / 16 < pow16((k - 1) as nat)) by (nonlinear_arith)
                requires
                    a < pow16(k),
                    pow16(k) == 16 * pow16((k - 1) as nat),
            ;
            assert(b / 16 < pow16((k - 1) as nat)) by (nonlinear_arith)
                requires
                    b < pow16(k),
                    pow16(k) == 16 * pow16((k - 1) as nat),
            ;
            lemma_hex_fixed_injective(a / 16, b / 16, (k - 1) as nat);
            assert(ha.drop_last() == hex_fixed(a / 16, (k - 1) as nat));
            assert(hb.drop_last() == hex_fixed(b / 16, (k - 1) as nat));
        }
    }
}

/// 16 to the power `k`.
pub open spec fn pow16(k: nat) -> nat
    decreases k,
{
    if k == 0 {
        1
    } else {
        16 * pow16((k - 1) as nat)
    }
}

/// `hex_fixed(n, k)` has `k` digits.
proof fn lemma_hex_fixed_len(n: nat, k: nat)
    ensures
        hex_fixed(n, k).len() == k,
    decreases k,
{
    if k > 0 {
        lemma_hex_fixed_len(n / 16, (k - 1) as nat);
    }
}

/// Different digits have different characters.
proof fn lemma_digit_char_injective(a: nat, b: nat)
    requires
        a < 16,
        b < 16,
        a != b,
    ensures
        crate::text::digit_char(a) != crate::text::digit_char(b),
{
}

} // verus!
