//! Retrieved maps: the image data, its timestamps and the PNG format.
use crate::maps::cache::RetrievedMaps;
use crate::maps::raster::{Color, Raster, rgba_bytes};
use crate::maps::Error;
use image::ImageEncoder;
use vstd::prelude::*;
use vstd::string::StrSliceExecFns;

verus! {

/// The width, height and RGBA bytes of the image that a PNG file holds; `None` for bytes that
/// do not decode as a PNG image.
pub uninterp spec fn png_decoding(bytes: Seq<u8>) -> Option<(int, int, Seq<u8>)>;

/// The PNG file that holds an image of the given width, height and RGBA bytes.
pub uninterp spec fn png_encoding(width: int, height: int, rgba: Seq<u8>) -> Seq<u8>;

/// The time (in seconds since the UNIX epoch) that an RFC 2822 date and time denotes, if valid.
pub uninterp spec fn rfc2822_time(s: Seq<char>) -> Option<int>;

/// The time (in seconds since the UNIX epoch) that a `YYYYmmddHHMM` UTC timestamp denotes, if
/// valid.
pub uninterp spec fn compact_utc_time(s: Seq<char>) -> Option<int>;

/// Relies on `image::load_from_memory_with_format` (PNG) and `DynamicImage::into_rgba8`: the
/// decoded image, and whether decoding succeeds, depend on the bytes alone.
#[verifier::external_body]
fn decode_png(bytes: &[u8]) -> (r: Result<(u32, u32, Vec<u8>), image::ImageError>)
    ensures
        r is Ok <==> png_decoding(bytes@) is Some,
        r matches Ok((w, h, raw)) ==> png_decoding(bytes@) == Some((w as int, h as int, raw@)),
{
    match image::load_from_memory_with_format(bytes, image::ImageFormat::Png) {
        Ok(decoded) => {
            let rgba = decoded.into_rgba8();
            Ok((rgba.width(), rgba.height(), rgba.into_raw()))
        },
        Err(err) => Err(err),
    }
}

/// Relies on `image::codecs::png::PngEncoder::write_image` (RGBA, 8 bits per channel): the
/// encoded file depends on the image alone. It panics on a buffer of the wrong length, which a
/// well-formed raster rules out, and fails only for a zero width or height (the underlying
/// `png::Writer` checks those; writing into a `Vec` does not fail).
#[verifier::external_body]
fn encode_png(image: &Raster) -> (r: Result<Vec<u8>, image::ImageError>)
    requires
        image.wf(),
    ensures
        image.width > 0 && image.height > 0 ==> r is Ok,
        r matches Ok(bytes) ==> bytes@ == png_encoding(
            image.width as int,
            image.height as int,
            rgba_bytes(image.pixels@),
        ),
{
    let rgba: Vec<u8> = image.pixels.iter().flat_map(|c| [c.r, c.g, c.b, c.a]).collect();
    let mut bytes: Vec<u8> = Vec::new();
    image::codecs::png::PngEncoder::new(&mut bytes).write_image(
        &rgba,
        image.width,
        image.height,
        image::ColorType::Rgba8,
    )?;
    Ok(bytes)
}

/// Relies on `chrono::DateTime::parse_from_rfc2822` and `DateTime::timestamp`: the result
/// depends on the text alone.
#[verifier::external_body]
fn parse_rfc2822(s: &str) -> (r: Result<i64, chrono::ParseError>)
    ensures
        r is Ok <==> rfc2822_time(s@) is Some,
        r matches Ok(t) ==> rfc2822_time(s@) == Some(t as int),
{
    match chrono::DateTime::parse_from_rfc2822(s) {
        Ok(time) => Ok(time.timestamp()),
        Err(err) => Err(err),
    }
}

/// Relies on `chrono::NaiveDateTime::parse_from_str` with format `%Y%m%d%H%M`, read as UTC: the
/// result depends on the text alone.
#[verifier::external_body]
fn parse_compact_utc(s: &str) -> (r: Result<i64, chrono::ParseError>)
    ensures
        r is Ok <==> compact_utc_time(s@) is Some,
        r matches Ok(t) ==> compact_utc_time(s@) == Some(t as int),
{
    match chrono::NaiveDateTime::parse_from_str(s, "%Y%m%d%H%M") {
        Ok(time) => Ok(time.and_utc().timestamp()),
        Err(err) => Err(err),
    }
}

/// The index of the last occurrence of `c` in `s`, if any.
pub open spec fn last_index_of(s: Seq<char>, c: char) -> Option<int>
    decreases s.len(),
{
    if s.len() == 0 {
        None
    } else if s.last() == c {
        Some(s.len() - 1)
    } else {
        last_index_of(s.drop_last(), c)
    }
}

/// The index of the first occurrence of two consecutive underscores in `s`, if any.
pub open spec fn double_underscore_index(s: Seq<char>) -> Option<int>
    decreases s.len(),
{
    if s.len() < 2 {
        None
    } else if s[0] == '_' && s[1] == '_' {
        Some(0)
    } else {
        match double_underscore_index(s.drop_first()) {
            Some(i) => Some(i + 1),
            None => None,
        }
    }
}

/// The timestamp text in an image path: the part of its file name (after the last `/`) before
/// the first `__`.
pub open spec fn path_timestamp(path: Seq<char>) -> Option<Seq<char>> {
    match last_index_of(path, '/') {
        None => None,
        Some(i) => {
            let name = path.subrange(i + 1, path.len() as int);
            match double_underscore_index(name) {
                None => None,
                Some(j) => Some(name.subrange(0, j)),
            }
        },
    }
}

fn find_last_slash(s: &str) -> (r: Option<usize>)
    ensures
        match r {
            Some(i) => i < s@.len() && last_index_of(s@, '/') == Some(i as int),
            None => last_index_of(s@, '/') is None,
        },
{
    let n = s.unicode_len();
    assert(s@.subrange(0, n as int) =~= s@);
    let mut i: usize = n;
    while i > 0
        invariant
            n == s@.len(),
            0 <= i <= n,
            last_index_of(s@, '/') == last_index_of(s@.subrange(0, i as int), '/'),
        decreases i,
    {
        assert(s@.subrange(0, i as int).drop_last() =~= s@.subrange(0, i - 1));
        if s.get_char(i - 1) == '/' {
            return Some(i - 1);
        }
        i = i - 1;
    }
    None
}

fn find_double_underscore(s: &str) -> (r: Option<usize>)
    ensures
        match r {
            Some(i) => i + 2 <= s@.len() && double_underscore_index(s@) == Some(i as int),
            None => double_underscore_index(s@) is None,
        },
{
    let n = s.unicode_len();
    assert(s@.subrange(0, n as int) =~= s@);
    let mut i: usize = 0;
    while n - i > 1
        invariant
            n == s@.len(),
            0 <= i <= n,
            double_underscore_index(s@) == match double_underscore_index(
                s@.subrange(i as int, n as int),
            ) {
                Some(j) => Some(j + i),
                None => None,
            },
        decreases n - i,
    {
        assert(s@.subrange(i as int, n as int).drop_first() =~= s@.subrange(i + 1, n as int));
        if s.get_char(i) == '_' && s.get_char(i + 1) == '_' {
            return Some(i);
        }
        i = i + 1;
    }
    None
}

/// Extracts the timestamp text from an image path, see [`path_timestamp`].
pub fn image_path_timestamp(path: &str) -> (r: Option<&str>)
    ensures
        match r {
            Some(t) => path_timestamp(path@) == Some(t@),
            None => path_timestamp(path@) is None,
        },
{
    let len = path.unicode_len();
    let slash = find_last_slash(path)?;
    let name = path.substring_char(slash + 1, len);
    let end = find_double_underscore(name)?;
    Some(name.substring_char(0, end))
}

/// Whether `r` is the outcome of building retrieved maps from an image's path, its
/// last-modified header (if any), the time now and the image's bytes.
pub open spec fn retrieval_outcome(
    path: Seq<char>,
    last_modified: Option<Seq<char>>,
    now: int,
    bytes: Seq<u8>,
    r: Result<RetrievedMaps, Error>,
) -> bool {
    let mtime = match last_modified {
        Some(h) => rfc2822_time(h),
        None => Some(now),
    };
    match mtime {
        None => r matches Err(Error::ChronoParse(_)),
        Some(mt) => match path_timestamp(path) {
            None => r matches Err(Error::InvalidImagePath(p)) && p@ == path,
            Some(t) => match compact_utc_time(t) {
                None => r matches Err(Error::ChronoParse(_)),
                Some(base) => match png_decoding(bytes) {
                    None => r matches Err(Error::Image(_)),
                    Some((w, h, rgba)) => if rgba.len() == 4 * (w * h) {
                        r matches Ok(m) && {
                            &&& m.wf()
                            &&& m.mtime == mt
                            &&& m.timestamp_base == base
                            &&& m.image.width == w
                            &&& m.image.height == h
                            &&& rgba_bytes(m.image.pixels@) == rgba
                        }
                    } else {
                        r matches Err(Error::InvalidImageData)
                    },
                },
            },
        },
    }
}

/// Builds the retrieved maps from a retrieved image.
///
/// The last-modified time comes from the RFC 2822 `last_modified` header, or is `now` without
/// one. The base timestamp comes from the image's file name, which starts with a `YYYYmmddHHMM`
/// UTC timestamp followed by `__`. The bytes are decoded as a PNG image.
pub fn retrieved_maps(path: &str, last_modified: Option<&str>, now: i64, bytes: &[u8]) -> (r:
    Result<RetrievedMaps, Error>)
    ensures
        retrieval_outcome(
            path@,
            match last_modified {
                Some(h) => Some(h@),
                None => None,
            },
            now as int,
            bytes@,
            r,
        ),
{
    let mtime = match last_modified {
        Some(header) => match parse_rfc2822(header) {
            Ok(t) => t,
            Err(err) => {
                return Err(Error::ChronoParse(err));
            },
        },
        None => now,
    };
    let stamp = match image_path_timestamp(path) {
        Some(t) => t,
        None => {
            return Err(Error::InvalidImagePath(path.to_owned()));
        },
    };
    let timestamp_base = match parse_compact_utc(stamp) {
        Ok(t) => t,
        Err(err) => {
            return Err(Error::ChronoParse(err));
        },
    };
    let (width, height, rgba) = match decode_png(bytes) {
        Ok(decoded) => decoded,
        Err(err) => {
            return Err(Error::Image(err));
        },
    };
    match Raster::from_rgba(width, height, &rgba) {
        Some(image) => Ok(RetrievedMaps { image, mtime, timestamp_base }),
        None => Err(Error::InvalidImageData),
    }
}

/// Encodes an image as PNG image data.
///
/// Encoding succeeds for every image with a nonzero width and height.
pub fn encode_map(image: &Raster) -> (r: Result<Vec<u8>, Error>)
    requires
        image.wf(),
    ensures
        match r {
            Ok(bytes) => bytes@ == png_encoding(
                image.width as int,
                image.height as int,
                rgba_bytes(image.pixels@),
            ),
            Err(Error::Image(_)) => image.width == 0 || image.height == 0,
            Err(_) => false,
        },
{
    match encode_png(image) {
        Ok(bytes) => Ok(bytes),
        Err(err) => Err(Error::Image(err)),
    }
}

} // verus!
