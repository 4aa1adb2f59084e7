//! The calls this library makes into other crates: image encoding and
//! decoding, Base64, fresh event ids and the clock.  Each is trusted to do
//! what its contract says; everything around them is verified.
use vstd::prelude::*;

verus! {

/// A fresh random event id.
///
/// Calls `uuid::Uuid::new_v4` and formats it with `to_string`, which the
/// uuid crate writes in the hyphenated form of 36 characters.  Nothing else
/// is claimed: the value is random.
#[verifier::external_body]
pub(crate) fn new_event_id() -> (id: String)
    ensures
        id@.len() == 36,
{
    uuid::Uuid::new_v4().to_string()
}

/// Whether `t` has the shape of an RFC 3339 time stamp in UTC as chrono
/// writes it: at least 25 characters (a year of four digits or more, month,
/// day, `T`, hours, minutes, seconds), ending in the offset `+00:00`.
pub open spec fn is_utc_timestamp(t: Seq<char>) -> bool {
    &&& t.len() >= 25
    &&& t[t.len() - 6] == '+'
    &&& t[t.len() - 5] == '0'
    &&& t[t.len() - 4] == '0'
    &&& t[t.len() - 3] == ':'
    &&& t[t.len() - 2] == '0'
    &&& t[t.len() - 1] == '0'
}

/// The current time in RFC 3339 form.
///
/// Calls `chrono::Utc::now` and `to_rfc3339`.  chrono writes the date,
/// `T`, the time (with a fraction of a second only when it is not zero) and
/// the offset, which for UTC is `+00:00`; that shape is all that is claimed.
/// Which instant it names depends on the clock and is left unsaid.
#[verifier::external_body]
pub(crate) fn now_rfc3339() -> (t: String)
    ensures
        is_utc_timestamp(t@),
{
    chrono::Utc::now().to_rfc3339()
}

/// The PNG file the image crate writes for an 8-bit RGB image of the given
/// size whose samples start `pixels`, and whether writing succeeded.
pub uninterp spec fn png_encoding(width: u32, height: u32, pixels: Seq<u8>) -> (Seq<u8>, bool);

/// Encodes an RGB image as PNG.
///
/// Calls `image::RgbImage::from_raw`, which accepts a buffer holding at
/// least `width * height * 3` samples (the `requires`), then
/// `ImageBuffer::write_to` with `ImageFormat::Png` into an in-memory buffer.
/// Returns the bytes written and whether `write_to` reported success; both
/// are named by `png_encoding` and depend on the arguments alone.
#[verifier::external_body]
pub(crate) fn encode_png(width: u32, height: u32, pixels: Vec<u8>) -> (r: (Vec<u8>, bool))
    requires
        width * height * 3 <= pixels.len(),
    ensures
        (r.0@, r.1) == png_encoding(width, height, pixels@),
{
    let img = image::RgbImage::from_raw(width, height, pixels).unwrap();
    let mut buf: Vec<u8> = Vec::new();
    let ok = img.write_to(&mut std::io::Cursor::new(&mut buf), image::ImageFormat::Png).is_ok();
    (buf, ok)
}

/// What the image crate decodes `bytes` to, as an 8-bit RGB image: width,
/// height and samples row by row; `None` when it cannot decode them.
pub uninterp spec fn rgb8_decoding(bytes: Seq<u8>) -> Option<(u32, u32, Seq<u8>)>;

/// Decodes an image file of any format the image crate recognizes and
/// converts it to 8-bit RGB.
///
/// Calls `image::load_from_memory`, then `DynamicImage::to_rgb8`,
/// `ImageBuffer::dimensions` and `ImageBuffer::into_raw`.  The result is
/// named by `rgb8_decoding`.  The sample buffer holds at least
/// `width * height * 3` bytes: an `ImageBuffer` is never built over a
/// smaller one (`from_raw` refuses it, and its pixel accessors rely on it).
#[verifier::external_body]
pub(crate) fn decode_rgb8(bytes: &[u8]) -> (r: Option<(u32, u32, Vec<u8>)>)
    ensures
        match r {
            Some((w, h, p)) => rgb8_decoding(bytes@) == Some((w, h, p@)) && w * h * 3 <= p@.len(),
            None => rgb8_decoding(bytes@) is None,
        },
{
    match image::load_from_memory(bytes) {
        Ok(img) => {
            let rgb = img.to_rgb8();
            let (w, h) = rgb.dimensions();
            Some((w, h, rgb.into_raw()))
        },
        Err(_) => None,
    }
}

/// The Base64 symbol for a 6-bit value in the standard alphabet.
pub open spec fn b64_symbol(v: int) -> char {
    if v < 26 {
        ('A' as int + v) as char
    } else if v < 52 {
        ('a' as int + v - 26) as char
    } else if v < 62 {
        ('0' as int + v - 52) as char
    } else if v == 62 {
        '+'
    } else {
        '/'
    }
}

/// Standard Base64 (RFC 4648, with `=` padding) of `b`.
pub open spec fn base64_standard(b: Seq<u8>) -> Seq<char>
    decreases b.len(),
{
    if b.len() == 0 {
        Seq::empty()
    } else if b.len() == 1 {
        seq![b64_symbol(b[0] as int / 4), b64_symbol((b[0] % 4) * 16), '=', '=']
    } else if b.len() == 2 {
        seq![
            b64_symbol(b[0] as int / 4),
            b64_symbol((b[0] % 4) * 16 + b[1] / 16),
            b64_symbol((b[1] % 16) * 4),
            '=',
        ]
    } else {
        seq![
            b64_symbol(b[0] as int / 4),
            b64_symbol((b[0] % 4) * 16 + b[1] / 16),
            b64_symbol((b[1] % 16) * 4 + b[2] / 64),
            b64_symbol(b[2] as int % 64),
        ] + base64_standard(b.subrange(3, b.len() as int))
    }
}

/// Whether the Base64 text of `n` bytes has a length that fits in `usize`.
pub open spec fn base64_fits(n: int) -> bool {
    4 * ((n + 2) / 3) <= usize::MAX
}

/// Standard Base64 with padding.
///
/// Calls `base64::Engine::encode` on `base64::engine::general_purpose::STANDARD`,
/// which encodes with the RFC 4648 alphabet and `=` padding; it panics
/// when the output length overflows `usize`, which the `requires` excludes.
#[verifier::external_body]
pub(crate) fn base64_encode(bytes: &[u8]) -> (s: String)
    requires
        base64_fits(bytes@.len() as int),
    ensures
        s@ == base64_standard(bytes@),
{
    base64::Engine::encode(&base64::engine::general_purpose::STANDARD, bytes)
}

} // verus!
