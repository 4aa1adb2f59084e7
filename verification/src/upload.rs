//! Turning an uploaded file into a plate design.
//!
//! An upload arrives as a sequence of form fields.  For each field the
//! caller reports its file name (if it has one) with `begin_field`; when
//! that says so, the caller reads the field's bytes and hands them to
//! `absorb_file`.  At the end `finish` says whether the upload is a valid
//! design for the current target plate.
use vstd::prelude::*;
use vstd::arithmetic::div_mod::lemma_fundamental_div_mod_converse;
use crate::events::{ImageUploadedEvent, opt_text};
use crate::palette::{Rgb, nearest_approved, is_approved, find_closest_approved_color,
    lemma_nearest_approved_is_nearest};
use crate::wall::channel;
use crate::bmp::{parse_bmp, parsed_bmp, bmp_supported};
use crate::codec::{decode_rgb8, rgb8_decoding, new_event_id, now_rfc3339, is_utc_timestamp};

verus! {

/// `c` with ASCII upper-case letters made lower-case.
pub open spec fn ascii_lower(c: char) -> char {
    if 'A' <= c && c <= 'Z' {
        ((c as int) + 32) as char
    } else {
        c
    }
}

/// Whether `name` ends in `ext` when letters are compared without regard to
/// case.  For the extensions used here (lower-case ASCII) this is exactly
/// whether the lower-cased name ends in `ext`: no other character lower-cases
/// to one of their letters, and the only character that lower-cases to two
/// does not end in one of them.
pub open spec fn has_extension(name: Seq<char>, ext: Seq<char>) -> bool {
    &&& name.len() >= ext.len()
    &&& forall|i: int|
        0 <= i < ext.len() ==> ascii_lower(#[trigger] name[name.len() - ext.len() + i]) == ext[i]
}

/// The extension of BMP files.
pub open spec fn bmp_ext() -> Seq<char> {
    seq!['.', 'b', 'm', 'p']
}

/// The extension of PNG files.
pub open spec fn png_ext() -> Seq<char> {
    seq!['.', 'p', 'n', 'g']
}

/// Whether a file of this name is read as an image.
pub open spec fn is_image_filename(name: Seq<char>) -> bool {
    has_extension(name, bmp_ext()) || has_extension(name, png_ext())
}

fn ends_with_ci(name: &String, ext: [char; 4]) -> (r: bool)
    ensures
        r == has_extension(name@, ext@),
{
    let s = name.as_str();
    let n = s.unicode_len();
    if n < 4 {
        return false;
    }
    let mut i: usize = 0;
    while i < 4
        invariant
            n == name@.len(),
            n >= 4,
            i <= 4,
            s@ == name@,
            forall|j: int| 0 <= j < i ==> ascii_lower(#[trigger] name@[n - 4 + j]) == ext@[j],
        decreases 4 - i,
    {
        let c = s.get_char(n - 4 + i);
        let lower = if 'A' <= c && c <= 'Z' {
            ((c as u32) + 32) as u8 as char
        } else {
            c
        };
        proof {
            if 'A' <= c && c <= 'Z' {
                assert(((c as int) + 32) as char == lower);
            }
        }
        if lower != ext[i] {
            return false;
        }
        i = i + 1;
    }
    true
}

/// Whether `name` ends in `.bmp`, in any case.
pub fn is_bmp_filename(name: &String) -> (r: bool)
    ensures
        r == has_extension(name@, bmp_ext()),
{
    let ext: [char; 4] = ['.', 'b', 'm', 'p'];
    proof {
        assert(ext@ =~= bmp_ext());
    }
    ends_with_ci(name, ext)
}

/// Whether `name` ends in `.png`, in any case.
pub fn is_png_filename(name: &String) -> (r: bool)
    ensures
        r == has_extension(name@, png_ext()),
{
    let ext: [char; 4] = ['.', 'p', 'n', 'g'];
    proof {
        assert(ext@ =~= png_ext());
    }
    ends_with_ci(name, ext)
}

/// The pixel at `k` of RGB bytes `px`.
pub open spec fn pixel_at(px: Seq<u8>, k: int) -> Rgb {
    (px[3 * k], px[3 * k + 1], px[3 * k + 2])
}

/// Every whole pixel of `px` replaced by its nearest approved color; a
/// trailing partial pixel is dropped.
pub open spec fn quantized(px: Seq<u8>) -> Seq<u8> {
    Seq::new(((px.len() / 3) * 3) as nat, |i: int| channel(nearest_approved(pixel_at(px, i / 3)), i % 3))
}

/// RGB bytes made only of whole pixels in approved colors.
pub open spec fn all_approved(px: Seq<u8>) -> bool {
    &&& px.len() % 3 == 0
    &&& forall|k: int| 0 <= k < px.len() / 3 ==> is_approved(#[trigger] pixel_at(px, k))
}

/// Appends the quantized pixels of `px` to `out`.
fn append_quantized(out: &mut Vec<u8>, px: &[u8], count: usize)
    requires
        3 * count <= px.len(),
    ensures
        final(out)@ == old(out)@ + quantized(px@.take(3 * count as int)),
{
    let ghost base = old(out)@;
    let ghost src = px@.take(3 * count as int);
    let mut k: usize = 0;
    while k < count
        invariant
            k <= count,
            3 * count <= px.len(),
            src == px@.take(3 * count as int),
            out@.len() == base.len() + 3 * k,
            forall|j: int| 0 <= j < base.len() ==> #[trigger] out@[j] == base[j],
            forall|j: int|
                0 <= j < 3 * k ==> #[trigger] out@[base.len() + j] == channel(
                    nearest_approved(pixel_at(src, j / 3)),
                    j % 3,
                ),
        decreases count - k,
    {
        let c = find_closest_approved_color(px[3 * k], px[3 * k + 1], px[3 * k + 2]);
        proof {
            assert(pixel_at(src, k as int) == (px@[3 * k as int], px@[3 * k + 1], px@[3 * k + 2]));
            lemma_fundamental_div_mod_converse(3 * k as int, 3, k as int, 0);
            lemma_fundamental_div_mod_converse(3 * k as int + 1, 3, k as int, 1);
            lemma_fundamental_div_mod_converse(3 * k as int + 2, 3, k as int, 2);
        }
        out.push(c.0);
        out.push(c.1);
        out.push(c.2);
        k = k + 1;
    }
    proof {
        assert(src.len() == 3 * count);
        lemma_fundamental_div_mod_converse(src.len() as int, 3, count as int, 0);
        let q = quantized(src);
        assert forall|i: int| 0 <= i < out@.len() implies out@[i] == (base + q)[i] by {
            if i >= base.len() {
                let j = i - base.len();
                assert(out@[base.len() + j] == q[j]);
            }
        }
        assert(out@ =~= base + q);
    }
}

/// Quantized pixels are all approved colors.
pub proof fn lemma_quantized_is_approved(px: Seq<u8>)
    ensures
        all_approved(quantized(px)),
{
    let q = quantized(px);
    let n: int = px.len() as int / 3;
    lemma_fundamental_div_mod_converse(q.len() as int, 3, n, 0);
    assert forall|k: int| 0 <= k < q.len() / 3 implies is_approved(#[trigger] pixel_at(q, k)) by {
        lemma_fundamental_div_mod_converse(3 * k, 3, k, 0);
        lemma_fundamental_div_mod_converse(3 * k + 1, 3, k, 1);
        lemma_fundamental_div_mod_converse(3 * k + 2, 3, k, 2);
        lemma_nearest_approved_is_nearest(pixel_at(px, k), 0);
        assert(pixel_at(q, k) == nearest_approved(pixel_at(px, k)));
    }
}

/// Appending approved pixels to approved pixels gives approved pixels.
pub proof fn lemma_all_approved_concat(a: Seq<u8>, b: Seq<u8>)
    requires
        all_approved(a),
        all_approved(b),
    ensures
        all_approved(a + b),
{
    let c = a + b;
    let na: int = a.len() as int / 3;
    let nb: int = b.len() as int / 3;
    lemma_fundamental_div_mod_converse(a.len() as int, 3, na, 0);
    lemma_fundamental_div_mod_converse(b.len() as int, 3, nb, 0);
    lemma_fundamental_div_mod_converse(c.len() as int, 3, na + nb, 0);
    assert forall|k: int| 0 <= k < c.len() / 3 implies is_approved(#[trigger] pixel_at(c, k)) by {
        if k < na {
            assert(pixel_at(c, k) == pixel_at(a, k));
        } else {
            assert(pixel_at(c, k) == pixel_at(b, k - na));
        }
    }
}

/// What has been gathered from an upload so far.
pub struct UploadState {
    pub filename: String,
    pub pixel_data: Vec<u8>,
    pub width: u32,
    pub height: u32,
}

/// The value of an `UploadState`.
pub ghost struct UploadView {
    pub filename: Seq<char>,
    pub pixel_data: Seq<u8>,
    pub width: u32,
    pub height: u32,
}

impl View for UploadState {
    type V = UploadView;

    open spec fn view(&self) -> UploadView {
        UploadView {
            filename: self.filename@,
            pixel_data: self.pixel_data@,
            width: self.width,
            height: self.height,
        }
    }
}

/// The state after the bytes of one file field named as in `s` are read:
/// a BMP (by name) is read with `parse_bmp`, anything else with the image
/// crate; when that succeeds the size is replaced and the pixels, each
/// moved to its nearest approved color, are appended.
pub open spec fn absorbed(s: UploadView, bytes: Seq<u8>) -> UploadView {
    if has_extension(s.filename, bmp_ext()) {
        match parsed_bmp(bytes) {
            Some((w, h, px)) => UploadView {
                filename: s.filename,
                pixel_data: s.pixel_data + quantized(px),
                width: w,
                height: h,
            },
            None => s,
        }
    } else {
        match rgb8_decoding(bytes) {
            Some((w, h, raw)) => UploadView {
                filename: s.filename,
                pixel_data: s.pixel_data + quantized(raw.take(w * h * 3)),
                width: w,
                height: h,
            },
            None => s,
        }
    }
}

/// Why an upload is refused.
pub enum UploadError {
    /// No field carried a file name.
    NoFilename,
    /// The file name ends neither in `.bmp` nor in `.png`.
    NotAnImage { filename: String },
    /// The file could not be read as an image.
    Unreadable { filename: String },
    /// The image is not exactly one plate: 30 pixels wide and 900 pixels in all.
    WrongSize { width: u32, height: u32 },
    /// No target plate has been chosen yet.
    NoTarget,
}

impl UploadState {
    /// Nothing gathered yet.
    pub fn new() -> (s: UploadState)
        ensures
            s@.filename == Seq::<char>::empty(),
            s@.pixel_data == Seq::<u8>::empty(),
            s@.width == 0,
            s@.height == 0,
            all_approved(s@.pixel_data),
    {
        UploadState { filename: String::new(), pixel_data: Vec::new(), width: 0, height: 0 }
    }

    /// A new form field begins.  A file name it carries replaces the one
    /// remembered; the result says whether the field's bytes are to be read
    /// (the remembered name ends in `.bmp` or `.png`, in any case).
    pub fn begin_field(&mut self, field_filename: Option<String>) -> (read: bool)
        ensures
            final(self)@.filename == match opt_text(field_filename) {
                Some(f) => f,
                None => old(self)@.filename,
            },
            final(self)@.pixel_data == old(self)@.pixel_data,
            final(self)@.width == old(self)@.width,
            final(self)@.height == old(self)@.height,
            read == is_image_filename(final(self)@.filename),
    {
        match field_filename {
            Some(f) => {
                self.filename = f;
            },
            None => {},
        }
        is_bmp_filename(&self.filename) || is_png_filename(&self.filename)
    }

    /// The bytes of a file field whose name `begin_field` accepted.
    pub fn absorb_file(&mut self, bytes: &[u8])
        requires
            is_image_filename(old(self)@.filename),
            has_extension(old(self)@.filename, bmp_ext()) ==> bmp_supported(bytes@),
        ensures
            final(self)@ == absorbed(old(self)@, bytes@),
            all_approved(old(self)@.pixel_data) ==> all_approved(final(self)@.pixel_data),
    {
        let ghost before = self@;
        if is_bmp_filename(&self.filename) {
            match parse_bmp(bytes) {
                Some((w, h, px)) => {
                    self.width = w;
                    self.height = h;
                    let count = px.len() / 3;
                    append_quantized(&mut self.pixel_data, px.as_slice(), count);
                    proof {
                        lemma_fundamental_div_mod_converse(px@.len() as int, 3, count as int, (px@.len() % 3) as int);
                        assert(px@.take(3 * count as int).len() / 3 == count);
                        assert(quantized(px@.take(3 * count as int)) =~= quantized(px@));
                        lemma_quantized_is_approved(px@);
                        if all_approved(before.pixel_data) {
                            lemma_all_approved_concat(before.pixel_data, quantized(px@));
                        }
                    }
                },
                None => {},
            }
        } else {
            match decode_rgb8(bytes) {
                Some((w, h, raw)) => {
                    self.width = w;
                    self.height = h;
                    let rl = raw.len();
                    proof {
                        assert(w * h <= w * h * 3) by (nonlinear_arith);
                        assert(w * h <= rl);
                    }
                    let count: usize = (w as usize) * (h as usize);
                    append_quantized(&mut self.pixel_data, raw.as_slice(), count);
                    proof {
                        lemma_quantized_is_approved(raw@.take(w * h * 3));
                        if all_approved(before.pixel_data) {
                            lemma_all_approved_concat(before.pixel_data, quantized(raw@.take(w * h * 3)));
                        }
                    }
                },
                None => {},
            }
        }
    }

    /// Whether the upload is a design for the current target `target`:
    /// checked in this order, something must have been read, it must be
    /// exactly one plate (30 by 30 pixels, 900 pixels in all), and a target
    /// must exist.
    pub fn finish(&self, target: Option<(i32, i32)>) -> (r: Result<(i32, i32), UploadError>)
        ensures
            self@.pixel_data.len() == 0 ==> {
                if self@.filename.len() == 0 {
                    r matches Err(UploadError::NoFilename)
                } else if !is_image_filename(self@.filename) {
                    (r matches Err(UploadError::NotAnImage { filename }) && filename@ == self@.filename)
                } else {
                    (r matches Err(UploadError::Unreadable { filename }) && filename@ == self@.filename)
                }
            },
            self@.pixel_data.len() > 0 && (self@.width != 30 || self@.height != 30
                || self@.pixel_data.len() != 2700) ==> (
            r matches Err(UploadError::WrongSize { width, height }) && width == self@.width && height
                == self@.height),
            self@.pixel_data.len() > 0 && self@.width == 30 && self@.height == 30
                && self@.pixel_data.len() == 2700 ==> match target {
                Some(t) => r == Ok::<(i32, i32), UploadError>(t),
                None => r matches Err(UploadError::NoTarget),
            },
    {
        if self.pixel_data.len() == 0 {
            if self.filename.as_str().unicode_len() == 0 {
                return Err(UploadError::NoFilename);
            } else if !(is_bmp_filename(&self.filename) || is_png_filename(&self.filename)) {
                return Err(UploadError::NotAnImage { filename: self.filename.clone() });
            } else {
                return Err(UploadError::Unreadable { filename: self.filename.clone() });
            }
        }
        if self.width != 30 || self.height != 30 || self.pixel_data.len() != 2700 {
            return Err(UploadError::WrongSize { width: self.width, height: self.height });
        }
        match target {
            Some(t) => Ok(t),
            None => Err(UploadError::NoTarget),
        }
    }
}

/// The event recording an accepted upload for target plate `target` in
/// week `week`, with a fresh event id and the current time.
pub fn new_image_uploaded_event(state: UploadState, week: u32, target: (i32, i32)) -> (e: ImageUploadedEvent)
    ensures
        e@.week == week,
        e@.target_x == target.0,
        e@.target_y == target.1,
        e@.filename == state@.filename,
        e@.pixel_data == state@.pixel_data,
        e@.event_id.len() == 36,
        is_utc_timestamp(e@.uploaded_at),
{
    ImageUploadedEvent {
        event_id: new_event_id(),
        week,
        target_x: target.0,
        target_y: target.1,
        filename: state.filename,
        pixel_data: state.pixel_data,
        uploaded_at: now_rfc3339(),
    }
}

} // verus!
