//! Reading 24-bit BMP files into RGB pixel data.
use vstd::prelude::*;
use vstd::arithmetic::div_mod::lemma_fundamental_div_mod_converse;

verus! {

/// The little-endian 32-bit number stored at `data[o..o + 4]`.
pub open spec fn le_u32(data: Seq<u8>, o: int) -> int {
    data[o] + data[o + 1] * 256 + data[o + 2] * 65536 + data[o + 3] * 16777216
}

/// The little-endian 16-bit number stored at `data[o..o + 2]`.
pub open spec fn le_u16(data: Seq<u8>, o: int) -> int {
    data[o] + data[o + 1] * 256
}

/// Width in pixels, from the header.
pub open spec fn bmp_width(data: Seq<u8>) -> int {
    le_u32(data, 18)
}

/// Height in pixels, from the header.
pub open spec fn bmp_height(data: Seq<u8>) -> int {
    le_u32(data, 22)
}

/// Bits per pixel, from the header.
pub open spec fn bmp_bits_per_pixel(data: Seq<u8>) -> int {
    le_u16(data, 28)
}

/// Offset of the pixel array, from the header.
pub open spec fn bmp_data_offset(data: Seq<u8>) -> int {
    le_u32(data, 10)
}

/// Bytes per stored row: three per pixel, rounded up to a multiple of four.
pub open spec fn bmp_row_stride(width: int) -> int {
    ((width * 3 + 3) / 4) * 4
}

/// Whether `data` has the size of a BMP header and says it holds 24-bit pixels.
pub open spec fn bmp_header_accepted(data: Seq<u8>) -> bool {
    data.len() >= 54 && bmp_bits_per_pixel(data) == 24
}

/// The inputs the reader handles: for a header it accepts, the pixel array
/// starts within the file and, where there is at least one row, the row
/// stride and every row offset fit in 32 bits.
pub open spec fn bmp_supported(data: Seq<u8>) -> bool {
    bmp_header_accepted(data) ==> {
        &&& bmp_data_offset(data) <= data.len()
        &&& (bmp_height(data) > 0 ==> {
            &&& bmp_width(data) * 3 + 3 <= u32::MAX
            &&& (bmp_height(data) - 1) * bmp_row_stride(bmp_width(data)) <= u32::MAX
        })
    }
}

/// How many of the first `width` pixels of the row at `row_off` lie wholly
/// inside `img`.
pub open spec fn row_pixels_present(img: Seq<u8>, row_off: int, width: int) -> int {
    if row_off + 3 <= img.len() {
        let avail = (img.len() - row_off) / 3;
        if width <= avail {
            width
        } else {
            avail
        }
    } else {
        0
    }
}

/// The row at `row_off` as RGB bytes: pixel `x` is stored as blue, green,
/// red at `row_off + 3x`; pixels that run past the end of `img` are left out.
pub open spec fn bmp_row(img: Seq<u8>, row_off: int, width: int) -> Seq<u8> {
    Seq::new(
        (3 * row_pixels_present(img, row_off, width)) as nat,
        |i: int| img[row_off + 3 * (i / 3) + 2 - i % 3],
    )
}

/// The first `rows` stored rows, in file order, each converted by `bmp_row`.
pub open spec fn bmp_rows(img: Seq<u8>, width: int, stride: int, rows: int) -> Seq<u8>
    decreases rows,
{
    if rows <= 0 {
        Seq::empty()
    } else {
        bmp_rows(img, width, stride, rows - 1) + bmp_row(img, (rows - 1) * stride, width)
    }
}

/// What `parse_bmp` returns: `None` unless the file is at least 54 bytes
/// and 24-bit; otherwise width, height and the RGB bytes of every row.
pub open spec fn parsed_bmp(data: Seq<u8>) -> Option<(u32, u32, Seq<u8>)> {
    if !bmp_header_accepted(data) {
        None
    } else {
        let w = bmp_width(data);
        let h = bmp_height(data);
        let img = data.subrange(bmp_data_offset(data), data.len() as int);
        Some((w as u32, h as u32, bmp_rows(img, w, bmp_row_stride(w), h)))
    }
}

fn read_le_u32(data: &[u8], o: usize) -> (v: u32)
    requires
        o + 4 <= data.len(),
    ensures
        v == le_u32(data@, o as int),
{
    data[o] as u32 + data[o + 1] as u32 * 256 + data[o + 2] as u32 * 65536 + data[o + 3] as u32
        * 16777216
}

/// Whether `parse_bmp` handles `data` (see `bmp_supported`).
pub fn bmp_is_supported(data: &[u8]) -> (ok: bool)
    ensures
        ok == bmp_supported(data@),
{
    if data.len() < 54 {
        return true;
    }
    let bpp: u32 = data[28] as u32 + data[29] as u32 * 256;
    if bpp != 24 {
        return true;
    }
    let width = read_le_u32(data, 18) as u64;
    let height = read_le_u32(data, 22) as u64;
    let offset = read_le_u32(data, 10) as u64;
    if offset > data.len() as u64 {
        return false;
    }
    if height > 0 {
        if width * 3 + 3 > 0xffff_ffff {
            return false;
        }
        let stride: u64 = ((width * 3 + 3) / 4) * 4;
        proof {
            assert((height - 1) * stride <= 0xffff_ffffu64 * 0xffff_ffffu64) by (nonlinear_arith)
                requires
                    height <= 0xffff_ffffu64,
                    stride <= 0xffff_ffffu64,
                    height > 0,
            ;
        }
        if (height - 1) * stride > 0xffff_ffff {
            return false;
        }
    }
    true
}

proof fn lemma_row_step(img: Seq<u8>, off: int, x: int)
    requires
        0 <= off,
        0 <= x,
    ensures
        bmp_row(img, off, x + 1) == bmp_row(img, off, x) + if off + 3 * x + 3 <= img.len() {
            seq![img[off + 3 * x + 2], img[off + 3 * x + 1], img[off + 3 * x]]
        } else {
            Seq::<u8>::empty()
        },
{
    let n0 = row_pixels_present(img, off, x);
    let n1 = row_pixels_present(img, off, x + 1);
    let tail = if off + 3 * x + 3 <= img.len() {
        seq![img[off + 3 * x + 2], img[off + 3 * x + 1], img[off + 3 * x]]
    } else {
        Seq::<u8>::empty()
    };
    if off + 3 <= img.len() {
        let avail = (img.len() - off) / 3;
        lemma_fundamental_div_mod_converse(img.len() - off, 3, avail, (img.len() - off) % 3);
        if off + 3 * x + 3 <= img.len() {
            assert(n0 == x && n1 == x + 1);
        } else {
            assert(n0 == n1);
        }
    } else {
        assert(n0 == 0 && n1 == 0);
    }
    let lhs = bmp_row(img, off, x + 1);
    let rhs = bmp_row(img, off, x) + tail;
    assert forall|i: int| 0 <= i < lhs.len() implies lhs[i] == rhs[i] by {
        if i >= 3 * n0 {
            lemma_fundamental_div_mod_converse(i, 3, x, i - 3 * x);
        }
    }
    assert(lhs =~= rhs);
}

/// Reads a 24-bit BMP: width, height and the pixels as RGB bytes, rows in
/// the order they are stored.  `None` for files shorter than a header or
/// with another bit depth.
pub fn parse_bmp(data: &[u8]) -> (res: Option<(u32, u32, Vec<u8>)>)
    requires
        bmp_supported(data@),
    ensures
        match (res, parsed_bmp(data@)) {
            (None, None) => true,
            (Some((w, h, px)), Some((sw, sh, spx))) => w == sw && h == sh && px@ == spx,
            _ => false,
        },
{
    if data.len() < 54 {
        return None;
    }
    let width = read_le_u32(data, 18);
    let height = read_le_u32(data, 22);
    let bpp: u16 = data[28] as u16 + data[29] as u16 * 256;
    if bpp != 24 {
        return None;
    }
    let data_offset = read_le_u32(data, 10);
    if height == 0 {
        let pixels: Vec<u8> = Vec::new();
        proof {
            assert(pixels@ =~= Seq::<u8>::empty());
        }
        return Some((width, height, pixels));
    }
    let ghost img = data@.subrange(data_offset as int, data@.len() as int);
    let img_len: u64 = (data.len() - data_offset as usize) as u64;
    let raw_stride: u32 = width * 3 + 3;
    let stride: u32 = raw_stride & !3u32;
    proof {
        assert(raw_stride & !3u32 == (raw_stride / 4) * 4) by (bit_vector);
    }
    let mut pixels: Vec<u8> = Vec::new();
    let mut y: u32 = 0;
    while y < height
        invariant
            data_offset as int == bmp_data_offset(data@),
            data_offset <= data.len(),
            img == data@.subrange(data_offset as int, data@.len() as int),
            img_len == img.len(),
            width as int == bmp_width(data@),
            height as int == bmp_height(data@),
            stride as int == bmp_row_stride(width as int),
            width * 3 + 3 <= u32::MAX,
            height > 0 ==> (height - 1) * stride <= u32::MAX,
            y <= height,
            pixels@ == bmp_rows(img, width as int, stride as int, y as int),
        decreases height - y,
    {
        proof {
            assert(y * stride <= (height - 1) * stride) by (nonlinear_arith)
                requires
                    y < height,
            ;
        }
        let row_offset: u32 = y * stride;
        let ghost before = pixels@;
        let mut x: u32 = 0;
        while x < width
            invariant
                data_offset <= data.len(),
                img == data@.subrange(data_offset as int, data@.len() as int),
                img_len == img.len(),
                x <= width,
                width * 3 + 3 <= u32::MAX,
                pixels@ == before + bmp_row(img, row_offset as int, x as int),
            decreases width - x,
        {
            let pixel_offset: u64 = row_offset as u64 + (x * 3) as u64;
            proof {
                lemma_row_step(img, row_offset as int, x as int);
            }
            if pixel_offset + 3 <= img_len {
                let p: usize = data_offset as usize + pixel_offset as usize;
                let b = data[p];
                let g = data[p + 1];
                let r = data[p + 2];
                pixels.push(r);
                pixels.push(g);
                pixels.push(b);
                proof {
                    assert(pixels@ =~= before + bmp_row(img, row_offset as int, x + 1));
                }
            } else {
                proof {
                    assert(pixels@ =~= before + bmp_row(img, row_offset as int, x + 1));
                }
            }
            x = x + 1;
        }
        y = y + 1;
    }
    Some((width, height, pixels))
}

} // verus!
