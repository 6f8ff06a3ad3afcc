use crate::error::ImflowError;
use vstd::arithmetic::div_mod::lemma_fundamental_div_mod_converse;
use vstd::prelude::*;

verus! {

/// One pixel word: red in the lowest byte, then green, blue, and alpha in
/// the highest.
pub open spec fn pack_pixel(r: u8, g: u8, b: u8, a: u8) -> u32 {
    (r as int + 256 * (g as int) + 65536 * (b as int) + 16777216 * (a as int)) as u32
}

/// The pixel word made of the four bytes of `bytes` that start at `at`.
pub open spec fn pixel_at(bytes: Seq<u8>, at: int) -> u32 {
    pack_pixel(bytes[at], bytes[at + 1], bytes[at + 2], bytes[at + 3])
}

/// The pixel words of a flat RGBA byte buffer, four bytes to a pixel.
pub open spec fn packed(bytes: Seq<u8>) -> Seq<u32> {
    Seq::new((bytes.len() / 4) as nat, |i: int| pixel_at(bytes, 4 * i))
}

/// Whether a plane of `height` rows, `stride` bytes apart, each holding
/// `width` RGBA pixels, lies within `len` bytes.
pub open spec fn plane_fits(len: int, width: int, height: int, stride: int) -> bool {
    &&& width >= 1
    &&& height >= 1
    &&& stride >= 4 * width
    &&& (height - 1) * stride + 4 * width <= len
}

/// The pixel words of such a plane, row by row, without the padding that
/// follows each row.
pub open spec fn plane_pixels(bytes: Seq<u8>, width: int, height: int, stride: int) -> Seq<u32> {
    Seq::new(
        (width * height) as nat,
        |i: int| pixel_at(bytes, (i / width) * stride + 4 * (i % width)),
    )
}

/// Packs four bytes into one pixel word.
pub fn pack(r: u8, g: u8, b: u8, a: u8) -> (p: u32)
    ensures
        p == pack_pixel(r, g, b, a),
{
    let lo: u32 = r as u32 + 256 * (g as u32);
    let hi: u32 = b as u32 + 256 * (a as u32);
    lo + 65536 * hi
}

/// Packs a flat RGBA byte buffer into pixel words, four bytes to a pixel in
/// a fixed channel order. A buffer whose length is no multiple of four is
/// refused.
pub fn image_to_rgba_buffer(bytes: &[u8]) -> (r: Result<Vec<u32>, ImflowError>)
    ensures
        bytes@.len() % 4 == 0 <==> r is Ok,
        r is Ok ==> r->Ok_0@ == packed(bytes@),
        r is Err ==> r->Err_0 == ImflowError::DecodeFailure,
{
    let len: usize = bytes.len();
    if len % 4 != 0 {
        return Err(ImflowError::DecodeFailure);
    }
    let count: usize = len / 4;
    let mut out: Vec<u32> = Vec::with_capacity(count);
    let mut i: usize = 0;
    while i < count
        invariant
            len == bytes@.len(),
            count == len / 4,
            len % 4 == 0,
            i <= count,
            out@.len() == i,
            forall|j: int| 0 <= j < i ==> out@[j] == pixel_at(bytes@, 4 * j),
        decreases count - i,
    {
        let at: usize = 4 * i;
        out.push(pack(bytes[at], bytes[at + 1], bytes[at + 2], bytes[at + 3]));
        i = i + 1;
    }
    assert(out@ =~= packed(bytes@));
    Ok(out)
}

/// Packs an interleaved RGBA plane whose rows lie `stride` bytes apart,
/// leaving out the padding at the end of each row.
pub(crate) fn pack_plane(bytes: &[u8], width: usize, height: usize, stride: usize) -> (out: Vec<u32>)
    requires
        plane_fits(bytes@.len() as int, width as int, height as int, stride as int),
    ensures
        out@ == plane_pixels(bytes@, width as int, height as int, stride as int),
        out@.len() == width * height,
{
    let len: usize = bytes.len();
    let mut out: Vec<u32> = Vec::new();
    let mut y: usize = 0;
    while y < height
        invariant
            len == bytes@.len(),
            plane_fits(bytes@.len() as int, width as int, height as int, stride as int),
            y <= height,
            out@.len() == y * width,
            forall|j: int|
                0 <= j < out@.len() ==> out@[j] == pixel_at(
                    bytes@,
                    (j / (width as int)) * stride + 4 * (j % (width as int)),
                ),
        decreases height - y,
    {
        assert(0 <= y * stride && y * stride + 4 * width <= bytes@.len()) by (nonlinear_arith)
            requires
                0 <= y < height,
                stride >= 4 * width,
                width >= 1,
                (height - 1) * stride + 4 * width <= bytes@.len(),
        ;
        let row: usize = y * stride;
        let mut x: usize = 0;
        while x < width
            invariant
                len == bytes@.len(),
                plane_fits(bytes@.len() as int, width as int, height as int, stride as int),
                y < height,
                row == y * stride,
                row + 4 * width <= bytes@.len(),
                x <= width,
                out@.len() == y * width + x,
                forall|j: int|
                    0 <= j < out@.len() ==> out@[j] == pixel_at(
                        bytes@,
                        (j / (width as int)) * stride + 4 * (j % (width as int)),
                    ),
            decreases width - x,
        {
            let at: usize = row + 4 * x;
            let ghost j = out@.len() as int;
            proof {
                lemma_fundamental_div_mod_converse(j, width as int, y as int, x as int);
            }
            out.push(pack(bytes[at], bytes[at + 1], bytes[at + 2], bytes[at + 3]));
            x = x + 1;
        }
        assert((y + 1) * width == y * width + width) by (nonlinear_arith);
        y = y + 1;
    }
    assert(height * width == width * height) by (nonlinear_arith);
    assert(out@ =~= plane_pixels(bytes@, width as int, height as int, stride as int));
    out
}

} // verus!
