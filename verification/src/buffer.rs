use crate::error::ImflowError;
use crate::pixels::{image_to_rgba_buffer, pack_plane, packed, plane_fits, plane_pixels};
use vstd::prelude::*;

verus! {

/// A decoded image: its size in pixels, one packed word per pixel row by
/// row, and a copy of the rating so that showing it needs no metadata read.
pub struct ImflowImageBuffer {
    pub width: usize,
    pub height: usize,
    pub rgba_buffer: Vec<u32>,
    pub rating: i32,
}

/// What an [`ImflowImageBuffer`] holds.
pub struct BufferView {
    pub width: nat,
    pub height: nat,
    pub pixels: Seq<u32>,
    pub rating: int,
}

impl View for ImflowImageBuffer {
    type V = BufferView;

    open spec fn view(&self) -> BufferView {
        BufferView {
            width: self.width as nat,
            height: self.height as nat,
            pixels: self.rgba_buffer@,
            rating: self.rating as int,
        }
    }
}

impl BufferView {
    /// A buffer is complete when it holds one word for each pixel.
    pub open spec fn complete(self) -> bool {
        self.pixels.len() == self.width * self.height
    }

    /// The same buffer with another rating.
    pub open spec fn rated(self, rating: int) -> BufferView {
        BufferView { rating, ..self }
    }
}

/// What making a buffer came to, with the buffer as a plain value.
pub open spec fn outcome(r: Result<ImflowImageBuffer, ImflowError>) -> Result<
    BufferView,
    ImflowError,
> {
    match r {
        Ok(buffer) => Ok(buffer@),
        Err(e) => Err(e),
    }
}

/// The buffer of `width` by `height` pixels given as flat RGBA bytes, which
/// must be four for each pixel.
pub open spec fn flat_buffer(width: int, height: int, rgba: Seq<u8>, rating: int) -> Result<
    BufferView,
    ImflowError,
> {
    if rgba.len() == 4 * width * height {
        Ok(BufferView { width: width as nat, height: height as nat, pixels: packed(rgba), rating })
    } else {
        Err(ImflowError::DecodeFailure)
    }
}

/// The buffer of an interleaved plane, which must hold a pixel and lie
/// within its bytes.
pub open spec fn plane_buffer(
    width: int,
    height: int,
    stride: int,
    data: Seq<u8>,
    rating: int,
) -> Result<BufferView, ImflowError> {
    if plane_fits(data.len() as int, width, height, stride) {
        Ok(
            BufferView {
                width: width as nat,
                height: height as nat,
                pixels: plane_pixels(data, width, height, stride),
                rating,
            },
        )
    } else {
        Err(ImflowError::DecodeFailure)
    }
}

impl ImflowImageBuffer {
    /// Makes a buffer from `width` by `height` RGBA pixels given as flat
    /// bytes. The bytes must be exactly four for each pixel.
    pub fn from_rgba(width: usize, height: usize, rgba: &[u8], rating: i32) -> (r: Result<
        ImflowImageBuffer,
        ImflowError,
    >)
        ensures
            outcome(r) == flat_buffer(width as int, height as int, rgba@, rating as int),
            r is Ok ==> r->Ok_0@.complete(),
    {
        let len: usize = rgba.len();
        let fits = match width.checked_mul(height) {
            Some(count) => match count.checked_mul(4) {
                Some(bytes) => bytes == len,
                None => false,
            },
            None => false,
        };
        assert(4 * width * height == (width * height) * 4) by (nonlinear_arith);
        assert(width * height <= 4 * width * height) by (nonlinear_arith);
        if !fits {
            return Err(ImflowError::DecodeFailure);
        }
        match image_to_rgba_buffer(rgba) {
            Ok(rgba_buffer) => Ok(ImflowImageBuffer { width, height, rgba_buffer, rating }),
            Err(e) => Err(e),
        }
    }

    /// Makes a buffer from an interleaved RGBA plane whose rows lie `stride`
    /// bytes apart. The plane must hold at least one pixel and lie within
    /// the bytes given.
    pub fn from_plane(width: usize, height: usize, stride: usize, data: &[u8], rating: i32) -> (r:
        Result<ImflowImageBuffer, ImflowError>)
        ensures
            outcome(r) == plane_buffer(
                width as int,
                height as int,
                stride as int,
                data@,
                rating as int,
            ),
            r is Ok ==> r->Ok_0@.complete(),
    {
        let len: usize = data.len();
        if width == 0 || height == 0 || stride / 4 < width {
            return Err(ImflowError::DecodeFailure);
        }
        let row: usize = 4 * width;
        if len < row {
            assert((height - 1) * stride >= 0) by (nonlinear_arith)
                requires
                    height >= 1,
                    stride >= 0,
            ;
            return Err(ImflowError::DecodeFailure);
        }
        // (height - 1) * stride + row <= len, without overflow
        if (len - row) / stride < height - 1 {
            assert((height - 1) * stride > len - row) by (nonlinear_arith)
                requires
                    (len - row) / (stride as int) < height - 1,
                    stride > 0,
                    len - row >= 0,
            ;
            return Err(ImflowError::DecodeFailure);
        }
        assert((height - 1) * stride <= len - row) by (nonlinear_arith)
            requires
                (len - row) / (stride as int) >= height - 1,
                stride > 0,
                len - row >= 0,
                height >= 1,
        ;
        let rgba_buffer = pack_plane(data, width, height, stride);
        Ok(ImflowImageBuffer { width, height, rgba_buffer, rating })
    }
}

} // verus!
