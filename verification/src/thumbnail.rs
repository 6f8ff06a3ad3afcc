use crate::buffer::{flat_buffer, outcome, BufferView, ImflowImageBuffer};
use crate::codec::{
    load_heif, plane_outcome, ImageSource, RawPixels, THUMBNAIL_HEIGHT, THUMBNAIL_WIDTH,
};
use crate::error::ImflowError;
use crate::format::ImageFormat;
use crate::identity::ImageData;
use crate::trusted::{decode_rgba, nearest_resized, resize_nearest};
use vstd::prelude::*;

verus! {

/// Whether `width` by `height` is a thumbnail size for a source of
/// `source_width` by `source_height`: within the thumbnail bounds, and with
/// the source's aspect ratio, each side being within a pixel of
/// the exact proportional size.
pub open spec fn fits_thumbnail(
    source_width: int,
    source_height: int,
    width: int,
    height: int,
) -> bool {
    &&& 1 <= width <= THUMBNAIL_WIDTH
    &&& 1 <= height <= THUMBNAIL_HEIGHT
    &&& width * source_height - height * source_width <= source_width + source_height
    &&& height * source_width - width * source_height <= source_width + source_height
}

/// What a resized image becomes: a thumbnail where its size fits, else a
/// decode failure.
pub open spec fn resized_outcome(
    source_width: int,
    source_height: int,
    width: int,
    height: int,
    rgba: Seq<u8>,
    rating: int,
) -> Result<BufferView, ImflowError> {
    if fits_thumbnail(source_width, source_height, width, height) {
        flat_buffer(width, height, rgba, rating)
    } else {
        Err(ImflowError::DecodeFailure)
    }
}

/// Whether an image of this width can be scaled on this machine: the
/// scaling holds it at its old width and the thumbnail's height with
/// sixteen bytes to a pixel.
pub open spec fn scalable(width: int) -> bool {
    16 * width * THUMBNAIL_HEIGHT <= isize::MAX
}

/// What a decoded image becomes: it is scaled to fit the thumbnail bounds,
/// unless it has no pixels, its bytes are not four for each pixel, or it is
/// too wide to be scaled.
pub open spec fn decoded_outcome(
    width: int,
    height: int,
    rgba: Seq<u8>,
    rating: int,
) -> Result<BufferView, ImflowError> {
    if width == 0 || height == 0 || rgba.len() != 4 * width * height || !scalable(width) {
        Err(ImflowError::DecodeFailure)
    } else {
        let resized = nearest_resized(
            width,
            height,
            rgba,
            THUMBNAIL_WIDTH as int,
            THUMBNAIL_HEIGHT as int,
        );
        resized_outcome(width, height, resized.0 as int, resized.1 as int, resized.2, rating)
    }
}

/// Accepts the result of scaling a `source_width` by `source_height` image
/// down to a thumbnail: it must lie within 640 by 480, keep the aspect
/// ratio, and hold four bytes for each pixel.
pub fn thumbnail_from_resized(
    source_width: u32,
    source_height: u32,
    resized: &RawPixels,
    rating: i32,
) -> (r: Result<ImflowImageBuffer, ImflowError>)
    ensures
        outcome(r) == resized_outcome(
            source_width as int,
            source_height as int,
            resized.width as int,
            resized.height as int,
            resized.rgba@,
            rating as int,
        ),
        r is Ok ==> r->Ok_0@.complete(),
{
    let width = resized.width;
    let height = resized.height;
    if width < 1 || width > THUMBNAIL_WIDTH || height < 1 || height > THUMBNAIL_HEIGHT {
        return Err(ImflowError::DecodeFailure);
    }
    assert(0 <= width * source_height <= 640 * 0xffff_ffff) by (nonlinear_arith)
        requires
            0 <= width <= 640,
            0 <= source_height <= 0xffff_ffff,
    ;
    assert(0 <= height * source_width <= 480 * 0xffff_ffff) by (nonlinear_arith)
        requires
            0 <= height <= 480,
            0 <= source_width <= 0xffff_ffff,
    ;
    let across: i64 = width as i64 * source_height as i64;
    let down: i64 = height as i64 * source_width as i64;
    let slack: i64 = source_width as i64 + source_height as i64;
    if across - down > slack || down - across > slack {
        return Err(ImflowError::DecodeFailure);
    }
    ImflowImageBuffer::from_rgba(width as usize, height as usize, resized.rgba.as_slice(), rating)
}

/// Scales a decoded image down to a thumbnail. An image without pixels, or
/// whose bytes are not four for each pixel, is refused; so is one too wide
/// to be scaled on this machine, and a result that
/// [`thumbnail_from_resized`] does not accept.
pub fn thumbnail_of_decoded(decoded: RawPixels, rating: i32) -> (r: Result<
    ImflowImageBuffer,
    ImflowError,
>)
    ensures
        outcome(r) == decoded_outcome(
            decoded.width as int,
            decoded.height as int,
            decoded.rgba@,
            rating as int,
        ),
        r is Err ==> r->Err_0 == ImflowError::DecodeFailure,
        r is Ok ==> r->Ok_0@.complete() && r->Ok_0@.rating == rating && fits_thumbnail(
            decoded.width as int,
            decoded.height as int,
            r->Ok_0@.width as int,
            r->Ok_0@.height as int,
        ),
{
    let source_width = decoded.width;
    let source_height = decoded.height;
    assert(0 <= source_width * source_height <= 0xffff_ffff * 0xffff_ffff) by (nonlinear_arith)
        requires
            0 <= source_width <= 0xffff_ffff,
            0 <= source_height <= 0xffff_ffff,
    ;
    assert(4 * source_width * source_height == 4 * (source_width * source_height))
        by (nonlinear_arith);
    let count: u64 = source_width as u64 * source_height as u64;
    let len: usize = decoded.rgba.len();
    if source_width == 0 || source_height == 0 || len % 4 != 0 || (len / 4) as u64 != count {
        return Err(ImflowError::DecodeFailure);
    }
    if source_width as u64 * 16 * THUMBNAIL_HEIGHT as u64 > isize::MAX as u64 {
        return Err(ImflowError::DecodeFailure);
    }
    let (width, height, rgba) = resize_nearest(
        source_width,
        source_height,
        decoded.rgba,
        THUMBNAIL_WIDTH,
        THUMBNAIL_HEIGHT,
    );
    let resized = RawPixels { width, height, rgba };
    thumbnail_from_resized(source_width, source_height, &resized, rating)
}

/// Makes a thumbnail from the preview embedded in an image's metadata,
/// at the size the preview has.
pub fn load_thumbnail_exif(preview: &[u8], rating: i32) -> (r: Result<
    ImflowImageBuffer,
    ImflowError,
>)
    ensures
        r is Err ==> r->Err_0 == ImflowError::DecodeFailure,
        r is Ok ==> r->Ok_0@.complete() && r->Ok_0@.rating == rating,
{
    match decode_rgba(preview) {
        Some((width, height, rgba)) => ImflowImageBuffer::from_rgba(
            width as usize,
            height as usize,
            rgba.as_slice(),
            rating,
        ),
        None => Err(ImflowError::DecodeFailure),
    }
}

/// Makes a thumbnail from the whole file: decodes it and scales the result
/// down so that it lies within 640 by 480 with its aspect ratio kept.
pub fn load_thumbnail_full(file: &[u8], rating: i32) -> (r: Result<ImflowImageBuffer, ImflowError>)
    ensures
        r is Err ==> r->Err_0 == ImflowError::DecodeFailure,
        r is Ok ==> r->Ok_0@.complete() && r->Ok_0@.rating == rating,
        r is Ok ==> 1 <= r->Ok_0@.width <= THUMBNAIL_WIDTH && 1 <= r->Ok_0@.height
            <= THUMBNAIL_HEIGHT,
{
    match decode_rgba(file) {
        Some((width, height, rgba)) => thumbnail_of_decoded(
            RawPixels { width, height, rgba },
            rating,
        ),
        None => Err(ImflowError::DecodeFailure),
    }
}

/// Makes the thumbnail of `image` from what was read for it: for HEIF from
/// the plane that the codec scaled, else from the embedded preview, else
/// from the whole file. A source of another kind is a decode failure.
pub fn load_thumbnail(image: &ImageData, source: &ImageSource, rating: i32) -> (r: Result<
    ImflowImageBuffer,
    ImflowError,
>)
    ensures
        r is Err ==> r->Err_0 == ImflowError::DecodeFailure,
        r is Ok ==> r->Ok_0@.complete() && r->Ok_0@.rating == rating,
        image.format == ImageFormat::Heif ==> outcome(r) == plane_outcome(
            *source,
            true,
            rating as int,
        ),
        image.format != ImageFormat::Heif && (source is Pixels || source is Plane) ==> r is Err,
        image.format != ImageFormat::Heif && source is File && r is Ok ==> 1 <= r->Ok_0@.width
            <= THUMBNAIL_WIDTH && 1 <= r->Ok_0@.height <= THUMBNAIL_HEIGHT,
{
    if image.format == ImageFormat::Heif {
        return match source {
            ImageSource::Plane(plane) => load_heif(plane, true, rating),
            _ => Err(ImflowError::DecodeFailure),
        };
    }
    match source {
        ImageSource::Preview(preview) => load_thumbnail_exif(preview.as_slice(), rating),
        ImageSource::File(file) => load_thumbnail_full(file.as_slice(), rating),
        _ => Err(ImflowError::DecodeFailure),
    }
}

} // verus!
