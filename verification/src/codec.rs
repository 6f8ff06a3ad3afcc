use crate::buffer::{flat_buffer, outcome, plane_buffer, BufferView, ImflowImageBuffer};
use crate::error::ImflowError;
use crate::format::ImageFormat;
use crate::identity::ImageData;
use crate::orientation::{oriented, oriented_height, oriented_width, swap_wh, Orientation};
use crate::trusted::{
    apply_exif_orientation, jpeg_decode_into, jpeg_decodes, jpeg_header, jpeg_info,
};
use crate::pixels::packed;
use vstd::prelude::*;

verus! {

/// The widest thumbnail.
pub const THUMBNAIL_WIDTH: u32 = 640;

/// The tallest thumbnail.
pub const THUMBNAIL_HEIGHT: u32 = 480;

/// RGBA pixels as a codec hands them over: four bytes for each pixel, row
/// by row.
pub struct RawPixels {
    pub width: u32,
    pub height: u32,
    pub rgba: Vec<u8>,
}

/// The interleaved RGBA plane of a HEIF image: rows of `width` pixels that
/// lie `stride` bytes apart in `data`.
pub struct HeifPlane {
    pub width: u32,
    pub height: u32,
    pub stride: usize,
    pub data: Vec<u8>,
}

/// What was read for an image, from which its buffer is made.
pub enum ImageSource {
    /// The bytes of the file.
    File(Vec<u8>),
    /// The bytes of the preview embedded in the file's metadata.
    Preview(Vec<u8>),
    /// Pixels of a JPEG XL image.
    Pixels(RawPixels),
    /// The plane of a HEIF image, scaled to the thumbnail size where a
    /// thumbnail is asked for.
    Plane(HeifPlane),
}

/// The kinds of [`ImageSource`].
#[derive(Clone, Copy, Debug, PartialEq, Eq, Structural)]
pub enum SourceKind {
    File,
    Preview,
    Pixels,
    Plane,
}

/// The rating to show for a tag that was read: a tag that could not be read
/// counts as no rating.
pub fn get_rating(tag: Option<i32>) -> (rating: i32)
    ensures
        rating == match tag {
            Some(value) => value,
            None => 0i32,
        },
{
    match tag {
        Some(value) => value,
        None => 0,
    }
}

/// What has to be read to make the full-resolution buffer of an image.
pub open spec fn image_source_kind(format: ImageFormat) -> SourceKind {
    match format {
        ImageFormat::Jpg => SourceKind::File,
        ImageFormat::Jxl => SourceKind::Pixels,
        ImageFormat::Heif => SourceKind::Plane,
    }
}

/// What has to be read to make the thumbnail of an image: the scaled plane
/// for HEIF, else the embedded preview where one was found, else the file.
pub open spec fn thumbnail_source_kind(format: ImageFormat, preview_found: bool) -> SourceKind {
    if format == ImageFormat::Heif {
        SourceKind::Plane
    } else if preview_found {
        SourceKind::Preview
    } else {
        SourceKind::File
    }
}

/// Says what to read before [`load_image`] or (with `thumbnail` set)
/// [`load_thumbnail`] is called for `image`.
pub fn needed_source(image: &ImageData, thumbnail: bool, preview_found: bool) -> (kind: SourceKind)
    ensures
        kind == if thumbnail {
            thumbnail_source_kind(image.format, preview_found)
        } else {
            image_source_kind(image.format)
        },
{
    if thumbnail {
        if image.format == ImageFormat::Heif {
            SourceKind::Plane
        } else if preview_found {
            SourceKind::Preview
        } else {
            SourceKind::File
        }
    } else {
        match image.format {
            ImageFormat::Jpg => SourceKind::File,
            ImageFormat::Jxl => SourceKind::Pixels,
            ImageFormat::Heif => SourceKind::Plane,
        }
    }
}

/// The buffer of a `width` by `height` RGBA image once `orientation` is
/// applied.
pub open spec fn upright(
    width: int,
    height: int,
    rgba: Seq<u8>,
    orientation: Orientation,
    rating: int,
) -> BufferView {
    BufferView {
        width: oriented_width(orientation, width, height) as nat,
        height: oriented_height(orientation, width, height) as nat,
        pixels: packed(oriented(rgba, width, height, orientation)),
        rating,
    }
}

/// Turns decoded RGBA bytes upright and packs them. The quarter-turn
/// orientations exchange width and height; all others keep them. Bytes that
/// are not four for each pixel are refused.
pub fn orient_and_pack(
    width: u32,
    height: u32,
    rgba: Vec<u8>,
    orientation: Orientation,
    rating: i32,
) -> (r: Result<ImflowImageBuffer, ImflowError>)
    ensures
        rgba@.len() == 4 * width * height <==> r is Ok,
        r is Ok ==> r->Ok_0@ == upright(
            width as int,
            height as int,
            rgba@,
            orientation,
            rating as int,
        ) && r->Ok_0@.complete(),
        r is Err ==> r->Err_0 == ImflowError::DecodeFailure,
{
    assert(0 <= width * height <= 0xffff_ffff * 0xffff_ffff) by (nonlinear_arith)
        requires
            0 <= width <= 0xffff_ffff,
            0 <= height <= 0xffff_ffff,
    ;
    let count: u64 = width as u64 * height as u64;
    let len: usize = rgba.len();
    assert(4 * width * height == 4 * (width * height)) by (nonlinear_arith);
    if len % 4 != 0 || (len / 4) as u64 != count {
        return Err(ImflowError::DecodeFailure);
    }
    let turned = apply_exif_orientation(width, height, rgba, orientation.to_exif());
    let (w, h) = swap_wh(width as usize, height as usize, orientation);
    assert(4 * w * h == 4 * width * height) by (nonlinear_arith)
        requires
            (w == width && h == height) || (w == height && h == width),
    ;
    ImflowImageBuffer::from_rgba(w, h, turned.as_slice(), rating)
}

/// The buffer of JPEG XL pixels: a source of another kind is refused.
pub open spec fn pixels_outcome(source: ImageSource, rating: int) -> Result<
    BufferView,
    ImflowError,
> {
    match source {
        ImageSource::Pixels(raw) => flat_buffer(
            raw.width as int,
            raw.height as int,
            raw.rgba@,
            rating,
        ),
        _ => Err(ImflowError::DecodeFailure),
    }
}

/// The buffer of a HEIF plane, which for a thumbnail must have been scaled
/// to exactly the thumbnail size.
pub open spec fn heif_buffer(plane: HeifPlane, resize: bool, rating: int) -> Result<
    BufferView,
    ImflowError,
> {
    if resize && !(plane.width == THUMBNAIL_WIDTH && plane.height == THUMBNAIL_HEIGHT) {
        Err(ImflowError::DecodeFailure)
    } else {
        plane_buffer(
            plane.width as int,
            plane.height as int,
            plane.stride as int,
            plane.data@,
            rating,
        )
    }
}

/// The buffer of a source that must be a HEIF plane.
pub open spec fn plane_outcome(source: ImageSource, resize: bool, rating: int) -> Result<
    BufferView,
    ImflowError,
> {
    match source {
        ImageSource::Plane(plane) => heif_buffer(plane, resize, rating),
        _ => Err(ImflowError::DecodeFailure),
    }
}

/// Packs the plane of a decoded HEIF image, dropping the padding of its
/// rows. With `resize` set the plane is meant for a thumbnail and must have
/// been scaled to exactly the thumbnail size; an empty plane, or one that
/// does not lie within its bytes, is refused.
pub fn load_heif(plane: &HeifPlane, resize: bool, rating: i32) -> (r: Result<
    ImflowImageBuffer,
    ImflowError,
>)
    ensures
        outcome(r) == heif_buffer(*plane, resize, rating as int),
        r is Ok ==> r->Ok_0@.complete(),
{
    if resize && !(plane.width == THUMBNAIL_WIDTH && plane.height == THUMBNAIL_HEIGHT) {
        return Err(ImflowError::DecodeFailure);
    }
    ImflowImageBuffer::from_plane(
        plane.width as usize,
        plane.height as usize,
        plane.stride,
        plane.data.as_slice(),
        rating,
    )
}

/// Whether a JPEG file decodes: its header is accepted, four bytes for each
/// of its pixels fit an allocation, and the decoder gets through its data
/// with that much room.
pub open spec fn jpeg_decodable(file: Seq<u8>) -> bool {
    match jpeg_header(file) {
        Some(size) => 4 * size.0 * size.1 <= isize::MAX && jpeg_decodes(
            file,
            4 * size.0 * size.1,
        ),
        None => false,
    }
}

/// Decodes a JPEG file to RGBA bytes of exactly the size its header gives.
/// It succeeds on the files that decode, and on no others.
fn decode_jpeg(file: &[u8]) -> (r: Option<(u16, u16, Vec<u8>)>)
    ensures
        r is Some <==> jpeg_decodable(file@),
        r is Some ==> jpeg_header(file@) == Some((r->Some_0.0, r->Some_0.1)) && r->Some_0.2@.len()
            == 4 * r->Some_0.0 * r->Some_0.1,
{
    let (width, height) = match jpeg_info(file) {
        Some(size) => size,
        None => return None,
    };
    assert(0 <= width * height <= 0xffff * 0xffff) by (nonlinear_arith)
        requires
            0 <= width <= 0xffff,
            0 <= height <= 0xffff,
    ;
    let bytes: u64 = width as u64 * height as u64 * 4;
    assert(bytes == 4 * width * height) by (nonlinear_arith)
        requires
            bytes == width * height * 4,
    ;
    if bytes > isize::MAX as u64 {
        return None;
    }
    let mut rgba: Vec<u8> = vec![0u8; bytes as usize];
    if !jpeg_decode_into(file, &mut rgba) {
        return None;
    }
    Some((width, height, rgba))
}

/// Makes the full-resolution buffer of `image` from what was read for it.
///
/// A JPEG file is decoded here and turned upright as the image's
/// orientation says, so that a quarter turn exchanges the header's width and
/// height; this succeeds exactly on the files that decode. JPEG XL pixels
/// and a HEIF plane were decoded before and are packed as they are. A source
/// of the wrong kind for the format, and anything that does not decode, is a
/// decode failure.
pub fn load_image(image: &ImageData, source: &ImageSource, rating: i32) -> (r: Result<
    ImflowImageBuffer,
    ImflowError,
>)
    ensures
        r is Err ==> r->Err_0 == ImflowError::DecodeFailure,
        r is Ok ==> r->Ok_0@.complete() && r->Ok_0@.rating == rating,
        image.format == ImageFormat::Jpg ==> (r is Ok <==> source is File && jpeg_decodable(
            source->File_0@,
        )),
        image.format == ImageFormat::Jpg && r is Ok ==> source is File && jpeg_header(
            source->File_0@,
        ) is Some && ({
            let size = jpeg_header(source->File_0@)->Some_0;
            &&& r->Ok_0@.width == oriented_width(image.orientation, size.0 as int, size.1 as int)
            &&& r->Ok_0@.height == oriented_height(image.orientation, size.0 as int, size.1 as int)
        }),
        image.format == ImageFormat::Jxl ==> outcome(r) == pixels_outcome(*source, rating as int),
        image.format == ImageFormat::Heif ==> outcome(r) == plane_outcome(
            *source,
            false,
            rating as int,
        ),
{
    match image.format {
        ImageFormat::Heif => match source {
            ImageSource::Plane(plane) => load_heif(plane, false, rating),
            _ => Err(ImflowError::DecodeFailure),
        },
        ImageFormat::Jxl => match source {
            ImageSource::Pixels(raw) => ImflowImageBuffer::from_rgba(
                raw.width as usize,
                raw.height as usize,
                raw.rgba.as_slice(),
                rating,
            ),
            _ => Err(ImflowError::DecodeFailure),
        },
        ImageFormat::Jpg => match source {
            ImageSource::File(file) => match decode_jpeg(file.as_slice()) {
                Some((width, height, rgba)) => orient_and_pack(
                    width as u32,
                    height as u32,
                    rgba,
                    image.orientation,
                    rating,
                ),
                None => Err(ImflowError::DecodeFailure),
            },
            _ => Err(ImflowError::DecodeFailure),
        },
    }
}

} // verus!
