//! The calls into the codec and iterator crates. Nothing here is proved:
//! each contract is taken from the crate's source.

use crate::orientation::{orientation_of_exif, oriented};
use itertools::Itertools;
use vstd::prelude::*;
use zune_image::codecs::jpeg::JpegDecoder;
use zune_image::codecs::qoi::zune_core::colorspace::ColorSpace;
use zune_image::codecs::qoi::zune_core::options::DecoderOptions;

verus! {

/// The width and height that the JPEG header in `file` declares, or none
/// where the decoder refuses the header.
pub uninterp spec fn jpeg_header(file: Seq<u8>) -> Option<(u16, u16)>;

/// Whether the decoder gets through the JPEG data of `file` when it is given
/// `room` bytes to decode into.
pub uninterp spec fn jpeg_decodes(file: Seq<u8>, room: int) -> bool;

/// The width, height and RGBA bytes that scaling a `width` by `height`
/// RGBA image to fit `nwidth` by `nheight` gives, by nearest neighbour.
pub uninterp spec fn nearest_resized(
    width: int,
    height: int,
    rgba: Seq<u8>,
    nwidth: int,
    nheight: int,
) -> (u32, u32, Seq<u8>);

/// Whether `before` sorts strictly ahead of `after`: character by character,
/// a proper prefix first.
pub open spec fn text_before(before: Seq<char>, after: Seq<char>) -> bool
    decreases before.len(),
{
    if after.len() == 0 {
        false
    } else if before.len() == 0 {
        true
    } else if before[0] != after[0] {
        (before[0] as u32) < (after[0] as u32)
    } else {
        text_before(before.drop_first(), after.drop_first())
    }
}

/// The order of sort keys: by text, and among equal texts by number.
pub open spec fn key_le(a: (Seq<char>, int), b: (Seq<char>, int)) -> bool {
    text_before(a.0, b.0) || (a.0 == b.0 && a.1 <= b.1)
}

/// Sort keys as plain values.
pub open spec fn key_views(keys: Seq<(String, usize)>) -> Seq<(Seq<char>, int)> {
    keys.map_values(|k: (String, usize)| (k.0@, k.1 as int))
}

/// `zune_jpeg::JpegDecoder::decode_headers` and `info`, with RGBA output
/// selected: the dimensions in the header of `file`. The contract only
/// gives the outcome its name.
#[verifier::external_body]
pub(crate) fn jpeg_info(file: &[u8]) -> (r: Option<(u16, u16)>)
    ensures
        r == jpeg_header(file@),
{
    let mut decoder = JpegDecoder::new(file);
    decoder.set_options(DecoderOptions::new_fast().jpeg_set_out_colorspace(ColorSpace::RGBA));
    decoder.decode_headers().ok()?;
    let info = decoder.info()?;
    Some((info.width, info.height))
}

/// `zune_jpeg::JpegDecoder::decode_into`, with RGBA output selected: decodes
/// `file` into `out` and says whether that succeeded. The decoder writes
/// into the slice it is given, so the length of `out` stays. Whether it
/// succeeds lies with the file and the room it is given, and the contract
/// gives that outcome its name; it picks the arithmetic for the pixels by
/// the machine, so nothing is claimed of the bytes. The header must have
/// been accepted, with dimensions whose byte count fits the machine.
#[verifier::external_body]
pub(crate) fn jpeg_decode_into(file: &[u8], out: &mut Vec<u8>) -> (ok: bool)
    requires
        jpeg_header(file@) is Some,
        4 * jpeg_header(file@)->Some_0.0 * jpeg_header(file@)->Some_0.1 <= usize::MAX,
    ensures
        final(out)@.len() == old(out)@.len(),
        ok == jpeg_decodes(file@, old(out)@.len() as int),
{
    let mut decoder = JpegDecoder::new(file);
    decoder.set_options(DecoderOptions::new_fast().jpeg_set_out_colorspace(ColorSpace::RGBA));
    decoder.decode_into(out.as_mut_slice()).is_ok()
}

/// `image::DynamicImage::apply_orientation` on an RGBA image given as flat
/// bytes, the orientation read by `image::metadata::Orientation::from_exif`.
/// The contract states the rotation or mirroring pixel by pixel.
#[verifier::external_body]
pub(crate) fn apply_exif_orientation(width: u32, height: u32, rgba: Vec<u8>, exif: u8) -> (out:
    Vec<u8>)
    requires
        1 <= exif <= 8,
        rgba@.len() == 4 * width * height,
    ensures
        out@ == oriented(rgba@, width as int, height as int, orientation_of_exif(exif)->Some_0),
{
    let orientation = ::image::metadata::Orientation::from_exif(exif).unwrap();
    let flat = ::image::RgbaImage::from_raw(width, height, rgba).unwrap();
    let mut picture = ::image::DynamicImage::from(flat);
    picture.apply_orientation(orientation);
    picture.into_rgba8().into_raw()
}

/// `image::ImageReader::decode` on bytes in memory, after
/// `with_guessed_format`: width, height and RGBA bytes, or none where the
/// format is not recognised or the data is refused. Which formats are tried
/// depends on what the process has registered, and the codecs pick their
/// arithmetic by the machine, so nothing is claimed of what comes back.
#[verifier::external_body]
pub(crate) fn decode_rgba(bytes: &[u8]) -> (r: Option<(u32, u32, Vec<u8>)>) {
    let reader = ::image::ImageReader::new(std::io::Cursor::new(bytes));
    let decoded = reader.with_guessed_format().ok()?.decode().ok()?;
    Some((decoded.width(), decoded.height(), decoded.into_rgba8().into_raw()))
}

/// `image::DynamicImage::resize` with the nearest-neighbour filter, on an
/// RGBA image given as flat bytes: width, height and RGBA bytes of the
/// result. The scaling reads nothing but its arguments; the contract only
/// gives the outcome its name. On its way the scaling holds the image at
/// its old width and new height with sixteen bytes to a pixel, which must
/// fit an allocation.
#[verifier::external_body]
pub(crate) fn resize_nearest(
    width: u32,
    height: u32,
    rgba: Vec<u8>,
    nwidth: u32,
    nheight: u32,
) -> (r: (u32, u32, Vec<u8>))
    requires
        width >= 1,
        height >= 1,
        1 <= nwidth <= 0xffff,
        1 <= nheight <= 0xffff,
        rgba@.len() == 4 * width * height,
        16 * width * nheight <= isize::MAX,
    ensures
        (r.0, r.1, r.2@) == nearest_resized(
            width as int,
            height as int,
            rgba@,
            nwidth as int,
            nheight as int,
        ),
{
    let flat = ::image::RgbaImage::from_raw(width, height, rgba).unwrap();
    let resized = ::image::DynamicImage::from(flat).resize(
        nwidth,
        nheight,
        ::image::imageops::FilterType::Nearest,
    );
    (resized.width(), resized.height(), resized.into_rgba8().into_raw())
}

/// `itertools::Itertools::sorted` on keys of a text and a number: the same
/// keys in ascending order, as `String` and tuples order them.
#[verifier::external_body]
pub(crate) fn sorted_keys(keys: Vec<(String, usize)>) -> (out: Vec<(String, usize)>)
    ensures
        key_views(out@).to_multiset() == key_views(keys@).to_multiset(),
        forall|i: int, j: int|
            0 <= i <= j < out@.len() ==> key_le(
                #[trigger] key_views(out@)[i],
                #[trigger] key_views(out@)[j],
            ),
{
    keys.into_iter().sorted().collect()
}

} // verus!
