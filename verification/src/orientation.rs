use vstd::prelude::*;

verus! {

/// The transform that presents an image upright, as its EXIF tag gives it.
#[derive(Clone, Copy, Debug, PartialEq, Eq, Hash, Structural)]
pub enum Orientation {
    /// Leave the image as it is.
    NoTransforms,
    /// Rotate by 90 degrees clockwise.
    Rotate90,
    /// Rotate by 180 degrees.
    Rotate180,
    /// Rotate by 270 degrees clockwise.
    Rotate270,
    /// Mirror left to right.
    FlipHorizontal,
    /// Mirror top to bottom.
    FlipVertical,
    /// Rotate by 90 degrees clockwise, then mirror left to right.
    Rotate90FlipH,
    /// Rotate by 270 degrees clockwise, then mirror left to right.
    Rotate270FlipH,
}

/// The orientation that an EXIF tag value stands for; none outside 1 to 8.
pub open spec fn orientation_of_exif(tag: u8) -> Option<Orientation> {
    if tag == 1 {
        Some(Orientation::NoTransforms)
    } else if tag == 2 {
        Some(Orientation::FlipHorizontal)
    } else if tag == 3 {
        Some(Orientation::Rotate180)
    } else if tag == 4 {
        Some(Orientation::FlipVertical)
    } else if tag == 5 {
        Some(Orientation::Rotate90FlipH)
    } else if tag == 6 {
        Some(Orientation::Rotate90)
    } else if tag == 7 {
        Some(Orientation::Rotate270FlipH)
    } else if tag == 8 {
        Some(Orientation::Rotate270)
    } else {
        None
    }
}

/// Whether applying `o` exchanges width and height.
pub open spec fn swaps_dimensions(o: Orientation) -> bool {
    o == Orientation::Rotate90 || o == Orientation::Rotate270 || o == Orientation::Rotate90FlipH
        || o == Orientation::Rotate270FlipH
}

/// The width of a `width` by `height` image after `o` is applied.
pub open spec fn oriented_width(o: Orientation, width: int, height: int) -> int {
    if swaps_dimensions(o) {
        height
    } else {
        width
    }
}

/// The height of a `width` by `height` image after `o` is applied.
pub open spec fn oriented_height(o: Orientation, width: int, height: int) -> int {
    if swaps_dimensions(o) {
        width
    } else {
        height
    }
}

/// The column and row, in a `width` by `height` image, of the pixel that
/// stands at column `x` and row `y` once `o` is applied.
pub open spec fn source_pixel(o: Orientation, width: int, height: int, x: int, y: int) -> (
    int,
    int,
) {
    match o {
        Orientation::NoTransforms => (x, y),
        Orientation::Rotate90 => (y, height - 1 - x),
        Orientation::Rotate180 => (width - 1 - x, height - 1 - y),
        Orientation::Rotate270 => (width - 1 - y, x),
        Orientation::FlipHorizontal => (width - 1 - x, y),
        Orientation::FlipVertical => (x, height - 1 - y),
        Orientation::Rotate90FlipH => (y, x),
        Orientation::Rotate270FlipH => (width - 1 - y, height - 1 - x),
    }
}

/// The RGBA bytes of a `width` by `height` image after `o` is applied: each
/// pixel of the result is the source pixel that [`source_pixel`] names.
pub open spec fn oriented(rgba: Seq<u8>, width: int, height: int, o: Orientation) -> Seq<u8> {
    Seq::new(
        rgba.len(),
        |i: int|
            {
                let pixel = i / 4;
                let columns = oriented_width(o, width, height);
                let from = source_pixel(o, width, height, pixel % columns, pixel / columns);
                rgba[4 * (from.1 * width + from.0) + i % 4]
            },
    )
}

/// Every pixel of the upright image comes from within the source image.
pub proof fn lemma_source_pixel_in_image(o: Orientation, width: int, height: int, x: int, y: int)
    requires
        0 <= x < oriented_width(o, width, height),
        0 <= y < oriented_height(o, width, height),
    ensures
        0 <= source_pixel(o, width, height, x, y).0 < width,
        0 <= source_pixel(o, width, height, x, y).1 < height,
{
}

/// Turning an image keeps the number of its bytes, and exchanges width and
/// height for the quarter turns only.
pub proof fn lemma_oriented_size(rgba: Seq<u8>, width: int, height: int, o: Orientation)
    ensures
        oriented(rgba, width, height, o).len() == rgba.len(),
        swaps_dimensions(o) ==> oriented_width(o, width, height) == height && oriented_height(
            o,
            width,
            height,
        ) == width,
        !swaps_dimensions(o) ==> oriented_width(o, width, height) == width && oriented_height(
            o,
            width,
            height,
        ) == height,
        oriented_width(o, width, height) * oriented_height(o, width, height) == width * height,
{
    assert(width * height == height * width) by (nonlinear_arith);
}

/// Leaving an image as it is keeps every byte.
pub proof fn lemma_no_transform(rgba: Seq<u8>, width: int, height: int)
    requires
        width >= 0,
        height >= 0,
        rgba.len() == 4 * width * height,
    ensures
        oriented(rgba, width, height, Orientation::NoTransforms) == rgba,
{
    let out = oriented(rgba, width, height, Orientation::NoTransforms);
    assert forall|i: int| 0 <= i < rgba.len() implies out[i] == rgba[i] by {
        let pixel = i / 4;
        assert(rgba.len() == 4 * (width * height)) by (nonlinear_arith)
            requires
                rgba.len() == 4 * width * height,
        ;
        assert(width > 0) by (nonlinear_arith)
            requires
                0 <= i < 4 * (width * height),
                width >= 0,
                height >= 0,
        ;
        assert(width * (pixel / width) + pixel % width == pixel) by {
            vstd::arithmetic::div_mod::lemma_fundamental_div_mod(pixel, width);
        }
        assert((pixel / width) * width == width * (pixel / width)) by (nonlinear_arith);
    }
    assert(out =~= rgba);
}

impl Orientation {
    /// Reads an EXIF orientation tag.
    pub fn from_exif(tag: u8) -> (r: Option<Orientation>)
        ensures
            r == orientation_of_exif(tag),
    {
        match tag {
            1 => Some(Orientation::NoTransforms),
            2 => Some(Orientation::FlipHorizontal),
            3 => Some(Orientation::Rotate180),
            4 => Some(Orientation::FlipVertical),
            5 => Some(Orientation::Rotate90FlipH),
            6 => Some(Orientation::Rotate90),
            7 => Some(Orientation::Rotate270FlipH),
            8 => Some(Orientation::Rotate270),
            _ => None,
        }
    }

    /// The EXIF tag value of this orientation.
    pub fn to_exif(self) -> (tag: u8)
        ensures
            1 <= tag <= 8,
            orientation_of_exif(tag) == Some(self),
    {
        match self {
            Orientation::NoTransforms => 1,
            Orientation::FlipHorizontal => 2,
            Orientation::Rotate180 => 3,
            Orientation::FlipVertical => 4,
            Orientation::Rotate90FlipH => 5,
            Orientation::Rotate90 => 6,
            Orientation::Rotate270FlipH => 7,
            Orientation::Rotate270 => 8,
        }
    }

    /// Whether applying this orientation exchanges width and height.
    pub fn swaps(self) -> (r: bool)
        ensures
            r == swaps_dimensions(self),
    {
        match self {
            Orientation::Rotate90 | Orientation::Rotate270 | Orientation::Rotate90FlipH
            | Orientation::Rotate270FlipH => true,
            _ => false,
        }
    }
}

/// The orientation to use for a tag that may be missing or unknown: the
/// image is then left as it is.
pub open spec fn orientation_or_default(tag: Option<u8>) -> Orientation {
    match tag {
        Some(t) => match orientation_of_exif(t) {
            Some(o) => o,
            None => Orientation::NoTransforms,
        },
        None => Orientation::NoTransforms,
    }
}

/// The orientation to use for an image whose tag is `tag`, where a missing
/// or unknown tag means that the image is left as it is.
pub fn get_orientation(tag: Option<u8>) -> (r: Orientation)
    ensures
        r == orientation_or_default(tag),
{
    match tag {
        Some(t) => match Orientation::from_exif(t) {
            Some(o) => o,
            None => Orientation::NoTransforms,
        },
        None => Orientation::NoTransforms,
    }
}

/// The dimensions of an image after `orientation` is applied: exchanged for
/// the quarter-turn orientations, unchanged for all others.
pub fn swap_wh<T>(width: T, height: T, orientation: Orientation) -> (r: (T, T))
    ensures
        swaps_dimensions(orientation) ==> r == (height, width),
        !swaps_dimensions(orientation) ==> r == (width, height),
{
    if orientation.swaps() {
        return (height, width);
    }
    (width, height)
}

} // verus!
