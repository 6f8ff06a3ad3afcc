use vstd::prelude::*;

verus! {

/// What can go wrong while acquiring an image or changing its rating.
#[derive(Clone, Copy, Debug, PartialEq, Eq, Hash, Structural)]
pub enum ImflowError {
    /// The file could not be read.
    IoFailure,
    /// The metadata container could not be read, or the tag is absent.
    MetadataFailure,
    /// The bitstream is malformed or not supported for the declared format.
    DecodeFailure,
    /// The extension names no supported format.
    UnsupportedFormat,
    /// A rating could not be saved to the file.
    PersistFailure,
    /// The catalog holds no image, so there is nothing to navigate.
    EmptyCatalog,
}

} // verus!
