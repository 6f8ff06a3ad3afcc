use crate::format::ImageFormat;
use crate::orientation::Orientation;
use vstd::prelude::*;
use vstd::string::*;

verus! {

/// One image of the catalog: where it lies, what format its extension
/// declares, whether its metadata carries an embedded preview, and how it is
/// to be turned upright. Made once per file by the catalog scan and never
/// changed; the caches are keyed by it.
#[derive(Debug, PartialEq, Eq, Hash)]
pub struct ImageData {
    pub path: String,
    pub format: ImageFormat,
    pub embedded_thumbnail: bool,
    pub orientation: Orientation,
}

/// What an [`ImageData`] stands for: two of them name the same image exactly
/// when these values are equal.
pub struct ImageIdentity {
    pub path: Seq<char>,
    pub format: ImageFormat,
    pub embedded_thumbnail: bool,
    pub orientation: Orientation,
}

impl View for ImageData {
    type V = ImageIdentity;

    open spec fn view(&self) -> ImageIdentity {
        ImageIdentity {
            path: self.path@,
            format: self.format,
            embedded_thumbnail: self.embedded_thumbnail,
            orientation: self.orientation,
        }
    }
}

impl Clone for ImageData {
    fn clone(&self) -> (r: Self)
        ensures
            r@ == self@,
    {
        ImageData {
            path: self.path.clone(),
            format: self.format,
            embedded_thumbnail: self.embedded_thumbnail,
            orientation: self.orientation,
        }
    }
}

/// Where the file name starts in a path: behind its last separator, or at
/// the front where it has none.
pub open spec fn name_start(path: Seq<char>) -> int
    decreases path.len(),
{
    if path.len() == 0 {
        0
    } else if path.last() == '/' {
        path.len() as int
    } else {
        name_start(path.drop_last())
    }
}

/// The file name of a path: what follows its last separator.
pub open spec fn file_name_of(path: Seq<char>) -> Seq<char> {
    path.subrange(name_start(path), path.len() as int)
}

/// The file name holds no separator, and a separator stands right before
/// it unless it starts the path.
pub proof fn lemma_file_name(path: Seq<char>)
    ensures
        0 <= name_start(path) <= path.len(),
        name_start(path) == 0 || path[name_start(path) - 1] == '/',
        forall|i: int| name_start(path) <= i < path.len() ==> path[i] != '/',
    decreases path.len(),
{
    if path.len() > 0 && path.last() != '/' {
        let front = path.drop_last();
        lemma_file_name(front);
        assert forall|i: int| name_start(path) <= i < path.len() implies path[i] != '/' by {
            if i < front.len() {
                assert(front[i] == path[i]);
            }
        }
        if name_start(path) > 0 {
            assert(front[name_start(path) - 1] == path[name_start(path) - 1]);
        }
    }
}

/// The file name of a path: what follows its last separator, or all of it
/// where it has none.
pub fn file_name(path: &str) -> (name: &str)
    ensures
        name@ == file_name_of(path@),
{
    let len: usize = path.unicode_len();
    let mut start: usize = len;
    proof {
        assert(path@.take(len as int) =~= path@);
    }
    while start > 0 && path.get_char(start - 1) != '/'
        invariant
            len == path@.len(),
            start <= len,
            name_start(path@) == name_start(path@.take(start as int)),
        decreases start,
    {
        proof {
            assert(path@.take(start as int).drop_last() =~= path@.take(start as int - 1));
        }
        start = start - 1;
    }
    proof {
        if start > 0 {
            assert(path@.take(start as int).last() == '/');
        }
    }
    path.substring_char(start, len)
}

impl ImageData {
    /// The name under which the image is shown: the file name of its path.
    pub fn file_name(&self) -> (name: &str)
        ensures
            name@ == file_name_of(self.path@),
    {
        file_name(self.path.as_str())
    }

    /// Whether `self` and `other` name the same image.
    pub fn same(&self, other: &ImageData) -> (r: bool)
        ensures
            r == (self@ == other@),
    {
        self.path == other.path && self.format == other.format && self.embedded_thumbnail
            == other.embedded_thumbnail && self.orientation == other.orientation
    }
}

/// The identities that a list of images stands for, in order.
pub open spec fn identities(images: Seq<ImageData>) -> Seq<ImageIdentity> {
    images.map_values(|d: ImageData| d@)
}

} // verus!
