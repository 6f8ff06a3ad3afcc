use vstd::prelude::*;
use vstd::string::*;

verus! {

/// The container formats the browser can decode.
#[derive(Clone, Copy, Debug, PartialEq, Eq, Hash, PartialOrd, Structural)]
pub enum ImageFormat {
    Jpg,
    Jxl,
    Heif,
}

/// ASCII lower-casing of one character; every other character is kept.
pub open spec fn ascii_lower(c: char) -> char {
    if 'A' <= c && c <= 'Z' {
        ((c as u8) + 32) as char
    } else {
        c
    }
}

/// Whether `path` names a file whose extension, lower-cased, is `ext`.
///
/// The extension is what follows the last dot of the file name; a file name
/// that only starts with a dot has no extension. `ext` is meant to hold
/// neither a dot nor a separator.
pub open spec fn has_extension(path: Seq<char>, ext: Seq<char>) -> bool {
    let n = path.len() as int;
    let k = ext.len() as int;
    &&& n >= k + 2
    &&& path[n - k - 1] == '.'
    &&& path[n - k - 2] != '/'
    &&& forall|i: int| 0 <= i < k ==> ascii_lower(#[trigger] path[n - k + i]) == ext[i]
}

/// The format that a path's extension declares, if it is a supported one.
pub open spec fn extension_format(path: Seq<char>) -> Option<ImageFormat> {
    if has_extension(path, "heic"@) || has_extension(path, "heif"@) {
        Some(ImageFormat::Heif)
    } else if has_extension(path, "jpg"@) || has_extension(path, "jpeg"@) {
        Some(ImageFormat::Jpg)
    } else if has_extension(path, "jxl"@) {
        Some(ImageFormat::Jxl)
    } else {
        None
    }
}

/// The format of a directory entry: none for what is not a regular file.
pub open spec fn format_of(path: Seq<char>, is_file: bool) -> Option<ImageFormat> {
    if is_file {
        extension_format(path)
    } else {
        None
    }
}

/// Lower-cases one ASCII letter.
pub fn to_ascii_lower(c: char) -> (r: char)
    ensures
        r == ascii_lower(c),
{
    if 'A' <= c && c <= 'Z' {
        let b: u8 = c as u8;
        (b + 32) as char
    } else {
        c
    }
}

/// Tests `path`, of `n` characters, for the extension `ext`.
fn ends_with_extension(path: &str, n: usize, ext: &str) -> (r: bool)
    requires
        n == path@.len(),
    ensures
        r == has_extension(path@, ext@),
{
    let k: usize = ext.unicode_len();
    if n < 2 || n - 2 < k {
        return false;
    }
    let start: usize = n - k;
    if path.get_char(start - 1) != '.' || path.get_char(start - 2) == '/' {
        return false;
    }
    let mut i: usize = 0;
    while i < k
        invariant
            n == path@.len(),
            k == ext@.len(),
            start == n - k,
            n >= k + 2,
            i <= k,
            forall|j: int| 0 <= j < i ==> ascii_lower(#[trigger] path@[n - k + j]) == ext@[j],
        decreases k - i,
    {
        let c = to_ascii_lower(path.get_char(start + i));
        if c != ext.get_char(i) {
            assert(ascii_lower(path@[n - k + i as int]) != ext@[i as int]);
            return false;
        }
        i = i + 1;
    }
    true
}

/// Classifies a directory entry by its extension, without regard to case:
/// `jpg` and `jpeg` are JPEG, `heic` and `heif` are HEIF, `jxl` is JPEG XL.
/// Anything else, and anything that is not a regular file, has no format.
pub fn get_format(path: &str, is_file: bool) -> (r: Option<ImageFormat>)
    ensures
        r == format_of(path@, is_file),
{
    if !is_file {
        return None;
    }
    let n: usize = path.unicode_len();
    if ends_with_extension(path, n, "heic") || ends_with_extension(path, n, "heif") {
        Some(ImageFormat::Heif)
    } else if ends_with_extension(path, n, "jpg") || ends_with_extension(path, n, "jpeg") {
        Some(ImageFormat::Jpg)
    } else if ends_with_extension(path, n, "jxl") {
        Some(ImageFormat::Jxl)
    } else {
        None
    }
}

} // verus!
