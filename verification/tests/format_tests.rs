use imflow::format::{get_format, to_ascii_lower, ImageFormat};

#[test]
fn jpeg_extensions_are_recognised() {
    assert_eq!(get_format("photos/a.jpg", true), Some(ImageFormat::Jpg));
    assert_eq!(get_format("photos/a.jpeg", true), Some(ImageFormat::Jpg));
}

#[test]
fn heif_extensions_are_recognised() {
    assert_eq!(get_format("a.heic", true), Some(ImageFormat::Heif));
    assert_eq!(get_format("a.heif", true), Some(ImageFormat::Heif));
}

#[test]
fn jxl_extension_is_recognised() {
    assert_eq!(get_format("dir/sub/a.jxl", true), Some(ImageFormat::Jxl));
}

#[test]
fn extension_case_is_ignored() {
    assert_eq!(get_format("A.JPG", true), Some(ImageFormat::Jpg));
    assert_eq!(get_format("a.JpEg", true), Some(ImageFormat::Jpg));
    assert_eq!(get_format("a.HEIC", true), Some(ImageFormat::Heif));
    assert_eq!(get_format("a.Jxl", true), Some(ImageFormat::Jxl));
}

#[test]
fn other_extensions_have_no_format() {
    assert_eq!(get_format("a.png", true), None);
    assert_eq!(get_format("a.txt", true), None);
    assert_eq!(get_format("a.jpg.bak", true), None);
    assert_eq!(get_format("ajpg", true), None);
    assert_eq!(get_format("a", true), None);
    assert_eq!(get_format("", true), None);
}

#[test]
fn a_name_that_only_starts_with_a_dot_has_no_extension() {
    assert_eq!(get_format(".jpg", true), None);
    assert_eq!(get_format("dir/.jpg", true), None);
    assert_eq!(get_format("dir/..jpg", true), Some(ImageFormat::Jpg));
}

#[test]
fn what_is_no_file_has_no_format() {
    assert_eq!(get_format("a.jpg", false), None);
    assert_eq!(get_format("album.heic", false), None);
}

#[test]
fn names_beyond_ascii_are_read_by_character() {
    assert_eq!(get_format("é.jpg", true), Some(ImageFormat::Jpg));
    assert_eq!(get_format("写真.jxl", true), Some(ImageFormat::Jxl));
    assert_eq!(get_format("a.jpé", true), None);
}

#[test]
fn lower_casing_touches_ascii_capitals_only() {
    assert_eq!(to_ascii_lower('A'), 'a');
    assert_eq!(to_ascii_lower('Z'), 'z');
    assert_eq!(to_ascii_lower('a'), 'a');
    assert_eq!(to_ascii_lower('@'), '@');
    assert_eq!(to_ascii_lower('['), '[');
    assert_eq!(to_ascii_lower('É'), 'É');
}
