use imflow::codec::{
    get_rating, load_heif, load_image, needed_source, HeifPlane, ImageSource, RawPixels,
    SourceKind,
};
use imflow::error::ImflowError;
use imflow::format::ImageFormat;
use imflow::identity::ImageData;
use imflow::orientation::Orientation;
use std::io::Cursor;

fn identity(path: &str, format: ImageFormat, orientation: Orientation) -> ImageData {
    ImageData { path: path.to_string(), format, embedded_thumbnail: false, orientation }
}

fn encoded(width: u32, height: u32, colour: [u8; 3], format: image::ImageFormat) -> Vec<u8> {
    let picture = image::RgbImage::from_pixel(width, height, image::Rgb(colour));
    let mut bytes = Vec::new();
    image::DynamicImage::ImageRgb8(picture)
        .write_to(&mut Cursor::new(&mut bytes), format)
        .unwrap();
    bytes
}

fn close(word: u32, colour: [u8; 3]) -> bool {
    let got = word.to_le_bytes();
    got[3] == 255 && (0..3).all(|c| (got[c] as i32 - colour[c] as i32).abs() <= 8)
}

#[test]
fn a_missing_rating_counts_as_none() {
    assert_eq!(get_rating(None), 0);
    assert_eq!(get_rating(Some(0)), 0);
    assert_eq!(get_rating(Some(5)), 5);
    assert_eq!(get_rating(Some(-1)), -1);
}

#[test]
fn each_format_needs_its_source_for_the_full_image() {
    let jpg = identity("a.jpg", ImageFormat::Jpg, Orientation::NoTransforms);
    let jxl = identity("a.jxl", ImageFormat::Jxl, Orientation::NoTransforms);
    let heif = identity("a.heic", ImageFormat::Heif, Orientation::NoTransforms);
    for preview in [false, true] {
        assert_eq!(needed_source(&jpg, false, preview), SourceKind::File);
        assert_eq!(needed_source(&jxl, false, preview), SourceKind::Pixels);
        assert_eq!(needed_source(&heif, false, preview), SourceKind::Plane);
    }
}

#[test]
fn a_thumbnail_comes_from_the_preview_where_there_is_one() {
    let jpg = identity("a.jpg", ImageFormat::Jpg, Orientation::NoTransforms);
    let jxl = identity("a.jxl", ImageFormat::Jxl, Orientation::NoTransforms);
    let heif = identity("a.heic", ImageFormat::Heif, Orientation::NoTransforms);
    assert_eq!(needed_source(&jpg, true, true), SourceKind::Preview);
    assert_eq!(needed_source(&jpg, true, false), SourceKind::File);
    assert_eq!(needed_source(&jxl, true, true), SourceKind::Preview);
    assert_eq!(needed_source(&jxl, true, false), SourceKind::File);
    assert_eq!(needed_source(&heif, true, true), SourceKind::Plane);
    assert_eq!(needed_source(&heif, true, false), SourceKind::Plane);
}

#[test]
fn a_jpeg_is_decoded_to_its_header_size() {
    let file = encoded(16, 8, [200, 40, 40], image::ImageFormat::Jpeg);
    let image = identity("a.jpg", ImageFormat::Jpg, Orientation::NoTransforms);
    let buffer = load_image(&image, &ImageSource::File(file), 3).unwrap();
    assert_eq!((buffer.width, buffer.height), (16, 8));
    assert_eq!(buffer.rgba_buffer.len(), 128);
    assert_eq!(buffer.rating, 3);
    assert!(buffer.rgba_buffer.iter().all(|word| close(*word, [200, 40, 40])));
}

#[test]
fn a_quarter_turn_exchanges_the_size_of_a_decoded_jpeg() {
    let file = encoded(16, 8, [10, 200, 10], image::ImageFormat::Jpeg);
    for orientation in [
        Orientation::Rotate90,
        Orientation::Rotate270,
        Orientation::Rotate90FlipH,
        Orientation::Rotate270FlipH,
    ] {
        let image = identity("a.jpg", ImageFormat::Jpg, orientation);
        let buffer = load_image(&image, &ImageSource::File(file.clone()), 0).unwrap();
        assert_eq!((buffer.width, buffer.height), (8, 16));
        assert_eq!(buffer.rgba_buffer.len(), 128);
    }
}

#[test]
fn other_orientations_keep_the_size_of_a_decoded_jpeg() {
    let file = encoded(16, 8, [10, 10, 200], image::ImageFormat::Jpeg);
    for orientation in [
        Orientation::NoTransforms,
        Orientation::Rotate180,
        Orientation::FlipHorizontal,
        Orientation::FlipVertical,
    ] {
        let image = identity("a.jpg", ImageFormat::Jpg, orientation);
        let buffer = load_image(&image, &ImageSource::File(file.clone()), 0).unwrap();
        assert_eq!((buffer.width, buffer.height), (16, 8));
    }
}

#[test]
fn a_turned_jpeg_has_its_pixels_moved() {
    // left half red, right half blue; after a clockwise quarter turn the top is red
    let mut picture = image::RgbImage::from_pixel(32, 16, image::Rgb([220, 20, 20]));
    for y in 0..16 {
        for x in 16..32 {
            picture.put_pixel(x, y, image::Rgb([20, 20, 220]));
        }
    }
    let mut file = Vec::new();
    image::DynamicImage::ImageRgb8(picture)
        .write_to(&mut Cursor::new(&mut file), image::ImageFormat::Jpeg)
        .unwrap();
    let image = identity("a.jpg", ImageFormat::Jpg, Orientation::Rotate90);
    let buffer = load_image(&image, &ImageSource::File(file), 0).unwrap();
    assert_eq!((buffer.width, buffer.height), (16, 32));
    assert!(close(buffer.rgba_buffer[2 * 16 + 8], [220, 20, 20]));
    assert!(close(buffer.rgba_buffer[29 * 16 + 8], [20, 20, 220]));
}

#[test]
fn bytes_that_are_no_jpeg_fail_to_decode() {
    let image = identity("a.jpg", ImageFormat::Jpg, Orientation::NoTransforms);
    for file in [Vec::new(), vec![0u8; 64], b"not a picture".to_vec()] {
        assert_eq!(
            load_image(&image, &ImageSource::File(file), 0).err(),
            Some(ImflowError::DecodeFailure)
        );
    }
    let png = encoded(4, 4, [1, 2, 3], image::ImageFormat::Png);
    assert_eq!(
        load_image(&image, &ImageSource::File(png), 0).err(),
        Some(ImflowError::DecodeFailure)
    );
}

#[test]
fn a_truncated_jpeg_does_not_stop_the_process() {
    let file = encoded(64, 64, [90, 90, 90], image::ImageFormat::Jpeg);
    let image = identity("a.jpg", ImageFormat::Jpg, Orientation::NoTransforms);
    for keep in [2, 10, file.len() / 2] {
        let cut = file[..keep].to_vec();
        match load_image(&image, &ImageSource::File(cut), 0) {
            Ok(buffer) => assert_eq!(buffer.rgba_buffer.len(), buffer.width * buffer.height),
            Err(e) => assert_eq!(e, ImflowError::DecodeFailure),
        }
    }
}

#[test]
fn jpeg_xl_pixels_are_packed_as_they_are() {
    let image = identity("a.jxl", ImageFormat::Jxl, Orientation::Rotate90);
    let raw = RawPixels { width: 2, height: 1, rgba: vec![1, 2, 3, 4, 5, 6, 7, 8] };
    let buffer = load_image(&image, &ImageSource::Pixels(raw), 2).unwrap();
    assert_eq!((buffer.width, buffer.height), (2, 1));
    assert_eq!(buffer.rgba_buffer, vec![0x0403_0201, 0x0807_0605]);
    assert_eq!(buffer.rating, 2);
}

#[test]
fn jpeg_xl_pixels_must_match_their_size() {
    let image = identity("a.jxl", ImageFormat::Jxl, Orientation::NoTransforms);
    let raw = RawPixels { width: 2, height: 2, rgba: vec![0; 8] };
    assert_eq!(
        load_image(&image, &ImageSource::Pixels(raw), 0).err(),
        Some(ImflowError::DecodeFailure)
    );
}

#[test]
fn a_source_of_the_wrong_kind_is_a_decode_failure() {
    let jpg = identity("a.jpg", ImageFormat::Jpg, Orientation::NoTransforms);
    let jxl = identity("a.jxl", ImageFormat::Jxl, Orientation::NoTransforms);
    let heif = identity("a.heic", ImageFormat::Heif, Orientation::NoTransforms);
    let pixels = || ImageSource::Pixels(RawPixels { width: 1, height: 1, rgba: vec![0; 4] });
    let plane =
        || ImageSource::Plane(HeifPlane { width: 1, height: 1, stride: 4, data: vec![0; 4] });
    let file = || ImageSource::File(encoded(4, 4, [1, 2, 3], image::ImageFormat::Jpeg));
    assert!(load_image(&jpg, &pixels(), 0).is_err());
    assert!(load_image(&jpg, &plane(), 0).is_err());
    assert!(load_image(&jpg, &ImageSource::Preview(Vec::new()), 0).is_err());
    assert!(load_image(&jxl, &file(), 0).is_err());
    assert!(load_image(&jxl, &plane(), 0).is_err());
    assert!(load_image(&heif, &file(), 0).is_err());
    assert!(load_image(&heif, &pixels(), 0).is_err());
    assert!(load_image(&jpg, &file(), 0).is_ok());
    assert!(load_image(&jxl, &pixels(), 0).is_ok());
    assert!(load_image(&heif, &plane(), 0).is_ok());
}

#[test]
fn a_heif_plane_is_packed_row_by_row() {
    let plane = HeifPlane {
        width: 1,
        height: 2,
        stride: 8,
        data: vec![1, 0, 0, 0, 7, 7, 7, 7, 2, 0, 0, 0, 7, 7, 7, 7],
    };
    let buffer = load_heif(&plane, false, 1).unwrap();
    assert_eq!((buffer.width, buffer.height), (1, 2));
    assert_eq!(buffer.rgba_buffer, vec![1, 2]);
    assert_eq!(buffer.rating, 1);
    let image = identity("a.heic", ImageFormat::Heif, Orientation::Rotate90);
    let same = load_image(&image, &ImageSource::Plane(plane), 1).unwrap();
    assert_eq!((same.width, same.height), (1, 2));
    assert_eq!(same.rgba_buffer, vec![1, 2]);
}

#[test]
fn a_heif_thumbnail_plane_must_have_the_thumbnail_size() {
    let small = HeifPlane { width: 2, height: 2, stride: 8, data: vec![0; 16] };
    assert!(load_heif(&small, false, 0).is_ok());
    assert_eq!(load_heif(&small, true, 0).err(), Some(ImflowError::DecodeFailure));
    let scaled = HeifPlane { width: 640, height: 480, stride: 2560, data: vec![9; 2560 * 480] };
    let buffer = load_heif(&scaled, true, 0).unwrap();
    assert_eq!((buffer.width, buffer.height), (640, 480));
    assert_eq!(buffer.rgba_buffer.len(), 640 * 480);
    let turned = HeifPlane { width: 480, height: 640, stride: 1920, data: vec![9; 1920 * 640] };
    assert!(load_heif(&turned, true, 0).is_err());
}

#[test]
fn an_empty_heif_plane_is_refused() {
    let empty = HeifPlane { width: 0, height: 0, stride: 0, data: Vec::new() };
    assert_eq!(load_heif(&empty, false, 0).err(), Some(ImflowError::DecodeFailure));
    let no_stride = HeifPlane { width: 1, height: 1, stride: 0, data: vec![0; 4] };
    assert_eq!(load_heif(&no_stride, false, 0).err(), Some(ImflowError::DecodeFailure));
    let short = HeifPlane { width: 2, height: 2, stride: 8, data: vec![0; 15] };
    assert_eq!(load_heif(&short, false, 0).err(), Some(ImflowError::DecodeFailure));
}
