use imflow::codec::orient_and_pack;
use imflow::error::ImflowError;
use imflow::orientation::{get_orientation, swap_wh, Orientation};

const ALL: [Orientation; 8] = [
    Orientation::NoTransforms,
    Orientation::Rotate90,
    Orientation::Rotate180,
    Orientation::Rotate270,
    Orientation::FlipHorizontal,
    Orientation::FlipVertical,
    Orientation::Rotate90FlipH,
    Orientation::Rotate270FlipH,
];

fn word(id: u8) -> u32 {
    u32::from_le_bytes([id, id + 10, id + 20, 255])
}

/// A 3 by 2 image whose pixels are numbered row by row from 0.
fn numbered() -> Vec<u8> {
    let mut bytes = Vec::new();
    for id in 0..6u8 {
        bytes.extend_from_slice(&[id, id + 10, id + 20, 255]);
    }
    bytes
}

fn turned(orientation: Orientation) -> (usize, usize, Vec<u32>) {
    let buffer = orient_and_pack(3, 2, numbered(), orientation, 0).unwrap();
    (buffer.width, buffer.height, buffer.rgba_buffer)
}

fn words(ids: [u8; 6]) -> Vec<u32> {
    ids.iter().map(|id| word(*id)).collect()
}

#[test]
fn exif_tags_map_to_orientations() {
    assert_eq!(Orientation::from_exif(1), Some(Orientation::NoTransforms));
    assert_eq!(Orientation::from_exif(2), Some(Orientation::FlipHorizontal));
    assert_eq!(Orientation::from_exif(3), Some(Orientation::Rotate180));
    assert_eq!(Orientation::from_exif(4), Some(Orientation::FlipVertical));
    assert_eq!(Orientation::from_exif(5), Some(Orientation::Rotate90FlipH));
    assert_eq!(Orientation::from_exif(6), Some(Orientation::Rotate90));
    assert_eq!(Orientation::from_exif(7), Some(Orientation::Rotate270FlipH));
    assert_eq!(Orientation::from_exif(8), Some(Orientation::Rotate270));
    assert_eq!(Orientation::from_exif(0), None);
    assert_eq!(Orientation::from_exif(9), None);
    assert_eq!(Orientation::from_exif(255), None);
}

#[test]
fn exif_tags_are_read_as_the_image_crate_reads_them() {
    for tag in 0..=255u8 {
        let ours = Orientation::from_exif(tag).map(|o| o.to_exif());
        let theirs = image::metadata::Orientation::from_exif(tag).map(|o| o.to_exif());
        assert_eq!(ours, theirs);
    }
}

#[test]
fn exif_tag_round_trip() {
    for o in ALL {
        assert_eq!(Orientation::from_exif(o.to_exif()), Some(o));
    }
}

#[test]
fn a_missing_or_unknown_tag_leaves_the_image_as_it_is() {
    assert_eq!(get_orientation(None), Orientation::NoTransforms);
    assert_eq!(get_orientation(Some(0)), Orientation::NoTransforms);
    assert_eq!(get_orientation(Some(9)), Orientation::NoTransforms);
    assert_eq!(get_orientation(Some(6)), Orientation::Rotate90);
    assert_eq!(get_orientation(Some(3)), Orientation::Rotate180);
}

#[test]
fn quarter_turns_exchange_width_and_height() {
    assert_eq!(swap_wh(6000, 4000, Orientation::Rotate90), (4000, 6000));
    assert_eq!(swap_wh(6000, 4000, Orientation::Rotate270), (4000, 6000));
    assert_eq!(swap_wh(6000, 4000, Orientation::Rotate90FlipH), (4000, 6000));
    assert_eq!(swap_wh(6000, 4000, Orientation::Rotate270FlipH), (4000, 6000));
}

#[test]
fn other_orientations_keep_width_and_height() {
    assert_eq!(swap_wh(6000, 4000, Orientation::NoTransforms), (6000, 4000));
    assert_eq!(swap_wh(6000, 4000, Orientation::Rotate180), (6000, 4000));
    assert_eq!(swap_wh(6000, 4000, Orientation::FlipHorizontal), (6000, 4000));
    assert_eq!(swap_wh(6000, 4000, Orientation::FlipVertical), (6000, 4000));
}

#[test]
fn swaps_is_true_of_the_quarter_turns_only() {
    let swapping: Vec<Orientation> = ALL.iter().copied().filter(|o| o.swaps()).collect();
    assert_eq!(
        swapping,
        vec![
            Orientation::Rotate90,
            Orientation::Rotate270,
            Orientation::Rotate90FlipH,
            Orientation::Rotate270FlipH
        ]
    );
}

#[test]
fn no_transform_keeps_the_pixels() {
    assert_eq!(turned(Orientation::NoTransforms), (3, 2, words([0, 1, 2, 3, 4, 5])));
}

#[test]
fn rotate_90_turns_clockwise() {
    assert_eq!(turned(Orientation::Rotate90), (2, 3, words([3, 0, 4, 1, 5, 2])));
}

#[test]
fn rotate_180_reverses_the_pixels() {
    assert_eq!(turned(Orientation::Rotate180), (3, 2, words([5, 4, 3, 2, 1, 0])));
}

#[test]
fn rotate_270_turns_counter_clockwise() {
    assert_eq!(turned(Orientation::Rotate270), (2, 3, words([2, 5, 1, 4, 0, 3])));
}

#[test]
fn flip_horizontal_mirrors_each_row() {
    assert_eq!(turned(Orientation::FlipHorizontal), (3, 2, words([2, 1, 0, 5, 4, 3])));
}

#[test]
fn flip_vertical_mirrors_each_column() {
    assert_eq!(turned(Orientation::FlipVertical), (3, 2, words([3, 4, 5, 0, 1, 2])));
}

#[test]
fn rotate_90_then_flip_transposes() {
    assert_eq!(turned(Orientation::Rotate90FlipH), (2, 3, words([0, 3, 1, 4, 2, 5])));
}

#[test]
fn rotate_270_then_flip_transposes_the_other_way() {
    assert_eq!(turned(Orientation::Rotate270FlipH), (2, 3, words([5, 2, 4, 1, 3, 0])));
}

#[test]
fn turning_keeps_the_rating_and_the_pixel_count() {
    for o in ALL {
        let buffer = orient_and_pack(3, 2, numbered(), o, 5).unwrap();
        assert_eq!(buffer.rating, 5);
        assert_eq!(buffer.rgba_buffer.len(), 6);
        assert_eq!(buffer.width * buffer.height, 6);
    }
}

#[test]
fn turning_refuses_bytes_that_do_not_match_the_size() {
    for o in ALL {
        assert_eq!(
            orient_and_pack(3, 3, numbered(), o, 0).err(),
            Some(ImflowError::DecodeFailure)
        );
        assert_eq!(
            orient_and_pack(u32::MAX, u32::MAX, numbered(), o, 0).err(),
            Some(ImflowError::DecodeFailure)
        );
        assert_eq!(
            orient_and_pack(1, 1, vec![1, 2, 3], o, 0).err(),
            Some(ImflowError::DecodeFailure)
        );
    }
}

#[test]
fn an_image_without_pixels_can_be_turned() {
    for o in ALL {
        let buffer = orient_and_pack(0, 5, Vec::new(), o, 0).unwrap();
        assert!(buffer.rgba_buffer.is_empty());
        assert_eq!(buffer.width * buffer.height, 0);
    }
}
