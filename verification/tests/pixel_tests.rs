use imflow::buffer::ImflowImageBuffer;
use imflow::error::ImflowError;
use imflow::pixels::{image_to_rgba_buffer, pack};

#[test]
fn a_pixel_word_has_red_lowest_and_alpha_highest() {
    assert_eq!(pack(1, 2, 3, 4), 0x0403_0201);
    assert_eq!(pack(0xff, 0, 0, 0), 0x0000_00ff);
    assert_eq!(pack(0, 0xff, 0, 0), 0x0000_ff00);
    assert_eq!(pack(0, 0, 0xff, 0), 0x00ff_0000);
    assert_eq!(pack(0, 0, 0, 0xff), 0xff00_0000);
    assert_eq!(pack(0xff, 0xff, 0xff, 0xff), u32::MAX);
    assert_eq!(pack(0, 0, 0, 0), 0);
}

#[test]
fn packing_agrees_with_little_endian_words() {
    let bytes: Vec<u8> = (0..=255u8).collect();
    let words = image_to_rgba_buffer(&bytes).unwrap();
    assert_eq!(words.len(), 64);
    for (i, word) in words.iter().enumerate() {
        let b = [bytes[4 * i], bytes[4 * i + 1], bytes[4 * i + 2], bytes[4 * i + 3]];
        assert_eq!(*word, u32::from_le_bytes(b));
    }
}

#[test]
fn flat_bytes_pack_four_to_a_pixel() {
    let bytes = [1u8, 2, 3, 4, 5, 6, 7, 8];
    assert_eq!(image_to_rgba_buffer(&bytes), Ok(vec![67305985, 134678021]));
}

#[test]
fn an_empty_buffer_packs_to_nothing() {
    assert_eq!(image_to_rgba_buffer(&[]), Ok(vec![]));
}

#[test]
fn a_length_that_is_no_multiple_of_four_is_refused() {
    assert_eq!(image_to_rgba_buffer(&[1, 2, 3]), Err(ImflowError::DecodeFailure));
    assert_eq!(image_to_rgba_buffer(&[1, 2, 3, 4, 5]), Err(ImflowError::DecodeFailure));
    assert_eq!(image_to_rgba_buffer(&[0; 7]), Err(ImflowError::DecodeFailure));
}

#[test]
fn a_plane_is_packed_without_its_row_padding() {
    // two rows of two pixels, rows twelve bytes apart, no padding after the last
    let data = [
        1u8, 0, 0, 0, 2, 0, 0, 0, 0xaa, 0xaa, 0xaa, 0xaa, //
        3, 0, 0, 0, 4, 0, 0, 0,
    ];
    let buffer = ImflowImageBuffer::from_plane(2, 2, 12, &data, 0).unwrap();
    assert_eq!(buffer.rgba_buffer, vec![1, 2, 3, 4]);
}

#[test]
fn a_plane_without_padding_packs_like_flat_bytes() {
    let data: Vec<u8> = (0..24u8).collect();
    let buffer = ImflowImageBuffer::from_plane(3, 2, 12, &data, 0).unwrap();
    assert_eq!(buffer.rgba_buffer, image_to_rgba_buffer(&data).unwrap());
}

#[test]
fn a_buffer_from_flat_bytes_keeps_size_and_rating() {
    let bytes = [1u8, 2, 3, 4, 5, 6, 7, 8, 9, 10, 11, 12];
    let buffer = ImflowImageBuffer::from_rgba(3, 1, &bytes, 4).unwrap();
    assert_eq!(buffer.width, 3);
    assert_eq!(buffer.height, 1);
    assert_eq!(buffer.rating, 4);
    assert_eq!(buffer.rgba_buffer, vec![0x0403_0201, 0x0807_0605, 0x0c0b_0a09]);
}

#[test]
fn a_buffer_needs_four_bytes_for_each_pixel() {
    let bytes = [0u8; 12];
    assert!(ImflowImageBuffer::from_rgba(3, 1, &bytes, 0).is_ok());
    assert!(ImflowImageBuffer::from_rgba(1, 3, &bytes, 0).is_ok());
    assert_eq!(
        ImflowImageBuffer::from_rgba(2, 2, &bytes, 0).err(),
        Some(ImflowError::DecodeFailure)
    );
    assert_eq!(
        ImflowImageBuffer::from_rgba(3, 2, &bytes, 0).err(),
        Some(ImflowError::DecodeFailure)
    );
    assert_eq!(
        ImflowImageBuffer::from_rgba(usize::MAX, usize::MAX, &bytes, 0).err(),
        Some(ImflowError::DecodeFailure)
    );
    assert_eq!(
        ImflowImageBuffer::from_rgba(usize::MAX / 2, 2, &bytes, 0).err(),
        Some(ImflowError::DecodeFailure)
    );
}

#[test]
fn an_empty_image_is_a_buffer_of_no_pixels() {
    let buffer = ImflowImageBuffer::from_rgba(0, 7, &[], 2).unwrap();
    assert_eq!(buffer.width, 0);
    assert_eq!(buffer.height, 7);
    assert!(buffer.rgba_buffer.is_empty());
}

#[test]
fn a_buffer_from_a_plane_drops_padding() {
    let data = [
        1u8, 0, 0, 0, 9, 9, 9, 9, //
        2, 0, 0, 0, 9, 9, 9, 9, //
        3, 0, 0, 0,
    ];
    let buffer = ImflowImageBuffer::from_plane(1, 3, 8, &data, -1).unwrap();
    assert_eq!(buffer.width, 1);
    assert_eq!(buffer.height, 3);
    assert_eq!(buffer.rating, -1);
    assert_eq!(buffer.rgba_buffer, vec![1, 2, 3]);
}

#[test]
fn a_plane_must_hold_a_pixel_and_lie_within_its_bytes() {
    let data = [0u8; 16];
    assert!(ImflowImageBuffer::from_plane(2, 2, 8, &data, 0).is_ok());
    assert!(ImflowImageBuffer::from_plane(1, 2, 12, &data, 0).is_ok());
    // no pixel
    assert!(ImflowImageBuffer::from_plane(0, 2, 8, &data, 0).is_err());
    assert!(ImflowImageBuffer::from_plane(2, 0, 8, &data, 0).is_err());
    // rows that overlap
    assert!(ImflowImageBuffer::from_plane(2, 2, 7, &data, 0).is_err());
    assert!(ImflowImageBuffer::from_plane(2, 2, 0, &data, 0).is_err());
    // too few bytes
    assert!(ImflowImageBuffer::from_plane(2, 3, 8, &data, 0).is_err());
    assert!(ImflowImageBuffer::from_plane(1, 2, 13, &data, 0).is_err());
    assert!(ImflowImageBuffer::from_plane(5, 1, 20, &data, 0).is_err());
    assert!(ImflowImageBuffer::from_plane(1, usize::MAX, usize::MAX, &data, 0).is_err());
    assert_eq!(
        ImflowImageBuffer::from_plane(1, 1, 4, &[], 0).err(),
        Some(ImflowError::DecodeFailure)
    );
}
