use std::borrow::Cow;

use viewport_vulkan::format::Fourcc;
use viewport_vulkan::wayland::{repack, ShmBuffer};

#[test]
fn a_tightly_packed_buffer_is_not_copied() {
    // 2x2, stride exactly the row length.
    let src: Vec<u8> = (0..16).collect();
    let out = repack(&src, 0, 8, 2, 2).expect("repack");
    assert!(matches!(out, Cow::Borrowed(_)), "needlessly copied");
    assert_eq!(&*out, &src[..]);
}

#[test]
fn a_padded_stride_is_repacked() {
    // 2x2 with 4 bytes of padding per row.
    let mut src = Vec::new();
    src.extend_from_slice(&[1, 2, 3, 4, 5, 6, 7, 8]);
    src.extend_from_slice(&[0, 0, 0, 0]);
    src.extend_from_slice(&[9, 10, 11, 12, 13, 14, 15, 16]);
    src.extend_from_slice(&[0, 0, 0, 0]);

    let out = repack(&src, 0, 12, 2, 2).expect("repack");
    assert!(matches!(out, Cow::Owned(_)), "should have copied");
    assert_eq!(
        &*out,
        &[1, 2, 3, 4, 5, 6, 7, 8, 9, 10, 11, 12, 13, 14, 15, 16]
    );
}

#[test]
fn an_offset_is_honoured() {
    let mut src = vec![0xff; 4];
    src.extend_from_slice(&[1, 2, 3, 4]);
    let out = repack(&src, 4, 4, 1, 1).expect("repack");
    assert_eq!(&*out, &[1, 2, 3, 4]);
}

#[test]
fn a_short_buffer_is_an_error_rather_than_a_read_past_the_end() {
    // The last row is missing.
    let src = vec![0u8; 8];
    let error = repack(&src, 0, 8, 2, 2).expect_err("a short buffer must be refused");
    let message = error.message();
    assert!(message.contains("needs"), "{message}");
    assert_eq!(message, "shm buffer is 8 bytes; 2x2 at stride 8 needs 16");
}

#[test]
fn absurd_dimensions_do_not_overflow() {
    let src = vec![0u8; 16];
    let error = repack(&src, 0, usize::MAX, 2, 2).expect_err("must not overflow");
    let message = error.message();
    assert!(
        message.contains("overflow") || message.contains("needs"),
        "{message}"
    );
}

fn shm(fourcc: Option<Fourcc>, width: i32, height: i32, offset: i32, stride: i32) -> ShmBuffer {
    ShmBuffer {
        fourcc,
        format: "Yuyv".to_owned(),
        width,
        height,
        offset,
        stride,
    }
}

#[test]
fn pixels_come_out_of_shared_memory_without_padding() {
    let mut bytes = vec![0xee; 4];
    for row in 0..2u8 {
        bytes.extend_from_slice(&[row, 1, 2, 3, 4, 5, 6, 7, 0xff, 0xff]);
    }
    let pixels = shm(Some(Fourcc::Xrgb8888), 2, 2, 4, 10)
        .unpack(&bytes)
        .expect("unpack");
    assert_eq!(pixels.fourcc, Fourcc::Xrgb8888);
    assert_eq!((pixels.width, pixels.height), (2, 2));
    assert_eq!(
        pixels.pixels,
        vec![0, 1, 2, 3, 4, 5, 6, 7, 1, 1, 2, 3, 4, 5, 6, 7]
    );
    // A buffer with nothing in between comes out as it is.
    let pixels = shm(Some(Fourcc::Argb8888), 2, 1, 0, 8)
        .unpack(&[1, 2, 3, 4, 5, 6, 7, 8])
        .expect("unpack");
    assert_eq!(pixels.pixels, vec![1, 2, 3, 4, 5, 6, 7, 8]);
}

#[test]
fn shared_memory_says_why_it_cannot_be_used() {
    let error = shm(None, 2, 2, 0, 8).unpack(&[0; 16]).expect_err("format");
    assert_eq!(error.message(), "no fourcc for shm format Yuyv");
    let error = shm(Some(Fourcc::Argb8888), 2, 0, 0, 8)
        .unpack(&[0; 16])
        .expect_err("size");
    assert_eq!(error.message(), "a zero-sized shm buffer");
    let error = shm(Some(Fourcc::Argb8888), 2, 2, 0, 8)
        .unpack(&[0; 15])
        .expect_err("bytes");
    assert_eq!(
        error.message(),
        "shm buffer is 15 bytes; 2x2 at stride 8 needs 16"
    );
}
