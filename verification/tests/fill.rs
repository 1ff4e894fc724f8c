use dj_screen::test_helper::{Color, DummyBuffer};
use dj_screen::{calculate_length, copy_buffer, Buffer, ColorMode, CoreError, StorageMode};

const RED: u8 = 0b10011010;
const GREEN: u8 = 0b11100111;
const BLUE: u8 = 0b00101010;

fn source() -> DummyBuffer {
    DummyBuffer::new(Color::new(RED, GREEN, BLUE))
}

#[test]
fn test_byte_size() {
    assert_eq!(ColorMode::RGB.byte_size(), StorageMode::BytesPerPixel(3));
    assert_eq!(ColorMode::BGR.byte_size(), StorageMode::BytesPerPixel(3));
    assert_eq!(
        ColorMode::RGB565LE.byte_size(),
        StorageMode::BytesPerPixel(2)
    );
    assert_eq!(
        ColorMode::BGR565BE.byte_size(),
        StorageMode::BytesPerPixel(2)
    );
    assert_eq!(
        ColorMode::Grayscale8Bit.byte_size(),
        StorageMode::BytesPerPixel(1)
    );
    assert_eq!(
        ColorMode::Grayscale16BitLE.byte_size(),
        StorageMode::BytesPerPixel(2)
    );
    assert_eq!(
        ColorMode::Grayscale1Bit.byte_size(),
        StorageMode::PixelsPerByte(8)
    );
    assert_eq!(
        ColorMode::Grayscale2Bit.byte_size(),
        StorageMode::PixelsPerByte(4)
    );
    assert_eq!(
        ColorMode::Grayscale4Bit.byte_size(),
        StorageMode::PixelsPerByte(2)
    );
}

#[test]
fn test_calculate_length() {
    assert_eq!(calculate_length(0, 10), 0);
    assert_eq!(calculate_length(35, 45), 1575);
    assert_eq!(calculate_length(320, 240), 76800);
}

#[test]
fn test_copy_buffer() {
    let from = vec![1u8, 2, 3];
    let mut to = vec![0u8; 3];
    assert_eq!(copy_buffer(&from, &mut to), Ok(()));
    assert_eq!(to, [1, 2, 3]);

    let mut small = vec![0u8; 2];
    assert_eq!(
        copy_buffer(&from, &mut small),
        Err(CoreError::BufferSizeError {
            given: 2,
            expected: 3
        })
    );
    assert_eq!(small, [0, 0]);
}

#[test]
fn test_engine_fill_rgb() {
    let mut target = vec![0u8; 3 * 4];
    (&source()).fill_rgb(&mut target, 5, 6, 2, 2).unwrap();
    assert_eq!(
        target,
        [RED, GREEN, BLUE, RED, GREEN, BLUE, RED, GREEN, BLUE, RED, GREEN, BLUE]
    );
}

#[test]
fn test_engine_fill_bgr565be() {
    // BGR565 of the fixture color: blue 00101, green 111001, red 10011.
    let be = 0b00101_111001_10011u16.to_be_bytes();
    let mut target = vec![0u8; 2 * 6];
    (&source()).fill_bgr565be(&mut target, 0, 0, 3, 2).unwrap();
    assert_eq!(
        target,
        [be[0], be[1], be[0], be[1], be[0], be[1], be[0], be[1], be[0], be[1], be[0], be[1]]
    );
}

#[test]
fn test_engine_fill_grayscale_modes() {
    // Luminance of the fixture color is the green byte, 0b11100111.
    let mut target = vec![0u8; 4];
    (&source())
        .fill_grayscale_8bit(&mut target, 0, 0, 2, 2)
        .unwrap();
    assert_eq!(target, [GREEN, GREEN, GREEN, GREEN]);

    let mut target = vec![0u8; 4];
    (&source())
        .fill_grayscale_16bit_le(&mut target, 0, 0, 2, 1)
        .unwrap();
    assert_eq!(target, [GREEN, GREEN, GREEN, GREEN]);

    let mut target = vec![0u8; 4];
    (&source())
        .fill_grayscale_16bit_be(&mut target, 0, 0, 1, 2)
        .unwrap();
    assert_eq!(target, [GREEN, GREEN, GREEN, GREEN]);
}

#[test]
fn test_engine_fill_packed_modes() {
    // Top bit of every luminance is 1: eight pixels pack into 0xFF.
    let mut target = vec![0u8; 2];
    (&source())
        .fill_grayscale_1bit(&mut target, 0, 0, 4, 4)
        .unwrap();
    assert_eq!(target, [0xFF, 0xFF]);

    // Top 2 bits of the luminance are 0b11: four pixels pack into 0xFF.
    let mut target = vec![0u8; 1];
    (&source())
        .fill_grayscale_2bit(&mut target, 0, 0, 2, 2)
        .unwrap();
    assert_eq!(target, [0xFF]);

    // Top 4 bits of the luminance are 0b1110: two pixels pack into 0xEE.
    let mut target = vec![0u8; 2];
    (&source())
        .fill_grayscale_4bit(&mut target, 0, 0, 4, 1)
        .unwrap();
    assert_eq!(target, [0xEE, 0xEE]);
}

#[test]
fn test_engine_wrong_length_fails() {
    let mut target = vec![0u8; 11];
    assert_eq!(
        (&source()).fill_rgb(&mut target, 0, 0, 2, 2),
        Err(CoreError::BufferSizeError {
            given: 11,
            expected: 12
        })
    );
    assert_eq!(
        (&source()).fill_rgb565le(&mut target, 0, 0, 2, 2),
        Err(CoreError::BufferSizeError {
            given: 11,
            expected: 8
        })
    );
    assert_eq!(target, vec![0u8; 11]);
}

#[test]
fn test_engine_packed_indivisible_fails() {
    // 3 pixels cannot fill whole bytes at 2 pixels per byte: every length is
    // refused, with the minimal non-truncating size expected.
    let mut target = vec![0u8; 2];
    assert_eq!(
        (&source()).fill_grayscale_4bit(&mut target, 0, 0, 3, 1),
        Err(CoreError::BufferSizeError {
            given: 2,
            expected: 2
        })
    );
    let mut target = vec![0u8; 1];
    assert_eq!(
        (&source()).fill_grayscale_1bit(&mut target, 0, 0, 3, 1),
        Err(CoreError::BufferSizeError {
            given: 1,
            expected: 1
        })
    );
}
