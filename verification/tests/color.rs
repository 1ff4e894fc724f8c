use dj_screen::test_helper::Color as RGB888Color;
use dj_screen::Color;

const RED: u8 = 0b10011010;
const GREEN: u8 = 0b11100111;
const BLUE: u8 = 0b00101010;

const GRAYSCALE1: u8 = 0b11100111; // 0b1 0b11 0b1110 0b11100111

const GRAYSCALE2: u8 = 0b01000011; // 0b0 0b01 0b0100 0b01000011

const RGB565: u16 = 0b10011_111001_00101;
const BGR565: u16 = 0b00101_111001_10011;

fn color1() -> RGB888Color {
    RGB888Color::new(RED, GREEN, BLUE)
}

fn color2() -> RGB888Color {
    RGB888Color::new(GRAYSCALE2, GRAYSCALE2, GRAYSCALE2)
}

#[test]
fn test_rgb565() {
    assert_eq!(
        (&RGB888Color::new(0, 0, 0)).into_rgb565(),
        0b00000_000000_00000
    );
    assert_eq!(
        (&RGB888Color::new(255, 255, 255)).into_rgb565(),
        0b11111_111111_11111
    );

    assert_eq!(
        (&RGB888Color::new(255, 0, 0)).into_rgb565(),
        0b11111_000000_00000
    );
    assert_eq!(
        (&RGB888Color::new(0, 255, 0)).into_rgb565(),
        0b00000_111111_00000
    );
    assert_eq!(
        (&RGB888Color::new(0, 0, 255)).into_rgb565(),
        0b00000_000000_11111
    );
}

#[test]
fn test_bgr565() {
    assert_eq!(
        (&RGB888Color::new(0, 0, 0)).into_bgr565(),
        0b00000_000000_00000
    );
    assert_eq!(
        (&RGB888Color::new(255, 255, 255)).into_bgr565(),
        0b11111_111111_11111
    );

    assert_eq!(
        (&RGB888Color::new(255, 0, 0)).into_bgr565(),
        0b00000_000000_11111
    );
    assert_eq!(
        (&RGB888Color::new(0, 255, 0)).into_bgr565(),
        0b00000_111111_00000
    );
    assert_eq!(
        (&RGB888Color::new(0, 0, 255)).into_bgr565(),
        0b11111_000000_00000
    );
}

#[test]
fn test_luminance() {
    assert_eq!((&color1()).luminance(), GRAYSCALE1);
    assert_eq!((&color2()).luminance(), GRAYSCALE2);
}

#[test]
fn test_fill_rgb() {
    let mut buffer = vec![0u8; 3];

    (&color1()).fill_rgb(&mut buffer).unwrap();

    assert_eq!(buffer, [RED, GREEN, BLUE]);
}

#[test]
fn test_fill_bgr() {
    let mut buffer = vec![0u8; 3];

    (&color1()).fill_bgr(&mut buffer).unwrap();

    assert_eq!(buffer, [BLUE, GREEN, RED]);
}

#[test]
fn test_fill_rgb565le() {
    let mut buffer = vec![0u8; 2];

    (&color1()).fill_rgb565le(&mut buffer).unwrap();

    assert_eq!(buffer, RGB565.to_le_bytes());
}

#[test]
fn test_fill_rgb565be() {
    let mut buffer = vec![0u8; 2];

    (&color1()).fill_rgb565be(&mut buffer).unwrap();

    assert_eq!(buffer, RGB565.to_be_bytes());
}

#[test]
fn test_fill_bgr565le() {
    let mut buffer = vec![0u8; 2];

    (&color1()).fill_bgr565le(&mut buffer).unwrap();

    assert_eq!(buffer, BGR565.to_le_bytes());
}

#[test]
fn test_fill_bgr565be() {
    let mut buffer = vec![0u8; 2];

    (&color1()).fill_bgr565be(&mut buffer).unwrap();

    assert_eq!(buffer, BGR565.to_be_bytes());
}

#[test]
fn test_fill_grayscale1bit() {
    let mut buffer = vec![0u8; 1];
    let (c1, c2, c3, c4) = (color1(), color2(), color1(), color2());
    let (c5, c6, c7, c8) = (color1(), color2(), color1(), color2());
    let grayscale = (&c1, &c2, &c3, &c4, &c5, &c6, &c7, &c8);

    Color::fill_grayscale_1bit(grayscale, &mut buffer).unwrap();

    assert_eq!(buffer, [0b10101010]);
}

#[test]
fn test_fill_grayscale2bit() {
    let mut buffer = vec![0u8; 1];
    let (c1, c2, c3, c4) = (color1(), color2(), color1(), color2());
    let grayscale = (&c1, &c2, &c3, &c4);

    Color::fill_grayscale_2bit(grayscale, &mut buffer).unwrap();

    assert_eq!(buffer, [0b11_01_11_01]);
}

#[test]
fn test_fill_grayscale4bit() {
    let mut buffer = vec![0u8; 1];
    let (c1, c2) = (color1(), color2());
    let grayscale = (&c1, &c2);

    Color::fill_grayscale_4bit(grayscale, &mut buffer).unwrap();

    assert_eq!(buffer, [0b1110_0100]);
}

#[test]
fn test_fill_grayscale8bit() {
    let mut buffer = vec![0u8];

    (&color1()).fill_grayscale_8bit(&mut buffer).unwrap();

    assert_eq!(buffer, [GRAYSCALE1]);

    (&color2()).fill_grayscale_8bit(&mut buffer).unwrap();

    assert_eq!(buffer, [GRAYSCALE2]);
}

#[test]
fn test_fill_grayscale16bit() {
    let mut buffer = vec![0u8; 2];

    (&color1()).fill_grayscale_16bit_le(&mut buffer).unwrap();
    assert_eq!(buffer, [GRAYSCALE1, GRAYSCALE1]);

    (&color1()).fill_grayscale_16bit_be(&mut buffer).unwrap();
    assert_eq!(buffer, [GRAYSCALE1, GRAYSCALE1]);
}

#[test]
fn test_fill_wrong_length_fails() {
    let mut buffer = vec![0u8; 4];

    assert_eq!(
        (&color1()).fill_rgb(&mut buffer),
        Err(dj_screen::CoreError::BufferSizeError {
            given: 4,
            expected: 3
        })
    );
    assert_eq!(
        (&color1()).fill_bgr565be(&mut buffer),
        Err(dj_screen::CoreError::BufferSizeError {
            given: 4,
            expected: 2
        })
    );
    assert_eq!(
        (&color1()).fill_grayscale_8bit(&mut buffer),
        Err(dj_screen::CoreError::BufferSizeError {
            given: 4,
            expected: 1
        })
    );
    let (c1, c2) = (color1(), color2());
    assert_eq!(
        Color::fill_grayscale_4bit((&c1, &c2), &mut buffer),
        Err(dj_screen::CoreError::BufferSizeError {
            given: 4,
            expected: 1
        })
    );
    assert_eq!(buffer, [0, 0, 0, 0]);
}

#[test]
fn test_rgb565_decode_masks() {
    // Masking the packed value with its 5/6/5 fields gives back the top bits
    // of each channel, and BGR565 swaps the red and blue channels.
    let v = (&color1()).into_rgb565();
    assert_eq!((v >> 11) & 0x1F, (RED >> 3) as u16);
    assert_eq!((v >> 5) & 0x3F, (GREEN >> 2) as u16);
    assert_eq!(v & 0x1F, (BLUE >> 3) as u16);

    let w = (&color1()).into_bgr565();
    assert_eq!(w, (&RGB888Color::new(BLUE, GREEN, RED)).into_rgb565());
}

#[test]
fn test_fill_rgb_bgr_are_reverses() {
    let mut rgb = vec![0u8; 3];
    let mut bgr = vec![0u8; 3];
    (&color1()).fill_rgb(&mut rgb).unwrap();
    (&color1()).fill_bgr(&mut bgr).unwrap();
    rgb.reverse();
    assert_eq!(rgb, bgr);
}
