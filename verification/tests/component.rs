use dj_screen::Component;

#[test]
fn test_convert_le() {
    let mut buf = vec![0u8; 1];
    0x00u8.convert_le(&mut buf).unwrap();
    assert_eq!(buf, [0x00]);

    let mut buf = vec![0u8; 2];
    0x0011u16.convert_le(&mut buf).unwrap();
    assert_eq!(buf, [0x11, 0x00]);

    let mut buf = vec![0u8; 4];
    0x00112233u32.convert_le(&mut buf).unwrap();
    assert_eq!(buf, [0x33, 0x22, 0x11, 0x00]);

    let mut buf = vec![0u8; 8];
    0x0011223344556677u64.convert_le(&mut buf).unwrap();
    assert_eq!(buf, [0x77, 0x66, 0x55, 0x44, 0x33, 0x22, 0x11, 0x00]);

    let mut buf = vec![0u8; 16];
    0x00112233445566778899AABBCCDDEEFFu128
        .convert_le(&mut buf)
        .unwrap();
    assert_eq!(
        buf,
        [
            0xFF, 0xEE, 0xDD, 0xCC, 0xBB, 0xAA, 0x99, 0x88, 0x77, 0x66, 0x55, 0x44, 0x33, 0x22,
            0x11, 0x00
        ]
    );
}

#[test]
fn test_convert_be() {
    let mut buf = vec![0u8; 1];
    0x00u8.convert_be(&mut buf).unwrap();
    assert_eq!(buf, [0x00]);

    let mut buf = vec![0u8; 2];
    0x0011u16.convert_be(&mut buf).unwrap();
    assert_eq!(buf, [0x00, 0x11]);

    let mut buf = vec![0u8; 4];
    0x00112233u32.convert_be(&mut buf).unwrap();
    assert_eq!(buf, [0x00, 0x11, 0x22, 0x33]);

    let mut buf = vec![0u8; 8];
    0x0011223344556677u64.convert_be(&mut buf).unwrap();
    assert_eq!(buf, [0x00, 0x11, 0x22, 0x33, 0x44, 0x55, 0x66, 0x77]);

    let mut buf = vec![0u8; 16];
    0x00112233445566778899AABBCCDDEEFFu128
        .convert_be(&mut buf)
        .unwrap();
    assert_eq!(
        buf,
        [
            0x00, 0x11, 0x22, 0x33, 0x44, 0x55, 0x66, 0x77, 0x88, 0x99, 0xAA, 0xBB, 0xCC, 0xDD,
            0xEE, 0xFF
        ]
    );
}

#[test]
fn test_most_significant_byte() {
    assert_eq!(0x00, 0x00u8.most_significant_byte());
    assert_eq!(0x00, 0x0011u16.most_significant_byte());
    assert_eq!(0x00, 0x00112233u32.most_significant_byte());
    assert_eq!(0x00, 0x0011223344556677u64.most_significant_byte());
    assert_eq!(
        0x00,
        0x00112233445566778899AABBCCDDEEFFu128.most_significant_byte()
    );
}

#[test]
fn test_max_component() {
    assert_eq!(3u8.max_component(7, 5), 7);
    assert_eq!(0x0200u16.max_component(0x01FF, 0x0020), 0x0200);
    assert_eq!(
        0x0200u16.max_component(0x01FF, 0x0020).most_significant_byte(),
        0x02
    );
}

#[test]
fn test_convert_wrong_length_fails() {
    let mut buf = vec![0u8; 3];
    assert_eq!(
        0x0011u16.convert_le(&mut buf),
        Err(dj_screen::CoreError::BufferSizeError {
            given: 3,
            expected: 2
        })
    );
    assert_eq!(
        0x00112233u32.convert_be(&mut buf),
        Err(dj_screen::CoreError::BufferSizeError {
            given: 3,
            expected: 4
        })
    );
    assert_eq!(buf, [0, 0, 0]);
}
