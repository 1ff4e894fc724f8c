use dj_screen::CoreError;

#[test]
fn test_check_length() {
    assert_eq!(CoreError::check_length(&vec![0, 1, 2, 3, 4, 5], 6), Ok(()));
    assert_eq!(
        CoreError::check_length(&vec![0, 1, 2, 3, 4, 5], 5),
        Err(CoreError::BufferSizeError {
            expected: 5,
            given: 6
        })
    );
    assert_eq!(
        CoreError::check_length(&vec![0, 1, 2, 3, 4], 6),
        Err(CoreError::BufferSizeError {
            expected: 6,
            given: 5
        })
    );
}

#[test]
fn test_check_screen() {
    assert_eq!(CoreError::check_screen(5, 8), Ok(()));
    assert_eq!(
        CoreError::check_screen(6, 6),
        Err(CoreError::InvalidScreen {
            screen_id: 6,
            screen_number: 6
        })
    );
    assert_eq!(
        CoreError::check_screen(12, 5),
        Err(CoreError::InvalidScreen {
            screen_id: 12,
            screen_number: 5
        })
    );
}

#[test]
fn test_throw_helpers() {
    assert_eq!(
        CoreError::throw_busy_screen_error(1),
        Err(CoreError::BusyScreen { screen_id: 1 })
    );
    let r = CoreError::throw_unsupported_device_error(0x1111, 0x2222, "some driver".to_owned());
    assert_eq!(
        r,
        Err(CoreError::UnsupportedDevice {
            vendor_id: 0x1111,
            product_id: 0x2222,
            driver: "some driver".to_owned()
        })
    );
}
