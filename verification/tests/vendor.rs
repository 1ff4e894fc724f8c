use std::cell::RefCell;
use std::rc::Rc;

use dj_screen::test_helper::{Color, DummyBuffer};
use dj_screen::vendor::kontrol_s4_mk3::{KontrolS4MK3Driver, PacketBuilder, ScreenSlots};
use dj_screen::{CoreError, Error, ProductInformation, UsbDevice};

type WriteLog = Rc<RefCell<Vec<(u8, Vec<u8>)>>>;

struct MockDevice {
    vendor_id: u16,
    product_id: u16,
    writes: WriteLog,
}

impl MockDevice {
    fn supported() -> (MockDevice, WriteLog) {
        let log: WriteLog = Rc::new(RefCell::new(Vec::new()));
        (
            MockDevice {
                vendor_id: 0x17cc,
                product_id: 0x1720,
                writes: Rc::clone(&log),
            },
            log,
        )
    }
}

impl UsbDevice for MockDevice {
    type Error = u32;

    fn product_information(&self) -> ProductInformation {
        ProductInformation {
            vendor_id: self.vendor_id,
            product_id: self.product_id,
        }
    }

    fn write_bulk(
        &self,
        bulk_endpoint: u8,
        data: &[u8],
        _timeout_millis: u64,
    ) -> Result<usize, u32> {
        self.writes.borrow_mut().push((bulk_endpoint, data.to_vec()));
        Ok(data.len())
    }
}

fn red() -> Color {
    Color::new(0xFF, 0x00, 0x00)
}

fn builder() -> PacketBuilder {
    PacketBuilder::new(16, 16, 5).with_position(16, 16)
}

#[test]
fn test_buffer_size() {
    assert_eq!(builder().packet_length(), 2 * 256 + 16 + 4);
}

#[test]
fn test_reference_packet() {
    // The packet a 16x16 viewport at (16, 16) on screen 5, filled from a
    // constant red source, must produce, byte for byte.
    let mut reference = vec![
        0x84u8, 0x00, 0x05, 0x21, 0x00, 0x00, 0x00, 0x00, 0x00, 0x10, 0x00, 0x10, 0x00, 0x10,
        0x00, 0x10,
    ];
    // Red in BGR565 big-endian: blue 00000, green 000000, red 11111 -> 0x001F.
    for _ in 0..256 {
        reference.push(0x00);
        reference.push(0x1F);
    }
    reference.extend_from_slice(&[0x40, 0x00, 0x05, 0x00]);

    let mut buffer = vec![0u8; builder().packet_length()];
    let dummy = DummyBuffer::new(red());

    let r = builder().fill_from_buffer(&mut buffer, &dummy);
    assert_eq!(r, Ok(Some(2 * 256 + 16 + 4)));

    assert_eq!(buffer, reference);
}

#[test]
fn test_trim_dimensions() {
    let b = PacketBuilder::new(20, 20, 0).with_position(310, 230);
    assert_eq!(b.trim_dimensions(), Some((310, 230, 10, 10)));

    let b = PacketBuilder::new(20, 20, 0).with_position(400, 0);
    assert_eq!(b.trim_dimensions(), None);

    let b = PacketBuilder::new(320, 240, 1);
    assert_eq!(b.trim_dimensions(), Some((0, 0, 320, 240)));

    let b = PacketBuilder::new(0, 10, 0).with_position(5, 5);
    assert_eq!(b.trim_dimensions(), None);
}

#[test]
fn test_fill_wrong_buffer_length() {
    let dummy = DummyBuffer::new(red());
    let mut buffer = vec![0u8; 100];
    assert_eq!(
        builder().fill_from_buffer(&mut buffer, &dummy),
        Err(CoreError::BufferSizeError {
            given: 100,
            expected: 532
        })
    );
    assert_eq!(buffer, vec![0u8; 100]);
}

#[test]
fn test_fill_out_of_bounds_is_noop() {
    let dummy = DummyBuffer::new(red());
    let b = PacketBuilder::new(20, 20, 0).with_position(400, 0);
    let mut buffer = vec![0u8; b.packet_length()];
    assert_eq!(b.fill_from_buffer(&mut buffer, &dummy), Ok(None));
    assert_eq!(buffer, vec![0u8; 20 + 2 * 400]);
}

#[test]
fn test_fill_partially_clamped_fails() {
    // A viewport the canvas cuts down cannot fill the body its header
    // promises: 20x20 requested, 10x10 effective.
    let dummy = DummyBuffer::new(red());
    let b = PacketBuilder::new(20, 20, 0).with_position(310, 230);
    let mut buffer = vec![0u8; b.packet_length()];
    assert_eq!(
        b.fill_from_buffer(&mut buffer, &dummy),
        Err(CoreError::BufferSizeError {
            given: 2 * 400,
            expected: 2 * 100
        })
    );
}

#[test]
fn test_screen_slots_transitions() {
    let mut slots = ScreenSlots::new();
    assert_eq!(
        slots.try_acquire(2),
        Err(CoreError::InvalidScreen {
            screen_id: 2,
            screen_number: 2
        })
    );
    assert_eq!(slots.try_acquire(0), Ok(()));
    assert_eq!(
        slots.try_acquire(0),
        Err(CoreError::BusyScreen { screen_id: 0 })
    );
    assert_eq!(slots.try_acquire(1), Ok(()));
    slots.release(0);
    assert_eq!(slots.try_acquire(0), Ok(()));
}

#[test]
fn test_try_init_rejects_wrong_device() {
    let device = MockDevice {
        vendor_id: 0x1111,
        product_id: 0x2222,
        writes: Rc::new(RefCell::new(Vec::new())),
    };
    match KontrolS4MK3Driver::try_init(device) {
        Err(Error::Core(CoreError::UnsupportedDevice {
            vendor_id,
            product_id,
            driver,
        })) => {
            assert_eq!(vendor_id, 0x1111);
            assert_eq!(product_id, 0x2222);
            assert_eq!(driver, "National Instrument Traktor Kontrol S4 MK3");
        }
        _ => panic!("expected an unsupported-device failure"),
    }
}

#[test]
fn test_acquire_release_cycle() {
    let (device, _log) = MockDevice::supported();
    let Ok(driver) = KontrolS4MK3Driver::try_init(device) else {
        panic!("expected the supported identity to be accepted");
    };

    let r = driver.acquire_screen(5);
    assert!(matches!(
        r,
        Err(Error::Core(CoreError::InvalidScreen {
            screen_id: 5,
            screen_number: 2
        }))
    ));

    let Ok(first) = driver.acquire_screen(0) else {
        panic!("expected a free screen to be acquired");
    };
    assert!(matches!(
        driver.acquire_screen(0),
        Err(Error::Core(CoreError::BusyScreen { screen_id: 0 }))
    ));

    let Ok(second) = driver.acquire_screen(1) else {
        panic!("expected the other screen to be independent");
    };
    second.release();

    first.release();
    let Ok(again) = driver.acquire_screen(0) else {
        panic!("expected a released screen to be acquirable again");
    };
    again.release();
}

#[test]
fn test_send_writes_one_packet() {
    let (device, log) = MockDevice::supported();
    let Ok(driver) = KontrolS4MK3Driver::try_init(device) else {
        panic!("expected the supported identity to be accepted");
    };
    let Ok(mut screen) = driver.acquire_screen(1) else {
        panic!("expected a free screen to be acquired");
    };
    assert_eq!(screen.width(), 320);
    assert_eq!(screen.height(), 240);

    let dummy = DummyBuffer::new(red());
    let r = screen.send_buffer(&dummy, 16, 16, 16, 16);
    assert!(r.is_ok());
    screen.release();

    // One bulk write, to endpoint 3, of exactly the packet.
    let writes = log.borrow();
    assert_eq!(writes.len(), 1);
    assert_eq!(writes[0].0, 3);
    assert_eq!(writes[0].1.len(), 2 * 256 + 16 + 4);
    assert_eq!(
        &writes[0].1[..16],
        &[0x84, 0x00, 0x01, 0x21, 0, 0, 0, 0, 0, 16, 0, 16, 0, 16, 0, 16]
    );
    assert_eq!(&writes[0].1[16..18], &[0x00, 0x1F]);
    assert_eq!(&writes[0].1[528..], &[0x40, 0x00, 0x01, 0x00]);
}

#[test]
fn test_send_out_of_bounds_performs_no_write() {
    let (device, log) = MockDevice::supported();
    let Ok(driver) = KontrolS4MK3Driver::try_init(device) else {
        panic!("expected the supported identity to be accepted");
    };
    let Ok(mut screen) = driver.acquire_screen(0) else {
        panic!("expected a free screen to be acquired");
    };

    let dummy = DummyBuffer::new(red());
    // Fully outside the canvas: an explicit no-op, nothing reaches the
    // transport.
    let r = screen.send_buffer(&dummy, 400, 0, 20, 20);
    assert!(r.is_ok());

    // A viewport the canvas cuts down is refused before any write, too.
    let r = screen.send_buffer(&dummy, 310, 230, 20, 20);
    assert!(matches!(
        r,
        Err(Error::Core(CoreError::BufferSizeError {
            given: 800,
            expected: 200
        }))
    ));
    screen.release();

    assert_eq!(log.borrow().len(), 0);
}
