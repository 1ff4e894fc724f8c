use dj_screen::test_helper::{Color, DummyBuffer};
use dj_screen::{IntoPixelIter, PixelIter};

fn color_red() -> Color {
    Color::new(0xFF, 0x00, 0x00)
}

#[test]
fn mod_test_iterator() {
    const WIDTH: u16 = 35;
    const HEIGHT: u16 = 45;

    const LENGTH: usize = WIDTH as usize * HEIGHT as usize;

    let buffer = DummyBuffer::new(color_red());
    let mut iter = (&buffer).into_pixel_iter(10, 10, WIDTH, HEIGHT);

    let mut i = 0;

    while let Some(_) = iter.next() {
        i += 1;

        if i > LENGTH {
            panic!("Number of access exceeded")
        }
    }

    assert_eq!(i, LENGTH);
}

#[test]
fn plain_buffer_test_iterator() {
    const WIDTH: u16 = 35;
    const HEIGHT: u16 = 45;

    const LENGTH: usize = WIDTH as usize * HEIGHT as usize;

    let buffer = DummyBuffer::new(color_red());
    let mut iter = (&buffer).into_pixel_iter(10, 10, WIDTH, HEIGHT);

    let mut i = 0;

    while let Some(_) = iter.next() {
        i += 1;

        if i > LENGTH {
            panic!("Number of access exceeded")
        }
    }

    assert_eq!(i, LENGTH);
}

#[test]
fn test_color_channels() {
    let c = Color::new(1, 2, 3);
    assert_eq!(c.red(), 1);
    assert_eq!(c.green(), 2);
    assert_eq!(c.blue(), 3);
}
