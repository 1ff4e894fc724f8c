pub mod buffer;
pub mod error;
pub mod test_helper;
pub mod usb;
pub mod vendor;

pub use buffer::color::Color;
pub use buffer::color_mode::ColorMode;
pub use buffer::color_mode::StorageMode;
pub use buffer::component::Component;
pub use buffer::calculate_length;
pub use buffer::copy_buffer;
pub use buffer::generic_fill;
pub use buffer::generic_subpixel_fill;
pub use buffer::Buffer;
pub use buffer::IntoPixelIter;
pub use buffer::PixelIter;
pub use error::CoreError;
pub use error::CoreResult;
pub use error::DriverResult;
pub use error::Error;
pub use usb::ProductInformation;
pub use usb::UsbDevice;
