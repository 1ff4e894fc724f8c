use vstd::prelude::*;

use crate::usb::UsbDevice;

verus! {

/// Result alias for operations that can only fail inside this crate's own
/// logic, never in the transport.
pub type CoreResult<T> = Result<T, CoreError>;

/// Result alias for operations that may also fail in the transport backing a
/// device.
pub type DriverResult<T, BACKEND> = Result<T, Error<BACKEND>>;

/// Errors raised by the crate's own logic.
#[derive(Debug)]
pub enum CoreError {
    /// A caller-supplied byte region does not have the exact length an
    /// encoding requires.
    BufferSizeError { given: usize, expected: usize },
    /// A screen index at or above the device's screen count was requested.
    InvalidScreen { screen_id: usize, screen_number: usize },
    /// The opened hardware does not match the driver's expected identity.
    UnsupportedDevice { vendor_id: u16, product_id: u16, driver: String },
    /// The requested screen is already checked out by another handle.
    BusyScreen { screen_id: usize },
}

/// Either a [`CoreError`] or an opaque error of the transport.
pub enum Error<BACKEND: UsbDevice> {
    Core(CoreError),
    Usb(BACKEND::Error),
}

impl PartialEq for CoreError {
    fn eq(&self, other: &CoreError) -> (r: bool) {
        match (self, other) {
            (
                CoreError::BufferSizeError { given: g1, expected: e1 },
                CoreError::BufferSizeError { given: g2, expected: e2 },
            ) => g1 == g2 && e1 == e2,
            (
                CoreError::InvalidScreen { screen_id: s1, screen_number: n1 },
                CoreError::InvalidScreen { screen_id: s2, screen_number: n2 },
            ) => s1 == s2 && n1 == n2,
            (
                CoreError::UnsupportedDevice { vendor_id: v1, product_id: p1, driver: d1 },
                CoreError::UnsupportedDevice { vendor_id: v2, product_id: p2, driver: d2 },
            ) => v1 == v2 && p1 == p2 && *d1 == *d2,
            (
                CoreError::BusyScreen { screen_id: s1 },
                CoreError::BusyScreen { screen_id: s2 },
            ) => s1 == s2,
            _ => false,
        }
    }
}

impl vstd::std_specs::cmp::PartialEqSpecImpl for CoreError {
    open spec fn obeys_eq_spec() -> bool {
        true
    }

    open spec fn eq_spec(&self, other: &CoreError) -> bool {
        match (self, other) {
            (
                CoreError::BufferSizeError { given: g1, expected: e1 },
                CoreError::BufferSizeError { given: g2, expected: e2 },
            ) => g1 == g2 && e1 == e2,
            (
                CoreError::InvalidScreen { screen_id: s1, screen_number: n1 },
                CoreError::InvalidScreen { screen_id: s2, screen_number: n2 },
            ) => s1 == s2 && n1 == n2,
            (
                CoreError::UnsupportedDevice { vendor_id: v1, product_id: p1, driver: d1 },
                CoreError::UnsupportedDevice { vendor_id: v2, product_id: p2, driver: d2 },
            ) => v1 == v2 && p1 == p2 && d1@ == d2@,
            (
                CoreError::BusyScreen { screen_id: s1 },
                CoreError::BusyScreen { screen_id: s2 },
            ) => s1 == s2,
            _ => false,
        }
    }
}

impl CoreError {
    /// Checks that a byte region has exactly the expected length.
    pub fn check_length(buf: &Vec<u8>, expected: usize) -> (r: CoreResult<()>)
        ensures
            buf@.len() == expected ==> r == CoreResult::<()>::Ok(()),
            buf@.len() != expected ==> r == CoreResult::<()>::Err(
                CoreError::BufferSizeError { given: buf.len(), expected },
            ),
    {
        if buf.len() == expected {
            Ok(())
        } else {
            Err(CoreError::BufferSizeError { given: buf.len(), expected })
        }
    }

    /// Checks that a screen index lies below the screen count.
    pub fn check_screen(screen: usize, expected: usize) -> (r: CoreResult<()>)
        ensures
            screen < expected ==> r == CoreResult::<()>::Ok(()),
            screen >= expected ==> r == CoreResult::<()>::Err(
                CoreError::InvalidScreen { screen_id: screen, screen_number: expected },
            ),
    {
        if screen < expected {
            Ok(())
        } else {
            Err(CoreError::InvalidScreen { screen_id: screen, screen_number: expected })
        }
    }

    /// Builds the failure raised when the opened hardware is not the one the
    /// named driver is made for.
    pub fn throw_unsupported_device_error(
        vendor_id: u16,
        product_id: u16,
        driver: String,
    ) -> (r: CoreResult<()>)
        ensures
            r == CoreResult::<()>::Err(
                CoreError::UnsupportedDevice { vendor_id, product_id, driver },
            ),
    {
        Err(CoreError::UnsupportedDevice { vendor_id, product_id, driver })
    }

    /// Builds the failure raised when a screen is already checked out.
    pub fn throw_busy_screen_error(screen_id: usize) -> (r: CoreResult<()>)
        ensures
            r == CoreResult::<()>::Err(CoreError::BusyScreen { screen_id }),
    {
        Err(CoreError::BusyScreen { screen_id })
    }
}

impl<BACKEND: UsbDevice> From<CoreError> for Error<BACKEND> {
    fn from(error: CoreError) -> (r: Self) {
        Error::Core(error)
    }
}

impl<BACKEND: UsbDevice> vstd::std_specs::convert::FromSpecImpl<CoreError> for Error<BACKEND> {
    open spec fn obeys_from_spec() -> bool {
        true
    }

    open spec fn from_spec(error: CoreError) -> Self {
        Error::Core(error)
    }
}

} // verus!
