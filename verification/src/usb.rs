use vstd::prelude::*;

verus! {

/// The identity a transport reports for the hardware behind a handle.
pub struct ProductInformation {
    pub vendor_id: u16,
    pub product_id: u16,
}

/// The transport interface this crate drives a device through.
///
/// Implementations live outside the verified core (a USB library binding, or
/// a test double); their results are taken as they come, with no promises.
pub trait UsbDevice: Sized {
    type Error;

    /// Reports the vendor/product identifier pair of the opened hardware.
    fn product_information(&self) -> ProductInformation;

    /// Performs one blocking bulk write of `data` to the given endpoint,
    /// returning the number of bytes written or a transport-defined error.
    fn write_bulk(
        &self,
        bulk_endpoint: u8,
        data: &[u8],
        timeout_millis: u64,
    ) -> Result<usize, Self::Error>;
}

} // verus!
