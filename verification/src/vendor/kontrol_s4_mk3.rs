//! Driver for a DJ controller's pair of built-in screens.
//!
//! The device exposes its two displays through one bulk endpoint. A display
//! update is a single packet: a 16-byte header carrying a signature, the
//! screen index and the viewport; a body of `width * height` pixels in
//! BGR565 big-endian; and a 4-byte footer repeating the screen index.

use vstd::prelude::*;

verus! {

use vstd::arithmetic::mul::lemma_mul_upper_bound;
use vstd::rwlock::RwLock;

use crate::buffer::color_mode::ColorMode;
use crate::buffer::{spec_encode_pixels, Buffer};
use crate::error::{CoreError, CoreResult, DriverResult, Error};
use crate::usb::UsbDevice;

/// Width of one physical screen, in pixels.
pub const WIDTH: u16 = 320;

/// Height of one physical screen, in pixels.
pub const HEIGHT: u16 = 240;

/// Number of independently addressable screens on the device.
pub const SCREEN_NUMBER: usize = 2;

/// The bulk endpoint all display packets are written to.
pub const ENDPOINT: u8 = 3;

/// Length of the packet header, in bytes.
pub const HEADER_LENGTH: usize = 16;

/// Length of the packet footer, in bytes.
pub const FOOTER_LENGTH: usize = 4;

/// The packet length of a full-screen update, the largest possible packet.
pub const MAX_LENGTH: usize = 16 + 4 + 2 * 320 * 240;

/// Timeout of one bulk write, in milliseconds.
pub const TIMEOUT_MS: u64 = 1000;

/// The vendor identifier of the supported hardware.
pub const VENDOR_ID: u16 = 0x17cc;

/// The product identifier of the supported hardware.
pub const PRODUCT_ID: u16 = 0x1720;

/// The layout of one display update: the requested viewport and the target
/// screen, from which the whole packet follows deterministically.
pub struct PacketBuilder {
    pub x: u16,
    pub y: u16,
    pub width: u16,
    pub height: u16,
    pub screen: u8,
}

/// The total packet length: header, one BGR565 pixel pair per requested
/// pixel, and footer.
pub open spec fn spec_packet_length(b: PacketBuilder) -> int {
    HEADER_LENGTH + FOOTER_LENGTH + 2 * (b.width as int) * (b.height as int)
}

/// The 16 header bytes: the constant signature, the screen index, a constant
/// tag, four zero bytes, and the viewport's x, y, width and height, each
/// 16-bit big-endian.
pub open spec fn spec_header(b: PacketBuilder) -> Seq<u8> {
    seq![
        0x84u8,
        0x00u8,
        b.screen,
        0x21u8,
        0x00u8,
        0x00u8,
        0x00u8,
        0x00u8,
        (b.x >> 8u16) as u8,
        b.x as u8,
        (b.y >> 8u16) as u8,
        b.y as u8,
        (b.width >> 8u16) as u8,
        b.width as u8,
        (b.height >> 8u16) as u8,
        b.height as u8,
    ]
}

/// The 4 footer bytes: a constant tag, zero, the screen index, zero.
pub open spec fn spec_footer(b: PacketBuilder) -> Seq<u8> {
    seq![0x40u8, 0x00u8, b.screen, 0x00u8]
}

/// The viewport clamped against the physical canvas: both corners are pulled
/// inside `WIDTH x HEIGHT`; a viewport left with no area at all is `None`.
pub open spec fn spec_trim(b: PacketBuilder) -> Option<(u16, u16, u16, u16)> {
    let x1 = if b.x as int >= WIDTH as int {
        WIDTH as int
    } else {
        b.x as int
    };
    let x2 = if b.x as int + b.width as int >= WIDTH as int {
        WIDTH as int
    } else {
        b.x as int + b.width as int
    };
    let y1 = if b.y as int >= HEIGHT as int {
        HEIGHT as int
    } else {
        b.y as int
    };
    let y2 = if b.y as int + b.height as int >= HEIGHT as int {
        HEIGHT as int
    } else {
        b.y as int + b.height as int
    };
    if x1 == x2 || y1 == y2 {
        None
    } else {
        Some((x1 as u16, y1 as u16, (x2 - x1) as u16, (y2 - y1) as u16))
    }
}

impl PacketBuilder {
    /// Describes an update of `width x height` pixels on `screen`, placed at
    /// the canvas origin.
    pub fn new(width: u16, height: u16, screen: u8) -> (b: PacketBuilder)
        ensures
            b == (PacketBuilder { x: 0, y: 0, width, height, screen }),
    {
        PacketBuilder { x: 0, y: 0, width, height, screen }
    }

    /// Moves the update to position `(x, y)` on the canvas.
    pub fn with_position(self, x: u16, y: u16) -> (b: PacketBuilder)
        ensures
            b == (PacketBuilder { x, y, ..self }),
    {
        PacketBuilder { x, y, ..self }
    }

    /// The exact byte length of the packet this builder describes, computable
    /// without building anything.
    pub fn packet_length(&self) -> (r: usize)
        requires
            spec_packet_length(*self) <= usize::MAX,
        ensures
            r == spec_packet_length(*self),
    {
        let pixels: usize = crate::buffer::calculate_length(self.width, self.height);
        proof {
            vstd::arithmetic::mul::lemma_mul_is_associative(
                2,
                self.width as int,
                self.height as int,
            );
        }
        HEADER_LENGTH + FOOTER_LENGTH + 2 * pixels
    }

    /// Clamps the requested viewport against the physical canvas, returning
    /// the effective `(x, y, width, height)`, or `None` when nothing of the
    /// viewport lies on the canvas.
    pub fn trim_dimensions(&self) -> (r: Option<(u16, u16, u16, u16)>)
        ensures
            r == spec_trim(*self),
    {
        let x1: u16 = if self.x >= WIDTH {
            WIDTH
        } else {
            self.x
        };
        let xe: u32 = self.x as u32 + self.width as u32;
        let x2: u16 = if xe >= WIDTH as u32 {
            WIDTH
        } else {
            xe as u16
        };
        let y1: u16 = if self.y >= HEIGHT {
            HEIGHT
        } else {
            self.y
        };
        let ye: u32 = self.y as u32 + self.height as u32;
        let y2: u16 = if ye >= HEIGHT as u32 {
            HEIGHT
        } else {
            ye as u16
        };
        if x1 == x2 || y1 == y2 {
            None
        } else {
            Some((x1, y1, x2 - x1, y2 - y1))
        }
    }

    /// Writes the 16 header bytes into the front of `buffer`, leaving the
    /// rest alone.
    fn fill_header_unchecked(&self, buffer: &mut Vec<u8>)
        requires
            HEADER_LENGTH <= old(buffer)@.len() <= usize::MAX,
        ensures
            final(buffer)@.len() == old(buffer)@.len(),
            final(buffer)@.take(HEADER_LENGTH as int) == spec_header(*self),
            final(buffer)@.skip(HEADER_LENGTH as int) == old(buffer)@.skip(HEADER_LENGTH as int),
    {
        let ghost pre = buffer@;
        buffer[0] = 0x84;
        buffer[1] = 0x00;
        buffer[2] = self.screen;
        buffer[3] = 0x21;
        buffer[4] = 0x00;
        buffer[5] = 0x00;
        buffer[6] = 0x00;
        buffer[7] = 0x00;
        buffer[8] = (self.x >> 8) as u8;
        buffer[9] = #[verifier::truncate] (self.x as u8);
        buffer[10] = (self.y >> 8) as u8;
        buffer[11] = #[verifier::truncate] (self.y as u8);
        buffer[12] = (self.width >> 8) as u8;
        buffer[13] = #[verifier::truncate] (self.width as u8);
        buffer[14] = (self.height >> 8) as u8;
        buffer[15] = #[verifier::truncate] (self.height as u8);
        proof {
            assert(buffer@.take(HEADER_LENGTH as int) =~= spec_header(*self));
            assert(buffer@.skip(HEADER_LENGTH as int) =~= pre.skip(HEADER_LENGTH as int));
        }
    }

    /// Writes the 4 footer bytes at `offset`, leaving every other byte alone.
    fn fill_footer_unchecked(&self, buffer: &mut Vec<u8>, offset: usize)
        requires
            offset + FOOTER_LENGTH <= old(buffer)@.len() <= usize::MAX,
        ensures
            final(buffer)@.len() == old(buffer)@.len(),
            final(buffer)@.subrange(offset as int, offset + FOOTER_LENGTH) == spec_footer(*self),
            final(buffer)@.take(offset as int) == old(buffer)@.take(offset as int),
            final(buffer)@.skip(offset + FOOTER_LENGTH) == old(buffer)@.skip(
                offset + FOOTER_LENGTH,
            ),
    {
        let ghost pre = buffer@;
        buffer[offset] = 0x40;
        buffer[offset + 1] = 0x00;
        buffer[offset + 2] = self.screen;
        buffer[offset + 3] = 0x00;
        proof {
            assert(buffer@.subrange(offset as int, offset + FOOTER_LENGTH) =~= spec_footer(
                *self,
            ));
            assert(buffer@.take(offset as int) =~= pre.take(offset as int));
            assert(buffer@.skip(offset + FOOTER_LENGTH) =~= pre.skip(offset + FOOTER_LENGTH));
        }
    }

    /// Builds the whole packet into `target`: clamps the viewport, checks
    /// that `target` has exactly the packet length, then writes header, the
    /// BGR565 big-endian body taken from `source`, and footer.
    ///
    /// A viewport with no area on the canvas builds nothing and reports the
    /// explicit empty update `Ok(None)`; a built packet reports its length as
    /// `Ok(Some(length))`.
    pub fn fill_from_buffer<B: Buffer>(&self, target: &mut Vec<u8>, source: B) -> (r: CoreResult<
        Option<usize>,
    >)
        requires
            spec_packet_length(*self) <= usize::MAX,
        ensures
            spec_trim(*self) is None ==> r == CoreResult::<Option<usize>>::Ok(None)
                && final(target)@ == old(target)@,
            spec_trim(*self) is Some && old(target)@.len() != spec_packet_length(*self) ==> r
                == CoreResult::<Option<usize>>::Err(
                CoreError::BufferSizeError {
                    given: old(target).len(),
                    expected: spec_packet_length(*self) as usize,
                },
            ) && final(target)@ == old(target)@,
            ({
                let t = spec_trim(*self);
                t is Some && old(target)@.len() == spec_packet_length(*self) ==> {
                    let (cx, cy, cw, ch) = t->Some_0;
                    let body_len = spec_packet_length(*self) - HEADER_LENGTH - FOOTER_LENGTH;
                    &&& (2 * (cw as int) * (ch as int) != body_len ==> r == CoreResult::<
                        Option<usize>,
                    >::Err(
                        CoreError::BufferSizeError {
                            given: body_len as usize,
                            expected: (2 * (cw as int) * (ch as int)) as usize,
                        },
                    ) && final(target)@ == spec_header(*self) + old(target)@.skip(
                        HEADER_LENGTH as int,
                    ))
                    &&& (2 * (cw as int) * (ch as int) == body_len ==> r == CoreResult::<
                        Option<usize>,
                    >::Ok(Some(spec_packet_length(*self) as usize)) && final(target)@
                        == spec_header(*self) + spec_encode_pixels(
                        source.buffer_pixels(cx, cy, cw, ch),
                        ColorMode::BGR565BE,
                    ) + spec_footer(*self))
                }
            }),
    {
        let (cx, cy, cw, ch) = match self.trim_dimensions() {
            None => {
                return Ok(None);
            },
            Some(t) => t,
        };
        let length = self.packet_length();
        match CoreError::check_length(target, length) {
            Ok(()) => {},
            Err(e) => {
                return Err(e);
            },
        }
        let footer_offset = length - FOOTER_LENGTH;
        let body_len = footer_offset - HEADER_LENGTH;
        self.fill_header_unchecked(target);
        let ghost with_header = target@;
        let ghost pixels = source.buffer_pixels(cx, cy, cw, ch);
        let mut body: Vec<u8> = vec![0u8; body_len];
        proof {
            lemma_mul_upper_bound(cw as int, WIDTH as int, ch as int, HEIGHT as int);
            vstd::arithmetic::mul::lemma_mul_is_associative(2, cw as int, ch as int);
            source.buffer_pixels_len(cx, cy, cw, ch);
            crate::buffer::lemma_encode_pixels_len(pixels, ColorMode::BGR565BE);
        }
        match source.fill_bgr565be(&mut body, cx, cy, cw, ch) {
            Ok(()) => {},
            Err(e) => {
                proof {
                    assert(target@ =~= spec_header(*self) + old(target)@.skip(
                        HEADER_LENGTH as int,
                    ));
                }
                return Err(e);
            },
        }
        write_range(target, HEADER_LENGTH, &body);
        let ghost with_body = target@;
        self.fill_footer_unchecked(target, footer_offset);
        proof {
            assert(target@ =~= spec_header(*self) + spec_encode_pixels(
                source.buffer_pixels(cx, cy, cw, ch),
                ColorMode::BGR565BE,
            ) + spec_footer(*self)) by {
                assert(body@ == spec_encode_pixels(
                    source.buffer_pixels(cx, cy, cw, ch),
                    ColorMode::BGR565BE,
                ));
                assert forall|k: int| 0 <= k < target@.len() implies #[trigger] target@[k] == (
                spec_header(*self) + spec_encode_pixels(
                    source.buffer_pixels(cx, cy, cw, ch),
                    ColorMode::BGR565BE,
                ) + spec_footer(*self))[k] by {
                    if k < HEADER_LENGTH {
                        assert(target@.take(footer_offset as int)[k] == with_body.take(
                            footer_offset as int,
                        )[k]);
                        assert(with_body.take(HEADER_LENGTH as int)[k] == with_header.take(
                            HEADER_LENGTH as int,
                        )[k]);
                        assert(with_header.take(HEADER_LENGTH as int)[k] == spec_header(
                            *self,
                        )[k]);
                    } else if k < footer_offset {
                        assert(target@.take(footer_offset as int)[k] == with_body.take(
                            footer_offset as int,
                        )[k]);
                        assert(with_body.subrange(HEADER_LENGTH as int, footer_offset as int)[k
                            - HEADER_LENGTH] == body@[k - HEADER_LENGTH]);
                    } else {
                        assert(target@.subrange(footer_offset as int, footer_offset
                            + FOOTER_LENGTH)[k - footer_offset] == spec_footer(*self)[k
                            - footer_offset]);
                    }
                }
            }
        }
        Ok(Some(length))
    }
}

/// Copies `from` into `target` starting at `offset`, leaving every byte
/// outside that range alone.
fn write_range(target: &mut Vec<u8>, offset: usize, from: &Vec<u8>)
    requires
        offset + from@.len() <= old(target)@.len() <= usize::MAX,
    ensures
        final(target)@.len() == old(target)@.len(),
        final(target)@.subrange(offset as int, offset + from@.len()) == from@,
        final(target)@.take(offset as int) == old(target)@.take(offset as int),
        final(target)@.skip(offset + from@.len()) == old(target)@.skip(offset + from@.len()),
{
    let ghost pre = target@;
    let mut i: usize = 0;
    while i < from.len()
        invariant
            i <= from@.len(),
            offset + from@.len() <= target@.len() <= usize::MAX,
            target@.len() == pre.len(),
            target@.subrange(offset as int, offset + i) == from@.take(i as int),
            target@.take(offset as int) == pre.take(offset as int),
            target@.skip(offset + from@.len()) == pre.skip(offset + from@.len()),
        decreases from@.len() - i,
    {
        let ghost mid = target@;
        target[offset + i] = from[i];
        proof {
            assert(target@.subrange(offset as int, offset + i + 1) =~= from@.take(i + 1)) by {
                assert forall|k: int| 0 <= k < i + 1 implies #[trigger] (target@.subrange(
                    offset as int,
                    offset + i + 1,
                )[k]) == from@.take(i + 1)[k] by {
                    if k < i {
                        assert(mid.subrange(offset as int, offset + i)[k] == from@.take(
                            i as int,
                        )[k]);
                    }
                }
            }
            assert(target@.take(offset as int) =~= mid.take(offset as int));
            assert(target@.skip(offset + from@.len()) =~= mid.skip(offset + from@.len()));
        }
        i = i + 1;
    }
    proof {
        assert(target@.subrange(offset as int, offset + from@.len()) =~= from@) by {
            assert(from@.take(from@.len() as int) =~= from@);
        }
    }
}

/// The per-screen "checked out" flags after releasing one screen.
pub open spec fn spec_release(s: Seq<bool>, screen_id: int) -> Seq<bool> {
    s.update(screen_id, false)
}

/// Whether an acquire of `screen_id` succeeds against the given flags: the
/// index is in range and the screen is free.
pub open spec fn spec_acquire_ok(s: Seq<bool>, screen_id: int) -> bool {
    0 <= screen_id < s.len() && !s[screen_id]
}

/// A screen released is free again, so the very next acquire of that screen
/// succeeds.
pub proof fn lemma_reacquire_after_release(s: Seq<bool>, screen_id: int)
    requires
        0 <= screen_id < s.len(),
    ensures
        spec_acquire_ok(spec_release(s, screen_id), screen_id),
{
}

/// One "checked out" flag per physical screen, the shared state the
/// controller guards with its lock.
pub struct ScreenSlots {
    pub slots: Vec<bool>,
}

impl ScreenSlots {
    /// Well-formed: one flag per screen of the device.
    pub open spec fn wf(&self) -> bool {
        self.slots@.len() == SCREEN_NUMBER
    }

    /// Whether the screen is currently checked out.
    pub open spec fn spec_acquired(&self, screen_id: int) -> bool {
        self.slots@[screen_id]
    }

    /// All screens start free.
    pub fn new() -> (s: ScreenSlots)
        ensures
            s.wf(),
            forall|i: int| 0 <= i < SCREEN_NUMBER ==> !s.spec_acquired(i),
    {
        let mut slots: Vec<bool> = Vec::new();
        slots.push(false);
        slots.push(false);
        ScreenSlots { slots }
    }

    /// The `Free -> Acquired` transition: flips the flag of a free, valid
    /// screen; an index at or past the screen count is refused with
    /// `InvalidScreen`, an already checked-out screen with `BusyScreen`.
    pub fn try_acquire(&mut self, screen_id: usize) -> (r: CoreResult<()>)
        requires
            old(self).wf(),
        ensures
            final(self).wf(),
            spec_acquire_ok(old(self).slots@, screen_id as int) ==> r == CoreResult::<()>::Ok(())
                && final(self).slots@ == old(self).slots@.update(screen_id as int, true),
            screen_id >= SCREEN_NUMBER ==> r == CoreResult::<()>::Err(
                CoreError::InvalidScreen { screen_id, screen_number: SCREEN_NUMBER },
            ) && final(self).slots@ == old(self).slots@,
            screen_id < SCREEN_NUMBER && old(self).spec_acquired(screen_id as int) ==> r
                == CoreResult::<()>::Err(CoreError::BusyScreen { screen_id }) && final(self).slots@
                == old(self).slots@,
    {
        match CoreError::check_screen(screen_id, SCREEN_NUMBER) {
            Ok(()) => {},
            Err(e) => {
                return Err(e);
            },
        }
        if self.slots[screen_id] {
            match CoreError::throw_busy_screen_error(screen_id) {
                Ok(()) => {},
                Err(e) => {
                    return Err(e);
                },
            }
        }
        self.slots[screen_id] = true;
        Ok(())
    }

    /// The `Acquired -> Free` transition: unconditionally clears the flag.
    pub fn release(&mut self, screen_id: usize)
        requires
            old(self).wf(),
            screen_id < SCREEN_NUMBER,
        ensures
            final(self).wf(),
            final(self).slots@ == spec_release(old(self).slots@, screen_id as int),
    {
        self.slots[screen_id] = false;
    }
}

/// The lock invariant of the controller's slot state: it always holds one
/// flag per screen.
pub struct SlotsWellFormed;

impl vstd::rwlock::RwLockPredicate<ScreenSlots> for SlotsWellFormed {
    open spec fn inv(self, v: ScreenSlots) -> bool {
        v.wf()
    }
}

/// The screen access controller: owns the transport handle and tracks, under
/// a lock, which screens are checked out.
pub struct KontrolS4MK3Driver<DEV: UsbDevice> {
    handle: DEV,
    acquired_screens: RwLock<ScreenSlots, SlotsWellFormed>,
}

/// A capability for one screen: while it exists, nothing else can acquire
/// that screen. It owns the scratch buffer packets are built in and must be
/// given back with [`Handle::release`] when the writer is done.
pub struct Handle<'a, DEV: UsbDevice> {
    driver: &'a KontrolS4MK3Driver<DEV>,
    screen: u8,
    buffer: Vec<u8>,
}

/// The name this driver reports in `UnsupportedDevice` failures.
pub open spec fn spec_driver_name() -> Seq<char> {
    "National Instrument Traktor Kontrol S4 MK3"@
}

/// The name this driver reports in `UnsupportedDevice` failures.
pub fn driver_name() -> (s: String)
    ensures
        s@ == spec_driver_name(),
{
    "National Instrument Traktor Kontrol S4 MK3".to_owned()
}

impl<DEV: UsbDevice> KontrolS4MK3Driver<DEV> {
    /// Accepts exactly the vendor/product pair of the supported hardware;
    /// any other identity is refused with `UnsupportedDevice` carrying that
    /// identity and this driver's name.
    pub fn check_device_id(vendor_id: u16, product_id: u16) -> (r: CoreResult<()>)
        ensures
            vendor_id == VENDOR_ID && product_id == PRODUCT_ID ==> r == CoreResult::<()>::Ok(()),
            !(vendor_id == VENDOR_ID && product_id == PRODUCT_ID) ==> (r matches CoreResult::<
                (),
            >::Err(CoreError::UnsupportedDevice {
                vendor_id: v,
                product_id: p,
                driver: d,
            }) && v == vendor_id && p == product_id && d@ == spec_driver_name()),
    {
        if vendor_id != VENDOR_ID || product_id != PRODUCT_ID {
            match CoreError::throw_unsupported_device_error(vendor_id, product_id, driver_name()) {
                Ok(()) => {},
                Err(e) => {
                    return Err(e);
                },
            }
        }
        Ok(())
    }

    /// Asks the transport for the device's identity and checks it against the
    /// identity this driver is made for.
    pub fn is_made_for(handle: &DEV) -> (r: DriverResult<(), DEV>)
        ensures
            r is Ok || (r matches DriverResult::<(), DEV>::Err(Error::Core(
                CoreError::UnsupportedDevice { vendor_id: v, product_id: p, driver: d },
            )) && d@ == spec_driver_name()),
    {
        let ids = handle.product_information();
        match Self::check_device_id(ids.vendor_id, ids.product_id) {
            Ok(()) => Ok(()),
            Err(e) => Err(Error::Core(e)),
        }
    }

    /// Builds the controller around an opened transport handle, with every
    /// screen free, after checking the hardware identity; a mismatch refuses
    /// construction with `UnsupportedDevice`.
    pub fn try_init(handle: DEV) -> (r: DriverResult<Self, DEV>)
        ensures
            r is Ok || (r matches DriverResult::<Self, DEV>::Err(Error::Core(
                CoreError::UnsupportedDevice { vendor_id: v, product_id: p, driver: d },
            )) && d@ == spec_driver_name()),
    {
        match Self::is_made_for(&handle) {
            Ok(()) => {},
            Err(e) => {
                return Err(e);
            },
        }
        Ok(
            KontrolS4MK3Driver {
                handle,
                acquired_screens: RwLock::new(ScreenSlots::new(), Ghost(SlotsWellFormed)),
            },
        )
    }

    /// Checks the requested screen out: fails with `InvalidScreen` on an
    /// index at or past the screen count, with `BusyScreen` when another
    /// handle holds the screen, and otherwise hands out the screen's handle.
    /// Concurrent acquires are serialized by the controller's lock.
    pub fn acquire_screen<'a>(&'a self, screen_id: usize) -> (r: DriverResult<
        Handle<'a, DEV>,
        DEV,
    >)
        ensures
            screen_id >= SCREEN_NUMBER ==> r == DriverResult::<Handle<'a, DEV>, DEV>::Err(
                Error::Core(
                    CoreError::InvalidScreen { screen_id, screen_number: SCREEN_NUMBER },
                ),
            ),
            screen_id < SCREEN_NUMBER ==> ((r matches DriverResult::<Handle<'a, DEV>, DEV>::Ok(h)
                && h.wf() && h.spec_screen() == screen_id) || r == DriverResult::<
                Handle<'a, DEV>,
                DEV,
            >::Err(Error::Core(CoreError::BusyScreen { screen_id }))),
    {
        let (mut slots, write_handle) = self.acquired_screens.acquire_write();
        let result = slots.try_acquire(screen_id);
        write_handle.release_write(slots);
        match result {
            Ok(()) => Ok(
                Handle { driver: self, screen: screen_id as u8, buffer: vec![0u8; MAX_LENGTH] },
            ),
            Err(e) => Err(Error::Core(e)),
        }
    }
}

impl<'a, DEV: UsbDevice> Handle<'a, DEV> {
    /// Well-formed: bound to one of the device's screens.
    pub closed spec fn wf(&self) -> bool {
        (self.screen as int) < SCREEN_NUMBER
    }

    /// The screen this handle is bound to.
    pub closed spec fn spec_screen(&self) -> int {
        self.screen as int
    }

    /// The screen's width in pixels.
    pub fn width(&self) -> (r: u16)
        ensures
            r == WIDTH,
    {
        WIDTH
    }

    /// The screen's height in pixels.
    pub fn height(&self) -> (r: u16)
        ensures
            r == HEIGHT,
    {
        HEIGHT
    }

    /// Builds the packet for the requested viewport into this handle's
    /// scratch buffer and performs one blocking bulk write of exactly the
    /// packet to the device's endpoint.
    ///
    /// A viewport with no area on the canvas is an explicit no-op: nothing is
    /// written to the transport and the call succeeds. A viewport the canvas
    /// cuts down (rather than contains) cannot fill the packet its header
    /// promises and is refused with the exact `BufferSizeError`. For a
    /// contained viewport the packet is written, and only the transport's
    /// own verdict decides between success and a transport error.
    pub fn send_buffer<B: Buffer>(
        &mut self,
        source: B,
        x: u16,
        y: u16,
        width: u16,
        height: u16,
    ) -> (r: DriverResult<(), DEV>)
        requires
            old(self).wf(),
            spec_packet_length(
                PacketBuilder { x, y, width, height, screen: old(self).spec_screen() as u8 },
            ) <= usize::MAX,
        ensures
            final(self).wf(),
            final(self).spec_screen() == old(self).spec_screen(),
            ({
                let b = PacketBuilder { x, y, width, height, screen: old(self).spec_screen() as u8 };
                &&& (spec_trim(b) is None ==> r is Ok)
                &&& ((spec_trim(b) matches Some((cx, cy, cw, ch)) && 2 * (cw as int) * (
                ch as int) != spec_packet_length(b) - HEADER_LENGTH - FOOTER_LENGTH) ==> r
                    == DriverResult::<(), DEV>::Err(
                    Error::Core(
                        CoreError::BufferSizeError {
                            given: (spec_packet_length(b) - HEADER_LENGTH
                                - FOOTER_LENGTH) as usize,
                            expected: (2 * ((spec_trim(b)->Some_0).2 as int) * ((spec_trim(
                                b,
                            )->Some_0).3 as int)) as usize,
                        },
                    ),
                ))
                &&& ((spec_trim(b) matches Some((cx, cy, cw, ch)) && 2 * (cw as int) * (
                ch as int) == spec_packet_length(b) - HEADER_LENGTH - FOOTER_LENGTH) ==> (r is Ok
                    || (r matches DriverResult::<(), DEV>::Err(Error::Usb(_)))))
            }),
    {
        let builder = PacketBuilder::new(width, height, self.screen).with_position(x, y);
        let to = builder.packet_length();
        self.buffer = vec![0u8; to];
        let filled = match builder.fill_from_buffer(&mut self.buffer, source) {
            Ok(f) => f,
            Err(e) => {
                return Err(Error::Core(e));
            },
        };
        match filled {
            None => Ok(()),
            Some(_packet_length) => {
                match self.driver.handle.write_bulk(ENDPOINT, self.buffer.as_slice(), TIMEOUT_MS) {
                    Ok(_) => Ok(()),
                    Err(e) => Err(Error::Usb(e)),
                }
            },
        }
    }

    /// Gives the screen back: clears its "checked out" flag so that a later
    /// acquire of the same screen succeeds. Call this when the writer is
    /// done; the screen stays checked out until then.
    pub fn release(self)
        requires
            self.wf(),
    {
        let Handle { driver, screen, buffer: _ } = self;
        let (mut slots, write_handle) = driver.acquired_screens.acquire_write();
        if (screen as usize) < SCREEN_NUMBER {
            slots.release(screen as usize);
        }
        write_handle.release_write(slots);
    }
}

} // verus!
