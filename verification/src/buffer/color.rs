use vstd::prelude::*;

use crate::buffer::component::Component;
use crate::buffer::{spec_max3, spec_max3_u8};
use crate::error::{CoreError, CoreResult};

verus! {

/// The packed 16-bit value with red in the 5 high bits, green in the 6
/// middle bits and blue in the 5 low bits.
pub open spec fn spec_rgb565(r: u8, g: u8, b: u8) -> u16 {
    ((((r & 0xf8) as u16) << 8u16) | (((g & 0xfc) as u16) << 3u16)) | (((b & 0xf8) as u16)
        >> 3u16)
}

/// The packed 16-bit value with blue in the 5 high bits, green in the 6
/// middle bits and red in the 5 low bits.
pub open spec fn spec_bgr565(r: u8, g: u8, b: u8) -> u16 {
    ((((r & 0xf8) as u16) >> 3u16) | (((g & 0xfc) as u16) << 3u16)) | (((b & 0xf8) as u16)
        << 8u16)
}

/// The luminance byte of a component triple: the largest of the three most
/// significant bytes.
pub open spec fn spec_lum_c<T: Component>(c: (T, T, T)) -> u8 {
    spec_max3_u8(c.0.spec_msb(), c.1.spec_msb(), c.2.spec_msb())
}

/// The RGB565 value of a component triple.
pub open spec fn spec_rgb565_c<T: Component>(c: (T, T, T)) -> u16 {
    spec_rgb565(c.0.spec_msb(), c.1.spec_msb(), c.2.spec_msb())
}

/// The BGR565 value of a component triple.
pub open spec fn spec_bgr565_c<T: Component>(c: (T, T, T)) -> u16 {
    spec_bgr565(c.0.spec_msb(), c.1.spec_msb(), c.2.spec_msb())
}

/// The raw 3-byte red, green, blue encoding of a component triple.
pub open spec fn spec_rgb_bytes_c<T: Component>(c: (T, T, T)) -> Seq<u8> {
    seq![c.0.spec_msb(), c.1.spec_msb(), c.2.spec_msb()]
}

/// The raw 3-byte blue, green, red encoding of a component triple.
pub open spec fn spec_bgr_bytes_c<T: Component>(c: (T, T, T)) -> Seq<u8> {
    seq![c.2.spec_msb(), c.1.spec_msb(), c.0.spec_msb()]
}

/// The two bytes of a 16-bit value, least significant first.
pub open spec fn spec_u16_le(v: u16) -> Seq<u8> {
    seq![v as u8, (v >> 8u16) as u8]
}

/// The two bytes of a 16-bit value, most significant first.
pub open spec fn spec_u16_be(v: u16) -> Seq<u8> {
    seq![(v >> 8u16) as u8, v as u8]
}

/// The 16-bit grayscale value of a color: its luminance byte widened to
/// 16-bit precision by replication, so that full black and full white map to
/// the extremes of the wider range.
pub open spec fn spec_gray16(c: u8) -> u16 {
    (((c as u16) << 8u16) | (c as u16))
}

/// One byte of 1-bit grayscale: the top bit of each of 8 luminances, the
/// first pixel in the most significant position.
pub open spec fn spec_gray1_byte(
    l0: u8, l1: u8, l2: u8, l3: u8, l4: u8, l5: u8, l6: u8, l7: u8,
) -> u8 {
    (((((((((l0 >> 7u8) << 7u8) | ((l1 >> 7u8) << 6u8)) | ((l2 >> 7u8) << 5u8)) | ((l3 >> 7u8)
        << 4u8)) | ((l4 >> 7u8) << 3u8)) | ((l5 >> 7u8) << 2u8)) | ((l6 >> 7u8) << 1u8)) | (l7
        >> 7u8))
}

/// One byte of 2-bit grayscale: the top 2 bits of each of 4 luminances, the
/// first pixel in the most significant position.
pub open spec fn spec_gray2_byte(l0: u8, l1: u8, l2: u8, l3: u8) -> u8 {
    (((((l0 >> 6u8) << 6u8) | ((l1 >> 6u8) << 4u8)) | ((l2 >> 6u8) << 2u8)) | (l3 >> 6u8))
}

/// One byte of 4-bit grayscale: the top 4 bits of each of 2 luminances, the
/// first pixel in the most significant position.
pub open spec fn spec_gray4_byte(l0: u8, l1: u8) -> u8 {
    (((l0 >> 4u8) << 4u8) | (l1 >> 4u8))
}

/// A color: an ephemeral value exposing a red, a green and a blue channel of
/// one uniform component width, consumed by conversion into a wire encoding.
pub trait Color: Sized {
    type Component: Component;

    /// The three channel components, in red, green, blue order.
    spec fn spec_components(self) -> (Self::Component, Self::Component, Self::Component);

    /// Takes the color apart into its red, green and blue components.
    fn components(self) -> (r: (Self::Component, Self::Component, Self::Component))
        ensures
            r == self.spec_components(),
    ;

    /// Packs the color into a 16-bit RGB565 value: 5 bits red (high), 6 bits
    /// green, 5 bits blue (low), each taken from the channel's most
    /// significant byte.
    fn into_rgb565(self) -> (r: u16)
        ensures
            r == spec_rgb565_c(self.spec_components()),
    {
        let (red, green, blue) = self.components();
        let rm = red.most_significant_byte();
        let gm = green.most_significant_byte();
        let bm = blue.most_significant_byte();
        ((((rm & 0xf8) as u16) << 8u16) | (((gm & 0xfc) as u16) << 3u16)) | (((bm & 0xf8) as u16)
            >> 3u16)
    }

    /// Packs the color into a 16-bit BGR565 value: 5 bits blue (high), 6 bits
    /// green, 5 bits red (low), each taken from the channel's most
    /// significant byte.
    fn into_bgr565(self) -> (r: u16)
        ensures
            r == spec_bgr565_c(self.spec_components()),
    {
        let (red, green, blue) = self.components();
        let rm = red.most_significant_byte();
        let gm = green.most_significant_byte();
        let bm = blue.most_significant_byte();
        ((((rm & 0xf8) as u16) >> 3u16) | (((gm & 0xfc) as u16) << 3u16)) | (((bm & 0xf8) as u16)
            << 8u16)
    }

    /// The channel-wise maximum of the three components; its most significant
    /// byte is the color's luminance.
    fn luminance(self) -> (r: Self::Component)
        ensures
            r.spec_msb() == spec_lum_c(self.spec_components()),
            r.spec_val() == spec_max3(
                self.spec_components().0.spec_val(),
                self.spec_components().1.spec_val(),
                self.spec_components().2.spec_val(),
            ),
    {
        let (red, green, blue) = self.components();
        red.max_component(green, blue)
    }

    /// Writes the 3-byte red, green, blue encoding into `buf`.
    fn fill_rgb(self, buf: &mut Vec<u8>) -> (r: CoreResult<()>)
        ensures
            old(buf)@.len() == 3 ==> r == CoreResult::<()>::Ok(()) && final(buf)@
                == spec_rgb_bytes_c(self.spec_components()),
            old(buf)@.len() != 3 ==> r == CoreResult::<()>::Err(
                CoreError::BufferSizeError { given: old(buf).len(), expected: 3 },
            ) && final(buf)@ == old(buf)@,
    {
        match CoreError::check_length(buf, 3) {
            Ok(()) => {},
            Err(e) => {
                return Err(e);
            },
        }
        let (red, green, blue) = self.components();
        buf[0] = red.most_significant_byte();
        buf[1] = green.most_significant_byte();
        buf[2] = blue.most_significant_byte();
        proof {
            assert(buf@ =~= spec_rgb_bytes_c(self.spec_components()));
        }
        Ok(())
    }

    /// Writes the 3-byte blue, green, red encoding into `buf`.
    fn fill_bgr(self, buf: &mut Vec<u8>) -> (r: CoreResult<()>)
        ensures
            old(buf)@.len() == 3 ==> r == CoreResult::<()>::Ok(()) && final(buf)@
                == spec_bgr_bytes_c(self.spec_components()),
            old(buf)@.len() != 3 ==> r == CoreResult::<()>::Err(
                CoreError::BufferSizeError { given: old(buf).len(), expected: 3 },
            ) && final(buf)@ == old(buf)@,
    {
        match CoreError::check_length(buf, 3) {
            Ok(()) => {},
            Err(e) => {
                return Err(e);
            },
        }
        let (red, green, blue) = self.components();
        buf[0] = blue.most_significant_byte();
        buf[1] = green.most_significant_byte();
        buf[2] = red.most_significant_byte();
        proof {
            assert(buf@ =~= spec_bgr_bytes_c(self.spec_components()));
        }
        Ok(())
    }

    /// Writes the RGB565 value into `buf`, least significant byte first.
    fn fill_rgb565le(self, buf: &mut Vec<u8>) -> (r: CoreResult<()>)
        ensures
            old(buf)@.len() == 2 ==> r == CoreResult::<()>::Ok(()) && final(buf)@ == spec_u16_le(
                spec_rgb565_c(self.spec_components()),
            ),
            old(buf)@.len() != 2 ==> r == CoreResult::<()>::Err(
                CoreError::BufferSizeError { given: old(buf).len(), expected: 2 },
            ) && final(buf)@ == old(buf)@,
    {
        let ghost c = self;
        let v = self.into_rgb565();
        let r = v.convert_le(buf);
        proof {
            if old(buf)@.len() == 2 {
                assert(buf@ =~= spec_u16_le(
                    spec_rgb565_c(c.spec_components()),
                ));
            }
        }
        r
    }

    /// Writes the RGB565 value into `buf`, most significant byte first.
    fn fill_rgb565be(self, buf: &mut Vec<u8>) -> (r: CoreResult<()>)
        ensures
            old(buf)@.len() == 2 ==> r == CoreResult::<()>::Ok(()) && final(buf)@ == spec_u16_be(
                spec_rgb565_c(self.spec_components()),
            ),
            old(buf)@.len() != 2 ==> r == CoreResult::<()>::Err(
                CoreError::BufferSizeError { given: old(buf).len(), expected: 2 },
            ) && final(buf)@ == old(buf)@,
    {
        let ghost c = self;
        let v = self.into_rgb565();
        let r = v.convert_be(buf);
        proof {
            if old(buf)@.len() == 2 {
                assert(buf@ =~= spec_u16_be(
                    spec_rgb565_c(c.spec_components()),
                ));
            }
        }
        r
    }

    /// Writes the BGR565 value into `buf`, least significant byte first.
    fn fill_bgr565le(self, buf: &mut Vec<u8>) -> (r: CoreResult<()>)
        ensures
            old(buf)@.len() == 2 ==> r == CoreResult::<()>::Ok(()) && final(buf)@ == spec_u16_le(
                spec_bgr565_c(self.spec_components()),
            ),
            old(buf)@.len() != 2 ==> r == CoreResult::<()>::Err(
                CoreError::BufferSizeError { given: old(buf).len(), expected: 2 },
            ) && final(buf)@ == old(buf)@,
    {
        let ghost c = self;
        let v = self.into_bgr565();
        let r = v.convert_le(buf);
        proof {
            if old(buf)@.len() == 2 {
                assert(buf@ =~= spec_u16_le(
                    spec_bgr565_c(c.spec_components()),
                ));
            }
        }
        r
    }

    /// Writes the BGR565 value into `buf`, most significant byte first.
    fn fill_bgr565be(self, buf: &mut Vec<u8>) -> (r: CoreResult<()>)
        ensures
            old(buf)@.len() == 2 ==> r == CoreResult::<()>::Ok(()) && final(buf)@ == spec_u16_be(
                spec_bgr565_c(self.spec_components()),
            ),
            old(buf)@.len() != 2 ==> r == CoreResult::<()>::Err(
                CoreError::BufferSizeError { given: old(buf).len(), expected: 2 },
            ) && final(buf)@ == old(buf)@,
    {
        let ghost c = self;
        let v = self.into_bgr565();
        let r = v.convert_be(buf);
        proof {
            if old(buf)@.len() == 2 {
                assert(buf@ =~= spec_u16_be(
                    spec_bgr565_c(c.spec_components()),
                ));
            }
        }
        r
    }

    /// Packs the top bit of 8 luminances into one byte, the first color in
    /// the most significant position.
    fn fill_grayscale_1bit(from: (Self, Self, Self, Self, Self, Self, Self, Self), buf: &mut Vec<u8>) -> (r: CoreResult<()>)
        ensures
            old(buf)@.len() == 1 ==> r == CoreResult::<()>::Ok(()) && final(buf)@ == seq![
                spec_gray1_byte(
                    spec_lum_c(from.0.spec_components()),
                    spec_lum_c(from.1.spec_components()),
                    spec_lum_c(from.2.spec_components()),
                    spec_lum_c(from.3.spec_components()),
                    spec_lum_c(from.4.spec_components()),
                    spec_lum_c(from.5.spec_components()),
                    spec_lum_c(from.6.spec_components()),
                    spec_lum_c(from.7.spec_components()),
                ),
            ],
            old(buf)@.len() != 1 ==> r == CoreResult::<()>::Err(
                CoreError::BufferSizeError { given: old(buf).len(), expected: 1 },
            ) && final(buf)@ == old(buf)@,
    {
        match CoreError::check_length(buf, 1) {
            Ok(()) => {},
            Err(e) => {
                return Err(e);
            },
        }
        let (c0, c1, c2, c3, c4, c5, c6, c7) = from;
        let l0 = c0.luminance().most_significant_byte();
        let l1 = c1.luminance().most_significant_byte();
        let l2 = c2.luminance().most_significant_byte();
        let l3 = c3.luminance().most_significant_byte();
        let l4 = c4.luminance().most_significant_byte();
        let l5 = c5.luminance().most_significant_byte();
        let l6 = c6.luminance().most_significant_byte();
        let l7 = c7.luminance().most_significant_byte();
        buf[0] = (((((((((l0 >> 7) << 7) | ((l1 >> 7) << 6)) | ((l2 >> 7) << 5)) | ((l3 >> 7)
            << 4)) | ((l4 >> 7) << 3)) | ((l5 >> 7) << 2)) | ((l6 >> 7) << 1)) | (l7 >> 7));
        proof {
            assert(buf@ =~= seq![
                spec_gray1_byte(
                    spec_lum_c(from.0.spec_components()),
                    spec_lum_c(from.1.spec_components()),
                    spec_lum_c(from.2.spec_components()),
                    spec_lum_c(from.3.spec_components()),
                    spec_lum_c(from.4.spec_components()),
                    spec_lum_c(from.5.spec_components()),
                    spec_lum_c(from.6.spec_components()),
                    spec_lum_c(from.7.spec_components()),
                ),
            ]);
        }
        Ok(())
    }

    /// Packs the top 2 bits of 4 luminances into one byte, the first color in
    /// the most significant position.
    fn fill_grayscale_2bit(from: (Self, Self, Self, Self), buf: &mut Vec<u8>) -> (r: CoreResult<()>)
        ensures
            old(buf)@.len() == 1 ==> r == CoreResult::<()>::Ok(()) && final(buf)@ == seq![
                spec_gray2_byte(
                    spec_lum_c(from.0.spec_components()),
                    spec_lum_c(from.1.spec_components()),
                    spec_lum_c(from.2.spec_components()),
                    spec_lum_c(from.3.spec_components()),
                ),
            ],
            old(buf)@.len() != 1 ==> r == CoreResult::<()>::Err(
                CoreError::BufferSizeError { given: old(buf).len(), expected: 1 },
            ) && final(buf)@ == old(buf)@,
    {
        match CoreError::check_length(buf, 1) {
            Ok(()) => {},
            Err(e) => {
                return Err(e);
            },
        }
        let (c0, c1, c2, c3) = from;
        let l0 = c0.luminance().most_significant_byte();
        let l1 = c1.luminance().most_significant_byte();
        let l2 = c2.luminance().most_significant_byte();
        let l3 = c3.luminance().most_significant_byte();
        buf[0] = (((((l0 >> 6) << 6) | ((l1 >> 6) << 4)) | ((l2 >> 6) << 2)) | (l3 >> 6));
        proof {
            assert(buf@ =~= seq![
                spec_gray2_byte(
                    spec_lum_c(from.0.spec_components()),
                    spec_lum_c(from.1.spec_components()),
                    spec_lum_c(from.2.spec_components()),
                    spec_lum_c(from.3.spec_components()),
                ),
            ]);
        }
        Ok(())
    }

    /// Packs the top 4 bits of 2 luminances into one byte, the first color in
    /// the most significant position.
    fn fill_grayscale_4bit(from: (Self, Self), buf: &mut Vec<u8>) -> (r: CoreResult<()>)
        ensures
            old(buf)@.len() == 1 ==> r == CoreResult::<()>::Ok(()) && final(buf)@ == seq![
                spec_gray4_byte(spec_lum_c(from.0.spec_components()), spec_lum_c(from.1.spec_components())),
            ],
            old(buf)@.len() != 1 ==> r == CoreResult::<()>::Err(
                CoreError::BufferSizeError { given: old(buf).len(), expected: 1 },
            ) && final(buf)@ == old(buf)@,
    {
        match CoreError::check_length(buf, 1) {
            Ok(()) => {},
            Err(e) => {
                return Err(e);
            },
        }
        let (c0, c1) = from;
        let l0 = c0.luminance().most_significant_byte();
        let l1 = c1.luminance().most_significant_byte();
        buf[0] = (((l0 >> 4) << 4) | (l1 >> 4));
        proof {
            assert(buf@ =~= seq![
                spec_gray4_byte(spec_lum_c(from.0.spec_components()), spec_lum_c(from.1.spec_components())),
            ]);
        }
        Ok(())
    }

    /// Writes the color's luminance byte into `buf`.
    fn fill_grayscale_8bit(self, buf: &mut Vec<u8>) -> (r: CoreResult<()>)
        ensures
            old(buf)@.len() == 1 ==> r == CoreResult::<()>::Ok(()) && final(buf)@ == seq![
                spec_lum_c(self.spec_components()),
            ],
            old(buf)@.len() != 1 ==> r == CoreResult::<()>::Err(
                CoreError::BufferSizeError { given: old(buf).len(), expected: 1 },
            ) && final(buf)@ == old(buf)@,
    {
        match CoreError::check_length(buf, 1) {
            Ok(()) => {},
            Err(e) => {
                return Err(e);
            },
        }
        buf[0] = self.luminance().most_significant_byte();
        proof {
            assert(buf@ =~= seq![spec_lum_c(self.spec_components())]);
        }
        Ok(())
    }

    /// Writes the 16-bit grayscale value into `buf`, least significant byte
    /// first.
    fn fill_grayscale_16bit_le(self, buf: &mut Vec<u8>) -> (r: CoreResult<()>)
        ensures
            old(buf)@.len() == 2 ==> r == CoreResult::<()>::Ok(()) && final(buf)@ == spec_u16_le(
                spec_gray16(spec_lum_c(self.spec_components())),
            ),
            old(buf)@.len() != 2 ==> r == CoreResult::<()>::Err(
                CoreError::BufferSizeError { given: old(buf).len(), expected: 2 },
            ) && final(buf)@ == old(buf)@,
    {
        match CoreError::check_length(buf, 2) {
            Ok(()) => {},
            Err(e) => {
                return Err(e);
            },
        }
        let l = self.luminance().most_significant_byte();
        buf[0] = l;
        buf[1] = l;
        proof {
            lemma_gray16_bytes(l);
            assert(buf@ =~= spec_u16_le(spec_gray16(spec_lum_c(self.spec_components()))));
        }
        Ok(())
    }

    /// Writes the 16-bit grayscale value into `buf`, most significant byte
    /// first.
    fn fill_grayscale_16bit_be(self, buf: &mut Vec<u8>) -> (r: CoreResult<()>)
        ensures
            old(buf)@.len() == 2 ==> r == CoreResult::<()>::Ok(()) && final(buf)@ == spec_u16_be(
                spec_gray16(spec_lum_c(self.spec_components())),
            ),
            old(buf)@.len() != 2 ==> r == CoreResult::<()>::Err(
                CoreError::BufferSizeError { given: old(buf).len(), expected: 2 },
            ) && final(buf)@ == old(buf)@,
    {
        match CoreError::check_length(buf, 2) {
            Ok(()) => {},
            Err(e) => {
                return Err(e);
            },
        }
        let l = self.luminance().most_significant_byte();
        buf[0] = l;
        buf[1] = l;
        proof {
            lemma_gray16_bytes(l);
            assert(buf@ =~= spec_u16_be(spec_gray16(spec_lum_c(self.spec_components()))));
        }
        Ok(())
    }
}

/// Both bytes of the replicated 16-bit grayscale value equal the luminance
/// byte it was built from.
pub proof fn lemma_gray16_bytes(l: u8)
    by (bit_vector)
    ensures
        (((((l as u16) << 8u16) | (l as u16))) >> 8u16) as u8 == l,
        ((((l as u16) << 8u16) | (l as u16))) as u8 == l,
{
}

/// The most significant byte of a color's red channel.
pub open spec fn spec_red_msb<C: Color>(c: C) -> u8 {
    c.spec_components().0.spec_msb()
}

/// The most significant byte of a color's green channel.
pub open spec fn spec_green_msb<C: Color>(c: C) -> u8 {
    c.spec_components().1.spec_msb()
}

/// The most significant byte of a color's blue channel.
pub open spec fn spec_blue_msb<C: Color>(c: C) -> u8 {
    c.spec_components().2.spec_msb()
}

/// The luminance byte of a color: the largest of the three channels' most
/// significant bytes.
pub open spec fn spec_luminance<C: Color>(c: C) -> u8 {
    spec_lum_c(c.spec_components())
}

/// The RGB565 value of a color.
pub open spec fn spec_rgb565_of<C: Color>(c: C) -> u16 {
    spec_rgb565_c(c.spec_components())
}

/// The BGR565 value of a color.
pub open spec fn spec_bgr565_of<C: Color>(c: C) -> u16 {
    spec_bgr565_c(c.spec_components())
}

/// The raw 3-byte red, green, blue encoding of a color.
pub open spec fn spec_rgb_bytes<C: Color>(c: C) -> Seq<u8> {
    spec_rgb_bytes_c(c.spec_components())
}

/// The raw 3-byte blue, green, red encoding of a color.
pub open spec fn spec_bgr_bytes<C: Color>(c: C) -> Seq<u8> {
    spec_bgr_bytes_c(c.spec_components())
}

/// Decoding law of the 565 packings: masking the packed value with its 5/6/5
/// fields gives back the top 5 bits of red, 6 of green and 5 of blue, and
/// BGR565 is RGB565 with the red and blue channels swapped.
pub proof fn lemma_rgb565_decode(r: u8, g: u8, b: u8)
    by (bit_vector)
    ensures
        (spec_rgb565(r, g, b) >> 11u16) & 0x1f == (r >> 3u8) as u16,
        (spec_rgb565(r, g, b) >> 5u16) & 0x3f == (g >> 2u8) as u16,
        spec_rgb565(r, g, b) & 0x1f == (b >> 3u8) as u16,
        spec_bgr565(r, g, b) == spec_rgb565(b, g, r),
{
}

/// The raw RGB and BGR encodings of one color are byte-order inverses of
/// each other.
pub proof fn lemma_rgb_bgr_reverse<C: Color>(c: C)
    ensures
        spec_bgr_bytes(c) == spec_rgb_bytes(c).reverse(),
{
    assert(spec_bgr_bytes(c) =~= spec_rgb_bytes(c).reverse());
}

} // verus!
