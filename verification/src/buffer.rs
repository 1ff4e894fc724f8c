use vstd::prelude::*;

pub mod color;
pub mod color_mode;
pub mod component;

verus! {

use vstd::arithmetic::mul::{lemma_mul_inequality, lemma_mul_is_associative, lemma_mul_upper_bound};

use crate::buffer::color::{
    spec_bgr565_of, spec_bgr_bytes, spec_gray16, spec_luminance, spec_rgb565_of, spec_rgb_bytes,
    spec_u16_be, spec_u16_le, Color,
};
use crate::buffer::component::Component;
use crate::buffer::color_mode::{spec_byte_size, ColorMode, StorageMode};
use crate::error::{CoreError, CoreResult};

/// The largest of three integers.
pub open spec fn spec_max3(a: int, b: int, c: int) -> int {
    if a >= b && a >= c {
        a
    } else if b >= c {
        b
    } else {
        c
    }
}

/// The largest of three bytes.
pub open spec fn spec_max3_u8(a: u8, b: u8, c: u8) -> u8 {
    if a >= b && a >= c {
        a
    } else if b >= c {
        b
    } else {
        c
    }
}

/// The bytes per pixel of a byte-aligned color mode (0 for packed modes).
pub open spec fn spec_bpp(mode: ColorMode) -> int {
    match spec_byte_size(mode) {
        StorageMode::BytesPerPixel(n) => n as int,
        StorageMode::PixelsPerByte(_) => 0,
    }
}

/// The pixels per byte of a packed color mode (0 for byte-aligned modes).
pub open spec fn spec_ppb(mode: ColorMode) -> int {
    match spec_byte_size(mode) {
        StorageMode::BytesPerPixel(_) => 0,
        StorageMode::PixelsPerByte(n) => n as int,
    }
}

/// The bits each pixel occupies in a packed color mode.
pub open spec fn spec_pack_bits(mode: ColorMode) -> u8 {
    match mode {
        ColorMode::Grayscale1Bit => 1,
        ColorMode::Grayscale2Bit => 2,
        ColorMode::Grayscale4Bit => 4,
        _ => 0,
    }
}

/// The bytes one pixel contributes in a byte-aligned mode (empty for the
/// packed modes, whose pixels share bytes).
pub open spec fn spec_encode_pixel<C: Color>(c: C, mode: ColorMode) -> Seq<u8> {
    match mode {
        ColorMode::RGB => spec_rgb_bytes(c),
        ColorMode::BGR => spec_bgr_bytes(c),
        ColorMode::RGB565LE => spec_u16_le(spec_rgb565_of(c)),
        ColorMode::RGB565BE => spec_u16_be(spec_rgb565_of(c)),
        ColorMode::BGR565LE => spec_u16_le(spec_bgr565_of(c)),
        ColorMode::BGR565BE => spec_u16_be(spec_bgr565_of(c)),
        ColorMode::Grayscale8Bit => seq![spec_luminance(c)],
        ColorMode::Grayscale16BitLE => spec_u16_le(spec_gray16(spec_luminance(c))),
        ColorMode::Grayscale16BitBE => spec_u16_be(spec_gray16(spec_luminance(c))),
        ColorMode::Grayscale1Bit => Seq::empty(),
        ColorMode::Grayscale2Bit => Seq::empty(),
        ColorMode::Grayscale4Bit => Seq::empty(),
    }
}

/// The concatenation of the byte encodings of a pixel sequence.
pub open spec fn spec_encode_pixels<C: Color>(s: Seq<C>, mode: ColorMode) -> Seq<u8>
    decreases s.len(),
{
    if s.len() == 0 {
        Seq::empty()
    } else {
        spec_encode_pixel(s[0], mode) + spec_encode_pixels(s.drop_first(), mode)
    }
}

/// In a byte-aligned mode every pixel encodes to the mode's width.
pub proof fn lemma_encode_pixel_len<C: Color>(c: C, mode: ColorMode)
    requires
        spec_byte_size(mode) is BytesPerPixel,
    ensures
        spec_encode_pixel(c, mode).len() == spec_bpp(mode),
{
}

/// The encoding of a pixel sequence is as long as the pixel count times the
/// mode's width.
pub proof fn lemma_encode_pixels_len<C: Color>(s: Seq<C>, mode: ColorMode)
    requires
        spec_byte_size(mode) is BytesPerPixel,
    ensures
        spec_encode_pixels(s, mode).len() == spec_bpp(mode) * s.len(),
    decreases s.len(),
{
    if s.len() == 0 {
    } else {
        lemma_encode_pixel_len(s[0], mode);
        lemma_encode_pixels_len(s.drop_first(), mode);
        assert(spec_bpp(mode) * s.len() == spec_bpp(mode) + spec_bpp(mode) * (s.len() - 1))
            by (nonlinear_arith);
    }
}

/// Encoding distributes over concatenation of pixel sequences.
pub proof fn lemma_encode_pixels_append<C: Color>(a: Seq<C>, b: Seq<C>, mode: ColorMode)
    ensures
        spec_encode_pixels(a + b, mode) == spec_encode_pixels(a, mode) + spec_encode_pixels(
            b,
            mode,
        ),
    decreases a.len(),
{
    if a.len() == 0 {
        assert(a + b =~= b);
        assert(spec_encode_pixels(a, mode) + spec_encode_pixels(b, mode) =~= spec_encode_pixels(
            b,
            mode,
        ));
    } else {
        assert((a + b).drop_first() =~= a.drop_first() + b);
        lemma_encode_pixels_append(a.drop_first(), b, mode);
        assert(spec_encode_pixel((a + b)[0], mode) + (spec_encode_pixels(a.drop_first(), mode)
            + spec_encode_pixels(b, mode)) =~= spec_encode_pixels(a, mode) + spec_encode_pixels(
            b,
            mode,
        ));
    }
}

/// Extending the encoded prefix by one pixel appends that pixel's encoding.
pub proof fn lemma_encode_pixels_snoc<C: Color>(s: Seq<C>, i: int, mode: ColorMode)
    requires
        0 <= i < s.len(),
    ensures
        spec_encode_pixels(s.take(i + 1), mode) == spec_encode_pixels(s.take(i), mode)
            + spec_encode_pixel(s[i], mode),
{
    assert(s.take(i + 1) =~= s.take(i) + seq![s[i]]);
    lemma_encode_pixels_append(s.take(i), seq![s[i]], mode);
    assert(seq![s[i]].drop_first() =~= Seq::<C>::empty());
    assert(spec_encode_pixels(Seq::<C>::empty(), mode) == Seq::<u8>::empty());
    assert(spec_encode_pixels(seq![s[i]], mode) =~= spec_encode_pixel(s[i], mode));
}

/// The luminance byte of every pixel of a sequence.
pub open spec fn spec_lum_seq<C: Color>(s: Seq<C>) -> Seq<u8> {
    Seq::new(s.len(), |i: int| spec_luminance(s[i]))
}

/// One packed byte: the top `bits` bits of each luminance, folded in order,
/// the first luminance ending up in the most significant position.
pub open spec fn spec_pack_byte(lums: Seq<u8>, bits: u8) -> u8
    decreases lums.len(),
{
    if lums.len() == 0 {
        0
    } else {
        ((spec_pack_byte(lums.drop_last(), bits) << bits) | (lums.last() >> ((8 - bits) as u8)))
    }
}

/// The packed bytes of a luminance sequence, `ppb` luminances per byte.
pub open spec fn spec_pack_bytes(lums: Seq<u8>, ppb: int, bits: u8) -> Seq<u8>
    decreases lums.len(),
{
    if lums.len() == 0 || ppb < 1 {
        Seq::empty()
    } else if lums.len() < ppb {
        seq![spec_pack_byte(lums, bits)]
    } else {
        seq![spec_pack_byte(lums.take(ppb), bits)] + spec_pack_bytes(lums.skip(ppb), ppb, bits)
    }
}

/// Packing distributes over concatenation when the left part holds whole
/// batches.
pub proof fn lemma_pack_bytes_append(a: Seq<u8>, b: Seq<u8>, ppb: int, bits: u8)
    requires
        ppb >= 1,
        (a.len() as int) % ppb == 0,
    ensures
        spec_pack_bytes(a + b, ppb, bits) == spec_pack_bytes(a, ppb, bits) + spec_pack_bytes(
            b,
            ppb,
            bits,
        ),
    decreases a.len(),
{
    if a.len() == 0 {
        assert(a + b =~= b);
        assert(spec_pack_bytes(a, ppb, bits) + spec_pack_bytes(b, ppb, bits) =~= spec_pack_bytes(
            b,
            ppb,
            bits,
        ));
    } else {
        assert(a.len() >= ppb) by {
            if a.len() < ppb {
                vstd::arithmetic::div_mod::lemma_small_mod(a.len(), ppb as nat);
            }
        }
        assert((a + b).len() >= ppb);
        assert((a + b).take(ppb) =~= a.take(ppb));
        assert((a + b).skip(ppb) =~= a.skip(ppb) + b);
        assert((a.skip(ppb).len() as int) % ppb == 0) by {
            assert(a.skip(ppb).len() == a.len() - ppb);
            assert((a.len() as int - ppb) % ppb == (a.len() as int) % ppb) by (nonlinear_arith)
                requires
                    ppb >= 1,
                    a.len() >= ppb,
            ;
        }
        lemma_pack_bytes_append(a.skip(ppb), b, ppb, bits);
        assert(seq![spec_pack_byte(a.take(ppb), bits)] + (spec_pack_bytes(a.skip(ppb), ppb, bits)
            + spec_pack_bytes(b, ppb, bits)) =~= spec_pack_bytes(a, ppb, bits) + spec_pack_bytes(
            b,
            ppb,
            bits,
        ));
    }
}

/// Packing one more whole batch appends one packed byte.
pub proof fn lemma_pack_bytes_snoc(l: Seq<u8>, ppb: int, bits: u8, j: int)
    requires
        ppb >= 1,
        0 <= j,
        ppb * (j + 1) <= l.len(),
    ensures
        spec_pack_bytes(l.take(ppb * (j + 1)), ppb, bits) == spec_pack_bytes(
            l.take(ppb * j),
            ppb,
            bits,
        ).push(spec_pack_byte(l.subrange(ppb * j, ppb * (j + 1)), bits)),
{
    assert(ppb * j >= 0 && ppb * j <= ppb * (j + 1)) by (nonlinear_arith)
        requires
            ppb >= 1,
            0 <= j,
    ;
    assert(ppb * (j + 1) == ppb * j + ppb) by (nonlinear_arith);
    let a = l.take(ppb * j);
    let b = l.subrange(ppb * j, ppb * (j + 1));
    assert(l.take(ppb * (j + 1)) =~= a + b);
    assert((a.len() as int) % ppb == 0) by {
        vstd::arithmetic::div_mod::lemma_mod_multiples_basic(j, ppb);
        assert(ppb * j == j * ppb) by (nonlinear_arith);
    }
    lemma_pack_bytes_append(a, b, ppb, bits);
    assert(b.len() == ppb);
    assert(b.take(ppb) =~= b);
    assert(b.skip(ppb) =~= Seq::<u8>::empty());
    assert(spec_pack_bytes(Seq::<u8>::empty(), ppb, bits) == Seq::<u8>::empty());
    assert(spec_pack_bytes(b, ppb, bits) =~= seq![spec_pack_byte(b, bits)]);
    assert(spec_pack_bytes(a, ppb, bits) + seq![spec_pack_byte(b, bits)] =~= spec_pack_bytes(
        a,
        ppb,
        bits,
    ).push(spec_pack_byte(b, bits)));
}

/// A finite, position-bounded sequence of pixels handed out one at a time in
/// row-major order.
pub trait PixelIter: Sized {
    type Item: Color;

    /// The pixels still to be produced, in order.
    spec fn pixels(&self) -> Seq<Self::Item>;

    /// Produces the next pixel, or nothing once the sequence is exhausted.
    fn next(&mut self) -> (r: Option<Self::Item>)
        ensures
            old(self).pixels().len() == 0 ==> r is None
                && final(self).pixels() == old(self).pixels(),
            old(self).pixels().len() > 0 ==> r == Some(old(self).pixels()[0])
                && final(self).pixels() == old(self).pixels().drop_first(),
    ;
}

/// A pixel source: anything that can produce, for a requested sub-rectangle
/// of its canvas, the rectangle's pixels in row-major order, exactly
/// `width * height` of them.
pub trait IntoPixelIter: Sized {
    type IntoIter: PixelIter<Item = Self::Item>;

    type Item: Color;

    /// The pixels of the requested rectangle, in row-major order.
    spec fn spec_pixels(self, x: u16, y: u16, width: u16, height: u16) -> Seq<Self::Item>;

    /// A source always has exactly `width * height` pixels for a rectangle.
    proof fn spec_pixels_len(self, x: u16, y: u16, width: u16, height: u16)
        ensures
            self.spec_pixels(x, y, width, height).len() == (width as int) * (height as int),
    ;

    /// Starts walking the requested rectangle.
    fn into_pixel_iter(self, x: u16, y: u16, width: u16, height: u16) -> (it: Self::IntoIter)
        ensures
            it.pixels() == self.spec_pixels(x, y, width, height),
            it.pixels().len() == (width as int) * (height as int),
    ;
}

/// What every byte-aligned fill guarantees: with a destination of exactly
/// `bpp * width * height` bytes it succeeds and leaves the pixel encodings
/// there; with any other length it fails with the exact size error and
/// leaves the destination untouched.
pub open spec fn spec_byte_fill_post<C: Color>(
    pixels: Seq<C>,
    mode: ColorMode,
    width: u16,
    height: u16,
    pre: Seq<u8>,
    post: Seq<u8>,
    r: CoreResult<()>,
) -> bool {
    let needed = spec_bpp(mode) * (width as int) * (height as int);
    &&& post.len() == pre.len()
    &&& (pre.len() == needed ==> r == CoreResult::<()>::Ok(()) && post == spec_encode_pixels(
        pixels,
        mode,
    ))
    &&& (pre.len() != needed ==> r == CoreResult::<()>::Err(
        CoreError::BufferSizeError { given: pre.len() as usize, expected: needed as usize },
    ) && post == pre)
}

/// What every packed (sub-byte) fill guarantees: with a destination of
/// exactly one byte per `ppb` pixels it succeeds and leaves the packed
/// luminances there; with any other length — in particular whenever the
/// pixel count is not a whole number of batches — it fails with the exact
/// size error and leaves the destination untouched.
pub open spec fn spec_packed_fill_post<C: Color>(
    pixels: Seq<C>,
    mode: ColorMode,
    width: u16,
    height: u16,
    pre: Seq<u8>,
    post: Seq<u8>,
    r: CoreResult<()>,
) -> bool {
    let count = (width as int) * (height as int);
    let ppb = spec_ppb(mode);
    &&& post.len() == pre.len()
    &&& (pre.len() * ppb == count ==> r == CoreResult::<()>::Ok(()) && post == spec_pack_bytes(
        spec_lum_seq(pixels),
        ppb,
        spec_pack_bits(mode),
    ))
    &&& (pre.len() * ppb != count ==> r == CoreResult::<()>::Err(
        CoreError::BufferSizeError {
            given: pre.len() as usize,
            expected: ((count + ppb - 1) / ppb) as usize,
        },
    ) && post == pre)
}

/// A rectangle's pixel count.
pub fn calculate_length(width: u16, height: u16) -> (r: usize)
    ensures
        r == (width as int) * (height as int),
{
    proof {
        lemma_mul_upper_bound(width as int, 0xffff, height as int, 0xffff);
    }
    (width as usize) * (height as usize)
}

/// Copies `from` into `to`, which must have exactly the same length.
pub fn copy_buffer(from: &Vec<u8>, to: &mut Vec<u8>) -> (r: CoreResult<()>)
    ensures
        old(to)@.len() == from@.len() ==> r == CoreResult::<()>::Ok(()) && final(to)@ == from@,
        old(to)@.len() != from@.len() ==> r == CoreResult::<()>::Err(
            CoreError::BufferSizeError { given: old(to).len(), expected: from.len() },
        ) && final(to)@ == old(to)@,
{
    match CoreError::check_length(to, from.len()) {
        Ok(()) => {},
        Err(e) => {
            return Err(e);
        },
    }
    let mut i: usize = 0;
    while i < from.len()
        invariant
            i <= from@.len(),
            to@.len() == from@.len(),
            to@.take(i as int) == from@.take(i as int),
        decreases from@.len() - i,
    {
        to[i] = from[i];
        proof {
            assert(to@.take(i + 1) =~= from@.take(i + 1));
        }
        i = i + 1;
    }
    proof {
        assert(to@.take(i as int) =~= to@);
        assert(from@.take(i as int) =~= from@);
    }
    Ok(())
}

/// The bytes per pixel of a byte-aligned mode.
fn byte_mode_bpp(mode: ColorMode) -> (r: usize)
    requires
        spec_byte_size(mode) is BytesPerPixel,
    ensures
        r == spec_bpp(mode),
        1 <= r <= 3,
{
    match mode.byte_size() {
        StorageMode::BytesPerPixel(n) => n,
        StorageMode::PixelsPerByte(_) => {
            proof {
                assert(false);
            }
            0
        },
    }
}

/// Writes one pixel's encoding at `begin`, leaving every other byte alone.
fn encode_pixel_into<C: Color>(px: C, mode: ColorMode, target: &mut Vec<u8>, begin: usize)
    requires
        spec_byte_size(mode) is BytesPerPixel,
        begin + spec_bpp(mode) <= old(target)@.len() <= usize::MAX,
    ensures
        final(target)@.len() == old(target)@.len(),
        final(target)@.subrange(begin as int, begin + spec_bpp(mode)) == spec_encode_pixel(
            px,
            mode,
        ),
        final(target)@.take(begin as int) == old(target)@.take(begin as int),
        final(target)@.skip(begin + spec_bpp(mode)) == old(target)@.skip(begin + spec_bpp(mode)),
{
    let ghost pre = target@;
    match mode {
        ColorMode::RGB => {
            proof {
                assert(spec_bpp(mode) == 3);
            }
            let (red, green, blue) = px.components();
            target[begin] = red.most_significant_byte();
            target[begin + 1] = green.most_significant_byte();
            target[begin + 2] = blue.most_significant_byte();
        },
        ColorMode::BGR => {
            proof {
                assert(spec_bpp(mode) == 3);
            }
            let (red, green, blue) = px.components();
            target[begin] = blue.most_significant_byte();
            target[begin + 1] = green.most_significant_byte();
            target[begin + 2] = red.most_significant_byte();
        },
        ColorMode::RGB565LE => {
            proof {
                assert(spec_bpp(mode) == 2);
            }
            let v = px.into_rgb565();
            target[begin] = #[verifier::truncate] (v as u8);
            target[begin + 1] = #[verifier::truncate] ((v >> 8u16) as u8);
        },
        ColorMode::RGB565BE => {
            proof {
                assert(spec_bpp(mode) == 2);
            }
            let v = px.into_rgb565();
            target[begin] = #[verifier::truncate] ((v >> 8u16) as u8);
            target[begin + 1] = #[verifier::truncate] (v as u8);
        },
        ColorMode::BGR565LE => {
            proof {
                assert(spec_bpp(mode) == 2);
            }
            let v = px.into_bgr565();
            target[begin] = #[verifier::truncate] (v as u8);
            target[begin + 1] = #[verifier::truncate] ((v >> 8u16) as u8);
        },
        ColorMode::BGR565BE => {
            proof {
                assert(spec_bpp(mode) == 2);
            }
            let v = px.into_bgr565();
            target[begin] = #[verifier::truncate] ((v >> 8u16) as u8);
            target[begin + 1] = #[verifier::truncate] (v as u8);
        },
        ColorMode::Grayscale8Bit => {
            proof {
                assert(spec_bpp(mode) == 1);
            }
            target[begin] = px.luminance().most_significant_byte();
        },
        ColorMode::Grayscale16BitLE => {
            proof {
                assert(spec_bpp(mode) == 2);
            }
            let l = px.luminance().most_significant_byte();
            target[begin] = l;
            target[begin + 1] = l;
            proof {
                crate::buffer::color::lemma_gray16_bytes(l);
            }
        },
        ColorMode::Grayscale16BitBE => {
            proof {
                assert(spec_bpp(mode) == 2);
            }
            let l = px.luminance().most_significant_byte();
            target[begin] = l;
            target[begin + 1] = l;
            proof {
                crate::buffer::color::lemma_gray16_bytes(l);
            }
        },
        ColorMode::Grayscale1Bit | ColorMode::Grayscale2Bit | ColorMode::Grayscale4Bit => {
            proof {
                assert(false);
            }
        },
    }
    proof {
        assert(target@.subrange(begin as int, begin + spec_bpp(mode)) =~= spec_encode_pixel(
            px,
            mode,
        ));
        assert(target@.take(begin as int) =~= pre.take(begin as int));
        assert(target@.skip(begin + spec_bpp(mode)) =~= pre.skip(begin + spec_bpp(mode)));
    }
}

/// Serializes the rectangle's pixels into `target` in a byte-aligned mode,
/// one pixel after another, after checking that `target` has exactly the
/// required length.
pub fn generic_fill<T: IntoPixelIter>(
    iter: T,
    target: &mut Vec<u8>,
    x: u16,
    y: u16,
    width: u16,
    height: u16,
    mode: ColorMode,
) -> (r: CoreResult<()>)
    requires
        spec_byte_size(mode) is BytesPerPixel,
        spec_bpp(mode) * (width as int) * (height as int) <= usize::MAX as int,
    ensures
        spec_byte_fill_post(
            iter.spec_pixels(x, y, width, height),
            mode,
            width,
            height,
            old(target)@,
            final(target)@,
            r,
        ),
{
    let length: usize = calculate_length(width, height);
    let bpp: usize = byte_mode_bpp(mode);
    proof {
        lemma_mul_is_associative(bpp as int, width as int, height as int);
    }
    let needed: usize = bpp * length;
    match CoreError::check_length(target, needed) {
        Ok(()) => {},
        Err(e) => {
            return Err(e);
        },
    }
    let mut it = iter.into_pixel_iter(x, y, width, height);
    let ghost all = it.pixels();
    let mut done: usize = 0;
    let mut begin: usize = 0;
    while done < length
        invariant
            it.pixels() =~= all.skip(done as int),
            done <= length,
            all.len() == length,
            begin == done * bpp,
            bpp == spec_bpp(mode),
            spec_byte_size(mode) is BytesPerPixel,
            needed == bpp * length,
            target@.len() == needed,
            old(target)@.len() == needed,
            target@.take(begin as int) == spec_encode_pixels(all.take(done as int), mode),
            target@.skip(begin as int) == old(target)@.skip(begin as int),
        decreases length - done,
    {
        let px = match it.next() {
            Some(px) => px,
            None => {
                proof {
                    assert(false);
                }
                vstd::pervasive::unreached()
            },
        };
        proof {
            assert(all.skip(done as int)[0] == all[done as int]);
            lemma_mul_inequality(done + 1, length as int, bpp as int);
            assert((done + 1) * bpp == done * bpp + bpp && length * bpp == bpp * length)
                by (nonlinear_arith);
        }
        let ghost mid = target@;
        encode_pixel_into(px, mode, target, begin);
        proof {
            lemma_encode_pixels_snoc(all, done as int, mode);
            lemma_encode_pixels_len(all.take(done as int), mode);
            assert(spec_bpp(mode) * all.take(done as int).len() == done * bpp)
                by (nonlinear_arith)
                requires
                    all.take(done as int).len() == done,
                    bpp == spec_bpp(mode),
            ;
            assert(target@.take(begin + bpp) =~= spec_encode_pixels(
                all.take(done + 1),
                mode,
            )) by {
                assert forall|k: int| 0 <= k < begin + bpp implies #[trigger] (target@.take(
                    begin + bpp,
                )[k]) == spec_encode_pixels(all.take(done + 1), mode)[k] by {
                    if k < begin {
                        assert(target@.take(begin as int)[k] == mid.take(begin as int)[k]);
                        assert(mid.take(begin as int)[k] == spec_encode_pixels(
                            all.take(done as int),
                            mode,
                        )[k]);
                    } else {
                        assert(target@[k] == target@.subrange(begin as int, begin + bpp)[k
                            - begin]);
                    }
                }
            }
            assert(target@.skip(begin + bpp) =~= old(target)@.skip(begin + bpp)) by {
                assert forall|k: int| 0 <= k < target@.len() - (begin + bpp) implies #[trigger] (
                target@.skip(begin + bpp)[k]) == old(target)@.skip(begin + bpp)[k] by {
                    assert(target@[begin + bpp + k] == mid.skip(begin + bpp)[k]);
                    assert(mid[begin + bpp + k] == mid.skip(begin as int)[bpp + k]);
                }
            }
        }
        begin = begin + bpp;
        done = done + 1;
    }
    proof {
        assert(all.take(done as int) =~= all);
        assert(begin == needed) by (nonlinear_arith)
            requires
                begin == done * bpp,
                needed == bpp * length,
                done == length,
        ;
        assert(target@.take(begin as int) =~= target@);
    }
    Ok(())
}

/// Serializes the rectangle's pixels into `target` in a packed grayscale
/// mode, grouping the pixels into batches that share one byte and writing
/// one byte per batch, after checking that the pixel count is a whole number
/// of batches and fills `target` exactly.
pub fn generic_subpixel_fill<T: IntoPixelIter>(
    iter: T,
    target: &mut Vec<u8>,
    x: u16,
    y: u16,
    width: u16,
    height: u16,
    mode: ColorMode,
) -> (r: CoreResult<()>)
    requires
        spec_byte_size(mode) is PixelsPerByte,
    ensures
        spec_packed_fill_post(
            iter.spec_pixels(x, y, width, height),
            mode,
            width,
            height,
            old(target)@,
            final(target)@,
            r,
        ),
{
    let count: usize = calculate_length(width, height);
    let (ppb, bits): (usize, u8) = match mode {
        ColorMode::Grayscale1Bit => (8, 1),
        ColorMode::Grayscale2Bit => (4, 2),
        ColorMode::Grayscale4Bit => (2, 4),
        _ => {
            proof {
                assert(false);
            }
            (1, 0)
        },
    };
    proof {
        lemma_mul_upper_bound(width as int, 0xffff, height as int, 0xffff);
    }
    let expected: usize = (count + (ppb - 1)) / ppb;
    let shape_ok: bool = count % ppb == 0 && target.len() == count / ppb;
    proof {
        vstd::arithmetic::div_mod::lemma_fundamental_div_mod(count as int, ppb as int);
        let pre_len = old(target)@.len() as int;
        if count % ppb == 0 && pre_len == count as int / ppb as int {
            assert(pre_len * ppb == count) by (nonlinear_arith)
                requires
                    count == ppb * (count as int / ppb as int) + (count as int % ppb as int),
                    count as int % ppb as int == 0,
                    pre_len == count as int / ppb as int,
            ;
        } else {
            assert(pre_len * ppb != count) by (nonlinear_arith)
                requires
                    ppb >= 1,
                    pre_len >= 0,
                    count == ppb * (count as int / ppb as int) + (count as int % ppb as int),
                    0 <= (count as int % ppb as int),
                    (count as int % ppb as int) < ppb,
                    ((count as int % ppb as int != 0) || (pre_len != count as int / ppb as int)),
            ;
        }
    }
    if !shape_ok {
        return Err(CoreError::BufferSizeError { given: target.len(), expected });
    }
    let out_len: usize = target.len();
    let mut it = iter.into_pixel_iter(x, y, width, height);
    let ghost all = it.pixels();
    let ghost lums = spec_lum_seq(all);
    let mut j: usize = 0;
    while j < out_len
        invariant
            it.pixels() =~= all.skip(ppb as int * j as int),
            j <= out_len,
            all.len() == count,
            lums == spec_lum_seq(all),
            lums.len() == count,
            out_len as int * ppb as int == count,
            ppb == spec_ppb(mode),
            bits == spec_pack_bits(mode),
            1 <= bits <= 4,
            1 <= ppb <= 8,
            spec_byte_size(mode) is PixelsPerByte,
            target@.len() == out_len,
            old(target)@.len() == out_len,
            target@.take(j as int) == spec_pack_bytes(lums.take(ppb as int * j as int), ppb as int, bits),
            target@.skip(j as int) == old(target)@.skip(j as int),
        decreases out_len - j,
    {
        proof {
            assert(ppb as int * (j + 1) <= ppb as int * out_len as int && ppb as int * out_len
                as int == out_len as int * ppb as int) by (nonlinear_arith)
                requires
                    j + 1 <= out_len as int,
                    ppb >= 1,
            ;
        }
        let ghost base = ppb as int * j as int;
        let mut acc: u8 = 0;
        let mut k: usize = 0;
        while k < ppb
            invariant
                it.pixels() =~= all.skip(base + k),
                k <= ppb,
                j < out_len,
                base == ppb as int * j as int,
                base + ppb == ppb as int * (j + 1),
                ppb as int * (j + 1) <= count,
                all.len() == count,
                lums == spec_lum_seq(all),
                1 <= bits <= 4,
                1 <= ppb <= 8,
                acc == spec_pack_byte(lums.subrange(base, base + k), bits),
            decreases ppb - k,
        {
            let px = match it.next() {
                Some(px) => px,
                None => {
                    proof {
                        assert(false);
                    }
                    vstd::pervasive::unreached()
                },
            };
            let l = px.luminance().most_significant_byte();
            proof {
                assert(all.skip(base + k)[0] == all[base + k]);
                assert(all.skip(base + k).drop_first() =~= all.skip(base + k + 1));
                assert(l == lums[base + k]);
                assert(lums.subrange(base, base + k + 1).drop_last() =~= lums.subrange(
                    base,
                    base + k,
                ));
                assert(lums.subrange(base, base + k + 1).last() == lums[base + k]);
            }
            acc = (acc << bits) | (l >> (8 - bits));
            k = k + 1;
        }
        let ghost mid = target@;
        target[j] = acc;
        proof {
            lemma_pack_bytes_snoc(lums, ppb as int, bits, j as int);
            assert(lums.subrange(base, base + ppb) =~= lums.subrange(
                ppb as int * j as int,
                ppb as int * (j + 1),
            ));
            assert(target@.take(j + 1) =~= spec_pack_bytes(
                lums.take(ppb as int * (j + 1)),
                ppb as int,
                bits,
            )) by {
                assert forall|i: int| 0 <= i < j + 1 implies #[trigger] (target@.take(j + 1)[i])
                    == spec_pack_bytes(lums.take(ppb as int * (j + 1)), ppb as int, bits)[i] by {
                    if i < j {
                        assert(target@[i] == mid[i]);
                        assert(mid.take(j as int)[i] == spec_pack_bytes(
                            lums.take(ppb as int * j as int),
                            ppb as int,
                            bits,
                        )[i]);
                    }
                }
            }
            assert(target@.skip(j + 1) =~= old(target)@.skip(j + 1)) by {
                assert forall|i: int| 0 <= i < target@.len() - (j + 1) implies #[trigger] (
                target@.skip(j + 1)[i]) == old(target)@.skip(j + 1)[i] by {
                    assert(target@[j + 1 + i] == mid[j + 1 + i]);
                    assert(mid[j + 1 + i] == mid.skip(j as int)[1 + i]);
                }
            }
        }
        j = j + 1;
    }
    proof {
        assert(ppb as int * out_len as int == count) by (nonlinear_arith)
            requires
                out_len as int * ppb as int == count,
        ;
        assert(lums.take(ppb as int * out_len as int) =~= lums);
        assert(target@.take(out_len as int) =~= target@);
    }
    Ok(())
}

/// A pixel source viewed through the fill engine: one method per wire
/// encoding, each serializing the requested rectangle into `target`.
///
/// Every implementation of [`IntoPixelIter`] is a `Buffer`.
pub trait Buffer: Sized {
    type Item: Color;

    /// The pixels of the requested rectangle, in row-major order.
    spec fn buffer_pixels(self, x: u16, y: u16, width: u16, height: u16) -> Seq<Self::Item>;

    /// A source always has exactly `width * height` pixels for a rectangle.
    proof fn buffer_pixels_len(self, x: u16, y: u16, width: u16, height: u16)
        ensures
            self.buffer_pixels(x, y, width, height).len() == (width as int) * (height as int),
    ;

    /// Fills `target` with the raw red, green, blue bytes of the rectangle.
    fn fill_rgb(self, target: &mut Vec<u8>, x: u16, y: u16, width: u16, height: u16) -> (r:
        CoreResult<()>)
        requires
            3 * (width as int) * (height as int) <= usize::MAX as int,
        ensures
            spec_byte_fill_post(
                self.buffer_pixels(x, y, width, height),
                ColorMode::RGB,
                width,
                height,
                old(target)@,
                final(target)@,
                r,
            ),
    ;

    /// Fills `target` with the raw blue, green, red bytes of the rectangle.
    fn fill_bgr(self, target: &mut Vec<u8>, x: u16, y: u16, width: u16, height: u16) -> (r:
        CoreResult<()>)
        requires
            3 * (width as int) * (height as int) <= usize::MAX as int,
        ensures
            spec_byte_fill_post(
                self.buffer_pixels(x, y, width, height),
                ColorMode::BGR,
                width,
                height,
                old(target)@,
                final(target)@,
                r,
            ),
    ;

    /// Fills `target` with the RGB565 little-endian encoding of the rectangle.
    fn fill_rgb565le(self, target: &mut Vec<u8>, x: u16, y: u16, width: u16, height: u16) -> (r:
        CoreResult<()>)
        requires
            2 * (width as int) * (height as int) <= usize::MAX as int,
        ensures
            spec_byte_fill_post(
                self.buffer_pixels(x, y, width, height),
                ColorMode::RGB565LE,
                width,
                height,
                old(target)@,
                final(target)@,
                r,
            ),
    ;

    /// Fills `target` with the RGB565 big-endian encoding of the rectangle.
    fn fill_rgb565be(self, target: &mut Vec<u8>, x: u16, y: u16, width: u16, height: u16) -> (r:
        CoreResult<()>)
        requires
            2 * (width as int) * (height as int) <= usize::MAX as int,
        ensures
            spec_byte_fill_post(
                self.buffer_pixels(x, y, width, height),
                ColorMode::RGB565BE,
                width,
                height,
                old(target)@,
                final(target)@,
                r,
            ),
    ;

    /// Fills `target` with the BGR565 little-endian encoding of the rectangle.
    fn fill_bgr565le(self, target: &mut Vec<u8>, x: u16, y: u16, width: u16, height: u16) -> (r:
        CoreResult<()>)
        requires
            2 * (width as int) * (height as int) <= usize::MAX as int,
        ensures
            spec_byte_fill_post(
                self.buffer_pixels(x, y, width, height),
                ColorMode::BGR565LE,
                width,
                height,
                old(target)@,
                final(target)@,
                r,
            ),
    ;

    /// Fills `target` with the BGR565 big-endian encoding of the rectangle.
    fn fill_bgr565be(self, target: &mut Vec<u8>, x: u16, y: u16, width: u16, height: u16) -> (r:
        CoreResult<()>)
        requires
            2 * (width as int) * (height as int) <= usize::MAX as int,
        ensures
            spec_byte_fill_post(
                self.buffer_pixels(x, y, width, height),
                ColorMode::BGR565BE,
                width,
                height,
                old(target)@,
                final(target)@,
                r,
            ),
    ;

    /// Fills `target` with the 16-bit grayscale little-endian encoding of the rectangle.
    fn fill_grayscale_16bit_le(self, target: &mut Vec<u8>, x: u16, y: u16, width: u16, height: u16) -> (r:
        CoreResult<()>)
        requires
            2 * (width as int) * (height as int) <= usize::MAX as int,
        ensures
            spec_byte_fill_post(
                self.buffer_pixels(x, y, width, height),
                ColorMode::Grayscale16BitLE,
                width,
                height,
                old(target)@,
                final(target)@,
                r,
            ),
    ;

    /// Fills `target` with the 16-bit grayscale big-endian encoding of the rectangle.
    fn fill_grayscale_16bit_be(self, target: &mut Vec<u8>, x: u16, y: u16, width: u16, height: u16) -> (r:
        CoreResult<()>)
        requires
            2 * (width as int) * (height as int) <= usize::MAX as int,
        ensures
            spec_byte_fill_post(
                self.buffer_pixels(x, y, width, height),
                ColorMode::Grayscale16BitBE,
                width,
                height,
                old(target)@,
                final(target)@,
                r,
            ),
    ;

    /// Fills `target` with one luminance byte per pixel of the rectangle.
    fn fill_grayscale_8bit(self, target: &mut Vec<u8>, x: u16, y: u16, width: u16, height: u16)
        -> (r: CoreResult<()>)
        requires
            (width as int) * (height as int) <= usize::MAX as int,
        ensures
            spec_byte_fill_post(
                self.buffer_pixels(x, y, width, height),
                ColorMode::Grayscale8Bit,
                width,
                height,
                old(target)@,
                final(target)@,
                r,
            ),
    ;

    /// Fills `target` with the rectangle's luminances packed 8 to a byte, 1 bit each.
    fn fill_grayscale_1bit(self, target: &mut Vec<u8>, x: u16, y: u16, width: u16, height: u16) -> (r:
        CoreResult<()>)
        ensures
            spec_packed_fill_post(
                self.buffer_pixels(x, y, width, height),
                ColorMode::Grayscale1Bit,
                width,
                height,
                old(target)@,
                final(target)@,
                r,
            ),
    ;

    /// Fills `target` with the rectangle's luminances packed 4 to a byte, 2 bits each.
    fn fill_grayscale_2bit(self, target: &mut Vec<u8>, x: u16, y: u16, width: u16, height: u16) -> (r:
        CoreResult<()>)
        ensures
            spec_packed_fill_post(
                self.buffer_pixels(x, y, width, height),
                ColorMode::Grayscale2Bit,
                width,
                height,
                old(target)@,
                final(target)@,
                r,
            ),
    ;

    /// Fills `target` with the rectangle's luminances packed 2 to a byte, 4 bits each.
    fn fill_grayscale_4bit(self, target: &mut Vec<u8>, x: u16, y: u16, width: u16, height: u16) -> (r:
        CoreResult<()>)
        ensures
            spec_packed_fill_post(
                self.buffer_pixels(x, y, width, height),
                ColorMode::Grayscale4Bit,
                width,
                height,
                old(target)@,
                final(target)@,
                r,
            ),
    ;
}

impl<T: IntoPixelIter> Buffer for T {
    type Item = T::Item;

    open spec fn buffer_pixels(self, x: u16, y: u16, width: u16, height: u16) -> Seq<T::Item> {
        self.spec_pixels(x, y, width, height)
    }

    proof fn buffer_pixels_len(self, x: u16, y: u16, width: u16, height: u16) {
        self.spec_pixels_len(x, y, width, height);
    }

    fn fill_rgb(self, target: &mut Vec<u8>, x: u16, y: u16, width: u16, height: u16) -> (r:
        CoreResult<()>) {
        generic_fill(self, target, x, y, width, height, ColorMode::RGB)
    }

    fn fill_bgr(self, target: &mut Vec<u8>, x: u16, y: u16, width: u16, height: u16) -> (r:
        CoreResult<()>) {
        generic_fill(self, target, x, y, width, height, ColorMode::BGR)
    }

    fn fill_rgb565le(self, target: &mut Vec<u8>, x: u16, y: u16, width: u16, height: u16) -> (r:
        CoreResult<()>) {
        generic_fill(self, target, x, y, width, height, ColorMode::RGB565LE)
    }

    fn fill_rgb565be(self, target: &mut Vec<u8>, x: u16, y: u16, width: u16, height: u16) -> (r:
        CoreResult<()>) {
        generic_fill(self, target, x, y, width, height, ColorMode::RGB565BE)
    }

    fn fill_bgr565le(self, target: &mut Vec<u8>, x: u16, y: u16, width: u16, height: u16) -> (r:
        CoreResult<()>) {
        generic_fill(self, target, x, y, width, height, ColorMode::BGR565LE)
    }

    fn fill_bgr565be(self, target: &mut Vec<u8>, x: u16, y: u16, width: u16, height: u16) -> (r:
        CoreResult<()>) {
        generic_fill(self, target, x, y, width, height, ColorMode::BGR565BE)
    }

    fn fill_grayscale_16bit_le(self, target: &mut Vec<u8>, x: u16, y: u16, width: u16, height: u16) -> (r:
        CoreResult<()>) {
        generic_fill(self, target, x, y, width, height, ColorMode::Grayscale16BitLE)
    }

    fn fill_grayscale_16bit_be(self, target: &mut Vec<u8>, x: u16, y: u16, width: u16, height: u16) -> (r:
        CoreResult<()>) {
        generic_fill(self, target, x, y, width, height, ColorMode::Grayscale16BitBE)
    }

    fn fill_grayscale_8bit(self, target: &mut Vec<u8>, x: u16, y: u16, width: u16, height: u16) -> (r:
        CoreResult<()>) {
        proof {
            assert(1 * (width as int) * (height as int) == (width as int) * (height as int))
                by (nonlinear_arith);
        }
        generic_fill(self, target, x, y, width, height, ColorMode::Grayscale8Bit)
    }

    fn fill_grayscale_1bit(self, target: &mut Vec<u8>, x: u16, y: u16, width: u16, height: u16) -> (r:
        CoreResult<()>) {
        generic_subpixel_fill(self, target, x, y, width, height, ColorMode::Grayscale1Bit)
    }

    fn fill_grayscale_2bit(self, target: &mut Vec<u8>, x: u16, y: u16, width: u16, height: u16) -> (r:
        CoreResult<()>) {
        generic_subpixel_fill(self, target, x, y, width, height, ColorMode::Grayscale2Bit)
    }

    fn fill_grayscale_4bit(self, target: &mut Vec<u8>, x: u16, y: u16, width: u16, height: u16) -> (r:
        CoreResult<()>) {
        generic_subpixel_fill(self, target, x, y, width, height, ColorMode::Grayscale4Bit)
    }
}

/// Folding 8 luminances one bit at a time packs the top bit of each, the
/// first in the most significant position: the engine's packed path and the
/// converter's one-byte packing agree.
pub proof fn lemma_pack_byte_gray1(l: Seq<u8>)
    requires
        l.len() == 8,
    ensures
        spec_pack_byte(l, 1) == crate::buffer::color::spec_gray1_byte(
        l[0], l[1], l[2], l[3], l[4], l[5], l[6], l[7]),
{
    let l0 = l[0];
    let l1 = l[1];
    let l2 = l[2];
    let l3 = l[3];
    let l4 = l[4];
    let l5 = l[5];
    let l6 = l[6];
    let l7 = l[7];
    assert(l.take(8) =~= l);
    assert(spec_pack_byte(l.take(0), 1) == 0);
    assert(l.take(1).drop_last() =~= l.take(0));
    assert(l.take(1).last() == l0);
    assert(spec_pack_byte(l.take(1), 1) == ((spec_pack_byte(l.take(0), 1) << 1u8) | (l0 >> 7u8)));
    assert(l.take(2).drop_last() =~= l.take(1));
    assert(l.take(2).last() == l1);
    assert(spec_pack_byte(l.take(2), 1) == ((spec_pack_byte(l.take(1), 1) << 1u8) | (l1 >> 7u8)));
    assert(l.take(3).drop_last() =~= l.take(2));
    assert(l.take(3).last() == l2);
    assert(spec_pack_byte(l.take(3), 1) == ((spec_pack_byte(l.take(2), 1) << 1u8) | (l2 >> 7u8)));
    assert(l.take(4).drop_last() =~= l.take(3));
    assert(l.take(4).last() == l3);
    assert(spec_pack_byte(l.take(4), 1) == ((spec_pack_byte(l.take(3), 1) << 1u8) | (l3 >> 7u8)));
    assert(l.take(5).drop_last() =~= l.take(4));
    assert(l.take(5).last() == l4);
    assert(spec_pack_byte(l.take(5), 1) == ((spec_pack_byte(l.take(4), 1) << 1u8) | (l4 >> 7u8)));
    assert(l.take(6).drop_last() =~= l.take(5));
    assert(l.take(6).last() == l5);
    assert(spec_pack_byte(l.take(6), 1) == ((spec_pack_byte(l.take(5), 1) << 1u8) | (l5 >> 7u8)));
    assert(l.take(7).drop_last() =~= l.take(6));
    assert(l.take(7).last() == l6);
    assert(spec_pack_byte(l.take(7), 1) == ((spec_pack_byte(l.take(6), 1) << 1u8) | (l6 >> 7u8)));
    assert(l.take(8).drop_last() =~= l.take(7));
    assert(l.take(8).last() == l7);
    assert(spec_pack_byte(l.take(8), 1) == ((spec_pack_byte(l.take(7), 1) << 1u8) | (l7 >> 7u8)));
    assert(spec_pack_byte(l, 1) == ((((((((((((((((0u8 << 1u8) | (l0 >> 7u8)) << 1u8) | (l1 >> 7u8)) << 1u8) | (l2 >> 7u8)) << 1u8) | (l3 >> 7u8)) << 1u8) | (l4 >> 7u8)) << 1u8) | (l5 >> 7u8)) << 1u8) | (l6 >> 7u8)) << 1u8) | (l7 >> 7u8)));
    assert(((((((((((((((((0u8 << 1u8) | (l0 >> 7u8)) << 1u8) | (l1 >> 7u8)) << 1u8) | (l2 >> 7u8)) << 1u8) | (l3 >> 7u8)) << 1u8) | (l4 >> 7u8)) << 1u8) | (l5 >> 7u8)) << 1u8) | (l6 >> 7u8)) << 1u8) | (l7 >> 7u8)) == crate::buffer::color::spec_gray1_byte(l0, l1, l2, l3, l4, l5, l6, l7)) by (bit_vector);
}

/// Folding 4 luminances two bits at a time packs the top 2 bits of each, the
/// first in the most significant position.
pub proof fn lemma_pack_byte_gray2(l: Seq<u8>)
    requires
        l.len() == 4,
    ensures
        spec_pack_byte(l, 2) == crate::buffer::color::spec_gray2_byte(
        l[0], l[1], l[2], l[3]),
{
    let l0 = l[0];
    let l1 = l[1];
    let l2 = l[2];
    let l3 = l[3];
    assert(l.take(4) =~= l);
    assert(spec_pack_byte(l.take(0), 2) == 0);
    assert(l.take(1).drop_last() =~= l.take(0));
    assert(l.take(1).last() == l0);
    assert(spec_pack_byte(l.take(1), 2) == ((spec_pack_byte(l.take(0), 2) << 2u8) | (l0 >> 6u8)));
    assert(l.take(2).drop_last() =~= l.take(1));
    assert(l.take(2).last() == l1);
    assert(spec_pack_byte(l.take(2), 2) == ((spec_pack_byte(l.take(1), 2) << 2u8) | (l1 >> 6u8)));
    assert(l.take(3).drop_last() =~= l.take(2));
    assert(l.take(3).last() == l2);
    assert(spec_pack_byte(l.take(3), 2) == ((spec_pack_byte(l.take(2), 2) << 2u8) | (l2 >> 6u8)));
    assert(l.take(4).drop_last() =~= l.take(3));
    assert(l.take(4).last() == l3);
    assert(spec_pack_byte(l.take(4), 2) == ((spec_pack_byte(l.take(3), 2) << 2u8) | (l3 >> 6u8)));
    assert(spec_pack_byte(l, 2) == ((((((((0u8 << 2u8) | (l0 >> 6u8)) << 2u8) | (l1 >> 6u8)) << 2u8) | (l2 >> 6u8)) << 2u8) | (l3 >> 6u8)));
    assert(((((((((0u8 << 2u8) | (l0 >> 6u8)) << 2u8) | (l1 >> 6u8)) << 2u8) | (l2 >> 6u8)) << 2u8) | (l3 >> 6u8)) == crate::buffer::color::spec_gray2_byte(l0, l1, l2, l3)) by (bit_vector);
}

/// Folding 2 luminances four bits at a time packs the top 4 bits of each,
/// the first in the most significant position.
pub proof fn lemma_pack_byte_gray4(l: Seq<u8>)
    requires
        l.len() == 2,
    ensures
        spec_pack_byte(l, 4) == crate::buffer::color::spec_gray4_byte(
        l[0], l[1]),
{
    let l0 = l[0];
    let l1 = l[1];
    assert(l.take(2) =~= l);
    assert(spec_pack_byte(l.take(0), 4) == 0);
    assert(l.take(1).drop_last() =~= l.take(0));
    assert(l.take(1).last() == l0);
    assert(spec_pack_byte(l.take(1), 4) == ((spec_pack_byte(l.take(0), 4) << 4u8) | (l0 >> 4u8)));
    assert(l.take(2).drop_last() =~= l.take(1));
    assert(l.take(2).last() == l1);
    assert(spec_pack_byte(l.take(2), 4) == ((spec_pack_byte(l.take(1), 4) << 4u8) | (l1 >> 4u8)));
    assert(spec_pack_byte(l, 4) == ((((0u8 << 4u8) | (l0 >> 4u8)) << 4u8) | (l1 >> 4u8)));
    assert(((((0u8 << 4u8) | (l0 >> 4u8)) << 4u8) | (l1 >> 4u8)) == crate::buffer::color::spec_gray4_byte(l0, l1)) by (bit_vector);
}

} // verus!
