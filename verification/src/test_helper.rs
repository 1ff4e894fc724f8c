use vstd::prelude::*;

verus! {

use crate::buffer::calculate_length;
use crate::buffer::{IntoPixelIter, PixelIter};

/// A plain 8-bit-per-channel color, used as a fixture by callers and tests.
pub struct Color {
    pub red: u8,
    pub green: u8,
    pub blue: u8,
}

/// A pixel source that yields one fixed color for every requested pixel.
pub struct DummyBuffer {
    pub color: Color,
}

/// The walk of a [`DummyBuffer`] rectangle: the same color, `length` times.
pub struct BufferIter<'a> {
    pub color: &'a Color,
    pub pos: usize,
    pub length: usize,
}

impl Color {
    /// Builds a color from its three channel bytes.
    pub fn new(red: u8, green: u8, blue: u8) -> (c: Color)
        ensures
            c == (Color { red, green, blue }),
    {
        Color { red, green, blue }
    }

    /// The red channel byte.
    pub fn red(&self) -> (r: u8)
        ensures
            r == self.red,
    {
        self.red
    }

    /// The green channel byte.
    pub fn green(&self) -> (r: u8)
        ensures
            r == self.green,
    {
        self.green
    }

    /// The blue channel byte.
    pub fn blue(&self) -> (r: u8)
        ensures
            r == self.blue,
    {
        self.blue
    }
}

impl DummyBuffer {
    /// Builds a source that repeats `color` over the whole canvas.
    pub fn new(color: Color) -> (b: DummyBuffer)
        ensures
            b == (DummyBuffer { color }),
    {
        DummyBuffer { color }
    }
}

impl<'a> crate::buffer::color::Color for &'a Color {
    type Component = u8;

    open spec fn spec_components(self) -> (u8, u8, u8) {
        (self.red, self.green, self.blue)
    }

    fn components(self) -> (r: (u8, u8, u8)) {
        (self.red, self.green, self.blue)
    }
}

impl<'a> PixelIter for BufferIter<'a> {
    type Item = &'a Color;

    open spec fn pixels(&self) -> Seq<&'a Color> {
        if self.pos <= self.length {
            Seq::new((self.length - self.pos) as nat, |i: int| self.color)
        } else {
            Seq::empty()
        }
    }

    fn next(&mut self) -> (r: Option<&'a Color>) {
        if self.pos < self.length {
            self.pos = self.pos + 1;
            proof {
                assert(self.pixels() =~= old(self).pixels().drop_first());
            }
            Some(self.color)
        } else {
            None
        }
    }
}

impl<'a> IntoPixelIter for &'a DummyBuffer {
    type IntoIter = BufferIter<'a>;

    type Item = &'a Color;

    open spec fn spec_pixels(self, x: u16, y: u16, width: u16, height: u16) -> Seq<&'a Color> {
        Seq::new(((width as int) * (height as int)) as nat, |i: int| &self.color)
    }

    proof fn spec_pixels_len(self, x: u16, y: u16, width: u16, height: u16) {
        vstd::arithmetic::mul::lemma_mul_nonnegative(width as int, height as int);
    }

    fn into_pixel_iter(self, x: u16, y: u16, width: u16, height: u16) -> (it: BufferIter<'a>) {
        let it = BufferIter { color: &self.color, pos: 0, length: calculate_length(width, height) };
        proof {
            assert(it.pixels() =~= self.spec_pixels(x, y, width, height));
        }
        it
    }
}

} // verus!
