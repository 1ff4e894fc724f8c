use vstd::prelude::*;

verus! {

/// The wire formats a pixel can be serialized into.
#[derive(Clone, Copy, PartialEq, Eq, Structural, Debug)]
pub enum ColorMode {
    RGB,
    BGR,
    RGB565LE,
    RGB565BE,
    BGR565LE,
    BGR565BE,
    Grayscale1Bit,
    Grayscale2Bit,
    Grayscale4Bit,
    Grayscale8Bit,
    Grayscale16BitLE,
    Grayscale16BitBE,
}

/// How pixels of a mode occupy storage: either each pixel takes a whole
/// number of bytes, or several pixels are packed into each byte.
#[derive(Clone, Copy, PartialEq, Eq, Structural, Debug)]
pub enum StorageMode {
    BytesPerPixel(usize),
    PixelsPerByte(usize),
}

/// The storage rule of each color mode.
pub open spec fn spec_byte_size(mode: ColorMode) -> StorageMode {
    match mode {
        ColorMode::RGB => StorageMode::BytesPerPixel(3),
        ColorMode::BGR => StorageMode::BytesPerPixel(3),
        ColorMode::RGB565LE => StorageMode::BytesPerPixel(2),
        ColorMode::RGB565BE => StorageMode::BytesPerPixel(2),
        ColorMode::BGR565LE => StorageMode::BytesPerPixel(2),
        ColorMode::BGR565BE => StorageMode::BytesPerPixel(2),
        ColorMode::Grayscale8Bit => StorageMode::BytesPerPixel(1),
        ColorMode::Grayscale16BitLE => StorageMode::BytesPerPixel(2),
        ColorMode::Grayscale16BitBE => StorageMode::BytesPerPixel(2),
        ColorMode::Grayscale1Bit => StorageMode::PixelsPerByte(8),
        ColorMode::Grayscale2Bit => StorageMode::PixelsPerByte(4),
        ColorMode::Grayscale4Bit => StorageMode::PixelsPerByte(2),
    }
}

impl ColorMode {
    /// Gives the storage one pixel of this mode needs: a whole number of
    /// bytes per pixel, or, for the sub-byte grayscale modes, the number of
    /// pixels that share one byte.
    pub fn byte_size(&self) -> (r: StorageMode)
        ensures
            r == spec_byte_size(*self),
    {
        match self {
            ColorMode::RGB => StorageMode::BytesPerPixel(3),
            ColorMode::BGR => StorageMode::BytesPerPixel(3),
            ColorMode::RGB565LE => StorageMode::BytesPerPixel(2),
            ColorMode::RGB565BE => StorageMode::BytesPerPixel(2),
            ColorMode::BGR565LE => StorageMode::BytesPerPixel(2),
            ColorMode::BGR565BE => StorageMode::BytesPerPixel(2),
            ColorMode::Grayscale8Bit => StorageMode::BytesPerPixel(1),
            ColorMode::Grayscale16BitLE => StorageMode::BytesPerPixel(2),
            ColorMode::Grayscale16BitBE => StorageMode::BytesPerPixel(2),
            ColorMode::Grayscale1Bit => StorageMode::PixelsPerByte(8),
            ColorMode::Grayscale2Bit => StorageMode::PixelsPerByte(4),
            ColorMode::Grayscale4Bit => StorageMode::PixelsPerByte(2),
        }
    }
}

} // verus!
