use vstd::prelude::*;

use crate::buffer::{spec_max3, spec_max3_u8};
use crate::error::{CoreError, CoreResult};

verus! {

/// One color channel: an unsigned integer of fixed byte width whose
/// most-significant byte is what reaches the wire.
pub trait Component: Sized + Copy {
    /// The numeric value of the component.
    spec fn spec_val(self) -> int;

    /// The width of the component in bytes.
    spec fn spec_byte_len() -> nat;

    /// The component's bytes, most significant first.
    spec fn spec_bytes_be(self) -> Seq<u8>;

    /// The component's most significant byte.
    spec fn spec_msb(self) -> u8;

    /// The byte representation has exactly the declared width, is never
    /// empty, and starts with the most significant byte.
    proof fn lemma_bytes_shape(self)
        ensures
            self.spec_bytes_be().len() == Self::spec_byte_len(),
            Self::spec_byte_len() >= 1,
            self.spec_msb() == self.spec_bytes_be()[0],
    ;

    /// Writes the component into `buf` least-significant byte first.
    fn convert_le(self, buf: &mut Vec<u8>) -> (r: CoreResult<()>)
        ensures
            old(buf)@.len() == Self::spec_byte_len() ==> r == CoreResult::<()>::Ok(())
                && final(buf)@ == self.spec_bytes_be().reverse(),
            old(buf)@.len() != Self::spec_byte_len() ==> r == CoreResult::<()>::Err(
                CoreError::BufferSizeError {
                    given: old(buf).len(),
                    expected: Self::spec_byte_len() as usize,
                },
            ) && final(buf)@ == old(buf)@,
    ;

    /// Writes the component into `buf` most-significant byte first.
    fn convert_be(self, buf: &mut Vec<u8>) -> (r: CoreResult<()>)
        ensures
            old(buf)@.len() == Self::spec_byte_len() ==> r == CoreResult::<()>::Ok(())
                && final(buf)@ == self.spec_bytes_be(),
            old(buf)@.len() != Self::spec_byte_len() ==> r == CoreResult::<()>::Err(
                CoreError::BufferSizeError {
                    given: old(buf).len(),
                    expected: Self::spec_byte_len() as usize,
                },
            ) && final(buf)@ == old(buf)@,
    ;

    /// The largest of this component and two others; its most significant
    /// byte is the largest of the three most significant bytes.
    fn max_component(self, other1: Self, other2: Self) -> (r: Self)
        ensures
            r == self || r == other1 || r == other2,
            r.spec_val() == spec_max3(self.spec_val(), other1.spec_val(), other2.spec_val()),
            r.spec_msb() == spec_max3_u8(self.spec_msb(), other1.spec_msb(), other2.spec_msb()),
    ;

    /// Extracts the most significant byte.
    fn most_significant_byte(self) -> (r: u8)
        ensures
            r == self.spec_msb(),
    ;
}

impl Component for u8 {
    open spec fn spec_val(self) -> int {
        self as int
    }

    open spec fn spec_byte_len() -> nat {
        1
    }

    open spec fn spec_bytes_be(self) -> Seq<u8> {
        seq![self]
    }

    open spec fn spec_msb(self) -> u8 {
        self
    }

    proof fn lemma_bytes_shape(self) {
    }

    fn convert_le(self, buf: &mut Vec<u8>) -> (r: CoreResult<()>) {
        proof {
            assert(Self::spec_byte_len() == 1);
        }
        match CoreError::check_length(buf, 1) {
            Ok(()) => {},
            Err(e) => {
                return Err(e);
            },
        }
        buf[0] = self;
        proof {
            assert(buf@ =~= self.spec_bytes_be().reverse());
        }
        Ok(())
    }

    fn convert_be(self, buf: &mut Vec<u8>) -> (r: CoreResult<()>) {
        proof {
            assert(Self::spec_byte_len() == 1);
        }
        match CoreError::check_length(buf, 1) {
            Ok(()) => {},
            Err(e) => {
                return Err(e);
            },
        }
        buf[0] = self;
        proof {
            assert(buf@ =~= self.spec_bytes_be());
        }
        Ok(())
    }

    fn max_component(self, other1: Self, other2: Self) -> (r: Self) {
        let m: u8 = if other1 >= other2 {
            other1
        } else {
            other2
        };
        if self >= m {
            self
        } else {
            m
        }
    }

    fn most_significant_byte(self) -> (r: u8) {
        self
    }
}

/// A larger value of `u16` never has the smaller most significant byte.
proof fn lemma_msb_monotone_u16()
    by (bit_vector)
    ensures
        forall|x: u16, y: u16| #![trigger (x >> 8u16), (y >> 8u16)]
            x >= y ==> ((x >> 8u16) as u8) >= ((y >> 8u16) as u8),
{
}

impl Component for u16 {
    open spec fn spec_val(self) -> int {
        self as int
    }

    open spec fn spec_byte_len() -> nat {
        2
    }

    open spec fn spec_bytes_be(self) -> Seq<u8> {
        seq![(self >> 8u16) as u8, self as u8]
    }

    open spec fn spec_msb(self) -> u8 {
        (self >> 8u16) as u8
    }

    proof fn lemma_bytes_shape(self) {
    }

    fn convert_le(self, buf: &mut Vec<u8>) -> (r: CoreResult<()>) {
        proof {
            assert(Self::spec_byte_len() == 2);
        }
        match CoreError::check_length(buf, 2) {
            Ok(()) => {},
            Err(e) => {
                return Err(e);
            },
        }
        buf[0] = self as u8;
        buf[1] = (self >> 8u16) as u8;
        proof {
            assert(buf@ =~= self.spec_bytes_be().reverse());
        }
        Ok(())
    }

    fn convert_be(self, buf: &mut Vec<u8>) -> (r: CoreResult<()>) {
        proof {
            assert(Self::spec_byte_len() == 2);
        }
        match CoreError::check_length(buf, 2) {
            Ok(()) => {},
            Err(e) => {
                return Err(e);
            },
        }
        buf[0] = (self >> 8u16) as u8;
        buf[1] = self as u8;
        proof {
            assert(buf@ =~= self.spec_bytes_be());
        }
        Ok(())
    }

    fn max_component(self, other1: Self, other2: Self) -> (r: Self) {
        let m: u16 = if other1 >= other2 {
            other1
        } else {
            other2
        };
        let r: u16 = if self >= m {
            self
        } else {
            m
        };
        proof {
            lemma_msb_monotone_u16();
        }
        r
    }

    fn most_significant_byte(self) -> (r: u8) {
        (self >> 8) as u8
    }
}

/// A larger value of `u32` never has the smaller most significant byte.
proof fn lemma_msb_monotone_u32()
    by (bit_vector)
    ensures
        forall|x: u32, y: u32| #![trigger (x >> 24u32), (y >> 24u32)]
            x >= y ==> ((x >> 24u32) as u8) >= ((y >> 24u32) as u8),
{
}

impl Component for u32 {
    open spec fn spec_val(self) -> int {
        self as int
    }

    open spec fn spec_byte_len() -> nat {
        4
    }

    open spec fn spec_bytes_be(self) -> Seq<u8> {
        seq![(self >> 24u32) as u8, (self >> 16u32) as u8, (self >> 8u32) as u8, self as u8]
    }

    open spec fn spec_msb(self) -> u8 {
        (self >> 24u32) as u8
    }

    proof fn lemma_bytes_shape(self) {
    }

    fn convert_le(self, buf: &mut Vec<u8>) -> (r: CoreResult<()>) {
        proof {
            assert(Self::spec_byte_len() == 4);
        }
        match CoreError::check_length(buf, 4) {
            Ok(()) => {},
            Err(e) => {
                return Err(e);
            },
        }
        buf[0] = self as u8;
        buf[1] = (self >> 8u32) as u8;
        buf[2] = (self >> 16u32) as u8;
        buf[3] = (self >> 24u32) as u8;
        proof {
            assert(buf@ =~= self.spec_bytes_be().reverse());
        }
        Ok(())
    }

    fn convert_be(self, buf: &mut Vec<u8>) -> (r: CoreResult<()>) {
        proof {
            assert(Self::spec_byte_len() == 4);
        }
        match CoreError::check_length(buf, 4) {
            Ok(()) => {},
            Err(e) => {
                return Err(e);
            },
        }
        buf[0] = (self >> 24u32) as u8;
        buf[1] = (self >> 16u32) as u8;
        buf[2] = (self >> 8u32) as u8;
        buf[3] = self as u8;
        proof {
            assert(buf@ =~= self.spec_bytes_be());
        }
        Ok(())
    }

    fn max_component(self, other1: Self, other2: Self) -> (r: Self) {
        let m: u32 = if other1 >= other2 {
            other1
        } else {
            other2
        };
        let r: u32 = if self >= m {
            self
        } else {
            m
        };
        proof {
            lemma_msb_monotone_u32();
        }
        r
    }

    fn most_significant_byte(self) -> (r: u8) {
        (self >> 24) as u8
    }
}

/// A larger value of `u64` never has the smaller most significant byte.
proof fn lemma_msb_monotone_u64()
    by (bit_vector)
    ensures
        forall|x: u64, y: u64| #![trigger (x >> 56u64), (y >> 56u64)]
            x >= y ==> ((x >> 56u64) as u8) >= ((y >> 56u64) as u8),
{
}

impl Component for u64 {
    open spec fn spec_val(self) -> int {
        self as int
    }

    open spec fn spec_byte_len() -> nat {
        8
    }

    open spec fn spec_bytes_be(self) -> Seq<u8> {
        seq![(self >> 56u64) as u8, (self >> 48u64) as u8, (self >> 40u64) as u8, (self >> 32u64) as u8, (self >> 24u64) as u8, (self >> 16u64) as u8, (self >> 8u64) as u8, self as u8]
    }

    open spec fn spec_msb(self) -> u8 {
        (self >> 56u64) as u8
    }

    proof fn lemma_bytes_shape(self) {
    }

    fn convert_le(self, buf: &mut Vec<u8>) -> (r: CoreResult<()>) {
        proof {
            assert(Self::spec_byte_len() == 8);
        }
        match CoreError::check_length(buf, 8) {
            Ok(()) => {},
            Err(e) => {
                return Err(e);
            },
        }
        buf[0] = self as u8;
        buf[1] = (self >> 8u64) as u8;
        buf[2] = (self >> 16u64) as u8;
        buf[3] = (self >> 24u64) as u8;
        buf[4] = (self >> 32u64) as u8;
        buf[5] = (self >> 40u64) as u8;
        buf[6] = (self >> 48u64) as u8;
        buf[7] = (self >> 56u64) as u8;
        proof {
            assert(buf@ =~= self.spec_bytes_be().reverse());
        }
        Ok(())
    }

    fn convert_be(self, buf: &mut Vec<u8>) -> (r: CoreResult<()>) {
        proof {
            assert(Self::spec_byte_len() == 8);
        }
        match CoreError::check_length(buf, 8) {
            Ok(()) => {},
            Err(e) => {
                return Err(e);
            },
        }
        buf[0] = (self >> 56u64) as u8;
        buf[1] = (self >> 48u64) as u8;
        buf[2] = (self >> 40u64) as u8;
        buf[3] = (self >> 32u64) as u8;
        buf[4] = (self >> 24u64) as u8;
        buf[5] = (self >> 16u64) as u8;
        buf[6] = (self >> 8u64) as u8;
        buf[7] = self as u8;
        proof {
            assert(buf@ =~= self.spec_bytes_be());
        }
        Ok(())
    }

    fn max_component(self, other1: Self, other2: Self) -> (r: Self) {
        let m: u64 = if other1 >= other2 {
            other1
        } else {
            other2
        };
        let r: u64 = if self >= m {
            self
        } else {
            m
        };
        proof {
            lemma_msb_monotone_u64();
        }
        r
    }

    fn most_significant_byte(self) -> (r: u8) {
        (self >> 56) as u8
    }
}

/// A larger value of `u128` never has the smaller most significant byte.
proof fn lemma_msb_monotone_u128()
    by (bit_vector)
    ensures
        forall|x: u128, y: u128| #![trigger (x >> 120u128), (y >> 120u128)]
            x >= y ==> ((x >> 120u128) as u8) >= ((y >> 120u128) as u8),
{
}

impl Component for u128 {
    open spec fn spec_val(self) -> int {
        self as int
    }

    open spec fn spec_byte_len() -> nat {
        16
    }

    open spec fn spec_bytes_be(self) -> Seq<u8> {
        seq![(self >> 120u128) as u8, (self >> 112u128) as u8, (self >> 104u128) as u8, (self >> 96u128) as u8, (self >> 88u128) as u8, (self >> 80u128) as u8, (self >> 72u128) as u8, (self >> 64u128) as u8, (self >> 56u128) as u8, (self >> 48u128) as u8, (self >> 40u128) as u8, (self >> 32u128) as u8, (self >> 24u128) as u8, (self >> 16u128) as u8, (self >> 8u128) as u8, self as u8]
    }

    open spec fn spec_msb(self) -> u8 {
        (self >> 120u128) as u8
    }

    proof fn lemma_bytes_shape(self) {
    }

    fn convert_le(self, buf: &mut Vec<u8>) -> (r: CoreResult<()>) {
        proof {
            assert(Self::spec_byte_len() == 16);
        }
        match CoreError::check_length(buf, 16) {
            Ok(()) => {},
            Err(e) => {
                return Err(e);
            },
        }
        buf[0] = self as u8;
        buf[1] = (self >> 8u128) as u8;
        buf[2] = (self >> 16u128) as u8;
        buf[3] = (self >> 24u128) as u8;
        buf[4] = (self >> 32u128) as u8;
        buf[5] = (self >> 40u128) as u8;
        buf[6] = (self >> 48u128) as u8;
        buf[7] = (self >> 56u128) as u8;
        buf[8] = (self >> 64u128) as u8;
        buf[9] = (self >> 72u128) as u8;
        buf[10] = (self >> 80u128) as u8;
        buf[11] = (self >> 88u128) as u8;
        buf[12] = (self >> 96u128) as u8;
        buf[13] = (self >> 104u128) as u8;
        buf[14] = (self >> 112u128) as u8;
        buf[15] = (self >> 120u128) as u8;
        proof {
            assert(buf@ =~= self.spec_bytes_be().reverse());
        }
        Ok(())
    }

    fn convert_be(self, buf: &mut Vec<u8>) -> (r: CoreResult<()>) {
        proof {
            assert(Self::spec_byte_len() == 16);
        }
        match CoreError::check_length(buf, 16) {
            Ok(()) => {},
            Err(e) => {
                return Err(e);
            },
        }
        buf[0] = (self >> 120u128) as u8;
        buf[1] = (self >> 112u128) as u8;
        buf[2] = (self >> 104u128) as u8;
        buf[3] = (self >> 96u128) as u8;
        buf[4] = (self >> 88u128) as u8;
        buf[5] = (self >> 80u128) as u8;
        buf[6] = (self >> 72u128) as u8;
        buf[7] = (self >> 64u128) as u8;
        buf[8] = (self >> 56u128) as u8;
        buf[9] = (self >> 48u128) as u8;
        buf[10] = (self >> 40u128) as u8;
        buf[11] = (self >> 32u128) as u8;
        buf[12] = (self >> 24u128) as u8;
        buf[13] = (self >> 16u128) as u8;
        buf[14] = (self >> 8u128) as u8;
        buf[15] = self as u8;
        proof {
            assert(buf@ =~= self.spec_bytes_be());
        }
        Ok(())
    }

    fn max_component(self, other1: Self, other2: Self) -> (r: Self) {
        let m: u128 = if other1 >= other2 {
            other1
        } else {
            other2
        };
        let r: u128 = if self >= m {
            self
        } else {
            m
        };
        proof {
            lemma_msb_monotone_u128();
        }
        r
    }

    fn most_significant_byte(self) -> (r: u8) {
        (self >> 120) as u8
    }
}

} // verus!
