use vstd::prelude::*;

verus! {

/// Conversion of a microphone sample to a 16-bit PCM sample.
pub trait ToI16: Copy {
    /// The value as a signed 16-bit sample.
    spec fn as_pcm16(self) -> int;

    fn to_i16(self) -> (r: i16)
        ensures
            r as int == self.as_pcm16(),
    ;
}

impl ToI16 for i16 {
    open spec fn as_pcm16(self) -> int {
        self as int
    }

    fn to_i16(self) -> (r: i16) {
        self
    }
}

impl ToI16 for i8 {
    /// An 8-bit sample shifted into the high byte.
    open spec fn as_pcm16(self) -> int {
        self as int * 256
    }

    fn to_i16(self) -> (r: i16) {
        (self as i16) * 256
    }
}

impl ToI16 for i32 {
    /// The high 16 bits of a 32-bit sample (rounding toward minus infinity).
    open spec fn as_pcm16(self) -> int {
        self as int / 65536
    }

    fn to_i16(self) -> (r: i16) {
        let x = self;
        assert((x >> 16u32) as int == x as int / 65536 && -32768 <= x >> 16u32 <= 32767) by (bit_vector);
        (x >> 16u32) as i16
    }
}

impl ToI16 for u8 {
    /// An unsigned 8-bit sample, centered on 128, shifted into the high byte.
    open spec fn as_pcm16(self) -> int {
        (self as int - 128) * 256
    }

    fn to_i16(self) -> (r: i16) {
        ((self as i16) - 128) * 256
    }
}

impl ToI16 for u16 {
    /// An unsigned 16-bit sample centered on 32768.
    open spec fn as_pcm16(self) -> int {
        self as int - 32768
    }

    fn to_i16(self) -> (r: i16) {
        ((self as i32) - 32768) as i16
    }
}

} // verus!
