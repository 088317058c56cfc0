use vstd::prelude::*;

verus! {

/// The processor's status flags, each an independent boolean.
#[allow(non_snake_case)]
#[derive(PartialEq, Eq, Structural)]
pub struct StatusRegister {
    /// Carry
    pub C: bool,
    /// Zero
    pub Z: bool,
    /// Interrupt disable
    pub I: bool,
    /// Decimal
    pub D: bool,
    /// Overflow
    pub V: bool,
    /// Negative
    pub N: bool,
}

pub const FLAG_C: u8 = 0b0000_0001;
pub const FLAG_Z: u8 = 0b0000_0010;
pub const FLAG_I: u8 = 0b0000_0100;
pub const FLAG_D: u8 = 0b0000_1000;
pub const FLAG_B: u8 = 0b0001_0000;
pub const FLAG_U: u8 = 0b0010_0000;
pub const FLAG_V: u8 = 0b0100_0000;
pub const FLAG_N: u8 = 0b1000_0000;

/// Whether bit `k` of `b` is set.
pub open spec fn bit_set(b: u8, k: u8) -> bool {
    (b >> k) & 1u8 == 1u8
}

/// 1 for a set flag, 0 for a clear one.
pub open spec fn flag_value(f: bool) -> int {
    if f { 1 } else { 0 }
}

impl StatusRegister {
    /// The flags that decoding `value` gives: bits 0-3, 6 and 7.
    pub open spec fn decoded(value: u8) -> StatusRegister {
        StatusRegister {
            C: bit_set(value, 0),
            Z: bit_set(value, 1),
            I: bit_set(value, 2),
            D: bit_set(value, 3),
            V: bit_set(value, 6),
            N: bit_set(value, 7),
        }
    }

    /// The byte that packs these flags: bit 0 carry, 1 zero, 2 interrupt-disable,
    /// 3 decimal, 4 clear, 5 set, 6 overflow, 7 negative.
    pub open spec fn packed(&self) -> u8 {
        (flag_value(self.C) + 2 * flag_value(self.Z) + 4 * flag_value(self.I)
            + 8 * flag_value(self.D) + 32 + 64 * flag_value(self.V) + 128 * flag_value(self.N)) as u8
    }

    /// Packs the flags into a byte.
    pub fn to_byte(&self) -> (r: u8)
        ensures
            r == self.packed(),
    {
        let c = self.C as u8;
        let z = self.Z as u8;
        let i = self.I as u8;
        let d = self.D as u8;
        let v = self.V as u8;
        let n = self.N as u8;
        let r: u8 = c | (z << 1u8) | (i << 2u8) | (d << 3u8) | FLAG_U | (v << 6u8) | (n << 7u8);
        assert(r == c + 2 * z + 4 * i + 8 * d + 32 + 64 * v + 128 * n) by (bit_vector)
            requires
                c <= 1 && z <= 1 && i <= 1 && d <= 1 && v <= 1 && n <= 1,
                r == c | (z << 1u8) | (i << 2u8) | (d << 3u8) | 0x20u8 | (v << 6u8) | (n << 7u8);
        r
    }

    /// Unpacks the six flags from a byte; bits 4 and 5 are ignored.
    pub fn from_byte(value: u8) -> (r: StatusRegister)
        ensures
            r == StatusRegister::decoded(value),
    {
        proof {
            assert(((value & 0x01u8) != 0) == ((value >> 0u8) & 1u8 == 1u8)) by (bit_vector);
            assert(((value & 0x02u8) != 0) == ((value >> 1u8) & 1u8 == 1u8)) by (bit_vector);
            assert(((value & 0x04u8) != 0) == ((value >> 2u8) & 1u8 == 1u8)) by (bit_vector);
            assert(((value & 0x08u8) != 0) == ((value >> 3u8) & 1u8 == 1u8)) by (bit_vector);
            assert(((value & 0x40u8) != 0) == ((value >> 6u8) & 1u8 == 1u8)) by (bit_vector);
            assert(((value & 0x80u8) != 0) == ((value >> 7u8) & 1u8 == 1u8)) by (bit_vector);
        }
        StatusRegister {
            C: value & FLAG_C != 0,
            Z: value & FLAG_Z != 0,
            I: value & FLAG_I != 0,
            D: value & FLAG_D != 0,
            V: value & FLAG_V != 0,
            N: value & FLAG_N != 0,
        }
    }
}

/// Decoding a byte and encoding the flags again gives back the byte with
/// bit 5 set and bit 4 cleared; every other bit is kept.
pub proof fn lemma_flags_round_trip(b: u8)
    ensures
        StatusRegister::decoded(b).packed() == (b & 0b1100_1111u8) | 0b0010_0000u8,
{
    let c0 = (b >> 0u8) & 1u8;
    let c1 = (b >> 1u8) & 1u8;
    let c2 = (b >> 2u8) & 1u8;
    let c3 = (b >> 3u8) & 1u8;
    let c6 = (b >> 6u8) & 1u8;
    let c7 = (b >> 7u8) & 1u8;
    assert(c0 <= 1 && c1 <= 1 && c2 <= 1 && c3 <= 1 && c6 <= 1 && c7 <= 1) by (bit_vector)
        requires
            c0 == (b >> 0u8) & 1u8, c1 == (b >> 1u8) & 1u8, c2 == (b >> 2u8) & 1u8,
            c3 == (b >> 3u8) & 1u8, c6 == (b >> 6u8) & 1u8, c7 == (b >> 7u8) & 1u8;
    let s = StatusRegister::decoded(b);
    assert(flag_value(s.C) == c0 && flag_value(s.Z) == c1 && flag_value(s.I) == c2
        && flag_value(s.D) == c3 && flag_value(s.V) == c6 && flag_value(s.N) == c7);
    assert(c0 + 2 * c1 + 4 * c2 + 8 * c3 + 32 + 64 * c6 + 128 * c7
        == (b & 0b1100_1111u8) | 0b0010_0000u8) by (bit_vector)
        requires
            c0 == (b >> 0u8) & 1u8, c1 == (b >> 1u8) & 1u8, c2 == (b >> 2u8) & 1u8,
            c3 == (b >> 3u8) & 1u8, c6 == (b >> 6u8) & 1u8, c7 == (b >> 7u8) & 1u8;
}

} // verus!
