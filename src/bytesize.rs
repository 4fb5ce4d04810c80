use vstd::prelude::*;
use vstd::arithmetic::power2::pow2;
use vstd::bits::{lemma_u64_pow2_no_overflow, lemma_u64_shl_is_mul, lemma_u64_shr_is_div};

verus! {

/// An unsigned number of bytes.
///
/// Used to represent sizes of values in registers or in memory.
/// Can also be used for other byte-valued numbers, like offsets,
/// as long as the number is guaranteed to be non-negative.
#[derive(Debug, Clone, Copy, PartialEq, Eq, Structural, PartialOrd, Ord, Hash)]
pub struct ByteSize(pub u64);

/// The number of whole bytes needed to hold `bits` bits: `ceil(bits / 8)`.
pub open spec fn bytes_for_bits(bits: nat) -> nat {
    (bits + 7) / 8
}

impl ByteSize {
    /// The number of bytes, as a mathematical integer.
    pub open spec fn spec_value(self) -> nat {
        self.0 as nat
    }

    /// The number of bits that a value of this size occupies.
    pub open spec fn spec_bits(self) -> nat {
        8 * (self.0 as nat)
    }

    /// Create a new `ByteSize` object
    pub fn new(value: u64) -> (r: ByteSize)
        ensures
            r.0 == value,
    {
        ByteSize(value)
    }

    /// Convert to the equivalent size in bits (by multiplying with 8).
    pub fn as_bit_length(self) -> (r: usize)
        requires
            self.spec_bits() <= usize::MAX,
        ensures
            r == self.spec_bits(),
    {
        (self.0 * 8) as usize
    }

    /// Convert to the equivalent size in bits, as a 64-bit number.
    pub fn to_bits(self) -> (r: u64)
        requires
            self.spec_bits() <= u64::MAX,
        ensures
            r == self.spec_bits(),
    {
        self.0 * 8
    }

    /// Convert a number of bits to a `ByteSize`, always rounding up to the
    /// nearest full byte.
    pub fn from_bits(bits: u64) -> (r: ByteSize)
        ensures
            r.0 == bytes_for_bits(bits as nat),
    {
        let whole: u64 = bits / 8;
        if bits % 8 == 0 {
            ByteSize(whole)
        } else {
            ByteSize(whole + 1)
        }
    }

    /// Convert a bit width given as `usize` to a `ByteSize`, rounding up to
    /// the nearest full byte.
    pub fn from_bit_length(bits: usize) -> (r: ByteSize)
        ensures
            r.0 == bytes_for_bits(bits as nat),
    {
        ByteSize::from_bits(bits as u64)
    }

    /// The sum of two sizes, or `None` where it does not fit in 64 bits.
    pub fn checked_add(self, other: ByteSize) -> (r: Option<ByteSize>)
        ensures
            self.0 + other.0 <= u64::MAX ==> r == Some(ByteSize((self.0 + other.0) as u64)),
            self.0 + other.0 > u64::MAX ==> r.is_none(),
    {
        match self.0.checked_add(other.0) {
            Some(v) => Some(ByteSize(v)),
            None => None,
        }
    }

    /// The product of two sizes, or `None` where it does not fit in 64 bits.
    pub fn checked_mul(self, other: ByteSize) -> (r: Option<ByteSize>)
        ensures
            self.0 * other.0 <= u64::MAX ==> r == Some(ByteSize((self.0 * other.0) as u64)),
            self.0 * other.0 > u64::MAX ==> r.is_none(),
    {
        match self.0.checked_mul(other.0) {
            Some(v) => Some(ByteSize(v)),
            None => None,
        }
    }

    /// The quotient of two sizes, rounded down, or `None` for a zero divisor.
    pub fn checked_div(self, other: ByteSize) -> (r: Option<ByteSize>)
        ensures
            other.0 != 0 ==> r == Some(ByteSize(self.0 / other.0)),
            other.0 == 0 ==> r.is_none(),
    {
        if other.0 == 0 {
            None
        } else {
            Some(ByteSize(self.0 / other.0))
        }
    }

    /// The remainder of two sizes, or `None` for a zero divisor.
    pub fn checked_rem(self, other: ByteSize) -> (r: Option<ByteSize>)
        ensures
            other.0 != 0 ==> r == Some(ByteSize(self.0 % other.0)),
            other.0 == 0 ==> r.is_none(),
    {
        if other.0 == 0 {
            None
        } else {
            Some(ByteSize(self.0 % other.0))
        }
    }

    /// The size multiplied by `2^shift`, or `None` where that does not fit
    /// in 64 bits.
    pub fn checked_shl(self, shift: u32) -> (r: Option<ByteSize>)
        ensures
            shift < 64 && self.0 * pow2(shift as nat) <= u64::MAX ==> r == Some(
                ByteSize((self.0 * pow2(shift as nat)) as u64),
            ),
            !(shift < 64 && self.0 * pow2(shift as nat) <= u64::MAX) ==> r.is_none(),
    {
        if shift >= 64 {
            return None;
        }
        let s = shift as u64;
        proof {
            lemma_u64_pow2_no_overflow(s as nat);
        }
        let p: u64 = 1u64 << s;
        proof {
            lemma_u64_shl_is_mul(1, s);
        }
        match self.0.checked_mul(p) {
            Some(v) => Some(ByteSize(v)),
            None => None,
        }
    }

    /// The size divided by `2^shift`, rounded down; zero for a shift of 64
    /// bits or more.
    pub fn shr(self, shift: u32) -> (r: ByteSize)
        ensures
            shift < 64 ==> r.0 == (self.0 as nat) / pow2(shift as nat),
            shift >= 64 ==> r.0 == 0,
    {
        if shift >= 64 {
            return ByteSize(0);
        }
        let s = shift as u64;
        proof {
            lemma_u64_shr_is_div(self.0, s);
        }
        ByteSize(self.0 >> s)
    }

    /// The difference of two sizes, or `None` where it would be negative.
    pub fn checked_sub(self, other: ByteSize) -> (r: Option<ByteSize>)
        ensures
            self.0 >= other.0 ==> r == Some(ByteSize((self.0 - other.0) as u64)),
            self.0 < other.0 ==> r.is_none(),
    {
        if self.0 >= other.0 {
            Some(ByteSize(self.0 - other.0))
        } else {
            None
        }
    }
}

impl From<u64> for ByteSize {
    fn from(value: u64) -> ByteSize {
        ByteSize(value)
    }
}

impl vstd::std_specs::convert::FromSpecImpl<u64> for ByteSize {
    open spec fn obeys_from_spec() -> bool {
        true
    }

    open spec fn from_spec(v: u64) -> ByteSize {
        ByteSize(v)
    }
}

impl From<ByteSize> for u64 {
    fn from(size: ByteSize) -> u64 {
        size.0
    }
}

impl vstd::std_specs::convert::FromSpecImpl<ByteSize> for u64 {
    open spec fn obeys_from_spec() -> bool {
        true
    }

    open spec fn from_spec(v: ByteSize) -> u64 {
        v.0
    }
}

/// Converting a byte count to bits and back gives the byte count again; a bit
/// count converted to bytes and back is never smaller, and is equal exactly
/// when it is a whole number of bytes.
pub proof fn lemma_bit_conversion_round_trip(b: ByteSize, n: nat)
    ensures
        bytes_for_bits(b.spec_bits()) == b.spec_value(),
        8 * bytes_for_bits(n) >= n,
        (8 * bytes_for_bits(n) == n) <==> (n % 8 == 0),
{
}

/// Properties of C/C++ data types such as size.
#[derive(Debug, Clone, PartialEq, Eq, Structural, Hash)]
pub struct DatatypeProperties {
    /// Holds the size of the char type
    pub char_size: ByteSize,
    /// Holds the size of the double type
    pub double_size: ByteSize,
    /// Holds the size of the float type
    pub float_size: ByteSize,
    /// Holds the size of the integer type
    pub integer_size: ByteSize,
    /// Holds the size of the long double type
    pub long_double_size: ByteSize,
    /// Holds the size of the long long type
    pub long_long_size: ByteSize,
    /// Holds the size of the long type
    pub long_size: ByteSize,
    /// Holds the size of the pointer type
    pub pointer_size: ByteSize,
    /// Holds the size of the short type
    pub short_size: ByteSize,
}

} // verus!
