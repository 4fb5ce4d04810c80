use vstd::prelude::*;
use crate::bytesize::{bytes_for_bits, ByteSize};
use crate::error::IrError;

verus! {

/// apint's bit width of an arbitrary-precision integer, carried as a value.
#[verifier::external_type_specification]
#[verifier::external_body]
pub struct ExBitWidth(apint::BitWidth);

/// apint's error type, returned by its fallible constructors.
#[verifier::external_type_specification]
#[verifier::external_body]
pub struct ExApintError(apint::Error);

/// The number of bits that an apint `BitWidth` stands for.
pub uninterp spec fn width_bits(w: apint::BitWidth) -> usize;

/// Relies on apint's `BitWidth::new`: it fails exactly on a zero width, and
/// otherwise holds the width it was given.
pub assume_specification[ apint::BitWidth::new ](width: usize) -> (r: Result<apint::BitWidth, apint::Error>)
    ensures
        r is Ok <==> width != 0,
        r is Ok ==> width_bits(r->Ok_0) == width,
;

/// Relies on apint's `BitWidth::to_usize`: a `BitWidth` is never zero, which
/// apint documents as the type's invariant.
pub assume_specification[ apint::BitWidth::to_usize ](w: apint::BitWidth) -> (r: usize)
    ensures
        r == width_bits(w),
        r >= 1,
;

impl ByteSize {
    /// The apint bit width of this size, eight bits per byte; a zero size
    /// has none and is a `ConstructionError`.
    pub fn to_bit_width(self) -> (r: Result<apint::BitWidth, IrError>)
        requires
            self.spec_bits() <= usize::MAX,
        ensures
            r is Ok <==> self.0 != 0,
            r is Ok ==> width_bits(r->Ok_0) == self.spec_bits(),
            r is Err ==> r == Err::<apint::BitWidth, IrError>(IrError::ConstructionError),
    {
        match apint::BitWidth::new((self.0 * 8) as usize) {
            Ok(w) => Ok(w),
            Err(_) => Err(IrError::ConstructionError),
        }
    }

    /// The size of a value of the apint bit width `w`, rounded up to the
    /// nearest full byte; never zero.
    pub fn from_bit_width(w: apint::BitWidth) -> (r: ByteSize)
        ensures
            r.0 == bytes_for_bits(width_bits(w) as nat),
            r.0 >= 1,
    {
        let bits = w.to_usize();
        ByteSize::from_bit_length(bits)
    }
}

/// A size converted to an apint bit width and back is the same size: the
/// width holds eight bits per byte, and whole bytes need no rounding.
pub proof fn lemma_bit_width_round_trip(b: ByteSize, w: apint::BitWidth)
    requires
        width_bits(w) == b.spec_bits(),
    ensures
        width_bits(w) == 8 * b.0,
        bytes_for_bits(width_bits(w) as nat) == b.0,
{
}

impl From<apint::BitWidth> for ByteSize {
    /// Convert to `ByteSize`, while always rounding up to the nearest full byte.
    fn from(bitwidth: apint::BitWidth) -> ByteSize {
        ByteSize::from_bit_width(bitwidth)
    }
}

impl vstd::std_specs::convert::FromSpecImpl<apint::BitWidth> for ByteSize {
    open spec fn obeys_from_spec() -> bool {
        true
    }

    open spec fn from_spec(w: apint::BitWidth) -> ByteSize {
        ByteSize(bytes_for_bits(width_bits(w) as nat) as u64)
    }
}

} // verus!
