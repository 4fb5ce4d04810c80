use vstd::prelude::*;
use crate::bytesize::ByteSize;
use crate::error::IrError;

verus! {

/// The bits of a larger register that a sub-register occupies.
#[derive(Debug, Clone, Copy, PartialEq, Eq, Structural, Hash)]
pub struct SubRegister {
    /// The index of the lowest bit.
    pub offset: u64,
    /// The number of bits.
    pub width: u64,
}

/// A named storage location of a fixed size: a register or a temporary.
#[derive(Debug, Clone, Hash)]
pub struct Variable {
    /// The name, unique within the variable's storage class.
    pub name: String,
    /// The size of the value that the variable holds.
    pub size: ByteSize,
    /// Whether the variable is a temporary rather than a register.
    pub is_temp: bool,
    /// Where the variable sits inside a larger register, if it does.
    pub sub_register: Option<SubRegister>,
}

/// Structural equality of variables.
pub open spec fn same_variable(a: Variable, b: Variable) -> bool {
    &&& a.name@ == b.name@
    &&& a.size == b.size
    &&& a.is_temp == b.is_temp
    &&& a.sub_register == b.sub_register
}

impl Variable {
    /// A register or temporary without a sub-register descriptor.
    pub fn new(name: String, size: ByteSize, is_temp: bool) -> (r: Variable)
        ensures
            r.name@ == name@,
            r.size == size,
            r.is_temp == is_temp,
            r.sub_register.is_none(),
    {
        Variable { name, size, is_temp, sub_register: None }
    }

    /// A register that occupies `width` bits from bit `offset` up inside a
    /// parent register of `parent_bits` bits. Fails with `ConstructionError`
    /// unless `1 <= width` and `offset + width <= parent_bits`.
    pub fn new_sub_register(name: String, size: ByteSize, offset: u64, width: u64, parent_bits: u64) -> (r: Result<
        Variable,
        IrError,
    >)
        ensures
            (1 <= width && offset + width <= parent_bits) <==> r is Ok,
            r is Err ==> r == Err::<Variable, IrError>(IrError::ConstructionError),
            r is Ok ==> ({
                let v = r->Ok_0;
                &&& v.name@ == name@
                &&& v.size == size
                &&& !v.is_temp
                &&& v.sub_register == Some(SubRegister { offset, width })
            }),
    {
        if width < 1 || offset > parent_bits || width > parent_bits - offset {
            return Err(IrError::ConstructionError);
        }
        Ok(Variable { name, size, is_temp: false, sub_register: Some(SubRegister { offset, width }) })
    }

    /// Structural equality.
    pub fn same_as(&self, other: &Variable) -> (r: bool)
        ensures
            r == same_variable(*self, *other),
    {
        let sub_eq = match (&self.sub_register, &other.sub_register) {
            (Some(a), Some(b)) => a.offset == b.offset && a.width == b.width,
            (None, None) => true,
            _ => false,
        };
        self.name == other.name && self.size == other.size && self.is_temp == other.is_temp && sub_eq
    }
}

impl PartialEq for Variable {
    fn eq(&self, other: &Variable) -> (r: bool) {
        self.same_as(other)
    }
}

impl vstd::std_specs::cmp::PartialEqSpecImpl for Variable {
    open spec fn obeys_eq_spec() -> bool {
        true
    }

    open spec fn eq_spec(&self, other: &Variable) -> bool {
        same_variable(*self, *other)
    }
}

impl Eq for Variable {
}

} // verus!
