//! Specialization of runtime type tags to the handful of element types
//! the operator library knows how to treat specially.

use vstd::prelude::*;
use crate::elem::TypeTag;

verus! {

/// The element types with specialized handling, and a catch-all for the
/// rest.
#[derive(Clone, Copy, Debug, PartialEq, Eq, Structural)]
pub enum SpecializedTypeId {
    U8,
    Str,
    U64,
    I64,
    USize,
    ISize,
    Other,
}

impl From<TypeTag> for SpecializedTypeId {
    fn from(value: TypeTag) -> (r: Self) {
        match value {
            TypeTag::USize => SpecializedTypeId::USize,
            TypeTag::U64 => SpecializedTypeId::U64,
            TypeTag::I64 => SpecializedTypeId::I64,
            TypeTag::Str => SpecializedTypeId::Str,
            TypeTag::Unit => SpecializedTypeId::Other,
        }
    }
}

impl vstd::std_specs::convert::FromSpecImpl<TypeTag> for SpecializedTypeId {
    open spec fn obeys_from_spec() -> bool {
        true
    }

    open spec fn from_spec(t: TypeTag) -> Self {
        match t {
            TypeTag::USize => SpecializedTypeId::USize,
            TypeTag::U64 => SpecializedTypeId::U64,
            TypeTag::I64 => SpecializedTypeId::I64,
            TypeTag::Str => SpecializedTypeId::Str,
            TypeTag::Unit => SpecializedTypeId::Other,
        }
    }
}

} // verus!
