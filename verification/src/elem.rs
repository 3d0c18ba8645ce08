//! Runtime type tags and the dynamically typed element that flows through
//! opaque pipes.
//!
//! The engine must handle pipes whose element type is only known after the
//! deduction fixpoint has run.  Instead of an `Any`-style downcast, the
//! element is a tagged union: every value carries its own `TypeTag`, and a
//! pipe bound to a tag only ever stores elements of that tag.

use vstd::prelude::*;

verus! {

/// Runtime tag naming one of the element types a pipe can be bound to.
#[derive(Clone, Copy, Debug, PartialEq, Eq, Structural)]
pub enum TypeTag {
    Unit,
    USize,
    U64,
    I64,
    Str,
}

/// One dynamically typed element: a value together with its type.
#[derive(Debug)]
pub enum Elem {
    Unit,
    USize(usize),
    U64(u64),
    I64(i64),
    Str(String),
}

/// The mathematical value of one element: machine integers stand for
/// themselves, a character string stands for its character sequence.
#[verifier::ext_equal]
pub enum ElemView {
    Unit,
    USize(usize),
    U64(u64),
    I64(i64),
    Str(Seq<char>),
}

/// The tag an element value carries.
pub open spec fn tag_of_view(v: ElemView) -> TypeTag {
    match v {
        ElemView::Unit => TypeTag::Unit,
        ElemView::USize(_) => TypeTag::USize,
        ElemView::U64(_) => TypeTag::U64,
        ElemView::I64(_) => TypeTag::I64,
        ElemView::Str(_) => TypeTag::Str,
    }
}

impl View for Elem {
    type V = ElemView;

    open spec fn view(&self) -> ElemView {
        match self {
            Elem::Unit => ElemView::Unit,
            Elem::USize(u) => ElemView::USize(*u),
            Elem::U64(u) => ElemView::U64(*u),
            Elem::I64(i) => ElemView::I64(*i),
            Elem::Str(s) => ElemView::Str(s@),
        }
    }
}

/// The tag an element carries.
pub open spec fn tag_of(e: Elem) -> TypeTag {
    tag_of_view(e@)
}

impl Elem {
    /// Exec view of `tag_of`.
    pub fn tag(&self) -> (t: TypeTag)
        ensures
            t == tag_of(*self),
    {
        match self {
            Elem::Unit => TypeTag::Unit,
            Elem::USize(_) => TypeTag::USize,
            Elem::U64(_) => TypeTag::U64,
            Elem::I64(_) => TypeTag::I64,
            Elem::Str(_) => TypeTag::Str,
        }
    }
}

impl Clone for Elem {
    fn clone(&self) -> (r: Self)
        ensures
            r == *self,
    {
        match self {
            Elem::Unit => Elem::Unit,
            Elem::USize(u) => Elem::USize(*u),
            Elem::U64(u) => Elem::U64(*u),
            Elem::I64(i) => Elem::I64(*i),
            Elem::Str(s) => Elem::Str(s.clone()),
        }
    }
}

/// A statically known element type: the types that can stand behind a pipe.
///
/// `vw` maps a value to the mathematical element value it stands for;
/// `to_elem` and `of_elem` move values in and out of the dynamic element.
pub trait ElemValue: Sized {
    /// The tag all values of this type carry.
    spec fn tag() -> TypeTag;

    /// The mathematical value a value of this type stands for.
    spec fn vw(v: Self) -> ElemView;

    /// Every value of this type carries this type's tag.
    proof fn vw_tagged(v: Self)
        ensures
            tag_of_view(Self::vw(v)) == Self::tag(),
    ;

    /// Exec view of `tag`.
    fn type_tag() -> (t: TypeTag)
        ensures
            t == Self::tag(),
    ;

    /// Wrap a value into a dynamic element.
    fn to_elem(self) -> (e: Elem)
        ensures
            e@ == Self::vw(self),
    ;

    /// Read a value back out of a dynamic element, if the type matches.
    fn of_elem(e: &Elem) -> (r: Option<Self>)
        ensures
            match r {
                Some(v) => Self::vw(v) == e@,
                None => tag_of(*e) != Self::tag(),
            },
    ;
}

impl ElemValue for () {
    open spec fn tag() -> TypeTag {
        TypeTag::Unit
    }

    open spec fn vw(v: Self) -> ElemView {
        ElemView::Unit
    }

    proof fn vw_tagged(v: Self) {
    }

    fn type_tag() -> TypeTag {
        TypeTag::Unit
    }

    fn to_elem(self) -> Elem {
        Elem::Unit
    }

    fn of_elem(e: &Elem) -> Option<Self> {
        match e {
            Elem::Unit => Some(()),
            _ => None,
        }
    }
}

impl ElemValue for usize {
    open spec fn tag() -> TypeTag {
        TypeTag::USize
    }

    open spec fn vw(v: Self) -> ElemView {
        ElemView::USize(v)
    }

    proof fn vw_tagged(v: Self) {
    }

    fn type_tag() -> TypeTag {
        TypeTag::USize
    }

    fn to_elem(self) -> Elem {
        Elem::USize(self)
    }

    fn of_elem(e: &Elem) -> Option<Self> {
        match e {
            Elem::USize(u) => Some(*u),
            _ => None,
        }
    }
}

impl ElemValue for u64 {
    open spec fn tag() -> TypeTag {
        TypeTag::U64
    }

    open spec fn vw(v: Self) -> ElemView {
        ElemView::U64(v)
    }

    proof fn vw_tagged(v: Self) {
    }

    fn type_tag() -> TypeTag {
        TypeTag::U64
    }

    fn to_elem(self) -> Elem {
        Elem::U64(self)
    }

    fn of_elem(e: &Elem) -> Option<Self> {
        match e {
            Elem::U64(u) => Some(*u),
            _ => None,
        }
    }
}

impl ElemValue for i64 {
    open spec fn tag() -> TypeTag {
        TypeTag::I64
    }

    open spec fn vw(v: Self) -> ElemView {
        ElemView::I64(v)
    }

    proof fn vw_tagged(v: Self) {
    }

    fn type_tag() -> TypeTag {
        TypeTag::I64
    }

    fn to_elem(self) -> Elem {
        Elem::I64(self)
    }

    fn of_elem(e: &Elem) -> Option<Self> {
        match e {
            Elem::I64(i) => Some(*i),
            _ => None,
        }
    }
}

impl ElemValue for String {
    open spec fn tag() -> TypeTag {
        TypeTag::Str
    }

    open spec fn vw(v: Self) -> ElemView {
        ElemView::Str(v@)
    }

    proof fn vw_tagged(v: Self) {
    }

    fn type_tag() -> TypeTag {
        TypeTag::Str
    }

    fn to_elem(self) -> Elem {
        Elem::Str(self)
    }

    fn of_elem(e: &Elem) -> Option<Self> {
        match e {
            Elem::Str(s) => Some(s.clone()),
            _ => None,
        }
    }
}

} // verus!
