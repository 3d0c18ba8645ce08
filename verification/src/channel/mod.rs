//! The type-erasure-capable channel factory.
//!
//! A `PipeBuilder` wraps one pipe whose element type may be known at
//! construction time ("concrete" storage for the hot types, `String` and
//! `()`) or only by a runtime tag ("opaque" storage of tagged elements).
//! Either way it hands out statically typed `PipeSender` / `PipeReceiver`
//! handles; a request at a type other than the pipe's bound type fails
//! with a type conflict.

use vstd::prelude::*;
use core::marker::PhantomData;
use crate::elem::{Elem, ElemValue, ElemView, TypeTag, tag_of, tag_of_view};
use crate::BuildError;

pub mod pipe;

use pipe::{PipeInlet, PipeOutlet, PipeStem};

verus! {

/// The single stored representation of a pipe: concretely typed for the
/// well-known element types, tagged-opaque for the rest.
pub enum PipeHolder {
    Str(PipeStem<String>),
    Unit(PipeStem<()>),
    Opaque(PipeStem<Elem>),
}

/// A pipe bound to one element type, stored concretely or opaquely.
pub struct PipeBuilder {
    /// The element type every element of this pipe has.
    pub ty: TypeTag,
    /// The stored pipe state.
    pub holder: PipeHolder,
}

impl PipeBuilder {
    /// The log of this pipe, as element values, whatever the storage.
    pub open spec fn queue_model(self) -> Seq<ElemView> {
        match self.holder {
            PipeHolder::Str(st) => st.queue@.map_values(|s: String| ElemView::Str(s@)),
            PipeHolder::Unit(st) => st.queue@.map_values(|u: ()| ElemView::Unit),
            PipeHolder::Opaque(st) => st.queue@.map_values(|e: Elem| e@),
        }
    }

    /// The number of outstanding producer handles of this pipe.
    pub open spec fn senders(self) -> nat {
        match self.holder {
            PipeHolder::Str(st) => st.inlets as nat,
            PipeHolder::Unit(st) => st.inlets as nat,
            PipeHolder::Opaque(st) => st.inlets as nat,
        }
    }

    /// Well-formed: the storage variant agrees with the bound type, and
    /// every stored element carries the bound type's tag.
    pub open spec fn wf(self) -> bool {
        &&& match self.holder {
            PipeHolder::Str(_) => self.ty == TypeTag::Str,
            PipeHolder::Unit(_) => self.ty == TypeTag::Unit,
            PipeHolder::Opaque(_) => true,
        }
        &&& forall|i: int|
            0 <= i < self.queue_model().len() ==> tag_of_view(#[trigger] self.queue_model()[i])
                == self.ty
    }

    /// An empty pipe bound to the element type `T`.
    pub fn new<T: ElemValue>() -> (r: Self)
        ensures
            r.wf(),
            r.ty == T::tag(),
            r.queue_model() == Seq::<ElemView>::empty(),
            r.senders() == 0,
    {
        Self::new_by_type_id(T::type_tag())
    }

    /// An empty pipe bound to the element type named by a runtime tag.
    /// The hot types get concrete storage, everything else opaque storage.
    pub fn new_by_type_id(ty: TypeTag) -> (r: Self)
        ensures
            r.wf(),
            r.ty == ty,
            r.queue_model() == Seq::<ElemView>::empty(),
            r.senders() == 0,
    {
        let r = match ty {
            TypeTag::Str => PipeBuilder { ty, holder: PipeHolder::Str(PipeStem::new()) },
            TypeTag::Unit => PipeBuilder { ty, holder: PipeHolder::Unit(PipeStem::new()) },
            _ => PipeBuilder { ty, holder: PipeHolder::Opaque(PipeStem::new()) },
        };
        proof {
            assert(r.queue_model() =~= Seq::<ElemView>::empty());
        }
        r
    }

    /// The type this pipe is bound to.
    pub fn ask_type_id(&self) -> (r: TypeTag)
        ensures
            r == self.ty,
    {
        self.ty
    }

    /// Append one element of the bound type, whatever the storage.
    pub fn push_elem(&mut self, e: Elem)
        requires
            old(self).wf(),
            tag_of(e) == old(self).ty,
        ensures
            final(self).wf(),
            final(self).ty == old(self).ty,
            final(self).senders() == old(self).senders(),
            final(self).queue_model() == old(self).queue_model().push(e@),
    {
        match &mut self.holder {
            PipeHolder::Str(st) => {
                match e {
                    Elem::Str(s) => {
                        st.queue.push(s);
                    },
                    _ => {
                        proof {
                            assert(false);
                        }
                    },
                }
            },
            PipeHolder::Unit(st) => {
                match e {
                    Elem::Unit => {
                        st.queue.push(());
                    },
                    _ => {
                        proof {
                            assert(false);
                        }
                    },
                }
            },
            PipeHolder::Opaque(st) => {
                st.queue.push(e);
            },
        }
        proof {
            assert(self.queue_model() =~= old(self).queue_model().push(e@));
        }
    }

    /// Read out the element at position `i`, if one exists.
    pub fn elem_at(&self, i: usize) -> (r: Option<Elem>)
        requires
            self.wf(),
        ensures
            match r {
                Some(e) => i < self.queue_model().len() && e@ == self.queue_model()[i as int],
                None => i >= self.queue_model().len(),
            },
    {
        match &self.holder {
            PipeHolder::Str(st) => {
                if i < st.queue.len() {
                    Some(Elem::Str(st.queue[i].clone()))
                } else {
                    None
                }
            },
            PipeHolder::Unit(st) => {
                if i < st.queue.len() {
                    Some(Elem::Unit)
                } else {
                    None
                }
            },
            PipeHolder::Opaque(st) => {
                if i < st.queue.len() {
                    Some(st.queue[i].clone())
                } else {
                    None
                }
            },
        }
    }

    /// The length of this pipe's log.
    pub fn queue_len(&self) -> (r: usize)
        ensures
            r == self.queue_model().len(),
    {
        match &self.holder {
            PipeHolder::Str(st) => st.queue.len(),
            PipeHolder::Unit(st) => st.queue.len(),
            PipeHolder::Opaque(st) => st.queue.len(),
        }
    }

    /// The number of outstanding producer handles.
    pub fn sender_count(&self) -> (r: usize)
        ensures
            r == self.senders(),
    {
        match &self.holder {
            PipeHolder::Str(st) => st.inlets,
            PipeHolder::Unit(st) => st.inlets,
            PipeHolder::Opaque(st) => st.inlets,
        }
    }

    /// Raise the producer count by one (a new producer handle exists).
    pub fn add_sender(&mut self)
        requires
            old(self).senders() < usize::MAX,
        ensures
            final(self).senders() == old(self).senders() + 1,
            final(self).queue_model() == old(self).queue_model(),
            final(self).ty == old(self).ty,
            final(self).wf() == old(self).wf(),
    {
        match &mut self.holder {
            PipeHolder::Str(st) => {
                st.inlets = st.inlets + 1;
            },
            PipeHolder::Unit(st) => {
                st.inlets = st.inlets + 1;
            },
            PipeHolder::Opaque(st) => {
                st.inlets = st.inlets + 1;
            },
        }
    }

    /// Lower the producer count by one (a producer handle went away).
    pub fn drop_sender(&mut self)
        requires
            old(self).senders() > 0,
        ensures
            final(self).senders() == old(self).senders() - 1,
            final(self).queue_model() == old(self).queue_model(),
            final(self).ty == old(self).ty,
            final(self).wf() == old(self).wf(),
    {
        match &mut self.holder {
            PipeHolder::Str(st) => {
                st.inlets = st.inlets - 1;
            },
            PipeHolder::Unit(st) => {
                st.inlets = st.inlets - 1;
            },
            PipeHolder::Opaque(st) => {
                st.inlets = st.inlets - 1;
            },
        }
    }

    /// Issue a typed producer handle, or fail if `T` is not the bound type.
    pub fn require_sender<T: ElemValue>(&mut self) -> (r: Result<PipeSender<T>, BuildError>)
        requires
            old(self).wf(),
            old(self).senders() < usize::MAX,
        ensures
            final(self).wf(),
            final(self).ty == old(self).ty,
            final(self).queue_model() == old(self).queue_model(),
            r is Ok <==> T::tag() == old(self).ty,
            r is Ok ==> final(self).senders() == old(self).senders() + 1
                && r->Ok_0.pid() == 0,
            r is Err ==> *final(self) == *old(self) && r == Err::<PipeSender<T>, BuildError>(
                BuildError::TypeConflict,
            ),
    {
        let t = T::type_tag();
        if t == self.ty {
            self.add_sender();
            match &self.holder {
                PipeHolder::Opaque(_) => Ok(
                    PipeSender::Any(PipeInlet { pipe: 0, ph: PhantomData }),
                ),
                _ => Ok(PipeSender::Concrete(PipeInlet { pipe: 0, ph: PhantomData })),
            }
        } else {
            Err(BuildError::TypeConflict)
        }
    }

    /// Issue a typed consumer handle, or fail if `T` is not the bound type.
    /// Consumers do not affect liveness, so the pipe is unchanged.
    pub fn require_receiver<T: ElemValue>(&self) -> (r: Result<PipeReceiver<T>, BuildError>)
        requires
            self.wf(),
        ensures
            r is Ok <==> T::tag() == self.ty,
            r is Ok ==> r->Ok_0.pid() == 0 && r->Ok_0.loc() == 0,
            r is Err ==> r == Err::<PipeReceiver<T>, BuildError>(BuildError::TypeConflict),
    {
        let t = T::type_tag();
        if t == self.ty {
            match &self.holder {
                PipeHolder::Opaque(_) => Ok(
                    PipeReceiver::Any(PipeOutlet { pipe: 0, loc: 0, ph: PhantomData }),
                ),
                _ => Ok(PipeReceiver::Concrete(PipeOutlet { pipe: 0, loc: 0, ph: PhantomData })),
            }
        } else {
            Err(BuildError::TypeConflict)
        }
    }
}

/// A typed producer handle for a `PipeBuilder` pipe: concrete or opaque,
/// matching the pipe's storage.
pub enum PipeSender<T> {
    Concrete(PipeInlet<T>),
    Any(PipeInlet<Elem>),
}

impl<T: ElemValue> PipeSender<T> {
    /// The position of this handle's pipe in a surrounding pool.
    pub open spec fn pid(self) -> usize {
        match self {
            PipeSender::Concrete(inl) => inl.pipe,
            PipeSender::Any(inl) => inl.pipe,
        }
    }

    /// Exec view of `pid`.
    pub fn pipe_id(&self) -> (r: usize)
        ensures
            r == self.pid(),
    {
        match self {
            PipeSender::Concrete(inl) => inl.pipe,
            PipeSender::Any(inl) => inl.pipe,
        }
    }

    /// Append one value of the handle's type to the pipe.
    pub fn send(&self, b: &mut PipeBuilder, t: T)
        requires
            old(b).wf(),
            T::tag() == old(b).ty,
        ensures
            final(b).wf(),
            final(b).ty == old(b).ty,
            final(b).senders() == old(b).senders(),
            final(b).queue_model() == old(b).queue_model().push(T::vw(t)),
    {
        proof {
            T::vw_tagged(t);
        }
        let e = t.to_elem();
        b.push_elem(e);
    }

    /// Give this handle up, lowering the pipe's producer count.
    pub fn release(self, b: &mut PipeBuilder)
        requires
            old(b).senders() > 0,
        ensures
            final(b).senders() == old(b).senders() - 1,
            final(b).queue_model() == old(b).queue_model(),
            final(b).ty == old(b).ty,
            final(b).wf() == old(b).wf(),
    {
        b.drop_sender();
    }
}

/// A typed consumer handle for a `PipeBuilder` pipe: a private cursor,
/// concrete or opaque, matching the pipe's storage.
pub enum PipeReceiver<T> {
    Concrete(PipeOutlet<T>),
    Any(PipeOutlet<Elem>),
}

impl<T: ElemValue> PipeReceiver<T> {
    /// The position of this handle's pipe in a surrounding pool.
    pub open spec fn pid(self) -> usize {
        match self {
            PipeReceiver::Concrete(o) => o.pipe,
            PipeReceiver::Any(o) => o.pipe,
        }
    }

    /// This receiver's cursor: the position of its next unread element.
    pub open spec fn loc(self) -> usize {
        match self {
            PipeReceiver::Concrete(o) => o.loc,
            PipeReceiver::Any(o) => o.loc,
        }
    }

    /// Exec view of `pid`.
    pub fn pipe_id(&self) -> (r: usize)
        ensures
            r == self.pid(),
    {
        match self {
            PipeReceiver::Concrete(o) => o.pipe,
            PipeReceiver::Any(o) => o.pipe,
        }
    }

    /// Take the next unread element, advancing this receiver's cursor, or
    /// report that nothing unread exists right now.  `None` does not mean
    /// the stream ended; `is_alive` tells the two apart.
    pub fn recv(&mut self, b: &PipeBuilder) -> (r: Option<T>)
        requires
            b.wf(),
            T::tag() == b.ty,
        ensures
            final(self).pid() == old(self).pid(),
            match r {
                Some(v) => old(self).loc() < b.queue_model().len()
                    && T::vw(v) == b.queue_model()[old(self).loc() as int]
                    && final(self).loc() == old(self).loc() + 1,
                None => old(self).loc() >= b.queue_model().len() && *final(self) == *old(self),
            },
    {
        let loc = match self {
            PipeReceiver::Concrete(o) => o.loc,
            PipeReceiver::Any(o) => o.loc,
        };
        let n = b.queue_len();
        match b.elem_at(loc) {
            Some(e) => {
                proof {
                    assert(loc < n);
                }
                match T::of_elem(&e) {
                    Some(v) => {
                        match self {
                            PipeReceiver::Concrete(o) => {
                                o.loc = o.loc + 1;
                            },
                            PipeReceiver::Any(o) => {
                                o.loc = o.loc + 1;
                            },
                        }
                        Some(v)
                    },
                    None => {
                        proof {
                            assert(false);
                        }
                        None
                    },
                }
            },
            None => None,
        }
    }

    /// Whether an unread element exists right now.
    pub fn is_recvable(&self, b: &PipeBuilder) -> (r: bool)
        requires
            b.wf(),
        ensures
            r == (self.loc() < b.queue_model().len()),
    {
        let loc = match self {
            PipeReceiver::Concrete(o) => o.loc,
            PipeReceiver::Any(o) => o.loc,
        };
        loc < b.queue_len()
    }

    /// Whether this receiver can ever see another element: a producer is
    /// still outstanding, or an unread element is buffered.  `false` is
    /// the permanent termination signal for this receiver.
    pub fn is_alive(&self, b: &PipeBuilder) -> (r: bool)
        requires
            b.wf(),
        ensures
            r == (b.senders() > 0 || self.loc() < b.queue_model().len()),
    {
        b.sender_count() > 0 || self.is_recvable(b)
    }
}

} // verus!
