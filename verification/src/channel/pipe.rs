//! The pipe state used by the channel factory: one owner, many handles.
//!
//! A `PipeStem` owns the element log and the producer count; `PipeInlet`
//! and `PipeOutlet` are the handles it issues.  Handles carry no data
//! beyond their cursor and the index of their pipe in a surrounding pool,
//! so every effect goes through the stem passed in explicitly.

use vstd::prelude::*;
use core::marker::PhantomData;

verus! {

/// The owned state of one pipe: the append-only log and the number of
/// outstanding producer handles.
pub struct PipeStem<T> {
    /// Append-only element log.
    pub queue: Vec<T>,
    /// Number of live `PipeInlet` handles.
    pub inlets: usize,
}

/// A producer handle issued by a `PipeStem`.  `pipe` is the handle's pipe
/// position when the stem lives in a pool; a lone stem ignores it.
pub struct PipeInlet<T> {
    pub pipe: usize,
    pub ph: PhantomData<T>,
}

/// A consumer handle: a private read cursor into one stem's log.
pub struct PipeOutlet<T> {
    pub pipe: usize,
    /// Position of the next unread element.
    pub loc: usize,
    pub ph: PhantomData<T>,
}

impl<T> PipeStem<T> {
    /// An empty pipe with no handles outstanding.
    pub fn new() -> (r: Self)
        ensures
            r.queue@ == Seq::<T>::empty(),
            r.inlets == 0,
    {
        PipeStem { queue: Vec::new(), inlets: 0 }
    }

    /// Issue a new producer handle, raising the producer count.
    pub fn require_inlet(&mut self) -> (r: PipeInlet<T>)
        requires
            old(self).inlets < usize::MAX,
        ensures
            final(self).inlets == old(self).inlets + 1,
            final(self).queue == old(self).queue,
            r.pipe == 0,
    {
        self.inlets = self.inlets + 1;
        PipeInlet { pipe: 0, ph: PhantomData }
    }

    /// Issue a new consumer handle with its cursor at the start of the log.
    /// Consumers do not affect liveness, so the stem is unchanged.
    pub fn require_outlet(&self) -> (r: PipeOutlet<T>)
        ensures
            r.loc == 0,
            r.pipe == 0,
    {
        PipeOutlet { pipe: 0, loc: 0, ph: PhantomData }
    }
}

impl<T> PipeInlet<T> {
    /// Append one element to the stem's log.
    pub fn send(&self, stem: &mut PipeStem<T>, t: T)
        ensures
            final(stem).queue@ == old(stem).queue@.push(t),
            final(stem).inlets == old(stem).inlets,
    {
        stem.queue.push(t);
    }

    /// Give this handle up, lowering the stem's producer count.
    pub fn release(self, stem: &mut PipeStem<T>)
        requires
            old(stem).inlets > 0,
        ensures
            final(stem).inlets == old(stem).inlets - 1,
            final(stem).queue == old(stem).queue,
    {
        stem.inlets = stem.inlets - 1;
    }
}

impl<T> PipeOutlet<T> {
    /// Take the next unread element, advancing this outlet's cursor, or
    /// report that nothing unread exists right now.
    pub fn recv<'a>(&mut self, stem: &'a PipeStem<T>) -> (r: Option<&'a T>)
        ensures
            match r {
                Some(e) => old(self).loc < stem.queue@.len()
                    && *e == stem.queue@[old(self).loc as int]
                    && final(self).loc == old(self).loc + 1,
                None => old(self).loc >= stem.queue@.len() && *final(self) == *old(self),
            },
            final(self).pipe == old(self).pipe,
    {
        if self.loc < stem.queue.len() {
            let r = &stem.queue[self.loc];
            self.loc = self.loc + 1;
            Some(r)
        } else {
            None
        }
    }

    /// Whether an unread element exists right now.
    pub fn is_recvable(&self, stem: &PipeStem<T>) -> (r: bool)
        ensures
            r == (self.loc < stem.queue@.len()),
    {
        self.loc < stem.queue.len()
    }

    /// Whether this outlet can ever see another element: a producer handle
    /// is still outstanding, or an unread element is buffered.
    pub fn is_alive(&self, stem: &PipeStem<T>) -> (r: bool)
        ensures
            r == (stem.inlets > 0 || self.loc < stem.queue@.len()),
    {
        stem.inlets > 0 || self.loc < stem.queue.len()
    }
}

} // verus!
