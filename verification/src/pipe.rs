//! A single broadcast pipe with explicit shared state.
//!
//! A pipe is an append-only queue of elements plus a count of outstanding
//! producer handles.  Handles do not own the queue; every operation takes
//! the `PipeBuf` explicitly, so the whole state stays in one owned value
//! and all effects are visible in the contracts.  Producer handles are
//! duplicated and released through explicit calls, which move the liveness
//! count in step with the handle's lifetime.

use vstd::prelude::*;
use core::marker::PhantomData;

verus! {

/// The shared state of one pipe: the log of everything ever sent, and the
/// number of `PipeSender` handles still outstanding.
pub struct PipeBuf<T> {
    /// Append-only element log.
    pub queue: Vec<T>,
    /// Number of live producer handles.
    pub entries: usize,
}

impl<T> PipeBuf<T> {
    /// Append one element to the log.
    pub fn push(&mut self, e: T)
        ensures
            final(self).queue@ == old(self).queue@.push(e),
            final(self).entries == old(self).entries,
    {
        self.queue.push(e);
    }

    /// Read the element at position `i`, if one has been sent already.
    pub fn get(&self, i: usize) -> (r: Option<&T>)
        ensures
            match r {
                Some(e) => i < self.queue@.len() && *e == self.queue@[i as int],
                None => i >= self.queue@.len(),
            },
    {
        if i < self.queue.len() {
            Some(&self.queue[i])
        } else {
            None
        }
    }

    /// Whether an element exists at position `i`.
    pub fn is_gettable(&self, i: usize) -> (r: bool)
        ensures
            r == (i < self.queue@.len()),
    {
        i < self.queue.len()
    }

    /// Whether a producer handle is still outstanding, so that further
    /// elements may yet arrive.
    pub fn is_active(&self) -> (r: bool)
        ensures
            r == (self.entries > 0),
    {
        self.entries > 0
    }
}

/// A producer handle.  Duplicating and releasing it moves the pipe's
/// producer count; sending appends to the pipe's log.
pub struct PipeSender<T> {
    pub ph: PhantomData<T>,
}

/// A consumer handle: a private read cursor into the pipe's log.
pub struct PipeReceiver<T> {
    /// Position of the next unread element.
    pub loc: usize,
    pub ph: PhantomData<T>,
}

impl<T> PipeSender<T> {
    /// Append one element; it becomes visible to every current and future
    /// receiver whose cursor has not passed it.
    pub fn send(&self, buf: &mut PipeBuf<T>, e: T)
        ensures
            final(buf).queue@ == old(buf).queue@.push(e),
            final(buf).entries == old(buf).entries,
    {
        buf.push(e);
    }

    /// Duplicate this handle, raising the pipe's producer count.
    pub fn duplicate(&self, buf: &mut PipeBuf<T>) -> (r: PipeSender<T>)
        requires
            old(buf).entries < usize::MAX,
        ensures
            final(buf).entries == old(buf).entries + 1,
            final(buf).queue == old(buf).queue,
    {
        buf.entries = buf.entries + 1;
        PipeSender { ph: PhantomData }
    }

    /// Give this handle up, lowering the pipe's producer count.  Once the
    /// count reaches zero the pipe can never grow again.
    pub fn release(self, buf: &mut PipeBuf<T>)
        requires
            old(buf).entries > 0,
        ensures
            final(buf).entries == old(buf).entries - 1,
            final(buf).queue == old(buf).queue,
    {
        buf.entries = buf.entries - 1;
    }
}

impl<T> PipeReceiver<T> {
    /// Take the next unread element, advancing this receiver's cursor, or
    /// report that nothing unread exists right now.  A `None` does not by
    /// itself mean the stream ended; `is_alive` tells the two apart.
    pub fn recv<'a>(&mut self, buf: &'a PipeBuf<T>) -> (r: Option<&'a T>)
        ensures
            match r {
                Some(e) => old(self).loc < buf.queue@.len()
                    && *e == buf.queue@[old(self).loc as int]
                    && final(self).loc == old(self).loc + 1,
                None => old(self).loc >= buf.queue@.len() && *final(self) == *old(self),
            },
    {
        if self.loc < buf.queue.len() {
            let r = &buf.queue[self.loc];
            self.loc = self.loc + 1;
            Some(r)
        } else {
            None
        }
    }

    /// Whether an unread element exists right now.
    pub fn is_recvable(&self, buf: &PipeBuf<T>) -> (r: bool)
        ensures
            r == (self.loc < buf.queue@.len()),
    {
        buf.is_gettable(self.loc)
    }

    /// Whether this receiver can ever see another element: a producer is
    /// still outstanding, or an unread element is buffered.  `false` is the
    /// permanent termination signal for this receiver.
    pub fn is_alive(&self, buf: &PipeBuf<T>) -> (r: bool)
        ensures
            r == alive_spec(buf.queue@, buf.entries as nat, self.loc as nat),
    {
        buf.is_active() || buf.is_gettable(self.loc)
    }

    /// A second, independent cursor at the same position.
    pub fn duplicate(&self) -> (r: PipeReceiver<T>)
        ensures
            r.loc == self.loc,
    {
        PipeReceiver { loc: self.loc, ph: PhantomData }
    }
}

/// What one receive returns and where it leaves the cursor, on a pipe
/// whose log is `q`: the element under the cursor, if any.
pub open spec fn recv_spec<T>(q: Seq<T>, loc: nat) -> (Option<T>, nat) {
    if loc < q.len() {
        (Some(q[loc as int]), (loc + 1) as nat)
    } else {
        (None, loc)
    }
}

/// Whether a receiver at cursor `loc` can ever see another element of a
/// pipe with `entries` producers and log `q`.
pub open spec fn alive_spec<T>(q: Seq<T>, entries: nat, loc: nat) -> bool {
    entries > 0 || loc < q.len()
}

/// Broadcast correctness.  After `a`, `b`, `c` go into an empty pipe and
/// its only producer handle is released, any receiver — each owns its
/// private cursor, so receivers never disturb one another — reads `a`,
/// then `b`, then `c` from cursor zero, and reports itself alive up to
/// exactly the third read: with no producer left, exhaustion coincides
/// with having read the whole log.
pub proof fn lemma_broadcast<T>(a: T, b: T, c: T)
    ensures
        ({
            let q = Seq::<T>::empty().push(a).push(b).push(c);
            let (x1, l1) = recv_spec(q, 0);
            let (x2, l2) = recv_spec(q, l1);
            let (x3, l3) = recv_spec(q, l2);
            &&& x1 == Some(a) && x2 == Some(b) && x3 == Some(c)
            &&& alive_spec(q, 0, 0) && alive_spec(q, 0, l1) && alive_spec(q, 0, l2)
            &&& !alive_spec(q, 0, l3)
        }),
{
}

/// A fresh, empty pipe with one producer handle and one consumer handle.
pub fn new<T>() -> (r: (PipeBuf<T>, PipeSender<T>, PipeReceiver<T>))
    ensures
        r.0.queue@ == Seq::<T>::empty(),
        r.0.entries == 1,
        r.2.loc == 0,
{
    let buf = PipeBuf { queue: Vec::new(), entries: 1 };
    let s = PipeSender { ph: PhantomData };
    let r = PipeReceiver { loc: 0, ph: PhantomData };
    (buf, s, r)
}

} // verus!
