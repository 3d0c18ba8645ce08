//! A create-on-demand pipe pool keyed by name.
//!
//! Unlike the frozen `PipeIndex`, a `PipeBoard` materializes a pipe the
//! first time a handle is requested for its key, binding the key to the
//! requested element type on the spot; a later request at a different
//! type is a conflict.

use vstd::prelude::*;
use crate::channel::{PipeBuilder, PipeReceiver, PipeSender};
use crate::deduct::PipeIndex;
use crate::elem::{ElemValue, ElemView, TypeTag};
use crate::BuildError;

verus! {

/// A growable pool of named pipes, created as handles are first drawn.
#[verifier::ext_equal]
pub struct PipeBoard {
    /// The pool built so far.
    pub idx: PipeIndex,
}

impl PipeBoard {
    /// Well-formed: the pool is.
    pub open spec fn wf(self) -> bool {
        self.idx.wf()
    }

    /// An empty board with no pipes.
    pub fn new() -> (r: Self)
        ensures
            r.wf(),
            r.idx.n() == 0,
            r.idx.keys@ == Seq::<String>::empty(),
    {
        PipeBoard { idx: PipeIndex { keys: Vec::new(), pipes: Vec::new() } }
    }

    /// The element type the pipe for `key` was created with, if any.
    pub fn get_type(&self, key: &String) -> (r: Option<TypeTag>)
        requires
            self.wf(),
        ensures
            match r {
                Some(t) => self.idx.pid_of(key@) >= 0 && t == self.idx.tag_at(
                    self.idx.pid_of(key@),
                ),
                None => self.idx.pid_of(key@) == -1,
            },
    {
        match self.idx.find(key) {
            Some(i) => Some(self.idx.pipes[i].ask_type_id()),
            None => None,
        }
    }

    /// Draw a consumer handle for `key` at element type `T`, creating an
    /// empty pipe of that type if the key is new.  Fails only if the key
    /// already names a pipe of a different type.
    pub fn require_receiver<T: ElemValue>(&mut self, key: &String) -> (r: Result<
        PipeReceiver<T>,
        BuildError,
    >)
        requires
            old(self).wf(),
        ensures
            final(self).wf(),
            match r {
                Ok(rec) => {
                    &&& final(self).idx.pid_of(key@) >= 0
                    &&& final(self).idx.tag_at(final(self).idx.pid_of(key@)) == T::tag()
                    &&& rec.pid() == final(self).idx.pid_of(key@)
                    &&& rec.loc() == 0
                    &&& if old(self).idx.pid_of(key@) >= 0 {
                        *final(self) == *old(self)
                    } else {
                        final(self).idx.keys@ == old(self).idx.keys@.push(*key) && final(self).idx.queue_at(final(self).idx.pid_of(key@)) == Seq::<ElemView>::empty()
                            && final(self).idx.senders_at(final(self).idx.pid_of(key@)) == 0
                    }
                },
                Err(e) => {
                    &&& *final(self) == *old(self)
                    &&& e == BuildError::TypeConflict
                    &&& old(self).idx.pid_of(key@) >= 0
                    &&& old(self).idx.tag_at(old(self).idx.pid_of(key@)) != T::tag()
                },
            },
    {
        match self.idx.find(key) {
            Some(i) => {
                let r = self.idx.pipes[i].require_receiver::<T>();
                match r {
                    Ok(mut rec) => {
                        match &mut rec {
                            PipeReceiver::Concrete(o) => {
                                o.pipe = i;
                            },
                            PipeReceiver::Any(o) => {
                                o.pipe = i;
                            },
                        }
                        Ok(rec)
                    },
                    Err(e) => Err(e),
                }
            },
            None => {
                proof {
                    crate::deduct::lemma_find_key(self.idx.keys@, key@);
                }
                let b = PipeBuilder::new::<T>();
                let pid = self.idx.pipes.len();
                self.idx.keys.push(key.clone());
                self.idx.pipes.push(b);
                proof {
                    assert(forall|j: int|
                        0 <= j < pid ==> (#[trigger] self.idx.keys@[j])@ != key@);
                    crate::deduct::lemma_find_key_at(self.idx.keys@, key@, pid as int);
                }
                let r = self.idx.pipes[pid].require_receiver::<T>();
                proof {
                    assert(self.idx.pipes@ =~= old(self).idx.pipes@.push(b));
                }
                match r {
                    Ok(mut rec) => {
                        match &mut rec {
                            PipeReceiver::Concrete(o) => {
                                o.pipe = pid;
                            },
                            PipeReceiver::Any(o) => {
                                o.pipe = pid;
                            },
                        }
                        Ok(rec)
                    },
                    Err(e) => {
                        proof {
                            assert(false);
                        }
                        Err(e)
                    },
                }
            },
        }
    }

    /// Draw a producer handle for `key` at element type `T`, creating an
    /// empty pipe of that type if the key is new; the pipe's producer
    /// count rises by one.  Fails only if the key already names a pipe
    /// of a different type.
    pub fn require_sender<T: ElemValue>(&mut self, key: &String) -> (r: Result<
        PipeSender<T>,
        BuildError,
    >)
        requires
            old(self).wf(),
            forall|i: int| 0 <= i < old(self).idx.n() ==> old(self).idx.senders_at(i) < usize::MAX,
        ensures
            final(self).wf(),
            match r {
                Ok(s) => {
                    &&& final(self).idx.pid_of(key@) >= 0
                    &&& final(self).idx.tag_at(final(self).idx.pid_of(key@)) == T::tag()
                    &&& s.pid() == final(self).idx.pid_of(key@)
                    &&& final(self).idx.senders_at(s.pid() as int) == (
                    if old(self).idx.pid_of(key@) >= 0 {
                        old(self).idx.senders_at(s.pid() as int) + 1
                    } else {
                        1
                    })
                    &&& if old(self).idx.pid_of(key@) >= 0 {
                        final(self).idx.keys@ == old(self).idx.keys@
                    } else {
                        final(self).idx.keys@ == old(self).idx.keys@.push(*key) && final(self).idx.queue_at(final(self).idx.pid_of(key@)) == Seq::<ElemView>::empty()
                    }
                },
                Err(e) => {
                    &&& final(self).idx.keys@ == old(self).idx.keys@
                    &&& final(self).idx.n() == old(self).idx.n()
                    &&& forall|i: int|
                        0 <= i < final(self).idx.n() ==> #[trigger] final(self).idx.tag_at(i)
                            == old(self).idx.tag_at(i) && final(self).idx.queue_at(i) == old(
                            self,
                        ).idx.queue_at(i) && final(self).idx.senders_at(i) == old(
                            self,
                        ).idx.senders_at(i)
                    &&& e == BuildError::TypeConflict
                    &&& old(self).idx.pid_of(key@) >= 0
                    &&& old(self).idx.tag_at(old(self).idx.pid_of(key@)) != T::tag()
                },
            },
    {
        match self.idx.find(key) {
            Some(i) => {
                proof {
                    assert(old(self).idx.senders_at(i as int) < usize::MAX);
                }
                let r = self.idx.pipes[i].require_sender::<T>();
                proof {
                    assert(forall|j: int|
                        0 <= j < self.idx.pipes@.len() && j != i ==> self.idx.pipes@[j] == old(self).idx.pipes@[j]);
                }
                match r {
                    Ok(mut s) => {
                        match &mut s {
                            PipeSender::Concrete(o) => {
                                o.pipe = i;
                            },
                            PipeSender::Any(o) => {
                                o.pipe = i;
                            },
                        }
                        Ok(s)
                    },
                    Err(e) => Err(e),
                }
            },
            None => {
                proof {
                    crate::deduct::lemma_find_key(self.idx.keys@, key@);
                }
                let b = PipeBuilder::new::<T>();
                let pid = self.idx.pipes.len();
                self.idx.keys.push(key.clone());
                self.idx.pipes.push(b);
                proof {
                    assert(forall|j: int|
                        0 <= j < pid ==> (#[trigger] self.idx.keys@[j])@ != key@);
                    crate::deduct::lemma_find_key_at(self.idx.keys@, key@, pid as int);
                }
                let r = self.idx.pipes[pid].require_sender::<T>();
                proof {
                    assert(forall|j: int|
                        0 <= j < self.idx.pipes@.len() && j != pid ==> self.idx.pipes@[j] == old(self).idx.pipes@[j]);
                }
                match r {
                    Ok(mut s) => {
                        match &mut s {
                            PipeSender::Concrete(o) => {
                                o.pipe = pid;
                            },
                            PipeSender::Any(o) => {
                                o.pipe = pid;
                            },
                        }
                        Ok(s)
                    },
                    Err(e) => {
                        proof {
                            assert(false);
                        }
                        Err(e)
                    },
                }
            },
        }
    }
}

} // verus!
