//! The pluggable computation units and their runtime pairing with pipes.
//!
//! An `IOp` consumes one input element (configured by an immediate
//! literal), a `YOp` consumes one element from each of two inputs; both
//! produce zero or more output elements per firing.  An agent joins an
//! operator instance with concrete handles and exposes one scheduling
//! primitive, `step`: it dies permanently as soon as a required input can
//! never produce again, fires when every required input has an unread
//! element, and otherwise waits.  A binary agent never consumes one side
//! alone, preserving the pairwise correspondence of its inputs.

pub mod add;
pub mod delete;
pub mod load;
pub mod replace;
pub mod stdio;

use vstd::prelude::*;
use core::marker::PhantomData;
use crate::channel::{PipeReceiver, PipeSender};
use crate::deduct::{alive, require_map, PipeIndex, PipeModel, PipeTypeIndex};
use crate::elem::{ElemValue, ElemView, TypeTag};
use crate::BuildError;

verus! {

/// A unary operator: one input pipe, one immediate configuration literal,
/// one output pipe.
pub trait IOp: Sized {
    type Input: ElemValue;

    type Output: ElemValue;

    /// Whether an immediate literal is acceptable configuration.
    spec fn accepts(imm: Seq<char>) -> bool;

    /// Whether `op` is an instance this literal configures.
    spec fn made_by(imm: Seq<char>, op: Self) -> bool;

    /// The output values one input value produces.
    spec fn op_view(&self, e: ElemView) -> Seq<ElemView>;

    /// Construct the operator from its immediate literal.
    fn new(imm: String) -> (r: Result<Self, BuildError>)
        ensures
            r is Ok <==> Self::accepts(imm@),
            r is Ok ==> Self::made_by(imm@, r->Ok_0),
            r is Err ==> r == Err::<Self, BuildError>(BuildError::BadImmediate),
    ;

    /// Apply the operator to one input element.
    fn exec(&self, e: &Self::Input) -> (out: Vec<Self::Output>)
        ensures
            out@.map_values(|o: Self::Output| <Self::Output as ElemValue>::vw(o))
                == self.op_view(<Self::Input as ElemValue>::vw(*e)),
    ;
}

/// A binary operator: two input pipes, one output pipe, no configuration.
pub trait YOp: Sized {
    type Input1: ElemValue;

    type Input2: ElemValue;

    type Output: ElemValue;

    /// The operator instance `new` constructs.
    spec fn made() -> Self;

    /// The output values one pair of input values produces.
    spec fn op_view(&self, e1: ElemView, e2: ElemView) -> Seq<ElemView>;

    /// Construct the operator.
    fn new() -> (r: Result<Self, BuildError>)
        ensures
            r == Ok::<Self, BuildError>(Self::made()),
    ;

    /// Apply the operator to one pair of input elements.
    fn exec(&self, e1: &Self::Input1, e2: &Self::Input2) -> (out: Vec<Self::Output>)
        ensures
            out@.map_values(|o: Self::Output| <Self::Output as ElemValue>::vw(o))
                == self.op_view(
                <Self::Input1 as ElemValue>::vw(*e1),
                <Self::Input2 as ElemValue>::vw(*e2),
            ),
    ;
}

/// The runtime pairing of a unary operator with its resolved handles.
pub struct IAgent<I: IOp> {
    /// Consumer handle on the input pipe.
    pub pi: PipeReceiver<I::Input>,
    /// The operator instance.
    pub op: I,
    /// Producer handle on the output pipe.
    pub po: PipeSender<I::Output>,
}

impl<I: IOp> IAgent<I> {
    /// The handles point at pipes of the operator's types.
    pub open spec fn wf(self, m: Seq<PipeModel>) -> bool {
        &&& (self.pi.pid() as int) < m.len()
        &&& m[self.pi.pid() as int].tag == <I::Input as ElemValue>::tag()
        &&& (self.po.pid() as int) < m.len()
        &&& m[self.po.pid() as int].tag == <I::Output as ElemValue>::tag()
    }

    /// Whether the agent still progresses when stepped on pipes `m`.
    pub open spec fn step_alive(self, m: Seq<PipeModel>) -> bool {
        alive(m, self.pi.pid() as int, self.pi.loc() as nat)
    }

    /// Whether the agent consumes and produces when stepped on pipes `m`.
    pub open spec fn step_fires(self, m: Seq<PipeModel>) -> bool {
        self.step_alive(m) && (self.pi.loc() as int) < m[self.pi.pid() as int].queue.len()
    }

    /// The input cursor after one step.
    pub open spec fn step_loc(self, m: Seq<PipeModel>) -> nat {
        if self.step_fires(m) {
            (self.pi.loc() + 1) as nat
        } else {
            self.pi.loc() as nat
        }
    }

    /// What one step appends to the output pipe.
    pub open spec fn step_out(self, m: Seq<PipeModel>) -> Seq<ElemView> {
        if self.step_fires(m) {
            self.op.op_view(m[self.pi.pid() as int].queue[self.pi.loc() as int])
        } else {
            Seq::<ElemView>::empty()
        }
    }

    /// The pipes after one step.
    pub open spec fn step_pipes(self, m: Seq<PipeModel>) -> Seq<PipeModel> {
        if self.step_fires(m) {
            let po = self.po.pid() as int;
            m.update(
                po,
                PipeModel {
                    tag: m[po].tag,
                    queue: m[po].queue + self.step_out(m),
                    senders: m[po].senders,
                },
            )
        } else {
            m
        }
    }

    /// One scheduling step.  If the input can never produce again the
    /// agent reports that it no longer progresses; if an unread input
    /// element exists the agent consumes exactly one, applies its operator
    /// and forwards every produced element; otherwise it waits.
    pub fn step(&mut self, idx: &mut PipeIndex) -> (b: bool)
        requires
            old(idx).wf(),
            old(self).wf(old(idx).model()),
        ensures
            final(idx).wf(),
            final(idx).keys@ == old(idx).keys@,
            final(idx).model() == old(self).step_pipes(old(idx).model()),
            b == old(self).step_alive(old(idx).model()),
            final(self).pi.pid() == old(self).pi.pid(),
            final(self).pi.loc() == old(self).step_loc(old(idx).model()),
            final(self).po == old(self).po,
            final(self).op == old(self).op,
            final(self).wf(final(idx).model()),
    {
        let ghost m0 = old(idx).model();
        if idx.is_alive::<I::Input>(&self.pi) {
            if idx.is_recvable::<I::Input>(&self.pi) {
                match idx.recv::<I::Input>(&mut self.pi) {
                    Some(v) => {
                        let mut outs = self.op.exec(&v);
                        let total: usize = outs.len();
                        let ghost all = outs@;
                        let ghost q0 = old(idx).queue_at(self.po.pid() as int);
                        let mut sent: usize = 0;
                        proof {
                            assert(q0 + all.take(0).map_values(
                                |o: I::Output| <I::Output as ElemValue>::vw(o),
                            ) =~= q0);
                        }
                        while outs.len() > 0
                            invariant
                                old(self).wf(m0),
                                self.po == old(self).po,
                                all.len() == total,
                                sent <= all.len(),
                                outs@ == all.skip(sent as int),
                                idx.wf(),
                                idx.keys@ == old(idx).keys@,
                                idx.n() == old(idx).n(),
                                (self.po.pid() as int) < idx.n(),
                                idx.tag_at(self.po.pid() as int)
                                    == <I::Output as ElemValue>::tag(),
                                forall|i: int|
                                    0 <= i < idx.n() ==> #[trigger] idx.tag_at(i) == old(idx).tag_at(i) && idx.senders_at(i) == old(idx).senders_at(i),
                                forall|i: int|
                                    0 <= i < idx.n() && i != self.po.pid() ==> #[trigger]
                                    idx.queue_at(i) == old(idx).queue_at(i),
                                idx.queue_at(self.po.pid() as int) == q0 + all.take(
                                    sent as int,
                                ).map_values(|o: I::Output| <I::Output as ElemValue>::vw(o)),
                            decreases outs@.len(),
                        {
                            let o = outs.remove(0);
                            idx.send::<I::Output>(&self.po, o);
                            proof {
                                assert(all.take(sent + 1).map_values(
                                    |x: I::Output| <I::Output as ElemValue>::vw(x),
                                ) =~= all.take(sent as int).map_values(
                                    |x: I::Output| <I::Output as ElemValue>::vw(x),
                                ).push(<I::Output as ElemValue>::vw(o)));
                            }
                            sent = sent + 1;
                        }
                        proof {
                            let po = old(self).po.pid() as int;
                            assert(all.take(all.len() as int) =~= all);
                            assert(idx.queue_at(po) =~= m0[po].queue + old(self).step_out(m0));
                            assert(final(idx).model() =~= old(self).step_pipes(m0));
                        }
                        true
                    },
                    None => {
                        proof {
                            assert(false);
                        }
                        false
                    },
                }
            } else {
                proof {
                    assert(final(idx).model() =~= old(self).step_pipes(m0));
                }
                true
            }
        } else {
            proof {
                assert(final(idx).model() =~= old(self).step_pipes(m0));
            }
            false
        }
    }

    /// Permanent teardown of a no-longer-progressing agent: give up the
    /// output producer handle, which propagates liveness downstream.
    pub fn release(self, idx: &mut PipeIndex)
        requires
            old(idx).wf(),
            (self.po.pid() as int) < old(idx).n(),
        ensures
            final(idx).wf(),
            final(idx).keys@ == old(idx).keys@,
            final(idx).n() == old(idx).n(),
            forall|i: int|
                0 <= i < final(idx).n() ==> #[trigger] final(idx).tag_at(i) == old(idx).tag_at(i)
                    && final(idx).queue_at(i) == old(idx).queue_at(i),
            final(idx).senders_at(self.po.pid() as int) == if old(idx).senders_at(
                self.po.pid() as int,
            ) > 0 {
                (old(idx).senders_at(self.po.pid() as int) - 1) as nat
            } else {
                0nat
            },
            forall|i: int|
                0 <= i < final(idx).n() && i != self.po.pid() ==> #[trigger] final(idx).senders_at(i) == old(idx).senders_at(i),
    {
        idx.release_sender(self.po);
    }
}

/// The runtime pairing of a binary operator with its resolved handles.
pub struct YAgent<Y: YOp> {
    /// Consumer handle on the first input pipe.
    pub pi1: PipeReceiver<Y::Input1>,
    /// Consumer handle on the second input pipe.
    pub pi2: PipeReceiver<Y::Input2>,
    /// The operator instance.
    pub op: Y,
    /// Producer handle on the output pipe.
    pub po: PipeSender<Y::Output>,
}

impl<Y: YOp> YAgent<Y> {
    /// The handles point at pipes of the operator's types.
    pub open spec fn wf(self, m: Seq<PipeModel>) -> bool {
        &&& (self.pi1.pid() as int) < m.len()
        &&& m[self.pi1.pid() as int].tag == <Y::Input1 as ElemValue>::tag()
        &&& (self.pi2.pid() as int) < m.len()
        &&& m[self.pi2.pid() as int].tag == <Y::Input2 as ElemValue>::tag()
        &&& (self.po.pid() as int) < m.len()
        &&& m[self.po.pid() as int].tag == <Y::Output as ElemValue>::tag()
    }

    /// A binary agent progresses only while *both* inputs are alive: once
    /// either side can never produce a partner element, no further paired
    /// result is possible, so the agent is done even if the other side
    /// still holds buffered elements.
    pub open spec fn step_alive(self, m: Seq<PipeModel>) -> bool {
        alive(m, self.pi1.pid() as int, self.pi1.loc() as nat) && alive(
            m,
            self.pi2.pid() as int,
            self.pi2.loc() as nat,
        )
    }

    /// The agent fires only when both inputs have an unread element;
    /// partial availability consumes nothing.
    pub open spec fn step_fires(self, m: Seq<PipeModel>) -> bool {
        &&& self.step_alive(m)
        &&& (self.pi1.loc() as int) < m[self.pi1.pid() as int].queue.len()
        &&& (self.pi2.loc() as int) < m[self.pi2.pid() as int].queue.len()
    }

    /// The first input cursor after one step.
    pub open spec fn step_loc1(self, m: Seq<PipeModel>) -> nat {
        if self.step_fires(m) {
            (self.pi1.loc() + 1) as nat
        } else {
            self.pi1.loc() as nat
        }
    }

    /// The second input cursor after one step.
    pub open spec fn step_loc2(self, m: Seq<PipeModel>) -> nat {
        if self.step_fires(m) {
            (self.pi2.loc() + 1) as nat
        } else {
            self.pi2.loc() as nat
        }
    }

    /// What one step appends to the output pipe.
    pub open spec fn step_out(self, m: Seq<PipeModel>) -> Seq<ElemView> {
        if self.step_fires(m) {
            self.op.op_view(
                m[self.pi1.pid() as int].queue[self.pi1.loc() as int],
                m[self.pi2.pid() as int].queue[self.pi2.loc() as int],
            )
        } else {
            Seq::<ElemView>::empty()
        }
    }

    /// The pipes after one step.
    pub open spec fn step_pipes(self, m: Seq<PipeModel>) -> Seq<PipeModel> {
        if self.step_fires(m) {
            let po = self.po.pid() as int;
            m.update(
                po,
                PipeModel {
                    tag: m[po].tag,
                    queue: m[po].queue + self.step_out(m),
                    senders: m[po].senders,
                },
            )
        } else {
            m
        }
    }

    /// One scheduling step.  The agent dies as soon as either input can
    /// never produce again; it fires only when both inputs have an unread
    /// element, consuming exactly one from each.
    pub fn step(&mut self, idx: &mut PipeIndex) -> (b: bool)
        requires
            old(idx).wf(),
            old(self).wf(old(idx).model()),
        ensures
            final(idx).wf(),
            final(idx).keys@ == old(idx).keys@,
            final(idx).model() == old(self).step_pipes(old(idx).model()),
            b == old(self).step_alive(old(idx).model()),
            final(self).pi1.pid() == old(self).pi1.pid(),
            final(self).pi2.pid() == old(self).pi2.pid(),
            final(self).pi1.loc() == old(self).step_loc1(old(idx).model()),
            final(self).pi2.loc() == old(self).step_loc2(old(idx).model()),
            final(self).po == old(self).po,
            final(self).op == old(self).op,
            final(self).wf(final(idx).model()),
    {
        let ghost m0 = old(idx).model();
        if idx.is_alive::<Y::Input1>(&self.pi1) && idx.is_alive::<Y::Input2>(&self.pi2) {
            if idx.is_recvable::<Y::Input1>(&self.pi1) && idx.is_recvable::<Y::Input2>(
                &self.pi2,
            ) {
                let e1 = idx.recv::<Y::Input1>(&mut self.pi1);
                let e2 = idx.recv::<Y::Input2>(&mut self.pi2);
                match (e1, e2) {
                    (Some(v1), Some(v2)) => {
                        let mut outs = self.op.exec(&v1, &v2);
                        let total: usize = outs.len();
                        let ghost all = outs@;
                        let ghost q0 = old(idx).queue_at(self.po.pid() as int);
                        let mut sent: usize = 0;
                        proof {
                            assert(q0 + all.take(0).map_values(
                                |o: Y::Output| <Y::Output as ElemValue>::vw(o),
                            ) =~= q0);
                        }
                        while outs.len() > 0
                            invariant
                                old(self).wf(m0),
                                self.po == old(self).po,
                                all.len() == total,
                                sent <= all.len(),
                                outs@ == all.skip(sent as int),
                                idx.wf(),
                                idx.keys@ == old(idx).keys@,
                                idx.n() == old(idx).n(),
                                (self.po.pid() as int) < idx.n(),
                                idx.tag_at(self.po.pid() as int)
                                    == <Y::Output as ElemValue>::tag(),
                                forall|i: int|
                                    0 <= i < idx.n() ==> #[trigger] idx.tag_at(i) == old(idx).tag_at(i) && idx.senders_at(i) == old(idx).senders_at(i),
                                forall|i: int|
                                    0 <= i < idx.n() && i != self.po.pid() ==> #[trigger]
                                    idx.queue_at(i) == old(idx).queue_at(i),
                                idx.queue_at(self.po.pid() as int) == q0 + all.take(
                                    sent as int,
                                ).map_values(|o: Y::Output| <Y::Output as ElemValue>::vw(o)),
                            decreases outs@.len(),
                        {
                            let o = outs.remove(0);
                            idx.send::<Y::Output>(&self.po, o);
                            proof {
                                assert(all.take(sent + 1).map_values(
                                    |x: Y::Output| <Y::Output as ElemValue>::vw(x),
                                ) =~= all.take(sent as int).map_values(
                                    |x: Y::Output| <Y::Output as ElemValue>::vw(x),
                                ).push(<Y::Output as ElemValue>::vw(o)));
                            }
                            sent = sent + 1;
                        }
                        proof {
                            let po = old(self).po.pid() as int;
                            assert(all.take(all.len() as int) =~= all);
                            assert(idx.queue_at(po) =~= m0[po].queue + old(self).step_out(m0));
                            assert(final(idx).model() =~= old(self).step_pipes(m0));
                        }
                        true
                    },
                    _ => {
                        proof {
                            assert(false);
                        }
                        false
                    },
                }
            } else {
                proof {
                    assert(final(idx).model() =~= old(self).step_pipes(m0));
                }
                true
            }
        } else {
            proof {
                assert(final(idx).model() =~= old(self).step_pipes(m0));
            }
            false
        }
    }

    /// Permanent teardown of a no-longer-progressing agent: give up the
    /// output producer handle, which propagates liveness downstream.
    pub fn release(self, idx: &mut PipeIndex)
        requires
            old(idx).wf(),
            (self.po.pid() as int) < old(idx).n(),
        ensures
            final(idx).wf(),
            final(idx).keys@ == old(idx).keys@,
            final(idx).n() == old(idx).n(),
            forall|i: int|
                0 <= i < final(idx).n() ==> #[trigger] final(idx).tag_at(i) == old(idx).tag_at(i)
                    && final(idx).queue_at(i) == old(idx).queue_at(i),
            final(idx).senders_at(self.po.pid() as int) == if old(idx).senders_at(
                self.po.pid() as int,
            ) > 0 {
                (old(idx).senders_at(self.po.pid() as int) - 1) as nat
            } else {
                0nat
            },
            forall|i: int|
                0 <= i < final(idx).n() && i != self.po.pid() ==> #[trigger] final(idx).senders_at(i) == old(idx).senders_at(i),
    {
        idx.release_sender(self.po);
    }
}

/// A unary operator that can resolve its keys against the frozen pipe
/// index and yield a ready-to-run agent.
pub trait IBuildable: IOp {
    /// Resolve `li` as input, `lo` as output, configure with `imm`, and
    /// construct the agent.  Fails if a key has no pipe (unresolved), a
    /// pipe is bound to another type (conflict), or the literal is
    /// unacceptable; nothing is changed on failure.
    fn build(li: String, imm: String, lo: String, idx: &mut PipeIndex) -> (r: Result<
        IAgent<Self>,
        BuildError,
    >)
        requires
            old(idx).wf(),
            forall|i: int| 0 <= i < old(idx).n() ==> old(idx).senders_at(i) < usize::MAX,
        ensures
            final(idx).wf(),
            final(idx).keys@ == old(idx).keys@,
            final(idx).n() == old(idx).n(),
            forall|i: int|
                0 <= i < final(idx).n() ==> #[trigger] final(idx).tag_at(i) == old(idx).tag_at(i)
                    && final(idx).queue_at(i) == old(idx).queue_at(i),
            match r {
                Ok(a) => {
                    &&& old(idx).pid_of(li@) >= 0
                    &&& old(idx).tag_at(old(idx).pid_of(li@)) == <Self::Input as ElemValue>::tag()
                    &&& old(idx).pid_of(lo@) >= 0
                    &&& old(idx).tag_at(old(idx).pid_of(lo@)) == <Self::Output as ElemValue>::tag()
                    &&& Self::accepts(imm@)
                    &&& a.pi.pid() == old(idx).pid_of(li@)
                    &&& a.pi.loc() == 0
                    &&& a.po.pid() == old(idx).pid_of(lo@)
                    &&& Self::made_by(imm@, a.op)
                    &&& final(idx).senders_at(a.po.pid() as int) == old(idx).senders_at(
                        a.po.pid() as int,
                    ) + 1
                    &&& forall|i: int|
                        0 <= i < final(idx).n() && i != a.po.pid() ==> #[trigger] final(idx).senders_at(i) == old(idx).senders_at(i)
                    &&& a.wf(final(idx).model())
                },
                Err(e) => {
                    &&& forall|i: int|
                        0 <= i < final(idx).n() ==> #[trigger] final(idx).senders_at(i) == old(idx).senders_at(i)
                    &&& e == i_build_err::<Self>(*old(idx), li@, imm@, lo@)
                    &&& !i_build_ok::<Self>(*old(idx), li@, imm@, lo@)
                },
            },
    ;
}

/// Whether building a unary operator agent over these keys succeeds.
pub open spec fn i_build_ok<I: IOp>(
    idx: PipeIndex,
    li: Seq<char>,
    imm: Seq<char>,
    lo: Seq<char>,
) -> bool {
    &&& idx.pid_of(li) >= 0
    &&& idx.tag_at(idx.pid_of(li)) == <I::Input as ElemValue>::tag()
    &&& idx.pid_of(lo) >= 0
    &&& idx.tag_at(idx.pid_of(lo)) == <I::Output as ElemValue>::tag()
    &&& I::accepts(imm)
}

/// The first failure a unary build reports, in resolution order.
pub open spec fn i_build_err<I: IOp>(
    idx: PipeIndex,
    li: Seq<char>,
    imm: Seq<char>,
    lo: Seq<char>,
) -> BuildError {
    if idx.pid_of(li) == -1 {
        BuildError::Unresolved
    } else if idx.tag_at(idx.pid_of(li)) != <I::Input as ElemValue>::tag() {
        BuildError::TypeConflict
    } else if idx.pid_of(lo) == -1 {
        BuildError::Unresolved
    } else if idx.tag_at(idx.pid_of(lo)) != <I::Output as ElemValue>::tag() {
        BuildError::TypeConflict
    } else {
        BuildError::BadImmediate
    }
}

impl<I: IOp> IBuildable for I {
    fn build(li: String, imm: String, lo: String, idx: &mut PipeIndex) -> (r: Result<
        IAgent<Self>,
        BuildError,
    >) {
        proof {
            old(idx).pid_range(li@);
            old(idx).pid_range(lo@);
        }
        let pi = match idx.require_receiver::<I::Input>(&li) {
            Ok(p) => p,
            Err(e) => {
                return Err(e);
            },
        };
        let po = match idx.require_sender::<I::Output>(&lo) {
            Ok(p) => p,
            Err(e) => {
                return Err(e);
            },
        };
        match Self::new(imm) {
            Ok(op) => Ok(IAgent { pi, op, po }),
            Err(e) => {
                idx.release_sender(po);
                Err(e)
            },
        }
    }
}

/// A binary operator that can resolve its keys against the frozen pipe
/// index and yield a ready-to-run agent.
pub trait YBuildable: YOp {
    /// Resolve `li1` and `li2` as inputs and `lo` as output, and
    /// construct the agent.  Fails if a key has no pipe (unresolved) or a
    /// pipe is bound to another type (conflict); nothing is changed on
    /// failure.
    fn build(li1: String, li2: String, lo: String, idx: &mut PipeIndex) -> (r: Result<
        YAgent<Self>,
        BuildError,
    >)
        requires
            old(idx).wf(),
            forall|i: int| 0 <= i < old(idx).n() ==> old(idx).senders_at(i) < usize::MAX,
        ensures
            final(idx).wf(),
            final(idx).keys@ == old(idx).keys@,
            final(idx).n() == old(idx).n(),
            forall|i: int|
                0 <= i < final(idx).n() ==> #[trigger] final(idx).tag_at(i) == old(idx).tag_at(i)
                    && final(idx).queue_at(i) == old(idx).queue_at(i),
            match r {
                Ok(a) => {
                    &&& y_build_ok::<Self>(*old(idx), li1@, li2@, lo@)
                    &&& a.pi1.pid() == old(idx).pid_of(li1@)
                    &&& a.pi1.loc() == 0
                    &&& a.pi2.pid() == old(idx).pid_of(li2@)
                    &&& a.pi2.loc() == 0
                    &&& a.po.pid() == old(idx).pid_of(lo@)
                    &&& a.op == Self::made()
                    &&& final(idx).senders_at(a.po.pid() as int) == old(idx).senders_at(
                        a.po.pid() as int,
                    ) + 1
                    &&& forall|i: int|
                        0 <= i < final(idx).n() && i != a.po.pid() ==> #[trigger] final(idx).senders_at(i) == old(idx).senders_at(i)
                    &&& a.wf(final(idx).model())
                },
                Err(e) => {
                    &&& forall|i: int|
                        0 <= i < final(idx).n() ==> #[trigger] final(idx).senders_at(i) == old(idx).senders_at(i)
                    &&& e == y_build_err::<Self>(*old(idx), li1@, li2@, lo@)
                    &&& !y_build_ok::<Self>(*old(idx), li1@, li2@, lo@)
                },
            },
    ;
}

/// Whether building a binary operator agent over these keys succeeds.
pub open spec fn y_build_ok<Y: YOp>(
    idx: PipeIndex,
    li1: Seq<char>,
    li2: Seq<char>,
    lo: Seq<char>,
) -> bool {
    &&& idx.pid_of(li1) >= 0
    &&& idx.tag_at(idx.pid_of(li1)) == <Y::Input1 as ElemValue>::tag()
    &&& idx.pid_of(li2) >= 0
    &&& idx.tag_at(idx.pid_of(li2)) == <Y::Input2 as ElemValue>::tag()
    &&& idx.pid_of(lo) >= 0
    &&& idx.tag_at(idx.pid_of(lo)) == <Y::Output as ElemValue>::tag()
}

/// The first failure a binary build reports, in resolution order.
pub open spec fn y_build_err<Y: YOp>(
    idx: PipeIndex,
    li1: Seq<char>,
    li2: Seq<char>,
    lo: Seq<char>,
) -> BuildError {
    if idx.pid_of(li1) == -1 {
        BuildError::Unresolved
    } else if idx.tag_at(idx.pid_of(li1)) != <Y::Input1 as ElemValue>::tag() {
        BuildError::TypeConflict
    } else if idx.pid_of(li2) == -1 {
        BuildError::Unresolved
    } else if idx.tag_at(idx.pid_of(li2)) != <Y::Input2 as ElemValue>::tag() {
        BuildError::TypeConflict
    } else if idx.pid_of(lo) == -1 {
        BuildError::Unresolved
    } else {
        BuildError::TypeConflict
    }
}

impl<Y: YOp> YBuildable for Y {
    fn build(li1: String, li2: String, lo: String, idx: &mut PipeIndex) -> (r: Result<
        YAgent<Self>,
        BuildError,
    >) {
        proof {
            old(idx).pid_range(li1@);
            old(idx).pid_range(li2@);
            old(idx).pid_range(lo@);
        }
        let pi1 = match idx.require_receiver::<Y::Input1>(&li1) {
            Ok(p) => p,
            Err(e) => {
                return Err(e);
            },
        };
        let pi2 = match idx.require_receiver::<Y::Input2>(&li2) {
            Ok(p) => p,
            Err(e) => {
                return Err(e);
            },
        };
        let po = match idx.require_sender::<Y::Output>(&lo) {
            Ok(p) => p,
            Err(e) => {
                return Err(e);
            },
        };
        match Self::new() {
            Ok(op) => Ok(YAgent { pi1, pi2, op, po }),
            Err(e) => {
                idx.release_sender(po);
                Err(e)
            },
        }
    }
}

/// The build-time description of a future unary agent: the keys it
/// touches and its immediate literal.
pub struct IPrecursor<I: IOp> {
    /// Input pipe key.
    pub pi: String,
    /// Immediate configuration literal.
    pub imm: String,
    /// Output pipe key.
    pub po: String,
    pub ph: PhantomData<I>,
}

impl<I: IOp> IPrecursor<I> {
    /// The effect of one constraint pass: the input key must have the
    /// operator's input type, the output key its output type.
    pub open spec fn deduct_map(self, m: Map<Seq<char>, TypeTag>) -> (
        Map<Seq<char>, TypeTag>,
        bool,
    ) {
        let p1 = require_map(m, self.pi@, <I::Input as ElemValue>::tag());
        let p2 = require_map(p1.0, self.po@, <I::Output as ElemValue>::tag());
        ((if p1.1 {
            p2.0
        } else {
            p1.0
        }), p1.1 && p2.1)
    }

    /// Describe a future unary agent over these keys.
    pub fn new(pi: &str, imm: &str, po: &str) -> (r: Self)
        ensures
            r.pi@ == pi@,
            r.imm@ == imm@,
            r.po@ == po@,
    {
        IPrecursor { pi: pi.to_owned(), imm: imm.to_owned(), po: po.to_owned(), ph: PhantomData }
    }

    /// Contribute this precursor's constraints: the input key must have
    /// the operator's input type, the output key its output type.  Safe
    /// to call repeatedly; fails only on a genuine conflict.
    pub fn deduct(&self, idx: &mut PipeTypeIndex) -> (r: Result<(), BuildError>)
        requires
            old(idx).wf(),
        ensures
            final(idx).wf(),
            (final(idx).model(), r is Ok) == self.deduct_map(old(idx).model()),
            r is Err ==> r == Err::<(), BuildError>(BuildError::TypeConflict),
            final(idx).concrete_count >= old(idx).concrete_count,
    {
        let r1 = idx.require::<I::Input>(&self.pi);
        match r1 {
            Ok(_) => {},
            Err(e) => {
                return Err(e);
            },
        }
        let r2 = idx.require::<I::Output>(&self.po);
        match r2 {
            Ok(_) => {},
            Err(e) => {
                return Err(e);
            },
        }
        Ok(())
    }

    /// Materialize this precursor into an agent over the frozen index.
    pub fn build(self, idx: &mut PipeIndex) -> (r: Result<IAgent<I>, BuildError>)
        requires
            old(idx).wf(),
            forall|i: int| 0 <= i < old(idx).n() ==> old(idx).senders_at(i) < usize::MAX,
        ensures
            final(idx).wf(),
            final(idx).keys@ == old(idx).keys@,
            final(idx).n() == old(idx).n(),
            forall|i: int|
                0 <= i < final(idx).n() ==> #[trigger] final(idx).tag_at(i) == old(idx).tag_at(i)
                    && final(idx).queue_at(i) == old(idx).queue_at(i),
            match r {
                Ok(a) => {
                    &&& i_build_ok::<I>(*old(idx), self.pi@, self.imm@, self.po@)
                    &&& a.pi.pid() == old(idx).pid_of(self.pi@)
                    &&& a.pi.loc() == 0
                    &&& a.po.pid() == old(idx).pid_of(self.po@)
                    &&& I::made_by(self.imm@, a.op)
                    &&& final(idx).senders_at(a.po.pid() as int) == old(idx).senders_at(
                        a.po.pid() as int,
                    ) + 1
                    &&& forall|i: int|
                        0 <= i < final(idx).n() && i != a.po.pid() ==> #[trigger] final(idx).senders_at(i) == old(idx).senders_at(i)
                    &&& a.wf(final(idx).model())
                },
                Err(e) => {
                    &&& forall|i: int|
                        0 <= i < final(idx).n() ==> #[trigger] final(idx).senders_at(i) == old(idx).senders_at(i)
                    &&& e == i_build_err::<I>(*old(idx), self.pi@, self.imm@, self.po@)
                    &&& !i_build_ok::<I>(*old(idx), self.pi@, self.imm@, self.po@)
                },
            },
    {
        I::build(self.pi, self.imm, self.po, idx)
    }
}

/// The build-time description of a future binary agent: the keys it
/// touches.
pub struct YPrecursor<Y: YOp> {
    /// First input pipe key.
    pub pi1: String,
    /// Second input pipe key.
    pub pi2: String,
    /// Output pipe key.
    pub po: String,
    pub ph: PhantomData<Y>,
}

impl<Y: YOp> YPrecursor<Y> {
    /// The effect of one constraint pass: both input keys and the output
    /// key must have the operator's respective types.
    pub open spec fn deduct_map(self, m: Map<Seq<char>, TypeTag>) -> (
        Map<Seq<char>, TypeTag>,
        bool,
    ) {
        let p1 = require_map(m, self.pi1@, <Y::Input1 as ElemValue>::tag());
        let p2 = require_map(p1.0, self.pi2@, <Y::Input2 as ElemValue>::tag());
        let p3 = require_map(p2.0, self.po@, <Y::Output as ElemValue>::tag());
        ((if !p1.1 {
            p1.0
        } else if !p2.1 {
            p2.0
        } else {
            p3.0
        }), p1.1 && p2.1 && p3.1)
    }

    /// Describe a future binary agent over these keys.
    pub fn new(pi1: &str, pi2: &str, po: &str) -> (r: Self)
        ensures
            r.pi1@ == pi1@,
            r.pi2@ == pi2@,
            r.po@ == po@,
    {
        YPrecursor { pi1: pi1.to_owned(), pi2: pi2.to_owned(), po: po.to_owned(), ph: PhantomData }
    }

    /// Contribute this precursor's constraints: both input keys and the
    /// output key must have the operator's respective types.
    pub fn deduct(&self, idx: &mut PipeTypeIndex) -> (r: Result<(), BuildError>)
        requires
            old(idx).wf(),
        ensures
            final(idx).wf(),
            (final(idx).model(), r is Ok) == self.deduct_map(old(idx).model()),
            r is Err ==> r == Err::<(), BuildError>(BuildError::TypeConflict),
            final(idx).concrete_count >= old(idx).concrete_count,
    {
        let r1 = idx.require::<Y::Input1>(&self.pi1);
        match r1 {
            Ok(_) => {},
            Err(e) => {
                return Err(e);
            },
        }
        let r2 = idx.require::<Y::Input2>(&self.pi2);
        match r2 {
            Ok(_) => {},
            Err(e) => {
                return Err(e);
            },
        }
        let r3 = idx.require::<Y::Output>(&self.po);
        match r3 {
            Ok(_) => {},
            Err(e) => {
                return Err(e);
            },
        }
        Ok(())
    }

    /// Materialize this precursor into an agent over the frozen index.
    pub fn build(self, idx: &mut PipeIndex) -> (r: Result<YAgent<Y>, BuildError>)
        requires
            old(idx).wf(),
            forall|i: int| 0 <= i < old(idx).n() ==> old(idx).senders_at(i) < usize::MAX,
        ensures
            final(idx).wf(),
            final(idx).keys@ == old(idx).keys@,
            final(idx).n() == old(idx).n(),
            forall|i: int|
                0 <= i < final(idx).n() ==> #[trigger] final(idx).tag_at(i) == old(idx).tag_at(i)
                    && final(idx).queue_at(i) == old(idx).queue_at(i),
            match r {
                Ok(a) => {
                    &&& y_build_ok::<Y>(*old(idx), self.pi1@, self.pi2@, self.po@)
                    &&& a.pi1.pid() == old(idx).pid_of(self.pi1@)
                    &&& a.pi1.loc() == 0
                    &&& a.pi2.pid() == old(idx).pid_of(self.pi2@)
                    &&& a.pi2.loc() == 0
                    &&& a.po.pid() == old(idx).pid_of(self.po@)
                    &&& a.op == Y::made()
                    &&& final(idx).senders_at(a.po.pid() as int) == old(idx).senders_at(
                        a.po.pid() as int,
                    ) + 1
                    &&& forall|i: int|
                        0 <= i < final(idx).n() && i != a.po.pid() ==> #[trigger] final(idx).senders_at(i) == old(idx).senders_at(i)
                    &&& a.wf(final(idx).model())
                },
                Err(e) => {
                    &&& forall|i: int|
                        0 <= i < final(idx).n() ==> #[trigger] final(idx).senders_at(i) == old(idx).senders_at(i)
                    &&& e == y_build_err::<Y>(*old(idx), self.pi1@, self.pi2@, self.po@)
                    &&& !y_build_ok::<Y>(*old(idx), self.pi1@, self.pi2@, self.po@)
                },
            },
    {
        Y::build(self.pi1, self.pi2, self.po, idx)
    }
}

/// Binary-agent pairing.  With a fresh binary agent wired to distinct
/// pipes, its first input holding two elements and its second holding
/// one, both exhausted: the agent fires exactly once, appending the
/// operator's result for the first pair to its output, and is then dead
/// — its second input can never produce a partner again — even though
/// the second element of the first input remains unread.  A dead agent's
/// step changes no pipe, so no further output ever appears.
pub proof fn lemma_binary_pairing<Y: YOp>(
    agent: YAgent<Y>,
    m: Seq<PipeModel>,
    x1: ElemView,
    x2: ElemView,
    y1: ElemView,
)
    requires
        agent.wf(m),
        agent.pi1.loc() == 0,
        agent.pi2.loc() == 0,
        m[agent.pi1.pid() as int].queue == seq![x1, x2],
        m[agent.pi1.pid() as int].senders == 0,
        m[agent.pi2.pid() as int].queue == seq![y1],
        m[agent.pi2.pid() as int].senders == 0,
        agent.po.pid() != agent.pi1.pid(),
        agent.po.pid() != agent.pi2.pid(),
    ensures
        agent.step_fires(m),
        ({
            let m1 = agent.step_pipes(m);
            // exactly the one paired result goes out
            &&& m1[agent.po.pid() as int].queue == m[agent.po.pid() as int].queue
                + agent.op.op_view(x1, y1)
            // the partner side is exhausted at the advanced cursor, so the
            // agent no longer progresses on the next step
            &&& !alive(m1, agent.pi2.pid() as int, agent.step_loc2(m))
            // while the first input still holds an unread element
            &&& (agent.step_loc1(m) as int) < m1[agent.pi1.pid() as int].queue.len()
        }),
{
    assert(alive(m, agent.pi1.pid() as int, 0nat));
    assert(alive(m, agent.pi2.pid() as int, 0nat));
}

} // verus!
