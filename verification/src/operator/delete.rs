//! The delete operator: consume a pipe's elements and discard them.
//!
//! Deleting still produces one unit element per input so that a
//! downstream pipe can observe the rhythm of the deletions.

use vstd::prelude::*;
use core::marker::PhantomData;
use crate::controller::Agent;
use crate::deduct::{require_map, AgentPrecursor, PipeIndex, PipeTypeIndex};
use crate::elem::{ElemValue, ElemView, TypeTag};
use crate::operator::{i_build_err, IAgent, IBuildable, IOp};
use crate::BuildError;

verus! {

/// Discard every element of type `D`, emitting a unit element for each.
pub struct Delete<D> {
    pub ph: PhantomData<D>,
}

impl<D: ElemValue> IOp for Delete<D> {
    type Input = D;

    type Output = ();

    open spec fn accepts(imm: Seq<char>) -> bool {
        true
    }

    open spec fn made_by(imm: Seq<char>, op: Self) -> bool {
        true
    }

    open spec fn op_view(&self, e: ElemView) -> Seq<ElemView> {
        seq![ElemView::Unit]
    }

    fn new(imm: String) -> (r: Result<Self, BuildError>) {
        Ok(Delete { ph: PhantomData })
    }

    fn exec(&self, e: &Self::Input) -> (out: Vec<Self::Output>) {
        let mut out: Vec<()> = Vec::new();
        out.push(());
        proof {
            assert(out@.map_values(|o: ()| <() as ElemValue>::vw(o)) =~= seq![ElemView::Unit]);
        }
        out
    }
}

/// The build-time description of a delete agent over these keys.
pub struct DeletePrecursor {
    pub pi: String,
    pub po: String,
}

impl DeletePrecursor {
    /// Describe a future delete agent: consume `pi`, discard to `po`.
    pub fn new(pi: &str, po: &str) -> (r: Self)
        ensures
            r.pi@ == pi@,
            r.po@ == po@,
    {
        DeletePrecursor { pi: pi.to_owned(), po: po.to_owned() }
    }

    /// The effect of one constraint pass: the discard key must be unit.
    pub open spec fn deduct_map(self, m: Map<Seq<char>, TypeTag>) -> (
        Map<Seq<char>, TypeTag>,
        bool,
    ) {
        require_map(m, self.po@, TypeTag::Unit)
    }

    /// Whether a frozen pool lets this precursor build: the input pipe
    /// holds the one supported element type and the output pipe is unit.
    pub open spec fn build_ok(self, idx: PipeIndex) -> bool {
        &&& idx.pid_of(self.pi@) >= 0
        &&& idx.tag_at(idx.pid_of(self.pi@)) == TypeTag::USize
        &&& idx.pid_of(self.po@) >= 0
        &&& idx.tag_at(idx.pid_of(self.po@)) == TypeTag::Unit
    }

    /// The failure a build over `idx` reports, in resolution order.
    pub open spec fn build_err(self, idx: PipeIndex) -> BuildError {
        if idx.pid_of(self.pi@) == -1 {
            BuildError::Unresolved
        } else if idx.tag_at(idx.pid_of(self.pi@)) != TypeTag::USize {
            BuildError::Unsupported
        } else {
            i_build_err::<Delete<usize>>(idx, self.pi@, Seq::<char>::empty(), self.po@)
        }
    }

    /// Contribute this precursor's constraint: the discard key is unit.
    /// The input key's type is left to whoever produces it.
    pub fn deduct(&self, idx: &mut PipeTypeIndex) -> (r: Result<(), BuildError>)
        requires
            old(idx).wf(),
        ensures
            final(idx).wf(),
            (final(idx).model(), r is Ok) == self.deduct_map(old(idx).model()),
            r is Err ==> r == Err::<(), BuildError>(BuildError::TypeConflict),
            final(idx).concrete_count >= old(idx).concrete_count,
    {
        idx.require::<()>(&self.po)
    }

    /// Materialize the delete agent; only counter-typed input pipes are
    /// supported so far, anything else is reported as unsupported.
    pub fn build(self, idx: &mut PipeIndex) -> (r: Result<IAgent<Delete<usize>>, BuildError>)
        requires
            old(idx).wf(),
            forall|i: int| 0 <= i < old(idx).n() ==> old(idx).senders_at(i) < usize::MAX,
        ensures
            final(idx).wf(),
            final(idx).keys@ == old(idx).keys@,
            final(idx).n() == old(idx).n(),
            forall|i: int|
                0 <= i < final(idx).n() ==> #[trigger] final(idx).tag_at(i) == old(idx).tag_at(i)
                    && final(idx).queue_at(i) == old(idx).queue_at(i),
            match r {
                Ok(a) => {
                    &&& self.build_ok(*old(idx))
                    &&& a.pi.pid() == old(idx).pid_of(self.pi@)
                    &&& a.pi.loc() == 0
                    &&& a.po.pid() == old(idx).pid_of(self.po@)
                    &&& final(idx).senders_at(a.po.pid() as int) == old(idx).senders_at(
                        a.po.pid() as int,
                    ) + 1
                    &&& forall|i: int|
                        0 <= i < final(idx).n() && i != a.po.pid() ==> #[trigger] final(idx).senders_at(i) == old(idx).senders_at(i)
                    &&& a.wf(final(idx).model())
                },
                Err(e) => {
                    &&& forall|i: int|
                        0 <= i < final(idx).n() ==> #[trigger] final(idx).senders_at(i) == old(idx).senders_at(i)
                    &&& e == self.build_err(*old(idx))
                    &&& !self.build_ok(*old(idx))
                },
            },
    {
        let supported = match idx.ask_to_be::<usize>(&self.pi) {
            Ok(b) => b,
            Err(e) => {
                return Err(e);
            },
        };
        if supported {
            return Delete::<usize>::build(self.pi, String::new(), self.po, idx);
        }
        Err(BuildError::Unsupported)
    }
}

impl AgentPrecursor for DeletePrecursor {
    fn deduct(&self, idx: &mut PipeTypeIndex) -> (r: Result<(), BuildError>) {
        DeletePrecursor::deduct(self, idx)
    }

    fn build(self, idx: &mut PipeIndex) -> (r: Result<Agent, BuildError>) {
        match DeletePrecursor::build(self, idx) {
            Ok(a) => Ok(Agent::Delete(a)),
            Err(e) => Err(e),
        }
    }
}

} // verus!
