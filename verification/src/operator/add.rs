//! Addition-family operators and their precursor.
//!
//! The precursor for the addition instruction is the one whose type
//! constraint is conditional: the output key's type only becomes derivable
//! once both input keys have resolved, which is why the deduction runs as
//! a fixpoint rather than a single pass.

use vstd::prelude::*;
use core::marker::PhantomData;
use vstd::string::StringExecFns;
use crate::controller::Agent;
use crate::deduct::{require_map, AgentPrecursor, PipeIndex, PipeTypeIndex};
use crate::elem::{ElemView, TypeTag};
use crate::operator::{y_build_ok, IOp, YAgent, YBuildable, YOp};
use crate::BuildError;

verus! {

/// Placeholder for elementwise addition over a pair of numeric element
/// types; only the string instance (`SSAdd`) is implemented so far.
pub struct Add<T1, T2> {
    pub t1: PhantomData<T1>,
    pub t2: PhantomData<T2>,
}

/// String addition: concatenation, elementwise over two string pipes.
pub struct SSAdd {}

impl YOp for SSAdd {
    type Input1 = String;

    type Input2 = String;

    type Output = String;

    open spec fn made() -> Self {
        SSAdd {  }
    }

    open spec fn op_view(&self, e1: ElemView, e2: ElemView) -> Seq<ElemView> {
        match (e1, e2) {
            (ElemView::Str(a), ElemView::Str(b)) => seq![ElemView::Str(a + b)],
            _ => Seq::<ElemView>::empty(),
        }
    }

    fn new() -> (r: Result<Self, BuildError>) {
        Ok(SSAdd {  })
    }

    fn exec(&self, e1: &Self::Input1, e2: &Self::Input2) -> (out: Vec<Self::Output>) {
        let mut s = e1.clone();
        s.append(e2.as_str());
        let mut out: Vec<String> = Vec::new();
        out.push(s);
        proof {
            assert(out@.map_values(|o: String| <String as crate::elem::ElemValue>::vw(o)) =~= seq![
                ElemView::Str(e1@ + e2@),
            ]);
        }
        out
    }
}

/// Append a fixed literal to each element of a string pipe: the unary
/// counterpart of `SSAdd`, configured by its immediate.
pub struct SAppend {
    /// The literal appended to every input element.
    pub imm: String,
}

impl IOp for SAppend {
    type Input = String;

    type Output = String;

    open spec fn accepts(imm: Seq<char>) -> bool {
        true
    }

    open spec fn made_by(imm: Seq<char>, op: Self) -> bool {
        op.imm@ == imm
    }

    open spec fn op_view(&self, e: ElemView) -> Seq<ElemView> {
        match e {
            ElemView::Str(a) => seq![ElemView::Str(a + self.imm@)],
            _ => Seq::<ElemView>::empty(),
        }
    }

    fn new(imm: String) -> (r: Result<Self, BuildError>) {
        Ok(SAppend { imm })
    }

    fn exec(&self, e: &Self::Input) -> (out: Vec<Self::Output>) {
        let mut s = e.clone();
        s.append(self.imm.as_str());
        let mut out: Vec<String> = Vec::new();
        out.push(s);
        proof {
            assert(out@.map_values(|o: String| <String as crate::elem::ElemValue>::vw(o)) =~= seq![
                ElemView::Str(e@ + self.imm@),
            ]);
        }
        out
    }
}

/// The precursor for an addition instruction over these keys.
pub fn precursor(pi1: &str, pi2: &str, po: &str) -> (r: Result<AddPrecursor, BuildError>)
    ensures
        r is Ok,
        r->Ok_0.pi1@ == pi1@,
        r->Ok_0.pi2@ == pi2@,
        r->Ok_0.po@ == po@,
{
    Ok(AddPrecursor { pi1: pi1.to_owned(), pi2: pi2.to_owned(), po: po.to_owned() })
}

/// The build-time description of an addition agent.  Its constraint is
/// conditional: only once both inputs are known strings does it require
/// the output to be a string.
pub struct AddPrecursor {
    pub pi1: String,
    pub pi2: String,
    pub po: String,
}

impl AddPrecursor {
    /// The effect of one constraint pass: once both inputs are known
    /// strings, the output key must be a string too; otherwise nothing.
    pub open spec fn deduct_map(self, m: Map<Seq<char>, TypeTag>) -> (
        Map<Seq<char>, TypeTag>,
        bool,
    ) {
        let fire = m.contains_key(self.pi1@) && m[self.pi1@] == TypeTag::Str && m.contains_key(
            self.pi2@,
        ) && m[self.pi2@] == TypeTag::Str;
        let p = require_map(m, self.po@, TypeTag::Str);
        if fire {
            p
        } else {
            (m, true)
        }
    }

    /// Whether a frozen pool lets this precursor build: every key has a
    /// pipe and all three are strings.
    pub open spec fn build_ok(self, idx: PipeIndex) -> bool {
        &&& idx.pid_of(self.pi1@) >= 0
        &&& idx.pid_of(self.pi2@) >= 0
        &&& idx.pid_of(self.po@) >= 0
        &&& idx.tag_at(idx.pid_of(self.pi1@)) == TypeTag::Str
        &&& idx.tag_at(idx.pid_of(self.pi2@)) == TypeTag::Str
        &&& idx.tag_at(idx.pid_of(self.po@)) == TypeTag::Str
    }

    /// The failure a build over `idx` reports, in resolution order.
    pub open spec fn build_err(self, idx: PipeIndex) -> BuildError {
        if idx.pid_of(self.pi1@) == -1 || idx.pid_of(self.pi2@) == -1 || idx.pid_of(self.po@)
            == -1 {
            BuildError::Unresolved
        } else {
            BuildError::Unsupported
        }
    }

    /// Contribute this precursor's constraint: once both inputs are known
    /// to be strings, the output must be a string too.  With either input
    /// still unknown it binds nothing, and a later pass retries.
    pub fn deduct(&self, idx: &mut PipeTypeIndex) -> (r: Result<(), BuildError>)
        requires
            old(idx).wf(),
        ensures
            final(idx).wf(),
            (final(idx).model(), r is Ok) == self.deduct_map(old(idx).model()),
            r is Err ==> r == Err::<(), BuildError>(BuildError::TypeConflict),
            final(idx).concrete_count >= old(idx).concrete_count,
    {
        let t1 = idx.ask(&self.pi1);
        let t2 = idx.ask(&self.pi2);
        match (t1, t2) {
            (Some(t1), Some(t2)) => {
                if t1 == TypeTag::Str && t2 == TypeTag::Str {
                    idx.require::<String>(&self.po)
                } else {
                    Ok(())
                }
            },
            _ => Ok(()),
        }
    }

    /// Materialize the addition agent; only the all-strings combination
    /// is implemented, anything else is reported as unsupported.
    pub fn build(self, idx: &mut PipeIndex) -> (r: Result<YAgent<SSAdd>, BuildError>)
        requires
            old(idx).wf(),
            forall|i: int| 0 <= i < old(idx).n() ==> old(idx).senders_at(i) < usize::MAX,
        ensures
            final(idx).wf(),
            final(idx).keys@ == old(idx).keys@,
            final(idx).n() == old(idx).n(),
            forall|i: int|
                0 <= i < final(idx).n() ==> #[trigger] final(idx).tag_at(i) == old(idx).tag_at(i)
                    && final(idx).queue_at(i) == old(idx).queue_at(i),
            match r {
                Ok(a) => {
                    &&& self.build_ok(*old(idx))
                    &&& a.pi1.pid() == old(idx).pid_of(self.pi1@)
                    &&& a.pi1.loc() == 0
                    &&& a.pi2.pid() == old(idx).pid_of(self.pi2@)
                    &&& a.pi2.loc() == 0
                    &&& a.po.pid() == old(idx).pid_of(self.po@)
                    &&& a.op == (SSAdd {  })
                    &&& final(idx).senders_at(a.po.pid() as int) == old(idx).senders_at(
                        a.po.pid() as int,
                    ) + 1
                    &&& forall|i: int|
                        0 <= i < final(idx).n() && i != a.po.pid() ==> #[trigger] final(idx).senders_at(i) == old(idx).senders_at(i)
                    &&& a.wf(final(idx).model())
                },
                Err(e) => {
                    &&& forall|i: int|
                        0 <= i < final(idx).n() ==> #[trigger] final(idx).senders_at(i) == old(idx).senders_at(i)
                    &&& e == self.build_err(*old(idx))
                    &&& !self.build_ok(*old(idx))
                },
            },
    {
        let t1 = match idx.ask(&self.pi1) {
            Ok(t) => t,
            Err(e) => {
                return Err(e);
            },
        };
        let t2 = match idx.ask(&self.pi2) {
            Ok(t) => t,
            Err(e) => {
                return Err(e);
            },
        };
        let to = match idx.ask(&self.po) {
            Ok(t) => t,
            Err(e) => {
                return Err(e);
            },
        };
        if t1 == TypeTag::Str && t2 == TypeTag::Str && to == TypeTag::Str {
            proof {
                assert(y_build_ok::<SSAdd>(*old(idx), self.pi1@, self.pi2@, self.po@));
            }
            return SSAdd::build(self.pi1, self.pi2, self.po, idx);
        }
        Err(BuildError::Unsupported)
    }
}

impl AgentPrecursor for AddPrecursor {
    fn deduct(&self, idx: &mut PipeTypeIndex) -> (r: Result<(), BuildError>) {
        AddPrecursor::deduct(self, idx)
    }

    fn build(self, idx: &mut PipeIndex) -> (r: Result<Agent, BuildError>) {
        match AddPrecursor::build(self, idx) {
            Ok(a) => Ok(Agent::SSAdd(a)),
            Err(e) => Err(e),
        }
    }
}

} // verus!
