//! The argument-ingestion agent.
//!
//! Before the rest of the graph can do anything useful, this agent puts
//! the external argument list on two reserved pipes: the count pipe `#`
//! carries the number of arguments once, the value pipe `@` carries one
//! string element per argument.  The core treats both like any other
//! pipe.

use vstd::prelude::*;
use crate::channel::PipeSender;
use crate::controller::Agent;
use crate::deduct::{
    drop_sender_at, push_at, require_map, AgentPrecursor, PipeIndex, PipeModel, PipeTypeIndex,
};
use crate::elem::{ElemView, TypeTag};
use crate::BuildError;

verus! {

/// Feeds the argument count into `#` and each argument into `@`, one per
/// step, then stops progressing.
pub struct CliArgAgent {
    /// The number of arguments (sent once, on the first step).
    pub argc: usize,
    /// The arguments themselves.
    pub argv: Vec<String>,
    /// Producer handle on the count pipe.
    pub pc: PipeSender<usize>,
    /// Producer handle on the value pipe.
    pub pv: PipeSender<String>,
    /// How many arguments have been sent so far.
    pub loc: usize,
}

impl CliArgAgent {
    /// The handles point at pipes of the right types and the cursor is
    /// within the argument list.
    pub open spec fn wf(self, m: Seq<PipeModel>) -> bool {
        &&& (self.pc.pid() as int) < m.len()
        &&& m[self.pc.pid() as int].tag == TypeTag::USize
        &&& (self.pv.pid() as int) < m.len()
        &&& m[self.pv.pid() as int].tag == TypeTag::Str
        &&& self.argc == self.argv@.len()
        &&& self.loc <= self.argc
    }

    /// The agent progresses while arguments remain unsent.
    pub open spec fn step_alive(self) -> bool {
        self.loc < self.argc
    }

    /// The cursor after one step.
    pub open spec fn step_loc(self) -> nat {
        if self.loc < self.argc {
            (self.loc + 1) as nat
        } else {
            self.loc as nat
        }
    }

    /// The pipes after one step: the count goes out on the very first
    /// step, and one argument goes out per step while any remain.
    pub open spec fn step_pipes(self, m: Seq<PipeModel>) -> Seq<PipeModel> {
        let m1 = if self.loc == 0 {
            push_at(m, self.pc.pid() as int, ElemView::USize(self.argc))
        } else {
            m
        };
        if self.loc < self.argc {
            push_at(m1, self.pv.pid() as int, ElemView::Str(self.argv@[self.loc as int]@))
        } else {
            m1
        }
    }

    /// One scheduling step: send the count first, then one argument per
    /// step; report no further progress once all arguments are out.
    pub fn step(&mut self, idx: &mut PipeIndex) -> (b: bool)
        requires
            old(idx).wf(),
            old(self).wf(old(idx).model()),
        ensures
            final(idx).wf(),
            final(idx).keys@ == old(idx).keys@,
            final(idx).model() == old(self).step_pipes(old(idx).model()),
            b == old(self).step_alive(),
            final(self).loc == old(self).step_loc(),
            final(self).argc == old(self).argc,
            final(self).argv == old(self).argv,
            final(self).pc == old(self).pc,
            final(self).pv == old(self).pv,
            final(self).wf(final(idx).model()),
    {
        let ghost m0 = old(idx).model();
        if self.loc == 0 {
            idx.send::<usize>(&self.pc, self.argc);
            proof {
                assert(idx.model() =~= push_at(m0, self.pc.pid() as int, ElemView::USize(
                    self.argc,
                )));
            }
        }
        let ghost m1 = idx.model();
        if self.loc < self.argc {
            let v = self.argv[self.loc].clone();
            idx.send::<String>(&self.pv, v);
            self.loc = self.loc + 1;
            proof {
                assert(idx.model() =~= push_at(m1, self.pv.pid() as int, ElemView::Str(
                    old(self).argv@[old(self).loc as int]@,
                )));
            }
            true
        } else {
            proof {
                assert(idx.model() =~= old(self).step_pipes(m0));
            }
            false
        }
    }

    /// Permanent teardown: give up both producer handles, which lets
    /// downstream consumers of `#` and `@` observe exhaustion.
    pub fn release(self, idx: &mut PipeIndex)
        requires
            old(idx).wf(),
            (self.pc.pid() as int) < old(idx).n(),
            (self.pv.pid() as int) < old(idx).n(),
        ensures
            final(idx).wf(),
            final(idx).keys@ == old(idx).keys@,
            final(idx).n() == old(idx).n(),
            final(idx).model() == drop_sender_at(
                drop_sender_at(old(idx).model(), self.pc.pid() as int),
                self.pv.pid() as int,
            ),
    {
        let ghost m0 = old(idx).model();
        idx.release_sender(self.pc);
        proof {
            assert(idx.model() =~= drop_sender_at(m0, self.pc.pid() as int));
        }
        let ghost m1 = idx.model();
        idx.release_sender(self.pv);
        proof {
            assert(idx.model() =~= drop_sender_at(m1, self.pv.pid() as int));
        }
    }
}

/// The build-time description of the argument-ingestion agent.
pub struct CliArgAgentPrecursor {
    /// The external arguments to feed in.
    pub args: Vec<String>,
}

impl CliArgAgentPrecursor {
    /// Describe the argument-ingestion agent for these arguments.
    pub fn new(args: Vec<String>) -> (r: Self)
        ensures
            r.args == args,
    {
        CliArgAgentPrecursor { args }
    }

    /// The effect of one constraint pass: `#` must be a counter, `@` a
    /// string pipe.
    pub open spec fn deduct_map(self, m: Map<Seq<char>, TypeTag>) -> (
        Map<Seq<char>, TypeTag>,
        bool,
    ) {
        let p1 = require_map(m, "#"@, TypeTag::USize);
        let p2 = require_map(p1.0, "@"@, TypeTag::Str);
        ((if p1.1 {
            p2.0
        } else {
            p1.0
        }), p1.1 && p2.1)
    }

    /// Whether a frozen pool lets this precursor build.
    pub open spec fn builds(self, idx: PipeIndex) -> bool {
        &&& idx.pid_of("#"@) >= 0
        &&& idx.tag_at(idx.pid_of("#"@)) == TypeTag::USize
        &&& idx.pid_of("@"@) >= 0
        &&& idx.tag_at(idx.pid_of("@"@)) == TypeTag::Str
    }

    /// The failure a build over `idx` reports, in resolution order.
    pub open spec fn build_failure(self, idx: PipeIndex) -> BuildError {
        if idx.pid_of("#"@) == -1 {
            BuildError::Unresolved
        } else if idx.tag_at(idx.pid_of("#"@)) != TypeTag::USize {
            BuildError::TypeConflict
        } else if idx.pid_of("@"@) == -1 {
            BuildError::Unresolved
        } else {
            BuildError::TypeConflict
        }
    }

    /// Contribute this precursor's constraints on the reserved keys.
    pub fn deduct(&self, idx: &mut PipeTypeIndex) -> (r: Result<(), BuildError>)
        requires
            old(idx).wf(),
        ensures
            final(idx).wf(),
            (final(idx).model(), r is Ok) == self.deduct_map(old(idx).model()),
            r is Err ==> r == Err::<(), BuildError>(BuildError::TypeConflict),
            final(idx).concrete_count >= old(idx).concrete_count,
    {
        let kc: String = "#".to_owned();
        let kv: String = "@".to_owned();
        let r1 = idx.require::<usize>(&kc);
        match r1 {
            Ok(_) => {},
            Err(e) => {
                return Err(e);
            },
        }
        let r2 = idx.require::<String>(&kv);
        match r2 {
            Ok(_) => {},
            Err(e) => {
                return Err(e);
            },
        }
        Ok(())
    }

    /// Materialize the argument-ingestion agent over the frozen index.
    pub fn build(self, idx: &mut PipeIndex) -> (r: Result<CliArgAgent, BuildError>)
        requires
            old(idx).wf(),
            forall|i: int| 0 <= i < old(idx).n() ==> old(idx).senders_at(i) + 1 < usize::MAX,
        ensures
            final(idx).wf(),
            final(idx).keys@ == old(idx).keys@,
            final(idx).n() == old(idx).n(),
            forall|i: int|
                0 <= i < final(idx).n() ==> #[trigger] final(idx).tag_at(i) == old(idx).tag_at(i)
                    && final(idx).queue_at(i) == old(idx).queue_at(i),
            forall|i: int|
                0 <= i < final(idx).n() ==> old(idx).senders_at(i) <= #[trigger] final(idx).senders_at(i) <= old(idx).senders_at(i) + 2,
            match r {
                Ok(a) => {
                    &&& self.builds(*old(idx))
                    &&& a.pc.pid() == old(idx).pid_of("#"@)
                    &&& a.pv.pid() == old(idx).pid_of("@"@)
                    &&& a.argc == self.args@.len()
                    &&& a.argv == self.args
                    &&& a.loc == 0
                    &&& a.wf(final(idx).model())
                },
                Err(e) => {
                    &&& forall|i: int|
                        0 <= i < final(idx).n() ==> #[trigger] final(idx).senders_at(i) == old(idx).senders_at(i)
                    &&& e == self.build_failure(*old(idx))
                    &&& !self.builds(*old(idx))
                },
            },
    {
        proof {
            old(idx).pid_range("#"@);
            old(idx).pid_range("@"@);
        }
        let kc: String = "#".to_owned();
        let kv: String = "@".to_owned();
        let pc = match idx.require_sender::<usize>(&kc) {
            Ok(p) => p,
            Err(e) => {
                return Err(e);
            },
        };
        let pv = match idx.require_sender::<String>(&kv) {
            Ok(p) => p,
            Err(e) => {
                idx.release_sender(pc);
                return Err(e);
            },
        };
        let argc = self.args.len();
        Ok(CliArgAgent { argc, argv: self.args, pc, pv, loc: 0 })
    }
}

impl AgentPrecursor for CliArgAgentPrecursor {
    fn deduct(&self, idx: &mut PipeTypeIndex) -> (r: Result<(), BuildError>) {
        CliArgAgentPrecursor::deduct(self, idx)
    }

    fn build(self, idx: &mut PipeIndex) -> (r: Result<Agent, BuildError>) {
        match CliArgAgentPrecursor::build(self, idx) {
            Ok(a) => Ok(Agent::CliArg(a)),
            Err(e) => Err(e),
        }
    }
}

} // verus!
