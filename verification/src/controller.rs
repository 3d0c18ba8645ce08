//! Build orchestration and the runtime executor.
//!
//! A `Builder` collects precursors, runs the deduction fixpoint to
//! completion, freezes the pipe index, and materializes every precursor
//! into an agent; the `Executor` owns the resulting pipe pool and agent
//! set and advances the whole system one global tick at a time until no
//! agent can make further progress.

use vstd::prelude::*;
use vstd::set_lib::lemma_len_union;
use crate::cli_arg::{CliArgAgent, CliArgAgentPrecursor};
use crate::deduct::{
    drop_sender_at, find_key, AgentPrecursor, PipeIndex, PipeModel, PipeTypeIndex,
};
use crate::elem::TypeTag;
use crate::operator::add::{AddPrecursor, SAppend, SSAdd};
use crate::operator::delete::{Delete, DeletePrecursor};
use crate::operator::load::Load;
use crate::operator::stdio::SxPrintf;
use crate::operator::{IAgent, IPrecursor, YAgent, YPrecursor};
use crate::BuildError;

verus! {

/// One live runtime unit: an operator instance paired with its resolved
/// handles.  The set of agent kinds is the closed set of operator
/// instantiations the build phase can produce.
pub enum Agent {
    /// The argument-ingestion agent.
    CliArg(CliArgAgent),
    /// String concatenation over two string pipes.
    SSAdd(YAgent<SSAdd>),
    /// Literal appending over one string pipe.
    Append(IAgent<SAppend>),
    /// Immediate replication triggered by a unit pipe.
    LoadStr(IAgent<Load<String>>),
    /// Print-and-forward over one string pipe.
    Printf(IAgent<SxPrintf>),
    /// Discard a counter pipe into a unit pipe.
    Delete(IAgent<Delete<usize>>),
}

/// Whether an agent's handles point at pipes of its operator's types.
pub open spec fn agent_wf(a: Agent, m: Seq<PipeModel>) -> bool {
    match a {
        Agent::CliArg(x) => x.wf(m),
        Agent::SSAdd(x) => x.wf(m),
        Agent::Append(x) => x.wf(m),
        Agent::LoadStr(x) => x.wf(m),
        Agent::Printf(x) => x.wf(m),
        Agent::Delete(x) => x.wf(m),
    }
}

/// Whether an agent stepped on pipes `m` would still progress.
pub open spec fn agent_alive(a: Agent, m: Seq<PipeModel>) -> bool {
    match a {
        Agent::CliArg(x) => x.step_alive(),
        Agent::SSAdd(x) => x.step_alive(m),
        Agent::Append(x) => x.step_alive(m),
        Agent::LoadStr(x) => x.step_alive(m),
        Agent::Printf(x) => x.step_alive(m),
        Agent::Delete(x) => x.step_alive(m),
    }
}

/// The pipes after one step of this agent.
pub open spec fn agent_step_pipes(a: Agent, m: Seq<PipeModel>) -> Seq<PipeModel> {
    match a {
        Agent::CliArg(x) => x.step_pipes(m),
        Agent::SSAdd(x) => x.step_pipes(m),
        Agent::Append(x) => x.step_pipes(m),
        Agent::LoadStr(x) => x.step_pipes(m),
        Agent::Printf(x) => x.step_pipes(m),
        Agent::Delete(x) => x.step_pipes(m),
    }
}

/// The pipes after a no-longer-progressing agent gives its producer
/// handles up.
pub open spec fn agent_release_pipes(a: Agent, m: Seq<PipeModel>) -> Seq<PipeModel> {
    match a {
        Agent::CliArg(x) => drop_sender_at(
            drop_sender_at(m, x.pc.pid() as int),
            x.pv.pid() as int,
        ),
        Agent::SSAdd(x) => drop_sender_at(m, x.po.pid() as int),
        Agent::Append(x) => drop_sender_at(m, x.po.pid() as int),
        Agent::LoadStr(x) => drop_sender_at(m, x.po.pid() as int),
        Agent::Printf(x) => drop_sender_at(m, x.po.pid() as int),
        Agent::Delete(x) => drop_sender_at(m, x.po.pid() as int),
    }
}

/// Whether `a1` is `a0` after one step on pipes `m`: the same operator
/// and handles, with the input cursors advanced as the step dictates.
pub open spec fn agent_stepped(a0: Agent, m: Seq<PipeModel>, a1: Agent) -> bool {
    match (a0, a1) {
        (Agent::CliArg(x0), Agent::CliArg(x1)) => {
            &&& x1.pc == x0.pc
            &&& x1.pv == x0.pv
            &&& x1.argv == x0.argv
            &&& x1.argc == x0.argc
            &&& x1.loc == x0.step_loc()
        },
        (Agent::SSAdd(x0), Agent::SSAdd(x1)) => {
            &&& x1.po == x0.po
            &&& x1.op == x0.op
            &&& x1.pi1.pid() == x0.pi1.pid()
            &&& x1.pi2.pid() == x0.pi2.pid()
            &&& x1.pi1.loc() == x0.step_loc1(m)
            &&& x1.pi2.loc() == x0.step_loc2(m)
        },
        (Agent::Append(x0), Agent::Append(x1)) => {
            &&& x1.po == x0.po
            &&& x1.op == x0.op
            &&& x1.pi.pid() == x0.pi.pid()
            &&& x1.pi.loc() == x0.step_loc(m)
        },
        (Agent::LoadStr(x0), Agent::LoadStr(x1)) => {
            &&& x1.po == x0.po
            &&& x1.op == x0.op
            &&& x1.pi.pid() == x0.pi.pid()
            &&& x1.pi.loc() == x0.step_loc(m)
        },
        (Agent::Printf(x0), Agent::Printf(x1)) => {
            &&& x1.po == x0.po
            &&& x1.op == x0.op
            &&& x1.pi.pid() == x0.pi.pid()
            &&& x1.pi.loc() == x0.step_loc(m)
        },
        (Agent::Delete(x0), Agent::Delete(x1)) => {
            &&& x1.po == x0.po
            &&& x1.op == x0.op
            &&& x1.pi.pid() == x0.pi.pid()
            &&& x1.pi.loc() == x0.step_loc(m)
        },
        _ => false,
    }
}

impl Agent {
    /// One scheduling step: dies permanently once a required input can
    /// never produce again, fires when every required input has an unread
    /// element, waits otherwise.
    pub fn step(&mut self, idx: &mut PipeIndex) -> (b: bool)
        requires
            old(idx).wf(),
            agent_wf(*old(self), old(idx).model()),
        ensures
            final(idx).wf(),
            final(idx).keys@ == old(idx).keys@,
            final(idx).n() == old(idx).n(),
            forall|i: int|
                0 <= i < final(idx).n() ==> #[trigger] final(idx).tag_at(i) == old(idx).tag_at(i),
            final(idx).model() == agent_step_pipes(*old(self), old(idx).model()),
            b == agent_alive(*old(self), old(idx).model()),
            agent_wf(*final(self), final(idx).model()),
            agent_stepped(*old(self), old(idx).model(), *final(self)),
            agent_release_pipes(*final(self), final(idx).model()) == agent_release_pipes(
                *old(self),
                final(idx).model(),
            ),
    {
        let ghost m0 = old(idx).model();
        let b = match self {
            Agent::CliArg(x) => x.step(idx),
            Agent::SSAdd(x) => x.step(idx),
            Agent::Append(x) => x.step(idx),
            Agent::LoadStr(x) => x.step(idx),
            Agent::Printf(x) => x.step(idx),
            Agent::Delete(x) => x.step(idx),
        };
        proof {
            assert forall|i: int| 0 <= i < idx.n() implies #[trigger] idx.tag_at(i) == old(idx).tag_at(i) by {
                assert(idx.model()[i].tag == idx.tag_at(i));
                assert(m0[i].tag == old(idx).tag_at(i));
            }
        }
        b
    }

    /// Permanent teardown of a no-longer-progressing agent: give up its
    /// producer handles, which propagates liveness downstream.
    pub fn release(self, idx: &mut PipeIndex)
        requires
            old(idx).wf(),
            agent_wf(self, old(idx).model()),
        ensures
            final(idx).wf(),
            final(idx).keys@ == old(idx).keys@,
            final(idx).n() == old(idx).n(),
            forall|i: int|
                0 <= i < final(idx).n() ==> #[trigger] final(idx).tag_at(i) == old(idx).tag_at(i),
            final(idx).model() == agent_release_pipes(self, old(idx).model()),
    {
        let ghost m0 = old(idx).model();
        match self {
            Agent::CliArg(x) => {
                x.release(idx);
            },
            Agent::SSAdd(x) => {
                x.release(idx);
                proof {
                    assert(idx.model() =~= drop_sender_at(m0, x.po.pid() as int));
                }
            },
            Agent::Append(x) => {
                x.release(idx);
                proof {
                    assert(idx.model() =~= drop_sender_at(m0, x.po.pid() as int));
                }
            },
            Agent::LoadStr(x) => {
                x.release(idx);
                proof {
                    assert(idx.model() =~= drop_sender_at(m0, x.po.pid() as int));
                }
            },
            Agent::Printf(x) => {
                x.release(idx);
                proof {
                    assert(idx.model() =~= drop_sender_at(m0, x.po.pid() as int));
                }
            },
            Agent::Delete(x) => {
                x.release(idx);
                proof {
                    assert(idx.model() =~= drop_sender_at(m0, x.po.pid() as int));
                }
            },
        }
        proof {
            assert forall|i: int| 0 <= i < idx.n() implies #[trigger] idx.tag_at(i) == old(idx).tag_at(i) by {
                assert(idx.model()[i].tag == idx.tag_at(i));
                assert(m0[i].tag == old(idx).tag_at(i));
            }
        }
    }
}

/// The build-time description of one future agent: the closed set of
/// precursor kinds the instruction set can produce.
pub enum Precursor {
    /// The argument-ingestion precursor.
    CliArg(CliArgAgentPrecursor),
    /// An addition instruction.
    Add(AddPrecursor),
    /// A literal-appending instruction.
    Append(IPrecursor<SAppend>),
    /// A string-load instruction.
    LoadStr(IPrecursor<Load<String>>),
    /// A print instruction.
    Printf(IPrecursor<SxPrintf>),
    /// A delete instruction.
    Delete(DeletePrecursor),
}

impl Precursor {
    /// The effect of one constraint-contribution pass on a mapping.
    pub open spec fn deduct_map(self, m: Map<Seq<char>, TypeTag>) -> (
        Map<Seq<char>, TypeTag>,
        bool,
    ) {
        match self {
            Precursor::CliArg(p) => p.deduct_map(m),
            Precursor::Add(p) => p.deduct_map(m),
            Precursor::Append(p) => p.deduct_map(m),
            Precursor::LoadStr(p) => p.deduct_map(m),
            Precursor::Printf(p) => p.deduct_map(m),
            Precursor::Delete(p) => p.deduct_map(m),
        }
    }

    /// The keys one pass of this precursor may bind.
    pub open spec fn key_list(self) -> Seq<Seq<char>> {
        match self {
            Precursor::CliArg(_) => seq!["#"@, "@"@],
            Precursor::Add(p) => seq![p.po@],
            Precursor::Append(p) => seq![p.pi@, p.po@],
            Precursor::LoadStr(p) => seq![p.pi@, p.po@],
            Precursor::Printf(p) => seq![p.pi@, p.po@],
            Precursor::Delete(p) => seq![p.po@],
        }
    }

    /// Whether a pool with these keys and types lets this precursor
    /// build.
    pub open spec fn builds_kt(self, keys: Seq<String>, tags: Seq<TypeTag>) -> bool {
        match self {
            Precursor::CliArg(_) => {
                &&& find_key(keys, "#"@) >= 0
                &&& tags[find_key(keys, "#"@)] == TypeTag::USize
                &&& find_key(keys, "@"@) >= 0
                &&& tags[find_key(keys, "@"@)] == TypeTag::Str
            },
            Precursor::Add(p) => {
                &&& find_key(keys, p.pi1@) >= 0
                &&& find_key(keys, p.pi2@) >= 0
                &&& find_key(keys, p.po@) >= 0
                &&& tags[find_key(keys, p.pi1@)] == TypeTag::Str
                &&& tags[find_key(keys, p.pi2@)] == TypeTag::Str
                &&& tags[find_key(keys, p.po@)] == TypeTag::Str
            },
            Precursor::Append(p) => {
                &&& find_key(keys, p.pi@) >= 0
                &&& tags[find_key(keys, p.pi@)] == TypeTag::Str
                &&& find_key(keys, p.po@) >= 0
                &&& tags[find_key(keys, p.po@)] == TypeTag::Str
            },
            Precursor::LoadStr(p) => {
                &&& find_key(keys, p.pi@) >= 0
                &&& tags[find_key(keys, p.pi@)] == TypeTag::Unit
                &&& find_key(keys, p.po@) >= 0
                &&& tags[find_key(keys, p.po@)] == TypeTag::Str
            },
            Precursor::Printf(p) => {
                &&& find_key(keys, p.pi@) >= 0
                &&& tags[find_key(keys, p.pi@)] == TypeTag::Str
                &&& find_key(keys, p.po@) >= 0
                &&& tags[find_key(keys, p.po@)] == TypeTag::Str
            },
            Precursor::Delete(p) => {
                &&& find_key(keys, p.pi@) >= 0
                &&& tags[find_key(keys, p.pi@)] == TypeTag::USize
                &&& find_key(keys, p.po@) >= 0
                &&& tags[find_key(keys, p.po@)] == TypeTag::Unit
            },
        }
    }

    /// The failure a build over such a pool reports, in each precursor's
    /// own resolution order.
    pub open spec fn build_failure_kt(self, keys: Seq<String>, tags: Seq<TypeTag>) -> BuildError {
        match self {
            Precursor::CliArg(_) => {
                if find_key(keys, "#"@) == -1 {
                    BuildError::Unresolved
                } else if tags[find_key(keys, "#"@)] != TypeTag::USize {
                    BuildError::TypeConflict
                } else if find_key(keys, "@"@) == -1 {
                    BuildError::Unresolved
                } else {
                    BuildError::TypeConflict
                }
            },
            Precursor::Add(p) => {
                if find_key(keys, p.pi1@) == -1 || find_key(keys, p.pi2@) == -1 || find_key(
                    keys,
                    p.po@,
                ) == -1 {
                    BuildError::Unresolved
                } else {
                    BuildError::Unsupported
                }
            },
            Precursor::Append(p) => {
                if find_key(keys, p.pi@) == -1 {
                    BuildError::Unresolved
                } else if tags[find_key(keys, p.pi@)] != TypeTag::Str {
                    BuildError::TypeConflict
                } else if find_key(keys, p.po@) == -1 {
                    BuildError::Unresolved
                } else {
                    BuildError::TypeConflict
                }
            },
            Precursor::LoadStr(p) => {
                if find_key(keys, p.pi@) == -1 {
                    BuildError::Unresolved
                } else if tags[find_key(keys, p.pi@)] != TypeTag::Unit {
                    BuildError::TypeConflict
                } else if find_key(keys, p.po@) == -1 {
                    BuildError::Unresolved
                } else {
                    BuildError::TypeConflict
                }
            },
            Precursor::Printf(p) => {
                if find_key(keys, p.pi@) == -1 {
                    BuildError::Unresolved
                } else if tags[find_key(keys, p.pi@)] != TypeTag::Str {
                    BuildError::TypeConflict
                } else if find_key(keys, p.po@) == -1 {
                    BuildError::Unresolved
                } else {
                    BuildError::TypeConflict
                }
            },
            Precursor::Delete(p) => {
                if find_key(keys, p.pi@) == -1 {
                    BuildError::Unresolved
                } else if tags[find_key(keys, p.pi@)] != TypeTag::USize {
                    BuildError::Unsupported
                } else if find_key(keys, p.po@) == -1 {
                    BuildError::Unresolved
                } else {
                    BuildError::TypeConflict
                }
            },
        }
    }

    /// One pass of this precursor only grows the mapping, and only by
    /// its own keys.
    pub proof fn lemma_deduct_map(self, m: Map<Seq<char>, TypeTag>)
        requires
            m.dom().finite(),
        ensures
            m.submap_of(self.deduct_map(m).0),
            self.deduct_map(m).0.dom().subset_of(m.dom().union(self.key_list().to_set())),
            self.deduct_map(m).0.dom().finite(),
    {
        broadcast use vstd::map_lib::lemma_submap_of_trans;

        match self {
            Precursor::CliArg(p) => {
                let p1 = crate::deduct::require_map(m, "#"@, TypeTag::USize);
                crate::deduct::lemma_require_map(m, "#"@, TypeTag::USize);
                crate::deduct::lemma_require_map(p1.0, "@"@, TypeTag::Str);
                assert(self.key_list()[0] == "#"@ && self.key_list()[1] == "@"@);
                assert(self.key_list().to_set().contains("#"@));
                assert(self.key_list().to_set().contains("@"@));
            },
            Precursor::Add(p) => {
                crate::deduct::lemma_require_map(m, p.po@, TypeTag::Str);
                assert(self.key_list()[0] == p.po@);
                assert(self.key_list().to_set().contains(p.po@));
            },
            Precursor::Append(p) => {
                let p1 = crate::deduct::require_map(m, p.pi@, TypeTag::Str);
                crate::deduct::lemma_require_map(m, p.pi@, TypeTag::Str);
                crate::deduct::lemma_require_map(p1.0, p.po@, TypeTag::Str);
                assert(self.key_list()[0] == p.pi@ && self.key_list()[1] == p.po@);
                assert(self.key_list().to_set().contains(p.pi@));
                assert(self.key_list().to_set().contains(p.po@));
            },
            Precursor::LoadStr(p) => {
                let p1 = crate::deduct::require_map(m, p.pi@, TypeTag::Unit);
                crate::deduct::lemma_require_map(m, p.pi@, TypeTag::Unit);
                crate::deduct::lemma_require_map(p1.0, p.po@, TypeTag::Str);
                assert(self.key_list()[0] == p.pi@ && self.key_list()[1] == p.po@);
                assert(self.key_list().to_set().contains(p.pi@));
                assert(self.key_list().to_set().contains(p.po@));
            },
            Precursor::Printf(p) => {
                let p1 = crate::deduct::require_map(m, p.pi@, TypeTag::Str);
                crate::deduct::lemma_require_map(m, p.pi@, TypeTag::Str);
                crate::deduct::lemma_require_map(p1.0, p.po@, TypeTag::Str);
                assert(self.key_list()[0] == p.pi@ && self.key_list()[1] == p.po@);
                assert(self.key_list().to_set().contains(p.pi@));
                assert(self.key_list().to_set().contains(p.po@));
            },
            Precursor::Delete(p) => {
                crate::deduct::lemma_require_map(m, p.po@, TypeTag::Unit);
                assert(self.key_list()[0] == p.po@);
                assert(self.key_list().to_set().contains(p.po@));
            },
        }
    }

    /// Contribute this precursor's type constraints to the index.
    pub fn deduct(&self, idx: &mut PipeTypeIndex) -> (r: Result<(), BuildError>)
        requires
            old(idx).wf(),
        ensures
            final(idx).wf(),
            (final(idx).model(), r is Ok) == self.deduct_map(old(idx).model()),
            r is Err ==> r == Err::<(), BuildError>(BuildError::TypeConflict),
            final(idx).concrete_count >= old(idx).concrete_count,
    {
        match self {
            Precursor::CliArg(p) => p.deduct(idx),
            Precursor::Add(p) => p.deduct(idx),
            Precursor::Append(p) => p.deduct(idx),
            Precursor::LoadStr(p) => p.deduct(idx),
            Precursor::Printf(p) => p.deduct(idx),
            Precursor::Delete(p) => p.deduct(idx),
        }
    }

    /// Materialize this precursor into an agent over the frozen index.
    pub fn build(self, idx: &mut PipeIndex) -> (r: Result<Agent, BuildError>)
        requires
            old(idx).wf(),
            forall|i: int| 0 <= i < old(idx).n() ==> old(idx).senders_at(i) + 1 < usize::MAX,
        ensures
            final(idx).wf(),
            final(idx).keys@ == old(idx).keys@,
            final(idx).n() == old(idx).n(),
            forall|i: int|
                0 <= i < final(idx).n() ==> #[trigger] final(idx).tag_at(i) == old(idx).tag_at(i)
                    && final(idx).queue_at(i) == old(idx).queue_at(i),
            forall|i: int|
                0 <= i < final(idx).n() ==> old(idx).senders_at(i) <= #[trigger] final(idx).senders_at(i) <= old(idx).senders_at(i) + 2,
            match r {
                Ok(a) => {
                    &&& self.builds_kt(old(idx).keys@, old(idx).tag_seq())
                    &&& agent_wf(a, final(idx).model())
                },
                Err(e) => {
                    &&& forall|i: int|
                        0 <= i < final(idx).n() ==> #[trigger] final(idx).senders_at(i) == old(idx).senders_at(i)
                    &&& e == self.build_failure_kt(old(idx).keys@, old(idx).tag_seq())
                    &&& !self.builds_kt(old(idx).keys@, old(idx).tag_seq())
                },
            },
    {
        proof {
            lemma_build_kt_agrees(self, *old(idx));
        }
        match self {
            Precursor::CliArg(p) => {
                match p.build(idx) {
                    Ok(a) => Ok(Agent::CliArg(a)),
                    Err(e) => Err(e),
                }
            },
            Precursor::Add(p) => {
                match p.build(idx) {
                    Ok(a) => Ok(Agent::SSAdd(a)),
                    Err(e) => Err(e),
                }
            },
            Precursor::Append(p) => {
                match p.build(idx) {
                    Ok(a) => Ok(Agent::Append(a)),
                    Err(e) => Err(e),
                }
            },
            Precursor::LoadStr(p) => {
                match p.build(idx) {
                    Ok(a) => Ok(Agent::LoadStr(a)),
                    Err(e) => Err(e),
                }
            },
            Precursor::Printf(p) => {
                match p.build(idx) {
                    Ok(a) => Ok(Agent::Printf(a)),
                    Err(e) => Err(e),
                }
            },
            Precursor::Delete(p) => {
                match p.build(idx) {
                    Ok(a) => Ok(Agent::Delete(a)),
                    Err(e) => Err(e),
                }
            },
        }
    }
}

/// Each precursor judges a pool the same way whether the pool is given
/// as a value or as its key and type columns.
pub proof fn lemma_build_kt_agrees(p: Precursor, idx: PipeIndex)
    requires
        idx.wf(),
    ensures
        match p {
            Precursor::CliArg(q) => q.builds(idx) == p.builds_kt(idx.keys@, idx.tag_seq()) && (
            !q.builds(idx) ==> q.build_failure(idx) == p.build_failure_kt(
                idx.keys@,
                idx.tag_seq(),
            )),
            Precursor::Add(q) => q.build_ok(idx) == p.builds_kt(idx.keys@, idx.tag_seq()) && (
            !q.build_ok(idx) ==> q.build_err(idx) == p.build_failure_kt(
                idx.keys@,
                idx.tag_seq(),
            )),
            Precursor::Append(q) => crate::operator::i_build_ok::<SAppend>(
                idx,
                q.pi@,
                q.imm@,
                q.po@,
            ) == p.builds_kt(idx.keys@, idx.tag_seq()) && (!crate::operator::i_build_ok::<
                SAppend,
            >(idx, q.pi@, q.imm@, q.po@) ==> crate::operator::i_build_err::<SAppend>(
                idx,
                q.pi@,
                q.imm@,
                q.po@,
            ) == p.build_failure_kt(idx.keys@, idx.tag_seq())),
            Precursor::LoadStr(q) => crate::operator::i_build_ok::<Load<String>>(
                idx,
                q.pi@,
                q.imm@,
                q.po@,
            ) == p.builds_kt(idx.keys@, idx.tag_seq()) && (!crate::operator::i_build_ok::<
                Load<String>,
            >(idx, q.pi@, q.imm@, q.po@) ==> crate::operator::i_build_err::<Load<String>>(
                idx,
                q.pi@,
                q.imm@,
                q.po@,
            ) == p.build_failure_kt(idx.keys@, idx.tag_seq())),
            Precursor::Printf(q) => crate::operator::i_build_ok::<SxPrintf>(
                idx,
                q.pi@,
                q.imm@,
                q.po@,
            ) == p.builds_kt(idx.keys@, idx.tag_seq()) && (!crate::operator::i_build_ok::<
                SxPrintf,
            >(idx, q.pi@, q.imm@, q.po@) ==> crate::operator::i_build_err::<SxPrintf>(
                idx,
                q.pi@,
                q.imm@,
                q.po@,
            ) == p.build_failure_kt(idx.keys@, idx.tag_seq())),
            Precursor::Delete(q) => q.build_ok(idx) == p.builds_kt(idx.keys@, idx.tag_seq()) && (
            !q.build_ok(idx) ==> q.build_err(idx) == p.build_failure_kt(
                idx.keys@,
                idx.tag_seq(),
            )),
        },
{
    match p {
        Precursor::CliArg(q) => {
            crate::deduct::lemma_find_key(idx.keys@, "#"@);
            crate::deduct::lemma_find_key(idx.keys@, "@"@);
        },
        Precursor::Add(q) => {
            crate::deduct::lemma_find_key(idx.keys@, q.pi1@);
            crate::deduct::lemma_find_key(idx.keys@, q.pi2@);
            crate::deduct::lemma_find_key(idx.keys@, q.po@);
        },
        Precursor::Append(q) => {
            crate::deduct::lemma_find_key(idx.keys@, q.pi@);
            crate::deduct::lemma_find_key(idx.keys@, q.po@);
            assert(<String as crate::elem::ElemValue>::tag() == TypeTag::Str);
            assert(<SAppend as crate::operator::IOp>::accepts(q.imm@));
        },
        Precursor::LoadStr(q) => {
            crate::deduct::lemma_find_key(idx.keys@, q.pi@);
            crate::deduct::lemma_find_key(idx.keys@, q.po@);
            assert(<() as crate::elem::ElemValue>::tag() == TypeTag::Unit);
            assert(<String as crate::elem::ElemValue>::tag() == TypeTag::Str);
            assert(<Load<String> as crate::operator::IOp>::accepts(q.imm@));
        },
        Precursor::Printf(q) => {
            crate::deduct::lemma_find_key(idx.keys@, q.pi@);
            crate::deduct::lemma_find_key(idx.keys@, q.po@);
            assert(<String as crate::elem::ElemValue>::tag() == TypeTag::Str);
            assert(<SxPrintf as crate::operator::IOp>::accepts(q.imm@));
        },
        Precursor::Delete(q) => {
            crate::deduct::lemma_find_key(idx.keys@, q.pi@);
            crate::deduct::lemma_find_key(idx.keys@, q.po@);
            assert(<usize as crate::elem::ElemValue>::tag() == TypeTag::USize);
            assert(<() as crate::elem::ElemValue>::tag() == TypeTag::Unit);
            assert(<Delete<usize> as crate::operator::IOp>::accepts(Seq::<char>::empty()));
        },
    }
}


/// The effect of one whole pass — every precursor's constraint
/// contribution, in order, stopping at the first conflict.
pub open spec fn pass_map(ps: Seq<Precursor>, i: int, m: Map<Seq<char>, TypeTag>) -> (
    Map<Seq<char>, TypeTag>,
    bool,
)
    decreases ps.len() - i,
{
    if i < 0 || i >= ps.len() {
        (m, true)
    } else {
        let p = ps[i].deduct_map(m);
        if !p.1 {
            (p.0, false)
        } else {
            pass_map(ps, i + 1, p.0)
        }
    }
}

/// Every key any of these precursors can ever bind.
pub open spec fn all_keys(ps: Seq<Precursor>) -> Set<Seq<char>>
    decreases ps.len(),
{
    if ps.len() == 0 {
        Set::<Seq<char>>::empty()
    } else {
        all_keys(ps.drop_last()).union(ps.last().key_list().to_set())
    }
}

/// The keys the precursors can bind form a finite set of at most two per
/// precursor, and each precursor's own keys are among them.
pub proof fn lemma_all_keys(ps: Seq<Precursor>)
    ensures
        all_keys(ps).finite(),
        all_keys(ps).len() <= 2 * ps.len(),
        forall|j: int|
            0 <= j < ps.len() ==> (#[trigger] ps[j].key_list()).to_set().subset_of(all_keys(ps)),
    decreases ps.len(),
{
    broadcast use vstd::seq_lib::group_seq_properties;

    if ps.len() > 0 {
        lemma_all_keys(ps.drop_last());
        ps.last().key_list().lemma_cardinality_of_set();
        assert(ps.last().key_list().len() <= 2) by {
            match ps.last() {
                Precursor::CliArg(_) => {},
                Precursor::Add(_) => {},
                Precursor::Append(_) => {},
                Precursor::LoadStr(_) => {},
                Precursor::Printf(_) => {},
                Precursor::Delete(_) => {},
            }
        }
        lemma_len_union(all_keys(ps.drop_last()), ps.last().key_list().to_set());
        assert(forall|j: int|
            0 <= j < ps.len() - 1 ==> ps.drop_last()[j] == #[trigger] ps[j]);
    }
}

/// A precursor whose pass conflicts on a mapping conflicts on every
/// larger one, and on success its results grow with the mapping.
pub proof fn lemma_deduct_map_monotone(
    p: Precursor,
    m1: Map<Seq<char>, TypeTag>,
    m2: Map<Seq<char>, TypeTag>,
)
    requires
        m1.submap_of(m2),
    ensures
        !p.deduct_map(m1).1 ==> !p.deduct_map(m2).1,
        p.deduct_map(m1).1 && p.deduct_map(m2).1 ==> p.deduct_map(m1).0.submap_of(
            p.deduct_map(m2).0,
        ),
{
    broadcast use vstd::map_lib::lemma_submap_of_trans;

    match p {
        Precursor::CliArg(_) => {
            let a1 = crate::deduct::require_map(m1, "#"@, TypeTag::USize);
            let a2 = crate::deduct::require_map(m2, "#"@, TypeTag::USize);
            crate::deduct::lemma_require_map_monotone(m1, m2, "#"@, TypeTag::USize);
            if a1.1 && a2.1 {
                crate::deduct::lemma_require_map_monotone(a1.0, a2.0, "@"@, TypeTag::Str);
            }
        },
        Precursor::Add(q) => {
            crate::deduct::lemma_require_map_monotone(m1, m2, q.po@, TypeTag::Str);
            crate::deduct::lemma_require_map(m2, q.po@, TypeTag::Str);
            if m1.contains_key(q.pi1@) {
                crate::deduct::lemma_submap_at(m1, m2, q.pi1@);
            }
            if m1.contains_key(q.pi2@) {
                crate::deduct::lemma_submap_at(m1, m2, q.pi2@);
            }
        },
        Precursor::Append(q) => {
            let a1 = crate::deduct::require_map(m1, q.pi@, TypeTag::Str);
            let a2 = crate::deduct::require_map(m2, q.pi@, TypeTag::Str);
            crate::deduct::lemma_require_map_monotone(m1, m2, q.pi@, TypeTag::Str);
            if a1.1 && a2.1 {
                crate::deduct::lemma_require_map_monotone(a1.0, a2.0, q.po@, TypeTag::Str);
            }
        },
        Precursor::LoadStr(q) => {
            let a1 = crate::deduct::require_map(m1, q.pi@, TypeTag::Unit);
            let a2 = crate::deduct::require_map(m2, q.pi@, TypeTag::Unit);
            crate::deduct::lemma_require_map_monotone(m1, m2, q.pi@, TypeTag::Unit);
            if a1.1 && a2.1 {
                crate::deduct::lemma_require_map_monotone(a1.0, a2.0, q.po@, TypeTag::Str);
            }
        },
        Precursor::Printf(q) => {
            let a1 = crate::deduct::require_map(m1, q.pi@, TypeTag::Str);
            let a2 = crate::deduct::require_map(m2, q.pi@, TypeTag::Str);
            crate::deduct::lemma_require_map_monotone(m1, m2, q.pi@, TypeTag::Str);
            if a1.1 && a2.1 {
                crate::deduct::lemma_require_map_monotone(a1.0, a2.0, q.po@, TypeTag::Str);
            }
        },
        Precursor::Delete(q) => {
            crate::deduct::lemma_require_map_monotone(m1, m2, q.po@, TypeTag::Unit);
        },
    }
}

/// A whole pass that conflicts on a mapping conflicts on every larger
/// one.
pub proof fn lemma_pass_map_monotone(
    ps: Seq<Precursor>,
    i: int,
    m1: Map<Seq<char>, TypeTag>,
    m2: Map<Seq<char>, TypeTag>,
)
    requires
        m1.submap_of(m2),
    ensures
        !pass_map(ps, i, m1).1 ==> !pass_map(ps, i, m2).1,
        pass_map(ps, i, m1).1 && pass_map(ps, i, m2).1 ==> pass_map(ps, i, m1).0.submap_of(
            pass_map(ps, i, m2).0,
        ),
    decreases ps.len() - i,
{
    if 0 <= i < ps.len() {
        let p1 = ps[i].deduct_map(m1);
        let p2 = ps[i].deduct_map(m2);
        lemma_deduct_map_monotone(ps[i], m1, m2);
        if p1.1 && p2.1 {
            lemma_pass_map_monotone(ps, i + 1, p1.0, p2.0);
        }
    }
}

/// One whole pass only grows the mapping, and only by the precursors'
/// own keys.
pub proof fn lemma_pass_map(ps: Seq<Precursor>, i: int, m: Map<Seq<char>, TypeTag>)
    requires
        m.dom().finite(),
    ensures
        m.submap_of(pass_map(ps, i, m).0),
        pass_map(ps, i, m).0.dom().subset_of(m.dom().union(all_keys(ps))),
        pass_map(ps, i, m).0.dom().finite(),
    decreases ps.len() - i,
{
    broadcast use vstd::map_lib::lemma_submap_of_trans;

    lemma_all_keys(ps);
    if 0 <= i < ps.len() {
        let p = ps[i].deduct_map(m);
        ps[i].lemma_deduct_map(m);
        if p.1 {
            lemma_pass_map(ps, i + 1, p.0);
        }
    }
}

/// Orchestrates the build phase: collect precursors, run the deduction
/// fixpoint, freeze the pipe index, and materialize every precursor into
/// an agent.
pub struct Builder {
    /// The key-to-type mapping under construction.
    pub idx: PipeTypeIndex,
    /// The precursors collected so far, in arrival order.
    pub precursors: Vec<Precursor>,
}

impl Builder {
    /// Well-formed: the type index is.
    pub open spec fn wf(self) -> bool {
        self.idx.wf()
    }

    /// An empty builder: no bindings, no precursors.
    pub fn new() -> (r: Self)
        ensures
            r.wf(),
            r.idx.model() == Map::<Seq<char>, TypeTag>::empty(),
            r.idx.concrete_count == 0,
            r.precursors@ == Seq::<Precursor>::empty(),
    {
        Builder { idx: PipeTypeIndex::new(), precursors: Vec::new() }
    }

    /// Add one precursor to the future graph.
    pub fn put(&mut self, precursor: Precursor)
        requires
            old(self).wf(),
        ensures
            final(self).wf(),
            final(self).idx == old(self).idx,
            final(self).precursors@ == old(self).precursors@.push(precursor),
    {
        self.precursors.push(precursor);
    }

    /// Run one deduction pass: every precursor contributes its
    /// constraints once.  The pass is productive — the result is `true` —
    /// exactly when the concrete-binding counter rose.
    pub fn deduct_once(&mut self) -> (r: Result<bool, BuildError>)
        requires
            old(self).wf(),
        ensures
            final(self).wf(),
            final(self).precursors == old(self).precursors,
            final(self).idx.concrete_count >= old(self).idx.concrete_count,
            (final(self).idx.model(), r is Ok) == pass_map(
                old(self).precursors@,
                0,
                old(self).idx.model(),
            ),
            r is Ok ==> r->Ok_0 == (final(self).idx.concrete_count > old(
                self,
            ).idx.concrete_count),
            r is Err ==> r == Err::<bool, BuildError>(BuildError::TypeConflict),
    {
        let ghost ps = self.precursors@;
        let ghost m0 = self.idx.model();
        let count_pre = self.idx.concrete_count();
        let n = self.precursors.len();
        let mut i: usize = 0;
        while i < n
            invariant
                self.wf(),
                n == self.precursors@.len(),
                i <= n,
                self.precursors == old(self).precursors,
                self.precursors@ == ps,
                ps == old(self).precursors@,
                m0 == old(self).idx.model(),
                self.idx.concrete_count >= old(self).idx.concrete_count,
                count_pre == old(self).idx.concrete_count,
                pass_map(ps, 0, m0) == pass_map(ps, i as int, self.idx.model()),
            decreases n - i,
        {
            let ghost m_cur = self.idx.model();
            let p = &self.precursors[i];
            let r = p.deduct(&mut self.idx);
            match r {
                Ok(_) => {
                    proof {
                        assert(pass_map(ps, i as int, m_cur) == pass_map(
                            ps,
                            i + 1,
                            self.idx.model(),
                        ));
                    }
                },
                Err(e) => {
                    proof {
                        assert(pass_map(ps, i as int, m_cur) == (self.idx.model(), false));
                    }
                    return Err(e);
                },
            }
            i = i + 1;
        }
        let count_post = self.idx.concrete_count();
        Ok(count_post > count_pre)
    }

    /// Run deduction passes until one is unproductive: the fixpoint.  On
    /// success the final mapping absorbs one more whole pass without
    /// changing, so no further information is derivable.
    pub fn deduct(&mut self) -> (r: Result<(), BuildError>)
        requires
            old(self).wf(),
        ensures
            final(self).wf(),
            final(self).precursors == old(self).precursors,
            final(self).idx.concrete_count >= old(self).idx.concrete_count,
            old(self).idx.model().submap_of(final(self).idx.model()),
            r is Ok ==> pass_map(final(self).precursors@, 0, final(self).idx.model()) == (
                final(self).idx.model(),
                true,
            ),
            r is Err ==> r == Err::<(), BuildError>(BuildError::TypeConflict) && !pass_map(
                final(self).precursors@,
                0,
                final(self).idx.model(),
            ).1,
    {
        let ghost ps = self.precursors@;
        let ghost dom0 = old(self).idx.model().dom();
        proof {
            self.idx.lemma_count_is_dom();
            lemma_all_keys(ps);
        }
        let ghost bound: int = dom0.len() + 2 * ps.len() as int;
        loop
            invariant
                self.wf(),
                self.precursors == old(self).precursors,
                self.precursors@ == ps,
                ps == old(self).precursors@,
                dom0 == old(self).idx.model().dom(),
                self.idx.concrete_count >= old(self).idx.concrete_count,
                old(self).idx.model().submap_of(self.idx.model()),
                self.idx.model().dom().subset_of(dom0.union(all_keys(ps))),
                dom0.finite(),
                bound == dom0.len() + 2 * ps.len() as int,
            decreases bound - self.idx.concrete_count,
        {
            let ghost pre = self.idx;
            let r = self.deduct_once();
            proof {
                broadcast use vstd::map_lib::lemma_submap_of_trans;

                pre.lemma_count_is_dom();
                lemma_pass_map(ps, 0, pre.model());
            }
            match r {
                Ok(productive) => {
                    if !productive {
                        proof {
                            // An unproductive pass changed nothing: the
                            // mapping only grows during a pass, and its
                            // size is the counter, which did not move —
                            // so the mapping is a fixpoint of the pass.
                            self.idx.lemma_count_is_dom();
                            vstd::set_lib::lemma_len_subset(
                                pre.model().dom(),
                                self.idx.model().dom(),
                            );
                            vstd::set_lib::lemma_subset_equality(
                                pre.model().dom(),
                                self.idx.model().dom(),
                            );
                            assert(pre.model() =~= self.idx.model());
                        }
                        return Ok(());
                    }
                    proof {
                        // A productive pass stays under the key budget.
                        self.idx.lemma_count_is_dom();
                        lemma_all_keys(ps);
                        vstd::set_lib::lemma_len_union(dom0, all_keys(ps));
                        vstd::set_lib::lemma_len_subset(
                            self.idx.model().dom(),
                            dom0.union(all_keys(ps)),
                        );
                    }
                },
                Err(e) => {
                    proof {
                        lemma_pass_map_monotone(ps, 0, pre.model(), self.idx.model());
                    }
                    return Err(e);
                },
            }
        }
    }
}

/// The error the first unbuildable precursor reports.
pub open spec fn first_failure(
    ps: Seq<Precursor>,
    i: int,
    keys: Seq<String>,
    tags: Seq<TypeTag>,
) -> BuildError
    decreases ps.len() - i,
{
    if i < 0 || i >= ps.len() {
        BuildError::Unsupported
    } else if !ps[i].builds_kt(keys, tags) {
        ps[i].build_failure_kt(keys, tags)
    } else {
        first_failure(ps, i + 1, keys, tags)
    }
}

/// With every precursor before `j` buildable, the first failure lies at
/// or after `j`.
pub proof fn lemma_first_failure_skip(
    ps: Seq<Precursor>,
    j: int,
    keys: Seq<String>,
    tags: Seq<TypeTag>,
)
    requires
        0 <= j <= ps.len(),
        forall|k: int| 0 <= k < j ==> (#[trigger] ps[k]).builds_kt(keys, tags),
    ensures
        first_failure(ps, 0, keys, tags) == first_failure(ps, j, keys, tags),
    decreases j,
{
    if j > 0 {
        lemma_first_failure_skip(ps, j - 1, keys, tags);
    }
}

/// Handles stay well typed while only producer counts and queues move:
/// an agent's well-formedness reads pipe count and types alone.
pub proof fn lemma_agent_wf_stable(a: Agent, m1: Seq<PipeModel>, m2: Seq<PipeModel>)
    requires
        agent_wf(a, m1),
        m2.len() == m1.len(),
        forall|i: int| 0 <= i < m1.len() ==> #[trigger] m2[i].tag == m1[i].tag,
    ensures
        agent_wf(a, m2),
{
    match a {
        Agent::CliArg(_) => {},
        Agent::SSAdd(_) => {},
        Agent::Append(_) => {},
        Agent::LoadStr(_) => {},
        Agent::Printf(_) => {},
        Agent::Delete(_) => {},
    }
}

impl Builder {
    /// Freeze the type index into a pool of materialized pipes and build
    /// every precursor into an agent, collecting the first failure as a
    /// hard error that aborts construction.  On success every precursor
    /// was buildable and the executor starts on empty pipes.  The bound
    /// on the precursor count keeps the producer reference counts clear
    /// of the machine limit: each build draws at most two handles.
    pub fn build(self) -> (r: Result<Executor, BuildError>)
        requires
            self.wf(),
            self.precursors@.len() < 0x1000_0000,
        ensures
            match r {
                Ok(ex) => {
                    &&& ex.wf()
                    &&& ex.pipes.keys@ == self.idx.keys@
                    &&& ex.pipes.tag_seq() == self.idx.tags@
                    &&& forall|i: int|
                        0 <= i < ex.pipes.n() ==> #[trigger] ex.pipes.queue_at(i)
                            == Seq::<crate::elem::ElemView>::empty()
                    &&& ex.agents@.len() == self.precursors@.len()
                    &&& forall|j: int|
                        0 <= j < self.precursors@.len() ==> (#[trigger] self.precursors@[j]).builds_kt(self.idx.keys@, self.idx.tags@)
                },
                Err(e) => {
                    &&& !(forall|j: int|
                        0 <= j < self.precursors@.len() ==> (#[trigger] self.precursors@[j]).builds_kt(self.idx.keys@, self.idx.tags@))
                    &&& e == first_failure(self.precursors@, 0, self.idx.keys@, self.idx.tags@)
                },
            },
    {
        let Builder { idx, precursors } = self;
        let ghost keys0 = idx.keys@;
        let ghost tags0 = idx.tags@;
        let ghost ps0 = precursors@;
        let mut pool = idx.generate();
        proof {
            assert forall|i: int| 0 <= i < pool.n() implies #[trigger] pool.tag_seq()[i]
                == tags0[i] by {
                assert(pool.tag_at(i) == tags0[i]);
            }
            assert(pool.tag_seq() =~= tags0);
        }
        let mut rest = precursors;
        let mut agents: Vec<Agent> = Vec::new();
        let n = rest.len();
        let mut j: usize = 0;
        while j < n
            invariant
                ps0 == self.precursors@,
                keys0 == self.idx.keys@,
                tags0 == self.idx.tags@,
                n == ps0.len(),
                n < 0x1000_0000,
                j <= n,
                rest@ == ps0.skip(j as int),
                agents@.len() == j,
                pool.wf(),
                pool.keys@ == keys0,
                pool.tag_seq() == tags0,
                forall|i: int|
                    0 <= i < pool.n() ==> #[trigger] pool.queue_at(i)
                        == Seq::<crate::elem::ElemView>::empty(),
                forall|i: int| 0 <= i < pool.n() ==> #[trigger] pool.senders_at(i) <= 2 * j,
                forall|k: int| 0 <= k < j ==> (#[trigger] ps0[k]).builds_kt(keys0, tags0),
                forall|k: int|
                    0 <= k < agents@.len() ==> agent_wf(#[trigger] agents@[k], pool.model()),
            decreases n - j,
        {
            let ghost pool_pre = pool;
            let p = rest.remove(0);
            proof {
                assert(p == ps0[j as int]);
                assert(rest@ =~= ps0.skip(j as int + 1));
            }
            match p.build(&mut pool) {
                Ok(a) => {
                    agents.push(a);
                },
                Err(e) => {
                    proof {
                        lemma_first_failure_skip(ps0, j as int, keys0, tags0);
                        assert(!ps0[j as int].builds_kt(keys0, tags0));
                    }
                    return Err(e);
                },
            }
            j = j + 1;
            proof {
                assert forall|i: int|
                    0 <= i < pool.n() implies #[trigger] pool.queue_at(i)
                    == pool_pre.queue_at(i) by {
                    assert(pool.tag_at(i) == pool_pre.tag_at(i));
                }
                assert forall|i: int|
                    0 <= i < pool.tag_seq().len() implies #[trigger] pool.tag_seq()[i]
                    == pool_pre.tag_seq()[i] by {
                    assert(pool.tag_at(i) == pool_pre.tag_at(i));
                }
                assert(pool.tag_seq() =~= pool_pre.tag_seq());
                assert forall|k: int|
                    0 <= k < agents@.len() implies agent_wf(
                    #[trigger] agents@[k],
                    pool.model(),
                ) by {
                    if k < agents@.len() - 1 {
                        lemma_agent_wf_stable(agents@[k], pool_pre.model(), pool.model());
                    }
                }
            }
        }
        Ok(Executor { pipes: pool, agents })
    }
}

/// The pipes after one global tick: every agent steps once, in order,
/// and an agent that can no longer progress gives its producer handles
/// up on the spot.
pub open spec fn tick_pipes(agents: Seq<Agent>, i: int, m: Seq<PipeModel>) -> Seq<PipeModel>
    decreases agents.len() - i,
{
    if i < 0 || i >= agents.len() {
        m
    } else {
        let m1 = agent_step_pipes(agents[i], m);
        let m2 = if agent_alive(agents[i], m) {
            m1
        } else {
            agent_release_pipes(agents[i], m1)
        };
        tick_pipes(agents, i + 1, m2)
    }
}

/// How many agents survive one global tick.
pub open spec fn tick_survivors(agents: Seq<Agent>, i: int, m: Seq<PipeModel>) -> nat
    decreases agents.len() - i,
{
    if i < 0 || i >= agents.len() {
        0
    } else {
        let m1 = agent_step_pipes(agents[i], m);
        let m2 = if agent_alive(agents[i], m) {
            m1
        } else {
            agent_release_pipes(agents[i], m1)
        };
        (if agent_alive(agents[i], m) {
            1nat
        } else {
            0nat
        }) + tick_survivors(agents, i + 1, m2)
    }
}

/// The agent set never grows: every tick keeps at most the agents it
/// started with.
pub proof fn lemma_tick_monotone(agents: Seq<Agent>, i: int, m: Seq<PipeModel>)
    requires
        0 <= i <= agents.len(),
    ensures
        tick_survivors(agents, i, m) <= agents.len() - i,
    decreases agents.len() - i,
{
    if i < agents.len() {
        let m1 = agent_step_pipes(agents[i], m);
        let m2 = if agent_alive(agents[i], m) {
            m1
        } else {
            agent_release_pipes(agents[i], m1)
        };
        lemma_tick_monotone(agents, i + 1, m2);
    }
}

/// Exhaustion is absorbing: once no agent can make progress — and no
/// argument feeder still owes its initial count — one tick reaches the
/// empty agent set.  (A feeder for zero arguments that has not stepped
/// yet is the one exclusion: its final, already-dead step still emits
/// the count element, which can briefly revive a downstream reader.)
pub proof fn lemma_tick_extinction(agents: Seq<Agent>, i: int, m: Seq<PipeModel>)
    requires
        0 <= i <= agents.len(),
        forall|j: int| i <= j < agents.len() ==> agent_wf(#[trigger] agents[j], m),
        forall|j: int| i <= j < agents.len() ==> !agent_alive(#[trigger] agents[j], m),
        forall|j: int|
            i <= j < agents.len() ==> ((#[trigger] agents[j]) matches Agent::CliArg(x) ==> x.loc
                > 0),
    ensures
        tick_survivors(agents, i, m) == 0,
    decreases agents.len() - i,
{
    if i < agents.len() {
        let m1 = agent_step_pipes(agents[i], m);
        assert(m1 == m) by {
            match agents[i] {
                Agent::CliArg(_) => {},
                Agent::SSAdd(_) => {},
                Agent::Append(_) => {},
                Agent::LoadStr(_) => {},
                Agent::Printf(_) => {},
                Agent::Delete(_) => {},
            }
        }
        let m2 = agent_release_pipes(agents[i], m1);
        assert(m2.len() == m.len() && forall|p: int|
            0 <= p < m.len() ==> (#[trigger] m2[p]).queue == m[p].queue && m2[p].senders
                <= m[p].senders && m2[p].tag == m[p].tag) by {
            match agents[i] {
                Agent::CliArg(_) => {},
                Agent::SSAdd(_) => {},
                Agent::Append(_) => {},
                Agent::LoadStr(_) => {},
                Agent::Printf(_) => {},
                Agent::Delete(_) => {},
            }
        }
        assert forall|j: int| i + 1 <= j < agents.len() implies !agent_alive(
            #[trigger] agents[j],
            m2,
        ) by {
            match agents[j] {
                Agent::CliArg(_) => {},
                Agent::SSAdd(_) => {},
                Agent::Append(_) => {},
                Agent::LoadStr(_) => {},
                Agent::Printf(_) => {},
                Agent::Delete(_) => {},
            }
        }
        assert forall|j: int| i + 1 <= j < agents.len() implies agent_wf(
            #[trigger] agents[j],
            m2,
        ) by {
            lemma_agent_wf_stable(agents[j], m, m2);
        }
        lemma_tick_extinction(agents, i + 1, m2);
    }
}

/// Whether `out` is exactly the agents one tick keeps: the agents that
/// still progress, in order, each stepped once at its turn.
pub open spec fn tick_kept(
    agents: Seq<Agent>,
    i: int,
    m: Seq<PipeModel>,
    out: Seq<Agent>,
) -> bool
    decreases agents.len() - i,
{
    if i < 0 || i >= agents.len() {
        out.len() == 0
    } else {
        let m1 = agent_step_pipes(agents[i], m);
        let m2 = if agent_alive(agents[i], m) {
            m1
        } else {
            agent_release_pipes(agents[i], m1)
        };
        if agent_alive(agents[i], m) {
            &&& out.len() > 0
            &&& agent_stepped(agents[i], m, out[0])
            &&& tick_kept(agents, i + 1, m2, out.drop_first())
        } else {
            tick_kept(agents, i + 1, m2, out)
        }
    }
}

/// Holds the live agent set and the pipe pool, and advances the whole
/// system one synchronous tick at a time; create, advance repeatedly,
/// empty is the terminal state.
pub struct Executor {
    /// The materialized pipes all agents share.
    pub pipes: PipeIndex,
    /// The agents still able to make progress.
    pub agents: Vec<Agent>,
}

impl Executor {
    /// Well-formed: the pool is, and every agent's handles are well
    /// typed against it.
    pub open spec fn wf(self) -> bool {
        &&& self.pipes.wf()
        &&& forall|j: int|
            0 <= j < self.agents@.len() ==> agent_wf(#[trigger] self.agents@[j], self.pipes.model())
    }

    /// One global tick: step every agent once, in order, discarding the
    /// agents that report no further progress (their producer handles
    /// are given up at once).  Returns whether any agent remains.
    pub fn step(&mut self) -> (b: bool)
        requires
            old(self).wf(),
        ensures
            final(self).wf(),
            final(self).pipes.keys@ == old(self).pipes.keys@,
            final(self).pipes.model() == tick_pipes(
                old(self).agents@,
                0,
                old(self).pipes.model(),
            ),
            final(self).agents@.len() == tick_survivors(
                old(self).agents@,
                0,
                old(self).pipes.model(),
            ),
            tick_kept(old(self).agents@, 0, old(self).pipes.model(), final(self).agents@),
            b == (final(self).agents@.len() > 0),
    {
        let ghost ags0 = self.agents@;
        let ghost m_start = self.pipes.model();
        let mut kept: Vec<Agent> = Vec::new();
        proof {
            assert forall|rest: Seq<Agent>|
                #[trigger] tick_kept(ags0, 0, m_start, rest) implies tick_kept(
                ags0,
                0,
                m_start,
                kept@ + rest,
            ) by {
                assert(kept@ + rest =~= rest);
            }
        }
        let n = self.agents.len();
        let mut j: usize = 0;
        while j < n
            invariant
                n == ags0.len(),
                j <= n,
                self.agents@ == ags0.skip(j as int),
                self.pipes.wf(),
                self.pipes.keys@ == old(self).pipes.keys@,
                ags0 == old(self).agents@,
                m_start == old(self).pipes.model(),
                tick_pipes(ags0, 0, m_start) == tick_pipes(ags0, j as int, self.pipes.model()),
                tick_survivors(ags0, 0, m_start) == kept@.len() + tick_survivors(
                    ags0,
                    j as int,
                    self.pipes.model(),
                ),
                forall|rest: Seq<Agent>|
                    #[trigger] tick_kept(ags0, j as int, self.pipes.model(), rest) ==> tick_kept(
                        ags0,
                        0,
                        m_start,
                        kept@ + rest,
                    ),
                forall|k: int|
                    0 <= k < kept@.len() ==> agent_wf(#[trigger] kept@[k], self.pipes.model()),
                forall|k: int|
                    0 <= k < self.agents@.len() ==> agent_wf(
                        #[trigger] self.agents@[k],
                        self.pipes.model(),
                    ),
            decreases n - j,
        {
            let ghost m_pre = self.pipes.model();
            let ghost kept_pre = kept@;
            let mut a = self.agents.remove(0);
            proof {
                assert(a == ags0[j as int]);
                assert(self.agents@ =~= ags0.skip(j as int + 1));
            }
            let alive_now = a.step(&mut self.pipes);
            let ghost m_stepped = self.pipes.model();
            let ghost stepped = a;
            if alive_now {
                kept.push(a);
            } else {
                a.release(&mut self.pipes);
            }
            j = j + 1;
            proof {
                if agent_alive(ags0[j - 1], m_pre) {
                    assert forall|rest: Seq<Agent>|
                        #[trigger] tick_kept(ags0, j as int, self.pipes.model(), rest) implies
                        tick_kept(ags0, 0, m_start, kept@ + rest) by {
                        let whole = seq![stepped] + rest;
                        assert(whole[0] == stepped);
                        assert(whole.drop_first() =~= rest);
                        assert(tick_kept(ags0, j - 1, m_pre, whole));
                        assert(kept_pre + whole =~= kept@ + rest);
                    }
                } else {
                    assert forall|rest: Seq<Agent>|
                        #[trigger] tick_kept(ags0, j as int, self.pipes.model(), rest) implies
                        tick_kept(ags0, 0, m_start, kept@ + rest) by {
                        assert(tick_kept(ags0, j - 1, m_pre, rest));
                    }
                }
            }
            proof {
                assert forall|k: int|
                    0 <= k < kept@.len() implies agent_wf(
                    #[trigger] kept@[k],
                    self.pipes.model(),
                ) by {
                    lemma_agent_wf_stable(kept@[k], m_stepped, self.pipes.model());
                    lemma_agent_wf_stable(kept@[k], m_pre, m_stepped);
                }
                assert forall|k: int|
                    0 <= k < self.agents@.len() implies agent_wf(
                    #[trigger] self.agents@[k],
                    self.pipes.model(),
                ) by {
                    lemma_agent_wf_stable(self.agents@[k], m_stepped, self.pipes.model());
                    lemma_agent_wf_stable(self.agents@[k], m_pre, m_stepped);
                }
            }
        }
        proof {
            assert(tick_kept(ags0, n as int, self.pipes.model(), Seq::<Agent>::empty()));
            assert(kept@ + Seq::<Agent>::empty() =~= kept@);
        }
        self.agents = kept;
        let remaining = self.agents.len();
        remaining > 0
    }
}

impl AgentPrecursor for IPrecursor<SAppend> {
    fn deduct(&self, idx: &mut PipeTypeIndex) -> (r: Result<(), BuildError>) {
        IPrecursor::<SAppend>::deduct(self, idx)
    }

    fn build(self, idx: &mut PipeIndex) -> (r: Result<Agent, BuildError>) {
        match IPrecursor::<SAppend>::build(self, idx) {
            Ok(a) => Ok(Agent::Append(a)),
            Err(e) => Err(e),
        }
    }
}

impl AgentPrecursor for IPrecursor<Load<String>> {
    fn deduct(&self, idx: &mut PipeTypeIndex) -> (r: Result<(), BuildError>) {
        IPrecursor::<Load<String>>::deduct(self, idx)
    }

    fn build(self, idx: &mut PipeIndex) -> (r: Result<Agent, BuildError>) {
        match IPrecursor::<Load<String>>::build(self, idx) {
            Ok(a) => Ok(Agent::LoadStr(a)),
            Err(e) => Err(e),
        }
    }
}

impl AgentPrecursor for IPrecursor<SxPrintf> {
    fn deduct(&self, idx: &mut PipeTypeIndex) -> (r: Result<(), BuildError>) {
        IPrecursor::<SxPrintf>::deduct(self, idx)
    }

    fn build(self, idx: &mut PipeIndex) -> (r: Result<Agent, BuildError>) {
        match IPrecursor::<SxPrintf>::build(self, idx) {
            Ok(a) => Ok(Agent::Printf(a)),
            Err(e) => Err(e),
        }
    }
}

impl AgentPrecursor for YPrecursor<SSAdd> {
    fn deduct(&self, idx: &mut PipeTypeIndex) -> (r: Result<(), BuildError>) {
        YPrecursor::<SSAdd>::deduct(self, idx)
    }

    fn build(self, idx: &mut PipeIndex) -> (r: Result<Agent, BuildError>) {
        match YPrecursor::<SSAdd>::build(self, idx) {
            Ok(a) => Ok(Agent::SSAdd(a)),
            Err(e) => Err(e),
        }
    }
}

} // verus!
