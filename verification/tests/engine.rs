use pipeflow::channel::PipeBuilder;
use pipeflow::cli_arg::CliArgAgentPrecursor;
use pipeflow::controller::{Builder, Precursor};
use pipeflow::deduct::PipeTypeIndex;
use pipeflow::elem::{Elem, TypeTag};
use pipeflow::operator::add::{AddPrecursor, SAppend, SSAdd};
use pipeflow::operator::delete::DeletePrecursor;
use pipeflow::operator::stdio::SxPrintf;
use pipeflow::operator::replace::{IsReplace, LsReplace};
use pipeflow::operator::{IOp, IPrecursor, YBuildable, YOp, YPrecursor};
use pipeflow::BuildError;

fn str_elem_at(ex: &pipeflow::controller::Executor, key: &str, i: usize) -> String {
    match ex.pipes.elem_of(&key.to_string(), i) {
        Some(Elem::Str(s)) => s,
        other => panic!("expected a string element, got {:?}", other),
    }
}

#[test]
fn end_to_end_append() {
    // delete pipe `#`'s count value, discard to `_`; append the literal
    // `!` to each element of `@`, write to `out`.
    let mut builder = Builder::new();
    builder.put(Precursor::CliArg(CliArgAgentPrecursor::new(vec![
        "x".to_string(),
        "y".to_string(),
    ])));
    builder.put(Precursor::Delete(DeletePrecursor::new("#", "_")));
    builder.put(Precursor::Append(IPrecursor::<SAppend>::new("@", "!", "out")));

    builder.deduct().unwrap();
    let mut executor = builder.build().unwrap();

    let mut t: usize = 0;
    while executor.step() && t < 100 {
        t += 1;
    }
    assert!(t < 100, "executor did not reach the empty agent set");

    assert_eq!(executor.pipes.len_of(&"out".to_string()), Some(2));
    assert_eq!(str_elem_at(&executor, "out", 0), "x!");
    assert_eq!(str_elem_at(&executor, "out", 1), "y!");

    // the count pipe ended dead: no producer left, and no agent survives
    // to read it.
    assert_eq!(executor.pipes.senders_of(&"#".to_string()), Some(0));
    assert_eq!(executor.pipes.len_of(&"#".to_string()), Some(1));
    assert_eq!(executor.agents.len(), 0);
    assert!(!executor.step());
}

#[test]
fn deduction_needs_two_passes() {
    // The addition's output type only becomes derivable once both input
    // keys have resolved — and the addition is asked first, so a single
    // pass cannot bind it; the second pass does, the third finds the
    // fixpoint.
    let mut builder = Builder::new();
    builder.put(Precursor::Add(AddPrecursor {
        pi1: "a".to_string(),
        pi2: "b".to_string(),
        po: "c".to_string(),
    }));
    builder.put(Precursor::Append(IPrecursor::<SAppend>::new("@", "1", "a")));
    builder.put(Precursor::Append(IPrecursor::<SAppend>::new("@", "2", "b")));
    builder.put(Precursor::CliArg(CliArgAgentPrecursor::new(vec![])));

    let first = builder.deduct_once().unwrap();
    assert!(first);
    assert_eq!(builder.idx.ask(&"a".to_string()), Some(TypeTag::Str));
    assert_eq!(builder.idx.ask(&"b".to_string()), Some(TypeTag::Str));
    // the addition ran before its inputs were known: the output is still
    // unbound after one pass
    assert_eq!(builder.idx.ask(&"c".to_string()), None);

    let second = builder.deduct_once().unwrap();
    assert!(second);
    assert_eq!(builder.idx.ask(&"c".to_string()), Some(TypeTag::Str));

    builder.deduct().unwrap();
    assert_eq!(builder.idx.concrete_count(), 5);
    assert_eq!(builder.idx.ask(&"c".to_string()), Some(TypeTag::Str));

    // a further pass is unproductive: the fixpoint is stable
    let productive = builder.deduct_once().unwrap();
    assert!(!productive);
    assert_eq!(builder.idx.concrete_count(), 5);
}

#[test]
fn type_conflict_detected() {
    // `k` is required as a string by one precursor and as the unit type
    // by another: the deduction fixpoint must fail with a conflict.
    let mut builder = Builder::new();
    builder.put(Precursor::Append(IPrecursor::<SAppend>::new("@", "!", "k")));
    builder.put(Precursor::Delete(DeletePrecursor::new("x", "k")));
    let r = builder.deduct();
    assert_eq!(r, Err(BuildError::TypeConflict));
}

#[test]
fn repeated_requirement_is_idempotent() {
    // Requiring the same key at the same type any number of times
    // succeeds silently and binds nothing new.
    let mut idx = PipeTypeIndex::new();
    let k = "k".to_string();
    idx.require_by_type_id(&k, TypeTag::Str).unwrap();
    assert_eq!(idx.concrete_count(), 1);
    idx.require_by_type_id(&k, TypeTag::Str).unwrap();
    idx.require_by_type_id(&k, TypeTag::Str).unwrap();
    assert_eq!(idx.concrete_count(), 1);
    let r = idx.require_by_type_id(&k, TypeTag::U64);
    assert_eq!(r, Err(BuildError::TypeConflict));
    assert_eq!(idx.concrete_count(), 1);
    assert_eq!(idx.ask(&k), Some(TypeTag::Str));
}

#[test]
fn broadcast_two_receivers() {
    // One sender, two receivers: each receiver independently sees every
    // element, in order, and dies only after the third with no producer
    // left.
    let (mut buf, s, mut r1) = pipeflow::pipe::new::<u64>();
    let mut r2 = r1.duplicate();
    s.send(&mut buf, 1);
    s.send(&mut buf, 2);
    s.send(&mut buf, 3);
    s.release(&mut buf);

    assert_eq!(r1.recv(&buf).copied(), Some(1));
    assert_eq!(r1.recv(&buf).copied(), Some(2));
    assert!(r1.is_alive(&buf));
    assert_eq!(r1.recv(&buf).copied(), Some(3));
    assert!(!r1.is_alive(&buf));
    assert_eq!(r1.recv(&buf).copied(), None);

    assert!(r2.is_alive(&buf));
    assert_eq!(r2.recv(&buf).copied(), Some(1));
    assert_eq!(r2.recv(&buf).copied(), Some(2));
    assert_eq!(r2.recv(&buf).copied(), Some(3));
    assert!(!r2.is_alive(&buf));
}

#[test]
fn binary_agent_pairs_once() {
    // Inputs [x1, x2] and [y1], both exhausted: the concatenation agent
    // fires exactly once, producing x1 + y1, then dies with x2 unread.
    let mut ti = PipeTypeIndex::new();
    ti.require_by_type_id(&"x".to_string(), TypeTag::Str).unwrap();
    ti.require_by_type_id(&"y".to_string(), TypeTag::Str).unwrap();
    ti.require_by_type_id(&"o".to_string(), TypeTag::Str).unwrap();
    let mut pool = ti.generate();

    let sx = pool.require_sender::<String>(&"x".to_string()).unwrap();
    pool.send(&sx, "x1".to_string());
    pool.send(&sx, "x2".to_string());
    pool.release_sender(sx);
    let sy = pool.require_sender::<String>(&"y".to_string()).unwrap();
    pool.send(&sy, "y1".to_string());
    pool.release_sender(sy);

    let mut agent =
        SSAdd::build("x".to_string(), "y".to_string(), "o".to_string(), &mut pool).unwrap();

    assert!(agent.step(&mut pool));
    assert_eq!(pool.len_of(&"o".to_string()), Some(1));
    match pool.elem_of(&"o".to_string(), 0) {
        Some(Elem::Str(s)) => assert_eq!(s, "x1y1"),
        other => panic!("expected a string element, got {:?}", other),
    }

    assert!(!agent.step(&mut pool));
    assert_eq!(pool.len_of(&"o".to_string()), Some(1));
}

#[test]
fn chain_terminates() {
    // A finite, non-cyclic graph reaches the empty agent set in a finite
    // number of ticks.
    let mut builder = Builder::new();
    builder.put(Precursor::CliArg(CliArgAgentPrecursor::new(vec![
        "p".to_string(),
        "q".to_string(),
        "r".to_string(),
    ])));
    builder.put(Precursor::Append(IPrecursor::<SAppend>::new("@", ".", "m")));
    builder.put(Precursor::Append(IPrecursor::<SAppend>::new("m", "-", "n")));
    builder.put(Precursor::Printf(IPrecursor::<SxPrintf>::new("n", "", "sunk")));
    builder.deduct().unwrap();
    let mut executor = builder.build().unwrap();
    let mut t: usize = 0;
    while executor.step() {
        t += 1;
        assert!(t < 1000, "tick budget exceeded");
    }
    assert_eq!(executor.agents.len(), 0);
    assert_eq!(executor.pipes.len_of(&"n".to_string()), Some(3));
    assert_eq!(str_elem_at(&executor, "n", 0), "p.-");
    assert_eq!(str_elem_at(&executor, "n", 2), "r.-");
}

#[test]
fn unresolved_key_fails_build() {
    // An addition over keys nothing ever types: deduction succeeds
    // vacuously, and the build fails with an unresolved requirement.
    let mut builder = Builder::new();
    builder.put(Precursor::Add(AddPrecursor {
        pi1: "a".to_string(),
        pi2: "b".to_string(),
        po: "c".to_string(),
    }));
    builder.deduct().unwrap();
    match builder.build() {
        Err(e) => assert_eq!(e, BuildError::Unresolved),
        Ok(_) => panic!("build succeeded on unresolved keys"),
    }
}

#[test]
fn unsupported_combination_fails_build() {
    // Deleting from a string pipe is not implemented: the build reports
    // the unsupported combination distinctly from a type conflict.
    let mut builder = Builder::new();
    builder.put(Precursor::CliArg(CliArgAgentPrecursor::new(vec!["z".to_string()])));
    builder.put(Precursor::Delete(DeletePrecursor::new("@", "_")));
    builder.deduct().unwrap();
    match builder.build() {
        Err(e) => assert_eq!(e, BuildError::Unsupported),
        Ok(_) => panic!("build succeeded on an unsupported combination"),
    }
}

#[test]
fn handle_type_conflict() {
    // A handle request at a type other than the pipe's bound type fails
    // with a type conflict.
    let mut b = PipeBuilder::new::<String>();
    assert!(b.require_sender::<String>().is_ok());
    match b.require_sender::<u64>() {
        Err(e) => assert_eq!(e, BuildError::TypeConflict),
        Ok(_) => panic!("sender at the wrong type was issued"),
    }
    match b.require_receiver::<()>() {
        Err(e) => assert_eq!(e, BuildError::TypeConflict),
        Ok(_) => panic!("receiver at the wrong type was issued"),
    }
}

#[test]
fn binary_precursor_constraints() {
    // A generic binary precursor requires both inputs and the output at
    // the operator's types in one pass.
    let yp = YPrecursor::<SSAdd>::new("x", "y", "o");
    let mut ti = PipeTypeIndex::new();
    yp.deduct(&mut ti).unwrap();
    assert_eq!(ti.concrete_count(), 3);
    assert_eq!(ti.ask(&"x".to_string()), Some(TypeTag::Str));
    assert_eq!(ti.ask(&"y".to_string()), Some(TypeTag::Str));
    assert_eq!(ti.ask(&"o".to_string()), Some(TypeTag::Str));
    // repeating the same constraints is idempotent
    let yp2 = YPrecursor::<SSAdd>::new("x", "y", "o");
    yp2.deduct(&mut ti).unwrap();
    assert_eq!(ti.concrete_count(), 3);
}

#[test]
fn operators_compute() {
    let concat = match SSAdd::new() {
        Ok(op) => op,
        Err(_) => panic!("the concatenation operator failed to construct"),
    };
    assert_eq!(
        concat.exec(&"ab".to_string(), &"cd".to_string()),
        vec!["abcd".to_string()]
    );

    let rep = match IsReplace::new("!".to_string()) {
        Ok(op) => op,
        Err(_) => panic!("the replace operator failed to construct"),
    };
    assert_eq!(rep.exec(&-7i64), vec!["!".to_string()]);

    let rep = match LsReplace::new("?".to_string()) {
        Ok(op) => op,
        Err(_) => panic!("the replace operator failed to construct"),
    };
    assert_eq!(rep.exec(&3usize), vec!["?".to_string()]);
}
