use pipeflow::channel::pipe::PipeStem;
use pipeflow::channel::PipeBuilder;
use pipeflow::elem::{Elem, TypeTag};
use pipeflow::pipe::new;
use pipeflow::pipe_board::PipeBoard;

#[test]
fn agent_test() {}

#[test]
fn pipe_test() {
    println!("hello");
    let (mut buf, s, mut r) = new::<u64>();
    let ss = s.duplicate(&mut buf);
    let mut rr = r.duplicate();
    println!("{:?} {:?}", buf.queue, buf.entries);

    s.send(&mut buf, 10);

    s.release(&mut buf);
    println!("{}", r.is_alive(&buf));
    assert!(r.is_alive(&buf));
    println!("{}", rr.is_alive(&buf));
    assert!(rr.is_alive(&buf));
    ss.release(&mut buf);
    assert_eq!(rr.recv(&buf).copied(), Some(10));
    println!("{}", r.is_alive(&buf));
    assert!(r.is_alive(&buf));
    println!("{}", rr.is_alive(&buf));
    assert!(!rr.is_alive(&buf));
    println!("{:?} {:?} {:?} {:?}", buf.queue, buf.entries, r.loc, rr.loc);
}

#[test]
fn mod_test() {
    println!("hello");

    let mut b = PipeBuilder::new::<usize>();

    let mut r = b.require_receiver::<usize>().unwrap();
    let s = b.require_sender::<usize>().unwrap();
    let mut rr = b.require_receiver::<usize>().unwrap();
    let ss = b.require_sender::<usize>().unwrap();

    s.send(&mut b, 10);

    s.release(&mut b);
    println!("{}", r.is_alive(&b));
    assert!(r.is_alive(&b));
    println!("{}", rr.is_alive(&b));
    assert!(rr.is_alive(&b));
    ss.release(&mut b);
    assert_eq!(rr.recv(&b), Some(10));
    assert_eq!(rr.recv(&b), None);

    println!("{}", r.is_alive(&b));
    assert!(r.is_alive(&b));
    drop(r);
    println!("{}", rr.is_alive(&b));
    assert!(!rr.is_alive(&b));
}

#[test]
fn stem_test() {
    println!("hello");

    let mut b = PipeStem::<u64>::new();

    let s = b.require_inlet();
    let mut r = b.require_outlet();
    let ss = b.require_inlet();
    let mut rr = b.require_outlet();

    s.send(&mut b, 10);

    s.release(&mut b);
    println!("{}", r.is_alive(&b));
    assert!(r.is_alive(&b));
    println!("{}", rr.is_alive(&b));
    assert!(rr.is_alive(&b));
    ss.release(&mut b);
    assert_eq!(rr.recv(&b).copied(), Some(10));
    println!("{}", r.is_alive(&b));
    assert!(r.is_alive(&b));
    println!("{}", rr.is_alive(&b));
    assert!(!rr.is_alive(&b));
    println!("{:?} {:?}", r.loc, rr.loc);
}

#[test]
fn dyntest() {
    let s: String = "aaa".to_string();
    let e = Elem::Str(s);

    println!("{:?}", e.tag());

    assert_eq!(e.tag(), TypeTag::Str);
    match e {
        Elem::Str(v) => assert_eq!(v, "aaa"),
        _ => panic!("wrong dynamic type"),
    }
}

#[test]
fn pipe_board_test() {
    let mut bo = PipeBoard::new();
    let key = "aaa".to_string();
    let a = bo.require_sender::<i64>(&key).unwrap();
    bo.idx.send(&a, 10);
    let mut b = bo.require_receiver::<i64>(&key).unwrap();
    let got = bo.idx.recv(&mut b);
    println!("{:?} -> {:?}", 10, got);
    assert_eq!(got, Some(10));
    assert_eq!(bo.get_type(&key), Some(TypeTag::I64));
    let wrong = bo.require_sender::<u64>(&key);
    assert!(wrong.is_err());
}
