use kunio::buf::{IoBuf, IoBufMut};
use kunio::driver::{decode_result, Op, OsError, UringDriver};
use kunio::net::{decode_peer, port_from_network, SocketAddress, AF_INET, AF_INET6};
use kunio::op::{Read, Write};
use kunio::task::{new_task, raw_waker, Context, Poll, TaskArena, TaskFuture};

struct Idle;

impl TaskFuture<()> for Idle {
    fn poll(&mut self, _cx: &mut Context) -> Poll<()> {
        Poll::Pending
    }
}

#[test]
fn completion_is_delivered_exactly_once() {
    let mut arena: TaskArena<Idle, ()> = TaskArena::new();
    let (task, _join) = new_task(&mut arena, Idle);
    let mut driver = UringDriver::new(4);
    let (mut op, flush) = Op::socket(&mut driver, 2, 1, 0);
    assert!(!flush);
    assert_eq!(op.id, 1);
    let w = raw_waker(&mut arena, task.raw()).unwrap();
    let (p, unheld) = op.poll(&mut driver, w);
    assert!(matches!(p, Poll::Pending));
    assert!(unheld.is_none());
    assert!(driver.has_waiting());
    let woken = driver.complete(&vec![(op.id, 5)]);
    assert_eq!(woken.len(), 1);
    assert_eq!(woken[0].raw(), task.raw());
    assert!(!driver.has_waiting());
    let w = raw_waker(&mut arena, task.raw()).unwrap();
    let (p, _unheld) = op.poll(&mut driver, w);
    match p {
        Poll::Ready(r) => assert_eq!(r, Ok(5)),
        Poll::Pending => panic!("result expected"),
    }
    assert!(!driver.is_tracked(op.id));
    // a late duplicate completion brings nothing back
    let woken = driver.complete(&vec![(op.id, 5)]);
    assert!(woken.is_empty());
    assert!(!driver.is_tracked(op.id));
}

#[test]
fn completion_before_first_poll_is_kept() {
    let mut arena: TaskArena<Idle, ()> = TaskArena::new();
    let (task, _join) = new_task(&mut arena, Idle);
    let mut driver = UringDriver::new(4);
    let (mut op, _) = driver.submit_op(Write { fd: 3, buf: vec![1u8, 2, 3] });
    let woken = driver.complete(&vec![(op.id, 3)]);
    assert!(woken.is_empty());
    let w = raw_waker(&mut arena, task.raw()).unwrap();
    let (p, unheld) = op.poll_completion(&mut driver, w);
    assert!(unheld.is_some());
    match p {
        Poll::Ready(c) => {
            assert_eq!(c.result, Ok(3));
            assert_eq!(c.data.buf, vec![1u8, 2, 3]);
        }
        Poll::Pending => panic!("completion expected"),
    }
}

#[test]
fn negative_code_becomes_os_error() {
    assert_eq!(decode_result(-2), Err(OsError { errno: 2 }));
    assert_eq!(decode_result(0), Ok(0));
    assert_eq!(decode_result(i32::MIN), Err(OsError { errno: 2147483648 }));
}

#[test]
fn repeated_poll_keeps_equivalent_waker() {
    let mut arena: TaskArena<Idle, ()> = TaskArena::new();
    let (a, _ja) = new_task(&mut arena, Idle);
    let (b, _jb) = new_task(&mut arena, Idle);
    let mut driver = UringDriver::new(4);
    let (mut op, _) = Op::close(&mut driver, 7);
    let w = raw_waker(&mut arena, a.raw()).unwrap();
    assert!(op.poll(&mut driver, w).1.is_none());
    let w = raw_waker(&mut arena, a.raw()).unwrap();
    let unheld = op.poll(&mut driver, w).1.unwrap();
    assert_eq!(unheld.raw(), a.raw());
    let w = raw_waker(&mut arena, b.raw()).unwrap();
    let unheld = op.poll(&mut driver, w).1.unwrap();
    assert_eq!(unheld.raw(), a.raw());
    let woken = driver.complete(&vec![(op.id, 0)]);
    assert_eq!(woken[0].raw(), b.raw());
}

#[test]
fn backpressure_flushes_and_drops_nothing() {
    let mut driver = UringDriver::new(100);
    let mut ops = Vec::new();
    let mut flushes = 0;
    for i in 0..250u64 {
        let (op, flush) = Op::socket(&mut driver, 2, 1, 0);
        if flush {
            flushes += 1;
            assert!(i == 100 || i == 200);
        }
        ops.push(op);
    }
    assert_eq!(flushes, 2);
    for op in &ops {
        assert!(driver.is_tracked(op.id));
    }
    let completions: Vec<(u64, i32)> = ops.iter().map(|op| (op.id, op.id as i32)).collect();
    driver.complete(&completions);
    let mut arena: TaskArena<Idle, ()> = TaskArena::new();
    let (task, _join) = new_task(&mut arena, Idle);
    for mut op in ops {
        let w = raw_waker(&mut arena, task.raw()).unwrap();
        match op.poll(&mut driver, w).0 {
            Poll::Ready(r) => assert_eq!(r, Ok(op.id as i32)),
            Poll::Pending => panic!("every operation completes"),
        }
        assert!(!driver.is_tracked(op.id));
    }
}

#[test]
fn open_refuses_path_with_nul() {
    let mut driver = UringDriver::new(8);
    match Op::open(&mut driver, b"foo\0bar".to_vec(), 0, 0o644) {
        Err(e) => assert_eq!(e.position, 3),
        Ok(_) => panic!("path with NUL must be refused"),
    }
    assert!(!driver.has_waiting());
    let (op, _) = Op::open(&mut driver, b"foo.txt".to_vec(), 0, 0o644).unwrap();
    assert_eq!(op.data.as_ref().unwrap().path, b"foo.txt".to_vec());
}

#[test]
fn read_commits_transferred_length() {
    // the file round trip, from the buffer's side: the whole text written, 12 bytes read back
    let written: Vec<u8> = b"hello kunio!\nlove sing dance basketball!!!".to_vec();
    assert_eq!(written.valid_len(), 42);
    let mut driver = UringDriver::new(8);
    let (wop, _) = Op::write(&mut driver, 3, written.clone());
    driver.complete(&vec![(wop.id, 42)]);
    let mut buf: Vec<u8> = vec![0; 12];
    assert_eq!(buf.available_len(), 12);
    // the kernel fills the buffer from the file's start
    buf.bytes_mut().copy_from_slice(&written[..12]);
    let (rop, _) = Op::read(&mut driver, 3, buf);
    driver.complete(&vec![(rop.id, 12)]);
    let mut buf = rop.data.unwrap().buf;
    buf.set_valid_len(12);
    assert_eq!(buf, b"hello kunio!".to_vec());
}

#[test]
fn echo_read_keeps_exactly_received_bytes() {
    let sent: Vec<u8> = vec![97; 10];
    let mut buf: Vec<u8> = vec![0; 64];
    buf.bytes_mut()[..10].copy_from_slice(sent.bytes());
    buf.set_valid_len(10);
    assert_eq!(buf, sent);
    let boxed: Box<[u8]> = vec![1u8, 2].into_boxed_slice();
    assert_eq!(boxed.valid_len(), 2);
    let fixed: &'static [u8] = b"abc";
    assert_eq!(fixed.valid_len(), 3);
    assert_eq!(fixed.bytes(), b"abc");
}

#[test]
fn peer_address_decoding() {
    match decode_peer(AF_INET, [0x1f, 0x90], &[127, 0, 0, 1], 0, 0) {
        Some(SocketAddress::V4 { ip, port }) => {
            assert_eq!(ip, [127, 0, 0, 1]);
            assert_eq!(port, 8080);
        }
        _ => panic!("IPv4 address expected"),
    }
    let ip6 = [0u8, 0, 0, 0, 0, 0, 0, 0, 0, 0, 0, 0, 0, 0, 0, 1];
    match decode_peer(AF_INET6, [0xc3, 0x52], &ip6, 3, 4) {
        Some(a @ SocketAddress::V6 { .. }) => {
            assert!(a.is_ipv6());
            assert_eq!(a.port(), 50002);
            assert_eq!(a.domain(), AF_INET6);
        }
        _ => panic!("IPv6 address expected"),
    }
    assert!(decode_peer(1, [0, 0], &[0; 4], 0, 0).is_none());
    assert_eq!(port_from_network([0xc3, 0x50]), 50000);
}

#[test]
fn flush_is_decided_before_submitting_and_abandon_undoes() {
    let mut driver = UringDriver::new(2);
    assert!(!driver.needs_flush());
    let (a, _) = Op::socket(&mut driver, 2, 1, 0);
    let (b, _) = Op::socket(&mut driver, 2, 1, 0);
    assert!(driver.needs_flush());
    driver.mark_flushed();
    assert!(!driver.needs_flush());
    let (c, flush) = Op::socket(&mut driver, 2, 1, 0);
    assert!(!flush);
    // the entry for `c` could not be pushed: undo it
    assert!(driver.abandon(c.id).is_none());
    assert!(!driver.is_tracked(c.id));
    let woken = driver.complete(&vec![(a.id, 0), (b.id, 0)]);
    assert!(woken.is_empty());
    assert!(!driver.has_waiting());
}
