use concurrent_circbuf::base::RecvError;
use concurrent_circbuf::bounded;
use concurrent_circbuf::spmc;
use concurrent_circbuf::spsc;
use concurrent_circbuf::unbounded;
use concurrent_circbuf::unbounded::spmc::TryRecv;

#[test]
fn spsc_receives_in_order() {
    let (mut tx, rx) = spsc::new::<char>();
    tx.send('a');
    tx.send('b');
    tx.send('c');
    assert_eq!(rx.recv(&mut tx), Some('a'));
    assert_eq!(rx.recv(&mut tx), Some('b'));
    assert_eq!(rx.recv(&mut tx), Some('c'));
    assert_eq!(rx.recv(&mut tx), None);
}

#[test]
fn spsc_with_min_capacity_receives_what_was_sent() {
    let (mut tx, rx) = spsc::with_min_capacity::<u32>(1000);
    for i in 0..3000 {
        tx.send(i);
    }
    for i in 0..3000 {
        assert_eq!(rx.recv(&mut tx), Some(i));
    }
    assert_eq!(rx.recv(&mut tx), None);
}

#[test]
fn unbounded_spsc_receives_in_order() {
    let (mut tx, rx) = unbounded::spsc::new::<u32>();
    tx.send(32);
    assert_eq!(rx.recv(&mut tx), Some(32));
    let (mut tx, rx) = unbounded::spsc::with_min_capacity::<u32>(3);
    tx.send(1);
    tx.send(2);
    assert_eq!(rx.recv(&mut tx), Some(1));
    assert_eq!(rx.recv(&mut tx), Some(2));
    assert_eq!(rx.recv(&mut tx), None);
}

#[test]
fn bounded_spsc_refuses_when_full() {
    let (mut tx, rx) = bounded::spsc::new::<u32>(3);
    for i in 0..4 {
        assert_eq!(tx.send(i), Ok(()));
    }
    assert_eq!(tx.send(4), Err(4));
    assert_eq!(rx.recv(&mut tx), Some(0));
    assert_eq!(tx.send(4), Ok(()));
    for i in 1..5 {
        assert_eq!(rx.recv(&mut tx), Some(i));
    }
    assert_eq!(rx.recv(&mut tx), None);
}

#[test]
fn spmc_channel_and_receivers_share_the_elements() {
    let mut c = spmc::Channel::<u32>::new();
    let r = c.receiver();
    assert_eq!(c.try_recv(), Ok(None));
    assert_eq!(c.recv(), None);
    c.send(1);
    c.send(2);
    c.send(3);
    c.send(4);
    assert_eq!(c.try_recv(), Ok(Some(1)));
    assert_eq!(c.recv(), Some(2));
    let r2 = r.clone();
    assert_eq!(r.try_recv(&mut c), Ok(Some(3)));
    assert_eq!(r2.recv(&mut c), Some(4));
    assert_eq!(r.try_recv(&mut c), Ok(None));
    assert_ne!(r.try_recv(&mut c), Err(RecvError::Retry));
}

#[test]
fn spmc_with_min_capacity_receives_what_was_sent() {
    let mut c = spmc::Channel::<u32>::with_min_capacity(1000);
    for i in 0..2000 {
        c.send(i);
    }
    for i in 0..2000 {
        assert_eq!(c.recv(), Some(i));
    }
    assert_eq!(c.recv(), None);
}

#[test]
fn unbounded_spmc_channel_and_receivers_share_the_elements() {
    let mut c = unbounded::spmc::Channel::<u32>::default();
    let r = c.receiver();
    c.send(1);
    c.send(2);
    c.send(3);
    assert_eq!(c.try_recv(), TryRecv::Data(1));
    assert_eq!(r.clone().try_recv(&mut c), TryRecv::Data(2));
    assert_eq!(r.try_recv(&mut c), TryRecv::Data(3));
    assert_eq!(r.try_recv(&mut c), TryRecv::Empty);
    assert_eq!(c.try_recv(), TryRecv::Empty);
}

#[test]
fn unbounded_spmc_try_recv_half() {
    let mut c = unbounded::spmc::Channel::<u32>::new();
    c.send(1);
    c.send(2);
    let r = c.receiver();
    assert_eq!(r.try_recv_half(&mut c), TryRecv::Data(vec![1]));
    assert_eq!(r.try_recv_half(&mut c), TryRecv::Data(vec![2]));
    assert_eq!(r.try_recv_half(&mut c), TryRecv::Empty);
}

#[test]
fn unbounded_spmc_with_min_capacity() {
    let mut c = unbounded::spmc::Channel::<u32>::with_min_capacity(1000);
    for i in 0..10 {
        c.send(i);
    }
    for i in 0..10 {
        assert_eq!(c.try_recv(), TryRecv::Data(i));
    }
}
