use concurrent_circbuf::base::{CircBuf, DynamicCircBuf, Receiver, TryRecv};
use std::cell::RefCell;
use std::rc::Rc;

fn retry<T, F: FnMut() -> TryRecv<T>>(mut f: F) -> Option<T> {
    loop {
        match f() {
            TryRecv::Data(r) => return Some(r),
            TryRecv::Empty => return None,
            TryRecv::Retry => {}
        }
    }
}

#[test]
fn smoke() {
    let mut cb = DynamicCircBuf::new();
    let r: Receiver<i32> = cb.receiver();

    assert_eq!(retry(|| cb.try_recv()), None);
    assert_eq!(retry(|| r.try_recv(cb.circ_buf_mut())), None);

    cb.send(1);
    assert_eq!(retry(|| cb.try_recv()), Some(1));
    assert_eq!(retry(|| cb.try_recv()), None);
    assert_eq!(retry(|| r.try_recv(cb.circ_buf_mut())), None);

    cb.send(2);
    assert_eq!(retry(|| r.try_recv(cb.circ_buf_mut())), Some(2));
    assert_eq!(retry(|| r.try_recv(cb.circ_buf_mut())), None);
    assert_eq!(retry(|| cb.try_recv()), None);

    cb.send(3);
    cb.send(4);
    cb.send(5);
    assert_eq!(retry(|| cb.try_recv()), Some(3));
    assert_eq!(retry(|| r.try_recv(cb.circ_buf_mut())), Some(4));
    assert_eq!(retry(|| cb.try_recv()), Some(5));
    assert_eq!(retry(|| cb.try_recv()), None);
}

#[test]
fn bounded_capacity_is_rounded_up_to_a_power_of_two() {
    let mut cb = CircBuf::new(1000);
    for i in 0..1024 {
        assert_eq!(cb.send(i), Ok(()));
    }
    assert_eq!(cb.send(1024), Err(1024));
    assert_eq!(cb.try_recv(), TryRecv::Data(0));
    assert_eq!(cb.send(1024), Ok(()));
    assert_eq!(cb.send(1025), Err(1025));
}

#[test]
fn bounded_capacity_of_zero_holds_one_element() {
    let mut cb = CircBuf::new(0);
    assert_eq!(cb.send('a'), Ok(()));
    assert_eq!(cb.send('b'), Err('b'));
    let r = cb.receiver();
    assert_eq!(r.recv_exclusive(&mut cb), Some('a'));
    assert_eq!(r.recv_exclusive(&mut cb), None);
    assert_eq!(cb.send('c'), Ok(()));
    assert_eq!(r.try_recv(&mut cb), TryRecv::Data('c'));
    assert_eq!(r.try_recv(&mut cb), TryRecv::Empty);
}

#[test]
fn bounded_buffer_wraps_around_its_array() {
    let mut cb = CircBuf::new(4);
    let r = cb.receiver();
    let mut next_sent = 0;
    let mut next_received = 0;
    for round in 0..100 {
        while cb.send(next_sent).is_ok() {
            next_sent += 1;
        }
        assert_eq!(next_sent - next_received, 4);
        for _ in 0..(round % 4) + 1 {
            let got = if round % 2 == 0 { cb.try_recv() } else { r.try_recv(&mut cb) };
            assert_eq!(got, TryRecv::Data(next_received));
            next_received += 1;
        }
    }
}

#[test]
fn try_recv_inner_suggests_shrinking_when_at_most_a_quarter_full() {
    let mut cb = CircBuf::new(16);
    assert_eq!(cb.try_recv_inner(), (TryRecv::Empty, None));
    for i in 0..5 {
        cb.send(i).unwrap();
    }
    assert_eq!(cb.try_recv_inner(), (TryRecv::Data(0), None));
    assert_eq!(cb.try_recv_inner(), (TryRecv::Data(1), Some(16)));
    assert_eq!(cb.try_recv_inner(), (TryRecv::Data(2), Some(16)));
}

#[test]
fn dynamic_buffer_grows_and_shrinks_keeping_order() {
    const STEPS: usize = 50_000;

    let mut cb = DynamicCircBuf::with_min_capacity(2);
    for i in 0..STEPS {
        cb.send(i);
    }
    for i in 0..STEPS {
        assert_eq!(cb.try_recv(), TryRecv::Data(i));
    }
    assert_eq!(cb.try_recv(), TryRecv::Empty);

    for i in 0..STEPS {
        cb.send(i);
        cb.send(i);
        assert_eq!(cb.try_recv(), TryRecv::Data(i / 2));
    }
}

#[test]
fn receivers_and_owner_take_turns_in_order() {
    const COUNT: usize = 50_000;

    let mut cb = DynamicCircBuf::new();
    for i in 0..COUNT {
        cb.send(Box::new(i + 1));
    }
    let receivers: Vec<Receiver<Box<usize>>> = (0..8).map(|_| cb.receiver()).collect();

    let mut last = 0;
    let mut turn = 0;
    loop {
        let got = if turn % 9 == 8 {
            cb.try_recv()
        } else {
            receivers[turn % 9].try_recv(cb.circ_buf_mut())
        };
        match got {
            TryRecv::Data(x) => {
                assert!(last < *x);
                assert_eq!(*x, last + 1);
                last = *x;
            }
            TryRecv::Empty => break,
            TryRecv::Retry => {}
        }
        turn += 1;
    }
    assert_eq!(last, COUNT);
}

#[test]
fn try_recv_half_takes_the_first_half_rounded_up() {
    let mut cb = DynamicCircBuf::new();
    let r = cb.receiver();
    assert_eq!(r.try_recv_half(cb.circ_buf_mut()), TryRecv::Empty);
    for i in 0..5 {
        cb.send(i);
    }
    assert_eq!(r.try_recv_half(cb.circ_buf_mut()), TryRecv::Data(vec![0, 1, 2]));
    assert_eq!(r.try_recv_half(cb.circ_buf_mut()), TryRecv::Data(vec![3]));
    assert_eq!(r.try_recv_half(cb.circ_buf_mut()), TryRecv::Data(vec![4]));
    assert_eq!(r.try_recv_half(cb.circ_buf_mut()), TryRecv::Empty);
}

#[test]
fn recv_exclusive_receives_in_order() {
    let mut cb = DynamicCircBuf::new();
    let r = cb.receiver();
    cb.send(1);
    cb.send(2);
    assert_eq!(r.recv_exclusive(cb.circ_buf_mut()), Some(1));
    let r2 = r.clone();
    assert_eq!(r2.recv_exclusive(cb.circ_buf_mut()), Some(2));
    assert_eq!(r.recv_exclusive(cb.circ_buf_mut()), None);
}

struct Elem(usize, Rc<RefCell<Vec<usize>>>);

impl Drop for Elem {
    fn drop(&mut self) {
        self.1.borrow_mut().push(self.0);
    }
}

#[test]
fn dropping_the_buffer_drops_the_elements_left_in_it() {
    const COUNT: usize = 50_000;

    let mut cb = DynamicCircBuf::new();
    let dropped = Rc::new(RefCell::new(Vec::new()));
    for i in 0..COUNT {
        cb.send(Elem(i, dropped.clone()));
    }
    let r = cb.receiver();
    for _ in 0..1000 {
        if let TryRecv::Data(_) = cb.try_recv() {}
        if let TryRecv::Data(_) = r.try_recv(cb.circ_buf_mut()) {}
    }
    let rem = COUNT - 2000;
    assert_eq!(dropped.borrow().len(), COUNT - rem);
    dropped.borrow_mut().clear();

    drop(cb);

    let mut v = dropped.borrow_mut();
    assert_eq!(v.len(), rem);
    v.sort();
    for pair in v.windows(2) {
        assert_eq!(pair[0] + 1, pair[1]);
    }
    assert_eq!(v[0], 2000);
}

#[test]
fn stress_pinned() {
    const COUNT: usize = 50_000;

    let mut cb = DynamicCircBuf::new();
    let receivers: Vec<Receiver<usize>> = (0..8).map(|_| cb.receiver()).collect();
    let mut hits = 0;
    let mut expected = 0;
    let mut next_received = 0;
    let mut seed: u64 = 0x2545_f491_4f6c_dd1d;
    let mut turn = 0;

    let mut take = |got: TryRecv<usize>, hits: &mut usize, next_received: &mut usize| {
        if let TryRecv::Data(v) = got {
            assert_eq!(v, *next_received);
            *next_received += 1;
            *hits += 1;
        }
    };

    while expected < COUNT {
        seed = seed.wrapping_mul(6364136223846793005).wrapping_add(1442695040888963407);
        match (seed >> 33) % 3 {
            0 => take(cb.try_recv(), &mut hits, &mut next_received),
            1 => {
                let r = &receivers[turn % receivers.len()];
                turn += 1;
                take(r.try_recv(cb.circ_buf_mut()), &mut hits, &mut next_received);
            }
            _ => {
                cb.send(expected);
                expected += 1;
            }
        }
    }

    while hits < COUNT {
        take(cb.try_recv(), &mut hits, &mut next_received);
    }
    assert_eq!(hits, COUNT);
    assert_eq!(cb.try_recv(), TryRecv::Empty);
}
