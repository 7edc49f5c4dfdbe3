use coop_mutex::LockFuture;
use coop_mutex::Mutex;
use coop_mutex::MutexRef;
use coop_mutex::PollOutcome;
use coop_mutex::WaiterEntry;

fn expect_ready<T>(r: PollOutcome<T>) -> MutexRef<T> {
    match r {
        PollOutcome::Ready(g) => g,
        PollOutcome::Pending => panic!("expected the request to resolve"),
    }
}

fn expect_pending<T>(r: PollOutcome<T>) {
    match r {
        PollOutcome::Ready(_) => panic!("expected the request to stay pending"),
        PollOutcome::Pending => (),
    }
}

#[test]
fn new_mutex_is_free_and_empty() {
    let mut m: Mutex<u64> = Mutex::new(42);
    assert_eq!(m.registry.len(), 0);
    let g = m.try_lock().expect("a fresh mutex must be acquirable");
    assert_eq!(*g.get(), 42);
    let woken = g.release(&mut m);
    assert!(woken.is_none());
}

#[test]
fn try_lock_on_held_is_unavailable_and_registers_no_waiter() {
    let mut m: Mutex<u64> = Mutex::new(1);
    let g = m.try_lock().expect("first acquisition must succeed");
    assert!(m.try_lock().is_none());
    assert_eq!(m.registry.len(), 0);
    let woken = g.release(&mut m);
    assert!(woken.is_none());
    let g2 = m.try_lock().expect("a released mutex must be acquirable again");
    assert_eq!(*g2.get(), 1);
    g2.release(&mut m);
}

#[test]
fn poll_on_free_mutex_resolves_without_registering() {
    let mut m: Mutex<u64> = Mutex::new(7);
    let f = m.lock();
    let g = expect_ready(f.poll(&mut m, 10));
    assert_eq!(*g.get(), 7);
    assert_eq!(m.registry.len(), 0);
    g.release(&mut m);
}

#[test]
fn lock_assigns_fresh_increasing_identifiers() {
    let mut m: Mutex<u64> = Mutex::new(0);
    let f1 = m.lock();
    let f2 = m.lock();
    let f3 = m.lock();
    assert_eq!(f1.waker_id, 0);
    assert_eq!(f2.waker_id, 1);
    assert_eq!(f3.waker_id, 2);
}

#[test]
fn release_with_no_waiters_wakes_none() {
    let mut m: Mutex<u64> = Mutex::new(0);
    let g = m.try_lock().unwrap();
    let woken = g.release(&mut m);
    assert!(woken.is_none());
}

#[test]
fn release_with_one_waiter_wakes_exactly_it() {
    let mut m: Mutex<u64> = Mutex::new(0);
    let g = m.try_lock().unwrap();
    let f = m.lock();
    expect_pending(f.poll(&mut m, 100));
    assert_eq!(m.registry.len(), 1);
    let mut fired: usize = 0;
    if let Some(entry) = g.release(&mut m) {
        fired += 1;
        assert_eq!(entry.id, f.waker_id);
        assert_eq!(entry.token, 100);
    }
    assert_eq!(fired, 1);
    assert_eq!(m.registry.len(), 0);
}

#[test]
fn release_with_five_waiters_wakes_exactly_one() {
    let mut m: Mutex<u64> = Mutex::new(0);
    let g = m.try_lock().unwrap();
    let mut futures: Vec<LockFuture> = Vec::new();
    for i in 0..5u64 {
        let f = m.lock();
        expect_pending(f.poll(&mut m, 100 + i));
        futures.push(f);
    }
    assert_eq!(m.registry.len(), 5);
    let mut fired: usize = 0;
    if let Some(entry) = g.release(&mut m) {
        fired += 1;
        assert_eq!(entry.id, futures[4].waker_id);
        assert_eq!(entry.token, 104);
    }
    assert_eq!(fired, 1);
    assert_eq!(m.registry.len(), 4);
}

#[test]
fn repeated_polls_update_one_entry_in_place() {
    let mut m: Mutex<u64> = Mutex::new(0);
    let g = m.try_lock().unwrap();
    let f = m.lock();
    expect_pending(f.poll(&mut m, 7));
    assert_eq!(m.registry.len(), 1);
    expect_pending(f.poll(&mut m, 9));
    assert_eq!(m.registry.len(), 1);
    expect_pending(f.poll(&mut m, 11));
    assert_eq!(m.registry.len(), 1);
    let entry = g.release(&mut m).expect("one waiter is queued");
    assert_eq!(entry.id, f.waker_id);
    assert_eq!(entry.token, 11);
}

#[test]
fn reregistration_keeps_the_existing_position() {
    let mut m: Mutex<u64> = Mutex::new(0);
    let g = m.try_lock().unwrap();
    let fa = m.lock();
    let fb = m.lock();
    let fc = m.lock();
    expect_pending(fa.poll(&mut m, 1));
    expect_pending(fb.poll(&mut m, 2));
    expect_pending(fc.poll(&mut m, 3));
    // B re-registers with a new token; its entry stays between A and C.
    expect_pending(fb.poll(&mut m, 20));
    assert_eq!(m.registry.len(), 3);
    let first = g.release(&mut m).unwrap();
    assert_eq!(first.id, fc.waker_id);
    let gc = expect_ready(fc.poll(&mut m, 3));
    let second = gc.release(&mut m).unwrap();
    assert_eq!(second.id, fb.waker_id);
    assert_eq!(second.token, 20);
    let gb = expect_ready(fb.poll(&mut m, 20));
    let third = gb.release(&mut m).unwrap();
    assert_eq!(third.id, fa.waker_id);
    assert_eq!(third.token, 1);
}

#[test]
fn wake_order_is_last_registered_first() {
    let mut m: Mutex<u64> = Mutex::new(0);
    let g = m.try_lock().unwrap();
    let fa = m.lock();
    let fb = m.lock();
    let fc = m.lock();
    expect_pending(fa.poll(&mut m, 1));
    expect_pending(fb.poll(&mut m, 2));
    expect_pending(fc.poll(&mut m, 3));
    let mut wake_order: Vec<u32> = Vec::new();
    let mut woken: Option<WaiterEntry> = g.release(&mut m);
    let order = [fc, fb, fa];
    let mut step: usize = 0;
    while let Some(entry) = woken {
        wake_order.push(entry.id);
        let gn = expect_ready(order[step].poll(&mut m, entry.token));
        woken = gn.release(&mut m);
        step += 1;
    }
    assert_eq!(wake_order, vec![fc.waker_id, fb.waker_id, fa.waker_id]);
    assert_eq!(m.registry.len(), 0);
}

#[test]
fn contended_increment_resolves_in_order() {
    // The payload starts at 0. Task X acquires, increments to 1, holds;
    // task Y's request, issued while X holds, resolves only after X's
    // guard is released; Y sees 1 and increments to 2.
    let mut m: Mutex<u64> = Mutex::new(0);
    let fx = m.lock();
    let mut gx = expect_ready(fx.poll(&mut m, 500));
    let old = gx.replace(1);
    assert_eq!(old, 0);
    let fy = m.lock();
    expect_pending(fy.poll(&mut m, 501));
    expect_pending(fy.poll(&mut m, 501));
    // Y has not resolved while X holds the guard.
    let woken = gx.release(&mut m).expect("Y is queued");
    assert_eq!(woken.id, fy.waker_id);
    let mut gy = expect_ready(fy.poll(&mut m, 501));
    assert_eq!(*gy.get(), 1);
    gy.replace(2);
    let none_woken = gy.release(&mut m);
    assert!(none_woken.is_none());
    let gf = m.try_lock().unwrap();
    assert_eq!(*gf.get(), 2);
    gf.release(&mut m);
}

#[test]
fn guard_replace_returns_previous_payload() {
    let mut m: Mutex<u64> = Mutex::new(3);
    let mut g = m.try_lock().unwrap();
    assert_eq!(g.replace(8), 3);
    assert_eq!(*g.get(), 8);
    g.release(&mut m);
    let g2 = m.try_lock().unwrap();
    assert_eq!(*g2.get(), 8);
    g2.release(&mut m);
}

#[test]
fn abandoned_request_entry_is_harmless() {
    // A request that registered and was then dropped leaves an orphaned
    // entry; its wake is a no-op and later waiters are unaffected.
    let mut m: Mutex<u64> = Mutex::new(0);
    let g = m.try_lock().unwrap();
    {
        let dropped = m.lock();
        expect_pending(dropped.poll(&mut m, 77));
    }
    let f = m.lock();
    expect_pending(f.poll(&mut m, 88));
    assert_eq!(m.registry.len(), 2);
    let first = g.release(&mut m).unwrap();
    assert_eq!(first.token, 88);
    let gn = expect_ready(f.poll(&mut m, 88));
    let second = gn.release(&mut m).unwrap();
    assert_eq!(second.token, 77);
    assert_eq!(m.registry.len(), 0);
}

#[test]
fn polling_tick_on_held_reschedules_without_registering() {
    let mut m: Mutex<u64> = Mutex::new(0);
    let g = m.try_lock().unwrap();
    let req = coop_mutex::PollingRequest::new();
    match req.tick(&mut m) {
        coop_mutex::TickOutcome::Resolved(_) => panic!("the store is held"),
        coop_mutex::TickOutcome::Reschedule => (),
    }
    assert_eq!(m.registry.len(), 0);
    g.release(&mut m);
    match req.tick(&mut m) {
        coop_mutex::TickOutcome::Resolved(gn) => {
            assert_eq!(*gn.get(), 0);
            gn.release(&mut m);
        }
        coop_mutex::TickOutcome::Reschedule => panic!("the store is free"),
    }
}

#[test]
fn string_payload_moves_through_guard() {
    let mut m: Mutex<String> = Mutex::new(String::from("start"));
    let mut g = m.try_lock().unwrap();
    let old = g.replace(String::from("changed"));
    assert_eq!(old, "start");
    g.release(&mut m);
    let g2 = m.try_lock().unwrap();
    assert_eq!(g2.get(), "changed");
    g2.release(&mut m);
}

#[test]
fn default_mutex_is_free_with_default_payload() {
    let mut m: Mutex<u64> = Mutex::default();
    assert_eq!(m.registry.len(), 0);
    let g = m.try_lock().unwrap();
    assert_eq!(*g.get(), 0);
    g.release(&mut m);
}
