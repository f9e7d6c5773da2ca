use avarus::mine::ChunkedTask;

#[test]
fn guard() {
    let mut tracker = ChunkedTask::new(5);
    let first = tracker.next_chunk().unwrap();
    assert_eq!(first, 0);
    tracker.cancel(first);
    let one = tracker.next_chunk();
    let two = tracker.next_chunk();
    assert_eq!(one, Some(0));
    assert_eq!(two, Some(1));
    tracker.cancel(one.unwrap());
    tracker.finish(two.unwrap());
    let a = tracker.next_chunk().unwrap();
    assert_eq!(a, 0);
    let b = tracker.next_chunk().unwrap();
    assert_eq!(b, 2);
    let c = tracker.next_chunk().unwrap();
    assert_eq!(c, 3);
    let d = tracker.next_chunk().unwrap();
    assert_eq!(d, 4);
    assert!(!tracker.done());
    assert!(tracker.allocated());
    tracker.cancel(c);
    assert!(!tracker.allocated());
    let e = tracker.next_chunk().unwrap();
    assert_eq!(e, 3);
    let f = tracker.next_chunk().is_none();
    assert_eq!(f, true);
    tracker.finish(a);
    tracker.finish(b);
    tracker.finish(d);
    tracker.finish(e);
    assert!(tracker.done());
    assert!(tracker.allocated());
}

#[test]
fn concurrent_chunk_allocation() {
    // two workers: one finishes index 0, one cancels index 1
    let mut tracker = ChunkedTask::new(4);
    let w1 = tracker.next_chunk().unwrap();
    let w2 = tracker.next_chunk().unwrap();
    assert_eq!(w1, 0);
    assert_eq!(w2, 1);
    tracker.finish(w1);
    tracker.cancel(w2);
    // the canceled index is re-issued before fresh ones
    assert_eq!(tracker.next_chunk(), Some(1));
    assert_eq!(tracker.next_chunk(), Some(2));
    assert_eq!(tracker.next_chunk(), Some(3));
    assert_eq!(tracker.next_chunk(), None);
    // the low-water mark reaches 3 only after the canceled 1 is finished
    tracker.finish(1);
    assert_eq!(tracker.confirmed, 1);
    assert!(!tracker.done());
    tracker.finish(2);
    tracker.finish(3);
    assert_eq!(tracker.confirmed, 3);
    assert!(tracker.done());
    assert!(tracker.allocated());
}

#[test]
fn cancellation_blocks_the_low_water_mark() {
    let mut tracker = ChunkedTask::new(3);
    let a = tracker.next_chunk().unwrap();
    let b = tracker.next_chunk().unwrap();
    tracker.cancel(a);
    // while the cancellation is queued, finishing does not advance
    tracker.finish(b);
    assert_eq!(tracker.confirmed, 0);
    let again = tracker.next_chunk().unwrap();
    assert_eq!(again, a);
    tracker.finish(again);
    assert_eq!(tracker.confirmed, a);
}

#[test]
fn an_index_never_drawn_cannot_be_canceled() {
    let mut tracker = ChunkedTask::new(4);
    let a = tracker.next_chunk().unwrap();
    assert_eq!(a, 0);
    tracker.cancel(3);
    assert_eq!(tracker.canceled.len(), 0);
    assert_eq!(tracker.next_chunk(), Some(1));
}
