use rustos::keyboard::InputQueue;

#[test]
fn fifo_order_and_empty_after() {
    let mut q = InputQueue::new();
    let pushed: Vec<u8> = vec![7, 104, 105, 10, 255, 0];
    for &b in pushed.iter() {
        q.push(b);
    }
    assert_eq!(q.len(), pushed.len());
    let mut popped: Vec<u8> = Vec::new();
    for _ in 0..pushed.len() {
        popped.push(q.pop().expect("queue should still hold bytes"));
    }
    assert_eq!(popped, pushed);
    assert!(q.is_empty());
    assert_eq!(q.pop(), None);
}

#[test]
fn pop_on_empty_returns_none_immediately() {
    let mut q = InputQueue::new();
    assert_eq!(q.pop(), None);
    assert!(q.is_empty());
    assert_eq!(q.len(), 0);
}

#[test]
fn interleaved_pushes_and_pops_keep_order() {
    let mut q = InputQueue::new();
    q.push(1);
    q.push(2);
    assert_eq!(q.pop(), Some(1));
    q.push(3);
    assert_eq!(q.pop(), Some(2));
    assert_eq!(q.pop(), Some(3));
    assert_eq!(q.pop(), None);
}
