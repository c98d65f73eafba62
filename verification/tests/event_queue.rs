use uno_systems_lab::event_queue::EventQueue;

#[test]
fn new_queue_is_empty() {
    let queue = EventQueue::<u8, 4>::new();

    assert_eq!(queue.len(), 0);
    assert_eq!(queue.capacity(), 4);
    assert!(queue.is_empty());
    assert!(!queue.is_full());
}

#[test]
fn preserves_fifo_order() {
    let mut queue = EventQueue::<u8, 4>::new();

    assert_eq!(queue.push(10), Ok(()));
    assert_eq!(queue.push(20), Ok(()));
    assert_eq!(queue.push(30), Ok(()));

    assert_eq!(queue.pop(), Some(10));
    assert_eq!(queue.pop(), Some(20));
    assert_eq!(queue.pop(), Some(30));
    assert_eq!(queue.pop(), None);
}

#[test]
fn rejects_new_item_when_full() {
    let mut queue = EventQueue::<u8, 2>::new();

    assert_eq!(queue.push(10), Ok(()));
    assert_eq!(queue.push(20), Ok(()));
    assert_eq!(queue.push(30), Err(30));

    assert_eq!(queue.len(), 2);
    assert_eq!(queue.pop(), Some(10));
    assert_eq!(queue.pop(), Some(20));
}

#[test]
fn wraps_around_the_array() {
    let mut queue = EventQueue::<u8, 3>::new();

    queue.push(10).unwrap();
    queue.push(20).unwrap();
    queue.push(30).unwrap();

    assert_eq!(queue.pop(), Some(10));
    assert_eq!(queue.pop(), Some(20));

    queue.push(40).unwrap();
    queue.push(50).unwrap();

    assert_eq!(queue.pop(), Some(30));
    assert_eq!(queue.pop(), Some(40));
    assert_eq!(queue.pop(), Some(50));
}

#[test]
fn full_queue_reports_full_and_empty_queue_pops_nothing() {
    let mut queue = EventQueue::<u32, 1>::new();

    assert_eq!(queue.pop(), None);
    assert_eq!(queue.len(), 0);
    assert_eq!(queue.push(7), Ok(()));
    assert!(queue.is_full());
    assert!(!queue.is_empty());
    assert_eq!(queue.push(8), Err(8));
    assert_eq!(queue.pop(), Some(7));
    assert!(queue.is_empty());
    assert_eq!(queue.pop(), None);
}

#[test]
fn interleaved_pushes_and_pops_keep_order_across_many_wraps() {
    let mut queue = EventQueue::<u16, 3>::new();
    let mut next_in: u16 = 0;
    let mut next_out: u16 = 0;

    for round in 0..50u16 {
        let pushes = round % 3 + 1;
        for _ in 0..pushes {
            match queue.push(next_in) {
                Ok(()) => next_in += 1,
                Err(rejected) => {
                    assert_eq!(rejected, next_in);
                    assert_eq!(queue.len(), 3);
                }
            }
        }
        let pops = (round + 1) % 3;
        for _ in 0..pops {
            if let Some(value) = queue.pop() {
                assert_eq!(value, next_out);
                next_out += 1;
            }
        }
        assert_eq!(queue.len() as u16, next_in - next_out);
        assert!(queue.len() <= queue.capacity());
    }
    while let Some(value) = queue.pop() {
        assert_eq!(value, next_out);
        next_out += 1;
    }
    assert_eq!(next_out, next_in);
}

#[test]
fn full_exactly_when_push_is_rejected() {
    let mut queue = EventQueue::<u8, 2>::new();
    for value in 0..5u8 {
        let full = queue.is_full();
        assert!(queue.len() <= queue.capacity());
        assert_eq!(queue.push(value).is_err(), full);
    }
}
