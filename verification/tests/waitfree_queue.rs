use lib::waitfree_queue::{get_next_index, WaitFreeQueue};

#[test]
fn test_wait_free_queue() {
    let mut queue = WaitFreeQueue::<i32, 64>::new();
    assert_eq!(queue.try_read(), None);
    assert_eq!(queue.try_write(123), true);
    assert_eq!(queue.try_read(), Some(&mut 123));
    assert_eq!(queue.try_read(), None);
}

#[test]
fn next_index_wraps_at_the_end_of_the_ring() {
    assert_eq!(get_next_index(0, 4), 1);
    assert_eq!(get_next_index(2, 4), 3);
    assert_eq!(get_next_index(3, 4), 0);
    assert_eq!(get_next_index(0, 1), 0);
    assert_eq!(get_next_index(5, 3), 0);
    assert_eq!(get_next_index(7, 5), 3);
}

#[test]
fn queue_holds_size_minus_one_values() {
    let mut queue = WaitFreeQueue::<u32, 4>::new();
    assert_eq!(queue.try_write(1), true);
    assert_eq!(queue.try_write(2), true);
    assert_eq!(queue.try_write(3), true);
    assert_eq!(queue.try_write(4), false);
    assert_eq!(queue.try_read(), Some(&mut 1));
    assert_eq!(queue.try_write(4), true);
    assert_eq!(queue.try_write(5), false);
    assert_eq!(queue.try_read(), Some(&mut 2));
    assert_eq!(queue.try_read(), Some(&mut 3));
    assert_eq!(queue.try_read(), Some(&mut 4));
    assert_eq!(queue.try_read(), None);
}

#[test]
fn refused_write_leaves_contents_alone() {
    let mut queue = WaitFreeQueue::<u8, 3>::new();
    assert_eq!(queue.try_write(10), true);
    assert_eq!(queue.try_write(20), true);
    assert_eq!(queue.try_write(30), false);
    assert_eq!(queue.try_write(40), false);
    assert_eq!(queue.try_read(), Some(&mut 10));
    assert_eq!(queue.try_read(), Some(&mut 20));
    assert_eq!(queue.try_read(), None);
}

#[test]
fn values_come_out_in_order_across_many_wraps() {
    let mut queue = WaitFreeQueue::<u64, 5>::new();
    let mut next_in: u64 = 0;
    let mut next_out: u64 = 0;
    for round in 0..50u64 {
        let burst = round % 5;
        for _ in 0..burst {
            if queue.try_write(next_in) {
                next_in += 1;
            }
        }
        let take = (round * 3) % 4;
        for _ in 0..take {
            match queue.try_read() {
                Some(v) => {
                    assert_eq!(*v, next_out);
                    next_out += 1;
                }
                None => assert_eq!(next_out, next_in),
            }
        }
        assert!(next_in - next_out <= 4);
    }
    while let Some(v) = queue.try_read() {
        assert_eq!(*v, next_out);
        next_out += 1;
    }
    assert_eq!(next_out, next_in);
}

#[test]
fn one_slot_queue_takes_nothing() {
    let mut queue = WaitFreeQueue::<i32, 1>::new();
    assert_eq!(queue.try_write(1), false);
    assert_eq!(queue.try_read(), None);
    assert_eq!(queue.try_write(2), false);
}

#[test]
fn zero_slot_queue_reads_nothing() {
    let mut queue = WaitFreeQueue::<i32, 0>::new();
    assert_eq!(queue.try_read(), None);
    assert_eq!(queue.try_read(), None);
}

#[test]
fn two_slot_queue_alternates() {
    let mut queue = WaitFreeQueue::<i32, 2>::new();
    for i in 0..10 {
        assert_eq!(queue.try_write(i), true);
        assert_eq!(queue.try_write(i + 100), false);
        assert_eq!(queue.try_read(), Some(&mut i.clone()));
        assert_eq!(queue.try_read(), None);
    }
}

#[test]
fn write_then_read_gives_the_value_back() {
    let mut queue = WaitFreeQueue::<String, 8>::new();
    assert_eq!(queue.try_write(String::from("hello")), true);
    let got = queue.try_read().map(|s| s.clone());
    assert_eq!(got, Some(String::from("hello")));
    assert_eq!(queue.try_read(), None);
}

#[test]
fn value_can_be_taken_out_through_the_reference() {
    let mut queue = WaitFreeQueue::<Vec<u8>, 4>::new();
    assert_eq!(queue.try_write(vec![1, 2, 3]), true);
    assert_eq!(queue.try_write(vec![4]), true);
    let mut taken: Vec<u8> = Vec::new();
    if let Some(v) = queue.try_read() {
        std::mem::swap(v, &mut taken);
    }
    assert_eq!(taken, vec![1, 2, 3]);
    assert_eq!(queue.try_read(), Some(&mut vec![4]));
    assert_eq!(queue.try_read(), None);
}
