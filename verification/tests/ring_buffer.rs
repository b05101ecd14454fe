use ringbuff::buffer::{RingBuff, MAX};

#[test]
fn test_ringbuff_empty() {
    let mut rb: RingBuff<MAX> = RingBuff::new();
    assert_eq!(None, rb.pop());
}

#[test]
fn test_ringbuff_normal() {
    let mut rb: RingBuff<MAX> = RingBuff::new();
    assert_eq!(10, rb.push(10).unwrap());
    let rslt = rb.pop();
    assert_eq!(10, rslt.unwrap());
    assert_eq!(20, rb.push(20).unwrap());
    let rslt = rb.pop();
    assert_eq!(20, rslt.unwrap());
    assert_eq!(30, rb.push(30).unwrap());
    assert_eq!(40, rb.push(40).unwrap());
    let rslt = rb.pop();
    assert_eq!(30, rslt.unwrap());
    let rslt = rb.pop();
    assert_eq!(40, rslt.unwrap());
    let rslt = rb.pop();
    assert_eq!(None, rslt);
}

#[test]
fn test_ringbuff_full() {
    let mut rb: RingBuff<MAX> = RingBuff::new();
    for _i in 2..MAX {
        rb.push(10);
    }
    assert_eq!(123, rb.push(123).unwrap());
    assert_eq!(None, rb.push(321));
    assert_eq!(None, rb.push(345));
}

#[test]
fn test_ringbuff_get_left() {
    let mut rb: RingBuff<MAX> = RingBuff::new();
    assert_eq!(9, rb.get_left());
    rb.push(10);
    assert_eq!(8, rb.get_left());
    rb.push(9);
    for i in 0..6 {
        rb.push(i);
    }
    assert_eq!(1, rb.get_left());
    rb.push(10);
    assert_eq!(0, rb.get_left());
    rb.pop();
    assert_eq!(1, rb.get_left());
    for _i in 0..3 {
        rb.pop();
    }
    assert_eq!(4, rb.get_left());
    for _i in 0..3 {
        rb.push(10);
    }
    assert_eq!(1, rb.get_left());
}

#[test]
fn default_capacity_is_ten() {
    assert_eq!(10, MAX);
}

#[test]
fn fresh_buffer_has_all_but_one_slot_free() {
    let a: RingBuff<1> = RingBuff::new();
    assert_eq!(0, a.get_left());
    let b: RingBuff<2> = RingBuff::new();
    assert_eq!(1, b.get_left());
    let c: RingBuff<10> = RingBuff::new();
    assert_eq!(9, c.get_left());
    let d: RingBuff<257> = RingBuff::new();
    assert_eq!(256, d.get_left());
}

#[test]
fn fills_after_capacity_minus_one_pushes() {
    let mut rb: RingBuff<5> = RingBuff::new();
    for i in 0..4u32 {
        assert_eq!(Some(i), rb.push(i));
    }
    assert_eq!(0, rb.get_left());
    assert_eq!(None, rb.push(99));
}

#[test]
fn each_push_takes_one_slot_and_each_pop_returns_one() {
    let mut rb: RingBuff<4> = RingBuff::new();
    assert_eq!(3, rb.get_left());
    assert_eq!(Some(7), rb.push(7));
    assert_eq!(2, rb.get_left());
    assert_eq!(Some(8), rb.push(8));
    assert_eq!(1, rb.get_left());
    assert_eq!(Some(7), rb.pop());
    assert_eq!(2, rb.get_left());
    assert_eq!(Some(8), rb.pop());
    assert_eq!(3, rb.get_left());
}

#[test]
fn failed_calls_leave_the_free_count() {
    let mut rb: RingBuff<3> = RingBuff::new();
    assert_eq!(None, rb.pop());
    assert_eq!(2, rb.get_left());
    rb.push(1);
    rb.push(2);
    assert_eq!(0, rb.get_left());
    assert_eq!(None, rb.push(3));
    assert_eq!(0, rb.get_left());
}

#[test]
fn pops_come_in_push_order() {
    let mut rb: RingBuff<8> = RingBuff::new();
    let values: [u32; 7] = [5, 3, 9, 0, 4_000_000_000, 3, 1];
    for v in values {
        assert_eq!(Some(v), rb.push(v));
    }
    for v in values {
        assert_eq!(Some(v), rb.pop());
    }
    assert_eq!(None, rb.pop());
}

#[test]
fn order_is_kept_across_the_wrap() {
    let mut rb: RingBuff<4> = RingBuff::new();
    let mut pushed: u32 = 0;
    let mut popped: u32 = 0;
    for round in 0..25 {
        let burst = 1 + round % 3;
        for _ in 0..burst {
            assert_eq!(Some(pushed), rb.push(pushed));
            pushed += 1;
        }
        assert_eq!(3 - burst as usize, rb.get_left());
        for _ in 0..burst {
            assert_eq!(Some(popped), rb.pop());
            popped += 1;
        }
        assert_eq!(3, rb.get_left());
    }
    assert_eq!(pushed, popped);
}

#[test]
fn pop_on_empty_keeps_failing() {
    let mut rb: RingBuff<4> = RingBuff::new();
    for _ in 0..10 {
        assert_eq!(None, rb.pop());
        assert_eq!(3, rb.get_left());
    }
    assert_eq!(Some(1), rb.push(1));
    assert_eq!(Some(1), rb.pop());
    for _ in 0..10 {
        assert_eq!(None, rb.pop());
        assert_eq!(3, rb.get_left());
    }
}

#[test]
fn push_on_full_keeps_failing_and_drops_the_value() {
    let mut rb: RingBuff<3> = RingBuff::new();
    assert_eq!(Some(1), rb.push(1));
    assert_eq!(Some(2), rb.push(2));
    for i in 0..10u32 {
        assert_eq!(None, rb.push(100 + i));
        assert_eq!(0, rb.get_left());
    }
    assert_eq!(Some(1), rb.pop());
    assert_eq!(Some(2), rb.pop());
    assert_eq!(None, rb.pop());
}

#[test]
fn popped_slot_is_overwritten_by_a_later_push() {
    let mut rb: RingBuff<2> = RingBuff::new();
    assert_eq!(Some(11), rb.push(11));
    assert_eq!(None, rb.push(12));
    assert_eq!(Some(11), rb.pop());
    assert_eq!(Some(13), rb.push(13));
    assert_eq!(Some(13), rb.pop());
    assert_eq!(Some(14), rb.push(14));
    assert_eq!(Some(14), rb.pop());
}

#[test]
fn buffer_without_slots_is_empty_and_full() {
    let mut rb: RingBuff<0> = RingBuff::new();
    assert_eq!(0, rb.get_left());
    assert_eq!(None, rb.push(1));
    assert_eq!(None, rb.pop());
    assert_eq!(0, rb.get_left());
}

#[test]
fn buffer_of_one_slot_is_empty_and_full() {
    let mut rb: RingBuff<1> = RingBuff::new();
    assert_eq!(0, rb.get_left());
    assert_eq!(None, rb.push(1));
    assert_eq!(None, rb.pop());
    assert_eq!(0, rb.get_left());
}
