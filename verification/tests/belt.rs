use belt_machine::belt::Belt;

#[test]
fn test_belt_rotation_and_wraparound() {
    let mut belt = Belt::with_state([0; 16]);
    // Push 1..=5: the most recent value sits at age 0.
    for v in 1..=5u16 {
        belt.push_belt(v);
    }
    for i in 0..5usize {
        assert_eq!(*belt.peek_belt(i), (5 - i) as u16);
    }
    // The untouched old contents follow.
    assert_eq!(*belt.peek_belt(5), 0);
    // An index at the capacity wraps: peek(16) aliases peek(0).
    assert_eq!(belt.peek_belt(16), belt.peek_belt(0));
    // Pushing beyond the capacity evicts the oldest values.
    for v in 6..=20u16 {
        belt.push_belt(v);
    }
    assert_eq!(*belt.peek_belt(0), 20);
    assert_eq!(*belt.peek_belt(15), 5);
}

#[test]
fn test_belt_with_state_order() {
    let mut arr = [0u16; 16];
    for (i, slot) in arr.iter_mut().enumerate() {
        *slot = (i * 10) as u16;
    }
    let belt = Belt::with_state(arr);
    assert_eq!(*belt.peek_belt(0), 0);
    assert_eq!(*belt.peek_belt(1), 10);
    assert_eq!(*belt.peek_belt(15), 150);
}
