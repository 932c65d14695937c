use wu::stack::OverlayStack;

#[test]
fn modal_scenario_push_remove_pop() {
    let mut s: OverlayStack<&str> = OverlayStack::new();
    assert_eq!(s.push("first"), 0);
    assert_eq!(s.active(), Some(&"first"));
    assert_eq!(s.push("second"), 1);
    assert_eq!(s.active(), Some(&"second"));
    s.remove(0);
    assert_eq!(s.active(), Some(&"second"));
    assert!(s.pop().is_some());
    assert_eq!(s.active(), None);
    assert!(s.is_empty());
}

#[test]
fn push_n_pop_n_empties() {
    let mut s: OverlayStack<u32> = OverlayStack::new();
    for i in 0..5u32 {
        s.push(i);
    }
    assert_eq!(s.active(), Some(&4));
    for _ in 0..5 {
        assert!(s.pop().is_some());
    }
    assert!(s.is_empty());
    assert!(s.pop().is_none());
    assert_eq!(s.active(), None);
}

#[test]
fn active_is_highest_surviving_id() {
    let mut s: OverlayStack<char> = OverlayStack::new();
    let a = s.push('a');
    let b = s.push('b');
    let c = s.push('c');
    assert!(a < b && b < c);
    s.remove(c);
    assert_eq!(s.active(), Some(&'b'));
    assert_eq!(s.top_id(), Some(b));
    let d = s.push('d');
    assert!(d > c);
    assert_eq!(s.active(), Some(&'d'));
    s.pop();
    s.pop();
    assert_eq!(s.active(), Some(&'a'));
}

#[test]
fn remove_many_and_all_except_keep_order() {
    let mut s: OverlayStack<u8> = OverlayStack::new();
    for x in 10..15u8 {
        s.push(x);
    }
    s.remove_many(&vec![1, 3, 42]);
    let ids: Vec<u64> = (0..s.len()).map(|i| s.entry(i).unwrap().id).collect();
    assert_eq!(ids, vec![0, 2, 4]);
    assert_eq!(s.active(), Some(&14));
    s.remove_all_except(2);
    assert_eq!(s.len(), 1);
    assert_eq!(s.active(), Some(&12));
    s.remove_all_except(99);
    assert!(s.is_empty());
    assert_eq!(s.active(), None);
}

#[test]
fn modify_replaces_payload_in_place() {
    let mut s: OverlayStack<String> = OverlayStack::new();
    s.push("one".to_string());
    s.push("two".to_string());
    assert_eq!(s.modify(0, "uno".to_string()), Some("one".to_string()));
    assert_eq!(s.entry(0).unwrap().payload, "uno");
    assert_eq!(s.entry(0).unwrap().id, 0);
    assert_eq!(s.active(), Some(&"two".to_string()));
    assert_eq!(s.modify(7, "x".to_string()), None);
    assert_eq!(s.len(), 2);
}

#[test]
fn pop_on_empty_is_a_no_op() {
    let mut s: OverlayStack<u8> = OverlayStack::new();
    assert!(s.pop().is_none());
    assert!(s.is_empty());
    assert_eq!(s.push(1), 0);
}
