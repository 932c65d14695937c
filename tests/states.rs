use wu::states::GlobalStates;

#[test]
fn default_state_is_kept_and_selected_back() {
    let mut g = GlobalStates::new(1, "default");
    g.add_state(2, "second");
    assert_eq!(g.ids(), vec![1, 2]);
    g.set_active_state(2);
    assert_eq!(g.selected_id(), 2);
    assert_eq!(g.state(2), Some(&"second"));
    g.set_active_state(77);
    assert_eq!(g.selected_id(), 1);
    assert!(!g.remove_state(1));
    assert_eq!(g.default_id(), 1);
    g.set_active_state(2);
    assert!(g.remove_state(2));
    assert_eq!(g.selected_id(), 1);
    assert_eq!(g.ids(), vec![1]);
    assert!(!g.remove_state(2));
}

#[test]
fn states_from_a_list_keep_every_state() {
    let g = GlobalStates::from_states_with_ids(vec![(5, "a"), (6, "b"), (5, "c")], 0, "none");
    assert_eq!(g.ids(), vec![5, 6, 5]);
    assert_eq!(g.len(), 3);
    assert_eq!(g.entry(2), Some(&(5, "c")));
    assert_eq!(g.default_id(), 5);
    assert_eq!(g.selected_id(), 5);
    assert_eq!(g.state(5), Some(&"a"));
    let empty = GlobalStates::from_states_with_ids(vec![], 9, "fallback");
    assert_eq!(empty.ids(), vec![9]);
    assert_eq!(empty.state(9), Some(&"fallback"));
}

#[test]
fn removing_an_id_removes_every_state_under_it() {
    let mut g = GlobalStates::from_states_with_ids(vec![(1, 'a'), (2, 'b'), (3, 'c'), (2, 'd')], 0, 'z');
    g.set_active_state(3);
    assert!(g.remove_state(2));
    assert_eq!(g.ids(), vec![1, 3]);
    assert_eq!(g.selected_id(), 3);
    g.add_state(4, 'e');
    assert_eq!(g.ids(), vec![1, 3, 4]);
}
