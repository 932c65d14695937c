use wu::tabs::{Fallback, TabSet};

#[test]
fn tabs_from_list_select_first() {
    let t = TabSet::from_tabs(vec!["a", "b", "c"], Fallback::FirstRemaining);
    assert_eq!(t.len(), 3);
    assert_eq!(t.selected_id(), Some(0));
    assert_eq!(t.entry(2).unwrap().id, 2);
    assert_eq!(t.entry(2).unwrap().payload, "c");
    let empty: TabSet<&str> = TabSet::from_tabs(vec![], Fallback::FirstRemaining);
    assert_eq!(empty.selected_id(), None);
}

#[test]
fn adding_selects_the_new_tab() {
    let mut t: TabSet<u8> = TabSet::new(Fallback::FirstRemaining);
    assert_eq!(t.add(1), 0);
    assert_eq!(t.selected_id(), Some(0));
    assert_eq!(t.add(2), 1);
    assert_eq!(t.selected_id(), Some(1));
    t.remove(0);
    assert_eq!(t.selected_id(), Some(1));
    t.remove(1);
    assert_eq!(t.selected_id(), None);
    assert_eq!(t.add(3), 2);
    assert_eq!(t.selected_id(), Some(2));
}

#[test]
fn removal_keeps_a_surviving_selection() {
    let mut t = TabSet::from_tabs(vec![10, 11, 12, 13], Fallback::FirstRemaining);
    assert!(t.switch_to(2));
    t.remove_many(&vec![0, 3]);
    assert_eq!(t.selected_id(), Some(2));
    assert!(!t.switch_to(3));
    assert_eq!(t.selected_id(), Some(2));
}

#[test]
fn fallback_rules_pick_first_or_last() {
    let mut first = TabSet::from_tabs(vec![0, 1, 2, 3], Fallback::FirstRemaining);
    first.switch_to(2);
    first.remove(2);
    assert_eq!(first.selected_id(), Some(0));
    let mut last = TabSet::from_tabs(vec![0, 1, 2, 3], Fallback::LastRemaining);
    last.switch_to(1);
    last.remove_all_except(2);
    assert_eq!(last.selected_id(), Some(2));
    last.switch_to(2);
    last.add(9);
    last.remove(2);
    assert_eq!(last.selected_id(), Some(4));
}

#[test]
fn modify_keeps_selection() {
    let mut t = TabSet::from_tabs(vec!["x", "y"], Fallback::FirstRemaining);
    assert_eq!(t.modify(1, "z"), Some("y"));
    assert_eq!(t.entry(1).unwrap().payload, "z");
    assert_eq!(t.selected_id(), Some(0));
    assert_eq!(t.modify(5, "w"), None);
}
