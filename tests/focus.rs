use wu::focus::{
    cycle_focus, find_boundary, Boundary, Container, Descendant, ElementKind, FocusTrap, InputType,
    Interceptor, KeyOutcome, TrapError,
};

fn button(id: u64) -> Descendant {
    Descendant { id, kind: ElementKind::Button, has_href: false, disabled: false }
}

fn other(id: u64) -> Descendant {
    Descendant { id, kind: ElementKind::Other, has_href: false, disabled: false }
}

#[test]
fn boundary_skips_unfocusable_elements() {
    let ds = vec![
        other(1),
        Descendant { id: 2, kind: ElementKind::Link, has_href: false, disabled: false },
        Descendant { id: 3, kind: ElementKind::Link, has_href: true, disabled: false },
        Descendant { id: 4, kind: ElementKind::Input(InputType::Other), has_href: false, disabled: false },
        Descendant { id: 5, kind: ElementKind::Input(InputType::Checkbox), has_href: false, disabled: false },
        Descendant { id: 6, kind: ElementKind::Select, has_href: false, disabled: true },
        other(7),
    ];
    assert_eq!(find_boundary(&ds), Some(Boundary { first: 3, last: 5 }));
}

#[test]
fn disabled_link_with_href_takes_focus() {
    let link = Descendant { id: 4, kind: ElementKind::Link, has_href: true, disabled: true };
    let off = Descendant { id: 5, kind: ElementKind::Button, has_href: false, disabled: true };
    assert_eq!(find_boundary(&vec![off, link]), Some(Boundary { first: 4, last: 4 }));
}

#[test]
fn boundary_of_none_and_one() {
    assert_eq!(find_boundary(&vec![]), None);
    assert_eq!(find_boundary(&vec![other(1), other(2)]), None);
    assert_eq!(find_boundary(&vec![other(1), button(2)]), Some(Boundary { first: 2, last: 2 }));
}

#[test]
fn tab_cycles_at_the_boundaries() {
    let ds = vec![button(1), button(2), button(3)];
    let b = find_boundary(&ds);
    assert_eq!(cycle_focus(b, "Tab", false, 3), KeyOutcome::Redirect(1));
    assert_eq!(cycle_focus(b, "Tab", true, 1), KeyOutcome::Redirect(3));
    assert_eq!(cycle_focus(b, "Tab", false, 2), KeyOutcome::PassThrough);
    assert_eq!(cycle_focus(b, "Tab", true, 2), KeyOutcome::PassThrough);
    assert_eq!(cycle_focus(b, "Tab", false, 1), KeyOutcome::PassThrough);
    assert_eq!(cycle_focus(b, "KeyA", false, 3), KeyOutcome::PassThrough);
    assert_eq!(cycle_focus(None, "Tab", false, 3), KeyOutcome::PassThrough);
}

#[test]
fn missing_target_is_refused() {
    let mut t = FocusTrap::new();
    assert_eq!(t.activate(Some(9), None), Err(TrapError::MissingTarget));
    assert!(!t.is_active());
    assert_eq!(t.interceptor(), None);
}

#[test]
fn nested_traps_restore_focus_in_lifo_order() {
    // focus sits on element 100 inside an outer surface that is already trapped
    let outer = Container { id: 10, descendants: vec![button(100), button(101)] };
    let a = Container { id: 20, descendants: vec![button(200), button(201)] };
    let b = Container { id: 30, descendants: vec![button(300)] };
    let mut t = FocusTrap::new();
    let t0 = t.activate(None, Some(&outer)).unwrap();
    assert_eq!(t0.focus, Some(100));
    assert!(!t0.teardown);
    let mut focused = 100;

    let ta = t.activate(Some(focused), Some(&a)).unwrap();
    assert!(ta.teardown);
    focused = ta.focus.unwrap_or(focused);
    assert_eq!(focused, 200);
    assert_eq!(ta.install, Some(Interceptor { scope: 20, boundary: Some(Boundary { first: 200, last: 201 }) }));

    let tb = t.activate(Some(focused), Some(&b)).unwrap();
    focused = tb.focus.unwrap_or(focused);
    assert_eq!(focused, 300);

    assert_eq!(t.resuming_target(), Some(20));
    let d1 = t.deactivate(&a.descendants);
    focused = d1.focus.unwrap_or(focused);
    assert_eq!(focused, 200);
    assert_eq!(d1.install, Some(Interceptor { scope: 20, boundary: Some(Boundary { first: 200, last: 201 }) }));

    assert_eq!(t.resuming_target(), Some(10));
    let d2 = t.deactivate(&outer.descendants);
    focused = d2.focus.unwrap_or(focused);
    assert_eq!(focused, 100);
    assert_eq!(t.interceptor(), Some(Interceptor { scope: 10, boundary: Some(Boundary { first: 100, last: 101 }) }));
}

#[test]
fn last_deactivation_clears_everything() {
    let a = Container { id: 20, descendants: vec![] };
    let mut t = FocusTrap::new();
    let ta = t.activate(Some(7), Some(&a)).unwrap();
    assert_eq!(ta.focus, None);
    let d = t.deactivate(&vec![]);
    assert!(d.teardown);
    assert_eq!(d.focus, None);
    assert_eq!(d.install, None);
    assert!(!t.is_active());
    let again = t.deactivate(&vec![]);
    assert!(!again.teardown);
    assert_eq!(again.focus, None);
}

#[test]
fn resumed_boundary_is_recomputed() {
    let a = Container { id: 20, descendants: vec![button(200)] };
    let b = Container { id: 30, descendants: vec![button(300)] };
    let mut t = FocusTrap::new();
    t.activate(Some(1), Some(&a)).unwrap();
    t.activate(Some(200), Some(&b)).unwrap();
    let grown = vec![button(200), other(205), button(210)];
    let d = t.deactivate(&grown);
    assert_eq!(d.focus, Some(200));
    assert_eq!(d.install, Some(Interceptor { scope: 20, boundary: Some(Boundary { first: 200, last: 210 }) }));
    assert_eq!(t.on_key("Tab", false, 210), KeyOutcome::Redirect(200));
}

#[test]
fn keys_pass_through_without_a_trap() {
    let t = FocusTrap::new();
    assert_eq!(t.on_key("Tab", false, 3), KeyOutcome::PassThrough);
}
