use wu::focus::{Container, Descendant, ElementKind, TrapError};
use wu::modals::{modal_class, Modal, ModalHook};

fn button(id: u64) -> Descendant {
    Descendant { id, kind: ElementKind::Button, has_href: false, disabled: false }
}

fn modal<V>(content: V) -> Modal<V> {
    Modal { class: String::new(), content }
}

#[test]
fn modals_open_and_close_in_order() {
    let mut h: ModalHook<&str> = ModalHook::new();
    let first = Container { id: 1, descendants: vec![button(11)] };
    assert_eq!(h.open(modal("first")), 0);
    assert_eq!(h.trap_focus(Some(5), Some(&first)).unwrap().focus, Some(11));
    assert!(h.is_active_modal(0));
    let second = Container { id: 2, descendants: vec![button(21)] };
    assert_eq!(h.open(modal("second")), 1);
    h.trap_focus(Some(11), Some(&second)).unwrap();
    assert!(!h.is_active_modal(0));
    assert!(h.is_active_modal(1));
    assert_eq!(h.resuming_target(), Some(1));
    let (closed, t) = h.close(&first.descendants);
    assert_eq!(closed.unwrap().payload.content, "second");
    assert_eq!(t.unwrap().focus, Some(11));
    assert_eq!(h.len(), 1);
    let (closed, t) = h.close(&vec![]);
    assert_eq!(closed.unwrap().payload.content, "first");
    assert_eq!(t.unwrap().focus, None);
    assert!(!h.trap().is_active());
    assert_eq!(h.len(), 0);
}

#[test]
fn modal_opens_without_a_resolved_container() {
    let mut h: ModalHook<u8> = ModalHook::new();
    assert_eq!(h.open(modal(1)), 0);
    assert_eq!(h.trap_focus(None, None), Err(TrapError::MissingTarget));
    assert_eq!(h.len(), 1);
    assert!(!h.trap().is_active());
}

#[test]
fn trap_focus_needs_an_open_modal() {
    let mut h: ModalHook<u8> = ModalHook::new();
    let c = Container { id: 1, descendants: vec![button(11)] };
    assert_eq!(h.trap_focus(Some(3), Some(&c)), Err(TrapError::MissingTarget));
    assert!(!h.trap().is_active());
}

#[test]
fn closing_an_untrapped_modal_leaves_the_frame_beneath() {
    let mut h: ModalHook<&str> = ModalHook::new();
    let first = Container { id: 1, descendants: vec![button(11)] };
    h.open(modal("first"));
    h.trap_focus(Some(5), Some(&first)).unwrap();
    h.open(modal("second"));
    assert_eq!(h.trap_focus(Some(11), None), Err(TrapError::MissingTarget));
    let (closed, t) = h.close(&vec![]);
    assert_eq!(closed.unwrap().payload.content, "second");
    assert_eq!(t, None);
    assert!(h.trap().is_active());
    let (_, t) = h.close(&vec![]);
    assert!(t.unwrap().teardown);
    assert!(!h.trap().is_active());
}

#[test]
fn modal_classes_are_joined_and_merged() {
    let mut h: ModalHook<u8> = ModalHook::new();
    assert_eq!(h.backdrop_class(), "overlay pointer-events-none");
    h.open(modal(1));
    assert_eq!(h.backdrop_class(), "overlay pointer-events-none bg-black/25 backdrop-blur-sm");
    assert_eq!(modal_class("p-4", "p-2"), "z-1 overlay-container p-2");
    assert_eq!(modal_class("  ", " p-2 "), "z-1 overlay-container p-2");
}

#[test]
fn removing_a_lower_modal_keeps_the_trap() {
    let mut h: ModalHook<&str> = ModalHook::new();
    let first = Container { id: 1, descendants: vec![button(11)] };
    let second = Container { id: 2, descendants: vec![button(21)] };
    h.open(modal("first"));
    h.trap_focus(Some(5), Some(&first)).unwrap();
    h.open(modal("second"));
    h.trap_focus(Some(11), Some(&second)).unwrap();
    assert_eq!(h.remove(0, &vec![]), None);
    assert_eq!(h.len(), 1);
    assert!(h.is_active_modal(1));
    assert_eq!(h.entry(0).unwrap().payload.content, "second");
    assert!(h.trap().is_active());
    let t = h.remove(1, &first.descendants).unwrap();
    assert_eq!(t.focus, Some(11));
    assert_eq!(h.len(), 0);
}
