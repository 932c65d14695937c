use wu::shell::{ShellCtx, ShellSlot, ShellStack, SlotKind};

#[test]
fn top_context_overrides_and_inherits() {
    let base = ShellCtx::cleaned().header("site header").footer("site footer");
    let mut s = ShellStack::new(base);
    assert_eq!(s.resolve(SlotKind::Header), Some(&"site header"));
    assert_eq!(s.resolve(SlotKind::LeftSidebar), None);
    s.push(ShellCtx::new().no_header().left_sidebar("menu"));
    assert_eq!(s.resolve(SlotKind::Header), None);
    assert_eq!(s.resolve(SlotKind::LeftSidebar), Some(&"menu"));
    assert_eq!(s.resolve(SlotKind::Footer), Some(&"site footer"));
    assert!(s.pop());
    assert_eq!(s.resolve(SlotKind::Header), Some(&"site header"));
    assert!(!s.pop());
    assert_eq!(s.resolve(SlotKind::Footer), Some(&"site footer"));
}

#[test]
fn builders_touch_one_slot() {
    let c = ShellCtx::new().inner_header(1).no_inner_footer().right_sidebar(2);
    assert!(matches!(c.slot(SlotKind::InnerHeader), ShellSlot::Shown(1)));
    assert!(matches!(c.slot(SlotKind::InnerFooter), ShellSlot::Hidden));
    assert!(matches!(c.slot(SlotKind::RightSidebar), ShellSlot::Shown(2)));
    assert!(matches!(c.slot(SlotKind::Header), ShellSlot::Inherit));
    let d = ShellCtx::<u8>::cleaned().no_left_sidebar().no_right_sidebar().no_footer();
    assert!(matches!(d.slot(SlotKind::Footer), ShellSlot::Hidden));
}

#[test]
fn all_inherit_shows_nothing() {
    let s: ShellStack<u8> = ShellStack::new(ShellCtx::new());
    assert_eq!(s.resolve(SlotKind::InnerFooter), None);
}
