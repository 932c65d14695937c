use wu::position::Position;
use wu::toast::{Toast, ToastBody, ToastLevel, ToastQueue, DEFAULT_TOAST_TIMEOUT_MS};

#[test]
fn cancel_twice_removes_once() {
    let mut q: ToastQueue<()> = ToastQueue::new();
    let h = q.enqueue(Toast::from_text(ToastLevel::Info, "hello".to_string()));
    let other = q.enqueue(Toast::from_text(ToastLevel::Warn, "keep".to_string()));
    assert_eq!(q.len(), 2);
    assert_eq!(h.cancel(&mut q), Some(h.toast_id));
    assert_eq!(q.len(), 1);
    assert_eq!(h.cancel(&mut q), None);
    assert_eq!(q.len(), 1);
    assert!(!q.expire(h.toast_id));
    assert_eq!(q.len(), 1);
    assert_eq!(other.cancel(&mut q), Some(other.toast_id));
    assert_eq!(q.len(), 0);
}

/// A stand-in for the platform's timers: (deadline, toast id), cleared on cancel.
struct Timers {
    pending: Vec<(u64, u64)>,
}

impl Timers {
    fn clear(&mut self, id: u64) {
        self.pending.retain(|t| t.1 != id);
    }

    fn fire_due(&mut self, now: u64) -> Vec<u64> {
        let due: Vec<u64> = self.pending.iter().filter(|t| t.0 <= now).map(|t| t.1).collect();
        self.pending.retain(|t| t.0 > now);
        due
    }
}

#[test]
fn cancelled_toast_timer_never_fires() {
    let mut q: ToastQueue<()> = ToastQueue::new();
    let mut timers = Timers { pending: Vec::new() };
    let toast = Toast::from_text_with(ToastLevel::Info, "saved".to_string(), 5000, true);
    let timeout = toast.timeout_ms;
    let h = q.enqueue(toast);
    timers.pending.push((timeout, h.toast_id));

    assert!(timers.fire_due(3000).is_empty());
    let to_clear = h.cancel(&mut q).expect("the toast's timer was running");
    timers.clear(to_clear);
    assert_eq!(q.len(), 0);

    let fired = timers.fire_due(5000);
    assert!(fired.is_empty());
    for id in fired {
        q.expire(id);
    }
    assert_eq!(q.len(), 0);
}

#[test]
fn timer_removes_toast_and_later_cancel_is_a_no_op() {
    let mut q: ToastQueue<()> = ToastQueue::new();
    let h = q.enqueue(Toast::from_view(ToastLevel::Error, ()));
    assert!(q.expire(h.toast_id));
    assert_eq!(q.len(), 0);
    assert_eq!(h.cancel(&mut q), None);
}

#[test]
fn toast_constructors_and_ids() {
    let t: Toast<u8> = Toast::from_view(ToastLevel::Warn, 7);
    assert_eq!(t.timeout_ms, DEFAULT_TOAST_TIMEOUT_MS);
    assert_eq!(DEFAULT_TOAST_TIMEOUT_MS, 3000);
    assert!(t.dismissable);
    assert!(matches!(t.body, ToastBody::View(7)));
    let u: Toast<u8> = Toast::from_view_with(ToastLevel::Info, 1, 1200, false);
    assert_eq!(u.timeout_ms, 1200);
    assert!(!u.dismissable);
    let mut q: ToastQueue<u8> = ToastQueue::new();
    assert_eq!(q.enqueue(t).toast_id, 0);
    assert_eq!(q.enqueue(u).toast_id, 1);
}

#[test]
fn level_icon_classes() {
    assert_eq!(ToastLevel::Info.icon_classes(), "flex-none icon i-o-info-circle ");
    assert_eq!(
        ToastLevel::Warn.icon_classes(),
        "flex-none icon i-o-exclamation-circle icon-warning-700 dark:icon-warning-500"
    );
    assert_eq!(
        ToastLevel::Error.icon_classes(),
        "flex-none icon i-o-exclamation-triangle icon-error-700 dark:icon-error-500"
    );
}

#[test]
fn position_classes() {
    assert_eq!(Position::TopRight.toast_list_class(), "overlay w-fit overlay-tr");
    assert_eq!(Position::Left.placement(), "overlay-l");
    assert_eq!(
        Position::Bottom.toast_item_class(),
        "horizontal vcenter gap-4 max-w-lvw min-h-(--wu-dynamic-toast-min-height) p-(--wu-dynamic-toast-padding) first:rounded-t-(--wu-dynamic-toast-border-radius)"
    );
}

#[test]
fn drawer_sides_and_classes() {
    assert_eq!(Position::TopRight.drawer_side(), Position::Right);
    assert_eq!(Position::Left.drawer_side(), Position::Left);
    assert_eq!(Position::BottomLeft.drawer_side(), Position::Right);
    assert_eq!(
        Position::Top.drawer_classes(),
        "overlay-tl border-b-(--wu-dynamic-drawer-border-width) rounded-b-(--wu-dynamic-drawer-border-radius) shadow-lg h-(--wu-dynamic-drawer-size)"
    );
    assert_eq!(Position::TopLeft.drawer_classes(), Position::Right.drawer_classes());
}
