//! Expiring notifications: a queue of toasts, each removed when its timer fires or
//! when it is cancelled through its handle, whichever comes first.

use vstd::prelude::*;
use vstd::string::*;
use crate::position::Position;
use crate::stack::{EntryId, OverlayStack, StackEntry, has_id, without_id, lemma_filter_all_pass, lemma_without_id_len, lemma_without_id_twice};

verus! {

/// How long a toast stays when no timeout is given, in milliseconds.
pub const DEFAULT_TOAST_TIMEOUT_MS: u64 = 3000;

/// All possible toast levels.
#[derive(Clone, Copy, Debug, PartialEq, Eq, Structural)]
pub enum ToastLevel {
    Info,
    Warn,
    Error,
}

/// The icon class of a level.
pub open spec fn icon_of(level: ToastLevel) -> Seq<char> {
    match level {
        ToastLevel::Info => "i-o-info-circle"@,
        ToastLevel::Warn => "i-o-exclamation-circle"@,
        ToastLevel::Error => "i-o-exclamation-triangle"@,
    }
}

/// The icon colour classes of a level.
pub open spec fn icon_color_of(level: ToastLevel) -> Seq<char> {
    match level {
        ToastLevel::Info => ""@,
        ToastLevel::Warn => "icon-warning-700 dark:icon-warning-500"@,
        ToastLevel::Error => "icon-error-700 dark:icon-error-500"@,
    }
}

impl ToastLevel {
    /// The icon class of the level.
    pub fn icon(&self) -> (r: &'static str)
        ensures
            r@ == icon_of(*self),
    {
        match self {
            ToastLevel::Info => "i-o-info-circle",
            ToastLevel::Warn => "i-o-exclamation-circle",
            ToastLevel::Error => "i-o-exclamation-triangle",
        }
    }

    /// The icon colour classes of the level.
    pub fn icon_color(&self) -> (r: &'static str)
        ensures
            r@ == icon_color_of(*self),
    {
        match self {
            ToastLevel::Info => "",
            ToastLevel::Warn => "icon-warning-700 dark:icon-warning-500",
            ToastLevel::Error => "icon-error-700 dark:icon-error-500",
        }
    }

    /// The class list of the level's icon element.
    pub fn icon_classes(&self) -> (r: String)
        ensures
            r@ == "flex-none icon "@ + icon_of(*self) + " "@ + icon_color_of(*self),
    {
        let mut r = String::from_str("flex-none icon ");
        r.append(self.icon());
        r.append(" ");
        r.append(self.icon_color());
        r
    }
}

/// What a toast shows: a view of the caller's, or a text.
pub enum ToastBody<V> {
    View(V),
    Text(String),
}

/// A message to display for a set amount of time.
pub struct Toast<V> {
    pub level: ToastLevel,
    pub body: ToastBody<V>,
    /// Time until the toast is removed, in milliseconds.
    pub timeout_ms: u64,
    /// Whether the toast offers a close button.
    pub dismissable: bool,
}

impl<V> Toast<V> {
    /// A dismissable toast showing `view` for the default time.
    pub fn from_view(level: ToastLevel, view: V) -> (r: Self)
        ensures
            r.level == level,
            r.body == ToastBody::<V>::View(view),
            r.timeout_ms == DEFAULT_TOAST_TIMEOUT_MS,
            r.dismissable,
    {
        Self::from_view_with(level, view, DEFAULT_TOAST_TIMEOUT_MS, true)
    }

    /// A toast showing `view` with the given timeout and dismissability.
    pub fn from_view_with(level: ToastLevel, view: V, timeout_ms: u64, dismissable: bool) -> (r:
        Self)
        ensures
            r.level == level,
            r.body == ToastBody::<V>::View(view),
            r.timeout_ms == timeout_ms,
            r.dismissable == dismissable,
    {
        Toast { level, body: ToastBody::View(view), timeout_ms, dismissable }
    }

    /// A dismissable toast showing `text` for the default time.
    pub fn from_text(level: ToastLevel, text: String) -> (r: Self)
        ensures
            r.level == level,
            r.body == ToastBody::<V>::Text(text),
            r.timeout_ms == DEFAULT_TOAST_TIMEOUT_MS,
            r.dismissable,
    {
        Self::from_text_with(level, text, DEFAULT_TOAST_TIMEOUT_MS, true)
    }

    /// A toast showing `text` with the given timeout and dismissability.
    pub fn from_text_with(level: ToastLevel, text: String, timeout_ms: u64, dismissable: bool) -> (r:
        Self)
        ensures
            r.level == level,
            r.body == ToastBody::<V>::Text(text),
            r.timeout_ms == timeout_ms,
            r.dismissable == dismissable,
    {
        Toast { level, body: ToastBody::Text(text), timeout_ms, dismissable }
    }
}

/// The queue of toasts on display, in the order they were enqueued. Each toast
/// has a timer, known by the toast's identifier, that runs while the toast is in
/// the queue.
pub struct ToastQueue<V> {
    toasts: OverlayStack<Toast<V>>,
}

/// Allows cancelling one toast.
#[derive(Clone, Copy, Debug, PartialEq, Eq, Structural)]
pub struct ToastHandle {
    pub toast_id: EntryId,
}

impl<V> ToastQueue<V> {
    /// The toasts on display, oldest first.
    pub closed spec fn entries(&self) -> Seq<StackEntry<Toast<V>>> {
        self.toasts.entries()
    }

    /// The identifier the next toast gets.
    pub closed spec fn next_id(&self) -> EntryId {
        self.toasts.next_id()
    }

    pub closed spec fn well_formed(&self) -> bool {
        self.toasts.well_formed()
    }

    /// Whether the timer of toast `id` runs: it does exactly while the toast is in
    /// the queue. [`ToastQueue::enqueue`] starts it, [`ToastQueue::expire`] is it
    /// firing, and [`ToastHandle::cancel`] names it for the caller to clear.
    pub open spec fn timer_running(&self, id: EntryId) -> bool {
        has_id(self.entries(), id)
    }

    /// An empty queue.
    pub fn new() -> (r: Self)
        ensures
            r.well_formed(),
            r.entries() == Seq::<StackEntry<Toast<V>>>::empty(),
            r.next_id() == 0,
    {
        ToastQueue { toasts: OverlayStack::new() }
    }

    /// Number of toasts on display.
    pub fn len(&self) -> (r: usize)
        ensures
            r == self.entries().len(),
    {
        self.toasts.len()
    }

    /// The toast at position `i` from the oldest, if there is one.
    pub fn entry(&self, i: usize) -> (r: Option<&StackEntry<Toast<V>>>)
        ensures
            i < self.entries().len() ==> r is Some && *r->Some_0 == self.entries()[i as int],
            i >= self.entries().len() ==> r is None,
    {
        self.toasts.entry(i)
    }

    /// Appends `toast` under the next identifier. The caller starts a timer of
    /// `toast.timeout_ms` that calls [`ToastQueue::expire`] with that identifier.
    pub fn enqueue(&mut self, toast: Toast<V>) -> (r: ToastHandle)
        requires
            old(self).well_formed(),
        ensures
            final(self).well_formed(),
            r.toast_id == old(self).next_id(),
            final(self).entries() == old(self).entries().push(
                StackEntry { id: r.toast_id, payload: toast },
            ),
            final(self).next_id() == crate::stack::next_id_after(old(self).next_id()),
            final(self).timer_running(r.toast_id),
    {
        let ghost before = self.toasts.entries();
        let id = self.toasts.push(toast);
        proof {
            let e = self.toasts.entries();
            assert(e[before.len() as int].id == id);
        }
        ToastHandle { toast_id: id }
    }

    /// Removes toast `toast_id` because its timer fired. Returns whether it was still
    /// on display; if not, nothing changes, so a timer that fires after its toast
    /// was cancelled has no effect.
    pub fn expire(&mut self, toast_id: EntryId) -> (r: bool)
        requires
            old(self).well_formed(),
        ensures
            final(self).well_formed(),
            r == has_id(old(self).entries(), toast_id),
            final(self).entries() == without_id(old(self).entries(), toast_id),
            !r ==> final(self).entries() == old(self).entries(),
            !final(self).timer_running(toast_id),
            final(self).next_id() == old(self).next_id(),
    {
        let before = self.toasts.len();
        self.toasts.remove(toast_id);
        proof {
            lemma_without_id_len(old(self).entries(), toast_id);
            if !has_id(old(self).entries(), toast_id) {
                lemma_filter_all_pass(
                    old(self).entries(),
                    |e: StackEntry<Toast<V>>| e.id != toast_id,
                );
            }
        }
        self.toasts.len() != before
    }
}

impl ToastHandle {
    /// Cancels the toast: removes it from `queue` if it is still there, and returns
    /// the timer the caller must clear, the toast's own, exactly when it was still
    /// running. Cancelling again returns nothing and changes nothing.
    pub fn cancel<V>(&self, queue: &mut ToastQueue<V>) -> (r: Option<EntryId>)
        requires
            old(queue).well_formed(),
        ensures
            final(queue).well_formed(),
            r == (if old(queue).timer_running(self.toast_id) {
                Some(self.toast_id)
            } else {
                None
            }),
            final(queue).entries() == without_id(old(queue).entries(), self.toast_id),
            !final(queue).timer_running(self.toast_id),
            final(queue).next_id() == old(queue).next_id(),
    {
        if queue.expire(self.toast_id) {
            Some(self.toast_id)
        } else {
            None
        }
    }
}

/// Idempotent cancellation: cancelling a toast a second time leaves the queue as the
/// first cancellation left it and reports that nothing was removed, so the toast is
/// removed exactly once.
pub proof fn lemma_cancel_idempotent<V>(entries: Seq<StackEntry<Toast<V>>>, toast_id: EntryId)
    ensures
        without_id(without_id(entries, toast_id), toast_id) == without_id(entries, toast_id),
        !has_id(without_id(entries, toast_id), toast_id),
{
    lemma_without_id_twice(entries, toast_id);
    lemma_without_id_len(entries, toast_id);
}

} // verus!
