//! Focus trapping: the boundary of a container's focusable descendants, the
//! Tab / Shift+Tab cycling rule, and the coordinator that keeps a stack of trap
//! frames with one live key interceptor scoped to the top frame.

use vstd::prelude::*;
use crate::text::same_text;

verus! {

/// Identifier of a document element.
pub type ElementId = u64;

/// The `type` attribute of an `input` element, as far as focusability depends on it.
#[derive(Clone, Copy, Debug, PartialEq, Eq, Structural)]
pub enum InputType {
    Text,
    Radio,
    Checkbox,
    Other,
}

/// The kind of an element, as far as focusability depends on it.
#[derive(Clone, Copy, Debug, PartialEq, Eq, Structural)]
pub enum ElementKind {
    Link,
    Button,
    TextArea,
    Input(InputType),
    Select,
    Other,
}

/// A descendant of a container, described by what decides whether it takes focus.
#[derive(Clone, Copy, Debug, PartialEq, Eq, Structural)]
pub struct Descendant {
    pub id: ElementId,
    pub kind: ElementKind,
    /// Whether the element carries an `href` attribute.
    pub has_href: bool,
    /// Whether the element carries a `disabled` attribute.
    pub disabled: bool,
}

/// The first and last focusable descendants of a container.
#[derive(Clone, Copy, Debug, PartialEq, Eq, Structural)]
pub struct Boundary {
    pub first: ElementId,
    pub last: ElementId,
}

/// Links with an `href` take focus; so do buttons, text areas, text / radio /
/// checkbox inputs and selects that are not disabled.
pub open spec fn is_focusable(d: Descendant) -> bool {
    match d.kind {
        ElementKind::Link => d.has_href,
        ElementKind::Button => !d.disabled,
        ElementKind::TextArea => !d.disabled,
        ElementKind::Input(t) => !d.disabled && t != InputType::Other,
        ElementKind::Select => !d.disabled,
        ElementKind::Other => false,
    }
}

/// The first and last focusable elements of `descendants` (in document order), if
/// any is focusable.
pub open spec fn boundary_of(descendants: Seq<Descendant>) -> Option<Boundary> {
    let f = descendants.filter(|d: Descendant| is_focusable(d));
    if f.len() == 0 {
        None
    } else {
        Some(Boundary { first: f[0].id, last: f.last().id })
    }
}

/// Whether `d` takes focus.
pub fn focusable(d: &Descendant) -> (r: bool)
    ensures
        r == is_focusable(*d),
{
    match d.kind {
        ElementKind::Link => d.has_href,
        ElementKind::Button => !d.disabled,
        ElementKind::TextArea => !d.disabled,
        ElementKind::Input(t) => match t {
            InputType::Other => false,
            _ => !d.disabled,
        },
        ElementKind::Select => !d.disabled,
        ElementKind::Other => false,
    }
}

/// Finds the first and last focusable elements among a container's descendants,
/// given in document order.
pub fn find_boundary(descendants: &Vec<Descendant>) -> (r: Option<Boundary>)
    ensures
        r == boundary_of(descendants@),
{
    let ghost p = |d: Descendant| is_focusable(d);
    let ghost ds = descendants@;
    let mut r: Option<Boundary> = None;
    let mut i: usize = 0;
    while i < descendants.len()
        invariant
            0 <= i <= ds.len(),
            ds == descendants@,
            p == (|d: Descendant| is_focusable(d)),
            r == boundary_of(ds.subrange(0, i as int)),
        decreases ds.len() - i,
    {
        let d = descendants[i];
        proof {
            assert(ds.subrange(0, i + 1) =~= ds.subrange(0, i as int).push(d));
            ds.subrange(0, i as int).lemma_filter_push(d, p);
        }
        if focusable(&d) {
            r = match r {
                None => Some(Boundary { first: d.id, last: d.id }),
                Some(b) => Some(Boundary { first: b.first, last: d.id }),
            };
            proof {
                let f = ds.subrange(0, i as int).filter(p);
                assert(ds.subrange(0, i + 1).filter(p) == f.push(d));
                if f.len() > 0 {
                    assert(f.push(d)[0] == f[0]);
                }
            }
        }
        i = i + 1;
    }
    proof {
        assert(ds.subrange(0, ds.len() as int) =~= ds);
    }
    r
}

/// What the key interceptor does with a key press.
#[derive(Clone, Copy, Debug, PartialEq, Eq, Structural)]
pub enum KeyOutcome {
    /// The event passes through untouched.
    PassThrough,
    /// The default action is prevented and focus moves to the element.
    Redirect(ElementId),
}

/// The cycling rule: Tab on the last focusable element goes to the first, Shift+Tab
/// on the first goes to the last; everything else passes through.
pub open spec fn cycle_rule(
    boundary: Option<Boundary>,
    is_tab: bool,
    shift: bool,
    focused: ElementId,
) -> KeyOutcome {
    match boundary {
        Some(b) => if is_tab && !shift && focused == b.last {
            KeyOutcome::Redirect(b.first)
        } else if is_tab && shift && focused == b.first {
            KeyOutcome::Redirect(b.last)
        } else {
            KeyOutcome::PassThrough
        },
        None => KeyOutcome::PassThrough,
    }
}

/// Decides a key press with key code `code` (Tab is `"Tab"`) on the element
/// `focused`, within `boundary`.
pub fn cycle_focus(boundary: Option<Boundary>, code: &str, shift: bool, focused: ElementId) -> (r:
    KeyOutcome)
    ensures
        r == cycle_rule(boundary, code@ == "Tab"@, shift, focused),
{
    let is_tab = same_text(code, "Tab");
    match boundary {
        Some(b) => {
            if is_tab && !shift && focused == b.last {
                KeyOutcome::Redirect(b.first)
            } else if is_tab && shift && focused == b.first {
                KeyOutcome::Redirect(b.last)
            } else {
                KeyOutcome::PassThrough
            }
        },
        None => KeyOutcome::PassThrough,
    }
}

/// A container element together with its descendants in document order.
pub struct Container {
    pub id: ElementId,
    pub descendants: Vec<Descendant>,
}

/// One activation of the trap: where focus came from, the container it is trapped
/// in, and that container's focusable boundary as last computed.
#[derive(Clone, Copy, Debug, PartialEq, Eq, Structural)]
pub struct Frame {
    pub origin: Option<ElementId>,
    pub target: ElementId,
    pub boundary: Option<Boundary>,
}

/// A keydown interceptor scoped to a container and cycling within a boundary.
#[derive(Clone, Copy, Debug, PartialEq, Eq, Structural)]
pub struct Interceptor {
    pub scope: ElementId,
    pub boundary: Option<Boundary>,
}

/// What the caller performs, in this order, to carry out a trap operation: tear
/// down the live interceptor, move focus, install a new interceptor.
#[derive(Clone, Copy, Debug, PartialEq, Eq, Structural)]
pub struct Transition {
    pub teardown: bool,
    pub focus: Option<ElementId>,
    pub install: Option<Interceptor>,
}

/// Why a trap operation was refused.
#[derive(Clone, Copy, Debug, PartialEq, Eq, Structural)]
pub enum TrapError {
    /// The container to trap focus in could not be resolved.
    MissingTarget,
}

/// The interceptor that is live over `frames`: one scoped to the top frame, or none.
pub open spec fn interceptor_for(frames: Seq<Frame>) -> Option<Interceptor> {
    if frames.len() == 0 {
        None
    } else {
        Some(Interceptor { scope: frames.last().target, boundary: frames.last().boundary })
    }
}

/// The frames and transition of activating a trap on `target`, whose boundary is
/// `boundary`, while `origin` has focus.
pub open spec fn activation(
    frames: Seq<Frame>,
    origin: Option<ElementId>,
    target: ElementId,
    boundary: Option<Boundary>,
) -> (Seq<Frame>, Transition) {
    (
        frames.push(Frame { origin, target, boundary }),
        Transition {
            teardown: frames.len() > 0,
            focus: match boundary {
                Some(b) => Some(b.first),
                None => None,
            },
            install: Some(Interceptor { scope: target, boundary }),
        },
    )
}

/// The frames and transition of deactivating the top frame, where `resumed` is the
/// boundary of the frame beneath it, computed afresh.
pub open spec fn deactivation(frames: Seq<Frame>, resumed: Option<Boundary>) -> (
    Seq<Frame>,
    Transition,
) {
    if frames.len() == 0 {
        (frames, Transition { teardown: false, focus: None, install: None })
    } else if frames.len() == 1 {
        (Seq::empty(), Transition { teardown: true, focus: None, install: None })
    } else {
        let rest = frames.drop_last();
        let below = rest.last();
        (
            rest.update(rest.len() - 1, Frame { boundary: resumed, ..below }),
            Transition {
                teardown: true,
                focus: frames.last().origin,
                install: Some(Interceptor { scope: below.target, boundary: resumed }),
            },
        )
    }
}

/// The focus trap coordinator: a stack of frames and the one live interceptor,
/// which is always scoped to the top frame.
pub struct FocusTrap {
    frames: Vec<Frame>,
    listener: Option<Interceptor>,
}

impl FocusTrap {
    /// The frames, from the first activation to the active one.
    pub closed spec fn frames(&self) -> Seq<Frame> {
        self.frames@
    }

    pub closed spec fn well_formed(&self) -> bool {
        self.listener == interceptor_for(self.frames@)
    }

    /// A trap with no frame and no interceptor.
    pub fn new() -> (r: Self)
        ensures
            r.well_formed(),
            r.frames() == Seq::<Frame>::empty(),
    {
        FocusTrap { frames: Vec::new(), listener: None }
    }

    /// Whether some frame is active.
    pub fn is_active(&self) -> (r: bool)
        ensures
            r == (self.frames().len() > 0),
    {
        self.frames.len() > 0
    }

    /// The live interceptor, if any.
    pub fn interceptor(&self) -> (r: Option<Interceptor>)
        requires
            self.well_formed(),
        ensures
            r == interceptor_for(self.frames()),
    {
        self.listener
    }

    /// The container whose boundary a [`FocusTrap::deactivate`] needs: that of the
    /// frame beneath the top one.
    pub fn resuming_target(&self) -> (r: Option<ElementId>)
        ensures
            self.frames().len() >= 2 ==> r == Some(self.frames()[self.frames().len() - 2].target),
            self.frames().len() < 2 ==> r is None,
    {
        let n = self.frames.len();
        if n >= 2 {
            Some(self.frames[n - 2].target)
        } else {
            None
        }
    }

    /// Traps focus in `target` while `origin` has focus. An unresolved target
    /// (`None`) is refused and changes nothing.
    pub fn activate(&mut self, origin: Option<ElementId>, target: Option<&Container>) -> (r: Result<
        Transition,
        TrapError,
    >)
        requires
            old(self).well_formed(),
        ensures
            final(self).well_formed(),
            target is None ==> r == Err::<Transition, TrapError>(TrapError::MissingTarget)
                && final(self).frames() == old(self).frames(),
            target is Some ==> ({
                let c = target->Some_0;
                let (frames, t) = activation(
                    old(self).frames(),
                    origin,
                    c.id,
                    boundary_of(c.descendants@),
                );
                r == Ok::<Transition, TrapError>(t) && final(self).frames() == frames
            }),
    {
        match target {
            None => Err(TrapError::MissingTarget),
            Some(c) => {
                let boundary = find_boundary(&c.descendants);
                let focus = match boundary {
                    Some(b) => Some(b.first),
                    None => None,
                };
                let teardown = self.listener.is_some();
                let listener = Interceptor { scope: c.id, boundary };
                self.listener = Some(listener);
                self.frames.push(Frame { origin, target: c.id, boundary });
                Ok(Transition { teardown, focus, install: Some(listener) })
            },
        }
    }

    /// Leaves the active frame. `resumed` holds, in document order, the descendants
    /// of the container named by [`FocusTrap::resuming_target`]; it is not read when
    /// fewer than two frames are active.
    pub fn deactivate(&mut self, resumed: &Vec<Descendant>) -> (r: Transition)
        requires
            old(self).well_formed(),
        ensures
            final(self).well_formed(),
            (final(self).frames(), r) == deactivation(old(self).frames(), boundary_of(resumed@)),
    {
        let n = self.frames.len();
        if n == 0 {
            return Transition { teardown: false, focus: None, install: None };
        }
        let popped = self.frames.pop().unwrap();
        if n == 1 {
            self.listener = None;
            proof {
                assert(self.frames@ =~= Seq::<Frame>::empty());
            }
            return Transition { teardown: true, focus: None, install: None };
        }
        let below = self.frames.pop().unwrap();
        let boundary = find_boundary(resumed);
        let listener = Interceptor { scope: below.target, boundary };
        self.frames.push(Frame { origin: below.origin, target: below.target, boundary });
        self.listener = Some(listener);
        proof {
            let rest = old(self).frames().drop_last();
            assert(self.frames@ =~= rest.update(rest.len() - 1, Frame { boundary, ..below }));
        }
        Transition { teardown: true, focus: popped.origin, install: Some(listener) }
    }

    /// Decides a key press on `focused` through the live interceptor; with none,
    /// every key passes through.
    pub fn on_key(&self, code: &str, shift: bool, focused: ElementId) -> (r: KeyOutcome)
        requires
            self.well_formed(),
        ensures
            self.frames().len() == 0 ==> r == KeyOutcome::PassThrough,
            self.frames().len() > 0 ==> r == cycle_rule(
                self.frames().last().boundary,
                code@ == "Tab"@,
                shift,
                focused,
            ),
    {
        match self.listener {
            Some(l) => cycle_focus(l.boundary, code, shift, focused),
            None => KeyOutcome::PassThrough,
        }
    }
}

/// The element that has focus after `t` is carried out while `focused` had it.
pub open spec fn focus_after(focused: Option<ElementId>, t: Transition) -> Option<ElementId> {
    match t.focus {
        Some(e) => Some(e),
        None => focused,
    }
}

/// Tab cycling: with the focusable elements of a container found, Tab on the last
/// moves focus to the first, Shift+Tab on the first moves it to the last, and Tab or
/// Shift+Tab on any other element passes through.
pub proof fn lemma_tab_cycles(descendants: Seq<Descendant>, focused: ElementId)
    requires
        descendants.filter(|d: Descendant| is_focusable(d)).len() > 0,
    ensures
        ({
            let f = descendants.filter(|d: Descendant| is_focusable(d));
            let b = boundary_of(descendants);
            &&& cycle_rule(b, true, false, f.last().id) == KeyOutcome::Redirect(f[0].id)
            &&& cycle_rule(b, true, true, f[0].id) == KeyOutcome::Redirect(f.last().id)
            &&& (focused != f[0].id && focused != f.last().id) ==> cycle_rule(
                b,
                true,
                false,
                focused,
            ) == KeyOutcome::PassThrough && cycle_rule(b, true, true, focused)
                == KeyOutcome::PassThrough
        }),
{
}

/// Trap LIFO: activating a frame and then deactivating once moves focus back to the
/// element that had it before the activation, and gives back the frames that were
/// there before, the one beneath having its boundary computed afresh.
pub proof fn lemma_deactivate_restores_origin(
    frames: Seq<Frame>,
    origin: ElementId,
    target: ElementId,
    boundary: Option<Boundary>,
    resumed: Option<Boundary>,
)
    requires
        frames.len() > 0,
    ensures
        ({
            let (f1, t1) = activation(frames, Some(origin), target, boundary);
            let (f2, t2) = deactivation(f1, resumed);
            &&& t2.focus == Some(origin)
            &&& f2 == frames.update(frames.len() - 1, Frame { boundary: resumed, ..frames.last() })
            &&& t2.install == Some(Interceptor { scope: frames.last().target, boundary: resumed })
        }),
{
    let (f1, t1) = activation(frames, Some(origin), target, boundary);
    assert(f1.drop_last() =~= frames);
}

/// Trap LIFO over two nested frames: after activating A and then B and
/// deactivating twice, focus is back on the element that had it before A was
/// activated. This holds when A is nested in an already active frame, or when A
/// has no focusable element; otherwise the last deactivation restores nothing, and
/// focus stays where the first one put it.
pub proof fn lemma_nested_traps_restore_focus(
    frames: Seq<Frame>,
    focused: ElementId,
    a: ElementId,
    a_boundary: Option<Boundary>,
    b: ElementId,
    b_boundary: Option<Boundary>,
    resumed_a: Option<Boundary>,
    resumed_below: Option<Boundary>,
)
    requires
        frames.len() > 0 || a_boundary is None,
    ensures
        ({
            let g0 = Some(focused);
            let (s1, t1) = activation(frames, g0, a, a_boundary);
            let g1 = focus_after(g0, t1);
            let (s2, t2) = activation(s1, g1, b, b_boundary);
            let g2 = focus_after(g1, t2);
            let (s3, t3) = deactivation(s2, resumed_a);
            let g3 = focus_after(g2, t3);
            let (s4, t4) = deactivation(s3, resumed_below);
            let g4 = focus_after(g3, t4);
            &&& g4 == g0
            &&& s4.len() == frames.len()
            &&& s4.len() > 0 ==> s4.drop_last() == frames.drop_last()
        }),
{
    let g0 = Some(focused);
    let (s1, t1) = activation(frames, g0, a, a_boundary);
    let g1 = focus_after(g0, t1);
    let (s2, t2) = activation(s1, g1, b, b_boundary);
    assert(s2.drop_last() =~= s1);
    let (s3, t3) = deactivation(s2, resumed_a);
    assert(s3.len() == s1.len());
    assert(s3.drop_last() =~= frames);
    let (s4, t4) = deactivation(s3, resumed_below);
    if frames.len() > 0 {
        assert(s4.drop_last() =~= frames.drop_last());
    }
}

} // verus!
