//! Event routing: the order in which an event visits its targets, the
//! pointer enter and leave bookkeeping, and click detection.
//!
//! Handlers are the application's code, so the loop that calls them stands
//! outside; what it does next at each point is decided here.

use vstd::prelude::*;

use crate::events::{BaseEvent, Event, EventKind, PointerButton, PointerId};
use crate::pointer_capture::{
    capture_change, capture_change_events, committed, is_capture_event, lookup, CaptureTable, PointerCapture,
};
use crate::store::{contains_handle, copy_handles, first_shared, DynElement, RetainedElements};

verus! {

/// The phases of a dispatch: handlers registered for capturing, then the
/// bubbling handlers, then the elements' own default handling.
#[derive(Clone, Copy, Debug, PartialEq, Eq, Structural)]
pub enum DispatchPhase {
    Capture,
    Bubble,
    Default,
}

/// One visit of a dispatch: a phase and the index of the target in the
/// target list, innermost first.
#[derive(Clone, Copy, Debug, PartialEq, Eq, Structural)]
pub struct DispatchStep {
    pub phase: DispatchPhase,
    pub index: usize,
}

/// The first default visit, unless default handling was prevented.
pub open spec fn default_start(prevented: bool) -> Option<DispatchStep> {
    if prevented {
        None
    } else {
        Some(DispatchStep { phase: DispatchPhase::Default, index: 0 })
    }
}

/// The visit that follows `last` (or the first one, where `last` is `None`)
/// for a list of `len` targets, given the event's flags after `last`.
///
/// Capturing handlers run from the outermost target in; propagation stopped
/// there skips the bubbling phase. Bubbling handlers run from the target out.
/// Default handling, unless prevented, runs from the target out and always
/// reaches the target itself; stopping propagation ends it.
pub open spec fn next_step(
    len: nat,
    last: Option<DispatchStep>,
    stopped: bool,
    prevented: bool,
) -> Option<DispatchStep> {
    match last {
        None => if len == 0 {
            None
        } else {
            Some(DispatchStep { phase: DispatchPhase::Capture, index: (len - 1) as usize })
        },
        Some(step) => match step.phase {
            DispatchPhase::Capture => if stopped {
                default_start(prevented)
            } else if step.index > 0 {
                Some(DispatchStep { phase: DispatchPhase::Capture, index: (step.index - 1) as usize })
            } else {
                Some(DispatchStep { phase: DispatchPhase::Bubble, index: 0 })
            },
            DispatchPhase::Bubble => if stopped || step.index + 1 >= len {
                default_start(prevented)
            } else {
                Some(DispatchStep { phase: DispatchPhase::Bubble, index: (step.index + 1) as usize })
            },
            DispatchPhase::Default => if stopped || step.index + 1 >= len {
                None
            } else {
                Some(DispatchStep { phase: DispatchPhase::Default, index: (step.index + 1) as usize })
            },
        },
    }
}

/// The position of a dispatch over a target list.
#[derive(Clone, Copy, Debug, PartialEq, Eq, Structural)]
pub enum CursorState {
    Start,
    At(DispatchStep),
    Finished,
}

/// Walks a dispatch over a list of targets, one visit at a time.
#[derive(Clone, Copy, Debug)]
pub struct DispatchCursor {
    len: usize,
    state: CursorState,
}

impl DispatchCursor {
    pub closed spec fn len_of(&self) -> nat {
        self.len as nat
    }

    pub closed spec fn state_of(&self) -> CursorState {
        self.state
    }

    /// The state a cursor is in before a step.
    pub closed spec fn wf(&self) -> bool {
        match self.state {
            CursorState::At(step) => step.index < self.len,
            _ => true,
        }
    }

    /// A cursor before the first visit of a dispatch over `len` targets.
    pub fn new(len: usize) -> (r: DispatchCursor)
        ensures
            r.wf(),
            r.len_of() == len,
            r.state_of() == CursorState::Start,
    {
        DispatchCursor { len, state: CursorState::Start }
    }

    /// The next visit, given the event's state as the last handler left it;
    /// `None` once the dispatch is over, and from then on.
    pub fn next(&mut self, base: &BaseEvent) -> (r: Option<DispatchStep>)
        requires
            old(self).wf(),
        ensures
            final(self).wf(),
            final(self).len_of() == old(self).len_of(),
            r == match old(self).state_of() {
                CursorState::Start => next_step(old(self).len_of(), None, base.stopped(), base.prevented()),
                CursorState::At(step) => next_step(old(self).len_of(), Some(step), base.stopped(), base.prevented()),
                CursorState::Finished => None,
            },
            final(self).state_of() == match r {
                Some(step) => CursorState::At(step),
                None => CursorState::Finished,
            },
            r matches Some(step) ==> step.index < old(self).len_of(),
    {
        let stopped = base.is_propagation_stopped();
        let prevented = base.is_default_prevented();
        let default_start = if prevented {
            None
        } else {
            Some(DispatchStep { phase: DispatchPhase::Default, index: 0 })
        };
        let r = match self.state {
            CursorState::Start => if self.len == 0 {
                None
            } else {
                Some(DispatchStep { phase: DispatchPhase::Capture, index: self.len - 1 })
            },
            CursorState::At(step) => match step.phase {
                DispatchPhase::Capture => if stopped {
                    default_start
                } else if step.index > 0 {
                    Some(DispatchStep { phase: DispatchPhase::Capture, index: step.index - 1 })
                } else {
                    Some(DispatchStep { phase: DispatchPhase::Bubble, index: 0 })
                },
                DispatchPhase::Bubble => if stopped || step.index + 1 >= self.len {
                    default_start
                } else {
                    Some(DispatchStep { phase: DispatchPhase::Bubble, index: step.index + 1 })
                },
                DispatchPhase::Default => if stopped || step.index + 1 >= self.len {
                    None
                } else {
                    Some(DispatchStep { phase: DispatchPhase::Default, index: step.index + 1 })
                },
            },
            CursorState::Finished => None,
        };
        self.state = match r {
            Some(step) => CursorState::At(step),
            None => CursorState::Finished,
        };
        r
    }
}

/// The `k`-th visit of a dispatch over `len` targets that no handler
/// disturbs: capturing from the outermost target in, then bubbling and
/// default handling from the target out.
pub open spec fn undisturbed_step(len: nat, k: nat) -> Option<DispatchStep> {
    if k < len {
        Some(DispatchStep { phase: DispatchPhase::Capture, index: (len - 1 - k) as usize })
    } else if k < 2 * len {
        Some(DispatchStep { phase: DispatchPhase::Bubble, index: (k - len) as usize })
    } else if k < 3 * len {
        Some(DispatchStep { phase: DispatchPhase::Default, index: (k - 2 * len) as usize })
    } else {
        None
    }
}

/// A dispatch that no handler stops or prevents visits every target three
/// times: capture from the outermost target in, then bubble and default
/// handling from the target out, and then ends.
pub proof fn lemma_undisturbed_dispatch(len: nat, k: nat)
    requires
        len <= usize::MAX,
    ensures
        next_step(len, None, false, false) == undisturbed_step(len, 0),
        undisturbed_step(len, k) is Some ==> next_step(len, undisturbed_step(len, k), false, false)
            == undisturbed_step(len, k + 1),
{
}

/// Once propagation is stopped, no capturing or bubbling handler runs again,
/// and default handling visits at most the target itself.
pub proof fn lemma_stop_propagation_ends_handlers(len: nat, last: DispatchStep, prevented: bool)
    requires
        last.index < len,
    ensures
        match next_step(len, Some(last), true, prevented) {
            Some(step) => step.phase == DispatchPhase::Default && step.index == 0 && last.phase
                != DispatchPhase::Default,
            None => true,
        },
{
}

/// Default handling that is prevented before the handlers are done never
/// starts.
pub proof fn lemma_prevent_default_skips_default(len: nat, last: DispatchStep, stopped: bool)
    requires
        last.index < len,
        last.phase != DispatchPhase::Default,
    ensures
        match next_step(len, Some(last), stopped, true) {
            Some(step) => step.phase != DispatchPhase::Default,
            None => true,
        },
{
}

/// The routing state of the application: the targets under the pointer at
/// the last pointer event, and the element each pointer was pressed on.
#[derive(Clone, Debug)]
pub struct EventDispatcher {
    previous_targets: Vec<DynElement>,
    active_pointer_targets: CaptureTable,
}

impl EventDispatcher {
    pub closed spec fn wf(&self) -> bool {
        self.active_pointer_targets.wf()
    }

    /// The target list of the last pointer event.
    pub closed spec fn previous(&self) -> Seq<DynElement> {
        self.previous_targets@
    }

    /// The element each pointer that is down was pressed on.
    pub closed spec fn pressed(&self) -> Map<PointerId, DynElement> {
        self.active_pointer_targets.view()
    }

    pub fn new() -> (r: EventDispatcher)
        ensures
            r.wf(),
            r.previous() == Seq::<DynElement>::empty(),
            r.pressed() == Map::<PointerId, DynElement>::empty(),
    {
        EventDispatcher { previous_targets: Vec::new(), active_pointer_targets: CaptureTable::new() }
    }

    /// Records the target list of a pointer event.
    pub fn set_previous_targets(&mut self, targets: Vec<DynElement>)
        ensures
            final(self).previous() == targets@,
            final(self).pressed() == old(self).pressed(),
            final(self).wf() == old(self).wf(),
    {
        self.previous_targets = targets;
    }

    /// The elements that were under the pointer and are not now, in the order
    /// they were listed: each gets a pointer-leave event if it still exists
    /// when its turn comes (see [`pointer_leave_due`]).
    pub fn pointer_leave_candidates(&self, targets: &Vec<DynElement>) -> (r: Vec<DynElement>)
        ensures
            r@ == self.previous().filter(|p: DynElement| !targets@.contains(p)),
    {
        let s = &self.previous_targets;
        let mut r: Vec<DynElement> = Vec::new();
        let mut i: usize = 0;
        while i < s.len()
            invariant
                i <= s@.len(),
                r@ == s@.take(i as int).filter(|p: DynElement| !targets@.contains(p)),
            decreases s@.len() - i,
        {
            proof {
                assert(s@.take(i + 1).drop_last() =~= s@.take(i as int));
                reveal(Seq::filter);
            }
            if !contains_handle(targets, s[i]) {
                r.push(s[i]);
            }
            i = i + 1;
        }
        assert(s@.take(s@.len() as int) =~= s@);
        r
    }

    /// The elements now under the pointer that were not before, from the
    /// outermost in: each gets a pointer-enter event.
    pub fn pointer_enter_targets(&self, targets: &Vec<DynElement>) -> (r: Vec<DynElement>)
        ensures
            r@ == targets@.reverse().filter(|t: DynElement| !self.previous().contains(t)),
    {
        let ghost rev = targets@.reverse();
        let mut r: Vec<DynElement> = Vec::new();
        let mut k: usize = 0;
        let n = targets.len();
        while k < n
            invariant
                n == targets@.len(),
                rev == targets@.reverse(),
                k <= n,
                r@ == rev.take(k as int).filter(|t: DynElement| !self.previous().contains(t)),
            decreases n - k,
        {
            let t = targets[n - 1 - k];
            proof {
                assert(rev[k as int] == t);
                assert(rev.take(k + 1).drop_last() =~= rev.take(k as int));
                reveal(Seq::filter);
            }
            if !contains_handle(&self.previous_targets, t) {
                r.push(t);
            }
            k = k + 1;
        }
        assert(rev.take(n as int) =~= rev);
        r
    }

    /// The element a pointer-up ends a click on, if any, recording or
    /// clearing the pressed element of the pointer on the way.
    ///
    /// A primary left-button press records its dispatched target for its
    /// pointer. A primary left-button release clicks, when a target was
    /// recorded for its pointer and the release was dispatched at a target:
    /// on that target if the pointer was captured, otherwise on the innermost
    /// element that encloses both the pressed and the released target. The
    /// release clears the record either way. Other events change nothing.
    pub fn pointer_click_target(
        &mut self,
        elements: &RetainedElements,
        event_kind: &EventKind,
        dispatched_target: Option<DynElement>,
        captured: bool,
    ) -> (r: Option<DynElement>)
        requires
            old(self).wf(),
            event_kind matches EventKind::PointerUp(e) ==> (e.pointer.primary() && e.button == Some(
                PointerButton::Left)) ==> e.pointer.id_of() is Some,
        ensures
            final(self).wf(),
            final(self).previous() == old(self).previous(),
            r == click_target(old(self).pressed(), elements, *event_kind, dispatched_target, captured),
            final(self).pressed() == pressed_after(old(self).pressed(), *event_kind, dispatched_target),
    {
        match event_kind {
            EventKind::PointerDown(e) => {
                if e.pointer.is_primary_pointer() && e.button == Some(PointerButton::Left) {
                    if let (Some(pointer), Some(target)) = (e.pointer.id(), dispatched_target) {
                        self.active_pointer_targets.insert(pointer, target);
                    }
                }
                None
            },
            EventKind::PointerUp(e) => {
                if e.pointer.is_primary_pointer() && e.button == Some(PointerButton::Left) {
                    let pointer = e.pointer.id().unwrap();
                    let down = self.active_pointer_targets.get(pointer);
                    let target = match (down, dispatched_target) {
                        (Some(down), Some(up)) => if captured {
                            Some(up)
                        } else {
                            elements.nearest_common_ancestor(down, up)
                        },
                        _ => None,
                    };
                    let _ = self.active_pointer_targets.remove(pointer);
                    target
                } else {
                    None
                }
            },
            _ => None,
        }
    }
}

/// Whether a pointer event counts for clicks: a primary left button.
pub open spec fn is_primary_left(e: crate::events::PointerButtonEvent) -> bool {
    e.pointer.primary() && e.button == Some(PointerButton::Left)
}

/// The element a click lands on, per [`EventDispatcher::pointer_click_target`].
pub open spec fn click_target(
    pressed: Map<PointerId, DynElement>,
    elements: &RetainedElements,
    event_kind: EventKind,
    dispatched_target: Option<DynElement>,
    captured: bool,
) -> Option<DynElement> {
    match event_kind {
        EventKind::PointerUp(e) => if is_primary_left(e) {
            match (lookup(pressed, e.pointer.id_of().unwrap()), dispatched_target) {
                (Some(down), Some(up)) => if captured {
                    Some(up)
                } else {
                    first_shared(elements.target_list(up), elements.target_list(down))
                },
                _ => None,
            }
        } else {
            None
        },
        _ => None,
    }
}

/// The pressed elements after a pointer event, per
/// [`EventDispatcher::pointer_click_target`].
pub open spec fn pressed_after(
    pressed: Map<PointerId, DynElement>,
    event_kind: EventKind,
    dispatched_target: Option<DynElement>,
) -> Map<PointerId, DynElement> {
    match event_kind {
        EventKind::PointerDown(e) => if is_primary_left(e) && e.pointer.id_of() is Some
            && dispatched_target is Some {
            pressed.insert(e.pointer.id_of().unwrap(), dispatched_target.unwrap())
        } else {
            pressed
        },
        EventKind::PointerUp(e) => if is_primary_left(e) {
            pressed.remove(e.pointer.id_of().unwrap())
        } else {
            pressed
        },
        _ => pressed,
    }
}

/// Whether a pointer-leave event is due for `element` now: it still exists
/// and is not among the new targets.
pub fn pointer_leave_due(elements: &RetainedElements, element: DynElement, targets: &Vec<DynElement>) -> (r: bool)
    ensures
        r == (elements.live(element) && !targets@.contains(element)),
{
    elements.contains(element) && !contains_handle(targets, element)
}

/// The element that receives a pointer event: the element that captures the
/// pointer, else the element hit-testing found under the pointer, else the
/// window's root.
pub fn find_target(
    pointer_capture: &PointerCapture,
    message: &EventKind,
    pointer_id: &PointerId,
    hit: Option<DynElement>,
    root: DynElement,
) -> (r: DynElement)
    requires
        pointer_capture.wf(),
    ensures
        r == match pointer_capture_target(pointer_capture, *message, *pointer_id) {
            Some(t) => t,
            None => match hit {
                Some(h) => h,
                None => root,
            },
        },
{
    if let Some(target) = pointer_capture.find_pointer_capture_target(message, pointer_id) {
        return target;
    }
    match hit {
        Some(h) => h,
        None => root,
    }
}

/// The element that captures the pointer of a message.
pub open spec fn pointer_capture_target(pc: &PointerCapture, message: EventKind, id: PointerId) -> Option<DynElement> {
    if message is GotPointerCapture {
        lookup(pc.pending(), id)
    } else {
        lookup(pc.current(), id)
    }
}

/// The pointer whose capture an event from the window may change: that of
/// a moved, pressed or released pointer.
pub open spec fn follow_up_pointer(event: EventKind) -> Option<PointerId> {
    if event.spec_is_system_pointer_event() {
        event.spec_pointer_id()
    } else {
        None
    }
}

/// The pending captures after an event of the pointer `id`: a release drops
/// the pointer's pending capture.
pub open spec fn pending_after(pending: Map<PointerId, DynElement>, event: EventKind, id: PointerId) -> Map<
    PointerId,
    DynElement,
> {
    if event is PointerUp {
        pending.remove(id)
    } else {
        pending
    }
}

/// The target found for the pointer `id` with the given captures: its
/// capturing element, else the hit element, else the root.
pub open spec fn target_with(
    current: Map<PointerId, DynElement>,
    pending: Map<PointerId, DynElement>,
    event: EventKind,
    id: PointerId,
    hit: Option<DynElement>,
    root: DynElement,
) -> DynElement {
    match (if event is GotPointerCapture {
        lookup(pending, id)
    } else {
        lookup(current, id)
    }) {
        Some(t) => t,
        None => match hit {
            Some(h) => h,
            None => root,
        },
    }
}

/// What follows the dispatch of a window event, besides running listeners.
pub struct DispatchFollowUp {
    /// The capture events to dispatch, in order, when the capture of the
    /// event's pointer changed.
    pub capture_events: Vec<EventKind>,
    /// The pointer's new target list when its capture changed; pointer enter
    /// and leave follow for it.
    pub retargeted: Option<Vec<DynElement>>,
    /// The element a click lands on.
    pub click: Option<DynElement>,
    /// What the previous pointer targets become, after enter and leave: the
    /// final targets of a moved, pressed or released pointer.
    pub previous_targets: Option<Vec<DynElement>>,
}

/// Decides what follows the dispatch of a window event at `targets`: the
/// pending capture of the event's pointer is processed (a release drops it
/// first) and committed, with a lost and a got capture event where it
/// changed and a new target list for the pointer; the pressed element of a
/// primary left button is recorded or cleared, with a click where due; and
/// the targets of a moved, pressed or released pointer are to become the
/// previous ones.
pub fn dispatch_follow_up(
    dispatcher: &mut EventDispatcher,
    capture: &mut PointerCapture,
    elements: &RetainedElements,
    event: &EventKind,
    hit: Option<DynElement>,
    root: DynElement,
    targets: Vec<DynElement>,
    dispatched_target: Option<DynElement>,
    captured: bool,
) -> (r: DispatchFollowUp)
    requires
        old(dispatcher).wf(),
        old(capture).wf(),
        event matches EventKind::PointerUp(e) ==> (e.pointer.primary() && e.button == Some(PointerButton::Left))
            ==> e.pointer.id_of() is Some,
    ensures
        final(dispatcher).wf(),
        final(capture).wf(),
        final(dispatcher).previous() == old(dispatcher).previous(),
        r.click == click_target(old(dispatcher).pressed(), elements, *event, dispatched_target, captured),
        final(dispatcher).pressed() == pressed_after(old(dispatcher).pressed(), *event, dispatched_target),
        follow_up_pointer(*event) is None ==> {
            &&& final(capture).current() == old(capture).current()
            &&& final(capture).pending() == old(capture).pending()
            &&& r.capture_events@.len() == 0
            &&& r.retargeted is None
        },
        follow_up_pointer(*event) matches Some(id) ==> {
            let pending = pending_after(old(capture).pending(), *event, id);
            let change = capture_change(lookup(old(capture).current(), id), lookup(pending, id));
            &&& final(capture).pending() == pending
            &&& final(capture).current() == committed(old(capture).current(), id, change.next)
            &&& r.capture_events@.len() == (if change.lost is Some { 1int } else { 0 }) + (if change.got is Some {
                1int
            } else {
                0
            })
            &&& (change.lost matches Some(l) ==> is_capture_event(r.capture_events@[0], true, l, id))
            &&& (change.got matches Some(g) ==> is_capture_event(
                r.capture_events@[r.capture_events@.len() - 1],
                false,
                g,
                id,
            ))
            &&& r.retargeted is Some == (change.lost is Some || change.got is Some)
            &&& (r.retargeted matches Some(v) ==> v@ == elements.target_list(
                target_with(final(capture).current(), final(capture).pending(), *event, id, hit, root),
            ))
        },
        r.previous_targets is Some == event.spec_is_system_pointer_event(),
        r.previous_targets matches Some(p) ==> p@ == (match r.retargeted {
            Some(v) => v@,
            None => targets@,
        }),
{
    let mut capture_events: Vec<EventKind> = Vec::new();
    let mut retargeted: Option<Vec<DynElement>> = None;
    let pointer_id = if event.is_system_pointer_event() {
        event.pointer_id()
    } else {
        None
    };
    if let Some(id) = pointer_id {
        if let Some(change) = capture.maybe_handle_implicit_pointer_capture_release(event, &id) {
            capture_events = capture_change_events(&change, id);
            capture.commit_pointer_capture(&id, &change);
            if change.changed() {
                let target = find_target(capture, event, &id, hit, root);
                retargeted = Some(elements.freeze_target_list(target));
            }
        }
    }
    let click = dispatcher.pointer_click_target(elements, event, dispatched_target, captured);
    let previous_targets = if event.is_system_pointer_event() {
        match retargeted {
            Some(ref v) => Some(copy_handles(v)),
            None => Some(targets),
        }
    } else {
        None
    };
    DispatchFollowUp { capture_events, retargeted, click, previous_targets }
}

/// The targets an event from the window runs through, innermost first: for a
/// pointer event with a known pointer, the target list of the element found
/// for it; for a keyboard event, that of the focused element if it exists;
/// and the window's root where that leaves none.
pub fn dispatch_targets(
    elements: &RetainedElements,
    event_kind: &EventKind,
    pointer_target: DynElement,
    focus: Option<DynElement>,
    root: DynElement,
) -> (r: Vec<DynElement>)
    ensures
        r@ == dispatch_target_list(elements, *event_kind, pointer_target, focus, root),
        r@.len() > 0,
{
    let mut targets: Vec<DynElement> = Vec::new();
    if event_kind.is_system_pointer_event() && event_kind.pointer_id().is_some() {
        targets = elements.freeze_target_list(pointer_target);
    } else if event_kind.is_keyboard_event() {
        if let Some(f) = focus {
            if elements.contains(f) {
                targets = elements.freeze_target_list(f);
            }
        }
    }
    if targets.len() == 0 {
        targets.push(root);
    }
    targets
}

/// The target list of [`dispatch_targets`].
pub open spec fn dispatch_target_list(
    elements: &RetainedElements,
    event_kind: EventKind,
    pointer_target: DynElement,
    focus: Option<DynElement>,
    root: DynElement,
) -> Seq<DynElement> {
    let found = if event_kind.spec_is_system_pointer_event() && event_kind.spec_pointer_id() is Some {
        elements.target_list(pointer_target)
    } else if event_kind.spec_is_keyboard_event() && focus is Some && elements.live(focus.unwrap()) {
        elements.target_list(focus.unwrap())
    } else {
        Seq::empty()
    };
    if found.len() == 0 {
        seq![root]
    } else {
        found
    }
}

/// The kinds of event listener an element can hold.
#[derive(Clone, Copy, Debug, PartialEq, Eq, Structural)]
pub enum ListenerKind {
    CheckboxToggled,
    Click,
    Custom,
    DropdownItemSelected,
    Focus,
    GotPointerCapture,
    KeyboardInput,
    LostPointerCapture,
    PointerButtonDown,
    PointerButtonUp,
    PointerEnter,
    PointerLeave,
    PointerMoved,
    RadioValueChanged,
    Scroll,
    SliderValueChanged,
    TextInputChanged,
    Unfocus,
}

/// Whether a listener of `kind` hears an event: each listener hears its own
/// kind of event, and a keyboard listener hears key presses and releases.
pub open spec fn listens_to(kind: ListenerKind, event: EventKind) -> bool {
    match event {
        EventKind::PointerEnter(_) => kind == ListenerKind::PointerEnter,
        EventKind::PointerLeave(_) => kind == ListenerKind::PointerLeave,
        EventKind::Click(_) => kind == ListenerKind::Click,
        EventKind::Focus(_) => kind == ListenerKind::Focus,
        EventKind::GotPointerCapture(_) => kind == ListenerKind::GotPointerCapture,
        EventKind::LostPointerCapture(_) => kind == ListenerKind::LostPointerCapture,
        EventKind::Scroll(_) => kind == ListenerKind::Scroll,
        EventKind::Unfocus(_) => kind == ListenerKind::Unfocus,
        EventKind::PointerUp(_) => kind == ListenerKind::PointerButtonUp,
        EventKind::PointerDown(_) => kind == ListenerKind::PointerButtonDown,
        EventKind::KeyDown(_) => kind == ListenerKind::KeyboardInput,
        EventKind::KeyUp(_) => kind == ListenerKind::KeyboardInput,
        EventKind::PointerMoved(_) => kind == ListenerKind::PointerMoved,
        EventKind::DropdownItemSelected(_) => kind == ListenerKind::DropdownItemSelected,
        EventKind::SliderValueChanged(_) => kind == ListenerKind::SliderValueChanged,
        EventKind::RadioValueChanged(_) => kind == ListenerKind::RadioValueChanged,
        EventKind::CheckboxToggled(_) => kind == ListenerKind::CheckboxToggled,
        EventKind::TextInputChanged(_) => kind == ListenerKind::TextInputChanged,
        _ => false,
    }
}

/// Whether a listener of `kind` hears an event.
pub fn listener_hears(kind: ListenerKind, event: &EventKind) -> (r: bool)
    ensures
        r == listens_to(kind, *event),
{
    match event {
        EventKind::PointerEnter(_) => kind == ListenerKind::PointerEnter,
        EventKind::PointerLeave(_) => kind == ListenerKind::PointerLeave,
        EventKind::Click(_) => kind == ListenerKind::Click,
        EventKind::Focus(_) => kind == ListenerKind::Focus,
        EventKind::GotPointerCapture(_) => kind == ListenerKind::GotPointerCapture,
        EventKind::LostPointerCapture(_) => kind == ListenerKind::LostPointerCapture,
        EventKind::Scroll(_) => kind == ListenerKind::Scroll,
        EventKind::Unfocus(_) => kind == ListenerKind::Unfocus,
        EventKind::PointerUp(_) => kind == ListenerKind::PointerButtonUp,
        EventKind::PointerDown(_) => kind == ListenerKind::PointerButtonDown,
        EventKind::KeyDown(_) => kind == ListenerKind::KeyboardInput,
        EventKind::KeyUp(_) => kind == ListenerKind::KeyboardInput,
        EventKind::PointerMoved(_) => kind == ListenerKind::PointerMoved,
        EventKind::DropdownItemSelected(_) => kind == ListenerKind::DropdownItemSelected,
        EventKind::SliderValueChanged(_) => kind == ListenerKind::SliderValueChanged,
        EventKind::RadioValueChanged(_) => kind == ListenerKind::RadioValueChanged,
        EventKind::CheckboxToggled(_) => kind == ListenerKind::CheckboxToggled,
        EventKind::TextInputChanged(_) => kind == ListenerKind::TextInputChanged,
        _ => false,
    }
}

/// The listeners of an element that run for an event in a phase, by their
/// positions in registration order: those registered for that phase
/// (capturing or not) that hear the event.
pub fn listeners_to_run(listeners: &Vec<(ListenerKind, bool)>, event: &EventKind, capturing: bool) -> (r: Vec<usize>)
    ensures
        forall|j: int| 0 <= j < r@.len() ==> (r@[j] as int) < listeners@.len(),
        forall|j: int, k: int| 0 <= j < k < r@.len() ==> r@[j] < r@[k],
        forall|i: int|
            0 <= i < listeners@.len() ==> (r@.contains(i as usize) <==> (listeners@[i].1 == capturing && listens_to(
                listeners@[i].0,
                *event,
            ))),
{
    let mut r: Vec<usize> = Vec::new();
    let mut i: usize = 0;
    while i < listeners.len()
        invariant
            i <= listeners@.len(),
            forall|j: int| 0 <= j < r@.len() ==> (r@[j] as int) < i,
            forall|j: int, k: int| 0 <= j < k < r@.len() ==> r@[j] < r@[k],
            forall|m: int|
                0 <= m < i ==> (r@.contains(m as usize) <==> (listeners@[m].1 == capturing && listens_to(
                    listeners@[m].0,
                    *event,
                ))),
        decreases listeners@.len() - i,
    {
        let (kind, listener_capturing) = listeners[i];
        let ghost before = r@;
        if listener_capturing == capturing && listener_hears(kind, event) {
            r.push(i);
            proof {
                assert(r@[r@.len() - 1] == i);
                assert forall|m: int| 0 <= m < i + 1 implies (r@.contains(m as usize) <==> (listeners@[m].1
                    == capturing && listens_to(listeners@[m].0, *event))) by {
                    if m < i {
                        if before.contains(m as usize) {
                            let j = choose|j: int| 0 <= j < before.len() && before[j] == m as usize;
                            assert(r@[j] == m as usize);
                        }
                        if r@.contains(m as usize) {
                            let j = choose|j: int| 0 <= j < r@.len() && r@[j] == m as usize;
                            assert(j < before.len());
                            assert(before[j] == m as usize);
                        }
                    }
                }
            }
        } else {
            proof {
                assert forall|m: int| 0 <= m < i + 1 implies (r@.contains(m as usize) <==> (listeners@[m].1
                    == capturing && listens_to(listeners@[m].0, *event))) by {
                    if m == i {
                        if r@.contains(m as usize) {
                            let j = choose|j: int| 0 <= j < r@.len() && r@[j] == m as usize;
                        }
                    }
                }
            }
        }
        i = i + 1;
    }
    r
}

/// The events waiting to be dispatched, first in first out.
#[derive(Debug)]
pub struct EventQueue {
    events: std::collections::VecDeque<EventKind>,
}

/// The queue after dropping, from its front, the events whose target no
/// longer exists.
pub open spec fn drop_stale(elements: &RetainedElements, q: Seq<EventKind>) -> Seq<EventKind>
    decreases q.len(),
{
    if q.len() == 0 {
        q
    } else if elements.live(q[0].base_view().target_of()) {
        q
    } else {
        drop_stale(elements, q.drop_first())
    }
}

impl EventQueue {
    pub closed spec fn view(&self) -> Seq<EventKind> {
        self.events@
    }

    pub fn new() -> (r: EventQueue)
        ensures
            r.view() == Seq::<EventKind>::empty(),
    {
        EventQueue { events: std::collections::VecDeque::new() }
    }

    /// Queues an event at the back.
    pub fn queue_event(&mut self, event: EventKind)
        ensures
            final(self).view() == old(self).view().push(event),
    {
        self.events.push_back(event);
    }

    /// The number of events waiting.
    pub fn len(&self) -> (r: usize)
        ensures
            r == self.view().len(),
    {
        self.events.len()
    }

    /// The next event to dispatch: the first whose target still exists.
    /// Events before it, whose targets are gone, are dropped.
    pub fn next_event(&mut self, elements: &RetainedElements) -> (r: Option<EventKind>)
        ensures
            ({
                let rest = drop_stale(elements, old(self).view());
                if rest.len() == 0 {
                    r is None && final(self).view() == rest
                } else {
                    r == Some(rest[0]) && final(self).view() == rest.drop_first()
                }
            }),
        decreases old(self).view().len(),
    {
        match self.events.pop_front() {
            Some(event) => {
                if elements.contains(event.target()) {
                    Some(event)
                } else {
                    self.next_event(elements)
                }
            },
            None => None,
        }
    }
}

/// Every event the queue hands out is for an element that exists.
pub proof fn lemma_next_event_target_exists(elements: &RetainedElements, q: Seq<EventKind>)
    ensures
        drop_stale(elements, q).len() > 0 ==> elements.live(drop_stale(elements, q)[0].base_view().target_of()),
    decreases q.len(),
{
    if q.len() > 0 && !elements.live(q[0].base_view().target_of()) {
        lemma_next_event_target_exists(elements, q.drop_first());
    }
}

} // verus!
