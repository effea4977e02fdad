//! The decisions of the simple controls: buttons, checkboxes, radio buttons
//! and radio groups.

use vstd::prelude::*;

use crate::events::{
    CheckboxToggledEvent, ClickEvent, ClickTrigger, Code, ElementState, Event, EventKind, Key, NamedKey,
    RadioValueChangedEvent,
};
use crate::store::DynElement;

verus! {

/// The interaction state a button is drawn in.
#[derive(Clone, Copy, Debug, PartialEq, Eq, Structural)]
pub enum ButtonState {
    Default,
    Hovered,
    Pressed,
    Focused,
}

/// The axis a slider runs along.
#[derive(Clone, Copy, Debug, PartialEq, Eq, Structural)]
pub enum SliderDirection {
    Horizontal,
    Vertical,
}

impl Default for SliderDirection {
    fn default() -> (r: SliderDirection)
        ensures
            r == SliderDirection::Horizontal,
    {
        SliderDirection::Horizontal
    }
}

/// A request from assistive technology.
#[derive(Clone, Copy, Debug, PartialEq, Eq, Structural)]
pub enum AccessRequest {
    Invoke,
    Toggle,
    Select,
    AddToSelection,
    ScrollIntoView,
    /// A request that the controls here do not act on.
    Other,
}

impl Key {
    /// A copy of the key.
    pub fn duplicate(&self) -> (r: Key)
        ensures
            r == *self,
    {
        match self {
            Key::Named(n) => Key::Named(*n),
            Key::Character(s) => Key::Character(s.clone()),
            Key::Unidentified => Key::Unidentified,
            Key::Dead(c) => Key::Dead(*c),
        }
    }
}

/// What a button does with an event: a click focuses it; Enter, numpad Enter
/// or Space (not a repeat) while it is focused queue a click from the key.
pub open spec fn button_event_spec(focused: bool, event: EventKind, me: DynElement) -> (bool, Option<EventKind>) {
    match event {
        EventKind::Click(_) => (true, None),
        EventKind::KeyDown(k) => if focused && !k.repeat && (k.code == Code::Enter || k.code == Code::NumpadEnter
            || k.code == Code::Space) {
            (
                false,
                Some(
                    EventKind::Click(
                        ClickEvent { base: crate::events::BaseEvent::fresh_at(me), trigger: ClickTrigger::Keyboard { key: k.key } },
                    ),
                ),
            )
        } else {
            (false, None)
        },
        _ => (false, None),
    }
}

/// A button's reaction to an event: whether to take focus, and the click
/// event to queue, if any.
pub fn button_on_event(focused: bool, event: &EventKind, me: DynElement) -> (r: (bool, Option<EventKind>))
    ensures
        r == button_event_spec(focused, *event, me),
{
    match event {
        EventKind::Click(_) => (true, None),
        EventKind::KeyDown(k) => {
            if focused && !k.repeat && (k.code == Code::Enter || k.code == Code::NumpadEnter || k.code
                == Code::Space) {
                let click = ClickEvent::new(me, ClickTrigger::Keyboard { key: k.key.duplicate() });
                proof {
                    crate::events::BaseEvent::lemma_fresh_unique(click.base, me);
                }
                (false, Some(EventKind::Click(click)))
            } else {
                (false, None)
            }
        },
        _ => (false, None),
    }
}

/// An invoke request queues a click from assistive technology.
pub fn button_on_access_event(request: AccessRequest, me: DynElement) -> (r: Option<EventKind>)
    ensures
        r == (if request == AccessRequest::Invoke {
            Some(
                EventKind::Click(
                    ClickEvent { base: crate::events::BaseEvent::fresh_at(me), trigger: ClickTrigger::Accessibility },
                ),
            )
        } else {
            None
        }),
{
    if request == AccessRequest::Invoke {
        let click = ClickEvent::new(me, ClickTrigger::Accessibility);
        proof {
            crate::events::BaseEvent::lemma_fresh_unique(click.base, me);
        }
        Some(EventKind::Click(click))
    } else {
        None
    }
}

/// A checkbox: a label and whether it is checked.
#[derive(Clone, Debug)]
pub struct CheckboxState {
    pub label: String,
    pub checked: bool,
}

impl CheckboxState {
    pub fn new(label: String, checked: bool) -> (r: CheckboxState)
        ensures
            r.label == label,
            r.checked == checked,
    {
        CheckboxState { label, checked }
    }

    /// Flips the check and returns the toggled event to queue, which carries
    /// the label and the new state.
    pub fn toggle(&mut self, me: DynElement) -> (r: CheckboxToggledEvent)
        ensures
            final(self).checked == !old(self).checked,
            final(self).label == old(self).label,
            r.base_view().fresh(me),
            r.label == old(self).label,
            r.status == final(self).checked,
    {
        self.checked = !self.checked;
        CheckboxToggledEvent::new(me, self.label.clone(), self.checked)
    }

    /// Whether an event toggles the checkbox: a click does, and so does Space
    /// pressed while it is focused. A click also focuses it.
    pub fn event_toggles(focused: bool, event: &EventKind) -> (r: (bool, bool))
        ensures
            r.0 == (*event is Click || (focused && match *event {
                EventKind::KeyDown(k) => k.code == Code::Space && k.state == ElementState::Pressed,
                _ => false,
            })),
            r.1 == (*event is Click),
    {
        match event {
            EventKind::Click(_) => (true, true),
            EventKind::KeyDown(k) => (focused && k.code == Code::Space && k.state.is_pressed(), false),
            _ => (false, false),
        }
    }
}

/// What a radio button does with an event.
#[derive(Clone, Copy, Debug, PartialEq, Eq, Structural)]
pub enum RadioResponse {
    Nothing,
    /// Take the focus and select this radio button's value.
    FocusAndSelect,
    /// Select this radio button's value; the key event is consumed.
    Select,
}

/// A pointer release selects a radio button and focuses it; Space (not a
/// repeat) while it is focused selects it and consumes the key.
pub open spec fn radio_response(focused: bool, event: EventKind) -> RadioResponse {
    match event {
        EventKind::PointerUp(_) => RadioResponse::FocusAndSelect,
        EventKind::KeyDown(k) => if focused && k.code == Code::Space && !k.repeat {
            RadioResponse::Select
        } else {
            RadioResponse::Nothing
        },
        _ => RadioResponse::Nothing,
    }
}

/// A radio button's reaction to an event; a consumed key has its propagation
/// stopped and its default handling prevented.
pub fn radio_on_event(focused: bool, event: &mut EventKind) -> (r: RadioResponse)
    ensures
        r == radio_response(focused, *old(event)),
        r == RadioResponse::Select ==> final(event).base_view().stopped() && final(event).base_view().prevented(),
        r != RadioResponse::Select ==> *final(event) == *old(event),
{
    let r = match event {
        EventKind::PointerUp(_) => RadioResponse::FocusAndSelect,
        EventKind::KeyDown(k) => if focused && k.code == Code::Space && !k.repeat {
            RadioResponse::Select
        } else {
            RadioResponse::Nothing
        },
        _ => RadioResponse::Nothing,
    };
    if r == RadioResponse::Select {
        event.stop_propagation();
        event.prevent_default();
    }
    r
}

/// Selects a radio button's value in the group's shared value: the shared
/// value becomes the button's, and the value-changed event to queue is
/// returned with whether the selection changed (and a redraw is due).
pub fn select_radio_value(active_value: &mut String, value: &String, me: DynElement) -> (r: (bool, RadioValueChangedEvent))
    ensures
        final(active_value)@ == value@,
        r.0 == (old(active_value)@ != value@),
        r.1.base_view().fresh(me),
        r.1.value@ == value@,
{
    let changed = !(*active_value == *value);
    *active_value = value.clone();
    (changed, RadioValueChangedEvent::new(me, value.clone()))
}

/// Whether a radio button with `value` is the selected one of its group.
pub fn radio_is_selected(active_value: &String, value: &String) -> (r: bool)
    ensures
        r == (active_value@ == value@),
{
    *active_value == *value
}

/// The direction an arrow key moves a radio group's selection: forward for
/// down and right, backward for up and left.
pub open spec fn radio_direction(code: Code) -> Option<bool> {
    if code == Code::ArrowDown || code == Code::ArrowRight {
        Some(true)
    } else if code == Code::ArrowUp || code == Code::ArrowLeft {
        Some(false)
    } else {
        None
    }
}

/// The radio button after `current` of `count`, wrapping around.
pub open spec fn next_radio(current: int, count: int, forward: bool) -> int {
    if forward {
        (current + 1) % count
    } else {
        (current + count - 1) % count
    }
}

/// The radio button an arrow key moves a group's focus and selection to:
/// the next or previous of the group's `count` radio buttons, cyclically,
/// from the focused one. Nothing moves when no radio button is focused; a
/// move consumes the key.
pub fn radio_group_on_event(event: &mut EventKind, count: usize, focused: Option<usize>) -> (r: Option<usize>)
    requires
        focused matches Some(i) ==> i < count,
    ensures
        r == (match *old(event) {
            EventKind::KeyDown(k) => match (radio_direction(k.code), focused) {
                (Some(forward), Some(i)) => Some(next_radio(i as int, count as int, forward) as usize),
                _ => None,
            },
            _ => None,
        }),
        r matches Some(j) ==> j < count && final(event).base_view().stopped() && final(event).base_view().prevented(),
        r is None ==> *final(event) == *old(event),
{
    let direction = match event {
        EventKind::KeyDown(k) => if k.code == Code::ArrowDown || k.code == Code::ArrowRight {
            Some(true)
        } else if k.code == Code::ArrowUp || k.code == Code::ArrowLeft {
            Some(false)
        } else {
            None
        },
        _ => None,
    };
    match (direction, focused) {
        (Some(forward), Some(i)) => {
            let next = if forward {
                if i + 1 == count {
                    0
                } else {
                    i + 1
                }
            } else {
                if i == 0 {
                    count - 1
                } else {
                    i - 1
                }
            };
            proof {
                lemma_next_radio_steps(i as int, count as int);
            }
            event.stop_propagation();
            event.prevent_default();
            Some(next)
        },
        _ => None,
    }
}

/// One step forward wraps from the last radio button to the first, one step
/// back from the first to the last.
proof fn lemma_next_radio_steps(current: int, count: int)
    requires
        0 <= current < count,
    ensures
        next_radio(current, count, true) == (if current + 1 == count { 0 } else { current + 1 }),
        next_radio(current, count, false) == (if current == 0 { count - 1 } else { current - 1 }),
{
    lemma_mod_below_twice(current + 1, count);
    lemma_mod_below_twice(current + count - 1, count);
}

proof fn lemma_mod_below_twice(a: int, n: int)
    requires
        0 <= a < 2 * n,
    ensures
        a % n == (if a < n { a } else { a - n }),
{
    if a < n {
        vstd::arithmetic::div_mod::lemma_small_mod(a as nat, n as nat);
    } else {
        vstd::arithmetic::div_mod::lemma_small_mod((a - n) as nat, n as nat);
        vstd::arithmetic::div_mod::lemma_mod_sub_multiples_vanish(a, n);
    }
}

/// Moving a radio group's selection forward and then back returns to the
/// radio button it started from.
pub proof fn lemma_radio_move_round_trip(current: int, count: int)
    requires
        0 <= current < count,
    ensures
        0 <= next_radio(current, count, true) < count,
        next_radio(next_radio(current, count, true), count, false) == current,
        next_radio(next_radio(current, count, false), count, true) == current,
{
    lemma_next_radio_steps(current, count);
    let f = next_radio(current, count, true);
    let b = next_radio(current, count, false);
    lemma_next_radio_steps(f, count);
    lemma_next_radio_steps(b, count);
}

/// What a slider does with an event; the value itself is floating point and
/// is computed by the caller.
#[derive(Clone, Copy, Debug, PartialEq, Eq, Structural)]
pub enum SliderStep {
    Nothing,
    /// Move the value by this many steps, clamped to the range; the key is
    /// consumed.
    By(i32),
    /// Set the value to the minimum; the key is consumed.
    ToMin,
    /// Set the value to the maximum; the key is consumed.
    ToMax,
    /// A press: capture the pointer and set the value under it.
    Press,
    /// A release: take focus, release the pointer and set the value under it.
    Release,
    /// A drag: set the value under the pointer.
    Drag,
}

/// The steps of the slider keys, pressed while the slider is focused: the
/// arrows by one, Page Up and Page Down by ten, Home and End to the ends.
pub open spec fn slider_key(code: Code) -> SliderStep {
    if code == Code::ArrowUp || code == Code::ArrowRight {
        SliderStep::By(1i32)
    } else if code == Code::ArrowDown || code == Code::ArrowLeft {
        SliderStep::By(-1i32)
    } else if code == Code::Home {
        SliderStep::ToMin
    } else if code == Code::End {
        SliderStep::ToMax
    } else if code == Code::PageUp {
        SliderStep::By(10i32)
    } else if code == Code::PageDown {
        SliderStep::By(-10i32)
    } else {
        SliderStep::Nothing
    }
}

/// What a slider does with an event, and whether it is being dragged
/// after it.
pub open spec fn slider_spec(focused: bool, dragging: bool, event: EventKind) -> (SliderStep, bool) {
    match event {
        EventKind::KeyDown(k) => (if k.state == ElementState::Pressed && focused { slider_key(k.code) } else { SliderStep::Nothing }, dragging),
        EventKind::KeyUp(k) => (if k.state == ElementState::Pressed && focused { slider_key(k.code) } else { SliderStep::Nothing }, dragging),
        EventKind::PointerUp(_) => (SliderStep::Release, false),
        EventKind::PointerDown(_) => (SliderStep::Press, true),
        EventKind::PointerMoved(_) => (if dragging { SliderStep::Drag } else { SliderStep::Nothing }, dragging),
        _ => (SliderStep::Nothing, dragging),
    }
}

fn slider_key_exec(code: Code) -> (r: SliderStep)
    ensures
        r == slider_key(code),
{
    if code == Code::ArrowUp || code == Code::ArrowRight {
        SliderStep::By(1)
    } else if code == Code::ArrowDown || code == Code::ArrowLeft {
        SliderStep::By(-1)
    } else if code == Code::Home {
        SliderStep::ToMin
    } else if code == Code::End {
        SliderStep::ToMax
    } else if code == Code::PageUp {
        SliderStep::By(10)
    } else if code == Code::PageDown {
        SliderStep::By(-10)
    } else {
        SliderStep::Nothing
    }
}

/// A slider's reaction to an event; a key that moves the value is consumed.
pub fn slider_on_event(focused: bool, dragging: &mut bool, event: &mut EventKind) -> (r: SliderStep)
    requires
        (*old(event) is PointerUp || *old(event) is PointerDown) ==> old(event).spec_pointer_id() is Some,
    ensures
        (r, *final(dragging)) == slider_spec(focused, *old(dragging), *old(event)),
        (r is By || r is ToMin || r is ToMax) ==> final(event).base_view().stopped()
            && final(event).base_view().prevented(),
        !(r is By || r is ToMin || r is ToMax) ==> *final(event) == *old(event),
{
    let r = match event {
        EventKind::KeyDown(k) => if k.state.is_pressed() && focused {
            slider_key_exec(k.code)
        } else {
            SliderStep::Nothing
        },
        EventKind::KeyUp(k) => if k.state.is_pressed() && focused {
            slider_key_exec(k.code)
        } else {
            SliderStep::Nothing
        },
        EventKind::PointerUp(_) => {
            *dragging = false;
            SliderStep::Release
        },
        EventKind::PointerDown(_) => {
            *dragging = true;
            SliderStep::Press
        },
        EventKind::PointerMoved(_) => if *dragging {
            SliderStep::Drag
        } else {
            SliderStep::Nothing
        },
        _ => SliderStep::Nothing,
    };
    let consumed = match r {
        SliderStep::By(_) | SliderStep::ToMin | SliderStep::ToMax => true,
        _ => false,
    };
    if consumed {
        event.stop_propagation();
        event.prevent_default();
    }
    r
}

/// A focused slider's keys: Home goes to the minimum and End to the
/// maximum; the arrows step by one and the page keys by ten, up and right
/// increasing and down and left decreasing by as much; other keys do
/// nothing. A key press on an unfocused slider does nothing.
pub proof fn lemma_slider_keys(focused: bool, dragging: bool, event: EventKind)
    requires
        event matches EventKind::KeyDown(k) && k.state == ElementState::Pressed,
    ensures
        ({
            let code = event->KeyDown_0.code;
            let step = slider_spec(focused, dragging, event).0;
            &&& !focused ==> step == SliderStep::Nothing
            &&& focused && code == Code::Home ==> step == SliderStep::ToMin
            &&& focused && code == Code::End ==> step == SliderStep::ToMax
            &&& focused && (code == Code::ArrowUp || code == Code::ArrowRight) ==> step == SliderStep::By(1i32)
            &&& focused && (code == Code::ArrowDown || code == Code::ArrowLeft) ==> step == SliderStep::By(-1i32)
            &&& focused && code == Code::PageUp ==> step == SliderStep::By(10i32)
            &&& focused && code == Code::PageDown ==> step == SliderStep::By(-10i32)
        }),
        slider_key(Code::Home) != slider_key(Code::End),
        slider_key(Code::ArrowUp) is By && slider_key(Code::ArrowDown) is By && slider_key(Code::ArrowUp)->By_0
            == -slider_key(Code::ArrowDown)->By_0,
        slider_key(Code::PageUp) is By && slider_key(Code::PageDown) is By && slider_key(Code::PageUp)->By_0
            == -slider_key(Code::PageDown)->By_0,
{
}

/// A button is pressed from the keyboard: while focused, Enter, numpad
/// Enter and Space (not repeats) make a click on the button, triggered by
/// that key, without moving the focus; unfocused, keys do nothing. A click
/// takes the focus and makes no further click.
pub proof fn lemma_button_keys_click(focused: bool, event: EventKind, me: DynElement)
    ensures
        event is Click ==> button_event_spec(focused, event, me) == (true, Option::<EventKind>::None),
        (event matches EventKind::KeyDown(k) && !k.repeat && (k.code == Code::Enter || k.code == Code::NumpadEnter
            || k.code == Code::Space)) ==> ({
            let (take_focus, click) = button_event_spec(focused, event, me);
            &&& !take_focus
            &&& focused ==> (click matches Some(EventKind::Click(c)) && c.base_view().fresh(me) && c.trigger
                == (ClickTrigger::Keyboard { key: event->KeyDown_0.key }))
            &&& !focused ==> click is None
        }),
{
    crate::events::BaseEvent::lemma_fresh_at_is_fresh(me);
}

/// The arrow keys move through a radio group in a circle: from the focused
/// radio button `i`, ArrowDown and ArrowRight go to the next one and
/// ArrowUp and ArrowLeft to the previous one, the last leading back to the
/// first and the first to the last.
pub proof fn lemma_radio_arrows_cycle(i: int, count: int, code: Code)
    requires
        0 <= i < count,
    ensures
        (code == Code::ArrowDown || code == Code::ArrowRight) ==> radio_direction(code) == Some(true)
            && next_radio(i, count, true) == (if i + 1 < count { i + 1 } else { 0 }),
        (code == Code::ArrowUp || code == Code::ArrowLeft) ==> radio_direction(code) == Some(false)
            && next_radio(i, count, false) == (if i > 0 { i - 1 } else { count - 1 }),
{
    lemma_mod_below_twice(i + 1, count);
    lemma_mod_below_twice(i + count - 1, count);
}

} // verus!
