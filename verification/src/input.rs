//! How the application takes window input: which handler a window event
//! goes to, and what a key press does before and after it is dispatched
//! (focus outline, debug overlay, zoom, tab navigation).

use vstd::prelude::*;
use vstd::string::StrSliceExecFns;

use crate::events::{ElementState, Ime, Key, KeyboardEvent, KeyboardModifiers, NamedKey};
use crate::animation::{AnimationScheduler, ScheduledAnimation};
use crate::store::{contains_handle, DynElement, RetainedElements};

verus! {

/// The action requested after dispatching a window event to the application.
#[derive(Clone, Copy, Debug, PartialEq, Eq, Structural)]
pub enum WindowEventResult {
    Continue,
    ExitRequested,
}

/// The kinds of window event the application tells apart.
#[derive(Clone, Copy, Debug, PartialEq, Eq, Structural)]
pub enum WindowInput {
    KeyboardInput { is_synthetic: bool },
    ModifiersChanged,
    PointerMoved,
    PointerButton { released: bool },
    MouseWheel,
    CloseRequested,
    ScaleFactorChanged,
    SurfaceResized,
    Ime,
    RedrawRequested,
    Moved,
    Focused(bool),
    Other,
}

/// The handler a window event goes to.
#[derive(Clone, Copy, Debug, PartialEq, Eq, Structural)]
pub enum WindowEventRoute {
    Ignore,
    Keyboard,
    Modifiers,
    PointerMoved,
    PointerButton { is_up: bool },
    PointerScroll,
    CloseWindow,
    ScaleFactor,
    Resize,
    Ime,
    Redraw,
    Move,
    /// The window gained or lost focus; losing it also ends any input
    /// method composition.
    Focus { focused: bool, end_composition: bool },
}

/// The handler of each window event: synthetic key presses, which the
/// platform sends when a window gains focus, are dropped.
pub open spec fn route_spec(input: WindowInput) -> WindowEventRoute {
    match input {
        WindowInput::KeyboardInput { is_synthetic } => if is_synthetic {
            WindowEventRoute::Ignore
        } else {
            WindowEventRoute::Keyboard
        },
        WindowInput::ModifiersChanged => WindowEventRoute::Modifiers,
        WindowInput::PointerMoved => WindowEventRoute::PointerMoved,
        WindowInput::PointerButton { released } => WindowEventRoute::PointerButton { is_up: released },
        WindowInput::MouseWheel => WindowEventRoute::PointerScroll,
        WindowInput::CloseRequested => WindowEventRoute::CloseWindow,
        WindowInput::ScaleFactorChanged => WindowEventRoute::ScaleFactor,
        WindowInput::SurfaceResized => WindowEventRoute::Resize,
        WindowInput::Ime => WindowEventRoute::Ime,
        WindowInput::RedrawRequested => WindowEventRoute::Redraw,
        WindowInput::Moved => WindowEventRoute::Move,
        WindowInput::Focused(f) => WindowEventRoute::Focus { focused: f, end_composition: !f },
        WindowInput::Other => WindowEventRoute::Ignore,
    }
}

/// Routes a window event to its handler; the application goes on running
/// whatever the event.
pub fn on_window_event(input: WindowInput) -> (r: (WindowEventRoute, WindowEventResult))
    ensures
        r.0 == route_spec(input),
        r.1 == WindowEventResult::Continue,
{
    let route = match input {
        WindowInput::KeyboardInput { is_synthetic } => if is_synthetic {
            WindowEventRoute::Ignore
        } else {
            WindowEventRoute::Keyboard
        },
        WindowInput::ModifiersChanged => WindowEventRoute::Modifiers,
        WindowInput::PointerMoved => WindowEventRoute::PointerMoved,
        WindowInput::PointerButton { released } => WindowEventRoute::PointerButton { is_up: released },
        WindowInput::MouseWheel => WindowEventRoute::PointerScroll,
        WindowInput::CloseRequested => WindowEventRoute::CloseWindow,
        WindowInput::ScaleFactorChanged => WindowEventRoute::ScaleFactor,
        WindowInput::SurfaceResized => WindowEventRoute::Resize,
        WindowInput::Ime => WindowEventRoute::Ime,
        WindowInput::RedrawRequested => WindowEventRoute::Redraw,
        WindowInput::Moved => WindowEventRoute::Move,
        WindowInput::Focused(f) => WindowEventRoute::Focus { focused: f, end_composition: !f },
        WindowInput::Other => WindowEventRoute::Ignore,
    };
    (route, WindowEventResult::Continue)
}

/// Whether closing a window ends the application: when it was the last one.
pub fn close_ends_application(remaining_windows: usize) -> (r: bool)
    ensures
        r == (remaining_windows == 0),
{
    remaining_windows == 0
}

/// One step of keyboard zoom.
#[derive(Clone, Copy, Debug, PartialEq, Eq, Structural)]
pub enum ZoomStep {
    In,
    Out,
}

/// What a key press does before it reaches the elements.
#[derive(Clone, Copy, Debug, PartialEq, Eq, Structural)]
pub enum KeyPreamble {
    /// Show or hide the performance overlay; the key goes no further.
    TogglePerfStats,
    /// Zoom the window; the key goes no further.
    Zoom(ZoomStep),
    /// Dispatch the key to the elements.
    Dispatch,
}

/// A press with no control, alt or meta shows the focus outline: the user
/// is working with the keyboard.
pub open spec fn shows_focus_outline(state: ElementState, m: KeyboardModifiers) -> bool {
    state == ElementState::Pressed && !m.control && !m.alt && !m.meta
}

/// F3 pressed (not a repeat) toggles the performance overlay; control with
/// `=` or `-` zooms in or out; anything else is dispatched.
pub open spec fn preamble_spec(e: KeyboardEvent) -> KeyPreamble {
    if !e.repeat && e.state == ElementState::Pressed && e.key == Key::Named(NamedKey::F3) {
        KeyPreamble::TogglePerfStats
    } else if e.modifiers.control && (e.key matches Key::Character(c) && c@ == seq!['=']) {
        KeyPreamble::Zoom(ZoomStep::In)
    } else if e.modifiers.control && (e.key matches Key::Character(c) && c@ == seq!['-']) {
        KeyPreamble::Zoom(ZoomStep::Out)
    } else {
        KeyPreamble::Dispatch
    }
}

fn is_one_char(s: &String, c: char) -> (r: bool)
    ensures
        r == (s@ == seq![c]),
{
    let t = s.as_str();
    if t.unicode_len() == 1 {
        let first = t.get_char(0);
        proof {
            if first == c {
                assert(s@ =~= seq![c]);
            }
        }
        first == c
    } else {
        false
    }
}

/// Whether a key event shows the focus outline.
pub fn key_shows_focus_outline(e: &KeyboardEvent) -> (r: bool)
    ensures
        r == shows_focus_outline(e.state, e.modifiers),
{
    e.state.is_pressed() && !e.modifiers.control && !e.modifiers.alt && !e.modifiers.meta
}

/// What a key press does before it reaches the elements.
pub fn key_preamble(e: &KeyboardEvent) -> (r: KeyPreamble)
    ensures
        r == preamble_spec(*e),
{
    let is_f3 = match &e.key {
        Key::Named(NamedKey::F3) => true,
        _ => false,
    };
    if !e.repeat && e.state.is_pressed() && is_f3 {
        return KeyPreamble::TogglePerfStats;
    }
    if e.modifiers.control {
        if let Key::Character(c) = &e.key {
            if is_one_char(c, '=') {
                return KeyPreamble::Zoom(ZoomStep::In);
            } else if is_one_char(c, '-') {
                return KeyPreamble::Zoom(ZoomStep::Out);
            }
        }
    }
    KeyPreamble::Dispatch
}

/// Whether a key event asks to move the focus with Tab: a press of Tab
/// without control, alt or meta (shift moves backwards).
pub open spec fn is_tab_navigation(e: KeyboardEvent) -> bool {
    e.state == ElementState::Pressed && e.key == Key::Named(NamedKey::Tab) && !e.modifiers.control
        && !e.modifiers.alt && !e.modifiers.meta
}

/// The index `offset` steps after (or, backwards, before) `current` in a
/// cyclic list of `len`.
pub open spec fn cyclic(current: int, offset: int, len: int, backwards: bool) -> int {
    if backwards {
        (current + len - offset) % len
    } else {
        (current + offset) % len
    }
}

/// The first position of `h` in the list from `i` on.
pub open spec fn position_from(nav: Seq<(DynElement, bool)>, h: DynElement, i: int) -> Option<int>
    decreases nav.len() - i,
{
    if i < 0 || i >= nav.len() {
        None
    } else if nav[i].0 == h {
        Some(i)
    } else {
        position_from(nav, h, i + 1)
    }
}

/// The first focusable element from `i` on.
pub open spec fn first_focusable(nav: Seq<(DynElement, bool)>, i: int) -> Option<int>
    decreases nav.len() - i,
{
    if i < 0 || i >= nav.len() {
        None
    } else if nav[i].1 {
        Some(i)
    } else {
        first_focusable(nav, i + 1)
    }
}

/// The last focusable element before `i`.
pub open spec fn last_focusable(nav: Seq<(DynElement, bool)>, i: int) -> Option<int>
    decreases i,
{
    if i <= 0 || i > nav.len() {
        None
    } else if nav[i - 1].1 {
        Some(i - 1)
    } else {
        last_focusable(nav, i - 1)
    }
}

/// The first focusable element `o` or more steps away from `current`, in
/// the direction of travel, going round the list once at most.
pub open spec fn search_cyclic(nav: Seq<(DynElement, bool)>, current: int, backwards: bool, o: int) -> Option<int>
    decreases nav.len() + 1 - o,
{
    if o < 1 || o > nav.len() {
        None
    } else if nav[cyclic(current, o, nav.len() as int, backwards)].1 {
        Some(cyclic(current, o, nav.len() as int, backwards))
    } else {
        search_cyclic(nav, current, backwards, o + 1)
    }
}

/// Where Tab moves the focus among the visible elements in tree order, each
/// marked whether it takes keyboard focus: from the focused element, the
/// first focusable one after it (before it, backwards), wrapping round;
/// with no focused element listed, the first (last, backwards) focusable
/// one. `None` when none is focusable.
pub open spec fn tab_target_spec(nav: Seq<(DynElement, bool)>, focus: Option<DynElement>, backwards: bool) -> Option<int> {
    let current = match focus {
        Some(f) => position_from(nav, f, 0),
        None => None,
    };
    match current {
        Some(c) => search_cyclic(nav, c, backwards, 1),
        None => if backwards {
            last_focusable(nav, nav.len() as int)
        } else {
            first_focusable(nav, 0)
        },
    }
}

/// A step round a cyclic list, without the remainder.
proof fn lemma_cyclic_step(c: int, o: int, len: int, backwards: bool)
    requires
        0 <= c < len,
        1 <= o <= len,
    ensures
        0 <= cyclic(c, o, len, backwards) < len,
        !backwards ==> cyclic(c, o, len, backwards) == (if c + o < len { c + o } else { c + o - len }),
        backwards ==> cyclic(c, o, len, backwards) == (if o <= c { c - o } else { c + len - o }),
{
    if backwards {
        lemma_mod_below_twice(c + len - o, len);
    } else {
        lemma_mod_below_twice(c + o, len);
    }
}

proof fn lemma_mod_below_twice(a: int, n: int)
    requires
        0 <= a < 2 * n,
    ensures
        a % n == (if a < n { a } else { a - n }),
{
    if a < n {
        vstd::arithmetic::div_mod::lemma_small_mod(a as nat, n as nat);
    } else {
        vstd::arithmetic::div_mod::lemma_small_mod((a - n) as nat, n as nat);
        vstd::arithmetic::div_mod::lemma_mod_sub_multiples_vanish(a, n);
    }
}

fn find_position(nav: &Vec<(DynElement, bool)>, h: DynElement) -> (r: Option<usize>)
    ensures
        r matches Some(i) ==> i < nav@.len() && position_from(nav@, h, 0) == Some(i as int),
        r is None ==> position_from(nav@, h, 0) is None,
{
    let mut i: usize = 0;
    while i < nav.len()
        invariant
            i <= nav@.len(),
            position_from(nav@, h, 0) == position_from(nav@, h, i as int),
        decreases nav@.len() - i,
    {
        if nav[i].0 == h {
            return Some(i);
        }
        i = i + 1;
    }
    None
}

/// The index Tab moves the focus to; see [`tab_target_spec`].
pub fn tab_navigation_index(nav: &Vec<(DynElement, bool)>, focus: Option<DynElement>, backwards: bool) -> (r: Option<usize>)
    ensures
        r matches Some(i) ==> i < nav@.len() && tab_target_spec(nav@, focus, backwards) == Some(i as int),
        r is None ==> tab_target_spec(nav@, focus, backwards) is None,
{
    let len = nav.len();
    let current = match focus {
        Some(f) => find_position(nav, f),
        None => None,
    };
    match current {
        Some(c) => {
            let mut k: usize = 0;
            while k < len
                invariant
                    k <= len,
                    len == nav@.len(),
                    c < len,
                    tab_target_spec(nav@, focus, backwards) == search_cyclic(nav@, c as int, backwards, 1),
                    search_cyclic(nav@, c as int, backwards, 1) == search_cyclic(nav@, c as int, backwards, k + 1),
                decreases len - k,
            {
                let o = k + 1;
                proof {
                    lemma_cyclic_step(c as int, o as int, len as int, backwards);
                }
                let idx = if backwards {
                    if o <= c {
                        c - o
                    } else {
                        len - (o - c)
                    }
                } else {
                    if o < len - c {
                        c + o
                    } else {
                        o - (len - c)
                    }
                };
                if nav[idx].1 {
                    return Some(idx);
                }
                k = k + 1;
            }
            None
        },
        None => {
            if backwards {
                let mut i: usize = len;
                while i > 0
                    invariant
                        i <= len,
                        len == nav@.len(),
                        tab_target_spec(nav@, focus, backwards) == last_focusable(nav@, len as int),
                        last_focusable(nav@, len as int) == last_focusable(nav@, i as int),
                    decreases i,
                {
                    if nav[i - 1].1 {
                        return Some(i - 1);
                    }
                    i = i - 1;
                }
                None
            } else {
                let mut i: usize = 0;
                while i < len
                    invariant
                        i <= len,
                        len == nav@.len(),
                        tab_target_spec(nav@, focus, backwards) == first_focusable(nav@, 0),
                        first_focusable(nav@, 0) == first_focusable(nav@, i as int),
                    decreases len - i,
                {
                    if nav[i].1 {
                        return Some(i);
                    }
                    i = i + 1;
                }
                None
            }
        },
    }
}

/// The element Tab moves the focus to, if the key event asks for tab
/// navigation.
pub fn tab_navigation_target(nav: &Vec<(DynElement, bool)>, focus: Option<DynElement>, e: &KeyboardEvent) -> (r: Option<DynElement>)
    ensures
        !is_tab_navigation(*e) ==> r is None,
        is_tab_navigation(*e) ==> r == match tab_target_spec(nav@, focus, e.modifiers.shift) {
            Some(i) => Some(nav@[i].0),
            None => None::<DynElement>,
        },
{
    let is_tab = match &e.key {
        Key::Named(NamedKey::Tab) => true,
        _ => false,
    };
    if !e.state.is_pressed() || !is_tab || e.modifiers.control || e.modifiers.alt || e.modifiers.meta {
        return None;
    }
    match tab_navigation_index(nav, focus, e.modifiers.shift) {
        Some(i) => Some(nav[i].0),
        None => None,
    }
}

/// After a key is dispatched, the focus moves to the tab navigation target
/// unless a handler prevented the default.
pub fn focus_after_dispatch(prevented: bool, navigation_target: Option<DynElement>) -> (r: Option<DynElement>)
    ensures
        r == (if prevented {
            None
        } else {
            navigation_target
        }),
{
    if prevented {
        None
    } else {
        navigation_target
    }
}

/// The search for the next focusable element passes over elements that do
/// not take focus and stops at the first that does.
proof fn lemma_search_skips(nav: Seq<(DynElement, bool)>, c: int, backwards: bool, o: int, target: int)
    requires
        0 <= c < nav.len(),
        1 <= o <= target <= nav.len(),
        nav[cyclic(c, target, nav.len() as int, backwards)].1,
        forall|p: int| o <= p < target ==> !#[trigger] nav[cyclic(c, p, nav.len() as int, backwards)].1,
    ensures
        search_cyclic(nav, c, backwards, o) == Some(cyclic(c, target, nav.len() as int, backwards)),
    decreases target - o,
{
    if o < target {
        lemma_search_skips(nav, c, backwards, o + 1, target);
    }
}

/// Tab from the last focusable element of a list comes round to the first
/// one, and Shift+Tab from the first goes round to the last.
pub proof fn lemma_tab_wraps(nav: Seq<(DynElement, bool)>, first: int, last: int)
    requires
        0 <= first <= last < nav.len(),
        nav[first].1,
        nav[last].1,
        forall|j: int| 0 <= j < first ==> !nav[j].1,
        forall|j: int| last < j < nav.len() ==> !nav[j].1,
    ensures
        search_cyclic(nav, last, false, 1) == Some(first),
        search_cyclic(nav, first, true, 1) == Some(last),
{
    let len = nav.len() as int;
    let of = len - last + first;
    lemma_cyclic_step(last, of, len, false);
    assert forall|p: int| 1 <= p < of implies !#[trigger] nav[cyclic(last, p, len, false)].1 by {
        lemma_cyclic_step(last, p, len, false);
    }
    lemma_search_skips(nav, last, false, 1, of);
    let ob = first + len - last;
    lemma_cyclic_step(first, ob, len, true);
    assert forall|p: int| 1 <= p < ob implies !#[trigger] nav[cyclic(first, p, len, true)].1 by {
        lemma_cyclic_step(first, p, len, true);
    }
    lemma_search_skips(nav, first, true, 1, ob);
}

/// Tab only ever lands on an element that takes focus.
pub proof fn lemma_tab_lands_on_focusable(nav: Seq<(DynElement, bool)>, focus: Option<DynElement>, backwards: bool)
    ensures
        tab_target_spec(nav, focus, backwards) matches Some(i) ==> 0 <= i < nav.len() && nav[i].1,
{
    let current = match focus {
        Some(f) => position_from(nav, f, 0),
        None => None,
    };
    match current {
        Some(c) => {
            lemma_position_in_range(nav, focus.unwrap(), 0);
            lemma_search_in_range(nav, c, backwards, 1);
        },
        None => {
            lemma_first_in_range(nav, 0);
            lemma_last_in_range(nav, nav.len() as int);
        },
    }
}

proof fn lemma_position_in_range(nav: Seq<(DynElement, bool)>, h: DynElement, i: int)
    ensures
        position_from(nav, h, i) matches Some(k) ==> 0 <= k < nav.len(),
    decreases nav.len() - i,
{
    if 0 <= i < nav.len() && nav[i].0 != h {
        lemma_position_in_range(nav, h, i + 1);
    }
}

proof fn lemma_search_in_range(nav: Seq<(DynElement, bool)>, c: int, backwards: bool, o: int)
    requires
        0 <= c < nav.len(),
    ensures
        search_cyclic(nav, c, backwards, o) matches Some(k) ==> 0 <= k < nav.len() && nav[k].1,
    decreases nav.len() + 1 - o,
{
    if 1 <= o <= nav.len() {
        lemma_cyclic_step(c, o, nav.len() as int, backwards);
        lemma_search_in_range(nav, c, backwards, o + 1);
    }
}

proof fn lemma_first_in_range(nav: Seq<(DynElement, bool)>, i: int)
    ensures
        first_focusable(nav, i) matches Some(k) ==> 0 <= k < nav.len() && nav[k].1,
    decreases nav.len() - i,
{
    if 0 <= i < nav.len() && !nav[i].1 {
        lemma_first_in_range(nav, i + 1);
    }
}

proof fn lemma_last_in_range(nav: Seq<(DynElement, bool)>, i: int)
    ensures
        last_focusable(nav, i) matches Some(k) ==> 0 <= k < nav.len() && nav[k].1,
    decreases i,
{
    if 0 < i <= nav.len() && !nav[i - 1].1 {
        lemma_last_in_range(nav, i - 1);
    }
}

/// Whether the window's input method is composing after an input method
/// event: a pre-edit composes when it holds text; enabling, committing and
/// disabling end composition; a deletion around the cursor leaves it as it
/// was (`None`).
pub fn composing_after(ime: &Ime) -> (r: Option<bool>)
    ensures
        r == (match *ime {
            Ime::Preedit(t, _) => Some(t@.len() > 0),
            Ime::DeleteSurrounding { .. } => None,
            _ => Some(false),
        }),
{
    match ime {
        Ime::Preedit(t, _) => Some(!t.as_str().is_empty()),
        Ime::DeleteSurrounding { .. } => None,
        _ => Some(false),
    }
}

/// Whether an element is visible and whether it takes the keyboard focus,
/// by the first entry for it in `flags`; an element without an entry is
/// neither.
pub open spec fn flag_lookup(flags: Seq<(DynElement, bool, bool)>, h: DynElement) -> (bool, bool)
    decreases flags.len(),
{
    if flags.len() == 0 {
        (false, false)
    } else if flags[0].0 == h {
        (flags[0].1, flags[0].2)
    } else {
        flag_lookup(flags.drop_first(), h)
    }
}

/// The tab navigation order below the elements `hs`: each visible element
/// in turn, with whether it takes the keyboard focus, followed by the order
/// below its children; an invisible element is skipped with its subtree.
/// Subtrees are followed `depth` levels down.
pub open spec fn nav_order(
    elements: RetainedElements,
    flags: Seq<(DynElement, bool, bool)>,
    hs: Seq<DynElement>,
    depth: nat,
) -> Seq<(DynElement, bool)>
    decreases depth, hs.len(),
{
    if depth == 0 || hs.len() == 0 {
        Seq::empty()
    } else {
        let h = hs[0];
        let f = flag_lookup(flags, h);
        let rest = nav_order(elements, flags, hs.drop_first(), depth);
        if f.0 {
            seq![(h, f.1)] + nav_order(elements, flags, elements.child_list(h), (depth - 1) as nat) + rest
        } else {
            rest
        }
    }
}

fn lookup_flags(flags: &Vec<(DynElement, bool, bool)>, h: DynElement) -> (r: (bool, bool))
    ensures
        r == flag_lookup(flags@, h),
{
    let mut i: usize = 0;
    assert(flags@.subrange(0, flags@.len() as int) =~= flags@);
    while i < flags.len()
        invariant
            i <= flags@.len(),
            flag_lookup(flags@, h) == flag_lookup(flags@.subrange(i as int, flags@.len() as int), h),
        decreases flags@.len() - i,
    {
        let ghost rest = flags@.subrange(i as int, flags@.len() as int);
        assert(rest.drop_first() =~= flags@.subrange(i + 1, flags@.len() as int));
        if flags[i].0 == h {
            return (flags[i].1, flags[i].2);
        }
        i = i + 1;
    }
    (false, false)
}

fn collect_navigation(
    elements: &RetainedElements,
    flags: &Vec<(DynElement, bool, bool)>,
    hs: &Vec<DynElement>,
    depth: usize,
    out: &mut Vec<(DynElement, bool)>,
)
    ensures
        final(out)@ == old(out)@ + nav_order(*elements, flags@, hs@, depth as nat),
    decreases depth,
{
    if depth == 0 {
        assert(old(out)@ + nav_order(*elements, flags@, hs@, 0) =~= old(out)@);
        return;
    }
    let mut i: usize = 0;
    assert(hs@.subrange(0, hs@.len() as int) =~= hs@);
    while i < hs.len()
        invariant
            0 < depth,
            i <= hs@.len(),
            old(out)@ + nav_order(*elements, flags@, hs@, depth as nat) == out@ + nav_order(
                *elements,
                flags@,
                hs@.subrange(i as int, hs@.len() as int),
                depth as nat,
            ),
        decreases hs@.len() - i,
    {
        let ghost rest = hs@.subrange(i as int, hs@.len() as int);
        assert(rest.drop_first() =~= hs@.subrange(i + 1, hs@.len() as int));
        assert(rest[0] == hs@[i as int]);
        let h = hs[i];
        let f = lookup_flags(flags, h);
        let ghost before = out@;
        if f.0 {
            out.push((h, f.1));
            let children = elements.children(h);
            collect_navigation(elements, flags, &children, depth - 1, out);
            assert(out@ + nav_order(*elements, flags@, hs@.subrange(i + 1, hs@.len() as int), depth as nat)
                =~= before + nav_order(*elements, flags@, rest, depth as nat));
        }
        i = i + 1;
    }
    assert(hs@.subrange(hs@.len() as int, hs@.len() as int) =~= Seq::<DynElement>::empty());
    assert(out@ + Seq::<(DynElement, bool)>::empty() =~= out@);
}

/// The elements that tab navigation walks in a window, in order: the
/// visible elements below `root` in pre-order, each with whether it takes
/// the keyboard focus, an invisible element being skipped with its subtree.
/// Visibility and focusability are the elements' own, as listed in
/// `flags`. Subtrees are followed as deep as the store has elements, which
/// covers every subtree of a tree.
pub fn navigation_list(
    elements: &RetainedElements,
    flags: &Vec<(DynElement, bool, bool)>,
    root: DynElement,
) -> (r: Vec<(DynElement, bool)>)
    ensures
        r@ == nav_order(*elements, flags@, elements.child_list(root), elements.nodes().len()),
{
    let children = elements.children(root);
    let mut out: Vec<(DynElement, bool)> = Vec::new();
    collect_navigation(elements, flags, &children, elements.len(), &mut out);
    assert(out@ =~= Seq::<(DynElement, bool)>::empty() + nav_order(
        *elements,
        flags@,
        elements.child_list(root),
        elements.nodes().len(),
    ));
    out
}

/// Whether a pointer button event leaves the focus outline shown: a press
/// hides it, the user having turned to the pointer; a release keeps it.
pub fn outline_after_pointer_button(outline_visible: bool, is_up: bool) -> (r: bool)
    ensures
        r == (outline_visible && is_up),
{
    outline_visible && is_up
}

/// The windows of the application, in the order they were added.
#[derive(Clone, Debug)]
pub struct WindowList {
    windows: Vec<DynElement>,
}

impl WindowList {
    pub closed spec fn view(&self) -> Seq<DynElement> {
        self.windows@
    }

    pub fn new() -> (r: WindowList)
        ensures
            r.view() == Seq::<DynElement>::empty(),
    {
        WindowList { windows: Vec::new() }
    }

    /// Adds a window at the end.
    pub fn add_window(&mut self, window: DynElement)
        ensures
            final(self).view() == old(self).view().push(window),
    {
        self.windows.push(window);
    }

    /// Whether no window is left.
    pub fn is_empty(&self) -> (r: bool)
        ensures
            r == (self.view().len() == 0),
    {
        self.windows.len() == 0
    }

    /// The windows, in order.
    pub fn windows(&self) -> (r: &Vec<DynElement>)
        ensures
            r@ == self.view(),
    {
        &self.windows
    }

    /// Closes a window: it leaves the list, and the result says whether it
    /// was there (and its renderer and accessibility tree are to be
    /// released).
    pub fn close_window(&mut self, window: DynElement) -> (r: bool)
        ensures
            r == old(self).view().contains(window),
            final(self).view() == old(self).view().filter(|w: DynElement| w != window),
    {
        let held = contains_handle(&self.windows, window);
        let ghost before = self.windows@;
        let mut kept: Vec<DynElement> = Vec::new();
        let mut i: usize = 0;
        while i < self.windows.len()
            invariant
                i <= before.len(),
                self.windows@ == before,
                kept@ == before.take(i as int).filter(|w: DynElement| w != window),
            decreases before.len() - i,
        {
            proof {
                assert(before.take(i + 1).drop_last() =~= before.take(i as int));
                reveal(Seq::filter);
            }
            if self.windows[i] != window {
                kept.push(self.windows[i]);
            }
            i = i + 1;
        }
        assert(before.take(before.len() as int) =~= before);
        self.windows = kept;
        held
    }
}

/// Whether a scheduled animation outlives the closing of `window`: its
/// element still exists and belongs to another window.
pub open spec fn outlives_close(elements: &RetainedElements, window: DynElement, s: ScheduledAnimation) -> bool {
    elements.live(s.element) && elements.node(s.element).window != Some(window)
}

/// Closes `window` at the user's request: the window leaves the list, the
/// animations scheduled for its elements (and for elements that are gone)
/// are dropped, and the application is marked to close once no window is
/// left.
pub fn close_requested(
    windows: &mut WindowList,
    scheduler: &mut AnimationScheduler,
    elements: &RetainedElements,
    window: DynElement,
    requested: &mut bool,
)
    requires
        old(scheduler).wf(),
    ensures
        final(windows).view() == old(windows).view().filter(|w: DynElement| w != window),
        final(scheduler).wf(),
        final(scheduler).entries() == old(scheduler).entries().filter(
            |s: ScheduledAnimation| outlives_close(elements, window, s),
        ),
        *final(requested) == (*old(requested) || final(windows).view().len() == 0),
{
    scheduler.close_window(elements, window);
    proof {
        let f1 = |s: ScheduledAnimation| elements.live(s.element) && elements.node(s.element).window != Some(window);
        let f2 = |s: ScheduledAnimation| outlives_close(elements, window, s);
        assert(f1 =~= f2);
    }
    windows.close_window(window);
    if windows.is_empty() {
        *requested = true;
    }
}

/// Handles a window event at the application level: the event is routed to
/// its handler, a close request is carried out here, and the application
/// goes on running whatever the event.
pub fn apply_window_event(
    input: WindowInput,
    window: DynElement,
    windows: &mut WindowList,
    scheduler: &mut AnimationScheduler,
    elements: &RetainedElements,
    requested: &mut bool,
) -> (r: (WindowEventRoute, WindowEventResult))
    requires
        old(scheduler).wf(),
    ensures
        r.0 == route_spec(input),
        r.1 == WindowEventResult::Continue,
        final(scheduler).wf(),
        input == WindowInput::CloseRequested ==> {
            &&& final(windows).view() == old(windows).view().filter(|w: DynElement| w != window)
            &&& final(scheduler).entries() == old(scheduler).entries().filter(
                |s: ScheduledAnimation| outlives_close(elements, window, s),
            )
            &&& *final(requested) == (*old(requested) || final(windows).view().len() == 0)
        },
        input != WindowInput::CloseRequested ==> {
            &&& final(windows).view() == old(windows).view()
            &&& final(scheduler).entries() == old(scheduler).entries()
            &&& *final(requested) == *old(requested)
        },
{
    let r = on_window_event(input);
    if let WindowInput::CloseRequested = input {
        close_requested(windows, scheduler, elements, window, requested);
    }
    r
}

/// Closing every window that was opened, one by one, leaves none, and the
/// application ends with the last close.
pub proof fn lemma_closing_only_window_ends(windows: Seq<DynElement>, w: DynElement)
    requires
        forall|i: int| 0 <= i < windows.len() ==> windows[i] == w,
    ensures
        windows.filter(|x: DynElement| x != w).len() == 0,
    decreases windows.len(),
{
    reveal(Seq::filter);
    if windows.len() > 0 {
        lemma_closing_only_window_ends(windows.drop_last(), w);
    }
}

/// Every window event reaches a handler of its own kind: only synthetic key
/// presses and events the application does not know are ignored; the mouse
/// wheel scrolls, pointer moves and buttons reach the pointer handlers, and
/// a close request closes the window.
pub proof fn lemma_routes_reach_their_handlers(input: WindowInput)
    ensures
        (route_spec(input) == WindowEventRoute::Ignore) <==> (input == (WindowInput::KeyboardInput {
            is_synthetic: true,
        }) || input == WindowInput::Other),
        input == WindowInput::MouseWheel <==> route_spec(input) == WindowEventRoute::PointerScroll,
        input == WindowInput::PointerMoved <==> route_spec(input) == WindowEventRoute::PointerMoved,
        input == WindowInput::CloseRequested <==> route_spec(input) == WindowEventRoute::CloseWindow,
        input == (WindowInput::KeyboardInput { is_synthetic: false }) <==> route_spec(input)
            == WindowEventRoute::Keyboard,
        input is PointerButton ==> route_spec(input) == (WindowEventRoute::PointerButton { is_up: input->released }),
        input == WindowInput::ModifiersChanged <==> route_spec(input) == WindowEventRoute::Modifiers,
        input == WindowInput::ScaleFactorChanged <==> route_spec(input) == WindowEventRoute::ScaleFactor,
        input == WindowInput::SurfaceResized <==> route_spec(input) == WindowEventRoute::Resize,
        input == WindowInput::Ime <==> route_spec(input) == WindowEventRoute::Ime,
        input == WindowInput::RedrawRequested <==> route_spec(input) == WindowEventRoute::Redraw,
        input == WindowInput::Moved <==> route_spec(input) == WindowEventRoute::Move,
        input is Focused ==> route_spec(input) == (WindowEventRoute::Focus {
            focused: input->Focused_0,
            end_composition: !input->Focused_0,
        }),
{
}

} // verus!
