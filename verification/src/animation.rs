//! Animation timing: the clock of a key-frame animation, and the schedule on
//! which animated elements want their next frame.
//!
//! Times are whole nanoseconds; instants count from a reference point that
//! the application picks.

use vstd::prelude::*;

use crate::store::{contains_handle, DynElement, RetainedElements};

verus! {

/// How many times the animation repeats.
#[derive(Clone, Copy, Debug, PartialEq, Eq, Structural)]
pub enum Repeat {
    Forever,
    Fixed(u32),
}

/// The largest span a `std::time::Duration` holds, in nanoseconds.
pub const MAX_DURATION_NANOS: u128 = 18_446_744_073_709_551_615_999_999_999;

/// The position of an animation in time: how far into the current loop it
/// is, how long a loop lasts, and how many loops it has completed.
#[derive(Clone, Copy, Debug)]
pub struct AnimationClock {
    current_nanos: u128,
    duration_nanos: u128,
    repeat: Repeat,
    completed_loops: u32,
}

/// Whether an animation with these parts is done: a zero-length one always
/// is, and one with a fixed count once it has run that many loops.
pub open spec fn finished(duration: u128, repeat: Repeat, completed: u32) -> bool {
    duration == 0 || (repeat matches Repeat::Fixed(n) && completed >= n)
}

/// The loop position and completed loops after a tick of `delta`; see
/// [`AnimationClock::tick`].
pub open spec fn tick_result(current: u128, duration: u128, repeat: Repeat, completed: u32, delta: u128) -> (int, int) {
    if finished(duration, repeat, completed) {
        (current as int, completed as int)
    } else {
        let total = current + delta;
        if total < duration {
            (total, completed as int)
        } else {
            let d = duration as int;
            let loops = if total / d > u32::MAX { u32::MAX as int } else { total / d };
            let rest = (
                total - d * loops,
                if completed + loops > u32::MAX { u32::MAX as int } else { completed + loops },
            );
            match repeat {
                Repeat::Fixed(n) => if loops >= (if n >= completed { n - completed } else { 0 }) {
                    (duration as int, n as int)
                } else {
                    rest
                },
                Repeat::Forever => rest,
            }
        }
    }
}

impl AnimationClock {
    pub closed spec fn current(&self) -> u128 {
        self.current_nanos
    }

    pub closed spec fn duration(&self) -> u128 {
        self.duration_nanos
    }

    pub closed spec fn repeat_of(&self) -> Repeat {
        self.repeat
    }

    pub closed spec fn completed(&self) -> u32 {
        self.completed_loops
    }

    pub closed spec fn wf(&self) -> bool {
        self.current_nanos <= MAX_DURATION_NANOS && self.duration_nanos <= MAX_DURATION_NANOS
    }

    pub open spec fn spec_is_finished(&self) -> bool {
        finished(self.duration(), self.repeat_of(), self.completed())
    }

    /// A clock at the start of an animation of the given loop length.
    pub fn new(duration_nanos: u128, repeat: Repeat) -> (r: AnimationClock)
        requires
            duration_nanos <= MAX_DURATION_NANOS,
        ensures
            r.wf(),
            r.current() == 0,
            r.duration() == duration_nanos,
            r.repeat_of() == repeat,
            r.completed() == 0,
    {
        AnimationClock { current_nanos: 0, duration_nanos, repeat, completed_loops: 0 }
    }

    /// How far into the current loop the animation is.
    pub fn current_nanos(&self) -> (r: u128)
        ensures
            r == self.current(),
    {
        self.current_nanos
    }

    /// Loops completed so far.
    pub fn completed_loops(&self) -> (r: u32)
        ensures
            r == self.completed(),
    {
        self.completed_loops
    }

    /// Returns if the animation is finished.
    pub fn is_finished(&self) -> (r: bool)
        ensures
            r == self.spec_is_finished(),
    {
        self.duration_nanos == 0 || match self.repeat {
            Repeat::Fixed(amount) => self.completed_loops >= amount,
            Repeat::Forever => false,
        }
    }

    /// Advances an active animation by `delta` nanoseconds.
    ///
    /// A finished animation stays as it is. Otherwise time moves on; within
    /// the loop nothing more happens. Past the end of the loop, the loops that
    /// went by (at most `u32::MAX`) are counted: an animation with a fixed
    /// count that reaches it stops at the end of its last loop; any other
    /// keeps the remainder of the time in the new loop.
    pub fn tick(&mut self, delta: u128)
        requires
            old(self).wf(),
            old(self).spec_is_finished() || old(self).current() + delta <= MAX_DURATION_NANOS,
        ensures
            final(self).wf(),
            final(self).duration() == old(self).duration(),
            final(self).repeat_of() == old(self).repeat_of(),
            old(self).spec_is_finished() ==> *final(self) == *old(self),
            (final(self).current() as int, final(self).completed() as int) == tick_result(
                old(self).current(),
                old(self).duration(),
                old(self).repeat_of(),
                old(self).completed(),
                delta,
            ),
    {
        if self.is_finished() {
            return;
        }
        self.current_nanos = self.current_nanos + delta;
        if self.current_nanos < self.duration_nanos {
            return;
        }
        let quotient = self.current_nanos / self.duration_nanos;
        let elapsed_loops: u32 = if quotient > 0xffff_ffffu128 {
            0xffff_ffffu32
        } else {
            quotient as u32
        };
        if let Repeat::Fixed(amount) = self.repeat {
            let remaining = amount.saturating_sub(self.completed_loops);
            if elapsed_loops >= remaining {
                self.completed_loops = amount;
                self.current_nanos = self.duration_nanos;
                return;
            }
        }
        self.completed_loops = self.completed_loops.saturating_add(elapsed_loops);
        proof {
            let c = self.current_nanos as int;
            let d = self.duration_nanos as int;
            let l = elapsed_loops as int;
            assert(l <= c / d);
            assert(d * l <= d * (c / d)) by (nonlinear_arith)
                requires
                    l <= c / d,
                    d > 0,
            ;
            assert(d * (c / d) <= c) by (nonlinear_arith)
                requires
                    d > 0,
                    c >= 0,
            ;
        }
        let span = self.duration_nanos * (elapsed_loops as u128);
        self.current_nanos = self.current_nanos - span;
    }
}

/// A finished animation stays as it is however much time passes: a tick
/// changes neither its position nor its count of loops.
pub proof fn lemma_finished_is_final(current: u128, duration: u128, repeat: Repeat, completed: u32, delta: u128)
    requires
        finished(duration, repeat, completed),
    ensures
        tick_result(current, duration, repeat, completed, delta) == (current as int, completed as int),
{
}

/// An animation that repeats a fixed number of times finishes once enough
/// time has gone by to complete its remaining loops in one tick.
pub proof fn lemma_fixed_repeat_finishes(current: u128, duration: u128, n: u32, completed: u32, delta: u128)
    requires
        !finished(duration, Repeat::Fixed(n), completed),
        (current + delta) / (duration as int) >= n - completed,
    ensures
        ({
            let (c, k) = tick_result(current, duration, Repeat::Fixed(n), completed, delta);
            k == n && finished(duration, Repeat::Fixed(n), k as u32)
        }),
{
    let total = current + delta;
    if total < duration {
        assert(total / (duration as int) == 0) by (nonlinear_arith)
            requires
                0 <= total < duration,
        ;
    }
}

/// When an animated element next wants a frame.
#[derive(Clone, Copy, Debug, PartialEq, Eq, Structural)]
pub enum AnimationSchedule {
    /// Not at all.
    Never,
    /// At the next frame.
    NextFrame,
    /// At the given instant, in nanoseconds.
    At(u64),
}

/// The earlier of two schedules: the next frame comes before any instant,
/// and no schedule at all comes last.
pub open spec fn merge_spec(a: AnimationSchedule, b: AnimationSchedule) -> AnimationSchedule {
    match (a, b) {
        (AnimationSchedule::NextFrame, _) => AnimationSchedule::NextFrame,
        (_, AnimationSchedule::NextFrame) => AnimationSchedule::NextFrame,
        (AnimationSchedule::At(x), AnimationSchedule::At(y)) => AnimationSchedule::At(
            if x <= y {
                x
            } else {
                y
            },
        ),
        (AnimationSchedule::Never, _) => b,
        (_, AnimationSchedule::Never) => a,
    }
}

/// A schedule seen at `now`: an instant that has come means the next frame.
pub open spec fn due_spec(s: AnimationSchedule, now: u64) -> AnimationSchedule {
    match s {
        AnimationSchedule::At(t) => if t <= now {
            AnimationSchedule::NextFrame
        } else {
            s
        },
        _ => s,
    }
}

impl AnimationSchedule {
    /// The earlier of two schedules.
    pub fn merge(self, other: AnimationSchedule) -> (r: AnimationSchedule)
        ensures
            r == merge_spec(self, other),
    {
        match (self, other) {
            (AnimationSchedule::NextFrame, _) => AnimationSchedule::NextFrame,
            (_, AnimationSchedule::NextFrame) => AnimationSchedule::NextFrame,
            (AnimationSchedule::At(x), AnimationSchedule::At(y)) => AnimationSchedule::At(
                if x <= y {
                    x
                } else {
                    y
                },
            ),
            (AnimationSchedule::Never, _) => other,
            (_, AnimationSchedule::Never) => self,
        }
    }

    /// Whether a tick is due at `now`.
    pub fn is_due(self, now: u64) -> (r: bool)
        ensures
            r == (due_spec(self, now) == AnimationSchedule::NextFrame),
    {
        match self {
            AnimationSchedule::NextFrame => true,
            AnimationSchedule::At(t) => t <= now,
            AnimationSchedule::Never => false,
        }
    }
}

/// The combined schedule of several deadlines seen at `now`.
pub open spec fn combined(deadlines: Seq<AnimationSchedule>, now: u64) -> AnimationSchedule
    decreases deadlines.len(),
{
    if deadlines.len() == 0 {
        AnimationSchedule::Never
    } else {
        merge_spec(combined(deadlines.drop_last(), now), due_spec(deadlines.last(), now))
    }
}

/// When a window next needs a frame for its animations: the earliest of
/// their deadlines, a deadline that has come counting as the next frame.
pub fn window_schedule(deadlines: &Vec<AnimationSchedule>, now: u64) -> (r: AnimationSchedule)
    ensures
        r == combined(deadlines@, now),
{
    let mut acc = AnimationSchedule::Never;
    let mut i: usize = 0;
    while i < deadlines.len()
        invariant
            i <= deadlines@.len(),
            acc == combined(deadlines@.take(i as int), now),
        decreases deadlines@.len() - i,
    {
        let d = deadlines[i];
        let next = match d {
            AnimationSchedule::At(t) => if t <= now {
                AnimationSchedule::NextFrame
            } else {
                d
            },
            _ => d,
        };
        proof {
            assert(deadlines@.take(i + 1).drop_last() =~= deadlines@.take(i as int));
        }
        acc = acc.merge(next);
        i = i + 1;
    }
    assert(deadlines@.take(deadlines@.len() as int) =~= deadlines@);
    acc
}

/// Merging schedules does not depend on their order or grouping, no
/// schedule changes nothing, and the next frame wins over everything.
pub proof fn lemma_merge_laws(a: AnimationSchedule, b: AnimationSchedule, c: AnimationSchedule)
    ensures
        merge_spec(a, b) == merge_spec(b, a),
        merge_spec(merge_spec(a, b), c) == merge_spec(a, merge_spec(b, c)),
        merge_spec(a, AnimationSchedule::Never) == a,
        merge_spec(a, AnimationSchedule::NextFrame) == AnimationSchedule::NextFrame,
        merge_spec(a, a) == a,
{
}

/// An animated element waiting for its next tick.
#[derive(Clone, Copy, Debug, PartialEq, Eq, Structural)]
pub struct ScheduledAnimation {
    pub element: DynElement,
    pub deadline: AnimationSchedule,
    /// When the element last ticked, in nanoseconds.
    pub last_tick: u64,
    /// Whether the element was not runnable (hidden) when last looked at.
    pub dormant: bool,
}

/// The entries after a tick of `element` is asked for at the next frame: an
/// element already listed keeps its place (its clock restarts at `now` if
/// `reset_clock`), another is added at the end with its clock at `now`.
pub open spec fn requested(s: Seq<ScheduledAnimation>, element: DynElement, reset_clock: bool, now: u64) -> Seq<
    ScheduledAnimation,
> {
    if exists|i: int| 0 <= i < s.len() && s[i].element == element {
        let i = choose|i: int| 0 <= i < s.len() && s[i].element == element;
        s.update(
            i,
            ScheduledAnimation {
                deadline: AnimationSchedule::NextFrame,
                last_tick: if reset_clock {
                    now
                } else {
                    s[i].last_tick
                },
                ..s[i]
            },
        )
    } else {
        s.push(ScheduledAnimation { element, deadline: AnimationSchedule::NextFrame, last_tick: now, dormant: false })
    }
}

/// Whether an update for `element` is taken: the element exists, and the
/// window it belongs to, if any, is one of the application's windows.
pub open spec fn admissible(elements: &RetainedElements, windows: Seq<DynElement>, element: DynElement) -> bool {
    elements.live(element) && match elements.node(element).window {
        Some(w) => windows.contains(w),
        None => true,
    }
}

/// The entries after the pending updates are applied in order, each one
/// that is admissible as [`requested`] says.
pub open spec fn apply_pending(
    s: Seq<ScheduledAnimation>,
    elements: &RetainedElements,
    windows: Seq<DynElement>,
    pending: Seq<(DynElement, bool)>,
    now: u64,
) -> Seq<ScheduledAnimation>
    decreases pending.len(),
{
    if pending.len() == 0 {
        s
    } else {
        let before = apply_pending(s, elements, windows, pending.drop_last(), now);
        let (e, reset) = pending.last();
        if admissible(elements, windows, e) {
            requested(before, e, reset, now)
        } else {
            before
        }
    }
}

/// The animated elements of an application, each listed once.
#[derive(Clone, Debug)]
pub struct AnimationScheduler {
    scheduled: Vec<ScheduledAnimation>,
}

/// No element is listed twice.
pub open spec fn elements_distinct(s: Seq<ScheduledAnimation>) -> bool {
    forall|i: int, j: int| 0 <= i < s.len() && 0 <= j < s.len() && i != j ==> s[i].element != s[j].element
}

impl AnimationScheduler {
    pub closed spec fn entries(&self) -> Seq<ScheduledAnimation> {
        self.scheduled@
    }

    pub closed spec fn wf(&self) -> bool {
        elements_distinct(self.scheduled@)
    }

    pub fn new() -> (r: AnimationScheduler)
        ensures
            r.wf(),
            r.entries() == Seq::<ScheduledAnimation>::empty(),
    {
        AnimationScheduler { scheduled: Vec::new() }
    }

    /// The scheduled entries.
    pub fn scheduled(&self) -> (r: Vec<ScheduledAnimation>)
        ensures
            r@ == self.entries(),
    {
        let mut r: Vec<ScheduledAnimation> = Vec::new();
        let mut i: usize = 0;
        while i < self.scheduled.len()
            invariant
                i <= self.scheduled@.len(),
                r@ == self.scheduled@.take(i as int),
            decreases self.scheduled@.len() - i,
        {
            r.push(self.scheduled[i]);
            assert(r@ =~= self.scheduled@.take(i + 1));
            i = i + 1;
        }
        assert(r@ =~= self.scheduled@);
        r
    }

    /// Asks for a tick of `element` at the next frame: an element already
    /// listed keeps its place (its clock restarts at `now` if `reset_clock`),
    /// another is added at the end with its clock at `now`.
    pub fn request_update(&mut self, element: DynElement, reset_clock: bool, now: u64)
        requires
            old(self).wf(),
        ensures
            final(self).wf(),
            final(self).entries() == requested(old(self).entries(), element, reset_clock, now),
    {
        let mut i: usize = 0;
        while i < self.scheduled.len()
            invariant
                i <= self.scheduled@.len(),
                self.scheduled@ == old(self).scheduled@,
                elements_distinct(self.scheduled@),
                forall|j: int| 0 <= j < i ==> self.scheduled@[j].element != element,
            decreases self.scheduled@.len() - i,
        {
            if self.scheduled[i].element == element {
                let mut entry = self.scheduled[i];
                entry.deadline = AnimationSchedule::NextFrame;
                if reset_clock {
                    entry.last_tick = now;
                }
                self.scheduled.set(i, entry);
                proof {
                    let old_s = old(self).scheduled@;
                    assert(old_s[i as int].element == element);
                    let k = choose|k: int| 0 <= k < old_s.len() && old_s[k].element == element;
                    assert(k == i as int);
                    assert forall|a: int, b: int| 0 <= a < self.scheduled@.len() && 0 <= b < self.scheduled@.len() && a != b
                        implies self.scheduled@[a].element != self.scheduled@[b].element by {
                        assert(self.scheduled@[a].element == old_s[a].element);
                        assert(self.scheduled@[b].element == old_s[b].element);
                    }
                }
                return;
            }
            i = i + 1;
        }
        let ghost old_s = self.scheduled@;
        self.scheduled.push(ScheduledAnimation { element, deadline: AnimationSchedule::NextFrame, last_tick: now, dormant: false });
        proof {
            assert forall|a: int, b: int| 0 <= a < self.scheduled@.len() && 0 <= b < self.scheduled@.len() && a != b
                implies self.scheduled@[a].element != self.scheduled@[b].element by {
                if a < old_s.len() && b < old_s.len() {
                    assert(self.scheduled@[a] == old_s[a]);
                    assert(self.scheduled@[b] == old_s[b]);
                } else if a < old_s.len() {
                    assert(self.scheduled@[a] == old_s[a]);
                } else {
                    assert(self.scheduled@[b] == old_s[b]);
                }
            }
        }
    }

    /// Drops the entries of elements that no longer exist, keeping the order.
    pub fn retain_live(&mut self, elements: &RetainedElements)
        requires
            old(self).wf(),
        ensures
            final(self).wf(),
            final(self).entries() == old(self).entries().filter(|s: ScheduledAnimation| elements.live(s.element)),
    {
        let ghost before = self.scheduled@;
        let mut kept: Vec<ScheduledAnimation> = Vec::new();
        let mut i: usize = 0;
        while i < self.scheduled.len()
            invariant
                i <= before.len(),
                self.scheduled@ == before,
                kept@ == before.take(i as int).filter(|s: ScheduledAnimation| elements.live(s.element)),
            decreases before.len() - i,
        {
            proof {
                assert(before.take(i + 1).drop_last() =~= before.take(i as int));
                reveal(Seq::filter);
            }
            let e = self.scheduled[i];
            if elements.contains(e.element) {
                kept.push(e);
            }
            i = i + 1;
        }
        assert(before.take(before.len() as int) =~= before);
        proof {
            lemma_filter_keeps_distinct(before, |s: ScheduledAnimation| elements.live(s.element));
        }
        self.scheduled = kept;
    }
}

impl AnimationScheduler {
    /// Applies the animation updates asked for since the last call: entries
    /// of elements that no longer exist go, then each update is taken in
    /// order, unless its element is gone or belongs to a window the
    /// application does not hold. The pending list is emptied.
    pub fn apply_pending_animation_updates(
        &mut self,
        elements: &RetainedElements,
        windows: &Vec<DynElement>,
        pending: &mut Vec<(DynElement, bool)>,
        now: u64,
    )
        requires
            old(self).wf(),
        ensures
            final(self).wf(),
            final(self).entries() == apply_pending(
                old(self).entries().filter(|s: ScheduledAnimation| elements.live(s.element)),
                elements,
                windows@,
                old(pending)@,
                now,
            ),
            final(pending)@ == Seq::<(DynElement, bool)>::empty(),
    {
        self.retain_live(elements);
        let ghost start = self.entries();
        let mut i: usize = 0;
        while i < pending.len()
            invariant
                i <= pending@.len(),
                pending@ == old(pending)@,
                self.wf(),
                start == old(self).entries().filter(|s: ScheduledAnimation| elements.live(s.element)),
                self.entries() == apply_pending(start, elements, windows@, pending@.take(i as int), now),
            decreases pending@.len() - i,
        {
            let (element, reset_clock) = pending[i];
            proof {
                assert(pending@.take(i + 1).drop_last() =~= pending@.take(i as int));
                assert(pending@.take(i + 1).last() == pending@[i as int]);
            }
            if elements.contains(element) {
                let window = elements.get(element).window;
                let registered = match window {
                    Some(w) => contains_handle(windows, w),
                    None => true,
                };
                if registered {
                    self.request_update(element, reset_clock, now);
                }
            }
            i = i + 1;
        }
        assert(pending@.take(pending@.len() as int) =~= pending@);
        pending.clear();
    }

    /// Drops the entries of the elements of a closing window, and those of
    /// elements that no longer exist.
    pub fn close_window(&mut self, elements: &RetainedElements, window: DynElement)
        requires
            old(self).wf(),
        ensures
            final(self).wf(),
            final(self).entries() == old(self).entries().filter(
                |s: ScheduledAnimation| elements.live(s.element) && elements.node(s.element).window != Some(window),
            ),
    {
        let ghost before = self.scheduled@;
        let mut kept: Vec<ScheduledAnimation> = Vec::new();
        let mut i: usize = 0;
        while i < self.scheduled.len()
            invariant
                i <= before.len(),
                self.scheduled@ == before,
                kept@ == before.take(i as int).filter(
                    |s: ScheduledAnimation| elements.live(s.element) && elements.node(s.element).window != Some(window),
                ),
            decreases before.len() - i,
        {
            proof {
                assert(before.take(i + 1).drop_last() =~= before.take(i as int));
                reveal(Seq::filter);
            }
            let e = self.scheduled[i];
            if elements.contains(e.element) && elements.get(e.element).window != Some(window) {
                kept.push(e);
            }
            i = i + 1;
        }
        assert(before.take(before.len() as int) =~= before);
        proof {
            lemma_filter_keeps_distinct(
                before,
                |s: ScheduledAnimation| elements.live(s.element) && elements.node(s.element).window != Some(window),
            );
        }
        self.scheduled = kept;
    }
}

/// What a tick of the scheduler does with one entry of the window being
/// drawn, at `now`: an element that is not runnable (hidden) goes dormant
/// and is not ticked; a dormant one that is runnable again restarts its
/// clock at `now`. A due entry is ticked by the time since its last tick,
/// and its clock moves to `now`.
pub open spec fn tick_entry_spec(entry: ScheduledAnimation, runnable: bool, now: u64) -> (ScheduledAnimation, Option<u64>) {
    if !runnable {
        (ScheduledAnimation { dormant: true, ..entry }, None)
    } else {
        let woken = if entry.dormant {
            ScheduledAnimation { last_tick: now, dormant: false, ..entry }
        } else {
            entry
        };
        if due_spec(woken.deadline, now) == AnimationSchedule::NextFrame {
            (
                ScheduledAnimation { last_tick: now, ..woken },
                Some(if now >= woken.last_tick { (now - woken.last_tick) as u64 } else { 0 }),
            )
        } else {
            (woken, None)
        }
    }
}

/// Decides the tick of one scheduled entry; see [`tick_entry_spec`]. The
/// second part is the time to advance the element's animations by, if it
/// is due.
pub fn tick_entry(entry: ScheduledAnimation, runnable: bool, now: u64) -> (r: (ScheduledAnimation, Option<u64>))
    ensures
        r == tick_entry_spec(entry, runnable, now),
{
    let mut e = entry;
    if !runnable {
        e.dormant = true;
        return (e, None);
    }
    if e.dormant {
        e.last_tick = now;
        e.dormant = false;
    }
    if e.deadline.is_due(now) {
        let delta = now.saturating_sub(e.last_tick);
        e.last_tick = now;
        (e, Some(delta))
    } else {
        (e, None)
    }
}

/// After an element ticked: it stays scheduled for the deadline it asked
/// for, or leaves the schedule when it wants no more frames.
pub fn after_tick(entry: ScheduledAnimation, next: AnimationSchedule) -> (r: Option<ScheduledAnimation>)
    ensures
        r == (if next == AnimationSchedule::Never {
            None
        } else {
            Some(ScheduledAnimation { deadline: next, ..entry })
        }),
{
    if next == AnimationSchedule::Never {
        None
    } else {
        Some(ScheduledAnimation { deadline: next, ..entry })
    }
}

/// Filtering a list whose elements are distinct keeps them distinct.
proof fn lemma_filter_keeps_distinct(s: Seq<ScheduledAnimation>, p: spec_fn(ScheduledAnimation) -> bool)
    requires
        elements_distinct(s),
    ensures
        elements_distinct(s.filter(p)),
    decreases s.len(),
{
    reveal(Seq::filter);
    if s.len() > 0 {
        let t = s.drop_last();
        assert(elements_distinct(t));
        lemma_filter_keeps_distinct(t, p);
        let f = t.filter(p);
        if p(s.last()) {
            assert forall|j: int| 0 <= j < f.len() implies f[j].element != s.last().element by {
                assert(f.contains(f[j]));
                t.lemma_filter_contains_rev(p, f[j]);
                let k = choose|k: int| 0 <= k < t.len() && t[k] == f[j];
                assert(s[k] == t[k]);
            }
            let g = f.push(s.last());
            assert forall|a: int, b: int| 0 <= a < g.len() && 0 <= b < g.len() && a != b implies g[a].element
                != g[b].element by {
                if a < f.len() && b < f.len() {
                } else if a < f.len() {
                    assert(g[b] == s.last());
                } else {
                    assert(g[a] == s.last());
                }
            }
        }
    }
}

} // verus!
