//! Pointer capture: which element receives a pointer's events regardless of
//! where the pointer is, following the pointer events model of a current
//! capture and a pending one that takes effect when it is processed.

use vstd::prelude::*;

use crate::events::{Event, EventKind, PointerCaptureEvent, PointerId};
use crate::store::DynElement;

verus! {

/// The value a map holds for a key, if any.
pub open spec fn lookup(m: Map<PointerId, DynElement>, k: PointerId) -> Option<DynElement> {
    if m.dom().contains(k) {
        Some(m[k])
    } else {
        None
    }
}

/// The map that a list of entries with distinct keys stands for.
pub open spec fn entry_map(s: Seq<(PointerId, DynElement)>) -> Map<PointerId, DynElement> {
    Map::new(
        |k: PointerId| exists|i: int| 0 <= i < s.len() && s[i].0 == k,
        |k: PointerId| s[choose|i: int| 0 <= i < s.len() && s[i].0 == k].1,
    )
}

/// No key occurs twice in the entries.
pub open spec fn keys_distinct(s: Seq<(PointerId, DynElement)>) -> bool {
    forall|i: int, j: int| 0 <= i < s.len() && 0 <= j < s.len() && i != j ==> s[i].0 != s[j].0
}

/// A small map from pointers to elements, kept as a list of distinct keys.
#[derive(Clone, Debug)]
pub struct CaptureTable {
    entries: Vec<(PointerId, DynElement)>,
}

impl CaptureTable {
    pub closed spec fn wf(&self) -> bool {
        keys_distinct(self.entries@)
    }

    pub closed spec fn view(&self) -> Map<PointerId, DynElement> {
        entry_map(self.entries@)
    }

    proof fn lemma_at(&self, i: int)
        requires
            self.wf(),
            0 <= i < self.entries@.len(),
        ensures
            self.view().dom().contains(self.entries@[i].0),
            self.view()[self.entries@[i].0] == self.entries@[i].1,
    {
        let k = self.entries@[i].0;
        assert(exists|j: int| 0 <= j < self.entries@.len() && self.entries@[j].0 == k);
    }

    pub fn new() -> (r: CaptureTable)
        ensures
            r.wf(),
            r.view() == Map::<PointerId, DynElement>::empty(),
    {
        let r = CaptureTable { entries: Vec::new() };
        assert(r.view() =~= Map::<PointerId, DynElement>::empty());
        r
    }

    fn position(&self, k: PointerId) -> (r: Option<usize>)
        requires
            self.wf(),
        ensures
            r is None <==> !self.view().dom().contains(k),
            r matches Some(i) ==> i < self.entries@.len() && self.entries@[i as int].0 == k,
    {
        let mut i: usize = 0;
        while i < self.entries.len()
            invariant
                i <= self.entries@.len(),
                forall|j: int| 0 <= j < i ==> self.entries@[j].0 != k,
            decreases self.entries@.len() - i,
        {
            if self.entries[i].0 == k {
                return Some(i);
            }
            i = i + 1;
        }
        None
    }

    /// The element stored for `k`, if any.
    pub fn get(&self, k: PointerId) -> (r: Option<DynElement>)
        requires
            self.wf(),
        ensures
            r == lookup(self.view(), k),
    {
        match self.position(k) {
            Some(i) => {
                proof {
                    self.lemma_at(i as int);
                }
                Some(self.entries[i].1)
            },
            None => None,
        }
    }

    /// Stores `v` for `k`, replacing what was there.
    pub fn insert(&mut self, k: PointerId, v: DynElement)
        requires
            old(self).wf(),
        ensures
            final(self).wf(),
            final(self).view() == old(self).view().insert(k, v),
    {
        let ghost before = self.entries@;
        match self.position(k) {
            Some(i) => {
                self.entries.set(i, (k, v));
                proof {
                    let s = self.entries@;
                    assert forall|q: PointerId| #[trigger] self.view().dom().contains(q) <==> old(self).view().dom().contains(q) || q == k by {
                        if q == k {
                            assert(s[i as int].0 == k);
                        } else if old(self).view().dom().contains(q) {
                            let j = choose|j: int| 0 <= j < before.len() && before[j].0 == q;
                            assert(s[j].0 == q);
                        } else if self.view().dom().contains(q) {
                            let j = choose|j: int| 0 <= j < s.len() && s[j].0 == q;
                            assert(before[j].0 == q);
                        }
                    }
                    assert forall|q: PointerId| self.view().dom().contains(q) implies #[trigger] self.view()[q] == old(self).view().insert(k, v)[q] by {
                        let j = choose|j: int| 0 <= j < s.len() && s[j].0 == q;
                        if q == k {
                            assert(j == i as int);
                        } else {
                            self.lemma_at(j);
                            assert(before[j].0 == q);
                            old(self).lemma_at(j);
                        }
                    }
                    assert(self.view() =~= old(self).view().insert(k, v));
                }
            },
            None => {
                self.entries.push((k, v));
                proof {
                    let s = self.entries@;
                    let n = before.len() as int;
                    assert(s[n].0 == k);
                    assert forall|q: PointerId| #[trigger] self.view().dom().contains(q) <==> old(self).view().dom().contains(q) || q == k by {
                        if q != k && old(self).view().dom().contains(q) {
                            let j = choose|j: int| 0 <= j < before.len() && before[j].0 == q;
                            assert(s[j].0 == q);
                        } else if q != k && self.view().dom().contains(q) {
                            let j = choose|j: int| 0 <= j < s.len() && s[j].0 == q;
                            assert(j < n);
                            assert(before[j].0 == q);
                        }
                    }
                    assert forall|q: PointerId| self.view().dom().contains(q) implies #[trigger] self.view()[q] == old(self).view().insert(k, v)[q] by {
                        let j = choose|j: int| 0 <= j < s.len() && s[j].0 == q;
                        if q == k {
                            assert(j == n);
                        } else {
                            assert(j < n);
                            assert(before[j].0 == q);
                            old(self).lemma_at(j);
                        }
                    }
                    assert(self.view() =~= old(self).view().insert(k, v));
                }
            },
        }
    }

    /// Removes the entry for `k`, returning what it held.
    pub fn remove(&mut self, k: PointerId) -> (r: Option<DynElement>)
        requires
            old(self).wf(),
        ensures
            final(self).wf(),
            r == lookup(old(self).view(), k),
            final(self).view() == old(self).view().remove(k),
    {
        let ghost before = self.entries@;
        match self.position(k) {
            Some(i) => {
                proof {
                    self.lemma_at(i as int);
                }
                let e = self.entries.remove(i);
                proof {
                    let s = self.entries@;
                    assert(s =~= before.remove(i as int));
                    assert forall|q: PointerId| #[trigger] self.view().dom().contains(q) <==> old(self).view().dom().contains(q) && q != k by {
                        if q != k && old(self).view().dom().contains(q) {
                            let j = choose|j: int| 0 <= j < before.len() && before[j].0 == q;
                            if j < i {
                                assert(s[j].0 == q);
                            } else {
                                assert(j != i);
                                assert(s[j - 1].0 == q);
                            }
                        } else if self.view().dom().contains(q) {
                            let j = choose|j: int| 0 <= j < s.len() && s[j].0 == q;
                            if j < i {
                                assert(before[j].0 == q);
                            } else {
                                assert(before[j + 1].0 == q);
                            }
                        }
                    }
                    assert forall|q: PointerId| self.view().dom().contains(q) implies #[trigger] self.view()[q] == old(self).view().remove(k)[q] by {
                        let j = choose|j: int| 0 <= j < s.len() && s[j].0 == q;
                        if j < i {
                            assert(before[j].0 == q);
                            old(self).lemma_at(j);
                        } else {
                            assert(before[j + 1].0 == q);
                            old(self).lemma_at(j + 1);
                        }
                    }
                    assert(self.view() =~= old(self).view().remove(k));
                }
                Some(e.1)
            },
            None => {
                assert(self.view() =~= old(self).view().remove(k));
                None
            },
        }
    }

    /// Drops every entry that holds `element`.
    pub fn remove_value(&mut self, element: DynElement)
        requires
            old(self).wf(),
        ensures
            final(self).wf(),
            forall|k: PointerId| #[trigger] final(self).view().dom().contains(k)
                <==> old(self).view().dom().contains(k) && old(self).view()[k] != element,
            forall|k: PointerId| #[trigger] final(self).view().dom().contains(k)
                ==> final(self).view()[k] == old(self).view()[k],
    {
        let ghost before = self.entries@;
        let mut kept: Vec<(PointerId, DynElement)> = Vec::new();
        let mut i: usize = 0;
        while i < self.entries.len()
            invariant
                i <= before.len(),
                self.entries@ == before,
                keys_distinct(before),
                keys_distinct(kept@),
                forall|j: int| 0 <= j < kept@.len() ==> #[trigger] kept@[j].1 != element,
                forall|j: int| 0 <= j < kept@.len() ==> exists|m: int| 0 <= m < i && before[m] == #[trigger] kept@[j],
                forall|m: int| 0 <= m < i && before[m].1 != element ==> exists|j: int| 0 <= j < kept@.len() && #[trigger] kept@[j] == before[m],
            decreases before.len() - i,
        {
            let e = self.entries[i];
            if e.1 != element {
                proof {
                    assert forall|j: int| 0 <= j < kept@.len() implies kept@[j].0 != e.0 by {
                        let m = choose|m: int| 0 <= m < i && before[m] == kept@[j];
                        assert(m != i as int);
                    }
                }
                let ghost prev = kept@;
                kept.push(e);
                proof {
                    assert forall|j: int| 0 <= j < kept@.len() implies exists|m: int| 0 <= m < i + 1 && before[m] == #[trigger] kept@[j] by {
                        if j == kept@.len() - 1 {
                            assert(before[i as int] == kept@[j]);
                        } else {
                            let m = choose|m: int| 0 <= m < i && before[m] == kept@[j];
                            assert(before[m] == kept@[j]);
                        }
                    }
                    assert forall|m: int| 0 <= m < i + 1 && before[m].1 != element implies exists|j: int| 0 <= j < kept@.len() && #[trigger] kept@[j] == before[m] by {
                        if m == i as int {
                            assert(kept@[kept@.len() - 1] == before[m]);
                        } else {
                            let j = choose|j: int| 0 <= j < prev.len() && prev[j] == before[m];
                            assert(kept@[j] == before[m]);
                        }
                    }
                }
            }
            i = i + 1;
        }
        self.entries = kept;
        proof {
            let s = self.entries@;
            assert forall|k: PointerId| #[trigger] self.view().dom().contains(k)
                <==> old(self).view().dom().contains(k) && old(self).view()[k] != element by {
                if self.view().dom().contains(k) {
                    let j = choose|j: int| 0 <= j < s.len() && s[j].0 == k;
                    let m = choose|m: int| 0 <= m < before.len() && before[m] == s[j];
                    old(self).lemma_at(m);
                }
                if old(self).view().dom().contains(k) && old(self).view()[k] != element {
                    let m = choose|m: int| 0 <= m < before.len() && before[m].0 == k;
                    old(self).lemma_at(m);
                    let j = choose|j: int| 0 <= j < s.len() && s[j] == before[m];
                    assert(s[j].0 == k);
                }
            }
            assert forall|k: PointerId| #[trigger] self.view().dom().contains(k)
                implies self.view()[k] == old(self).view()[k] by {
                let j = choose|j: int| 0 <= j < s.len() && s[j].0 == k;
                let m = choose|m: int| 0 <= m < before.len() && before[m] == s[j];
                self.lemma_at(j);
                old(self).lemma_at(m);
            }
        }
    }
}

/// What processing the pending capture of one pointer decides: the element
/// that loses the capture, the one that gets it, and the capture afterwards.
#[derive(Clone, Copy, Debug, PartialEq, Eq, Structural)]
pub struct CaptureChange {
    pub lost: Option<DynElement>,
    pub got: Option<DynElement>,
    pub next: Option<DynElement>,
}

impl CaptureChange {
    /// Whether a lost or got capture event is due.
    pub fn changed(&self) -> (r: bool)
        ensures
            r == (self.lost is Some || self.got is Some),
    {
        self.lost.is_some() || self.got.is_some()
    }
}

/// Whether `e` is a fresh capture event of `kind` (true: lost, false: got)
/// for `target` and the pointer `id`.
pub open spec fn is_capture_event(e: EventKind, lost: bool, target: DynElement, id: PointerId) -> bool {
    match e {
        EventKind::LostPointerCapture(c) => lost && c.base_view().fresh(target) && c.pointer_id == id,
        EventKind::GotPointerCapture(c) => !lost && c.base_view().fresh(target) && c.pointer_id == id,
        _ => false,
    }
}

/// The events a capture change of the pointer `id` brings, to dispatch in
/// this order: the element that lost the capture is told first, then the
/// one that got it. After them the pointer's target is found anew when
/// anything changed (`changed`).
pub fn capture_change_events(change: &CaptureChange, id: PointerId) -> (r: Vec<EventKind>)
    ensures
        r@.len() == (if change.lost is Some { 1int } else { 0 }) + (if change.got is Some { 1int } else { 0 }),
        change.lost matches Some(l) ==> is_capture_event(r@[0], true, l, id),
        change.got matches Some(g) ==> is_capture_event(r@[r@.len() - 1], false, g, id),
{
    let mut r: Vec<EventKind> = Vec::new();
    if let Some(lost) = change.lost {
        r.push(EventKind::LostPointerCapture(PointerCaptureEvent::new(lost, id)));
    }
    if let Some(got) = change.got {
        r.push(EventKind::GotPointerCapture(PointerCaptureEvent::new(got, id)));
    }
    r
}

/// The decision of processing a pending capture: a capture that is set and
/// differs from the pending one is lost; a pending one that is set and differs
/// from the current one is got; the pending one becomes current.
pub open spec fn capture_change(current: Option<DynElement>, pending: Option<DynElement>) -> CaptureChange {
    CaptureChange {
        lost: if current is Some && current != pending { current } else { None },
        got: if pending is Some && pending != current { pending } else { None },
        next: pending,
    }
}

/// A capture map after the capture of `id` is set to `next`, or cleared.
pub open spec fn committed(
    m: Map<PointerId, DynElement>,
    id: PointerId,
    next: Option<DynElement>,
) -> Map<PointerId, DynElement> {
    match next {
        Some(e) => m.insert(id, e),
        None => m.remove(id),
    }
}

/// The captures of one window: the current and the pending element per pointer.
#[derive(Clone, Debug)]
pub struct PointerCapture {
    pointer_captures: CaptureTable,
    pending_pointer_captures: CaptureTable,
}

impl PointerCapture {
    pub closed spec fn wf(&self) -> bool {
        self.pointer_captures.wf() && self.pending_pointer_captures.wf()
    }

    /// The element that currently captures each pointer.
    pub closed spec fn current(&self) -> Map<PointerId, DynElement> {
        self.pointer_captures.view()
    }

    /// The element that should capture each pointer once pending captures
    /// are processed.
    pub closed spec fn pending(&self) -> Map<PointerId, DynElement> {
        self.pending_pointer_captures.view()
    }

    pub fn new() -> (r: PointerCapture)
        ensures
            r.wf(),
            r.current() == Map::<PointerId, DynElement>::empty(),
            r.pending() == Map::<PointerId, DynElement>::empty(),
    {
        PointerCapture { pointer_captures: CaptureTable::new(), pending_pointer_captures: CaptureTable::new() }
    }

    /// Removes an element from pointer capture, current and pending.
    pub fn remove_element(&mut self, element: DynElement)
        requires
            old(self).wf(),
        ensures
            final(self).wf(),
            forall|k: PointerId| #[trigger] final(self).current().dom().contains(k)
                <==> old(self).current().dom().contains(k) && old(self).current()[k] != element,
            forall|k: PointerId| #[trigger] final(self).current().dom().contains(k)
                ==> final(self).current()[k] == old(self).current()[k],
            forall|k: PointerId| #[trigger] final(self).pending().dom().contains(k)
                <==> old(self).pending().dom().contains(k) && old(self).pending()[k] != element,
            forall|k: PointerId| #[trigger] final(self).pending().dom().contains(k)
                ==> final(self).pending()[k] == old(self).pending()[k],
    {
        self.pointer_captures.remove_value(element);
        self.pending_pointer_captures.remove_value(element);
    }

    /// Removes every listed element from pointer capture, as when a subtree
    /// is deleted: afterwards no capture, current or pending, holds one of
    /// them, and the captures of other elements stay.
    pub fn remove_elements(&mut self, removed: &Vec<DynElement>)
        requires
            old(self).wf(),
        ensures
            final(self).wf(),
            forall|k: PointerId| #[trigger] final(self).current().dom().contains(k)
                <==> old(self).current().dom().contains(k) && !removed@.contains(old(self).current()[k]),
            forall|k: PointerId| #[trigger] final(self).current().dom().contains(k)
                ==> final(self).current()[k] == old(self).current()[k],
            forall|k: PointerId| #[trigger] final(self).pending().dom().contains(k)
                <==> old(self).pending().dom().contains(k) && !removed@.contains(old(self).pending()[k]),
            forall|k: PointerId| #[trigger] final(self).pending().dom().contains(k)
                ==> final(self).pending()[k] == old(self).pending()[k],
    {
        let mut i: usize = 0;
        while i < removed.len()
            invariant
                i <= removed@.len(),
                self.wf(),
                forall|k: PointerId| #[trigger] self.current().dom().contains(k)
                    <==> old(self).current().dom().contains(k) && !removed@.take(i as int).contains(old(self).current()[k]),
                forall|k: PointerId| #[trigger] self.current().dom().contains(k)
                    ==> self.current()[k] == old(self).current()[k],
                forall|k: PointerId| #[trigger] self.pending().dom().contains(k)
                    <==> old(self).pending().dom().contains(k) && !removed@.take(i as int).contains(old(self).pending()[k]),
                forall|k: PointerId| #[trigger] self.pending().dom().contains(k)
                    ==> self.pending()[k] == old(self).pending()[k],
            decreases removed@.len() - i,
        {
            let ghost before_current = self.current();
            let ghost before_pending = self.pending();
            self.remove_element(removed[i]);
            proof {
                let t = removed@.take(i + 1);
                let p = removed@.take(i as int);
                let x = removed@[i as int];
                assert(t =~= p.push(x));
                assert(t[i as int] == x);
                assert forall|v: DynElement| t.contains(v) <==> (p.contains(v) || v == x) by {
                    if t.contains(v) {
                        let j = choose|j: int| 0 <= j < t.len() && t[j] == v;
                        if j < i {
                            assert(p[j] == v);
                        }
                    }
                    if p.contains(v) {
                        let j = choose|j: int| 0 <= j < p.len() && p[j] == v;
                        assert(t[j] == v);
                    }
                }
                assert forall|k: PointerId| #[trigger] self.current().dom().contains(k)
                    <==> old(self).current().dom().contains(k) && !t.contains(old(self).current()[k]) by {
                    if self.current().dom().contains(k) {
                        assert(before_current.dom().contains(k));
                    }
                    if old(self).current().dom().contains(k) && !t.contains(old(self).current()[k]) {
                        assert(before_current.dom().contains(k));
                    }
                }
                assert forall|k: PointerId| #[trigger] self.pending().dom().contains(k)
                    <==> old(self).pending().dom().contains(k) && !t.contains(old(self).pending()[k]) by {
                    if self.pending().dom().contains(k) {
                        assert(before_pending.dom().contains(k));
                    }
                    if old(self).pending().dom().contains(k) && !t.contains(old(self).pending()[k]) {
                        assert(before_pending.dom().contains(k));
                    }
                }
            }
            i = i + 1;
        }
        assert(removed@.take(removed@.len() as int) =~= removed@);
    }

    /// The element that captures the pointer of `message`: the pending one
    /// for a got-capture event, which fires before the capture takes effect,
    /// and the current one otherwise.
    pub fn find_pointer_capture_target(&self, message: &EventKind, pointer_id: &PointerId) -> (r: Option<DynElement>)
        requires
            self.wf(),
        ensures
            r == (if *message is GotPointerCapture {
                lookup(self.pending(), *pointer_id)
            } else {
                lookup(self.current(), *pointer_id)
            }),
    {
        match message {
            EventKind::GotPointerCapture(_) => self.pending_pointer_captures.get(*pointer_id),
            _ => self.pointer_captures.get(*pointer_id),
        }
    }

    /// Asks that `element` capture the pointer once pending captures are processed.
    pub fn set_pointer_capture(&mut self, pointer_id: PointerId, element: DynElement)
        requires
            old(self).wf(),
        ensures
            final(self).wf(),
            final(self).current() == old(self).current(),
            final(self).pending() == old(self).pending().insert(pointer_id, element),
    {
        self.pending_pointer_captures.insert(pointer_id, element);
    }

    /// Whether `element` holds the pending capture of the pointer.
    pub fn has_pointer_capture(&self, pointer_id: PointerId, element: DynElement) -> (r: bool)
        requires
            self.wf(),
        ensures
            r == (lookup(self.pending(), pointer_id) == Some(element)),
    {
        match self.pending_pointer_captures.get(pointer_id) {
            Some(e) => e == element,
            None => false,
        }
    }

    /// Releases the pending capture of the pointer if `element` holds it.
    pub fn release_pointer_capture(&mut self, pointer_id: PointerId, element: DynElement)
        requires
            old(self).wf(),
        ensures
            final(self).wf(),
            final(self).current() == old(self).current(),
            final(self).pending() == (if lookup(old(self).pending(), pointer_id) == Some(element) {
                old(self).pending().remove(pointer_id)
            } else {
                old(self).pending()
            }),
    {
        if self.has_pointer_capture(pointer_id, element) {
            let _ = self.pending_pointer_captures.remove(pointer_id);
        }
    }

    /// Decides what processing the pending capture of the pointer does: which
    /// element gets a lost-capture event, which a got-capture event, and what
    /// the capture becomes. The caller fires the events, then commits.
    pub fn process_pending_pointer_capture(&self, pointer_id: &PointerId) -> (r: CaptureChange)
        requires
            self.wf(),
        ensures
            r == capture_change(lookup(self.current(), *pointer_id), lookup(self.pending(), *pointer_id)),
    {
        let current = self.pointer_captures.get(*pointer_id);
        let pending = self.pending_pointer_captures.get(*pointer_id);
        let lost = match current {
            Some(c) => if current != pending { Some(c) } else { None },
            None => None,
        };
        let got = match pending {
            Some(p) => if pending != current { Some(p) } else { None },
            None => None,
        };
        CaptureChange { lost, got, next: pending }
    }

    /// Sets the current capture of the pointer to what a processed change decided.
    pub fn commit_pointer_capture(&mut self, pointer_id: &PointerId, change: &CaptureChange)
        requires
            old(self).wf(),
        ensures
            final(self).wf(),
            final(self).current() == committed(old(self).current(), *pointer_id, change.next),
            final(self).pending() == old(self).pending(),
    {
        match change.next {
            Some(e) => self.pointer_captures.insert(*pointer_id, e),
            None => {
                let _ = self.pointer_captures.remove(*pointer_id);
            },
        }
    }

    /// After a pointer event is dispatched: a pointer-up releases the pending
    /// capture of its pointer; every pointer event then has the pending
    /// capture processed. Other events leave everything as it is.
    pub fn maybe_handle_implicit_pointer_capture_release(
        &mut self,
        message: &EventKind,
        pointer_id: &PointerId,
    ) -> (r: Option<CaptureChange>)
        requires
            old(self).wf(),
        ensures
            final(self).wf(),
            final(self).current() == old(self).current(),
            *message is PointerUp ==> final(self).pending() == old(self).pending().remove(*pointer_id),
            !(*message is PointerUp) ==> final(self).pending() == old(self).pending(),
            r == (if message.spec_is_system_pointer_event() {
                Some(capture_change(lookup(old(self).current(), *pointer_id), lookup(final(self).pending(), *pointer_id)))
            } else {
                None
            }),
    {
        if let EventKind::PointerUp(_) = message {
            let _ = self.pending_pointer_captures.remove(*pointer_id);
            Some(self.process_pending_pointer_capture(pointer_id))
        } else if message.is_system_pointer_event() {
            Some(self.process_pending_pointer_capture(pointer_id))
        } else {
            None
        }
    }
}

impl Default for PointerCapture {
    fn default() -> (r: PointerCapture)
        ensures
            r.wf(),
            r.current() == Map::<PointerId, DynElement>::empty(),
            r.pending() == Map::<PointerId, DynElement>::empty(),
    {
        PointerCapture::new()
    }
}

/// Processing a pending capture and committing it leaves nothing to do:
/// processing the same pointer again fires no lost or got capture event.
pub proof fn lemma_processed_capture_is_settled(pc: PointerCapture, id: PointerId)
    requires
        pc.wf(),
    ensures
        ({
            let change = capture_change(lookup(pc.current(), id), lookup(pc.pending(), id));
            let after = committed(pc.current(), id, change.next);
            let again = capture_change(lookup(after, id), lookup(pc.pending(), id));
            again.lost is None && again.got is None && lookup(after, id) == lookup(pc.pending(), id)
        }),
{
}

/// A pointer-up ends the capture of its pointer: once its pending capture is
/// released and the change committed, no element captures that pointer.
pub proof fn lemma_pointer_up_releases_capture(current: Map<PointerId, DynElement>, id: PointerId)
    ensures
        ({
            let change = capture_change(lookup(current, id), None);
            !committed(current, id, change.next).dom().contains(id)
            && change.got is None
            && (change.lost is Some <==> current.dom().contains(id))
        }),
{
}

} // verus!
