//! The state of a calendar: the month in focus and the range of years its
//! year dropdown offers, newest first.

use vstd::prelude::*;

use rustc_hash::FxHashMap;

use crate::dropdown::{select_spec, DropdownAction, DropdownState};
use crate::element_id::{create_unique_element_id, IdCounter};
use crate::events::{Event, EventKind};
use crate::store::{
    add_new_children, all_new, same_node, fresh_children, keeps_all, keeps_all_but, lemma_keeps_all_step, lemma_settled_kept, settled,
    DynElement, RetainedElements,
};

verus! {

/// The earliest year a calendar supports.
pub const MIN_YEAR: i32 = 1900;
/// The latest year a calendar supports.
pub const MAX_YEAR: i32 = 3000;
/// The weeks a calendar shows.
pub const ROWS: usize = 6;
/// The days of a week.
pub const COLUMNS: usize = 7;

/// An index as `as i32` reads it: its low 32 bits, in two's complement.
pub open spec fn index_as_i32(index: usize) -> int {
    let low = index as int % 0x1_0000_0000;
    if low >= 0x8000_0000 {
        low - 0x1_0000_0000
    } else {
        low
    }
}

/// The month a calendar shows and the years it offers.
#[derive(Clone, Copy, Debug)]
pub struct CalendarState {
    focus_year: i32,
    focus_month: u8,
    start_year: i32,
    end_year: i32,
}

/// The elements of a calendar: the calendar itself with its navigation,
/// day header and week grid; the year and month dropdowns in the
/// navigation with their items; the seven header cells with their labels;
/// and the six weeks of seven day cells, each with the text of its day.
pub struct CalendarTree {
    pub root: DynElement,
    pub nav: DynElement,
    pub day_header: DynElement,
    pub week_grid: DynElement,
    pub year_dropdown: DynElement,
    pub month_dropdown: DynElement,
    pub years: Vec<DynElement>,
    pub months: Vec<DynElement>,
    pub header_cells: Vec<DynElement>,
    pub header_labels: Vec<DynElement>,
    pub weeks: Vec<DynElement>,
    pub day_cells: Vec<DynElement>,
    pub days: Vec<DynElement>,
    /// The year dropdown, closed, with the focused year selected when it
    /// is offered.
    pub year_state: DropdownState,
    /// The month dropdown, closed, with the focused month selected.
    pub month_state: DropdownState,
}

/// The outer part of a calendar tree is in place in `e`.
pub open spec fn frame_settled(
    e: RetainedElements,
    root: DynElement,
    nav: DynElement,
    day_header: DynElement,
    week_grid: DynElement,
    year_dropdown: DynElement,
    month_dropdown: DynElement,
    years: Seq<DynElement>,
    months: Seq<DynElement>,
    header_cells: Seq<DynElement>,
    weeks: Seq<DynElement>,
) -> bool {
    &&& settled(e, root, seq![nav, day_header, week_grid])
    &&& settled(e, nav, seq![year_dropdown, month_dropdown])
    &&& settled(e, year_dropdown, years)
    &&& settled(e, month_dropdown, months)
    &&& settled(e, day_header, header_cells)
    &&& settled(e, week_grid, weeks)
}

/// `p` is none of the elements of the outer part.
pub open spec fn outside_frame(
    p: DynElement,
    root: DynElement,
    nav: DynElement,
    day_header: DynElement,
    week_grid: DynElement,
    year_dropdown: DynElement,
    month_dropdown: DynElement,
) -> bool {
    &&& p.slot() != root.slot()
    &&& p.slot() != nav.slot()
    &&& p.slot() != day_header.slot()
    &&& p.slot() != week_grid.slot()
    &&& p.slot() != year_dropdown.slot()
    &&& p.slot() != month_dropdown.slot()
}

proof fn lemma_frame_kept(
    b: RetainedElements,
    c: RetainedElements,
    p: DynElement,
    root: DynElement,
    nav: DynElement,
    day_header: DynElement,
    week_grid: DynElement,
    year_dropdown: DynElement,
    month_dropdown: DynElement,
    years: Seq<DynElement>,
    months: Seq<DynElement>,
    header_cells: Seq<DynElement>,
    weeks: Seq<DynElement>,
)
    requires
        keeps_all_but(b, c, p),
        frame_settled(b, root, nav, day_header, week_grid, year_dropdown, month_dropdown, years, months, header_cells, weeks),
        outside_frame(p, root, nav, day_header, week_grid, year_dropdown, month_dropdown),
    ensures
        frame_settled(c, root, nav, day_header, week_grid, year_dropdown, month_dropdown, years, months, header_cells, weeks),
{
    lemma_settled_kept(b, c, p, root, seq![nav, day_header, week_grid]);
    lemma_settled_kept(b, c, p, nav, seq![year_dropdown, month_dropdown]);
    lemma_settled_kept(b, c, p, year_dropdown, years);
    lemma_settled_kept(b, c, p, month_dropdown, months);
    lemma_settled_kept(b, c, p, day_header, header_cells);
    lemma_settled_kept(b, c, p, week_grid, weeks);
}

/// Adds `n` new cells at the end of the children of `parent`, each holding
/// one new element, its label. Returns the cells and their labels.
fn add_labelled_children(
    elements: &mut RetainedElements,
    by_internal_id: &mut FxHashMap<u64, DynElement>,
    ids: &mut IdCounter,
    parent: DynElement,
    n: usize,
) -> (r: (Vec<DynElement>, Vec<DynElement>))
    requires
        old(elements).wf(),
        old(elements).live(parent),
        old(elements).nodes().len() + 2 * n < 0xffff_fffeu64,
    ensures
        keeps_all_but(*old(elements), *final(elements), parent),
        final(elements).nodes().len() == old(elements).nodes().len() + 2 * n,
        r.0@.len() == n,
        r.1@.len() == n,
        final(elements).child_list(parent) == old(elements).child_list(parent) + r.0@,
        forall|i: int|
            0 <= i < n ==> {
                &&& !old(elements).nodes().dom().contains(#[trigger] r.0@[i].slot())
                &&& !old(elements).nodes().dom().contains(r.1@[i].slot())
                &&& settled(*final(elements), r.0@[i], seq![r.1@[i]])
                &&& settled(*final(elements), r.1@[i], Seq::<DynElement>::empty())
                &&& r.0@[i].slot() != r.1@[i].slot()
                &&& final(elements).parent_of(r.0@[i]) == Some(parent)
                &&& final(elements).node(r.0@[i]).window == final(elements).node(parent).window
            },
        forall|i: int, j: int|
            0 <= i < n && 0 <= j < n && i != j ==> {
                &&& r.0@[i].slot() != r.0@[j].slot()
                &&& r.1@[i].slot() != r.1@[j].slot()
                &&& r.0@[i].slot() != r.1@[j].slot()
            },
{
    let ghost before = *elements;
    let cells = add_new_children(elements, by_internal_id, ids, parent, n);
    let ghost mid = *elements;
    let mut labels: Vec<DynElement> = Vec::new();
    let mut d: usize = 0;
    assert forall|i: int| 0 <= i < n implies settled(mid, #[trigger] cells@[i], Seq::<DynElement>::empty()) && mid.parent_of(
        cells@[i],
    ) == Some(parent) && mid.node(cells@[i]).window == mid.node(parent).window by {
        assert(!before.nodes().dom().contains(cells@[i].slot()));
    }
    while d < n
        invariant
            d <= n,
            cells@.len() == n,
            labels@.len() == d,
            before.wf(),
            keeps_all_but(before, mid, parent),
            keeps_all_but(before, *elements, parent),
            mid.nodes().dom().subset_of(elements.nodes().dom()),
            mid.nodes().len() == before.nodes().len() + n,
            elements.nodes().len() == mid.nodes().len() + d,
            before.nodes().len() + 2 * n < 0xffff_fffeu64,
            mid.child_list(parent) == before.child_list(parent) + cells@,
            elements.child_list(parent) == mid.child_list(parent),
            mid.live(parent),
            fresh_children(before, mid, parent, cells@),
            forall|i: int| 0 <= i < n ==> mid.nodes().dom().contains(#[trigger] cells@[i].slot()),
            forall|i: int| 0 <= i < d ==> settled(*elements, #[trigger] cells@[i], seq![labels@[i]]),
            forall|i: int| d <= i < n ==> settled(*elements, #[trigger] cells@[i], Seq::<DynElement>::empty()),
            forall|i: int|
                0 <= i < d ==> {
                    &&& !mid.nodes().dom().contains(#[trigger] labels@[i].slot())
                    &&& settled(*elements, labels@[i], Seq::<DynElement>::empty())
                },
            forall|i: int, j: int| 0 <= i < j < d ==> labels@[i].slot() != labels@[j].slot(),
            forall|i: int|
                0 <= i < n ==> elements.parent_of(#[trigger] cells@[i]) == Some(parent) && elements.node(cells@[i]).window
                    == elements.node(parent).window,
        decreases n - d,
    {
        let ghost pre = *elements;
        let cell = cells[d];
        assert(settled(pre, cells@[d as int], Seq::<DynElement>::empty()));
        let l = add_new_children(elements, by_internal_id, ids, cell, 1);
        let label = l[0];
        proof {
            assert(l@ == seq![label]);
            assert(!pre.nodes().dom().contains(label.slot()));
            assert(parent.slot() != cell.slot()) by {
                assert(!before.nodes().dom().contains(cell.slot()));
            }
            assert(pre.nodes().dom().contains(parent.slot()));
            assert(elements.nodes()[parent.slot()].children@ == pre.nodes()[parent.slot()].children@);
            assert forall|i: int| 0 <= i < d implies settled(*elements, #[trigger] cells@[i], seq![labels@[i]]) by {
                lemma_settled_kept(pre, *elements, cell, cells@[i], seq![labels@[i]]);
            }
            assert forall|i: int| d < i < n implies settled(*elements, #[trigger] cells@[i], Seq::<DynElement>::empty()) by {
                lemma_settled_kept(pre, *elements, cell, cells@[i], Seq::<DynElement>::empty());
            }
            assert(settled(*elements, cell, seq![label])) by {
                assert(Seq::<DynElement>::empty() + l@ =~= seq![label]);
            }
            assert forall|i: int| 0 <= i < d implies {
                &&& !mid.nodes().dom().contains(#[trigger] labels@[i].slot())
                &&& settled(*elements, labels@[i], Seq::<DynElement>::empty())
            } by {
                assert(labels@[i].slot() != cell.slot());
                lemma_settled_kept(pre, *elements, cell, labels@[i], Seq::<DynElement>::empty());
            }
            assert forall|i: int| 0 <= i < d implies labels@[i].slot() != label.slot() by {
                assert(pre.nodes().dom().contains(labels@[i].slot()));
            }
            assert forall|k: u64| #![trigger elements.nodes()[k]] before.nodes().dom().contains(k) implies {
                &&& (k != parent.slot() ==> elements.nodes()[k].children@ == before.nodes()[k].children@)
                &&& elements.nodes()[k].parent == before.nodes()[k].parent
            } by {
                assert(pre.nodes().dom().contains(k));
                assert(k != cell.slot());
                assert(pre.nodes()[k].parent == before.nodes()[k].parent);
                if k != parent.slot() {
                    assert(pre.nodes()[k].children@ == before.nodes()[k].children@);
                }
            }
        }
        proof {
            assert forall|i: int| 0 <= i < n implies elements.parent_of(#[trigger] cells@[i]) == Some(parent)
                && elements.node(cells@[i]).window == elements.node(parent).window by {
                assert(pre.parent_of(cells@[i]) == Some(parent));
                assert(pre.nodes().dom().contains(cells@[i].slot()));
                let a = elements.nodes()[cells@[i].slot()];
                let b = elements.nodes()[parent.slot()];
            }
        }
        labels.push(label);
        d = d + 1;
    }
    proof {
        assert forall|i: int| 0 <= i < n implies {
            &&& !before.nodes().dom().contains(#[trigger] cells@[i].slot())
            &&& !before.nodes().dom().contains(labels@[i].slot())
            &&& settled(*elements, cells@[i], seq![labels@[i]])
            &&& settled(*elements, labels@[i], Seq::<DynElement>::empty())
            &&& cells@[i].slot() != labels@[i].slot()
        } by {
            assert(!mid.nodes().dom().contains(labels@[i].slot()));
        }
        assert forall|i: int, j: int| 0 <= i < n && 0 <= j < n && i != j implies {
            &&& cells@[i].slot() != cells@[j].slot()
            &&& labels@[i].slot() != labels@[j].slot()
            &&& cells@[i].slot() != labels@[j].slot()
        } by {
            assert(mid.nodes().dom().contains(cells@[i].slot()));
            assert(!mid.nodes().dom().contains(labels@[j].slot()));
        }
    }
    (cells, labels)
}

/// What listing the years anew in `dropdown` did to the store, from
/// `before` to `after`: the dropdown's children are `items`, new elements
/// without children, each with the dropdown as parent and in its window;
/// the dropdown's old items stay in the store without a parent, alike
/// otherwise; every other element, the dropdown included but for its
/// children, is alike.
pub open spec fn relisted(before: RetainedElements, after: RetainedElements, dropdown: DynElement, items: Seq<DynElement>) -> bool {
    &&& after.wf()
    &&& after.spec_id() == before.spec_id()
    &&& after.nodes().len() == before.nodes().len() + items.len()
    &&& settled(after, dropdown, items)
    &&& all_new(before, items)
    &&& forall|i: int| 0 <= i < items.len() ==> after.child_list(#[trigger] items[i]) == Seq::<DynElement>::empty()
    &&& forall|k: u64|
        #![trigger after.nodes()[k]]
        before.nodes().dom().contains(k) ==> {
            &&& after.nodes().dom().contains(k)
            &&& after.nodes()[k].window == before.nodes()[k].window
            &&& after.nodes()[k].internal_id == before.nodes()[k].internal_id
            &&& (k != dropdown.slot() ==> after.nodes()[k].children@ == before.nodes()[k].children@)
            &&& after.nodes()[k].parent == (if before.lists_live_slot(before.child_list(dropdown), k) {
                None
            } else {
                before.nodes()[k].parent
            })
        }
}

impl CalendarState {
    /// The index of the focused year among the listed years, if it is one.
    pub open spec fn year_index_spec(&self) -> Option<usize> {
        if self.start_year_of() <= self.focus_year_of() <= self.end_year_of() {
            Some((self.end_year_of() - self.focus_year_of()) as usize)
        } else {
            None
        }
    }

    /// The index of the focused month among the twelve, if it is one.
    pub open spec fn month_index_spec(&self) -> Option<usize> {
        if 1 <= self.focus_month_of() <= 12 {
            Some((self.focus_month_of() - 1) as usize)
        } else {
            None
        }
    }

    pub closed spec fn focus_year_of(&self) -> i32 {
        self.focus_year
    }

    pub closed spec fn focus_month_of(&self) -> u8 {
        self.focus_month
    }

    pub closed spec fn start_year_of(&self) -> i32 {
        self.start_year
    }

    pub closed spec fn end_year_of(&self) -> i32 {
        self.end_year
    }

    /// The offered years lie within the supported range, start first.
    pub closed spec fn wf(&self) -> bool {
        MIN_YEAR <= self.start_year <= self.end_year <= MAX_YEAR
    }

    /// The years the year dropdown lists, newest first.
    pub open spec fn years(&self) -> Seq<i32> {
        Seq::new(
            (self.end_year_of() - self.start_year_of() + 1) as nat,
            |i: int| (self.end_year_of() - i) as i32,
        )
    }

    /// A calendar showing the given month, offering every supported year.
    pub fn new(focus_year: i32, focus_month: u8) -> (r: CalendarState)
        ensures
            r.wf(),
            r.focus_year_of() == focus_year,
            r.focus_month_of() == focus_month,
            r.start_year_of() == MIN_YEAR,
            r.end_year_of() == MAX_YEAR,
    {
        CalendarState { focus_year, focus_month, start_year: MIN_YEAR, end_year: MAX_YEAR }
    }

    pub fn focus_year(&self) -> (r: i32)
        ensures
            r == self.focus_year_of(),
    {
        self.focus_year
    }

    pub fn focus_month(&self) -> (r: u8)
        ensures
            r == self.focus_month_of(),
    {
        self.focus_month
    }

    pub fn start_year(&self) -> (r: i32)
        ensures
            r == self.start_year_of(),
    {
        self.start_year
    }

    pub fn end_year(&self) -> (r: i32)
        ensures
            r == self.end_year_of(),
    {
        self.end_year
    }

    /// The years of the year dropdown, newest first.
    pub fn year_list(&self) -> (r: Vec<i32>)
        requires
            self.wf(),
        ensures
            r@ == self.years(),
    {
        let mut r: Vec<i32> = Vec::new();
        let mut year = self.end_year;
        while year >= self.start_year
            invariant
                self.wf(),
                self.start_year - 1 <= year <= self.end_year,
                r@.len() == self.end_year - year,
                forall|i: int| 0 <= i < r@.len() ==> r@[i] == self.end_year - i,
            decreases year - self.start_year + 1,
        {
            r.push(year);
            year = year - 1;
        }
        assert(r@ =~= self.years());
        r
    }

    /// The index of the focused year in the year dropdown, if it is offered.
    pub fn selected_year_index(&self) -> (r: Option<usize>)
        requires
            self.wf(),
        ensures
            r == (if self.start_year_of() <= self.focus_year_of() <= self.end_year_of() {
                Some((self.end_year_of() - self.focus_year_of()) as usize)
            } else {
                None
            }),
            r matches Some(i) ==> self.years()[i as int] == self.focus_year_of(),
    {
        if self.start_year <= self.focus_year && self.focus_year <= self.end_year {
            Some((self.end_year - self.focus_year) as usize)
        } else {
            None
        }
    }

    /// The index of the focused month in the month dropdown, if it is a month.
    pub fn selected_month_index(&self) -> (r: Option<usize>)
        ensures
            r == (if 1 <= self.focus_month_of() <= 12 {
                Some((self.focus_month_of() - 1) as usize)
            } else {
                None
            }),
    {
        if 1 <= self.focus_month && self.focus_month <= 12 {
            Some((self.focus_month - 1) as usize)
        } else {
            None
        }
    }

    /// Focuses the year at `index` of the year dropdown: the index is taken
    /// as an `i32`, keeping its low 32 bits, and counted back from the last
    /// year.
    pub fn select_year(&mut self, index: usize)
        requires
            old(self).wf(),
            old(self).end_year_of() - index_as_i32(index) <= i32::MAX,
        ensures
            final(self).wf(),
            final(self).focus_year_of() == old(self).end_year_of() - index_as_i32(index),
            final(self).focus_month_of() == old(self).focus_month_of(),
            final(self).start_year_of() == old(self).start_year_of(),
            final(self).end_year_of() == old(self).end_year_of(),
    {
        let low: u64 = (index as u64) % 0x1_0000_0000;
        let back: i64 = if low >= 0x8000_0000 {
            low as i64 - 0x1_0000_0000
        } else {
            low as i64
        };
        self.focus_year = (self.end_year as i64 - back) as i32;
    }

    /// Builds the elements of a calendar: the calendar holds its navigation,
    /// day header and week grid, in this order; the navigation holds the
    /// year dropdown, with one item per year newest first, and the month
    /// dropdown, with twelve items; the day header holds seven cells, each
    /// with its label; the week grid holds six weeks of seven day cells,
    /// each with the text of its day. Every element is new.
    pub fn build_calendar(
        &self,
        elements: &mut RetainedElements,
        by_internal_id: &mut FxHashMap<u64, DynElement>,
        ids: &mut IdCounter,
    ) -> (r: CalendarTree)
        requires
            self.wf(),
            old(elements).wf(),
            old(elements).nodes().len() + self.years().len() + 122 < 0xffff_fffeu64,
        ensures
            final(elements).wf(),
            final(elements).spec_id() == old(elements).spec_id(),
            !old(elements).nodes().dom().contains(r.root.slot()),
            frame_settled(
                *final(elements),
                r.root,
                r.nav,
                r.day_header,
                r.week_grid,
                r.year_dropdown,
                r.month_dropdown,
                r.years@,
                r.months@,
                r.header_cells@,
                r.weeks@,
            ),
            r.years@.len() == self.years().len(),
            r.months@.len() == 12,
            r.header_cells@.len() == COLUMNS,
            r.header_labels@.len() == COLUMNS,
            r.weeks@.len() == ROWS,
            r.day_cells@.len() == ROWS * COLUMNS,
            r.days@.len() == ROWS * COLUMNS,
            forall|c: int| 0 <= c < COLUMNS ==> settled(*final(elements), #[trigger] r.header_cells@[c], seq![r.header_labels@[c]]),
            forall|c: int| 0 <= c < COLUMNS ==> settled(*final(elements), #[trigger] r.header_labels@[c], Seq::<DynElement>::empty()),
            forall|w: int|
                0 <= w < ROWS ==> settled(*final(elements), #[trigger] r.weeks@[w], r.day_cells@.subrange(7 * w, 7 * w + 7)),
            forall|j: int| 0 <= j < ROWS * COLUMNS ==> settled(*final(elements), #[trigger] r.day_cells@[j], seq![r.days@[j]]),
            forall|j: int| 0 <= j < ROWS * COLUMNS ==> settled(*final(elements), #[trigger] r.days@[j], Seq::<DynElement>::empty()),
            keeps_all(*old(elements), *final(elements)),
            final(elements).parent_of(r.root) is None,
            final(elements).node(r.root).window is None,
            r.year_state == (DropdownState { open: false, selected: self.year_index_spec(), hovered: None }),
            r.month_state == (DropdownState { open: false, selected: self.month_index_spec(), hovered: None }),
            all_new(*old(elements), seq![r.root, r.nav, r.day_header, r.week_grid, r.year_dropdown, r.month_dropdown]),
            all_new(*old(elements), r.years@),
            all_new(*old(elements), r.months@),
            all_new(*old(elements), r.header_cells@),
            all_new(*old(elements), r.header_labels@),
            all_new(*old(elements), r.weeks@),
            all_new(*old(elements), r.day_cells@),
            all_new(*old(elements), r.days@),
    {
        let ghost s0 = *elements;
        let root_id = create_unique_element_id(ids);
        let root = elements.insert(root_id, by_internal_id);
        let ghost s1 = *elements;
        let top = add_new_children(elements, by_internal_id, ids, root, 3);
        let nav = top[0];
        let day_header = top[1];
        let week_grid = top[2];
        let ghost s2 = *elements;
        let dd = add_new_children(elements, by_internal_id, ids, nav, 2);
        let year_dropdown = dd[0];
        let month_dropdown = dd[1];
        let ghost s3 = *elements;
        let count: i32 = self.end_year - self.start_year + 1;
        let years = add_new_children(elements, by_internal_id, ids, year_dropdown, count as usize);
        let ghost s4 = *elements;
        let months = add_new_children(elements, by_internal_id, ids, month_dropdown, 12);
        let ghost s5 = *elements;
        let (header_cells, header_labels) = add_labelled_children(elements, by_internal_id, ids, day_header, 7);
        let ghost s6 = *elements;
        let weeks = add_new_children(elements, by_internal_id, ids, week_grid, 6);
        let ghost s7 = *elements;
        proof {
            assert forall|k: u64| #![trigger s1.nodes()[k]] s0.nodes().dom().contains(k) implies same_node(s1.nodes()[k], s0.nodes()[k]) by {
                assert(k != root.slot());
            }
            assert(keeps_all(s0, s1));
            assert(!s0.nodes().dom().contains(root.slot()));
            lemma_keeps_all_step(s0, s1, s2, root);
            assert(!s1.nodes().dom().contains(nav.slot()));
            assert(!s1.nodes().dom().contains(day_header.slot()));
            assert(!s1.nodes().dom().contains(week_grid.slot()));
            lemma_keeps_all_step(s0, s2, s3, nav);
            assert(!s2.nodes().dom().contains(year_dropdown.slot()));
            assert(!s2.nodes().dom().contains(month_dropdown.slot()));
            lemma_keeps_all_step(s0, s3, s4, year_dropdown);
            lemma_keeps_all_step(s0, s4, s5, month_dropdown);
            lemma_keeps_all_step(s0, s5, s6, day_header);
            lemma_keeps_all_step(s0, s6, s7, week_grid);
            assert forall|i: int| 0 <= i < years@.len() implies !s0.nodes().dom().contains(#[trigger] years@[i].slot()) by {
                assert(!s3.nodes().dom().contains(years@[i].slot()));
            }
            assert forall|i: int| 0 <= i < months@.len() implies !s0.nodes().dom().contains(#[trigger] months@[i].slot()) by {
                assert(!s4.nodes().dom().contains(months@[i].slot()));
            }
            assert forall|i: int| 0 <= i < 7 implies !s0.nodes().dom().contains(#[trigger] header_cells@[i].slot())
                && !s0.nodes().dom().contains(header_labels@[i].slot()) by {
                assert(!s5.nodes().dom().contains(header_cells@[i].slot()));
            }
            assert forall|i: int| 0 <= i < 7 implies !s0.nodes().dom().contains(#[trigger] header_labels@[i].slot()) by {
                assert(!s5.nodes().dom().contains(header_cells@[i].slot()));
            }
            assert forall|i: int| 0 <= i < 6 implies !s0.nodes().dom().contains(#[trigger] weeks@[i].slot()) by {
                assert(!s6.nodes().dom().contains(weeks@[i].slot()));
            }
            assert(top@ =~= seq![nav, day_header, week_grid]);
            assert(dd@ =~= seq![year_dropdown, month_dropdown]);
            let r2 = s2.nodes()[root.slot()];
            let r3 = s3.nodes()[root.slot()];
            let r4 = s4.nodes()[root.slot()];
            let r5 = s5.nodes()[root.slot()];
            let r6 = s6.nodes()[root.slot()];
            let r7 = s7.nodes()[root.slot()];
            assert(s7.parent_of(root) is None);
            assert(s7.node(root).window is None);
            assert(s1.nodes().dom().contains(root.slot()));
            assert(s2.nodes().dom().contains(nav.slot()));
            assert(s2.nodes().dom().contains(day_header.slot()));
            assert(s2.nodes().dom().contains(week_grid.slot()));
            assert(!s2.nodes().dom().contains(year_dropdown.slot()));
            assert(!s2.nodes().dom().contains(month_dropdown.slot()));
            assert(s3.nodes().dom().contains(year_dropdown.slot()));
            assert(s3.nodes().dom().contains(month_dropdown.slot()));
            // Each element's children, from when they were added.
            assert(Seq::<DynElement>::empty() + top@ =~= top@);
            assert(settled(s2, root, seq![nav, day_header, week_grid]));
            assert(settled(s3, nav, seq![year_dropdown, month_dropdown]));
            assert(settled(s4, year_dropdown, years@));
            assert(settled(s5, month_dropdown, months@));
            assert(settled(s6, day_header, header_cells@));
            assert(settled(s7, week_grid, weeks@));
            lemma_settled_kept(s2, s3, nav, root, seq![nav, day_header, week_grid]);
            lemma_settled_kept(s3, s4, year_dropdown, root, seq![nav, day_header, week_grid]);
            lemma_settled_kept(s3, s4, year_dropdown, nav, seq![year_dropdown, month_dropdown]);
            lemma_settled_kept(s4, s5, month_dropdown, root, seq![nav, day_header, week_grid]);
            lemma_settled_kept(s4, s5, month_dropdown, nav, seq![year_dropdown, month_dropdown]);
            lemma_settled_kept(s4, s5, month_dropdown, year_dropdown, years@);
            lemma_settled_kept(s5, s6, day_header, root, seq![nav, day_header, week_grid]);
            lemma_settled_kept(s5, s6, day_header, nav, seq![year_dropdown, month_dropdown]);
            lemma_settled_kept(s5, s6, day_header, year_dropdown, years@);
            lemma_settled_kept(s5, s6, day_header, month_dropdown, months@);
            lemma_settled_kept(s6, s7, week_grid, root, seq![nav, day_header, week_grid]);
            lemma_settled_kept(s6, s7, week_grid, nav, seq![year_dropdown, month_dropdown]);
            lemma_settled_kept(s6, s7, week_grid, year_dropdown, years@);
            lemma_settled_kept(s6, s7, week_grid, month_dropdown, months@);
            lemma_settled_kept(s6, s7, week_grid, day_header, header_cells@);
            assert forall|c: int| 0 <= c < 7 implies settled(s7, #[trigger] header_cells@[c], seq![header_labels@[c]]) by {
                assert(s6.nodes().dom().contains(header_cells@[c].slot()));
                assert(!s5.nodes().dom().contains(header_cells@[c].slot()));
                lemma_settled_kept(s6, s7, week_grid, header_cells@[c], seq![header_labels@[c]]);
            }
            assert forall|c: int| 0 <= c < 7 implies settled(s7, #[trigger] header_labels@[c], Seq::<DynElement>::empty()) by {
                assert(!s5.nodes().dom().contains(header_cells@[c].slot()));
                assert(!s5.nodes().dom().contains(header_labels@[c].slot()));
                lemma_settled_kept(s6, s7, week_grid, header_labels@[c], Seq::<DynElement>::empty());
            }
            assert forall|w: int| 0 <= w < 6 implies {
                &&& outside_frame(#[trigger] weeks@[w], root, nav, day_header, week_grid, year_dropdown, month_dropdown)
                &&& s7.nodes().dom().contains(weeks@[w].slot())
                &&& !s6.nodes().dom().contains(weeks@[w].slot())
                &&& settled(s7, weeks@[w], Seq::<DynElement>::empty())
            } by {
                assert(!s6.nodes().dom().contains(weeks@[w].slot()));
            }
        }
        let mut day_cells: Vec<DynElement> = Vec::new();
        let mut days: Vec<DynElement> = Vec::new();
        let mut w: usize = 0;
        while w < 6
            invariant
                w <= 6,
                weeks@.len() == 6,
                header_cells@.len() == 7,
                header_labels@.len() == 7,
                day_cells@.len() == 7 * w,
                days@.len() == 7 * w,
                elements.wf(),
                elements.spec_id() == s0.spec_id(),
                s7.nodes().dom().subset_of(elements.nodes().dom()),
                keeps_all(s0, *elements),
                s0.nodes().dom().subset_of(s7.nodes().dom()),
                all_new(s0, weeks@),
                elements.parent_of(root) is None,
                elements.node(root).window is None,
                elements.nodes().len() == s7.nodes().len() + 14 * w,
                s7.nodes().len() + 84 < 0xffff_fffeu64,
                frame_settled(
                    *elements,
                    root,
                    nav,
                    day_header,
                    week_grid,
                    year_dropdown,
                    month_dropdown,
                    years@,
                    months@,
                    header_cells@,
                    weeks@,
                ),
                forall|c: int|
                    0 <= c < 7 ==> {
                        &&& s6.nodes().dom().contains(#[trigger] header_cells@[c].slot())
                        &&& s6.nodes().dom().contains(header_labels@[c].slot())
                        &&& settled(*elements, header_cells@[c], seq![header_labels@[c]])
                        &&& settled(*elements, header_labels@[c], Seq::<DynElement>::empty())
                    },
                forall|v: int|
                    0 <= v < 6 ==> {
                        &&& outside_frame(#[trigger] weeks@[v], root, nav, day_header, week_grid, year_dropdown, month_dropdown)
                        &&& s7.nodes().dom().contains(weeks@[v].slot())
                        &&& !s6.nodes().dom().contains(weeks@[v].slot())
                    },
                forall|v: int, u: int| 0 <= v < 6 && 0 <= u < 6 && v != u ==> weeks@[v].slot() != weeks@[u].slot(),
                forall|v: int| 0 <= v < w ==> settled(*elements, #[trigger] weeks@[v], day_cells@.subrange(7 * v, 7 * v + 7)),
                forall|v: int| w <= v < 6 ==> settled(*elements, #[trigger] weeks@[v], Seq::<DynElement>::empty()),
                forall|j: int|
                    0 <= j < 7 * w ==> {
                        &&& !s7.nodes().dom().contains(#[trigger] day_cells@[j].slot())
                        &&& !s7.nodes().dom().contains(days@[j].slot())
                        &&& settled(*elements, day_cells@[j], seq![days@[j]])
                        &&& settled(*elements, days@[j], Seq::<DynElement>::empty())
                    },
            decreases 6 - w,
        {
            let ghost pre = *elements;
            let week = weeks[w];
            let (cells, texts) = add_labelled_children(elements, by_internal_id, ids, week, 7);
            proof {
                assert(!s0.nodes().dom().contains(weeks@[w as int].slot()));
                let rn = elements.nodes()[root.slot()];
                assert(pre.nodes().dom().contains(root.slot()));
                lemma_keeps_all_step(s0, pre, *elements, week);
                lemma_frame_kept(
                    pre,
                    *elements,
                    week,
                    root,
                    nav,
                    day_header,
                    week_grid,
                    year_dropdown,
                    month_dropdown,
                    years@,
                    months@,
                    header_cells@,
                    weeks@,
                );
                assert forall|c: int| 0 <= c < 7 implies {
                    &&& s6.nodes().dom().contains(#[trigger] header_cells@[c].slot())
                    &&& s6.nodes().dom().contains(header_labels@[c].slot())
                    &&& settled(*elements, header_cells@[c], seq![header_labels@[c]])
                    &&& settled(*elements, header_labels@[c], Seq::<DynElement>::empty())
                } by {
                    assert(s6.nodes().dom().contains(header_cells@[c].slot()));
                    lemma_settled_kept(pre, *elements, week, header_cells@[c], seq![header_labels@[c]]);
                    lemma_settled_kept(pre, *elements, week, header_labels@[c], Seq::<DynElement>::empty());
                }
                assert forall|v: int| 0 <= v < w implies settled(*elements, #[trigger] weeks@[v], day_cells@.subrange(7 * v, 7 * v + 7)) by {
                    lemma_settled_kept(pre, *elements, week, weeks@[v], day_cells@.subrange(7 * v, 7 * v + 7));
                }
                assert forall|v: int| w < v < 6 implies settled(*elements, #[trigger] weeks@[v], Seq::<DynElement>::empty()) by {
                    lemma_settled_kept(pre, *elements, week, weeks@[v], Seq::<DynElement>::empty());
                }
                assert forall|j: int| 0 <= j < 7 * w implies {
                    &&& settled(*elements, #[trigger] day_cells@[j], seq![days@[j]])
                    &&& settled(*elements, days@[j], Seq::<DynElement>::empty())
                } by {
                    assert(!s7.nodes().dom().contains(day_cells@[j].slot()));
                    lemma_settled_kept(pre, *elements, week, day_cells@[j], seq![days@[j]]);
                    lemma_settled_kept(pre, *elements, week, days@[j], Seq::<DynElement>::empty());
                }
                assert(Seq::<DynElement>::empty() + cells@ =~= cells@);
            }
            let ghost old_cells = day_cells@;
            let ghost old_days = days@;
            let mut d: usize = 0;
            while d < 7
                invariant
                    d <= 7,
                    cells@.len() == 7,
                    texts@.len() == 7,
                    day_cells@ == old_cells + cells@.take(d as int),
                    days@ == old_days + texts@.take(d as int),
                    old_cells.len() == 7 * w,
                    old_days.len() == 7 * w,
                decreases 7 - d,
            {
                day_cells.push(cells[d]);
                days.push(texts[d]);
                proof {
                    assert(cells@.take(d + 1) =~= cells@.take(d as int).push(cells@[d as int]));
                    assert(texts@.take(d + 1) =~= texts@.take(d as int).push(texts@[d as int]));
                }
                d = d + 1;
            }
            proof {
                assert(cells@.take(7) =~= cells@);
                assert(texts@.take(7) =~= texts@);
                assert(day_cells@.subrange(7 * w as int, 7 * w as int + 7) =~= cells@);
                assert forall|v: int| 0 <= v < w + 1 implies settled(*elements, #[trigger] weeks@[v], day_cells@.subrange(7 * v, 7 * v + 7)) by {
                    if v < w {
                        assert(day_cells@.subrange(7 * v, 7 * v + 7) =~= old_cells.subrange(7 * v, 7 * v + 7));
                    }
                }
                assert forall|j: int| 0 <= j < 7 * (w + 1) implies {
                    &&& !s7.nodes().dom().contains(#[trigger] day_cells@[j].slot())
                    &&& !s7.nodes().dom().contains(days@[j].slot())
                    &&& settled(*elements, day_cells@[j], seq![days@[j]])
                    &&& settled(*elements, days@[j], Seq::<DynElement>::empty())
                } by {
                    if j >= 7 * w {
                        assert(day_cells@[j] == cells@[j - 7 * w]);
                        assert(days@[j] == texts@[j - 7 * w]);
                    }
                }
            }
            w = w + 1;
        }
        proof {
            assert forall|c: int| 0 <= c < 7 implies settled(*elements, #[trigger] header_labels@[c], Seq::<DynElement>::empty()) by {
                assert(s6.nodes().dom().contains(header_cells@[c].slot()));
            }
            assert forall|j: int| 0 <= j < 42 implies settled(*elements, #[trigger] day_cells@[j], seq![days@[j]]) by {
                assert(!s7.nodes().dom().contains(day_cells@[j].slot()));
            }
            assert forall|j: int| 0 <= j < 42 implies settled(*elements, #[trigger] days@[j], Seq::<DynElement>::empty()) by {
                assert(!s7.nodes().dom().contains(day_cells@[j].slot()));
            }
            assert forall|j: int| 0 <= j < 42 implies !s0.nodes().dom().contains(#[trigger] day_cells@[j].slot())
                && !s0.nodes().dom().contains(days@[j].slot()) by {
                assert(!s7.nodes().dom().contains(day_cells@[j].slot()));
            }
            assert forall|j: int| 0 <= j < 42 implies !s0.nodes().dom().contains(#[trigger] days@[j].slot()) by {
                assert(!s7.nodes().dom().contains(day_cells@[j].slot()));
            }
            let top6 = seq![root, nav, day_header, week_grid, year_dropdown, month_dropdown];
            assert forall|i: int| 0 <= i < 6 implies !s0.nodes().dom().contains(#[trigger] top6[i].slot()) by {}
        }
        CalendarTree {
            root,
            nav,
            day_header,
            week_grid,
            year_dropdown,
            month_dropdown,
            years,
            months,
            header_cells,
            header_labels,
            weeks,
            day_cells,
            days,
            year_state: DropdownState { open: false, selected: self.selected_year_index(), hovered: None },
            month_state: DropdownState { open: false, selected: self.selected_month_index(), hovered: None },
        }
    }

    /// Lists the years anew in the year dropdown, as the year setters call
    /// for: its old items are detached (they stay in the store, without a
    /// parent), and one new item per year, newest first, becomes its
    /// children; nothing else in the store changes. Returns the new items,
    /// the item of `years()[i]` at `i`.
    pub fn rebuild_year_items(
        &self,
        elements: &mut RetainedElements,
        by_internal_id: &mut FxHashMap<u64, DynElement>,
        ids: &mut IdCounter,
        year_dropdown: DynElement,
    ) -> (r: Vec<DynElement>)
        requires
            self.wf(),
            old(elements).wf(),
            old(elements).live(year_dropdown),
            old(elements).nodes().len() + self.years().len() < 0xffff_fffeu64,
        ensures
            r@.len() == self.years().len(),
            relisted(*old(elements), *final(elements), year_dropdown, r@),
    {
        let ghost before = *elements;
        elements.remove_all_children(year_dropdown);
        let ghost cleared = *elements;
        let count: i32 = self.end_year - self.start_year + 1;
        let items = add_new_children(elements, by_internal_id, ids, year_dropdown, count as usize);
        proof {
            assert(Seq::<DynElement>::empty() + items@ =~= items@);
            assert forall|k: u64|
                #![trigger elements.nodes()[k]]
                before.nodes().dom().contains(k) ==> {
                    &&& elements.nodes().dom().contains(k)
                    &&& elements.nodes()[k].window == before.nodes()[k].window
                    &&& elements.nodes()[k].internal_id == before.nodes()[k].internal_id
                    &&& (k != year_dropdown.slot() ==> elements.nodes()[k].children@ == before.nodes()[k].children@)
                    &&& elements.nodes()[k].parent == (if before.lists_live_slot(before.child_list(year_dropdown), k) {
                        None
                    } else {
                        before.nodes()[k].parent
                    })
                } by {
                if before.nodes().dom().contains(k) {
                    let c = cleared.nodes()[k];
                    assert(cleared.nodes().dom().contains(k));
                }
            }
            assert forall|i: int| 0 <= i < items@.len() implies !before.nodes().dom().contains(#[trigger] items@[i].slot()) by {
                assert(!cleared.nodes().dom().contains(items@[i].slot()));
            }
            let yn = elements.nodes()[year_dropdown.slot()];
        }
        items
    }

    /// Focuses the month at `index` of the month dropdown; the index is
    /// taken modulo 256, as a byte.
    pub fn select_month(&mut self, index: usize)
        requires
            index % 256 != 255,
        ensures
            final(self).focus_month_of() == 1 + index % 256,
            final(self).focus_year_of() == old(self).focus_year_of(),
            final(self).start_year_of() == old(self).start_year_of(),
            final(self).end_year_of() == old(self).end_year_of(),
    {
        let byte = (index % 256) as u8;
        self.focus_month = 1 + byte;
    }

    /// Sets the first year offered and lists the years anew in
    /// `year_dropdown`: its old items are detached and one new item per
    /// year, newest first, becomes its children; nothing else in the store
    /// changes. The focused year, when it is listed, is selected in
    /// `year_state`. Returns the new items.
    /// Nothing happens when `year_dropdown` is not in the store.
    pub fn set_start_year(
        &mut self,
        year: i32,
        elements: &mut RetainedElements,
        by_internal_id: &mut FxHashMap<u64, DynElement>,
        ids: &mut IdCounter,
        year_dropdown: DynElement,
        year_state: &mut DropdownState,
        actions: &mut Vec<DropdownAction>,
    ) -> (r: Vec<DynElement>)
        requires
            old(self).wf(),
            old(elements).wf(),
            old(elements).live(year_dropdown) ==> {
                &&& MIN_YEAR <= year <= MAX_YEAR
                &&& year <= old(self).end_year_of()
                &&& old(elements).nodes().len() + old(self).end_year_of() - year + 1 < 0xffff_fffeu64
            },
        ensures
            final(self).wf(),
            !old(elements).live(year_dropdown) ==> {
                &&& *final(self) == *old(self)
                &&& *final(elements) == *old(elements)
                &&& *final(year_state) == *old(year_state)
                &&& final(actions)@ == old(actions)@
                &&& r@.len() == 0
            },
            old(elements).live(year_dropdown) ==> {
                &&& final(self).start_year_of() == year
                &&& final(self).end_year_of() == old(self).end_year_of()
                &&& final(self).focus_year_of() == old(self).focus_year_of()
                &&& final(self).focus_month_of() == old(self).focus_month_of()
                &&& r@.len() == final(self).years().len()
                &&& relisted(*old(elements), *final(elements), year_dropdown, r@)
                &&& match final(self).year_index_spec() {
                    Some(i) => {
                        &&& *final(year_state) == select_spec(*old(year_state), i).0
                        &&& final(actions)@ == old(actions)@ + select_spec(*old(year_state), i).1
                    },
                    None => *final(year_state) == *old(year_state) && final(actions)@ == old(actions)@,
                }
            },
    {
        if !elements.contains(year_dropdown) {
            return Vec::new();
        }
        self.start_year = year;
        let items = self.rebuild_year_items(elements, by_internal_id, ids, year_dropdown);
        if let Some(i) = self.selected_year_index() {
            year_state.set_selected_item(i, items.len(), actions);
        }
        items
    }

    /// Sets the last year offered and lists the years anew in
    /// `year_dropdown`: its old items are detached and one new item per
    /// year, newest first, becomes its children; nothing else in the store
    /// changes. The focused year, when it is listed, is selected in
    /// `year_state`. Returns the new items.
    /// Nothing happens when `year_dropdown` is not in the store.
    pub fn set_end_year(
        &mut self,
        year: i32,
        elements: &mut RetainedElements,
        by_internal_id: &mut FxHashMap<u64, DynElement>,
        ids: &mut IdCounter,
        year_dropdown: DynElement,
        year_state: &mut DropdownState,
        actions: &mut Vec<DropdownAction>,
    ) -> (r: Vec<DynElement>)
        requires
            old(self).wf(),
            old(elements).wf(),
            old(elements).live(year_dropdown) ==> {
                &&& MIN_YEAR <= year <= MAX_YEAR
                &&& year >= old(self).start_year_of()
                &&& old(elements).nodes().len() + year - old(self).start_year_of() + 1 < 0xffff_fffeu64
            },
        ensures
            final(self).wf(),
            !old(elements).live(year_dropdown) ==> {
                &&& *final(self) == *old(self)
                &&& *final(elements) == *old(elements)
                &&& *final(year_state) == *old(year_state)
                &&& final(actions)@ == old(actions)@
                &&& r@.len() == 0
            },
            old(elements).live(year_dropdown) ==> {
                &&& final(self).end_year_of() == year
                &&& final(self).start_year_of() == old(self).start_year_of()
                &&& final(self).focus_year_of() == old(self).focus_year_of()
                &&& final(self).focus_month_of() == old(self).focus_month_of()
                &&& r@.len() == final(self).years().len()
                &&& relisted(*old(elements), *final(elements), year_dropdown, r@)
                &&& match final(self).year_index_spec() {
                    Some(i) => {
                        &&& *final(year_state) == select_spec(*old(year_state), i).0
                        &&& final(actions)@ == old(actions)@ + select_spec(*old(year_state), i).1
                    },
                    None => *final(year_state) == *old(year_state) && final(actions)@ == old(actions)@,
                }
            },
    {
        if !elements.contains(year_dropdown) {
            return Vec::new();
        }
        self.end_year = year;
        let items = self.rebuild_year_items(elements, by_internal_id, ids, year_dropdown);
        if let Some(i) = self.selected_year_index() {
            year_state.set_selected_item(i, items.len(), actions);
        }
        items
    }

    /// A selection in one of the calendar's dropdowns focuses the chosen
    /// year or month; whether the focus changed. Other events do nothing.
    pub fn on_event(&mut self, event: &EventKind, year_dropdown: DynElement, month_dropdown: DynElement) -> (r: bool)
        requires
            old(self).wf(),
            event matches EventKind::DropdownItemSelected(e) ==> (e.base_view().target_of() == year_dropdown
                ==> old(self).end_year_of() - index_as_i32(e.index) <= i32::MAX),
            event matches EventKind::DropdownItemSelected(e) ==> (e.base_view().target_of() != year_dropdown
                && e.base_view().target_of() == month_dropdown ==> e.index % 256 != 255),
        ensures
            final(self).wf(),
            final(self).start_year_of() == old(self).start_year_of(),
            final(self).end_year_of() == old(self).end_year_of(),
            r == (*event matches EventKind::DropdownItemSelected(e) && (e.base_view().target_of() == year_dropdown
                || e.base_view().target_of() == month_dropdown)),
            match *event {
                EventKind::DropdownItemSelected(e) => if e.base_view().target_of() == year_dropdown {
                    final(self).focus_year_of() == old(self).end_year_of() - index_as_i32(e.index)
                        && final(self).focus_month_of() == old(self).focus_month_of()
                } else if e.base_view().target_of() == month_dropdown {
                    final(self).focus_month_of() == 1 + e.index % 256
                        && final(self).focus_year_of() == old(self).focus_year_of()
                } else {
                    *final(self) == *old(self)
                },
                _ => *final(self) == *old(self),
            },
    {
        if let EventKind::DropdownItemSelected(e) = event {
            let target = e.target();
            if target == year_dropdown {
                self.select_year(e.index);
                return true;
            } else if target == month_dropdown {
                self.select_month(e.index);
                return true;
            }
        }
        false
    }
}

/// Choosing the year at index `i` of the dropdown focuses the year listed
/// there, and the dropdown then shows that index as selected.
pub proof fn lemma_select_year_round_trip(s: CalendarState, after: CalendarState, i: usize)
    requires
        s.wf(),
        after.wf(),
        i < s.years().len(),
        after.focus_year_of() == s.end_year_of() - i,
        after.start_year_of() == s.start_year_of(),
        after.end_year_of() == s.end_year_of(),
    ensures
        after.focus_year_of() == s.years()[i as int],
        s.start_year_of() <= after.focus_year_of() <= s.end_year_of(),
        (after.end_year_of() - after.focus_year_of()) == i,
{
}

} // verus!
