use rustc_hash::FxHashMap;

use retgui::calendar::{CalendarState, COLUMNS, MAX_YEAR, MIN_YEAR, ROWS};
use retgui::dropdown::{build_dropdown, DropdownState};
use retgui::element_id::IdCounter;
use retgui::events::{DropdownItemSelectedEvent, EventKind};
use retgui::store::RetainedElements;

#[test]
fn calendar_rebuilds_years_and_updates_days_from_dropdown_events() {
    let mut ids = IdCounter::new(0);
    let mut elements = RetainedElements::new(&mut ids);
    let mut by_id = FxHashMap::default();
    let mut calendar = CalendarState::new(2025, 6);
    let mut tree = calendar.build_calendar(&mut elements, &mut by_id, &mut ids);
    assert_eq!(tree.year_state.selected, Some(3000 - 2025));
    assert_eq!(tree.month_state.selected, Some(5));
    let year_dropdown = tree.year_dropdown;
    let month_dropdown = tree.month_dropdown;
    let old_years = elements.children(year_dropdown);
    assert_eq!(old_years.len(), 1101);

    let mut actions = Vec::new();
    let first = calendar.set_end_year(2030, &mut elements, &mut by_id, &mut ids, year_dropdown, &mut tree.year_state, &mut actions);
    let new_years = calendar.set_start_year(2020, &mut elements, &mut by_id, &mut ids, year_dropdown, &mut tree.year_state, &mut actions);
    assert_eq!(tree.year_state.selected, Some(2030 - 2025));
    assert_eq!(actions.len(), 4);
    assert!(first.iter().all(|year| elements.contains(*year) && elements.parent(*year).is_err()));
    assert_eq!(elements.children(month_dropdown).len(), 12);
    assert_eq!(elements.parent(year_dropdown).ok(), Some(tree.nav));
    assert_eq!(elements.children(year_dropdown).len(), 11);
    assert_eq!(elements.children(year_dropdown), new_years);
    assert!(old_years.iter().all(|year| elements.contains(*year) && elements.parent(*year).is_err()));
    assert!(new_years.iter().all(|year| elements.parent(*year).ok() == Some(year_dropdown)));

    for (dropdown, index) in [(year_dropdown, 6), (month_dropdown, 0)] {
        let event = EventKind::DropdownItemSelected(DropdownItemSelectedEvent::new(dropdown, index));
        assert!(calendar.on_event(&event, year_dropdown, month_dropdown));
    }
    assert_eq!((calendar.focus_year(), calendar.focus_month()), (2024, 1));
    assert_eq!(tree.days.len(), ROWS * COLUMNS);

    let event = EventKind::DropdownItemSelected(DropdownItemSelectedEvent::new(month_dropdown, 1));
    calendar.on_event(&event, year_dropdown, month_dropdown);
    assert_eq!(calendar.focus_month(), 2);
}

#[test]
fn calendar_tree_has_its_parts_in_order() {
    let mut ids = IdCounter::new(0);
    let mut elements = RetainedElements::new(&mut ids);
    let mut by_id = FxHashMap::default();
    let mut calendar = CalendarState::new(2025, 6);
    let mut tree = calendar.build_calendar(&mut elements, &mut by_id, &mut ids);
    assert_eq!(elements.children(tree.year_dropdown).len(), 1101);
    calendar.set_start_year(2020, &mut elements, &mut by_id, &mut ids, tree.year_dropdown, &mut tree.year_state, &mut Vec::new());
    calendar.set_end_year(2022, &mut elements, &mut by_id, &mut ids, tree.year_dropdown, &mut tree.year_state, &mut Vec::new());
    assert_eq!(elements.children(tree.root), vec![tree.nav, tree.day_header, tree.week_grid]);
    assert_eq!(elements.children(tree.nav), vec![tree.year_dropdown, tree.month_dropdown]);
    assert_eq!(elements.children(tree.year_dropdown).len(), 3);
    assert_eq!(elements.children(tree.month_dropdown).len(), 12);
    assert_eq!(elements.children(tree.day_header), tree.header_cells);
    assert_eq!(elements.children(tree.week_grid), tree.weeks);
    for (w, week) in tree.weeks.iter().enumerate() {
        assert_eq!(elements.children(*week), tree.day_cells[7 * w..7 * w + 7].to_vec());
    }
    for (j, cell) in tree.day_cells.iter().enumerate() {
        assert_eq!(elements.children(*cell), vec![tree.days[j]]);
        assert_eq!(elements.parent(tree.days[j]).ok(), Some(*cell));
    }
    assert_eq!(elements.parent(tree.nav).ok(), Some(tree.root));
    assert!(elements.parent(tree.root).is_err());
    assert_eq!(elements.len(), 1 + 3 + 2 + 1101 + 12 + 14 + 6 + 84 + 981 + 3);
}

#[test]
fn year_list_is_newest_first() {
    let mut ids = IdCounter::new(0);
    let mut elements = RetainedElements::new(&mut ids);
    let mut by_id = FxHashMap::default();
    let dropdown = build_dropdown(&mut elements, &mut by_id, &mut ids);
    let mut state = DropdownState::new();
    let mut c = CalendarState::new(2024, 3);
    assert_eq!((c.start_year(), c.end_year()), (MIN_YEAR, MAX_YEAR));
    assert_eq!(c.year_list().len(), 1101);
    c.set_start_year(2020, &mut elements, &mut by_id, &mut ids, dropdown, &mut state, &mut Vec::new());
    c.set_end_year(2022, &mut elements, &mut by_id, &mut ids, dropdown, &mut state, &mut Vec::new());
    assert_eq!(elements.children(dropdown).len(), 3);
    assert_eq!(c.year_list(), vec![2022, 2021, 2020]);
    assert_eq!(c.selected_year_index(), None);
    c.select_year(1);
    assert_eq!(c.focus_year(), 2021);
    assert_eq!(c.selected_year_index(), Some(1));
    assert_eq!(c.selected_month_index(), Some(2));
    c.select_month(11);
    assert_eq!(c.focus_month(), 12);
}

#[test]
fn events_for_other_elements_change_nothing() {
    let mut ids = IdCounter::new(0);
    let mut elements = RetainedElements::new(&mut ids);
    let mut by_id = FxHashMap::default();
    let y = elements.insert(1, &mut by_id);
    let m = elements.insert(2, &mut by_id);
    let other = elements.insert(3, &mut by_id);
    let mut c = CalendarState::new(2024, 3);
    let event = EventKind::DropdownItemSelected(DropdownItemSelectedEvent::new(other, 4));
    assert!(!c.on_event(&event, y, m));
    assert_eq!((c.focus_year(), c.focus_month()), (2024, 3));
}

#[test]
fn year_index_is_read_as_i32() {
    let mut c = CalendarState::new(2024, 3);
    c.select_year(0xffff_ffff);
    assert_eq!(c.focus_year(), MAX_YEAR + 1);
    c.select_year(5);
    assert_eq!(c.focus_year(), MAX_YEAR - 5);
}

#[test]
fn setters_do_nothing_without_the_year_dropdown() {
    let mut ids = IdCounter::new(0);
    let mut elements = RetainedElements::new(&mut ids);
    let mut by_id = FxHashMap::default();
    let mut other = RetainedElements::new(&mut ids);
    let dropdown = build_dropdown(&mut other, &mut by_id, &mut ids);
    let mut state = DropdownState::new();
    let mut c = CalendarState::new(2024, 3);
    assert!(c.set_start_year(2020, &mut elements, &mut by_id, &mut ids, dropdown, &mut state, &mut Vec::new()).is_empty());
    assert_eq!(c.start_year(), MIN_YEAR);
    assert_eq!(elements.len(), 0);
}
