use rustc_hash::FxHashMap;

use retgui::element_id::{create_unique_element_id, IdCounter};
use retgui::error::{ResourceError, RetGuiError};
use retgui::store::{DynElement, RetainedElements};

fn store(n: u64) -> (RetainedElements, FxHashMap<u64, DynElement>, Vec<DynElement>) {
    let mut ids = IdCounter::new(0);
    let mut elements = RetainedElements::new(&mut ids);
    let mut by_id = FxHashMap::default();
    let hs = (0..n).map(|i| elements.insert(i, &mut by_id)).collect();
    (elements, by_id, hs)
}

#[test]
fn ids_count_up() {
    let mut ids = IdCounter::new(5);
    assert_eq!(create_unique_element_id(&mut ids), 5);
    assert_eq!(create_unique_element_id(&mut ids), 6);
    let mut last = IdCounter::new(u64::MAX);
    assert_eq!(create_unique_element_id(&mut last), u64::MAX);
    assert_eq!(create_unique_element_id(&mut last), 0);
}

#[test]
fn children_and_siblings() {
    let (mut e, _m, h) = store(4);
    e.push_child(h[0], h[1]);
    e.push_child(h[0], h[2]);
    e.push_child(h[0], h[3]);
    assert_eq!(e.children(h[0]), vec![h[1], h[2], h[3]]);
    assert_eq!(e.parent(h[2]).unwrap(), h[0]);
    assert_eq!(e.first_child(h[0]).unwrap(), h[1]);
    assert_eq!(e.last_child(h[0]).unwrap(), h[3]);
    assert_eq!(e.next_sibling(h[1]).unwrap(), h[2]);
    assert_eq!(e.previous_sibling(h[2]).unwrap(), h[1]);
    assert!(e.previous_sibling(h[1]).unwrap_err().is_element_not_found());
    assert!(e.next_sibling(h[3]).is_err());
    assert!(e.parent(h[0]).is_err());
}

#[test]
fn push_then_remove_restores_children() {
    let (mut e, _m, h) = store(3);
    e.push_child(h[0], h[1]);
    let before = e.children(h[0]);
    e.push_child(h[0], h[2]);
    assert_eq!(e.remove_child(h[0], h[2]).unwrap(), h[2]);
    assert_eq!(e.children(h[0]), before);
    assert!(e.parent(h[2]).is_err());
    assert!(e.remove_child(h[0], h[2]).is_err());
}

#[test]
fn swap_child_exchanges_positions() {
    let (mut e, _m, h) = store(3);
    e.push_child(h[0], h[1]);
    e.push_child(h[0], h[2]);
    e.swap_child(h[0], h[1], h[2]).unwrap();
    assert_eq!(e.children(h[0]), vec![h[2], h[1]]);
}

#[test]
fn target_list_and_common_ancestor() {
    let (mut e, _m, h) = store(4);
    e.push_child(h[0], h[1]);
    e.push_child(h[1], h[2]);
    e.push_child(h[0], h[3]);
    assert_eq!(e.freeze_target_list(h[2]), vec![h[2], h[1], h[0]]);
    assert_eq!(e.nearest_common_ancestor(h[2], h[3]), Some(h[0]));
    assert_eq!(e.nearest_common_ancestor(h[2], h[1]), Some(h[1]));
}

#[test]
fn delete_all_children_removes_the_subtree() {
    let (mut e, mut m, h) = store(4);
    e.push_child(h[0], h[1]);
    e.push_child(h[1], h[2]);
    e.push_child(h[0], h[3]);
    let mut focus = Some(h[2]);
    let deleted = e.delete_all_children(h[0], &mut focus, &mut m);
    assert_eq!(deleted.elements.len(), 3);
    assert_eq!(deleted.unfocused, Some(h[2]));
    assert_eq!(focus, None);
    assert!(e.contains(h[0]));
    assert!(!e.contains(h[1]) && !e.contains(h[2]) && !e.contains(h[3]));
    assert_eq!(e.len(), 1);
    assert!(e.children(h[0]).is_empty());
    assert!(!m.contains_key(&1) && m.contains_key(&0));
}

#[test]
fn resource_errors_convert() {
    let err: RetGuiError = ResourceError { message: "missing".to_string() }.into();
    assert!(!err.is_element_not_found());
    assert!(RetGuiError::ElementNotFound.is_element_not_found());
}

#[test]
fn clone_subtree_copies_the_shape_with_new_elements() {
    let mut ids = IdCounter::new(0);
    let mut elements = RetainedElements::new(&mut ids);
    let mut by_id = FxHashMap::default();
    let root = elements.insert(1, &mut by_id);
    let a = elements.insert(2, &mut by_id);
    let a1 = elements.insert(3, &mut by_id);
    let b = elements.insert(4, &mut by_id);
    elements.push_child(root, a);
    elements.push_child(a, a1);
    elements.push_child(root, b);
    let mut ids2 = IdCounter::new(100);
    let copy = elements.clone_subtree(&mut by_id, &mut ids2, root);
    assert_eq!(elements.len(), 8);
    assert!(elements.parent(copy).is_err());
    let kids = elements.children(copy);
    assert_eq!(kids.len(), 2);
    assert!(kids.iter().all(|k| ![root, a, a1, b].contains(k)));
    assert_eq!(elements.children(kids[0]).len(), 1);
    assert!(elements.children(kids[1]).is_empty());
    assert_eq!(elements.parent(kids[0]).ok(), Some(copy));
    assert_eq!(elements.parent(elements.children(kids[0])[0]).ok(), Some(kids[0]));
    // The source is left as it was.
    assert_eq!(elements.children(root), vec![a, b]);
    assert_eq!(elements.children(a), vec![a1]);
}

#[test]
fn ids_follow_one_another() {
    let mut ids = IdCounter::new(7);
    let a = create_unique_element_id(&mut ids);
    let b = create_unique_element_id(&mut ids);
    assert_eq!((a, b), (7, 8));
    let mut last = IdCounter::new(u64::MAX);
    assert_eq!(create_unique_element_id(&mut last), u64::MAX);
    assert_eq!(create_unique_element_id(&mut last), 0);
}
