//! The element store: a slot map of the retained tree's nodes, and the tree
//! operations over it.

use slotmap::{DefaultKey, Key, KeyData, SlotMap};
use rustc_hash::FxHashMap;
use vstd::prelude::*;

use crate::element_id::{create_unique_element_id, IdCounter};
use crate::error::RetGuiError;

verus! {

/// A `slotmap::SlotMap` of tree nodes with default keys, held privately and
/// read and written only through the functions below.
#[verifier::external_body]
pub struct NodeSlots {
    map: SlotMap<DefaultKey, TreeNode>,
}

/// The entries of the node slot map, keyed by `KeyData::as_ffi` of their keys.
pub uninterp spec fn slot_entries(m: NodeSlots) -> Map<u64, TreeNode>;

/// The key that `KeyData::from_ffi` makes of `k`, written back by `as_ffi`:
/// `from_ffi` forces the version, the upper half, to be odd.
pub open spec fn key_norm(k: u64) -> u64 {
    k | 0x1_0000_0000u64
}

/// A copyable handle to an element of a store.
#[derive(Clone, Copy, Debug, Eq, Hash, PartialEq, Structural)]
pub struct DynElement {
    key: u64,
    store_id: u64,
}

impl DynElement {
    #[verifier::type_invariant]
    spec fn key_is_normal(&self) -> bool {
        key_norm(self.key) == self.key
    }

    /// The slot key of the element.
    pub open spec fn slot(self) -> u64 {
        key_norm(self.spec_key())
    }

    /// The slot key as stored in the handle.
    pub closed spec fn spec_key(self) -> u64 {
        self.key
    }

    /// The id of the store the handle belongs to.
    pub closed spec fn spec_store_id(self) -> u64 {
        self.store_id
    }

    /// The id of the store the handle belongs to.
    pub fn store_id(self) -> (r: u64)
        ensures
            r == self.spec_store_id(),
    {
        self.store_id
    }

    pub(crate) fn from_key(key: u64, store_id: u64) -> (r: DynElement)
        requires
            key_norm(key) == key,
        ensures
            r.spec_key() == key,
            r.spec_store_id() == store_id,
    {
        DynElement { key, store_id }
    }

    pub(crate) fn key(self) -> (r: u64)
        ensures
            r == self.spec_key(),
    {
        self.key
    }
}

/// The tree data of one retained element.
#[derive(Clone, Debug)]
pub struct TreeNode {
    /// The element's parent.
    pub parent: Option<DynElement>,
    /// The element's children, in order.
    pub children: Vec<DynElement>,
    /// The window that owns the element.
    pub window: Option<DynElement>,
    /// An id unique among all elements of the application.
    pub internal_id: u64,
}

/// `SlotMap::with_key`: an empty slot map.
#[verifier::external_body]
fn slots_new() -> (r: NodeSlots)
    ensures
        slot_entries(r) =~= Map::empty(),
{
    NodeSlots { map: SlotMap::with_key() }
}

/// `SlotMap::insert`: stores the value under a key that no entry holds, and
/// returns that key as `as_ffi` writes it (its version is odd). It panics only
/// when `u32::MAX - 1` entries are present.
#[verifier::external_body]
fn slots_insert(m: &mut NodeSlots, value: TreeNode) -> (k: u64)
    requires
        slot_entries(*old(m)).len() < 0xffff_fffeu64,
    ensures
        !slot_entries(*old(m)).dom().contains(k),
        slot_entries(*final(m)) == slot_entries(*old(m)).insert(k, value),
        key_norm(k) == k,
{
    m.map.insert(value).data().as_ffi()
}

/// `SlotMap::len`: the number of entries.
#[verifier::external_body]
fn slots_len(m: &NodeSlots) -> (r: usize)
    ensures
        r == slot_entries(*m).len(),
{
    m.map.len()
}

/// `SlotMap::get` with the key `KeyData::from_ffi(k)`.
#[verifier::external_body]
fn slots_get(m: &NodeSlots, k: u64) -> (r: Option<&TreeNode>)
    ensures
        r is Some <==> slot_entries(*m).dom().contains(key_norm(k)),
        r matches Some(v) ==> *v == slot_entries(*m)[key_norm(k)],
{
    m.map.get(KeyData::from_ffi(k).into())
}

/// `SlotMap::get_mut` with the key `KeyData::from_ffi(k)`, writing `value`
/// into the entry found.
#[verifier::external_body]
fn slots_set(m: &mut NodeSlots, k: u64, value: TreeNode)
    ensures
        slot_entries(*final(m)) == (if slot_entries(*old(m)).dom().contains(key_norm(k)) {
            slot_entries(*old(m)).insert(key_norm(k), value)
        } else {
            slot_entries(*old(m))
        }),
{
    if let Some(slot) = m.map.get_mut(KeyData::from_ffi(k).into()) {
        *slot = value;
    }
}

/// `SlotMap::remove` with the key `KeyData::from_ffi(k)`.
#[verifier::external_body]
fn slots_remove(m: &mut NodeSlots, k: u64) -> (r: Option<TreeNode>)
    ensures
        r is Some <==> slot_entries(*old(m)).dom().contains(key_norm(k)),
        r matches Some(v) ==> v == slot_entries(*old(m))[key_norm(k)],
        slot_entries(*final(m)) == slot_entries(*old(m)).remove(key_norm(k)),
{
    m.map.remove(KeyData::from_ffi(k).into())
}

/// The hasher of `rustc_hash`'s maps, carried through as it is.
#[verifier::external_type_specification]
#[verifier::external_body]
pub struct ExFxBuildHasher(rustc_hash::FxBuildHasher);

/// The entries of a map from internal ids to element handles.
pub uninterp spec fn id_entries(m: FxHashMap<u64, DynElement>) -> Map<u64, DynElement>;

/// `HashMap::insert` on the `rustc_hash` map of internal ids: the entry for
/// `k` becomes `v`, the others stay.
#[verifier::external_body]
fn ids_insert(m: &mut FxHashMap<u64, DynElement>, k: u64, v: DynElement)
    ensures
        id_entries(*final(m)) == id_entries(*old(m)).insert(k, v),
{
    m.insert(k, v);
}

/// `HashMap::remove` on the `rustc_hash` map of internal ids: the entry for
/// `k`, if any, goes; the others stay.
#[verifier::external_body]
fn ids_remove(m: &mut FxHashMap<u64, DynElement>, k: u64)
    ensures
        id_entries(*final(m)) == id_entries(*old(m)).remove(k),
{
    m.remove(&k);
}

/// A copy of a list of handles.
pub fn copy_handles(v: &Vec<DynElement>) -> (r: Vec<DynElement>)
    ensures
        r@ == v@,
{
    let mut r: Vec<DynElement> = Vec::new();
    let mut i: usize = 0;
    while i < v.len()
        invariant
            i <= v@.len(),
            r@ == v@.subrange(0, i as int),
        decreases v@.len() - i,
    {
        r.push(v[i]);
        i = i + 1;
    }
    r
}

/// The first index at which `h` occurs in `s`, if it occurs.
pub open spec fn first_index(s: Seq<DynElement>, h: DynElement) -> Option<int> {
    if s.contains(h) {
        Some(choose|i: int| 0 <= i < s.len() && s[i] == h && forall|j: int| 0 <= j < i ==> s[j] != h)
    } else {
        None
    }
}

/// Finds the first index at which `h` occurs in `v`.
pub fn position_of(v: &Vec<DynElement>, h: DynElement) -> (r: Option<usize>)
    ensures
        match r {
            Some(i) => i < v@.len() && v@[i as int] == h && forall|j: int| 0 <= j < i ==> v@[j] != h,
            None => !v@.contains(h),
        },
{
    let mut i: usize = 0;
    while i < v.len()
        invariant
            i <= v@.len(),
            forall|j: int| 0 <= j < i ==> v@[j] != h,
        decreases v@.len() - i,
    {
        if v[i] == h {
            return Some(i);
        }
        i = i + 1;
    }
    None
}

/// The retained elements of an application: the tree structure of every
/// element, kept in a slot map so that handles of deleted elements are
/// recognised as stale.
pub struct RetainedElements {
    id: u64,
    slots: NodeSlots,
}

impl RetainedElements {
    /// The tree node of each element, by slot key.
    pub closed spec fn nodes(&self) -> Map<u64, TreeNode> {
        slot_entries(self.slots)
    }

    /// The id of this store; handles of other stores are never live here.
    pub closed spec fn spec_id(&self) -> u64 {
        self.id
    }

    /// Well-formedness: finitely many elements are held.
    pub closed spec fn wf(&self) -> bool {
        self.nodes().dom().finite()
    }

    /// Whether `h` names an element of this store that was not deleted.
    pub open spec fn live(&self, h: DynElement) -> bool {
        h.spec_store_id() == self.spec_id() && self.nodes().dom().contains(h.slot())
    }

    /// The tree node of `h`.
    pub open spec fn node(&self, h: DynElement) -> TreeNode {
        self.nodes()[h.slot()]
    }

    /// The children of `h`, none when `h` is not live.
    pub open spec fn child_list(&self, h: DynElement) -> Seq<DynElement> {
        if self.live(h) {
            self.node(h).children@
        } else {
            Seq::empty()
        }
    }

    /// The parent of `h`, none when `h` is not live.
    pub open spec fn parent_of(&self, h: DynElement) -> Option<DynElement> {
        if self.live(h) {
            self.node(h).parent
        } else {
            None
        }
    }

    /// The siblings of `h`: the children of its parent, if it has one.
    pub open spec fn siblings(&self, h: DynElement) -> Seq<DynElement> {
        match self.parent_of(h) {
            Some(p) => self.child_list(p),
            None => Seq::empty(),
        }
    }

    /// An empty store, whose id is taken from `store_ids`, the counter of
    /// store ids (the application's starts at 1, apart from element ids).
    pub fn new(store_ids: &mut IdCounter) -> (r: RetainedElements)
        ensures
            r.wf(),
            r.nodes() == Map::<u64, TreeNode>::empty(),
            r.spec_id() == old(store_ids).peek(),
            final(store_ids).peek() == (if old(store_ids).peek() == u64::MAX { 0 } else { (old(store_ids).peek() + 1) as u64 }),
    {
        let id = store_ids.fetch_next();
        RetainedElements { id, slots: slots_new() }
    }

    /// The id of this store.
    pub fn store_id(&self) -> (r: u64)
        ensures
            r == self.spec_id(),
    {
        self.id
    }

    /// The number of elements held.
    pub fn len(&self) -> (r: usize)
        ensures
            r == self.nodes().len(),
    {
        slots_len(&self.slots)
    }

    /// Whether `element` names an element of this store that was not deleted.
    pub fn contains(&self, element: DynElement) -> (r: bool)
        ensures
            r == self.live(element),
    {
        element.store_id() == self.id && slots_get(&self.slots, element.key()).is_some()
    }

    /// The tree node of `element`, or `None` when the handle is stale or
    /// belongs to another store.
    pub fn try_get(&self, element: DynElement) -> (r: Option<&TreeNode>)
        ensures
            r is Some <==> self.live(element),
            r matches Some(n) ==> *n == self.node(element),
    {
        if element.store_id() != self.id {
            return None;
        }
        slots_get(&self.slots, element.key())
    }

    /// The tree node of a live element.
    pub fn get(&self, element: DynElement) -> (r: &TreeNode)
        requires
            self.live(element),
        ensures
            *r == self.node(element),
    {
        slots_get(&self.slots, element.key()).unwrap()
    }

    /// Adds an element with no parent, no children and no window, and records
    /// its handle under `internal_id`.
    pub fn insert(&mut self, internal_id: u64, by_internal_id: &mut FxHashMap<u64, DynElement>) -> (r: DynElement)
        requires
            old(self).wf(),
            old(self).nodes().len() < 0xffff_fffeu64,
        ensures
            final(self).wf(),
            !old(self).nodes().dom().contains(r.slot()),
            final(self).spec_id() == old(self).spec_id(),
            r.spec_store_id() == old(self).spec_id(),
            final(self).nodes().dom() == old(self).nodes().dom().insert(r.slot()),
            final(self).nodes().len() == old(self).nodes().len() + 1,
            forall|k: u64| k != r.slot() ==> #[trigger] final(self).nodes()[k] == old(self).nodes()[k],
            final(self).node(r).parent is None,
            final(self).node(r).children@ == Seq::<DynElement>::empty(),
            final(self).node(r).window is None,
            final(self).node(r).internal_id == internal_id,
            id_entries(*final(by_internal_id)) == id_entries(*old(by_internal_id)).insert(internal_id, r),
    {
        let node = TreeNode { parent: None, children: Vec::new(), window: None, internal_id };
        let key = slots_insert(&mut self.slots, node);
        let handle = DynElement::from_key(key, self.id);
        ids_insert(by_internal_id, internal_id, handle);
        handle
    }

    /// The parent of `element`, or `ElementNotFound` when it has none or the
    /// handle is not live.
    pub fn parent(&self, element: DynElement) -> (r: Result<DynElement, RetGuiError>)
        ensures
            match r {
                Ok(p) => self.parent_of(element) == Some(p),
                Err(e) => e is ElementNotFound && self.parent_of(element) is None,
            },
    {
        match self.try_get(element) {
            Some(node) => match node.parent {
                Some(p) => Ok(p),
                None => Err(RetGuiError::ElementNotFound),
            },
            None => Err(RetGuiError::ElementNotFound),
        }
    }

    /// The children of `element`, none when the handle is not live.
    pub fn children(&self, element: DynElement) -> (r: Vec<DynElement>)
        ensures
            r@ == self.child_list(element),
    {
        match self.try_get(element) {
            Some(node) => copy_handles(&node.children),
            None => Vec::new(),
        }
    }

    /// The first child of `element`, or `ElementNotFound`.
    pub fn first_child(&self, element: DynElement) -> (r: Result<DynElement, RetGuiError>)
        ensures
            match r {
                Ok(c) => self.child_list(element).len() > 0 && c == self.child_list(element)[0],
                Err(e) => e is ElementNotFound && self.child_list(element).len() == 0,
            },
    {
        match self.try_get(element) {
            Some(node) => {
                if node.children.len() > 0 {
                    Ok(node.children[0])
                } else {
                    Err(RetGuiError::ElementNotFound)
                }
            },
            None => Err(RetGuiError::ElementNotFound),
        }
    }

    /// The last child of `element`, or `ElementNotFound`.
    pub fn last_child(&self, element: DynElement) -> (r: Result<DynElement, RetGuiError>)
        ensures
            match r {
                Ok(c) => self.child_list(element).len() > 0 && c == self.child_list(element).last(),
                Err(e) => e is ElementNotFound && self.child_list(element).len() == 0,
            },
    {
        match self.try_get(element) {
            Some(node) => {
                let n = node.children.len();
                if n > 0 {
                    Ok(node.children[n - 1])
                } else {
                    Err(RetGuiError::ElementNotFound)
                }
            },
            None => Err(RetGuiError::ElementNotFound),
        }
    }

    /// The child of `element`'s parent just before `element`, or
    /// `ElementNotFound` when there is none. The place of `element` is its
    /// first occurrence among its parent's children.
    pub fn previous_sibling(&self, element: DynElement) -> (r: Result<DynElement, RetGuiError>)
        ensures
            match first_index(self.siblings(element), element) {
                Some(i) => if i > 0 {
                    r matches Ok(s) && s == self.siblings(element)[i - 1]
                } else {
                    r matches Err(e) && e is ElementNotFound
                },
                None => r matches Err(e) && e is ElementNotFound,
            },
    {
        let parent = match self.parent(element) {
            Ok(p) => p,
            Err(e) => return Err(e),
        };
        let siblings = self.children(parent);
        match position_of(&siblings, element) {
            Some(i) => {
                if i > 0 {
                    Ok(siblings[i - 1])
                } else {
                    Err(RetGuiError::ElementNotFound)
                }
            },
            None => Err(RetGuiError::ElementNotFound),
        }
    }

    /// The child of `element`'s parent just after `element`, or
    /// `ElementNotFound` when there is none.
    pub fn next_sibling(&self, element: DynElement) -> (r: Result<DynElement, RetGuiError>)
        ensures
            match first_index(self.siblings(element), element) {
                Some(i) => if i + 1 < self.siblings(element).len() {
                    r matches Ok(s) && s == self.siblings(element)[i + 1]
                } else {
                    r matches Err(e) && e is ElementNotFound
                },
                None => r matches Err(e) && e is ElementNotFound,
            },
    {
        let parent = match self.parent(element) {
            Ok(p) => p,
            Err(e) => return Err(e),
        };
        let siblings = self.children(parent);
        match position_of(&siblings, element) {
            Some(i) => {
                if i < siblings.len() - 1 {
                    Ok(siblings[i + 1])
                } else {
                    Err(RetGuiError::ElementNotFound)
                }
            },
            None => Err(RetGuiError::ElementNotFound),
        }
    }

    /// Replaces the node of a live element.
    fn update(&mut self, element: DynElement, node: TreeNode)
        requires
            old(self).wf(),
            old(self).live(element),
        ensures
            final(self).wf(),
            final(self).spec_id() == old(self).spec_id(),
            final(self).nodes() == old(self).nodes().insert(element.slot(), node),
    {
        slots_set(&mut self.slots, element.key(), node);
    }

    /// Makes `child` the last child of `parent`: the child's parent becomes
    /// `parent`, and the child and its whole subtree take `parent`'s window.
    /// Nothing changes when either handle is not live. The child is not taken
    /// out of the children of a parent it had before.
    pub fn push_child(&mut self, parent: DynElement, child: DynElement)
        requires
            old(self).wf(),
            parent != child,
        ensures
            final(self).wf(),
            final(self).spec_id() == old(self).spec_id(),
            final(self).nodes().dom() == old(self).nodes().dom(),
            !(old(self).live(parent) && old(self).live(child)) ==> final(self).nodes() == old(self).nodes(),
            old(self).live(parent) && old(self).live(child) ==> forall|k: u64|
                #![trigger final(self).nodes()[k]]
                old(self).nodes().dom().contains(k) ==> {
                    &&& final(self).nodes()[k].children@ == (if k == parent.slot() {
                        old(self).nodes()[k].children@.push(child)
                    } else {
                        old(self).nodes()[k].children@
                    })
                    &&& final(self).nodes()[k].parent == (if k == child.slot() {
                        Some(parent)
                    } else {
                        old(self).nodes()[k].parent
                    })
                    &&& final(self).nodes()[k].window == (if old(self).subtree_slot(seq![child], k) {
                        old(self).node(parent).window
                    } else {
                        old(self).nodes()[k].window
                    })
                    &&& final(self).nodes()[k].internal_id == old(self).nodes()[k].internal_id
                },
    {
        if !self.contains(parent) || !self.contains(child) {
            return;
        }
        proof {
            use_type_invariant(&parent);
            use_type_invariant(&child);
        }
        let ghost start = *self;
        let mut roots: Vec<DynElement> = Vec::new();
        roots.push(child);
        assert(roots@ =~= seq![child]);
        let subtree = self.collect_subtree(&roots);
        let window = self.get(parent).window;
        self.set_parent(child, Some(parent));
        let mut children = copy_handles(&self.get(parent).children);
        children.push(child);
        self.set_children(parent, children);
        let ghost mid = *self;
        self.set_windows(&subtree, window);
        proof {
            assert forall|k: u64| start.nodes().dom().contains(k) implies
                mid.lists_live_slot(subtree@, k) == start.subtree_slot(seq![child], k) by {
                if mid.lists_live_slot(subtree@, k) {
                    let i = choose|i: int| 0 <= i < subtree@.len() && mid.live(subtree@[i]) && subtree@[i].slot() == k;
                    assert(start.in_subtree(roots@, subtree@[i]));
                }
                if start.subtree_slot(seq![child], k) {
                    let h = choose|h: DynElement| #[trigger] start.in_subtree(seq![child], h) && h.slot() == k;
                    let i = choose|i: int| 0 <= i < subtree@.len() && #[trigger] subtree@[i].slot() == h.slot();
                    assert(start.in_subtree(roots@, subtree@[i]));
                    assert(mid.live(subtree@[i]));
                }
            }
        }
    }

    /// Makes `element` a window: it and every element under it belong to it.
    /// Nothing changes when the handle is not live.
    pub fn mark_window(&mut self, element: DynElement)
        requires
            old(self).wf(),
        ensures
            final(self).wf(),
            final(self).spec_id() == old(self).spec_id(),
            final(self).nodes().dom() == old(self).nodes().dom(),
            !old(self).live(element) ==> final(self).nodes() == old(self).nodes(),
            old(self).live(element) ==> forall|k: u64|
                #![trigger final(self).nodes()[k]]
                old(self).nodes().dom().contains(k) ==> {
                    &&& final(self).nodes()[k].children@ == old(self).nodes()[k].children@
                    &&& final(self).nodes()[k].parent == old(self).nodes()[k].parent
                    &&& final(self).nodes()[k].window == (if old(self).subtree_slot(seq![element], k) {
                        Some(element)
                    } else {
                        old(self).nodes()[k].window
                    })
                    &&& final(self).nodes()[k].internal_id == old(self).nodes()[k].internal_id
                },
    {
        if !self.contains(element) {
            return;
        }
        let ghost start = *self;
        let mut roots: Vec<DynElement> = Vec::new();
        roots.push(element);
        assert(roots@ =~= seq![element]);
        let subtree = self.collect_subtree(&roots);
        self.set_windows(&subtree, Some(element));
        proof {
            assert forall|k: u64| start.nodes().dom().contains(k) implies
                start.lists_live_slot(subtree@, k) == start.subtree_slot(seq![element], k) by {
                if start.lists_live_slot(subtree@, k) {
                    let i = choose|i: int| 0 <= i < subtree@.len() && start.live(subtree@[i]) && subtree@[i].slot() == k;
                    assert(start.in_subtree(roots@, subtree@[i]));
                }
                if start.subtree_slot(seq![element], k) {
                    let h = choose|h: DynElement| #[trigger] start.in_subtree(seq![element], h) && h.slot() == k;
                    let i = choose|i: int| 0 <= i < subtree@.len() && #[trigger] subtree@[i].slot() == h.slot();
                    assert(start.in_subtree(roots@, subtree@[i]));
                }
            }
        }
    }

    /// Sets the window of every live element listed in `hs`.
    fn set_windows(&mut self, hs: &Vec<DynElement>, window: Option<DynElement>)
        requires
            old(self).wf(),
        ensures
            final(self).wf(),
            final(self).spec_id() == old(self).spec_id(),
            final(self).nodes().dom() == old(self).nodes().dom(),
            forall|k: u64| #![trigger final(self).nodes()[k]] old(self).nodes().dom().contains(k) ==> {
                &&& final(self).nodes()[k].children@ == old(self).nodes()[k].children@
                &&& final(self).nodes()[k].parent == old(self).nodes()[k].parent
                &&& final(self).nodes()[k].internal_id == old(self).nodes()[k].internal_id
                &&& final(self).nodes()[k].window == (if old(self).lists_live_slot(hs@, k) {
                    window
                } else {
                    old(self).nodes()[k].window
                })
            },
    {
        let ghost start = *self;
        let mut i: usize = 0;
        while i < hs.len()
            invariant
                self.wf(),
                i <= hs@.len(),
                self.spec_id() == start.spec_id(),
                self.nodes().dom() == start.nodes().dom(),
                forall|k: u64| #![trigger self.nodes()[k]] start.nodes().dom().contains(k) ==> {
                    &&& self.nodes()[k].children@ == start.nodes()[k].children@
                    &&& self.nodes()[k].parent == start.nodes()[k].parent
                    &&& self.nodes()[k].internal_id == start.nodes()[k].internal_id
                    &&& self.nodes()[k].window == (if start.lists_live_slot(hs@.subrange(0, i as int), k) {
                        window
                    } else {
                        start.nodes()[k].window
                    })
                },
            decreases hs@.len() - i,
        {
            let h = hs[i];
            if self.contains(h) {
                let old_node = self.get(h);
                let node = TreeNode {
                    parent: old_node.parent,
                    children: copy_handles(&old_node.children),
                    window,
                    internal_id: old_node.internal_id,
                };
                self.update(h, node);
            }
            proof {
                assert forall|k: u64| start.nodes().dom().contains(k) implies
                    start.lists_live_slot(hs@.subrange(0, i + 1), k) == (
                        start.lists_live_slot(hs@.subrange(0, i as int), k)
                        || (start.live(h) && h.slot() == k)) by {
                    let s1 = hs@.subrange(0, i + 1);
                    let s0 = hs@.subrange(0, i as int);
                    if start.lists_live_slot(s1, k) {
                        let j = choose|j: int| 0 <= j < s1.len() && start.live(s1[j]) && s1[j].slot() == k;
                        if j < i {
                            assert(s0[j] == s1[j]);
                        }
                    }
                    if start.lists_live_slot(s0, k) {
                        let j = choose|j: int| 0 <= j < s0.len() && start.live(s0[j]) && s0[j].slot() == k;
                        assert(s1[j] == s0[j]);
                    }
                    if start.live(h) && h.slot() == k {
                        assert(s1[i as int] == h);
                    }
                }
            }
            i = i + 1;
        }
        assert(hs@.subrange(0, hs@.len() as int) =~= hs@);
    }

    /// Sets the parent of a live element, keeping the rest of its node.
    fn set_parent(&mut self, element: DynElement, parent: Option<DynElement>)
        requires
            old(self).wf(),
            old(self).live(element),
        ensures
            final(self).wf(),
            final(self).spec_id() == old(self).spec_id(),
            final(self).nodes().dom() == old(self).nodes().dom(),
            final(self).node(element).parent == parent,
            final(self).node(element).children@ == old(self).node(element).children@,
            final(self).node(element).window == old(self).node(element).window,
            final(self).node(element).internal_id == old(self).node(element).internal_id,
            forall|k: u64| k != element.slot() ==> #[trigger] final(self).nodes()[k] == old(self).nodes()[k],
    {
        let old_node = self.get(element);
        let node = TreeNode {
            parent,
            children: copy_handles(&old_node.children),
            window: old_node.window,
            internal_id: old_node.internal_id,
        };
        self.update(element, node);
    }

    /// Sets the children of a live element, keeping the rest of its node.
    fn set_children(&mut self, element: DynElement, children: Vec<DynElement>)
        requires
            old(self).wf(),
            old(self).live(element),
        ensures
            final(self).wf(),
            final(self).spec_id() == old(self).spec_id(),
            final(self).nodes().dom() == old(self).nodes().dom(),
            final(self).node(element).parent == old(self).node(element).parent,
            final(self).node(element).children@ == children@,
            final(self).node(element).window == old(self).node(element).window,
            final(self).node(element).internal_id == old(self).node(element).internal_id,
            forall|k: u64| k != element.slot() ==> #[trigger] final(self).nodes()[k] == old(self).nodes()[k],
    {
        let old_node = self.get(element);
        let node = TreeNode {
            parent: old_node.parent,
            children,
            window: old_node.window,
            internal_id: old_node.internal_id,
        };
        self.update(element, node);
    }

    /// Takes the first occurrence of `child` out of `parent`'s children and
    /// clears the child's parent. `ElementNotFound` when `parent` is not live
    /// or `child` is not among its children; nothing changes then.
    pub fn remove_child(&mut self, parent: DynElement, child: DynElement) -> (r: Result<DynElement, RetGuiError>)
        requires
            old(self).wf(),
        ensures
            final(self).wf(),
            final(self).spec_id() == old(self).spec_id(),
            final(self).nodes().dom() == old(self).nodes().dom(),
            match first_index(old(self).child_list(parent), child) {
                None => r matches Err(e) && e is ElementNotFound && final(self).nodes() == old(self).nodes(),
                Some(i) => {
                    &&& r == Ok::<DynElement, RetGuiError>(child)
                    &&& final(self).node(parent).children@ == old(self).child_list(parent).remove(i)
                    &&& final(self).parent_of(child) is None
                    &&& final(self).node(parent).window == old(self).node(parent).window
                    &&& final(self).node(parent).internal_id == old(self).node(parent).internal_id
                    &&& (child.slot() != parent.slot() ==> final(self).node(parent).parent == old(self).node(parent).parent)
                    &&& (old(self).live(child) ==> {
                        &&& final(self).node(child).window == old(self).node(child).window
                        &&& final(self).node(child).internal_id == old(self).node(child).internal_id
                        &&& (child.slot() != parent.slot() ==> final(self).node(child).children@ == old(self).node(child).children@)
                    })
                    &&& forall|k: u64| k != parent.slot() && k != child.slot()
                        ==> #[trigger] final(self).nodes()[k] == old(self).nodes()[k]
                },
            },
    {
        if !self.contains(parent) {
            return Err(RetGuiError::ElementNotFound);
        }
        let mut children = copy_handles(&self.get(parent).children);
        match position_of(&children, child) {
            None => Err(RetGuiError::ElementNotFound),
            Some(i) => {
                children.remove(i);
                self.set_children(parent, children);
                if self.contains(child) {
                    self.set_parent(child, None);
                }
                Ok(child)
            },
        }
    }

    /// Whether slot `k` is the slot of a live element listed in `hs`.
    pub open spec fn lists_live_slot(&self, hs: Seq<DynElement>, k: u64) -> bool {
        exists|i: int| 0 <= i < hs.len() && self.live(hs[i]) && hs[i].slot() == k
    }

    /// Clears the parent of every live element listed in `hs`.
    fn clear_parents(&mut self, hs: &Vec<DynElement>)
        requires
            old(self).wf(),
        ensures
            final(self).wf(),
            final(self).spec_id() == old(self).spec_id(),
            final(self).nodes().dom() == old(self).nodes().dom(),
            forall|k: u64| #![trigger final(self).nodes()[k]] old(self).nodes().dom().contains(k) ==> {
                &&& final(self).nodes()[k].children@ == old(self).nodes()[k].children@
                &&& final(self).nodes()[k].window == old(self).nodes()[k].window
                &&& final(self).nodes()[k].internal_id == old(self).nodes()[k].internal_id
                &&& final(self).nodes()[k].parent == (if old(self).lists_live_slot(hs@, k) {
                    None
                } else {
                    old(self).nodes()[k].parent
                })
            },
    {
        let ghost start = *self;
        let mut i: usize = 0;
        while i < hs.len()
            invariant
                self.wf(),
                i <= hs@.len(),
                self.spec_id() == start.spec_id(),
                self.nodes().dom() == start.nodes().dom(),
                forall|k: u64| #![trigger self.nodes()[k]] start.nodes().dom().contains(k) ==> {
                    &&& self.nodes()[k].children@ == start.nodes()[k].children@
                    &&& self.nodes()[k].window == start.nodes()[k].window
                    &&& self.nodes()[k].internal_id == start.nodes()[k].internal_id
                    &&& self.nodes()[k].parent == (if start.lists_live_slot(hs@.subrange(0, i as int), k) {
                        None
                    } else {
                        start.nodes()[k].parent
                    })
                },
            decreases hs@.len() - i,
        {
            let h = hs[i];
            let ghost before = *self;
            if self.contains(h) {
                self.set_parent(h, None);
            }
            proof {
                assert forall|k: u64| start.nodes().dom().contains(k) implies
                    start.lists_live_slot(hs@.subrange(0, i + 1), k) == (
                        start.lists_live_slot(hs@.subrange(0, i as int), k)
                        || (start.live(h) && h.slot() == k)) by {
                    let s1 = hs@.subrange(0, i + 1);
                    let s0 = hs@.subrange(0, i as int);
                    if start.lists_live_slot(s1, k) {
                        let j = choose|j: int| 0 <= j < s1.len() && start.live(s1[j]) && s1[j].slot() == k;
                        if j < i {
                            assert(s0[j] == s1[j]);
                        }
                    }
                    if start.lists_live_slot(s0, k) {
                        let j = choose|j: int| 0 <= j < s0.len() && start.live(s0[j]) && s0[j].slot() == k;
                        assert(s1[j] == s0[j]);
                    }
                    if start.live(h) && h.slot() == k {
                        assert(s1[i as int] == h);
                    }
                }
            }
            i = i + 1;
        }
        assert(hs@.subrange(0, hs@.len() as int) =~= hs@);
    }

    /// Detaches every child of `element`: the children list becomes empty and
    /// each live child loses its parent. Handles stay valid. Nothing changes
    /// when `element` is not live.
    pub fn remove_all_children(&mut self, element: DynElement)
        requires
            old(self).wf(),
        ensures
            final(self).wf(),
            final(self).spec_id() == old(self).spec_id(),
            final(self).nodes().dom() == old(self).nodes().dom(),
            !old(self).live(element) ==> final(self).nodes() == old(self).nodes(),
            old(self).live(element) ==> {
                &&& final(self).node(element).children@ == Seq::<DynElement>::empty()
                &&& forall|k: u64| #![trigger final(self).nodes()[k]] old(self).nodes().dom().contains(k) ==> {
                    &&& (k != element.slot() ==> final(self).nodes()[k].children@ == old(self).nodes()[k].children@)
                    &&& final(self).nodes()[k].window == old(self).nodes()[k].window
                    &&& final(self).nodes()[k].internal_id == old(self).nodes()[k].internal_id
                    &&& final(self).nodes()[k].parent == (if old(self).lists_live_slot(old(self).child_list(element), k) {
                        None
                    } else {
                        old(self).nodes()[k].parent
                    })
                }
            },
    {
        if !self.contains(element) {
            return;
        }
        let children = copy_handles(&self.get(element).children);
        let ghost start = *self;
        self.set_children(element, Vec::new());
        let ghost mid = *self;
        assert forall|k: u64| start.nodes().dom().contains(k) implies
            mid.lists_live_slot(children@, k) == start.lists_live_slot(children@, k) by {
            if mid.lists_live_slot(children@, k) {
                let j = choose|j: int| 0 <= j < children@.len() && mid.live(children@[j]) && children@[j].slot() == k;
                assert(start.live(children@[j]));
            }
            if start.lists_live_slot(children@, k) {
                let j = choose|j: int| 0 <= j < children@.len() && start.live(children@[j]) && children@[j].slot() == k;
                assert(mid.live(children@[j]));
            }
        }
        self.clear_parents(&children);
    }

    /// Exchanges the places of `child_1` and `child_2` among `parent`'s
    /// children (their first occurrences). `ElementNotFound` when `parent` is
    /// not live or either child is not among its children; nothing changes
    /// then.
    pub fn swap_child(&mut self, parent: DynElement, child_1: DynElement, child_2: DynElement) -> (r: Result<(), RetGuiError>)
        requires
            old(self).wf(),
        ensures
            final(self).wf(),
            final(self).spec_id() == old(self).spec_id(),
            final(self).nodes().dom() == old(self).nodes().dom(),
            match (first_index(old(self).child_list(parent), child_1), first_index(old(self).child_list(parent), child_2)) {
                (Some(i), Some(j)) => {
                    &&& r is Ok
                    &&& final(self).node(parent).children@ == old(self).child_list(parent).update(i, child_2).update(j, child_1)
                    &&& final(self).node(parent).parent == old(self).node(parent).parent
                    &&& final(self).node(parent).window == old(self).node(parent).window
                    &&& final(self).node(parent).internal_id == old(self).node(parent).internal_id
                    &&& forall|k: u64| k != parent.slot() ==> #[trigger] final(self).nodes()[k] == old(self).nodes()[k]
                },
                _ => r matches Err(e) && e is ElementNotFound && final(self).nodes() == old(self).nodes(),
            },
    {
        if !self.contains(parent) {
            return Err(RetGuiError::ElementNotFound);
        }
        let mut children = copy_handles(&self.get(parent).children);
        let i = match position_of(&children, child_1) {
            Some(i) => i,
            None => return Err(RetGuiError::ElementNotFound),
        };
        let j = match position_of(&children, child_2) {
            Some(j) => j,
            None => return Err(RetGuiError::ElementNotFound),
        };
        children.set(i, child_2);
        children.set(j, child_1);
        self.set_children(parent, children);
        Ok(())
    }

    /// The element `h`, its parent, its parent's parent and so on, following
    /// live elements for at most `fuel` steps.
    pub open spec fn ancestor_chain(&self, h: DynElement, fuel: nat) -> Seq<DynElement>
        decreases fuel,
    {
        if fuel == 0 || !self.live(h) {
            Seq::empty()
        } else {
            seq![h] + match self.node(h).parent {
                Some(p) => self.ancestor_chain(p, (fuel - 1) as nat),
                None => Seq::empty(),
            }
        }
    }

    /// The chain of `h` and its ancestors, as long as there are elements.
    pub open spec fn target_list(&self, h: DynElement) -> Seq<DynElement> {
        self.ancestor_chain(h, self.nodes().len())
    }

    /// The target and its ancestors, innermost first: the elements an event
    /// dispatched at `target` passes through.
    pub fn freeze_target_list(&self, target: DynElement) -> (r: Vec<DynElement>)
        ensures
            r@ == self.target_list(target),
    {
        let mut targets: Vec<DynElement> = Vec::new();
        let mut current: Option<DynElement> = Some(target);
        let mut fuel: usize = self.len();
        while fuel > 0 && current.is_some()
            invariant
                targets@ + match current {
                    Some(c) => self.ancestor_chain(c, fuel as nat),
                    None => Seq::empty(),
                } == self.target_list(target),
            decreases fuel + (if current is Some { 1int } else { 0int }),
        {
            let element = current.unwrap();
            match self.try_get(element) {
                Some(node) => {
                    let ghost prev = targets@;
                    targets.push(element);
                    current = node.parent;
                    assert(prev + self.ancestor_chain(element, fuel as nat) =~= targets@ + match current {
                        Some(c) => self.ancestor_chain(c, (fuel - 1) as nat),
                        None => Seq::empty(),
                    });
                    fuel = fuel - 1;
                },
                None => {
                    current = None;
                    assert(targets@ + Seq::<DynElement>::empty() =~= targets@);
                },
            }
        }
        proof {
            match current {
                Some(c) => {
                    assert(self.ancestor_chain(c, fuel as nat) == Seq::<DynElement>::empty());
                },
                None => {},
            }
            assert(targets@ + Seq::<DynElement>::empty() =~= targets@);
        }
        targets
    }
}

/// Pushing a child that a parent does not hold yet and removing it again
/// gives the parent back the children it had: the pushed child is found at
/// the end, and removing it there restores the list.
pub proof fn lemma_push_then_remove_restores(children: Seq<DynElement>, child: DynElement)
    requires
        !children.contains(child),
    ensures
        first_index(children.push(child), child) == Some(children.len() as int),
        children.push(child).remove(children.len() as int) == children,
{
    let pushed = children.push(child);
    assert(pushed[children.len() as int] == child);
    assert(exists|i: int| 0 <= i < pushed.len() && pushed[i] == child);
    let k = choose|i: int| 0 <= i < pushed.len() && pushed[i] == child && forall|j: int| 0 <= j < i ==> pushed[j] != child;
    if k < children.len() {
        assert(children[k] == child);
    }
    assert forall|j: int| 0 <= j < children.len() implies pushed[j] != child by {
        if pushed[j] == child {
            assert(children[j] == child);
        }
    }
    assert(pushed.remove(children.len() as int) =~= children);
}

/// The first element of `s` that `t` holds.
pub open spec fn first_shared(s: Seq<DynElement>, t: Seq<DynElement>) -> Option<DynElement> {
    if exists|i: int| 0 <= i < s.len() && t.contains(s[i]) {
        let i = choose|i: int|
            0 <= i < s.len() && t.contains(s[i]) && forall|j: int| 0 <= j < i ==> !t.contains(s[j]);
        Some(s[i])
    } else {
        None
    }
}

/// The first shared element is the one at the first index whose element `t`
/// holds.
pub proof fn lemma_first_shared(s: Seq<DynElement>, t: Seq<DynElement>, i: int)
    requires
        0 <= i < s.len(),
        t.contains(s[i]),
        forall|j: int| 0 <= j < i ==> !t.contains(s[j]),
    ensures
        first_shared(s, t) == Some(s[i]),
{
    assert(exists|x: int| 0 <= x < s.len() && t.contains(s[x]));
    let k = choose|k: int|
        0 <= k < s.len() && t.contains(s[k]) && forall|j: int| 0 <= j < k ==> !t.contains(s[j]);
    if k < i {
        assert(!t.contains(s[k]));
    } else if k > i {
        assert(!t.contains(s[i]));
    }
}

/// Whether the handle of slot key `k` is listed in `seen` by slot.
pub fn contains_slot(seen: &Vec<u64>, k: u64) -> (r: bool)
    ensures
        r == seen@.contains(key_norm(k)),
{
    let target = k | 0x1_0000_0000u64;
    let mut i: usize = 0;
    while i < seen.len()
        invariant
            i <= seen@.len(),
            target == key_norm(k),
            forall|j: int| 0 <= j < i ==> seen@[j] != target,
        decreases seen@.len() - i,
    {
        if seen[i] == target {
            return true;
        }
        i = i + 1;
    }
    false
}

/// Whether `h` occurs in `v`.
pub fn contains_handle(v: &Vec<DynElement>, h: DynElement) -> (r: bool)
    ensures
        r == v@.contains(h),
{
    position_of(v, h).is_some()
}

impl RetainedElements {
    /// The innermost element that encloses both `a` and `b`: the first of
    /// `b`'s target list that `a`'s target list holds.
    pub fn nearest_common_ancestor(&self, a: DynElement, b: DynElement) -> (r: Option<DynElement>)
        ensures
            r == first_shared(self.target_list(b), self.target_list(a)),
    {
        let a_targets = self.freeze_target_list(a);
        let b_targets = self.freeze_target_list(b);
        let mut i: usize = 0;
        while i < b_targets.len()
            invariant
                i <= b_targets@.len(),
                a_targets@ == self.target_list(a),
                b_targets@ == self.target_list(b),
                forall|j: int| 0 <= j < i ==> !a_targets@.contains(b_targets@[j]),
            decreases b_targets@.len() - i,
        {
            if contains_handle(&a_targets, b_targets[i]) {
                proof {
                    lemma_first_shared(b_targets@, a_targets@, i as int);
                }
                return Some(b_targets[i]);
            }
            i = i + 1;
        }
        None
    }

    /// `p` is a path of elements, each but the last live and holding the next
    /// among its children.
    pub open spec fn is_child_path(&self, p: Seq<DynElement>) -> bool {
        &&& p.len() > 0
        &&& forall|i: int|
            0 <= i < p.len() - 1 ==> self.live(#[trigger] p[i]) && self.child_list(p[i]).contains(p[i + 1])
    }

    /// `h` is one of `roots` or a descendant of one of them.
    pub open spec fn reaches(&self, roots: Seq<DynElement>, h: DynElement) -> bool {
        exists|p: Seq<DynElement>| #[trigger] self.is_child_path(p) && roots.contains(p[0]) && p.last() == h
    }

    /// `h` is a live element of the subtrees rooted at `roots`.
    pub open spec fn in_subtree(&self, roots: Seq<DynElement>, h: DynElement) -> bool {
        self.live(h) && self.reaches(roots, h)
    }

    /// Every live element of the path is listed, by slot, in `seen`.
    proof fn lemma_path_covered(
        &self,
        roots: Seq<DynElement>,
        seen: Seq<u64>,
        subtree: Seq<DynElement>,
        p: Seq<DynElement>,
        k: int,
    )
        requires
            self.is_child_path(p),
            roots.contains(p[0]),
            0 <= k < p.len(),
            self.live(p[k]),
            seen.len() == subtree.len(),
            forall|i: int| 0 <= i < subtree.len() ==> #[trigger] seen[i] == subtree[i].slot(),
            forall|i: int| 0 <= i < subtree.len() ==> self.live(#[trigger] subtree[i]),
            forall|r: DynElement| roots.contains(r) && self.live(r) ==> seen.contains(r.slot()),
            forall|i: int, c: DynElement|
                0 <= i < subtree.len() && #[trigger] self.child_list(subtree[i]).contains(c) && self.live(c)
                    ==> seen.contains(c.slot()),
        ensures
            seen.contains(p[k].slot()),
        decreases k,
    {
        if k > 0 {
            self.lemma_path_covered(roots, seen, subtree, p, k - 1);
            let m = choose|m: int| 0 <= m < seen.len() && seen[m] == p[k - 1].slot();
            assert(seen[m] == subtree[m].slot());
            assert(self.child_list(subtree[m]) == self.child_list(p[k - 1]));
            assert(self.child_list(subtree[m]).contains(p[k]));
        }
    }

    /// The live elements of the subtrees rooted at `roots`, each once, in the
    /// order of a depth-first walk that takes the last pending element first.
    pub fn collect_subtree(&self, roots: &Vec<DynElement>) -> (r: Vec<DynElement>)
        requires
            self.wf(),
        ensures
            forall|i: int| 0 <= i < r@.len() ==> self.in_subtree(roots@, #[trigger] r@[i]),
            forall|h: DynElement| self.in_subtree(roots@, h) ==> exists|i: int| 0 <= i < r@.len() && #[trigger] r@[i].slot() == h.slot(),
            forall|i: int, j: int| 0 <= i < j < r@.len() ==> r@[i].slot() != r@[j].slot(),
    {
        let mut pending = copy_handles(roots);
        let mut subtree: Vec<DynElement> = Vec::new();
        let mut seen: Vec<u64> = Vec::new();
        let ghost mut wit: Map<DynElement, Seq<DynElement>> = Map::new(
            |h: DynElement| roots@.contains(h),
            |h: DynElement| seq![h],
        );
        let n = self.len();
        while pending.len() > 0
            invariant
                self.wf(),
                n == self.nodes().len(),
                forall|j: int| 0 <= j < pending@.len() ==> wit.dom().contains(#[trigger] pending@[j]),
                forall|h: DynElement| #[trigger] wit.dom().contains(h) ==> {
                    &&& self.is_child_path(wit[h])
                    &&& roots@.contains(wit[h][0])
                    &&& wit[h].last() == h
                },
                forall|i: int| 0 <= i < subtree@.len() ==> self.live(#[trigger] subtree@[i]) && wit.dom().contains(subtree@[i]),
                seen@.len() == subtree@.len(),
                forall|i: int| 0 <= i < subtree@.len() ==> #[trigger] seen@[i] == subtree@[i].slot(),
                seen@.no_duplicates(),
                forall|i: int, c: DynElement|
                    0 <= i < subtree@.len() && #[trigger] self.child_list(subtree@[i]).contains(c) && self.live(c)
                        ==> seen@.contains(c.slot()) || pending@.contains(c),
                forall|h: DynElement| roots@.contains(h) && self.live(h) ==> seen@.contains(h.slot()) || pending@.contains(h),
                seen@.len() <= n,
            decreases n - seen@.len(), pending@.len(),
        {
            let ghost before_pending = pending@;
            let e = pending.pop().unwrap();
            assert(before_pending == pending@.push(e));
            assert forall|c: DynElement| before_pending.contains(c) && c != e implies pending@.contains(c) by {
                let j = choose|j: int| 0 <= j < before_pending.len() && before_pending[j] == c;
                assert(j < pending@.len());
                assert(pending@[j] == c);
            }
            assert(forall|j: int| 0 <= j < pending@.len() ==> pending@[j] == before_pending[j]);
            if contains_slot(&seen, e.key()) {
                assert(seen@.contains(e.slot()));
            } else {
                match self.try_get(e) {
                    None => {},
                    Some(node) => {
                        let children = copy_handles(&node.children);
                        let ghost we = wit[e];
                        let ghost new_wit = Map::new(
                            |c: DynElement| children@.contains(c),
                            |c: DynElement| we.push(c),
                        );
                        assert forall|c: DynElement| #[trigger] new_wit.dom().contains(c) implies {
                            &&& self.is_child_path(new_wit[c])
                            &&& roots@.contains(new_wit[c][0])
                            &&& new_wit[c].last() == c
                        } by {
                            let p = we.push(c);
                            assert(p[p.len() - 2] == e);
                            assert forall|i: int| 0 <= i < p.len() - 1 implies
                                self.live(#[trigger] p[i]) && self.child_list(p[i]).contains(p[i + 1]) by {
                                if i < p.len() - 2 {
                                    assert(p[i] == we[i]);
                                    assert(p[i + 1] == we[i + 1]);
                                }
                            }
                        }
                        proof {
                            wit = wit.union_prefer_right(new_wit);
                        }
                        let mut k: usize = 0;
                        let ghost pending_mid = pending@;
                        while k < children.len()
                            invariant
                                k <= children@.len(),
                                pending@ == pending_mid + children@.subrange(0, k as int),
                                forall|j: int| 0 <= j < children@.len() ==> wit.dom().contains(#[trigger] children@[j]),
                            decreases children@.len() - k,
                        {
                            pending.push(children[k]);
                            assert(pending@ =~= pending_mid + children@.subrange(0, k + 1));
                            k = k + 1;
                        }
                        assert(children@.subrange(0, children@.len() as int) =~= children@);
                        proof {
                            assert forall|c: DynElement| pending_mid.contains(c) implies pending@.contains(c) by {
                                let j = choose|j: int| 0 <= j < pending_mid.len() && pending_mid[j] == c;
                                assert(pending@[j] == c);
                            }
                            assert forall|c: DynElement| children@.contains(c) implies pending@.contains(c) by {
                                let j = choose|j: int| 0 <= j < children@.len() && children@[j] == c;
                                assert(pending@[pending_mid.len() + j] == c);
                            }
                            let old_seen = seen@;
                            assert(!old_seen.contains(e.slot()));
                            assert(old_seen.to_set().subset_of(self.nodes().dom())) by {
                                assert forall|x: u64| old_seen.to_set().contains(x) implies self.nodes().dom().contains(x) by {
                                    let i = choose|i: int| 0 <= i < old_seen.len() && old_seen[i] == x;
                                    assert(old_seen[i] == subtree@[i].slot());
                                }
                            }
                            let grown = old_seen.push(e.slot());
                            assert(grown.to_set().subset_of(self.nodes().dom())) by {
                                assert forall|x: u64| grown.to_set().contains(x) implies self.nodes().dom().contains(x) by {
                                    let i = choose|i: int| 0 <= i < grown.len() && grown[i] == x;
                                    if i < old_seen.len() {
                                        assert(old_seen[i] == x);
                                        assert(old_seen.to_set().contains(x));
                                    }
                                }
                            }
                            assert(grown.no_duplicates()) by {
                                assert forall|i: int, j: int| 0 <= i < grown.len() && 0 <= j < grown.len() && i != j implies grown[i] != grown[j] by {
                                    if i < old_seen.len() && j < old_seen.len() {
                                        assert(grown[i] == old_seen[i]);
                                        assert(grown[j] == old_seen[j]);
                                    } else if i < old_seen.len() {
                                        assert(grown[i] == old_seen[i]);
                                        assert(old_seen.contains(grown[i]));
                                    } else if j < old_seen.len() {
                                        assert(grown[j] == old_seen[j]);
                                        assert(old_seen.contains(grown[j]));
                                    }
                                }
                            }
                            grown.unique_seq_to_set();
                            vstd::set_lib::lemma_len_subset(grown.to_set(), self.nodes().dom());
                        }
                        let ghost old_subtree = subtree@;
                        let ghost old_seen2 = seen@;
                        proof {
                            use_type_invariant(&e);
                        }
                        subtree.push(e);
                        seen.push(e.key());
                        assert forall|i: int, c: DynElement|
                            0 <= i < subtree@.len() && #[trigger] self.child_list(subtree@[i]).contains(c) && self.live(c)
                            implies seen@.contains(c.slot()) || pending@.contains(c) by {
                            if i < old_subtree.len() {
                                assert(subtree@[i] == old_subtree[i]);
                                if old_seen2.contains(c.slot()) {
                                    let j = choose|j: int| 0 <= j < old_seen2.len() && old_seen2[j] == c.slot();
                                    assert(seen@[j] == c.slot());
                                } else if c == e {
                                    assert(seen@[old_seen2.len() as int] == c.slot());
                                } else {
                                    assert(before_pending.contains(c));
                                    assert(pending_mid.contains(c));
                                }
                            } else {
                                assert(subtree@[i] == e);
                                assert(children@.contains(c));
                            }
                        }
                        assert forall|h: DynElement| roots@.contains(h) && self.live(h)
                            implies seen@.contains(h.slot()) || pending@.contains(h) by {
                            if old_seen2.contains(h.slot()) {
                                let j = choose|j: int| 0 <= j < old_seen2.len() && old_seen2[j] == h.slot();
                                assert(seen@[j] == h.slot());
                            } else if h == e {
                                assert(seen@[old_seen2.len() as int] == h.slot());
                            } else {
                                assert(before_pending.contains(h));
                                assert(pending_mid.contains(h));
                            }
                        }
                    },
                }
            }
            assert(forall|i: int| 0 <= i < subtree@.len() ==> #[trigger] seen@[i] == subtree@[i].slot());
        }
        proof {
            assert forall|h: DynElement| self.in_subtree(roots@, h) implies
                exists|i: int| 0 <= i < subtree@.len() && #[trigger] subtree@[i].slot() == h.slot() by {
                let p = choose|p: Seq<DynElement>| #[trigger] self.is_child_path(p) && roots@.contains(p[0]) && p.last() == h;
                self.lemma_path_covered(roots@, seen@, subtree@, p, p.len() - 1);
                let i = choose|i: int| 0 <= i < seen@.len() && seen@[i] == h.slot();
                assert(subtree@[i].slot() == h.slot());
            }
            assert forall|i: int| 0 <= i < subtree@.len() implies self.in_subtree(roots@, #[trigger] subtree@[i]) by {
                let h = subtree@[i];
                assert(self.is_child_path(wit[h]));
            }
            assert forall|i: int, j: int| 0 <= i < j < subtree@.len() implies subtree@[i].slot() != subtree@[j].slot() by {
                assert(seen@[i] != seen@[j]);
            }
        }
        subtree
    }

    /// Whether slot `k` is the slot of an element of the subtrees rooted at
    /// `roots`.
    pub open spec fn subtree_slot(&self, roots: Seq<DynElement>, k: u64) -> bool {
        exists|h: DynElement| #[trigger] self.in_subtree(roots, h) && h.slot() == k
    }

    /// The internal ids of the elements held in the given slots.
    pub open spec fn ids_of(&self, slots: Set<u64>) -> Set<u64> {
        Set::new(|id: u64| exists|k: u64| #[trigger] slots.contains(k) && self.nodes().dom().contains(k) && self.nodes()[k].internal_id == id)
    }

    /// Deletes every child of `element` together with its subtree: the
    /// children list becomes empty, the elements of the subtrees leave the
    /// store and their internal ids leave `by_internal_id`. When `focus` is one
    /// of the deleted elements it is cleared and returned as `unfocused`.
    /// Nothing changes when `element` is not live.
    #[verifier::rlimit(40)]
    pub fn delete_all_children(
        &mut self,
        element: DynElement,
        focus: &mut Option<DynElement>,
        by_internal_id: &mut FxHashMap<u64, DynElement>,
    ) -> (r: DeletedSubtree)
        requires
            old(self).wf(),
        ensures
            final(self).wf(),
            final(self).spec_id() == old(self).spec_id(),
            !old(self).live(element) ==> {
                &&& final(self).nodes() == old(self).nodes()
                &&& r.elements@.len() == 0
                &&& r.unfocused is None
                &&& *final(focus) == *old(focus)
                &&& id_entries(*final(by_internal_id)) == id_entries(*old(by_internal_id))
            },
            old(self).live(element) ==> {
                let roots = old(self).child_list(element);
                &&& forall|i: int| 0 <= i < r.elements@.len() ==> old(self).in_subtree(roots, #[trigger] r.elements@[i])
                &&& forall|h: DynElement| old(self).in_subtree(roots, h)
                    ==> exists|i: int| 0 <= i < r.elements@.len() && #[trigger] r.elements@[i].slot() == h.slot()
                &&& forall|i: int, j: int| 0 <= i < j < r.elements@.len() ==> r.elements@[i].slot() != r.elements@[j].slot()
                &&& forall|k: u64| #[trigger] final(self).nodes().dom().contains(k)
                    <==> old(self).nodes().dom().contains(k) && !old(self).subtree_slot(roots, k)
                &&& forall|k: u64| #[trigger] final(self).nodes().dom().contains(k) && k != element.slot()
                    ==> final(self).nodes()[k] == old(self).nodes()[k]
                &&& (final(self).nodes().dom().contains(element.slot()) ==> {
                    &&& final(self).node(element).children@ == Seq::<DynElement>::empty()
                    &&& final(self).node(element).parent == old(self).node(element).parent
                    &&& final(self).node(element).window == old(self).node(element).window
                    &&& final(self).node(element).internal_id == old(self).node(element).internal_id
                })
                &&& id_entries(*final(by_internal_id)) == id_entries(*old(by_internal_id)).remove_keys(
                    old(self).ids_of(Set::new(|k: u64| old(self).subtree_slot(roots, k))))
                &&& match *old(focus) {
                    Some(f) if r.elements@.contains(f) => r.unfocused == Some(f) && *final(focus) is None,
                    _ => r.unfocused is None && *final(focus) == *old(focus),
                }
            },
    {
        if !self.contains(element) {
            return DeletedSubtree { elements: Vec::new(), unfocused: None };
        }
        let ghost start = *self;
        let ghost start_ids = id_entries(*by_internal_id);
        let roots = copy_handles(&self.get(element).children);
        let subtree = self.collect_subtree(&roots);
        self.set_children(element, Vec::new());
        let ghost mid = *self;
        let mut unfocused: Option<DynElement> = None;
        match *focus {
            Some(f) => {
                if contains_handle(&subtree, f) {
                    unfocused = Some(f);
                    *focus = None;
                }
            },
            None => {},
        }
        let ghost focus_after = *focus;
        let ghost unfocused_after = unfocused;
        proof {
            match *old(focus) {
                Some(f) => {
                    if subtree@.contains(f) {
                        assert(unfocused_after == Some(f) && focus_after is None);
                    } else {
                        assert(unfocused_after is None && focus_after == *old(focus));
                    }
                },
                None => {},
            }
        }
        let mut i: usize = subtree.len();
        while i > 0
            invariant
                self.wf(),
                *focus == focus_after,
                unfocused == unfocused_after,
                i <= subtree@.len(),
                self.spec_id() == start.spec_id(),
                forall|k: u64| #[trigger] self.nodes().dom().contains(k)
                    <==> mid.nodes().dom().contains(k) && !removed_slots(subtree@, i as int).contains(k),
                forall|k: u64| #[trigger] self.nodes().dom().contains(k) ==> self.nodes()[k] == mid.nodes()[k],
                forall|j: int| 0 <= j < subtree@.len() ==> mid.nodes().dom().contains(#[trigger] subtree@[j].slot()),
                forall|a: int, b: int| 0 <= a < b < subtree@.len() ==> subtree@[a].slot() != subtree@[b].slot(),
                id_entries(*by_internal_id) == start_ids.remove_keys(mid.ids_of(removed_slots(subtree@, i as int))),
            decreases i,
        {
            i = i - 1;
            let h = subtree[i];
            proof {
                use_type_invariant(&h);
            }
            let ghost prev = *self;
            let ghost prev_ids = id_entries(*by_internal_id);
            proof {
                assert(!removed_slots(subtree@, i + 1).contains(h.slot())) by {
                    if removed_slots(subtree@, i + 1).contains(h.slot()) {
                        let j = choose|j: int| i + 1 <= j < subtree@.len() && #[trigger] subtree@[j].slot() == h.slot();
                        assert(subtree@[i as int].slot() != subtree@[j].slot());
                    }
                }
                assert(removed_slots(subtree@, i as int) =~= removed_slots(subtree@, i + 1).insert(h.slot())) by {
                    assert forall|k: u64| removed_slots(subtree@, i as int).contains(k) implies
                        removed_slots(subtree@, i + 1).insert(h.slot()).contains(k) by {
                        let j = choose|j: int| i <= j < subtree@.len() && #[trigger] subtree@[j].slot() == k;
                        if j > i {
                            assert(removed_slots(subtree@, i + 1).contains(k));
                        }
                    }
                    assert forall|k: u64| removed_slots(subtree@, i + 1).insert(h.slot()).contains(k) implies
                        removed_slots(subtree@, i as int).contains(k) by {
                        if k == h.slot() {
                            assert(subtree@[i as int].slot() == k);
                        } else {
                            let j = choose|j: int| i + 1 <= j < subtree@.len() && #[trigger] subtree@[j].slot() == k;
                            assert(subtree@[j].slot() == k);
                        }
                    }
                }
                assert(prev.nodes().dom().contains(h.slot()));
            }
            let removed_node = slots_remove(&mut self.slots, h.key());
            let node = removed_node.unwrap();
            ids_remove(by_internal_id, node.internal_id);
            proof {
                let id = node.internal_id;
                let s_old = removed_slots(subtree@, i + 1);
                let s_new = removed_slots(subtree@, i as int);
                assert(node == mid.nodes()[h.slot()]);
                assert(mid.ids_of(s_new) =~= mid.ids_of(s_old).insert(id)) by {
                    assert forall|x: u64| mid.ids_of(s_new).contains(x) implies mid.ids_of(s_old).insert(id).contains(x) by {
                        let k = choose|k: u64| #[trigger] s_new.contains(k) && mid.nodes().dom().contains(k) && mid.nodes()[k].internal_id == x;
                        if k != h.slot() {
                            assert(s_old.contains(k));
                        }
                    }
                    assert forall|x: u64| mid.ids_of(s_old).insert(id).contains(x) implies mid.ids_of(s_new).contains(x) by {
                        if x == id {
                            assert(s_new.contains(h.slot()));
                        } else {
                            let k = choose|k: u64| #[trigger] s_old.contains(k) && mid.nodes().dom().contains(k) && mid.nodes()[k].internal_id == x;
                            assert(s_new.contains(k));
                        }
                    }
                }
                assert(id_entries(*by_internal_id) =~= start_ids.remove_keys(mid.ids_of(s_new)));
            }
        }
        proof {
            let roots_s = start.child_list(element);
            let all = removed_slots(subtree@, 0);
            assert(all =~= Set::new(|k: u64| start.subtree_slot(roots_s, k))) by {
                assert forall|k: u64| all.contains(k) implies start.subtree_slot(roots_s, k) by {
                    let j = choose|j: int| 0 <= j < subtree@.len() && #[trigger] subtree@[j].slot() == k;
                    assert(start.in_subtree(roots_s, subtree@[j]));
                }
                assert forall|k: u64| start.subtree_slot(roots_s, k) implies all.contains(k) by {
                    let h = choose|h: DynElement| #[trigger] start.in_subtree(roots_s, h) && h.slot() == k;
                    let j = choose|j: int| 0 <= j < subtree@.len() && #[trigger] subtree@[j].slot() == h.slot();
                    assert(subtree@[j].slot() == k);
                }
            }
            assert(mid.ids_of(all) =~= start.ids_of(all)) by {
                assert forall|x: u64| mid.ids_of(all).contains(x) implies start.ids_of(all).contains(x) by {
                    let k = choose|k: u64| #[trigger] all.contains(k) && mid.nodes().dom().contains(k) && mid.nodes()[k].internal_id == x;
                    assert(start.nodes().dom().contains(k));
                }
                assert forall|x: u64| start.ids_of(all).contains(x) implies mid.ids_of(all).contains(x) by {
                    let k = choose|k: u64| #[trigger] all.contains(k) && start.nodes().dom().contains(k) && start.nodes()[k].internal_id == x;
                    assert(mid.nodes().dom().contains(k));
                }
            }
            assert(roots@ == roots_s);
            assert(forall|k: u64| #[trigger] self.nodes().dom().contains(k)
                    <==> start.nodes().dom().contains(k) && !start.subtree_slot(roots_s, k));
            assert(forall|k: u64| #[trigger] self.nodes().dom().contains(k) && k != element.slot()
                    ==> self.nodes()[k] == start.nodes()[k]);
            assert(id_entries(*by_internal_id) == start_ids.remove_keys(
                    start.ids_of(Set::new(|k: u64| start.subtree_slot(roots_s, k)))));
            if self.nodes().dom().contains(element.slot()) {
                assert(self.node(element) == mid.node(element));
                assert(mid.node(element).children@ == Seq::<DynElement>::empty());
            }
            assert(forall|i: int, j: int| 0 <= i < j < subtree@.len() ==> subtree@[i].slot() != subtree@[j].slot());
            assert(match *old(focus) {
                    Some(f) if subtree@.contains(f) => unfocused == Some(f) && *focus is None,
                    _ => unfocused is None && *focus == *old(focus),
                });
        }
        let r = DeletedSubtree { elements: subtree, unfocused };
        assert forall|h: DynElement| start.in_subtree(start.child_list(element), h)
            implies exists|i: int| 0 <= i < r.elements@.len() && #[trigger] r.elements@[i].slot() == h.slot() by {
            let i = choose|i: int| 0 <= i < subtree@.len() && #[trigger] subtree@[i].slot() == h.slot();
            assert(r.elements@[i].slot() == h.slot());
        }
        r
    }
}

/// The slots of the elements of `s` from index `i` on.
pub open spec fn removed_slots(s: Seq<DynElement>, i: int) -> Set<u64> {
    Set::new(|k: u64| exists|j: int| i <= j < s.len() && #[trigger] s[j].slot() == k)
}

/// What deleting the children of an element took away.
pub struct DeletedSubtree {
    /// The deleted elements, each once.
    pub elements: Vec<DynElement>,
    /// The focused element, when it was among the deleted ones.
    pub unfocused: Option<DynElement>,
}

/// Two tree nodes are alike: the same children, parent, window and id.
pub open spec fn same_node(a: TreeNode, b: TreeNode) -> bool {
    &&& a.children@ == b.children@
    &&& a.parent == b.parent
    &&& a.window == b.window
    &&& a.internal_id == b.internal_id
}

/// What adding new children to `parent` leaves unchanged: the store and
/// every element in it, but for the children of `parent`.
pub open spec fn keeps_all_but(before: RetainedElements, after: RetainedElements, parent: DynElement) -> bool {
    &&& after.wf()
    &&& after.spec_id() == before.spec_id()
    &&& before.nodes().dom().subset_of(after.nodes().dom())
    &&& forall|k: u64|
        #![trigger after.nodes()[k]]
        before.nodes().dom().contains(k) ==> {
            &&& (k != parent.slot() ==> after.nodes()[k].children@ == before.nodes()[k].children@)
            &&& after.nodes()[k].parent == before.nodes()[k].parent
            &&& after.nodes()[k].window == before.nodes()[k].window
            &&& after.nodes()[k].internal_id == before.nodes()[k].internal_id
        }
}

/// Every element of `before` is still in `after`, alike.
pub open spec fn keeps_all(before: RetainedElements, after: RetainedElements) -> bool {
    &&& before.nodes().dom().subset_of(after.nodes().dom())
    &&& forall|k: u64|
        #![trigger after.nodes()[k]]
        before.nodes().dom().contains(k) ==> same_node(after.nodes()[k], before.nodes()[k])
}

/// Adding children to an element that `s0` did not hold leaves the elements
/// of `s0` alike.
pub proof fn lemma_keeps_all_step(s0: RetainedElements, b: RetainedElements, c: RetainedElements, p: DynElement)
    requires
        keeps_all(s0, b),
        keeps_all_but(b, c, p),
        !s0.nodes().dom().contains(p.slot()),
    ensures
        keeps_all(s0, c),
{
    assert forall|k: u64| #![trigger c.nodes()[k]] s0.nodes().dom().contains(k) implies same_node(c.nodes()[k], s0.nodes()[k]) by {
        let bk = b.nodes()[k];
        assert(b.nodes().dom().contains(k));
        assert(k != p.slot());
    }
}

/// None of `hs` is held in `s0`.
pub open spec fn all_new(s0: RetainedElements, hs: Seq<DynElement>) -> bool {
    forall|i: int| 0 <= i < hs.len() ==> !s0.nodes().dom().contains(#[trigger] hs[i].slot())
}

/// An element without children is alone in its subtree.
pub proof fn lemma_leaf_subtree(e: RetainedElements, child: DynElement, k: u64)
    requires
        e.child_list(child) == Seq::<DynElement>::empty(),
        k != child.slot(),
    ensures
        !e.subtree_slot(seq![child], k),
{
    if e.subtree_slot(seq![child], k) {
        let h = choose|h: DynElement| #[trigger] e.in_subtree(seq![child], h) && h.slot() == k;
        let p = choose|p: Seq<DynElement>| #[trigger] e.is_child_path(p) && seq![child].contains(p[0]) && p.last() == h;
        assert(p[0] == child);
        if p.len() > 1 {
            assert(e.live(p[0]) && e.child_list(p[0]).contains(p[1]));
        }
    }
}

/// `hs` are new elements: not in `before`, live in `after`, without
/// children, children of `parent`, and all different.
pub open spec fn fresh_children(
    before: RetainedElements,
    after: RetainedElements,
    parent: DynElement,
    hs: Seq<DynElement>,
) -> bool {
    &&& forall|i: int|
        0 <= i < hs.len() ==> {
            &&& !before.nodes().dom().contains(#[trigger] hs[i].slot())
            &&& after.live(hs[i])
            &&& after.child_list(hs[i]) == Seq::<DynElement>::empty()
            &&& after.parent_of(hs[i]) == Some(parent)
            &&& after.node(hs[i]).window == after.node(parent).window
        }
    &&& forall|i: int, j: int| 0 <= i < j < hs.len() ==> hs[i].slot() != hs[j].slot()
}

/// A live element lies in its own subtree.
pub proof fn lemma_self_in_subtree(e: RetainedElements, c: DynElement)
    requires
        e.live(c),
    ensures
        e.subtree_slot(seq![c], c.slot()),
{
    let p = seq![c];
    assert(e.is_child_path(p));
    assert(seq![c].contains(p[0]));
    assert(e.reaches(seq![c], c));
    assert(e.in_subtree(seq![c], c));
}

/// Adds `n` new elements at the end of the children of `parent`, each with
/// the next id of `ids`.
pub(crate) fn add_new_children(
    elements: &mut RetainedElements,
    by_internal_id: &mut FxHashMap<u64, DynElement>,
    ids: &mut IdCounter,
    parent: DynElement,
    n: usize,
) -> (r: Vec<DynElement>)
    requires
        old(elements).wf(),
        old(elements).live(parent),
        old(elements).nodes().len() + n < 0xffff_fffeu64,
    ensures
        keeps_all_but(*old(elements), *final(elements), parent),
        final(elements).nodes().len() == old(elements).nodes().len() + n,
        r@.len() == n,
        final(elements).child_list(parent) == old(elements).child_list(parent) + r@,
        fresh_children(*old(elements), *final(elements), parent, r@),
{
    let ghost before = *elements;
    let mut items: Vec<DynElement> = Vec::new();
    let mut i: usize = 0;
    while i < n
        invariant
            i <= n,
            before.wf(),
            before.live(parent),
            before.nodes().len() + n < 0xffff_fffeu64,
            keeps_all_but(before, *elements, parent),
            elements.live(parent),
            elements.nodes().len() == before.nodes().len() + i,
            items@.len() == i,
            elements.child_list(parent) == before.child_list(parent) + items@,
            fresh_children(before, *elements, parent, items@),
        decreases n - i,
    {
        let id = create_unique_element_id(ids);
        let ghost pre = *elements;
        let item = elements.insert(id, by_internal_id);
        let ghost mid = *elements;
        assert(item.slot() != parent.slot());
        elements.push_child(parent, item);
        proof {
            assert(mid.live(item));
            assert forall|j: int| 0 <= j < i implies items@[j].slot() != item.slot() by {
                assert(pre.nodes().dom().contains(items@[j].slot()));
            }
            assert(elements.child_list(parent) =~= before.child_list(parent) + items@.push(item));
            assert forall|k: u64| #![trigger elements.nodes()[k]] before.nodes().dom().contains(k) implies {
                &&& (k != parent.slot() ==> elements.nodes()[k].children@ == before.nodes()[k].children@)
                &&& elements.nodes()[k].parent == before.nodes()[k].parent
                &&& elements.nodes()[k].window == before.nodes()[k].window
                &&& elements.nodes()[k].internal_id == before.nodes()[k].internal_id
            } by {
                assert(pre.nodes().dom().contains(k));
                assert(k != item.slot());
                assert(mid.nodes()[k] == pre.nodes()[k]);
                lemma_leaf_subtree(mid, item, k);
            }
            let hs = items@.push(item);
            lemma_leaf_subtree(mid, item, parent.slot());
            lemma_self_in_subtree(mid, item);
            assert(elements.node(parent).window == mid.node(parent).window);
            assert forall|j: int| 0 <= j < hs.len() implies {
                &&& !before.nodes().dom().contains(#[trigger] hs[j].slot())
                &&& elements.live(hs[j])
                &&& elements.child_list(hs[j]) == Seq::<DynElement>::empty()
                &&& elements.parent_of(hs[j]) == Some(parent)
                &&& elements.node(hs[j]).window == elements.node(parent).window
            } by {
                if j < i {
                    assert(hs[j] == items@[j]);
                    assert(pre.nodes().dom().contains(hs[j].slot()));
                    assert(hs[j].slot() != parent.slot());
                    assert(mid.nodes()[hs[j].slot()] == pre.nodes()[hs[j].slot()]);
                    lemma_leaf_subtree(mid, item, hs[j].slot());
                } else {
                    assert(hs[j] == item);
                }
            }
        }
        items.push(item);
        i = i + 1;
    }
    proof {
        assert(items@ =~= items@);
    }
    items
}

/// `x` is live in `e` with exactly the children `kids`, each with `x` as its
/// parent and in the window of `x`.
pub open spec fn settled(e: RetainedElements, x: DynElement, kids: Seq<DynElement>) -> bool {
    &&& e.live(x)
    &&& e.child_list(x) == kids
    &&& forall|i: int|
        0 <= i < kids.len() ==> e.parent_of(#[trigger] kids[i]) == Some(x) && e.node(kids[i]).window == e.node(x).window
}

pub proof fn lemma_settled_kept(b: RetainedElements, c: RetainedElements, p: DynElement, x: DynElement, kids: Seq<DynElement>)
    requires
        keeps_all_but(b, c, p),
        settled(b, x, kids),
        x.slot() != p.slot(),
    ensures
        settled(c, x, kids),
{
    assert(c.nodes()[x.slot()].children@ == b.nodes()[x.slot()].children@);
    assert forall|i: int| 0 <= i < kids.len() implies c.parent_of(#[trigger] kids[i]) == Some(x) && c.node(kids[i]).window
        == c.node(x).window by {
        assert(b.parent_of(kids[i]) == Some(x));
        assert(b.nodes().dom().contains(kids[i].slot()));
        let ck = c.nodes()[kids[i].slot()];
        let cx = c.nodes()[x.slot()];
    }
}

/// Every element down to `n` levels below `s` is live in `a`.
pub open spec fn live_subtree(a: RetainedElements, s: DynElement, n: nat) -> bool
    decreases n,
{
    &&& a.live(s)
    &&& n > 0 ==> forall|i: int|
        0 <= i < a.child_list(s).len() ==> live_subtree(a, #[trigger] a.child_list(s)[i], (n - 1) as nat)
}

/// The elements of `c` that `b` did not hold.
pub open spec fn new_slots(b: RetainedElements, c: RetainedElements) -> Set<u64> {
    Set::new(|k: u64| c.nodes().dom().contains(k) && !b.nodes().dom().contains(k))
}

/// `d` in `b` is a copy of `s` in `a`, `n` levels down: a live element among
/// `new`, with as many children as `s` (none at the last level), each a copy
/// of the child of `s` at its place, with `d` as its parent.
pub open spec fn copies(a: RetainedElements, b: RetainedElements, s: DynElement, d: DynElement, n: nat, new: Set<u64>) -> bool
    decreases n,
{
    &&& b.live(d)
    &&& new.contains(d.slot())
    &&& if n == 0 {
        b.child_list(d).len() == 0
    } else {
        &&& b.child_list(d).len() == a.child_list(s).len()
        &&& forall|i: int|
            #![trigger b.child_list(d)[i]]
            0 <= i < a.child_list(s).len() ==> {
                &&& copies(a, b, a.child_list(s)[i], b.child_list(d)[i], (n - 1) as nat, new)
                &&& b.parent_of(b.child_list(d)[i]) == Some(d)
            }
    }
}

/// The number of elements a copy of `s`, `n` levels down, has.
pub open spec fn clone_count(a: RetainedElements, s: DynElement, n: nat) -> nat
    decreases n, 0int, 0int,
{
    if n == 0 {
        1
    } else {
        1 + clone_count_list(a, a.child_list(s), (n - 1) as nat)
    }
}

/// The number of elements the copies of `hs`, `n` levels down, have.
pub open spec fn clone_count_list(a: RetainedElements, hs: Seq<DynElement>, n: nat) -> nat
    decreases n, 1int, hs.len(),
{
    if hs.len() == 0 {
        0
    } else {
        clone_count_list(a, hs.drop_last(), n) + clone_count(a, hs.last(), n)
    }
}

proof fn lemma_count_prefix(a: RetainedElements, hs: Seq<DynElement>, n: nat, i: int)
    requires
        0 <= i <= hs.len(),
    ensures
        clone_count_list(a, hs.take(i), n) <= clone_count_list(a, hs, n),
    decreases hs.len(),
{
    if i < hs.len() {
        assert(hs.drop_last().take(i) =~= hs.take(i));
        lemma_count_prefix(a, hs.drop_last(), n, i);
    } else {
        assert(hs.take(i) =~= hs);
    }
}

proof fn lemma_keeps_all_trans(x: RetainedElements, y: RetainedElements, z: RetainedElements)
    requires
        keeps_all(x, y),
        keeps_all(y, z),
    ensures
        keeps_all(x, z),
{
    assert forall|k: u64| #![trigger z.nodes()[k]] x.nodes().dom().contains(k) implies same_node(z.nodes()[k], x.nodes()[k]) by {
        let yk = y.nodes()[k];
        assert(y.nodes().dom().contains(k));
    }
}

/// The elements of `b` among `new` are in `c`, alike.
pub open spec fn alike_on(b: RetainedElements, c: RetainedElements, new: Set<u64>) -> bool {
    forall|k: u64|
        #![trigger c.nodes()[k]]
        new.contains(k) && b.nodes().dom().contains(k) ==> c.nodes().dom().contains(k) && same_node(c.nodes()[k], b.nodes()[k])
}

/// A copy stays a copy while its elements stay alike.
proof fn lemma_copies_kept(a: RetainedElements, b: RetainedElements, c: RetainedElements, s: DynElement, d: DynElement, n: nat, new: Set<u64>)
    requires
        copies(a, b, s, d, n, new),
        c.spec_id() == b.spec_id(),
        alike_on(b, c, new),
    ensures
        copies(a, c, s, d, n, new),
    decreases n,
{
    let cd = c.nodes()[d.slot()];
    assert(c.child_list(d) == b.child_list(d));
    if n > 0 {
        assert forall|i: int| #![trigger c.child_list(d)[i]] 0 <= i < a.child_list(s).len() implies {
            &&& copies(a, c, a.child_list(s)[i], c.child_list(d)[i], (n - 1) as nat, new)
            &&& c.parent_of(c.child_list(d)[i]) == Some(d)
        } by {
            let e = b.child_list(d)[i];
            assert(copies(a, b, a.child_list(s)[i], e, (n - 1) as nat, new));
            let ce = c.nodes()[e.slot()];
            lemma_copies_kept(a, b, c, a.child_list(s)[i], e, (n - 1) as nat, new);
        }
    }
}

/// A copy among fewer new elements is one among more.
proof fn lemma_copies_grow(a: RetainedElements, b: RetainedElements, s: DynElement, d: DynElement, n: nat, new1: Set<u64>, new2: Set<u64>)
    requires
        copies(a, b, s, d, n, new1),
        new1.subset_of(new2),
    ensures
        copies(a, b, s, d, n, new2),
    decreases n,
{
    if n > 0 {
        assert forall|i: int| #![trigger b.child_list(d)[i]] 0 <= i < a.child_list(s).len() implies {
            &&& copies(a, b, a.child_list(s)[i], b.child_list(d)[i], (n - 1) as nat, new2)
            &&& b.parent_of(b.child_list(d)[i]) == Some(d)
        } by {
            lemma_copies_grow(a, b, a.child_list(s)[i], b.child_list(d)[i], (n - 1) as nat, new1, new2);
        }
    }
}

impl RetainedElements {
    fn clone_rec(
        &mut self,
        by_internal_id: &mut FxHashMap<u64, DynElement>,
        ids: &mut IdCounter,
        source: DynElement,
        parent: Option<DynElement>,
        depth: usize,
        Ghost(a): Ghost<RetainedElements>,
    ) -> (r: DynElement)
        requires
            old(self).wf(),
            keeps_all(a, *old(self)),
            old(self).spec_id() == a.spec_id(),
            live_subtree(a, source, depth as nat),
            parent matches Some(p) ==> old(self).live(p),
            old(self).nodes().len() + clone_count(a, source, depth as nat) < 0xffff_fffeu64,
        ensures
            final(self).wf(),
            final(self).spec_id() == old(self).spec_id(),
            keeps_all(*old(self), *final(self)),
            final(self).nodes().len() == old(self).nodes().len() + clone_count(a, source, depth as nat),
            final(self).parent_of(r) == parent,
            copies(a, *final(self), source, r, depth as nat, new_slots(*old(self), *final(self))),
        decreases depth,
    {
        let ghost s0 = *self;
        let kids = self.children(source);
        proof {
            let an = a.nodes()[source.slot()];
            assert(s0.nodes().dom().contains(source.slot()));
            assert(kids@ == a.child_list(source));
        }
        let id = create_unique_element_id(ids);
        let r = self.insert(id, by_internal_id);
        if let Some(p) = parent {
            self.set_parent(r, Some(p));
        }
        let ghost s1 = *self;
        proof {
            assert forall|k: u64| #![trigger s1.nodes()[k]] s0.nodes().dom().contains(k) implies same_node(s1.nodes()[k], s0.nodes()[k]) by {
                assert(k != r.slot());
            }
            assert(keeps_all(s0, s1));
            lemma_keeps_all_trans(a, s0, s1);
        }
        if depth == 0 {
            proof {
                assert(new_slots(s0, s1).contains(r.slot()));
            }
            return r;
        }
        let mut clones: Vec<DynElement> = Vec::new();
        let mut i: usize = 0;
        while i < kids.len()
            invariant
                0 < depth,
                i <= kids@.len(),
                kids@ == a.child_list(source),
                live_subtree(a, source, depth as nat),
                s1.wf(),
                s1.spec_id() == a.spec_id(),
                self.wf(),
                self.spec_id() == a.spec_id(),
                keeps_all(a, s1),
                keeps_all(s1, *self),
                s1.live(r),
                !s0.nodes().dom().contains(r.slot()),
                s1.nodes().len() == s0.nodes().len() + 1,
                self.nodes().len() == s1.nodes().len() + clone_count_list(a, kids@.take(i as int), (depth - 1) as nat),
                s0.nodes().len() + clone_count(a, source, depth as nat) < 0xffff_fffeu64,
                clones@.len() == i,
                forall|j: int|
                    #![trigger clones@[j]]
                    0 <= j < i ==> {
                        &&& copies(a, *self, kids@[j], clones@[j], (depth - 1) as nat, new_slots(s1, *self))
                        &&& self.parent_of(clones@[j]) == Some(r)
                    },
            decreases kids@.len() - i,
        {
            let ghost mid = *self;
            proof {
                assert(kids@.take(i + 1).drop_last() =~= kids@.take(i as int));
                lemma_count_prefix(a, kids@, (depth - 1) as nat, i + 1);
                assert(live_subtree(a, kids@[i as int], (depth - 1) as nat));
                lemma_keeps_all_trans(a, s1, mid);
                let rn = mid.nodes()[r.slot()];
                assert(s1.nodes().dom().contains(r.slot()));
                assert(mid.nodes().dom().contains(r.slot()));
                assert(mid.live(r));
            }
            let c = self.clone_rec(by_internal_id, ids, kids[i], Some(r), depth - 1, Ghost(a));
            proof {
                lemma_keeps_all_trans(s1, mid, *self);
                assert forall|j: int| #![trigger clones@.push(c)[j]] 0 <= j < i + 1 implies {
                    &&& copies(a, *self, kids@[j], clones@.push(c)[j], (depth - 1) as nat, new_slots(s1, *self))
                    &&& self.parent_of(clones@.push(c)[j]) == Some(r)
                } by {
                    if j < i {
                        assert(clones@.push(c)[j] == clones@[j]);
                        assert(copies(a, mid, kids@[j], clones@[j], (depth - 1) as nat, new_slots(s1, mid)));
                        lemma_copies_kept(a, mid, *self, kids@[j], clones@[j], (depth - 1) as nat, new_slots(s1, mid));
                        lemma_copies_grow(a, *self, kids@[j], clones@[j], (depth - 1) as nat, new_slots(s1, mid), new_slots(s1, *self));
                        let cn = self.nodes()[clones@[j].slot()];
                        assert(mid.nodes().dom().contains(clones@[j].slot()));
                    } else {
                        lemma_copies_grow(a, *self, kids@[j], c, (depth - 1) as nat, new_slots(mid, *self), new_slots(s1, *self));
                    }
                }
            }
            clones.push(c);
            i = i + 1;
        }
        let ghost l = *self;
        proof {
            assert(kids@.take(kids@.len() as int) =~= kids@);
            let rn = l.nodes()[r.slot()];
            assert(s1.nodes().dom().contains(r.slot()));
        }
        let ghost cl = clones@;
        self.set_children(r, clones);
        proof {
            assert forall|k: u64| #![trigger self.nodes()[k]] s0.nodes().dom().contains(k) implies same_node(self.nodes()[k], s0.nodes()[k]) by {
                let lk = l.nodes()[k];
                let s1k = s1.nodes()[k];
                assert(k != r.slot());
            }
            assert(keeps_all(s0, *self));
            let newc = new_slots(s1, l);
            let newf = new_slots(s0, *self);
            assert(newc.subset_of(newf));
            assert forall|j: int| #![trigger self.child_list(r)[j]] 0 <= j < a.child_list(source).len() implies {
                &&& copies(a, *self, a.child_list(source)[j], self.child_list(r)[j], (depth - 1) as nat, newf)
                &&& self.parent_of(self.child_list(r)[j]) == Some(r)
            } by {
                assert(self.child_list(r)[j] == cl[j]);
                assert(copies(a, l, kids@[j], cl[j], (depth - 1) as nat, newc));
                assert forall|k: u64| #![trigger self.nodes()[k]] newc.contains(k) && l.nodes().dom().contains(k) implies self.nodes().dom().contains(k)
                    && same_node(self.nodes()[k], l.nodes()[k]) by {
                    assert(k != r.slot());
                }
                lemma_copies_kept(a, l, *self, kids@[j], cl[j], (depth - 1) as nat, newc);
                lemma_copies_grow(a, *self, kids@[j], cl[j], (depth - 1) as nat, newc, newf);
                assert(cl[j].slot() != r.slot());
            }
            assert(newf.contains(r.slot()));
        }
        r
    }

    /// Copies the subtree of `source`: a new element for each element of it,
    /// each with a new id and the copies of its children, in order; the copy
    /// of `source` has no parent, and the elements already in the store are
    /// left alike. The subtree is followed as deep as the store has elements,
    /// which covers every subtree of a tree. Returns the copy of `source`.
    pub fn clone_subtree(
        &mut self,
        by_internal_id: &mut FxHashMap<u64, DynElement>,
        ids: &mut IdCounter,
        source: DynElement,
    ) -> (r: DynElement)
        requires
            old(self).wf(),
            live_subtree(*old(self), source, old(self).nodes().len()),
            old(self).nodes().len() + clone_count(*old(self), source, old(self).nodes().len()) < 0xffff_fffeu64,
        ensures
            final(self).wf(),
            final(self).spec_id() == old(self).spec_id(),
            keeps_all(*old(self), *final(self)),
            final(self).nodes().len() == old(self).nodes().len() + clone_count(*old(self), source, old(self).nodes().len()),
            final(self).parent_of(r) is None,
            copies(*old(self), *final(self), source, r, old(self).nodes().len(), new_slots(*old(self), *final(self))),
    {
        let ghost a = *self;
        let depth = self.len();
        proof {
            assert forall|k: u64| #![trigger a.nodes()[k]] a.nodes().dom().contains(k) implies same_node(a.nodes()[k], a.nodes()[k]) by {}
        }
        self.clone_rec(by_internal_id, ids, source, None, depth, Ghost(a))
    }
}

} // verus!
