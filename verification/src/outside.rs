//! The calls that the library makes into `slotmap` and into `std::cell`, each
//! with the contract that the rest of the library relies on.
use crate::nodes::ASTNode;
use crate::types::{DataType, Symbol};
use slotmap::{DefaultKey, Key, KeyData, SlotMap};
use std::cell::RefCell;
use std::rc::Rc;
use vstd::prelude::*;

verus! {

/// An arena of nodes: it holds a `slotmap::SlotMap<DefaultKey, ASTNode>` in a
/// private field (Verus does not take a declaration of `SlotMap`, whose key
/// bound is a trait of `slotmap`).
#[verifier::external_body]
pub struct NodeArena {
    slots: SlotMap<DefaultKey, ASTNode>,
}

/// `std::cell::RefCell`, through which nodes share a symbol.
#[verifier::external_type_specification]
#[verifier::external_body]
#[verifier::reject_recursive_types(T)]
pub struct ExRefCell<T: ?Sized>(std::cell::RefCell<T>);

/// What an arena holds: each live key, written as the 64-bit value that
/// `KeyData::as_ffi` gives for it, mapped to the node stored under it.
pub uninterp spec fn arena_contents(arena: NodeArena) -> Map<u64, ASTNode>;

/// The largest number of nodes an arena can hold: `SlotMap::insert` panics
/// once it has no free slot and `u32::MAX` slots (one of them a sentinel).
pub open spec fn arena_limit() -> nat {
    4294967294
}

/// Whether a 64-bit value has the form of a live key: the version, in the
/// upper half, is odd (`SlotMap` keeps even versions for vacant slots).
pub open spec fn occupied_form(id: u64) -> bool {
    (id / 4294967296) % 2 == 1
}

/// Calls `SlotMap::with_key`, which makes an arena with no slots in use.
#[verifier::external_body]
pub(crate) fn arena_new() -> (arena: NodeArena)
    ensures
        arena_contents(arena) =~= Map::empty(),
{
    NodeArena { slots: SlotMap::with_key() }
}

/// Calls `SlotMap::insert`. The key it hands back belongs to no value the arena
/// held before (a fresh slot, or a vacant one whose version is bumped), and the
/// arena then maps it to `node`; every other entry stays. `KeyData::as_ffi`
/// turns the key into a `u64`, which `KeyData::from_ffi` turns back into it;
/// the version of an occupied slot is odd.
#[verifier::external_body]
pub(crate) fn arena_insert(m: &mut NodeArena, node: ASTNode) -> (id: u64)
    requires
        arena_contents(*old(m)).dom().finite(),
        arena_contents(*old(m)).dom().len() < arena_limit(),
    ensures
        occupied_form(id),
        !arena_contents(*old(m)).contains_key(id),
        arena_contents(*final(m)) == arena_contents(*old(m)).insert(id, node),
{
    m.slots.insert(node).data().as_ffi()
}

/// Calls `Index::index` of `SlotMap`, which hands out the node stored under a
/// live key (and panics on a key that is not live, which `requires` rules out).
#[verifier::external_body]
pub(crate) fn arena_get(m: &NodeArena, id: u64) -> (r: &ASTNode)
    requires
        arena_contents(*m).contains_key(id),
    ensures
        *r == arena_contents(*m)[id],
{
    let key: DefaultKey = KeyData::from_ffi(id).into();
    &m.slots[key]
}

/// Calls `SlotMap::get`. For a value with an odd version, `KeyData::from_ffi`
/// gives back the key whose `as_ffi` it is, so the arena holds a node for it
/// exactly when the value is one of its keys, and then hands out that node.
#[verifier::external_body]
pub(crate) fn arena_lookup(m: &NodeArena, id: u64) -> (r: Option<&ASTNode>)
    requires
        occupied_form(id),
    ensures
        r.is_some() == arena_contents(*m).contains_key(id),
        r.is_some() ==> *r.unwrap() == arena_contents(*m)[id],
{
    let key: DefaultKey = KeyData::from_ffi(id).into();
    m.slots.get(key)
}

/// Calls `IndexMut::index_mut` of `SlotMap`: a mutable reference to the node
/// stored under a live key; what is written through it is what the arena then
/// holds under that key.
#[verifier::external_body]
pub(crate) fn arena_get_mut(m: &mut NodeArena, id: u64) -> (r: &mut ASTNode)
    requires
        arena_contents(*old(m)).contains_key(id),
    ensures
        *r == arena_contents(*old(m))[id],
        arena_contents(*final(m)) == arena_contents(*old(m)).insert(id, *final(r)),
{
    let key: DefaultKey = KeyData::from_ffi(id).into();
    &mut m.slots[key]
}

/// Calls `RefCell::borrow` and reads the symbol's type. What it reads depends
/// on what was last written into the shared cell, so nothing is stated of it.
/// (`borrow` panics while a mutable borrow of the cell is alive; the library
/// never keeps one past a call.)
#[verifier::external_body]
pub(crate) fn symbol_cell_type(cell: &Rc<RefCell<Symbol>>) -> DataType {
    cell.borrow().data_type
}

/// Calls `RefCell::borrow_mut` and writes the symbol's type. The cell is
/// shared, so the write is seen through every node that holds it; no clause
/// states that, since the cell's contents are not modelled.
#[verifier::external_body]
pub(crate) fn symbol_cell_set_type(cell: &Rc<RefCell<Symbol>>, data_type: DataType) {
    cell.borrow_mut().data_type = data_type;
}

} // verus!
