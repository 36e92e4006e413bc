//! The slab arenas that hold a net's ports and cells.

use crate::net::{Cell, Port};
use slab::Slab;
use vstd::prelude::*;

verus! {

#[verifier::external_type_specification]
#[verifier::external_body]
#[verifier::reject_recursive_types(T)]
pub struct ExSlab<T>(Slab<T>);

/// The occupied entries of a slab of ports, by key.
pub uninterp spec fn port_slots(s: Slab<Port>) -> Map<usize, Port>;

/// The occupied entries of a slab of cells, by key.
pub uninterp spec fn cell_slots(s: Slab<Cell>) -> Map<usize, Cell>;

/// Relies on `Slab::new`: a new slab has no occupied entry.
#[verifier::external_body]
pub(crate) fn new_port_slab() -> (slab: Slab<Port>)
    ensures
        port_slots(slab).dom().is_empty(),
{
    Slab::new()
}

/// Relies on `Slab::insert`: the value is stored under a key that was vacant,
/// and that key is returned; no other entry changes.
#[verifier::external_body]
pub(crate) fn insert_port_slot(s: &mut Slab<Port>, v: Port) -> (k: usize)
    ensures
        !port_slots(*old(s)).contains_key(k),
        port_slots(*final(s)) == port_slots(*old(s)).insert(k, v),
{
    s.insert(v)
}

/// Relies on `Slab::remove`: the entry under an occupied key is taken out and
/// returned (it panics on a vacant key, which `requires` excludes).
#[verifier::external_body]
pub(crate) fn remove_port_slot(s: &mut Slab<Port>, k: usize) -> (v: Port)
    requires
        port_slots(*old(s)).contains_key(k),
    ensures
        v == port_slots(*old(s))[k],
        port_slots(*final(s)) == port_slots(*old(s)).remove(k),
{
    s.remove(k)
}

/// Relies on `Index<usize> for Slab`: the entry under an occupied key (it
/// panics on a vacant key, which `requires` excludes).
#[verifier::external_body]
pub(crate) fn port_slot(s: &Slab<Port>, k: usize) -> (v: &Port)
    requires
        port_slots(*s).contains_key(k),
    ensures
        *v == port_slots(*s)[k],
{
    &s[k]
}

/// Relies on `IndexMut<usize> for Slab`: the entry under an occupied key is
/// overwritten; no other entry changes.
#[verifier::external_body]
pub(crate) fn replace_port_slot(s: &mut Slab<Port>, k: usize, v: Port)
    requires
        port_slots(*old(s)).contains_key(k),
    ensures
        port_slots(*final(s)) == port_slots(*old(s)).insert(k, v),
{
    s[k] = v;
}

/// Relies on `Slab::new`: a new slab has no occupied entry.
#[verifier::external_body]
pub(crate) fn new_cell_slab() -> (slab: Slab<Cell>)
    ensures
        cell_slots(slab).dom().is_empty(),
{
    Slab::new()
}

/// Relies on `Slab::insert`: the value is stored under a key that was vacant,
/// and that key is returned; no other entry changes.
#[verifier::external_body]
pub(crate) fn insert_cell_slot(s: &mut Slab<Cell>, v: Cell) -> (k: usize)
    ensures
        !cell_slots(*old(s)).contains_key(k),
        cell_slots(*final(s)) == cell_slots(*old(s)).insert(k, v),
{
    s.insert(v)
}

/// Relies on `Slab::remove`: the entry under an occupied key is taken out and
/// returned (it panics on a vacant key, which `requires` excludes).
#[verifier::external_body]
pub(crate) fn remove_cell_slot(s: &mut Slab<Cell>, k: usize) -> (v: Cell)
    requires
        cell_slots(*old(s)).contains_key(k),
    ensures
        v == cell_slots(*old(s))[k],
        cell_slots(*final(s)) == cell_slots(*old(s)).remove(k),
{
    s.remove(k)
}

/// Relies on `Index<usize> for Slab`: the entry under an occupied key (it
/// panics on a vacant key, which `requires` excludes).
#[verifier::external_body]
pub(crate) fn cell_slot(s: &Slab<Cell>, k: usize) -> (v: &Cell)
    requires
        cell_slots(*s).contains_key(k),
    ensures
        *v == cell_slots(*s)[k],
{
    &s[k]
}

/// Relies on `Slab::iter`: it walks the entries in slot order and yields each
/// occupied one once, so the keys come out strictly increasing and cover
/// every occupied key.
#[verifier::external_body]
pub(crate) fn cell_slot_keys(s: &Slab<Cell>) -> (keys: Vec<usize>)
    ensures
        forall|i: int, j: int| 0 <= i < j < keys@.len() ==> keys@[i] < keys@[j],
        forall|i: int| 0 <= i < keys@.len() ==> cell_slots(*s).contains_key(#[trigger] keys@[i]),
        forall|k: usize| cell_slots(*s).contains_key(k) ==> keys@.contains(k),
{
    s.iter().map(|(k, _)| k).collect()
}

} // verus!
