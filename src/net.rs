//! The graph store: arenas of ports and cells, the wire map, and the
//! primitive mutations that keep them consistent.

use crate::arena::{
    cell_slot, cell_slot_keys, cell_slots, insert_cell_slot, insert_port_slot, new_cell_slab,
    new_port_slab, port_slot, port_slots, remove_cell_slot, remove_port_slot, replace_port_slot,
};
use slab::Slab;
use std::collections::HashMap;
use vstd::prelude::*;

verus! {

broadcast use vstd::std_specs::hash::group_hash_axioms;

/// Handle of a port in a net.
#[derive(PartialEq, Eq, Structural, Hash, Clone, Copy, Debug)]
pub struct PortKey(pub usize);

/// Handle of a cell in a net.
#[derive(PartialEq, Eq, Structural, Hash, Clone, Copy, Debug)]
pub struct CellKey(pub usize);

/// Interaction combinator: a primary port and, by kind, two auxiliary ports.
#[derive(PartialEq, Eq, Structural, Clone, Copy, Debug)]
pub struct Cell {
    pub primary: PortKey,
    pub cell_type: CellType,
}

/// Kinds of interaction combinators.
#[derive(PartialEq, Eq, Structural, Clone, Copy, Debug)]
pub enum CellType {
    /// Eraser
    Era,
    /// Constructor, with its left and right auxiliary ports
    Con(PortKey, PortKey),
    /// Duplicator, with its left and right auxiliary ports
    Dup(PortKey, PortKey),
}

/// A port is free or belongs to a cell. Ports are joined to each other by
/// wires.
#[derive(PartialEq, Eq, Structural, Clone, Copy, Debug)]
pub struct Port {
    pub cell: Option<CellKey>,
}

impl Port {
    /// Key of the owning cell, for a port that has one.
    pub open spec fn owner(self) -> usize {
        match self.cell {
            Some(k) => k.0,
            None => 0,
        }
    }
}

/// Misuse of the net's interface.
#[derive(PartialEq, Eq, Structural, Clone, Copy, Debug)]
pub enum NetError {
    /// The port still belongs to a cell or is still wired.
    InvalidPortRemoval(PortKey),
    /// A port cannot be wired to itself.
    SelfLoop(PortKey),
}

impl NetError {
    /// A short description of the misuse.
    pub fn message(&self) -> (m: &'static str)
        ensures
            self is InvalidPortRemoval ==> m@ == "can only remove unconnected free ports"@,
            self is SelfLoop ==> m@ == "cannot connect port to itself"@,
    {
        proof {
            reveal_strlit("can only remove unconnected free ports");
            reveal_strlit("cannot connect port to itself");
        }
        match self {
            NetError::InvalidPortRemoval(_) => "can only remove unconnected free ports",
            NetError::SelfLoop(_) => "cannot connect port to itself",
        }
    }
}

impl Cell {
    /// Whether `p` is one of the cell's ports.
    pub open spec fn has_port(self, p: usize) -> bool {
        self.primary.0 == p || match self.cell_type {
            CellType::Era => false,
            CellType::Con(l, r) => l.0 == p || r.0 == p,
            CellType::Dup(l, r) => l.0 == p || r.0 == p,
        }
    }

    /// Whether the cell's ports are pairwise distinct.
    pub open spec fn distinct_ports(self) -> bool {
        match self.cell_type {
            CellType::Era => true,
            CellType::Con(l, r) => self.primary != l && self.primary != r && l != r,
            CellType::Dup(l, r) => self.primary != l && self.primary != r && l != r,
        }
    }
}

/// Mathematical model of a net: live ports and cells by key, and the wire
/// map from each wired port to its partner.
pub struct NetView {
    pub ports: Map<usize, Port>,
    pub cells: Map<usize, Cell>,
    pub wires: Map<usize, usize>,
}

/// `ports` with each port of `cell` given the owner `owner`.
pub open spec fn set_owner(ports: Map<usize, Port>, cell: Cell, owner: Option<CellKey>) -> Map<
    usize,
    Port,
> {
    let ports = ports.insert(cell.primary.0, Port { cell: owner });
    match cell.cell_type {
        CellType::Era => ports,
        CellType::Con(l, r) => ports.insert(l.0, Port { cell: owner }).insert(r.0, Port { cell: owner }),
        CellType::Dup(l, r) => ports.insert(l.0, Port { cell: owner }).insert(r.0, Port { cell: owner }),
    }
}

/// `w` with a wire between `p` and `q` added.
pub open spec fn wire_join(w: Map<usize, usize>, p: usize, q: usize) -> Map<usize, usize> {
    w.insert(p, q).insert(q, p)
}

/// `w` without the wire between `p` and `q`, if there is one.
pub open spec fn wire_cut(w: Map<usize, usize>, p: usize, q: usize) -> Map<usize, usize> {
    if w.contains_key(p) && w[p] == q {
        w.remove(p).remove(q)
    } else {
        w
    }
}

impl NetView {
    /// The invariants of a net: owners and cells agree on which ports each
    /// cell has, a cell's ports are distinct, and wires join live ports in
    /// symmetric pairs without self-loops.
    pub open spec fn wf(self) -> bool {
        &&& self.ports.dom().finite()
        &&& self.cells.dom().finite()
        &&& self.wires.dom().finite()
        &&& forall|c: usize| #[trigger]
            self.cells.contains_key(c) ==> self.cells[c].distinct_ports()
        &&& forall|c: usize, p: usize|
            self.cells.contains_key(c) && #[trigger] self.cells[c].has_port(p) ==> {
                &&& self.ports.contains_key(p)
                &&& self.ports[p].cell == Some(CellKey(c))
            }
        &&& forall|p: usize| #[trigger]
            self.ports.contains_key(p) && self.ports[p].cell is Some ==> {
                &&& self.cells.contains_key(self.ports[p].owner())
                &&& self.cells[self.ports[p].owner()].has_port(p)
            }
        &&& forall|p: usize| #[trigger]
            self.wires.contains_key(p) ==> {
                &&& self.ports.contains_key(p)
                &&& self.wires[p] != p
                &&& self.wires.contains_key(self.wires[p])
                &&& self.wires[self.wires[p]] == p
            }
    }

    /// Whether `p` is a live port with no owner and no wire.
    pub open spec fn is_free_port(self, p: usize) -> bool {
        self.ports.contains_key(p) && self.ports[p].cell is None && !self.wires.contains_key(p)
    }

    /// Whether `p` and `q` are wired to each other.
    pub open spec fn connected(self, p: usize, q: usize) -> bool {
        self.wires.contains_key(p) && self.wires[p] == q
    }
}

/// Interaction net: the ports, the cells that own them, and the wires
/// between ports.
pub struct InteractionNet {
    ports: Slab<Port>,
    cells: Slab<Cell>,
    wires: HashMap<usize, usize>,
}

impl View for InteractionNet {
    type V = NetView;

    closed spec fn view(&self) -> NetView {
        NetView { ports: port_slots(self.ports), cells: cell_slots(self.cells), wires: self.wires@ }
    }
}

impl InteractionNet {
    /// An empty net.
    pub fn new() -> (net: Self)
        ensures
            net@.wf(),
            net@.ports.is_empty(),
            net@.cells.is_empty(),
            net@.wires.is_empty(),
    {
        let net = InteractionNet {
            ports: new_port_slab(),
            cells: new_cell_slab(),
            wires: HashMap::new(),
        };
        assert(net@.ports =~= Map::empty());
        assert(net@.cells =~= Map::empty());
        net
    }

    /// Allocates a free port: no owner and no wire.
    pub fn create_port(&mut self) -> (p: PortKey)
        requires
            old(self)@.wf(),
        ensures
            final(self)@.wf(),
            !old(self)@.ports.contains_key(p.0),
            final(self)@.ports == old(self)@.ports.insert(p.0, Port { cell: None }),
            final(self)@.cells == old(self)@.cells,
            final(self)@.wires == old(self)@.wires,
    {
        let k = insert_port_slot(&mut self.ports, Port { cell: None });
        assert(self@.cells == old(self)@.cells);
        assert(self@.wires == old(self)@.wires);
        PortKey(k)
    }

    /// Releases a port that has no owner and no wire; any other port is
    /// refused with `InvalidPortRemoval` and the net is left as it was.
    pub fn remove_port(&mut self, p: PortKey) -> (r: Result<(), NetError>)
        requires
            old(self)@.wf(),
            old(self)@.ports.contains_key(p.0),
        ensures
            final(self)@.wf(),
            old(self)@.is_free_port(p.0) ==> r is Ok && final(self)@ == (NetView {
                ports: old(self)@.ports.remove(p.0),
                ..old(self)@
            }),
            !old(self)@.is_free_port(p.0) ==> r == Err::<(), NetError>(
                NetError::InvalidPortRemoval(p),
            ) && final(self)@ == old(self)@,
    {
        let port = *port_slot(&self.ports, p.0);
        if port.cell.is_some() || self.wires.contains_key(&p.0) {
            return Err(NetError::InvalidPortRemoval(p));
        }
        let _ = remove_port_slot(&mut self.ports, p.0);
        assert(self@.cells == old(self)@.cells);
        assert(self@.wires == old(self)@.wires);
        Ok(())
    }

    /// Wires two distinct unwired ports to each other; a port and itself are
    /// refused with `SelfLoop` and the net is left as it was.
    pub fn connect_ports(&mut self, p1: PortKey, p2: PortKey) -> (r: Result<(), NetError>)
        requires
            old(self)@.wf(),
            old(self)@.ports.contains_key(p1.0),
            old(self)@.ports.contains_key(p2.0),
            !old(self)@.wires.contains_key(p1.0),
            !old(self)@.wires.contains_key(p2.0),
        ensures
            final(self)@.wf(),
            p1 != p2 ==> r is Ok && final(self)@ == (NetView {
                wires: wire_join(old(self)@.wires, p1.0, p2.0),
                ..old(self)@
            }),
            p1 == p2 ==> r == Err::<(), NetError>(NetError::SelfLoop(p1)) && final(self)@ == old(
                self,
            )@,
    {
        if p1 == p2 {
            return Err(NetError::SelfLoop(p1));
        }
        self.wires.insert(p1.0, p2.0);
        self.wires.insert(p2.0, p1.0);
        assert(self@.cells == old(self)@.cells);
        assert(self@.ports == old(self)@.ports);
        Ok(())
    }

    /// Removes the wire between `p1` and `p2` if there is one; otherwise
    /// does nothing.
    pub fn disconnect_ports(&mut self, p1: PortKey, p2: PortKey)
        requires
            old(self)@.wf(),
        ensures
            final(self)@.wf(),
            final(self)@ == (NetView { wires: wire_cut(old(self)@.wires, p1.0, p2.0), ..old(self)@ }),
    {
        match self.wires.get(&p1.0) {
            Some(q) => {
                if *q == p2.0 {
                    self.wires.remove(&p1.0);
                    self.wires.remove(&p2.0);
                }
                assert(self@.cells == old(self)@.cells);
                assert(self@.ports == old(self)@.ports);
            },
            None => {},
        }
    }

    /// The port under `p`.
    pub fn get_port(&self, p: PortKey) -> (port: &Port)
        requires
            self@.ports.contains_key(p.0),
        ensures
            *port == self@.ports[p.0],
    {
        port_slot(&self.ports, p.0)
    }

    /// Whether `p1` and `p2` are wired to each other.
    pub fn ports_connected(&self, p1: PortKey, p2: PortKey) -> (b: bool)
        ensures
            b == self@.connected(p1.0, p2.0),
    {
        match self.wires.get(&p1.0) {
            Some(q) => *q == p2.0,
            None => false,
        }
    }

    /// The port wired to `p`, if any.
    pub fn wire_partner(&self, p: PortKey) -> (q: Option<PortKey>)
        ensures
            self@.wires.contains_key(p.0) ==> q == Some(PortKey(self@.wires[p.0])),
            !self@.wires.contains_key(p.0) ==> q is None,
    {
        match self.wires.get(&p.0) {
            Some(q) => Some(PortKey(*q)),
            None => None,
        }
    }

    /// Adds `cell` to the net and makes it the owner of its ports, which must
    /// be live, distinct and free of any owner.
    pub fn insert_cell(&mut self, cell: Cell) -> (c: CellKey)
        requires
            old(self)@.wf(),
            cell.distinct_ports(),
            forall|p: usize| #[trigger]
                cell.has_port(p) ==> old(self)@.ports.contains_key(p) && old(self)@.ports[p].cell is None,
        ensures
            final(self)@.wf(),
            !old(self)@.cells.contains_key(c.0),
            final(self)@.cells == old(self)@.cells.insert(c.0, cell),
            final(self)@.ports == set_owner(old(self)@.ports, cell, Some(c)),
            final(self)@.wires == old(self)@.wires,
    {
        let k = insert_cell_slot(&mut self.cells, cell);
        let ghost cells1 = self@.cells;
        let owned = Port { cell: Some(CellKey(k)) };
        assert(cell.has_port(cell.primary.0));
        replace_port_slot(&mut self.ports, cell.primary.0, owned);
        match cell.cell_type {
            CellType::Con(l, r) | CellType::Dup(l, r) => {
                assert(cell.has_port(l.0) && cell.has_port(r.0));
                replace_port_slot(&mut self.ports, l.0, owned);
                replace_port_slot(&mut self.ports, r.0, owned);
            },
            CellType::Era => {},
        }
        assert(self@.wires == old(self)@.wires);
        assert(self@.cells == cells1);
        assert(self@.ports =~= set_owner(old(self)@.ports, cell, Some(CellKey(k))));
        assert forall|c: usize| #[trigger] self@.cells.contains_key(c) implies self@.cells[c].distinct_ports() by {
            if c != k {
                assert(old(self)@.cells.contains_key(c));
            }
        }
        assert forall|c: usize, p: usize|
            self@.cells.contains_key(c) && #[trigger] self@.cells[c].has_port(p) implies {
                &&& self@.ports.contains_key(p)
                &&& self@.ports[p].cell == Some(CellKey(c))
            } by {
            if c != k {
                assert(old(self)@.cells[c].has_port(p));
                assert(!cell.has_port(p));
            }
        }
        CellKey(k)
    }

    /// Takes `c` out of the net; its ports stay live and wired as they were,
    /// with no owner.
    pub fn remove_cell(&mut self, c: CellKey)
        requires
            old(self)@.wf(),
            old(self)@.cells.contains_key(c.0),
        ensures
            final(self)@.wf(),
            final(self)@.cells == old(self)@.cells.remove(c.0),
            final(self)@.ports == set_owner(old(self)@.ports, old(self)@.cells[c.0], None),
            final(self)@.wires == old(self)@.wires,
    {
        let cell = remove_cell_slot(&mut self.cells, c.0);
        let ghost cells1 = self@.cells;
        let free = Port { cell: None };
        assert(cell.has_port(cell.primary.0));
        replace_port_slot(&mut self.ports, cell.primary.0, free);
        match cell.cell_type {
            CellType::Con(l, r) | CellType::Dup(l, r) => {
                assert(cell.has_port(l.0) && cell.has_port(r.0));
                replace_port_slot(&mut self.ports, l.0, free);
                replace_port_slot(&mut self.ports, r.0, free);
            },
            CellType::Era => {},
        }
        assert(self@.wires == old(self)@.wires);
        assert(self@.cells == cells1);
        assert(self@.ports =~= set_owner(old(self)@.ports, cell, None));
        assert forall|d: usize, p: usize|
            self@.cells.contains_key(d) && #[trigger] self@.cells[d].has_port(p) implies {
                &&& self@.ports.contains_key(p)
                &&& self@.ports[p].cell == Some(CellKey(d))
            } by {
            assert(old(self)@.cells[d].has_port(p));
            if cell.has_port(p) {
                assert(old(self)@.ports[p].cell == Some(CellKey(c.0)));
            }
        }
    }

    /// The cell under `c`.
    pub fn get_cell(&self, c: CellKey) -> (cell: &Cell)
        requires
            self@.cells.contains_key(c.0),
        ensures
            *cell == self@.cells[c.0],
    {
        cell_slot(&self.cells, c.0)
    }

    /// Every cell of the net with its key, in increasing key order.
    pub fn get_cells(&self) -> (cells: Vec<(CellKey, Cell)>)
        ensures
            forall|i: int, j: int| 0 <= i < j < cells@.len() ==> cells@[i].0.0 < cells@[j].0.0,
            forall|i: int|
                0 <= i < cells@.len() ==> self@.cells.contains_key(#[trigger] cells@[i].0.0)
                    && self@.cells[cells@[i].0.0] == cells@[i].1,
            forall|c: usize| self@.cells.contains_key(c) ==> exists|i: int|
                0 <= i < cells@.len() && #[trigger] cells@[i].0.0 == c,
    {
        let keys = cell_slot_keys(&self.cells);
        let mut cells: Vec<(CellKey, Cell)> = Vec::new();
        let mut i: usize = 0;
        while i < keys.len()
            invariant
                i <= keys@.len(),
                cells@.len() == i,
                forall|j: int| 0 <= j < i ==> (#[trigger] cells@[j]).0.0 == keys@[j],
                forall|j: int| 0 <= j < i ==> self@.cells[keys@[j]] == (#[trigger] cells@[j]).1,
                forall|a: int, b: int| 0 <= a < b < keys@.len() ==> keys@[a] < keys@[b],
                forall|j: int| 0 <= j < keys@.len() ==> self@.cells.contains_key(#[trigger] keys@[j]),
            decreases keys@.len() - i,
        {
            let cell = *cell_slot(&self.cells, keys[i]);
            cells.push((CellKey(keys[i]), cell));
            i = i + 1;
        }
        assert forall|c: usize| self@.cells.contains_key(c) implies exists|i: int|
            0 <= i < cells@.len() && #[trigger] cells@[i].0.0 == c by {
            assert(keys@.contains(c));
            let j = choose|j: int| 0 <= j < keys@.len() && keys@[j] == c;
            assert(cells@[j].0.0 == c);
        }
        cells
    }
}

/// Wiring two unwired ports and then cutting that wire gives back the wire
/// map that was there before.
pub proof fn lemma_join_then_cut(w: Map<usize, usize>, p: usize, q: usize)
    requires
        p != q,
        !w.contains_key(p),
        !w.contains_key(q),
    ensures
        wire_cut(wire_join(w, p, q), p, q) == w,
{
    assert(wire_cut(wire_join(w, p, q), p, q) =~= w);
}

/// Allocating a port and then releasing it gives back the live ports that
/// were there before.
pub proof fn lemma_create_then_remove_port(ports: Map<usize, Port>, p: usize)
    requires
        !ports.contains_key(p),
    ensures
        ports.insert(p, Port { cell: None }).remove(p) == ports,
{
    assert(ports.insert(p, Port { cell: None }).remove(p) =~= ports);
}

impl Default for InteractionNet {
    fn default() -> (net: Self)
        ensures
            net@.wf(),
            net@.ports.is_empty(),
            net@.cells.is_empty(),
            net@.wires.is_empty(),
    {
        Self::new()
    }
}

} // verus!
