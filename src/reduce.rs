//! The reduction engine: active pairs, the six rewrite rules, and
//! normalization.
//!
//! Auxiliary ports keep their identity through a rewrite. Where a rule wires
//! a port that is already wired, it cuts that wire first, so that every port
//! keeps at most one wire.

use crate::net::{
    set_owner, wire_cut, wire_join, Cell, CellKey, CellType, InteractionNet, NetView, Port, PortKey,
};
use vstd::prelude::*;

verus! {

/// `w` without the wire at `a`, if `a` is wired.
pub open spec fn unwire(w: Map<usize, usize>, a: usize) -> Map<usize, usize> {
    if w.contains_key(a) {
        wire_cut(w, a, w[a])
    } else {
        w
    }
}

/// `w` with any wire at `a` or `b` cut and a wire between `a` and `b`
/// added.
pub open spec fn rewire(w: Map<usize, usize>, a: usize, b: usize) -> Map<usize, usize> {
    wire_join(unwire(unwire(w, a), b), a, b)
}

impl NetView {
    /// Whether cells `c1` and `c2` form an active pair: two distinct live
    /// cells whose primary ports are wired to each other.
    pub open spec fn active(self, c1: usize, c2: usize) -> bool {
        &&& self.cells.contains_key(c1)
        &&& self.cells.contains_key(c2)
        &&& c1 != c2
        &&& self.connected(self.cells[c1].primary.0, self.cells[c2].primary.0)
    }

    /// Whether cell `c` forms an active pair with some cell.
    pub open spec fn has_partner(self, c: usize) -> bool {
        exists|d: usize| #[trigger] self.active(c, d)
    }

    /// Whether the net has no active pair.
    pub open spec fn is_normal(self) -> bool {
        forall|c: usize| !#[trigger] self.has_partner(c)
    }
}

/// What remains of `o` once the active pair `c1`, `c2` is taken out: the
/// wire between the primaries cut, both cells removed (their auxiliary
/// ports left free of an owner), and both primary ports released.
pub open spec fn without_pair(o: NetView, c1: usize, c2: usize) -> NetView {
    let cell1 = o.cells[c1];
    let cell2 = o.cells[c2];
    NetView {
        ports: set_owner(set_owner(o.ports, cell1, None), cell2, None).remove(
            cell1.primary.0,
        ).remove(cell2.primary.0),
        cells: o.cells.remove(c1).remove(c2),
        wires: wire_cut(o.wires, cell1.primary.0, cell2.primary.0),
    }
}

/// `n` is `b` with an eraser cell `e` added on a fresh primary port `q`,
/// wired to `target` in place of any wire that either had.
pub open spec fn eraser_added(b: NetView, n: NetView, target: usize, e: usize, q: usize) -> bool {
    &&& !b.ports.contains_key(q)
    &&& !b.cells.contains_key(e)
    &&& n.ports == b.ports.insert(q, Port { cell: Some(CellKey(e)) })
    &&& n.cells == b.cells.insert(e, Cell { primary: PortKey(q), cell_type: CellType::Era })
    &&& n.wires == rewire(b.wires, q, target)
}

/// Erasure propagation on the remains `b`: two fresh erasers, one wired to
/// each former auxiliary port `l` and `r`.
pub open spec fn erased(b: NetView, n: NetView, l: usize, r: usize) -> bool {
    exists|m: NetView, e1: usize, q1: usize, e2: usize, q2: usize|
        #[trigger] eraser_added(b, m, l, e1, q1) && #[trigger] eraser_added(m, n, r, e2, q2)
}

/// Annihilation of two constructors or two duplicators on the remains `b`:
/// the left auxiliary ports wired together, and the right ones.
pub open spec fn annihilated(b: NetView, n: NetView, l1: usize, r1: usize, l2: usize, r2: usize) -> bool {
    &&& n.ports == b.ports
    &&& n.cells == b.cells
    &&& n.wires == rewire(rewire(b.wires, l1, l2), r1, r2)
}

/// Keys of the four cells and eight auxiliary ports that the commutation
/// rule allocates.
pub struct DiamondKeys {
    pub upper_dup: usize,
    pub upper_con: usize,
    pub lower_dup: usize,
    pub lower_con: usize,
    pub a: usize,
    pub b: usize,
    pub c: usize,
    pub d: usize,
    pub e: usize,
    pub f: usize,
    pub g: usize,
    pub h: usize,
}

/// Commutation on the remains `b` with the allocations `k`: the
/// constructor's auxiliary ports `lc`, `rc` become the primaries of two
/// duplicators, the duplicator's `ld`, `rd` the primaries of two
/// constructors, and the four new cells are wired in a diamond.
pub open spec fn diamond(
    b: NetView,
    n: NetView,
    lc: usize,
    rc: usize,
    ld: usize,
    rd: usize,
    k: DiamondKeys,
) -> bool {
    let upper_dup = Cell { primary: PortKey(lc), cell_type: CellType::Dup(PortKey(k.a), PortKey(k.b)) };
    let upper_con = Cell { primary: PortKey(rd), cell_type: CellType::Con(PortKey(k.c), PortKey(k.d)) };
    let lower_dup = Cell { primary: PortKey(rc), cell_type: CellType::Dup(PortKey(k.e), PortKey(k.f)) };
    let lower_con = Cell { primary: PortKey(ld), cell_type: CellType::Con(PortKey(k.g), PortKey(k.h)) };
    let fresh = seq![k.a, k.b, k.c, k.d, k.e, k.f, k.g, k.h];
    let new_cells = seq![k.upper_dup, k.upper_con, k.lower_dup, k.lower_con];
    &&& fresh.no_duplicates()
    &&& forall|i: int| 0 <= i < 8 ==> !b.ports.contains_key(#[trigger] fresh[i])
    &&& new_cells.no_duplicates()
    &&& forall|i: int| 0 <= i < 4 ==> !b.cells.contains_key(#[trigger] new_cells[i])
    &&& n.cells == b.cells.insert(k.upper_dup, upper_dup).insert(k.upper_con, upper_con).insert(
        k.lower_dup,
        lower_dup,
    ).insert(k.lower_con, lower_con)
    &&& n.ports == set_owner(
        set_owner(
            set_owner(
                set_owner(b.ports, upper_dup, Some(CellKey(k.upper_dup))),
                upper_con,
                Some(CellKey(k.upper_con)),
            ),
            lower_dup,
            Some(CellKey(k.lower_dup)),
        ),
        lower_con,
        Some(CellKey(k.lower_con)),
    )
    &&& n.wires == wire_join(
        wire_join(wire_join(wire_join(b.wires, k.b, k.c), k.a, k.g), k.f, k.d),
        k.e,
        k.h,
    )
}

/// Commutation of a constructor with auxiliary ports `lc`, `rc` and a
/// duplicator with auxiliary ports `ld`, `rd`, on the remains `b`.
pub open spec fn commuted(b: NetView, n: NetView, lc: usize, rc: usize, ld: usize, rd: usize) -> bool {
    exists|k: DiamondKeys| #[trigger] diamond(b, n, lc, rc, ld, rd, k)
}

/// The rewrite of the active pair `c1`, `c2` of `o`, as chosen by the kinds
/// of the two cells, gives `n`.
pub open spec fn rewritten(o: NetView, n: NetView, c1: usize, c2: usize) -> bool {
    let b = without_pair(o, c1, c2);
    match (o.cells[c1].cell_type, o.cells[c2].cell_type) {
        (CellType::Era, CellType::Era) => n == b,
        (CellType::Era, CellType::Con(l, r)) => erased(b, n, l.0, r.0),
        (CellType::Era, CellType::Dup(l, r)) => erased(b, n, l.0, r.0),
        (CellType::Con(l, r), CellType::Era) => erased(b, n, l.0, r.0),
        (CellType::Dup(l, r), CellType::Era) => erased(b, n, l.0, r.0),
        (CellType::Con(l1, r1), CellType::Con(l2, r2)) => annihilated(b, n, l1.0, r1.0, l2.0, r2.0),
        (CellType::Dup(l1, r1), CellType::Dup(l2, r2)) => annihilated(b, n, l1.0, r1.0, l2.0, r2.0),
        (CellType::Con(lc, rc), CellType::Dup(ld, rd)) => commuted(b, n, lc.0, rc.0, ld.0, rd.0),
        (CellType::Dup(ld, rd), CellType::Con(lc, rc)) => commuted(b, n, lc.0, rc.0, ld.0, rd.0),
    }
}

/// `n` is `o` after one rewrite of the active pair that the scan picks: the
/// one whose first cell has the least key.
pub open spec fn first_step(o: NetView, n: NetView) -> bool {
    exists|c1: usize, c2: usize|
        {
            &&& o.active(c1, c2)
            &&& forall|c: usize| c < c1 ==> !#[trigger] o.has_partner(c)
            &&& #[trigger] rewritten(o, n, c1, c2)
        }
}

/// Each state of `trace` is the one before it after one rewrite of the
/// active pair that the scan picks.
pub open spec fn is_run(trace: Seq<NetView>) -> bool {
    forall|i: int| 0 <= i < trace.len() - 1 ==> #[trigger] first_step(trace[i], trace[i + 1])
}

/// `n` is reached from `o` by `k` rewrites, each of the active pair that the
/// scan picks.
pub open spec fn reduces(o: NetView, n: NetView, k: nat) -> bool {
    exists|trace: Seq<NetView>|
        {
            &&& trace.len() == k + 1
            &&& trace[0] == o
            &&& trace[k as int] == n
            &&& #[trigger] is_run(trace)
        }
}

/// Every net reaches itself by zero rewrites.
proof fn lemma_reduces_none(o: NetView)
    ensures
        reduces(o, o, 0),
{
    let trace = seq![o];
    assert(is_run(trace));
}

/// A run of `k` rewrites followed by one more is a run of `k + 1`.
proof fn lemma_reduces_then_step(o: NetView, m: NetView, n: NetView, k: nat)
    requires
        reduces(o, m, k),
        first_step(m, n),
    ensures
        reduces(o, n, k + 1),
{
    let trace = choose|trace: Seq<NetView>|
        {
            &&& trace.len() == k + 1
            &&& trace[0] == o
            &&& trace[k as int] == m
            &&& #[trigger] is_run(trace)
        };
    let longer = trace.push(n);
    assert forall|i: int| 0 <= i < longer.len() - 1 implies #[trigger] first_step(longer[i], longer[i + 1]) by {
        if i < k {
            assert(first_step(trace[i], trace[i + 1]));
        }
    }
    assert(is_run(longer));
    assert(longer[(k + 1) as int] == n);
}

/// In a well-formed net no port belongs to two distinct cells.
proof fn lemma_cells_share_no_port(v: NetView, c1: usize, c2: usize, p: usize)
    requires
        v.wf(),
        v.cells.contains_key(c1),
        v.cells.contains_key(c2),
        c1 != c2,
    ensures
        !(v.cells[c1].has_port(p) && v.cells[c2].has_port(p)),
{
}

/// A cell that forms an active pair with `d` has its primary port wired to a
/// port that `d` owns.
proof fn lemma_partner_owner(v: NetView, c: usize)
    requires
        v.wf(),
    ensures
        forall|d: usize| #[trigger]
            v.active(c, d) ==> {
                &&& v.wires.contains_key(v.cells[c].primary.0)
                &&& v.ports.contains_key(v.wires[v.cells[c].primary.0])
                &&& v.ports[v.wires[v.cells[c].primary.0]].cell == Some(CellKey(d))
            },
{
    assert forall|d: usize| #[trigger] v.active(c, d) implies v.ports[v.wires[v.cells[c].primary.0]].cell
        == Some(CellKey(d)) by {
        assert(v.cells[d].has_port(v.cells[d].primary.0));
    }
}

impl InteractionNet {
    /// Wires `a` to `b`, first cutting any wire that either had.
    fn rewire(&mut self, a: PortKey, b: PortKey)
        requires
            old(self)@.wf(),
            old(self)@.ports.contains_key(a.0),
            old(self)@.ports.contains_key(b.0),
            a != b,
        ensures
            final(self)@.wf(),
            final(self)@.ports == old(self)@.ports,
            final(self)@.cells == old(self)@.cells,
            final(self)@.wires == rewire(old(self)@.wires, a.0, b.0),
    {
        match self.wire_partner(a) {
            Some(x) => self.disconnect_ports(a, x),
            None => {},
        }
        match self.wire_partner(b) {
            Some(y) => self.disconnect_ports(b, y),
            None => {},
        }
        let _ = self.connect_ports(a, b);
    }

    /// Adds an eraser on a fresh primary port wired to `target`.
    fn attach_eraser(&mut self, target: PortKey)
        requires
            old(self)@.wf(),
            old(self)@.ports.contains_key(target.0),
        ensures
            final(self)@.wf(),
            exists|e: usize, q: usize| eraser_added(old(self)@, final(self)@, target.0, e, q),
    {
        let q = self.create_port();
        self.rewire(q, target);
        let e = self.insert_cell(Cell { primary: q, cell_type: CellType::Era });
        assert(self@.ports =~= old(self)@.ports.insert(q.0, Port { cell: Some(e) }));
        assert(eraser_added(old(self)@, self@, target.0, e.0, q.0));
    }

    /// Erasure propagation once the pair is gone: an eraser for each of the
    /// former auxiliary ports `l` and `r`.
    fn erase_aux(&mut self, l: PortKey, r: PortKey)
        requires
            old(self)@.wf(),
            old(self)@.ports.contains_key(l.0),
            old(self)@.ports.contains_key(r.0),
        ensures
            final(self)@.wf(),
            erased(old(self)@, final(self)@, l.0, r.0),
    {
        self.attach_eraser(l);
        let ghost m = self@;
        self.attach_eraser(r);
        assert(m.ports.contains_key(r.0)) by {
            let (e, q) = choose|e: usize, q: usize| eraser_added(old(self)@, m, l.0, e, q);
        }
    }

    /// Annihilation once the pair is gone: `l1` wired to `l2` and `r1` to
    /// `r2`.
    fn annihilate_aux(&mut self, l1: PortKey, r1: PortKey, l2: PortKey, r2: PortKey)
        requires
            old(self)@.wf(),
            old(self)@.ports.contains_key(l1.0),
            old(self)@.ports.contains_key(r1.0),
            old(self)@.ports.contains_key(l2.0),
            old(self)@.ports.contains_key(r2.0),
            l1 != l2,
            r1 != r2,
        ensures
            final(self)@.wf(),
            annihilated(old(self)@, final(self)@, l1.0, r1.0, l2.0, r2.0),
    {
        self.rewire(l1, l2);
        self.rewire(r1, r2);
    }

    /// Commutation once the pair is gone: four new cells on the former
    /// auxiliary ports, wired in a diamond.
    fn commute_aux(&mut self, lc: PortKey, rc: PortKey, ld: PortKey, rd: PortKey)
        requires
            old(self)@.wf(),
            old(self)@.ports.contains_key(lc.0) && old(self)@.ports[lc.0].cell is None,
            old(self)@.ports.contains_key(rc.0) && old(self)@.ports[rc.0].cell is None,
            old(self)@.ports.contains_key(ld.0) && old(self)@.ports[ld.0].cell is None,
            old(self)@.ports.contains_key(rd.0) && old(self)@.ports[rd.0].cell is None,
            seq![lc, rc, ld, rd].no_duplicates(),
        ensures
            final(self)@.wf(),
            commuted(old(self)@, final(self)@, lc.0, rc.0, ld.0, rd.0),
    {
        let ghost b = self@;
        let pa = self.create_port();
        let pb = self.create_port();
        let pc = self.create_port();
        let pd = self.create_port();
        let pe = self.create_port();
        let pf = self.create_port();
        let pg = self.create_port();
        let ph = self.create_port();
        let ghost fresh = seq![pa.0, pb.0, pc.0, pd.0, pe.0, pf.0, pg.0, ph.0];
        assert(fresh.no_duplicates());
        assert(forall|i: int| 0 <= i < 8 ==> !b.ports.contains_key(#[trigger] fresh[i]));
        assert(forall|i: int| 0 <= i < 8 ==> !self@.wires.contains_key(#[trigger] fresh[i]));
        assert(seq![lc, rc, ld, rd][0] == lc);
        assert(seq![lc, rc, ld, rd][1] == rc);
        assert(seq![lc, rc, ld, rd][2] == ld);
        assert(seq![lc, rc, ld, rd][3] == rd);
        let ud = self.insert_cell(Cell { primary: lc, cell_type: CellType::Dup(pa, pb) });
        let uc = self.insert_cell(Cell { primary: rd, cell_type: CellType::Con(pc, pd) });
        let wd = self.insert_cell(Cell { primary: rc, cell_type: CellType::Dup(pe, pf) });
        let wc = self.insert_cell(Cell { primary: ld, cell_type: CellType::Con(pg, ph) });
        let _ = self.connect_ports(pb, pc);
        let _ = self.connect_ports(pa, pg);
        let _ = self.connect_ports(pf, pd);
        let _ = self.connect_ports(pe, ph);
        let ghost k = DiamondKeys {
            upper_dup: ud.0,
            upper_con: uc.0,
            lower_dup: wd.0,
            lower_con: wc.0,
            a: pa.0,
            b: pb.0,
            c: pc.0,
            d: pd.0,
            e: pe.0,
            f: pf.0,
            g: pg.0,
            h: ph.0,
        };
        assert(self@.ports =~= set_owner(
            set_owner(
                set_owner(
                    set_owner(b.ports, self@.cells[ud.0], Some(ud)),
                    self@.cells[uc.0],
                    Some(uc),
                ),
                self@.cells[wd.0],
                Some(wd),
            ),
            self@.cells[wc.0],
            Some(wc),
        ));
        assert(diamond(b, self@, lc.0, rc.0, ld.0, rd.0, k));
    }

    /// Applies the rewrite rule of the active pair `c1`, `c2`.
    fn interact(&mut self, c1: CellKey, c2: CellKey)
        requires
            old(self)@.wf(),
            old(self)@.active(c1.0, c2.0),
        ensures
            final(self)@.wf(),
            rewritten(old(self)@, final(self)@, c1.0, c2.0),
    {
        let cell1 = *self.get_cell(c1);
        let cell2 = *self.get_cell(c2);
        let primary1 = cell1.primary;
        let primary2 = cell2.primary;
        proof {
            assert(cell1.has_port(primary1.0) && cell2.has_port(primary2.0));
            assert forall|p: usize| !(cell1.has_port(p) && cell2.has_port(p)) by {
                lemma_cells_share_no_port(old(self)@, c1.0, c2.0, p);
            }
        }
        self.disconnect_ports(primary1, primary2);
        self.remove_cell(c1);
        self.remove_cell(c2);
        let _ = self.remove_port(primary1);
        let _ = self.remove_port(primary2);
        proof {
            let b = without_pair(old(self)@, c1.0, c2.0);
            assert(self@.ports =~= b.ports);
            assert(self@.cells =~= b.cells);
            assert(self@.wires =~= b.wires);
        }
        match (cell1.cell_type, cell2.cell_type) {
            (CellType::Era, CellType::Era) => {},
            (CellType::Era, CellType::Con(l, r))
            | (CellType::Era, CellType::Dup(l, r)) => {
                assert(cell2.has_port(l.0) && cell2.has_port(r.0));
                self.erase_aux(l, r);
            },
            (CellType::Con(l, r), CellType::Era)
            | (CellType::Dup(l, r), CellType::Era) => {
                assert(cell1.has_port(l.0) && cell1.has_port(r.0));
                self.erase_aux(l, r);
            },
            (CellType::Con(l1, r1), CellType::Con(l2, r2))
            | (CellType::Dup(l1, r1), CellType::Dup(l2, r2)) => {
                assert(cell1.has_port(l1.0) && cell1.has_port(r1.0));
                assert(cell2.has_port(l2.0) && cell2.has_port(r2.0));
                self.annihilate_aux(l1, r1, l2, r2);
            },
            (CellType::Con(lc, rc), CellType::Dup(ld, rd)) => {
                assert(cell1.has_port(lc.0) && cell1.has_port(rc.0));
                assert(cell2.has_port(ld.0) && cell2.has_port(rd.0));
                self.commute_aux(lc, rc, ld, rd);
            },
            (CellType::Dup(ld, rd), CellType::Con(lc, rc)) => {
                assert(cell2.has_port(lc.0) && cell2.has_port(rc.0));
                assert(cell1.has_port(ld.0) && cell1.has_port(rd.0));
                self.commute_aux(lc, rc, ld, rd);
            },
        }
    }

    /// Whether `c1` and `c2` form an active pair.
    pub fn can_interact(&self, c1: CellKey, c2: CellKey) -> (b: bool)
        requires
            self@.cells.contains_key(c1.0),
            self@.cells.contains_key(c2.0),
        ensures
            b == self@.active(c1.0, c2.0),
    {
        let cell1 = *self.get_cell(c1);
        let cell2 = *self.get_cell(c2);
        c1 != c2 && self.ports_connected(cell1.primary, cell2.primary)
    }

    /// Scans the cells in key order for one whose primary port is wired to
    /// the primary port of another cell, and returns the first such pair.
    pub fn pick_interactable(&self) -> (pair: Option<(CellKey, CellKey)>)
        requires
            self@.wf(),
        ensures
            pair is None <==> self@.is_normal(),
            pair matches Some((c1, c2)) ==> {
                &&& self@.active(c1.0, c2.0)
                &&& forall|c: usize| c < c1.0 ==> !#[trigger] self@.has_partner(c)
            },
    {
        let cells = self.get_cells();
        let mut i: usize = 0;
        while i < cells.len()
            invariant
                self@.wf(),
                i <= cells@.len(),
                forall|a: int, b: int| 0 <= a < b < cells@.len() ==> cells@[a].0.0 < cells@[b].0.0,
                forall|j: int|
                    0 <= j < cells@.len() ==> self@.cells.contains_key(#[trigger] cells@[j].0.0)
                        && self@.cells[cells@[j].0.0] == cells@[j].1,
                forall|c: usize| self@.cells.contains_key(c) ==> exists|j: int|
                    0 <= j < cells@.len() && #[trigger] cells@[j].0.0 == c,
                forall|j: int| 0 <= j < i ==> !self@.has_partner(#[trigger] cells@[j].0.0),
            decreases cells@.len() - i,
        {
            let (c1, cell) = cells[i];
            match self.wire_partner(cell.primary) {
                Some(q) => {
                    let port = *self.get_port(q);
                    match port.cell {
                        Some(c2) => {
                            if self.can_interact(c1, c2) {
                                proof {
                                    assert forall|c: usize| c < c1.0 implies !#[trigger] self@.has_partner(c) by {
                                        if self@.has_partner(c) {
                                            let j = choose|j: int| 0 <= j < cells@.len() && #[trigger] cells@[j].0.0 == c;
                                            if j >= i {
                                                assert(cells@[i as int].0.0 <= cells@[j].0.0);
                                            }
                                        }
                                    }
                                    assert(self@.has_partner(c1.0));
                                }
                                return Some((c1, c2));
                            }
                        },
                        None => {},
                    }
                },
                None => {},
            }
            proof {
                lemma_partner_owner(self@, c1.0);
            }
            i = i + 1;
        }
        proof {
            assert forall|c: usize| !#[trigger] self@.has_partner(c) by {
                if self@.has_partner(c) {
                    let j = choose|j: int| 0 <= j < cells@.len() && #[trigger] cells@[j].0.0 == c;
                }
            }
        }
        None
    }

    /// Applies the rule of the first active pair that the scan finds;
    /// returns whether there was one. A net in normal form is left as it
    /// was.
    pub fn perform_any_interaction(&mut self) -> (done: bool)
        requires
            old(self)@.wf(),
        ensures
            final(self)@.wf(),
            done <==> !old(self)@.is_normal(),
            !done ==> final(self)@ == old(self)@,
            done ==> first_step(old(self)@, final(self)@),
    {
        match self.pick_interactable() {
            Some((c1, c2)) => {
                self.interact(c1, c2);
                true
            },
            None => false,
        }
    }

    /// Applies the rule of `c1` and `c2` if they form an active pair, and
    /// returns whether it did; otherwise the net is left as it was.
    pub fn try_interact(&mut self, c1: CellKey, c2: CellKey) -> (done: bool)
        requires
            old(self)@.wf(),
            old(self)@.cells.contains_key(c1.0),
            old(self)@.cells.contains_key(c2.0),
        ensures
            final(self)@.wf(),
            done == old(self)@.active(c1.0, c2.0),
            done ==> rewritten(old(self)@, final(self)@, c1.0, c2.0),
            !done ==> final(self)@ == old(self)@,
    {
        if self.can_interact(c1, c2) {
            self.interact(c1, c2);
            true
        } else {
            false
        }
    }

    /// Applies rewrites one at a time until no active pair is left or
    /// `fuel` rewrites were made, and returns how many were made.
    pub fn normalize_bounded(&mut self, fuel: usize) -> (steps: usize)
        requires
            old(self)@.wf(),
        ensures
            final(self)@.wf(),
            steps <= fuel,
            reduces(old(self)@, final(self)@, steps as nat),
            steps < fuel ==> final(self)@.is_normal(),
            old(self)@.is_normal() ==> steps == 0 && final(self)@ == old(self)@,
    {
        let mut steps: usize = 0;
        proof {
            lemma_reduces_none(self@);
        }
        while steps < fuel
            invariant
                self@.wf(),
                steps <= fuel,
                reduces(old(self)@, self@, steps as nat),
                old(self)@.is_normal() ==> steps == 0,
            decreases fuel - steps,
        {
            let ghost prev = self@;
            if !self.perform_any_interaction() {
                return steps;
            }
            proof {
                let k = steps as nat;
                assert(reduces(old(self)@, prev, k) && first_step(prev, self@));
                lemma_reduces_then_step(old(self)@, prev, self@, k);
            }
            steps = steps + 1;
        }
        steps
    }

    /// Applies rewrites one at a time until no active pair is left, and
    /// returns how many were made. A net in normal form is left as it was.
    /// The loop gives up after `usize::MAX` rewrites.
    pub fn normalize(&mut self) -> (steps: usize)
        requires
            old(self)@.wf(),
        ensures
            final(self)@.wf(),
            reduces(old(self)@, final(self)@, steps as nat),
            final(self)@.is_normal() || steps == usize::MAX,
            old(self)@.is_normal() ==> steps == 0 && final(self)@ == old(self)@,
    {
        self.normalize_bounded(usize::MAX)
    }
}

} // verus!
