use interaction_nets::net::{Cell, CellKey, CellType, InteractionNet, NetError, Port, PortKey};

fn era(net: &mut InteractionNet) -> (CellKey, PortKey) {
    let p = net.create_port();
    let c = net.insert_cell(Cell { primary: p, cell_type: CellType::Era });
    (c, p)
}

fn binary(net: &mut InteractionNet, con: bool) -> (CellKey, PortKey, PortKey, PortKey) {
    let p = net.create_port();
    let l = net.create_port();
    let r = net.create_port();
    let cell_type = if con { CellType::Con(l, r) } else { CellType::Dup(l, r) };
    let c = net.insert_cell(Cell { primary: p, cell_type });
    (c, p, l, r)
}

fn cells_of(net: &InteractionNet) -> Vec<Cell> {
    net.get_cells().into_iter().map(|(_, c)| c).collect()
}

fn cell_owning_primary(net: &InteractionNet, p: PortKey) -> Cell {
    let owner = net.get_port(p).cell.expect("port has an owner");
    let cell = *net.get_cell(owner);
    assert_eq!(cell.primary, p);
    cell
}

#[test]
fn new_net_is_empty() {
    let net = InteractionNet::new();
    assert!(net.get_cells().is_empty());
    let net = InteractionNet::default();
    assert!(net.get_cells().is_empty());
}

#[test]
fn create_and_remove_port() {
    let mut net = InteractionNet::new();
    let p = net.create_port();
    assert_eq!(*net.get_port(p), Port { cell: None });
    assert_eq!(net.remove_port(p), Ok(()));
    let q = net.create_port();
    assert_eq!(*net.get_port(q), Port { cell: None });
}

#[test]
fn remove_wired_port_fails() {
    let mut net = InteractionNet::new();
    let p = net.create_port();
    let q = net.create_port();
    net.connect_ports(p, q).unwrap();
    let err = net.remove_port(p);
    assert_eq!(err, Err(NetError::InvalidPortRemoval(p)));
    assert_eq!(err.unwrap_err().message(), "can only remove unconnected free ports");
    assert!(net.ports_connected(p, q));
}

#[test]
fn remove_owned_port_fails() {
    let mut net = InteractionNet::new();
    let (_, p) = era(&mut net);
    assert_eq!(net.remove_port(p), Err(NetError::InvalidPortRemoval(p)));
}

#[test]
fn self_loop_fails() {
    let mut net = InteractionNet::new();
    let p = net.create_port();
    let err = net.connect_ports(p, p);
    assert_eq!(err, Err(NetError::SelfLoop(p)));
    assert_eq!(err.unwrap_err().message(), "cannot connect port to itself");
    assert_eq!(net.wire_partner(p), None);
}

#[test]
fn connect_then_disconnect() {
    let mut net = InteractionNet::new();
    let p = net.create_port();
    let q = net.create_port();
    let r = net.create_port();
    net.connect_ports(p, q).unwrap();
    assert!(net.ports_connected(p, q));
    assert!(net.ports_connected(q, p));
    assert_eq!(net.wire_partner(p), Some(q));
    // not wired to each other: nothing happens
    net.disconnect_ports(p, r);
    assert!(net.ports_connected(p, q));
    net.disconnect_ports(q, p);
    assert!(!net.ports_connected(p, q));
    assert_eq!(net.wire_partner(p), None);
    assert_eq!(net.wire_partner(q), None);
    assert_eq!(net.remove_port(p), Ok(()));
}

#[test]
fn insert_and_remove_cell() {
    let mut net = InteractionNet::new();
    let (c, p, l, r) = binary(&mut net, true);
    for port in [p, l, r] {
        assert_eq!(net.get_port(port).cell, Some(c));
    }
    assert_eq!(net.get_cell(c).cell_type, CellType::Con(l, r));
    let q = net.create_port();
    net.connect_ports(l, q).unwrap();
    net.remove_cell(c);
    assert!(net.get_cells().is_empty());
    for port in [p, l, r] {
        assert_eq!(net.get_port(port).cell, None);
    }
    // wires survive the cell's removal
    assert!(net.ports_connected(l, q));
}

#[test]
fn cells_listed_in_key_order() {
    let mut net = InteractionNet::new();
    let (a, _) = era(&mut net);
    let (b, _) = era(&mut net);
    let (c, _) = era(&mut net);
    net.remove_cell(b);
    let keys: Vec<CellKey> = net.get_cells().into_iter().map(|(k, _)| k).collect();
    assert_eq!(keys.len(), 2);
    assert!(keys[0].0 < keys[1].0);
    assert!(keys.contains(&a) && keys.contains(&c));
}

#[test]
fn lone_eraser_is_normal() {
    let mut net = InteractionNet::new();
    let (c, p) = era(&mut net);
    assert_eq!(net.pick_interactable(), None);
    assert!(!net.perform_any_interaction());
    net.normalize();
    assert_eq!(cells_of(&net), vec![Cell { primary: p, cell_type: CellType::Era }]);
    assert_eq!(net.get_cells()[0].0, c);
}

#[test]
fn era_era_annihilation() {
    let mut net = InteractionNet::new();
    let (e1, p1) = era(&mut net);
    let (e2, p2) = era(&mut net);
    net.connect_ports(p1, p2).unwrap();
    assert!(net.can_interact(e1, e2));
    assert!(!net.can_interact(e1, e1));
    assert_eq!(net.pick_interactable(), Some((e1, e2)));
    assert_eq!(net.normalize(), 1);
    assert_eq!(net.normalize(), 0);
    assert!(net.get_cells().is_empty());
    let p = net.create_port();
    assert_eq!(net.wire_partner(p), None);
}

#[test]
fn era_con_erasure() {
    let mut net = InteractionNet::new();
    let (_, pe) = era(&mut net);
    let (_, pc, l, r) = binary(&mut net, true);
    net.connect_ports(pe, pc).unwrap();
    net.normalize();
    let cells = cells_of(&net);
    assert_eq!(cells.len(), 2);
    for cell in &cells {
        assert_eq!(cell.cell_type, CellType::Era);
    }
    let el = net.wire_partner(l).expect("left wired");
    let er = net.wire_partner(r).expect("right wired");
    assert_ne!(el, er);
    assert_eq!(cell_owning_primary(&net, el).cell_type, CellType::Era);
    assert_eq!(cell_owning_primary(&net, er).cell_type, CellType::Era);
    assert_eq!(net.get_port(l).cell, None);
    assert_eq!(net.get_port(r).cell, None);
}

#[test]
fn dup_era_erasure() {
    let mut net = InteractionNet::new();
    let (_, pd, l, r) = binary(&mut net, false);
    let (_, pe) = era(&mut net);
    net.connect_ports(pd, pe).unwrap();
    assert!(net.perform_any_interaction());
    assert!(!net.perform_any_interaction());
    assert_eq!(cells_of(&net).len(), 2);
    assert!(net.wire_partner(l).is_some());
    assert!(net.wire_partner(r).is_some());
}

fn annihilation(con: bool) {
    let mut net = InteractionNet::new();
    let (c1, p1, l1, r1) = binary(&mut net, con);
    let (c2, p2, l2, r2) = binary(&mut net, con);
    net.connect_ports(p1, p2).unwrap();
    assert!(net.try_interact(c1, c2));
    assert!(net.get_cells().is_empty());
    assert!(net.ports_connected(l1, l2));
    assert!(net.ports_connected(r1, r2));
    assert!(!net.ports_connected(l1, r2));
}

#[test]
fn con_con_annihilation() {
    annihilation(true);
}

#[test]
fn dup_dup_annihilation() {
    annihilation(false);
}

#[test]
fn annihilation_replaces_old_wires() {
    let mut net = InteractionNet::new();
    let (_, p1, l1, r1) = binary(&mut net, true);
    let (_, p2, l2, r2) = binary(&mut net, true);
    let x = net.create_port();
    net.connect_ports(l1, x).unwrap();
    net.connect_ports(p1, p2).unwrap();
    net.normalize();
    assert!(net.ports_connected(l1, l2));
    assert!(net.ports_connected(r1, r2));
    assert_eq!(net.wire_partner(x), None);
}

#[test]
fn try_interact_on_inactive_pair() {
    let mut net = InteractionNet::new();
    let (c1, _, l1, _) = binary(&mut net, true);
    let (c2, _, l2, _) = binary(&mut net, false);
    net.connect_ports(l1, l2).unwrap();
    assert!(!net.can_interact(c1, c2));
    assert!(!net.try_interact(c1, c2));
    assert_eq!(net.get_cells().len(), 2);
    assert!(net.ports_connected(l1, l2));
}

#[test]
fn con_dup_commutation() {
    let mut net = InteractionNet::new();
    let (_, pc, lc, rc) = binary(&mut net, true);
    let (_, pd, ld, rd) = binary(&mut net, false);
    net.connect_ports(pc, pd).unwrap();
    assert!(net.perform_any_interaction());
    assert_eq!(net.pick_interactable(), None);
    assert_eq!(net.get_cells().len(), 4);

    let upper_dup = cell_owning_primary(&net, lc);
    let upper_con = cell_owning_primary(&net, rd);
    let lower_dup = cell_owning_primary(&net, rc);
    let lower_con = cell_owning_primary(&net, ld);
    let aux = |cell: Cell, con: bool| match (cell.cell_type, con) {
        (CellType::Con(l, r), true) | (CellType::Dup(l, r), false) => (l, r),
        _ => panic!("wrong kind"),
    };
    let (a, b) = aux(upper_dup, false);
    let (c, d) = aux(upper_con, true);
    let (e, f) = aux(lower_dup, false);
    let (g, h) = aux(lower_con, true);
    assert!(net.ports_connected(b, c));
    assert!(net.ports_connected(a, g));
    assert!(net.ports_connected(f, d));
    assert!(net.ports_connected(e, h));
}

#[test]
fn dup_con_commutation() {
    let mut net = InteractionNet::new();
    let (_, pd, ld, rd) = binary(&mut net, false);
    let (_, pc, lc, rc) = binary(&mut net, true);
    net.connect_ports(pd, pc).unwrap();
    net.normalize();
    assert_eq!(net.get_cells().len(), 4);
    assert!(matches!(cell_owning_primary(&net, lc).cell_type, CellType::Dup(_, _)));
    assert!(matches!(cell_owning_primary(&net, rc).cell_type, CellType::Dup(_, _)));
    assert!(matches!(cell_owning_primary(&net, ld).cell_type, CellType::Con(_, _)));
    assert!(matches!(cell_owning_primary(&net, rd).cell_type, CellType::Con(_, _)));
}

#[test]
fn normalize_twice_is_noop() {
    let mut net = InteractionNet::new();
    let (_, pc, lc, _) = binary(&mut net, true);
    let (_, pd, _, _) = binary(&mut net, false);
    net.connect_ports(pc, pd).unwrap();
    assert_eq!(net.normalize(), 1);
    let before = net.get_cells();
    let partner = net.wire_partner(lc);
    assert_eq!(net.normalize(), 0);
    assert_eq!(net.get_cells(), before);
    assert_eq!(net.wire_partner(lc), partner);
}

#[test]
fn bounded_normalization_counts_steps() {
    let mut net = InteractionNet::new();
    let (_, pe) = era(&mut net);
    let (_, pc, l, r) = binary(&mut net, true);
    let (_, ql) = era(&mut net);
    let (_, qr) = era(&mut net);
    net.connect_ports(pe, pc).unwrap();
    net.connect_ports(l, ql).unwrap();
    net.connect_ports(r, qr).unwrap();
    // Era/Con gives two erasers on l and r; the erasers ql and qr are then
    // cut off from l and r and left alone.
    assert_eq!(net.normalize_bounded(0), 0);
    assert_eq!(net.normalize_bounded(10), 1);
    assert_eq!(net.normalize_bounded(10), 0);
    assert_eq!(net.get_cells().len(), 4);
}
