//! Registry tests: registration, broadcast plans, convergence and fault
//! isolation, and the concrete two-peer scenario.

use tracker::registry::Context;
use tracker::registry::Notification;
use tracker::registry::Peer;
use tracker::registry::RegistryError;
use tracker::server;
use tracker::File;
use tracker::SockAddr;

fn addr(last: u8, port: u16) -> SockAddr {
    SockAddr { ip: u32::from_be_bytes([10, 0, 0, last]), port }
}

fn peer(last: u8, port: u16, conn: u64, files: Vec<File>) -> Peer {
    Peer { server_addr: addr(last, port), files, conn }
}

fn register_msg(n: &Notification) -> &server::RegisterPeer {
    match &n.msg {
        server::Message::RegisterPeer(r) => r,
        other => panic!("expected RegisterPeer, got {other:?}"),
    }
}

#[test]
fn concrete_two_peer_scenario() {
    // Register peer A (10.0.0.5:9000, files=[{"a.txt",100}]).
    let mut ctx = Context::new();
    let a_files = vec![File { path: b"a.txt".to_vec(), size: 100 }];
    let a = peer(5, 9000, 1, a_files.clone());

    let plan_a = ctx.broadcast_register(&a);
    assert_eq!(plan_a.len(), 0); // nobody to notify yet
    let roster_a = ctx.roster_messages(a.conn);
    assert_eq!(roster_a.len(), 0);
    ctx.register_peer(a);

    // Register peer B (10.0.0.6:9001, files=[]).
    let b = peer(6, 9001, 2, vec![]);
    let plan_b = ctx.broadcast_register(&b);
    // A's session receives exactly one RegisterPeer notification for B.
    assert_eq!(plan_b.len(), 1);
    assert_eq!(plan_b[0].conn, 1);
    let m = register_msg(&plan_b[0]);
    assert_eq!(m.sock, addr(6, 9001));
    assert_eq!(m.file_list, Vec::<File>::new());

    // B's session receives exactly one RegisterPeer notification for A.
    let roster_b = ctx.roster_messages(b.conn);
    assert_eq!(roster_b.len(), 1);
    assert_eq!(roster_b[0].conn, 2);
    let m = register_msg(&roster_b[0]);
    assert_eq!(m.sock, addr(5, 9000));
    assert_eq!(m.file_list, a_files);

    ctx.register_peer(b);

    // Registry now contains {A, B}.
    assert_eq!(ctx.peer_count(), 2);
    assert!(ctx.contains_addr(addr(5, 9000)));
    assert!(ctx.contains_addr(addr(6, 9001)));

    // Remove A: registry contains {B} alone.
    let removed = ctx.remove_peer(addr(5, 9000)).expect("A was registered");
    assert_eq!(removed.server_addr, addr(5, 9000));
    assert_eq!(ctx.peer_count(), 1);
    assert!(!ctx.contains_addr(addr(5, 9000)));
    assert!(ctx.contains_addr(addr(6, 9001)));
}

#[test]
fn broadcast_fault_isolation() {
    // A, B and C are registered; D arrives.  B's connection is already
    // closed when the broadcast tries to notify it: the deliveries to A
    // and C still stand, and B alone is dropped from the registry.
    let mut ctx = Context::new();
    ctx.register_peer(peer(1, 1000, 11, vec![]));
    ctx.register_peer(peer(2, 2000, 22, vec![]));
    ctx.register_peer(peer(3, 3000, 33, vec![]));

    let d = peer(4, 4000, 44, vec![File { path: b"d.bin".to_vec(), size: 9 }]);
    let plan = ctx.broadcast_register(&d);
    assert_eq!(plan.len(), 3);
    let mut delivered: Vec<u64> = Vec::new();
    for n in &plan {
        if n.conn == 22 {
            // The write fails with a broken pipe: drop that peer, go on.
            ctx.remove_conn(22);
        } else {
            delivered.push(n.conn);
        }
    }
    assert_eq!(delivered, vec![11, 33]);
    assert_eq!(ctx.peer_count(), 2);
    assert!(ctx.contains_addr(addr(1, 1000)));
    assert!(!ctx.contains_addr(addr(2, 2000)));
    assert!(ctx.contains_addr(addr(3, 3000)));

    ctx.register_peer(d);
    assert_eq!(ctx.peer_count(), 3);
    assert!(ctx.contains_addr(addr(4, 4000)));
}

#[test]
fn registry_convergence_three_peers() {
    // Peers register one after another; collecting what each session is
    // told, every peer ends up knowing the final set minus itself.
    let peers = [peer(1, 1, 1, vec![]), peer(2, 2, 2, vec![]), peer(3, 3, 3, vec![])];
    let mut ctx = Context::new();
    let mut heard: Vec<Vec<SockAddr>> = vec![Vec::new(), Vec::new(), Vec::new()];
    for p in &peers {
        for n in ctx.broadcast_register(&p.duplicate()) {
            let idx = (n.conn - 1) as usize;
            heard[idx].push(register_msg(&n).sock);
        }
        for n in ctx.roster_messages(p.conn) {
            let idx = (n.conn - 1) as usize;
            heard[idx].push(register_msg(&n).sock);
        }
        ctx.register_peer(p.duplicate());
    }
    for i in 0..3usize {
        let mut got = heard[i].clone();
        got.sort();
        let mut want: Vec<SockAddr> = (0..3usize)
            .filter(|j| *j != i)
            .map(|j| peers[j].server_addr)
            .collect();
        want.sort();
        assert_eq!(got, want, "peer {i}");
    }
}

#[test]
fn register_overwrites_same_address() {
    let mut ctx = Context::new();
    ctx.register_peer(peer(9, 90, 5, vec![File { path: b"old".to_vec(), size: 1 }]));
    assert_eq!(ctx.peer_count(), 1);
    ctx.register_peer(peer(9, 90, 6, vec![File { path: b"new".to_vec(), size: 2 }]));
    assert_eq!(ctx.peer_count(), 1);
    // The surviving entry is the later one: its roster message says so.
    let roster = ctx.roster_messages(77);
    assert_eq!(roster.len(), 1);
    assert_eq!(roster[0].conn, 77);
    let m = register_msg(&roster[0]);
    assert_eq!(m.file_list, vec![File { path: b"new".to_vec(), size: 2 }]);
}

#[test]
fn update_peer_strict() {
    let mut ctx = Context::new();
    assert_eq!(
        ctx.update_peer(addr(1, 1), vec![]),
        Err(RegistryError::UnknownPeer)
    );
    ctx.register_peer(peer(1, 1, 8, vec![]));
    let new_files = vec![File { path: b"n".to_vec(), size: 3 }];
    assert_eq!(ctx.update_peer(addr(1, 1), new_files.clone()), Ok(()));
    let roster = ctx.roster_messages(99);
    assert_eq!(register_msg(&roster[0]).file_list, new_files);
}

#[test]
fn remove_peer_unknown_address() {
    let mut ctx = Context::new();
    ctx.register_peer(peer(1, 1, 8, vec![]));
    match ctx.remove_peer(addr(2, 2)) {
        Err(RegistryError::UnknownPeer) => {}
        other => panic!("expected UnknownPeer, got {other:?}"),
    }
    assert_eq!(ctx.peer_count(), 1);
}

#[test]
fn remove_conn_drops_only_that_connection() {
    let mut ctx = Context::new();
    ctx.register_peer(peer(1, 1, 100, vec![]));
    ctx.register_peer(peer(2, 2, 200, vec![]));
    ctx.remove_conn(100);
    assert_eq!(ctx.peer_count(), 1);
    assert!(!ctx.contains_addr(addr(1, 1)));
    assert!(ctx.contains_addr(addr(2, 2)));
    // Removing an absent connection changes nothing.
    ctx.remove_conn(100);
    assert_eq!(ctx.peer_count(), 1);
}

#[test]
fn default_registry_is_empty() {
    let ctx = Context::default();
    assert_eq!(ctx.peer_count(), 0);
}
