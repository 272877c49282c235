//! Client roster, session handshake, and file catalogue tests.

use tracker::client;
use tracker::file_server::SimpleFileSystem;
use tracker::registry;
use tracker::registry::RegistryError;
use tracker::server;
use tracker::session;
use tracker::tracker::Peer;
use tracker::tracker::Peers;
use tracker::AnyMessage;
use tracker::File;
use tracker::SockAddr;

fn addr(last: u8, port: u16) -> SockAddr {
    SockAddr { ip: u32::from_be_bytes([10, 0, 0, last]), port }
}

#[test]
fn roster_add_get_remove() {
    let mut peers = Peers::new();
    assert!(peers.get_peer(addr(1, 1)).is_none());

    let old = peers.add_peer(Peer { sock: addr(1, 1), files: vec![] });
    assert!(old.is_none());
    let q = peers.get_peer(addr(1, 1)).expect("peer is there");
    assert_eq!(q.sock, addr(1, 1));

    let replaced = peers.add_peer(Peer {
        sock: addr(1, 1),
        files: vec![File { path: b"f".to_vec(), size: 1 }],
    });
    let replaced = replaced.expect("the first entry is replaced");
    assert_eq!(replaced.sock, addr(1, 1));
    assert_eq!(replaced.files, Vec::<File>::new());

    let gone = peers.remove_peer(addr(1, 1)).expect("was present");
    assert_eq!(gone.files, vec![File { path: b"f".to_vec(), size: 1 }]);
    assert!(peers.get_peer(addr(1, 1)).is_none());
    assert!(peers.remove_peer(addr(1, 1)).is_none());
}

#[test]
fn roster_update_is_lenient() {
    let mut peers = Peers::new();
    // Updating a peer never seen simply records it.
    peers.update_peer(Peer {
        sock: addr(7, 70),
        files: vec![File { path: b"x".to_vec(), size: 2 }],
    });
    let q = peers.get_peer(addr(7, 70)).expect("auto-registered");
    assert_eq!(q.files, vec![File { path: b"x".to_vec(), size: 2 }]);
}

#[test]
fn roster_handle_message_dispatch() {
    let mut peers = Peers::new();
    let reg = AnyMessage::Server(server::Message::RegisterPeer(server::RegisterPeer {
        sock: addr(5, 9000),
        file_list: vec![File { path: b"a.txt".to_vec(), size: 100 }],
    }));
    assert_eq!(peers.handle_message(reg), Ok(()));
    assert!(peers.get_peer(addr(5, 9000)).is_some());

    let upd = AnyMessage::Server(server::Message::UpdatePeer(server::UpdatePeer {
        sock: addr(5, 9000),
        file_list: vec![],
    }));
    assert_eq!(peers.handle_message(upd), Ok(()));
    assert_eq!(peers.get_peer(addr(5, 9000)).unwrap().files, Vec::<File>::new());

    let unreg_unknown = AnyMessage::Server(server::Message::UnregisterPeer(
        server::UnregisterPeer { sock: addr(9, 9) },
    ));
    assert_eq!(peers.handle_message(unreg_unknown), Err(RegistryError::UnknownPeer));

    let unreg = AnyMessage::Server(server::Message::UnregisterPeer(server::UnregisterPeer {
        sock: addr(5, 9000),
    }));
    assert_eq!(peers.handle_message(unreg), Ok(()));
    assert!(peers.get_peer(addr(5, 9000)).is_none());

    let stray = AnyMessage::Client(client::Message::Disconnect(client::Disconnect {}));
    assert_eq!(peers.handle_message(stray), Err(RegistryError::UnexpectedMessage));
}

#[test]
fn session_handshake_accepts_only_connect() {
    let observed = addr(8, 54321); // the ephemeral port the peer dialled from
    let connect = AnyMessage::Client(client::Message::Connect(client::Connect {
        serve_port: 9000,
        file_list: vec![File { path: b"a.txt".to_vec(), size: 100 }],
    }));
    let p = session::peer_from_connect(&connect, observed, 42).expect("Connect is accepted");
    // The registered address keeps the observed host but the advertised port.
    assert_eq!(p.server_addr, addr(8, 9000));
    assert_eq!(p.files, vec![File { path: b"a.txt".to_vec(), size: 100 }]);
    assert_eq!(p.conn, 42);

    let wrong = AnyMessage::Client(client::Message::Disconnect(client::Disconnect {}));
    assert!(session::peer_from_connect(&wrong, observed, 42).is_none());
    let wrong = AnyMessage::Server(server::Message::UnregisterPeer(server::UnregisterPeer {
        sock: addr(1, 1),
    }));
    assert!(session::peer_from_connect(&wrong, observed, 42).is_none());
}

#[test]
fn session_translates_messages_into_registry_operations() {
    let mut ctx = registry::Context::new();
    ctx.register_peer(registry::Peer { server_addr: addr(8, 9000), files: vec![], conn: 42 });

    let upd = AnyMessage::Client(client::Message::UpdateFiles(client::UpdateFiles {
        file_list: vec![File { path: b"b.txt".to_vec(), size: 7 }],
    }));
    assert_eq!(session::handle_session_message(&mut ctx, addr(8, 9000), upd), Ok(true));

    // RequestFile belongs to the direct file-serving path: rejected here.
    let req = AnyMessage::Client(client::Message::RequestFile(client::RequestFile {
        file: b"b.txt".to_vec(),
    }));
    assert_eq!(
        session::handle_session_message(&mut ctx, addr(8, 9000), req),
        Err(RegistryError::UnexpectedMessage)
    );
    assert_eq!(ctx.peer_count(), 1);

    let bye = AnyMessage::Client(client::Message::Disconnect(client::Disconnect {}));
    assert_eq!(session::handle_session_message(&mut ctx, addr(8, 9000), bye), Ok(false));
    assert_eq!(ctx.peer_count(), 0);

    let upd = AnyMessage::Client(client::Message::UpdateFiles(client::UpdateFiles {
        file_list: vec![],
    }));
    assert_eq!(
        session::handle_session_message(&mut ctx, addr(8, 9000), upd),
        Err(RegistryError::UnknownPeer)
    );
}

#[test]
fn simple_file_system_catalogue() {
    let fs = SimpleFileSystem::new();
    let listed = fs.list_files();
    assert_eq!(listed, vec![File { path: b"hi.txt".to_vec(), size: 3 }]);
    // Listing hands out a copy of the catalogue.
    assert_eq!(listed, fs.files);
}

#[test]
fn default_roster_is_empty() {
    let peers = Peers::default();
    assert!(peers.get_peer(addr(1, 1)).is_none());
}
