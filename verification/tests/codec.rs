//! Wire codec tests: round trips, frame integrity, tag totality.

use tracker::client;
use tracker::serial::IntoBytes;
use tracker::serialize::Serialize;
use tracker::server;
use tracker::AnyMessage;
use tracker::DeserializeError;
use tracker::File;
use tracker::MsgType;
use tracker::SockAddr;
use tracker::VecRead;

fn roundtrip(m: AnyMessage) -> AnyMessage {
    let mut writer: Vec<u8> = Vec::new();
    tracker::write_msg_d(&mut writer, &m);
    let mut reader = VecRead::from(writer);
    tracker::read_msg_d(&mut reader).expect("decode failed")
}

#[test]
fn test_de_serial() {
    let file = || File { path: b"hi.txt".to_vec(), size: 1024 * 1024 * 4 };
    let sock = SockAddr { ip: u32::from_be_bytes([10, 134, 213, 134]), port: 49583 };
    let msgs: [AnyMessage; 7] = [
        AnyMessage::Client(client::Message::Connect(client::Connect {
            serve_port: 0,
            file_list: vec![file(), file(), file()],
        })),
        AnyMessage::Client(client::Message::UpdateFiles(client::UpdateFiles {
            file_list: vec![file(), file()],
        })),
        AnyMessage::Client(client::Message::Disconnect(client::Disconnect {})),
        AnyMessage::Client(client::Message::RequestFile(client::RequestFile {
            file: b"file.txt".to_vec(),
        })),
        AnyMessage::Server(server::Message::RegisterPeer(server::RegisterPeer {
            sock,
            file_list: vec![file()],
        })),
        AnyMessage::Server(server::Message::UpdatePeer(server::UpdatePeer {
            sock,
            file_list: vec![file()],
        })),
        AnyMessage::Server(server::Message::UnregisterPeer(server::UnregisterPeer { sock })),
    ];
    for msg in msgs {
        let mut writer: Vec<u8> = Vec::new();
        tracker::write_msg_d(&mut writer, &msg);
        let mut reader = VecRead::from(writer);
        let pm = tracker::read_msg_d(&mut reader).expect("decode failed");
        assert_eq!(msg, pm);
    }
}

#[test]
fn round_trip_empty_file_list() {
    let m = AnyMessage::Client(client::Message::Connect(client::Connect {
        serve_port: 65535,
        file_list: vec![],
    }));
    let back = roundtrip(m);
    assert_eq!(
        back,
        AnyMessage::Client(client::Message::Connect(client::Connect {
            serve_port: 65535,
            file_list: vec![],
        }))
    );
}

#[test]
fn round_trip_many_files_non_ascii_paths() {
    let mut file_list = Vec::new();
    for i in 0..50u64 {
        file_list.push(File {
            path: vec![0xFFu8, 0xFE, 0x00, i as u8, 0xC3, 0xA9],
            size: u64::MAX - i,
        });
    }
    let m = AnyMessage::Server(server::Message::UpdatePeer(server::UpdatePeer {
        sock: SockAddr { ip: 0, port: 0 },
        file_list: file_list.clone(),
    }));
    let back = roundtrip(m);
    match back {
        AnyMessage::Server(server::Message::UpdatePeer(u)) => {
            assert_eq!(u.sock, SockAddr { ip: 0, port: 0 });
            assert_eq!(u.file_list, file_list);
        }
        other => panic!("wrong variant: {other:?}"),
    }
}

#[test]
fn round_trip_empty_path() {
    let m = AnyMessage::Client(client::Message::RequestFile(client::RequestFile {
        file: vec![],
    }));
    let back = roundtrip(m);
    assert_eq!(
        back,
        AnyMessage::Client(client::Message::RequestFile(client::RequestFile { file: vec![] }))
    );
}

#[test]
fn frame_integrity_declared_length_exceeds_payload() {
    // Header declares 10 payload bytes; only 2 are present.
    let mut bytes = vec![3u8];
    bytes.extend_from_slice(&10u64.to_le_bytes());
    bytes.extend_from_slice(&[1, 2]);
    let mut reader = VecRead::from(bytes);
    assert_eq!(tracker::read_msg_d(&mut reader), Err(DeserializeError::EOF));
    // Nothing was consumed: completing the frame later still works.
    assert_eq!(reader.remaining(), 11);
}

#[test]
fn frame_integrity_short_header() {
    let mut reader = VecRead::from(vec![1u8, 0, 0]);
    assert_eq!(tracker::read_msg_d(&mut reader), Err(DeserializeError::EOF));
    assert_eq!(reader.remaining(), 3);
}

#[test]
fn frame_integrity_truncated_file_entry() {
    // A Connect frame whose payload ends inside a file entry's header.
    let payload: [u8; 6] = [0, 0, 1, 2, 3, 4]; // port + 4 stray bytes
    let mut bytes = vec![1u8];
    bytes.extend_from_slice(&(payload.len() as u64).to_le_bytes());
    bytes.extend_from_slice(&payload);
    // A healthy frame follows the bad one.
    bytes.push(3u8);
    bytes.extend_from_slice(&0u64.to_le_bytes());
    let mut reader = VecRead::from(bytes);
    assert_eq!(tracker::read_msg_d(&mut reader), Err(DeserializeError::EOF));
    // The bad frame was consumed whole; the stream stays in step.
    assert_eq!(reader.remaining(), 9);
    assert_eq!(
        tracker::read_msg_d(&mut reader),
        Ok(AnyMessage::Client(client::Message::Disconnect(client::Disconnect {})))
    );
}

fn frame(tag: u8, payload: &[u8]) -> Vec<u8> {
    let mut bytes = vec![tag];
    bytes.extend_from_slice(&(payload.len() as u64).to_le_bytes());
    bytes.extend_from_slice(payload);
    bytes
}

#[test]
fn tag_totality_every_documented_tag_dispatches() {
    let sock6: [u8; 6] = [5, 0, 0, 10, 0x28, 0x23]; // 10.0.0.5:9000 little-endian
    let mut one_file: Vec<u8> = Vec::new();
    one_file.extend_from_slice(&100u64.to_le_bytes());
    one_file.extend_from_slice(&5u64.to_le_bytes());
    one_file.extend_from_slice(b"a.txt");

    let mut connect_payload = vec![0x28u8, 0x23]; // serve_port 9000
    connect_payload.extend_from_slice(&one_file);

    let mut request_payload: Vec<u8> = Vec::new();
    request_payload.extend_from_slice(&5u64.to_le_bytes());
    request_payload.extend_from_slice(b"a.txt");

    let mut register_payload = sock6.to_vec();
    register_payload.extend_from_slice(&one_file);

    let cases: Vec<(u8, Vec<u8>)> = vec![
        (1, connect_payload),
        (2, one_file.clone()),
        (3, vec![]),
        (4, request_payload),
        (5, register_payload.clone()),
        (6, register_payload),
        (7, sock6.to_vec()),
    ];
    for (tag, payload) in cases {
        let mut reader = VecRead::from(frame(tag, &payload));
        let m = tracker::read_msg_d(&mut reader)
            .unwrap_or_else(|e| panic!("tag {tag} failed: {e:?}"));
        let got = match &m {
            AnyMessage::Client(client::Message::Connect(_)) => 1,
            AnyMessage::Client(client::Message::UpdateFiles(_)) => 2,
            AnyMessage::Client(client::Message::Disconnect(_)) => 3,
            AnyMessage::Client(client::Message::RequestFile(_)) => 4,
            AnyMessage::Server(server::Message::RegisterPeer(_)) => 5,
            AnyMessage::Server(server::Message::UpdatePeer(_)) => 6,
            AnyMessage::Server(server::Message::UnregisterPeer(_)) => 7,
        };
        assert_eq!(got, tag);
    }
}

#[test]
fn tag_totality_other_bytes_rejected() {
    for tag in [0u8, 8, 9, 100, 255] {
        let mut reader = VecRead::from(frame(tag, &[]));
        assert_eq!(
            tracker::read_msg_d(&mut reader),
            Err(DeserializeError::WrongMsgType(tag)),
            "tag {tag}"
        );
        // The unknown frame is consumed whole.
        assert_eq!(reader.remaining(), 0);
    }
}

#[test]
fn make_msg_type_total_mapping() {
    assert!(matches!(tracker::make_msg_type(1), Ok(MsgType::Connect)));
    assert!(matches!(tracker::make_msg_type(2), Ok(MsgType::UpdateFiles)));
    assert!(matches!(tracker::make_msg_type(3), Ok(MsgType::Disconnect)));
    assert!(matches!(tracker::make_msg_type(4), Ok(MsgType::RequestFile)));
    assert!(matches!(tracker::make_msg_type(5), Ok(MsgType::RegisterPeer)));
    assert!(matches!(tracker::make_msg_type(6), Ok(MsgType::UpdatePeer)));
    assert!(matches!(tracker::make_msg_type(7), Ok(MsgType::UnregisterPeer)));
    assert_eq!(tracker::make_msg_type(0), Err(DeserializeError::WrongMsgType(0)));
    assert_eq!(tracker::make_msg_type(8), Err(DeserializeError::WrongMsgType(8)));
    assert_eq!(tracker::make_msg_type(255), Err(DeserializeError::WrongMsgType(255)));
}

#[test]
fn exact_frame_bytes_unregister_peer() {
    let m = AnyMessage::Server(server::Message::UnregisterPeer(server::UnregisterPeer {
        sock: SockAddr { ip: u32::from_be_bytes([10, 0, 0, 1]), port: 80 },
    }));
    let mut out: Vec<u8> = Vec::new();
    tracker::write_msg_d(&mut out, &m);
    let expected: Vec<u8> =
        vec![7, 6, 0, 0, 0, 0, 0, 0, 0, 0x01, 0x00, 0x00, 0x0A, 80, 0];
    assert_eq!(out, expected);
}

#[test]
fn exact_frame_bytes_request_file() {
    let m = AnyMessage::Client(client::Message::RequestFile(client::RequestFile {
        file: b"ab".to_vec(),
    }));
    let mut out: Vec<u8> = Vec::new();
    tracker::write_msg_d(&mut out, &m);
    let expected: Vec<u8> =
        vec![4, 10, 0, 0, 0, 0, 0, 0, 0, 2, 0, 0, 0, 0, 0, 0, 0, 97, 98];
    assert_eq!(out, expected);
}

#[test]
fn exact_payload_bytes_connect() {
    let c = client::Connect {
        serve_port: 513,
        file_list: vec![File { path: b"x".to_vec(), size: 7 }],
    };
    let payload = c.into_bytes();
    let mut expected: Vec<u8> = vec![1, 2]; // 513 little-endian
    expected.extend_from_slice(&7u64.to_le_bytes());
    expected.extend_from_slice(&1u64.to_le_bytes());
    expected.push(b'x');
    assert_eq!(payload, expected);
}

#[test]
fn serialize_size_and_type() {
    let m = client::Message::UpdateFiles(client::UpdateFiles {
        file_list: vec![File { path: b"abc".to_vec(), size: 1 }],
    });
    assert_eq!(m.size(), 8 + 8 + 3);
    assert!(matches!(m.msg_type(), MsgType::UpdateFiles));
    assert_eq!(MsgType::UpdateFiles.tag(), 2);
}

#[test]
fn trailing_bytes_ignored_for_fixed_shapes() {
    // Disconnect, RequestFile and UnregisterPeer read a fixed prefix and
    // ignore what follows, as the historical wire behaviour did.
    let mut reader = VecRead::from(frame(3, &[9, 9, 9]));
    assert!(matches!(
        tracker::read_msg_d(&mut reader),
        Ok(AnyMessage::Client(client::Message::Disconnect(_)))
    ));

    let mut payload: Vec<u8> = Vec::new();
    payload.extend_from_slice(&1u64.to_le_bytes());
    payload.extend_from_slice(b"ztrailing");
    let mut reader = VecRead::from(frame(4, &payload));
    match tracker::read_msg_d(&mut reader) {
        Ok(AnyMessage::Client(client::Message::RequestFile(r))) => {
            assert_eq!(r.file, b"z".to_vec());
        }
        other => panic!("unexpected: {other:?}"),
    }

    let mut reader = VecRead::from(frame(7, &[1, 0, 0, 10, 80, 0, 42, 42]));
    match tracker::read_msg_d(&mut reader) {
        Ok(AnyMessage::Server(server::Message::UnregisterPeer(u))) => {
            assert_eq!(u.sock, SockAddr { ip: u32::from_be_bytes([10, 0, 0, 1]), port: 80 });
        }
        other => panic!("unexpected: {other:?}"),
    }
}

#[test]
fn several_frames_in_one_buffer() {
    let a = AnyMessage::Client(client::Message::Disconnect(client::Disconnect {}));
    let b = AnyMessage::Client(client::Message::RequestFile(client::RequestFile {
        file: b"f".to_vec(),
    }));
    let mut buf: Vec<u8> = Vec::new();
    tracker::write_msg_d(&mut buf, &a);
    tracker::write_msg_d(&mut buf, &b);
    let mut reader = VecRead::from(buf);
    assert_eq!(tracker::read_msg_d(&mut reader), Ok(a));
    assert_eq!(tracker::read_msg_d(&mut reader), Ok(b));
    assert_eq!(tracker::read_msg_d(&mut reader), Err(DeserializeError::EOF));
}

#[test]
fn read_exact_reports_eof_and_stays_put() {
    let mut reader = VecRead::from(vec![1u8, 2, 3]);
    assert_eq!(reader.read_exact(2), Ok(vec![1u8, 2]));
    assert_eq!(reader.read_exact(2), Err(DeserializeError::EOF));
    assert_eq!(reader.remaining(), 1);
    assert_eq!(reader.read_exact(1), Ok(vec![3u8]));
    assert_eq!(reader.remaining(), 0);
}

#[test]
fn from_header_and_content_rebuilds_message() {
    let content: Vec<u8> = vec![1, 0, 0, 10, 80, 0];
    let m = AnyMessage::from_header_and_content(7, content.len() as u64, content)
        .expect("should decode");
    assert_eq!(
        m,
        AnyMessage::Server(server::Message::UnregisterPeer(server::UnregisterPeer {
            sock: SockAddr { ip: u32::from_be_bytes([10, 0, 0, 1]), port: 80 },
        }))
    );
    assert!(AnyMessage::from_header_and_content(9, 0, vec![]).is_err());
    assert!(AnyMessage::from_header_and_content(7, 2, vec![1, 0]).is_err());
}

#[test]
fn any_message_from_bytes_whole_frame() {
    let m = AnyMessage::Client(client::Message::RequestFile(client::RequestFile {
        file: b"q".to_vec(),
    }));
    let bytes = m.into_bytes();
    let back = AnyMessage::from_bytes(&bytes).expect("should decode");
    assert_eq!(back, m);
}
