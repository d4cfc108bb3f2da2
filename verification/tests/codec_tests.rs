use hcs_client::data::{ChangeEvent, DirectoryEvent, FileEvent, Transmission};
use hcs_client::{bytes_to_transmission_type, transmission_type_to_bytes};

fn enc(t: &Transmission) -> Vec<u8> {
    transmission_type_to_bytes(t)
}

// Encoding is canonical, so two messages are equal exactly when their byte
// forms are: round trips are checked by re-encoding the decoded value.
fn assert_round_trip(t: Transmission) {
    let bytes = enc(&t);
    let back = bytes_to_transmission_type(bytes.as_slice()).expect("canonical bytes must decode");
    assert_eq!(enc(&back), bytes);
}

#[test]
fn round_trip_greeting() {
    assert_round_trip(Transmission::Greeting { client_id: b"HCS CLIENT".to_vec() });
}

#[test]
fn round_trip_proceed() {
    assert_round_trip(Transmission::Proceed);
}

#[test]
fn round_trip_sync_client_to_server() {
    assert_round_trip(Transmission::SyncClientToServer { known_version: 5, change_count: 3 });
}

#[test]
fn round_trip_sync_server_to_client() {
    assert_round_trip(Transmission::SyncServerToClient { known_version: u64::MAX });
}

#[test]
fn round_trip_server_version() {
    assert_round_trip(Transmission::ServerVersion { version: 7 });
}

#[test]
fn round_trip_skip_current() {
    assert_round_trip(Transmission::SkipCurrent);
}

#[test]
fn round_trip_transaction_complete() {
    assert_round_trip(Transmission::TransactionComplete);
}

#[test]
fn round_trip_failure() {
    assert_round_trip(Transmission::Failure { message: b"remote fault".to_vec() });
}

#[test]
fn round_trip_every_file_event() {
    assert_round_trip(Transmission::ChangeEvent(ChangeEvent::File(FileEvent::Create {
        path: b"a.txt".to_vec(),
        size: 0,
    })));
    assert_round_trip(Transmission::ChangeEvent(ChangeEvent::File(FileEvent::Modify {
        path: b"dir/b.bin".to_vec(),
        size: 1 << 40,
    })));
    assert_round_trip(Transmission::ChangeEvent(ChangeEvent::File(FileEvent::Delete {
        path: b"c".to_vec(),
    })));
    assert_round_trip(Transmission::ChangeEvent(ChangeEvent::File(FileEvent::Move {
        from_path: b"old/name".to_vec(),
        to_path: b"new/name".to_vec(),
    })));
    assert_round_trip(Transmission::ChangeEvent(ChangeEvent::File(FileEvent::UndoDelete {
        path: b"gone".to_vec(),
    })));
}

#[test]
fn round_trip_every_directory_event() {
    assert_round_trip(Transmission::ChangeEvent(ChangeEvent::Directory(
        DirectoryEvent::Create { path: b"d".to_vec() },
    )));
    assert_round_trip(Transmission::ChangeEvent(ChangeEvent::Directory(
        DirectoryEvent::Delete { path: b"d/e".to_vec() },
    )));
    assert_round_trip(Transmission::ChangeEvent(ChangeEvent::Directory(DirectoryEvent::Move {
        from_path: b"x".to_vec(),
        to_path: b"y".to_vec(),
    })));
    assert_round_trip(Transmission::ChangeEvent(ChangeEvent::Directory(
        DirectoryEvent::UndoDelete { path: b"z".to_vec() },
    )));
}

#[test]
fn round_trip_symlink_event() {
    assert_round_trip(Transmission::ChangeEvent(ChangeEvent::Symlink {
        path: b"link".to_vec(),
    }));
}

#[test]
fn round_trip_preserves_fields() {
    let t = Transmission::ChangeEvent(ChangeEvent::File(FileEvent::Create {
        path: b"a.txt".to_vec(),
        size: 42,
    }));
    let back = bytes_to_transmission_type(enc(&t).as_slice()).unwrap();
    match back {
        Transmission::ChangeEvent(ChangeEvent::File(FileEvent::Create { path, size })) => {
            assert_eq!(path, b"a.txt".to_vec());
            assert_eq!(size, 42);
        }
        _ => panic!("decoded to a different variant"),
    }
}

#[test]
fn encoding_is_exact_bytes() {
    assert_eq!(enc(&Transmission::Proceed), vec![2u8]);
    assert_eq!(enc(&Transmission::SkipCurrent), vec![7u8]);
    assert_eq!(enc(&Transmission::TransactionComplete), vec![8u8]);
    assert_eq!(
        enc(&Transmission::ServerVersion { version: 1 }),
        vec![5u8, 1, 0, 0, 0, 0, 0, 0, 0]
    );
    // Greeting: tag, eight-byte little-endian length, then the bytes.
    assert_eq!(
        enc(&Transmission::Greeting { client_id: b"ab".to_vec() }),
        vec![1u8, 2, 0, 0, 0, 0, 0, 0, 0, b'a', b'b']
    );
}

#[test]
fn decode_rejects_empty() {
    assert!(bytes_to_transmission_type(&[]).is_err());
}

#[test]
fn decode_rejects_unknown_tag() {
    assert!(bytes_to_transmission_type(&[0u8]).is_err());
    assert!(bytes_to_transmission_type(&[10u8]).is_err());
    assert!(bytes_to_transmission_type(&[255u8]).is_err());
}

#[test]
fn decode_rejects_truncated() {
    // ServerVersion with only four of its eight bytes.
    assert!(bytes_to_transmission_type(&[5u8, 1, 0, 0, 0]).is_err());
    // Greeting announcing two bytes but carrying one.
    assert!(bytes_to_transmission_type(&[1u8, 2, 0, 0, 0, 0, 0, 0, 0, b'a']).is_err());
}

#[test]
fn decode_rejects_trailing_bytes() {
    let mut bytes = enc(&Transmission::Proceed);
    bytes.push(0);
    assert!(bytes_to_transmission_type(bytes.as_slice()).is_err());
}

#[test]
fn raw_content_usually_fails_to_decode() {
    // File content is recognized by failing to decode; these byte strings
    // are no canonical message.
    assert!(bytes_to_transmission_type(&[0xff, 0xfe, 0xfd, 0x00, 0x01]).is_err());
    assert!(bytes_to_transmission_type(b"hello world").is_err());
}
