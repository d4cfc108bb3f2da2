use hcs_client::apply::FsOp;
use hcs_client::data::{ChangeEvent, DirectoryEvent, FileEvent, Transmission};
use hcs_client::paths::FileHandlerConfig;
use hcs_client::pull::{PullAction, PullError, PullEvent, PullSession};
use hcs_client::push::{PushAction, PushError, PushEvent, PushSession};
use hcs_client::transmission_type_to_bytes;
use hcs_client::version::VersionCursor;

fn config() -> FileHandlerConfig {
    FileHandlerConfig {
        storage_directory: b"/s".to_vec(),
        symlink_directory: b"/v".to_vec(),
        metadata_directory: b"/m".to_vec(),
        program_data_directory: b"/p".to_vec(),
    }
}

fn enc(t: &Transmission) -> Vec<u8> {
    transmission_type_to_bytes(t)
}

fn client_id() -> Vec<u8> {
    b"HCS CLIENT".to_vec()
}

fn push_session(version: u64, changes: Vec<(u64, ChangeEvent)>) -> PushSession {
    PushSession::new(config(), client_id(), VersionCursor::new(version), changes)
}

fn pull_session(version: u64) -> PullSession {
    PullSession::new(config(), client_id(), VersionCursor::new(version))
}

// Scenario: push of one zero-byte file create against a server at the
// client's own version. Exchange: Greeting/Proceed, header/Proceed, change
// event with zero content chunks, acknowledgment; record deleted, cursor
// advanced.
#[test]
fn push_zero_byte_create_full_exchange() {
    let change = ChangeEvent::File(FileEvent::Create { path: b"a.txt".to_vec(), size: 0 });
    let mut s = push_session(3, vec![(11, change)]);

    let acts = s.step(PushEvent::Start).unwrap();
    assert_eq!(acts.len(), 2);
    match &acts[0] {
        PushAction::SendChunk(b) => {
            assert_eq!(b, &enc(&Transmission::Greeting { client_id: client_id() }));
        }
        _ => panic!("the session opens with the greeting"),
    }
    assert!(matches!(acts[1], PushAction::AwaitChunk));

    let acts = s.step(PushEvent::Chunk(enc(&Transmission::Proceed))).unwrap();
    match &acts[0] {
        PushAction::SendChunk(b) => {
            assert_eq!(
                b,
                &enc(&Transmission::SyncClientToServer { known_version: 3, change_count: 1 })
            );
        }
        _ => panic!("after the greeting ack comes the sync header"),
    }

    let acts = s.step(PushEvent::Chunk(enc(&Transmission::Proceed))).unwrap();
    assert_eq!(acts.len(), 1);
    match &acts[0] {
        PushAction::StatFile(p) => assert_eq!(p, &b"/s/a.txt".to_vec()),
        _ => panic!("a file create is re-stat'ed before transmission"),
    }

    let acts = s.step(PushEvent::FileSized(0)).unwrap();
    assert_eq!(acts.len(), 3);
    match &acts[0] {
        PushAction::SendChunk(b) => {
            let sized = ChangeEvent::File(FileEvent::Create { path: b"a.txt".to_vec(), size: 0 });
            assert_eq!(b, &enc(&Transmission::ChangeEvent(sized)));
        }
        _ => panic!("the sized change event is sent first"),
    }
    match &acts[1] {
        PushAction::StreamFile { path, chunk_count } => {
            assert_eq!(path, &b"/s/a.txt".to_vec());
            assert_eq!(*chunk_count, 0);
        }
        _ => panic!("zero bytes stream as zero chunks"),
    }

    let acts = s.step(PushEvent::Chunk(enc(&Transmission::ServerVersion { version: 4 }))).unwrap();
    assert_eq!(acts.len(), 2);
    assert!(matches!(acts[0], PushAction::DeleteRecord(11)));
    assert!(matches!(acts[1], PushAction::Finish));
    assert!(s.is_done());
    assert_eq!(s.server_version(), 4);
}

// Scenario: push attempted with a stale version. The server answers the
// sync header with its own version; the session ends at once with the
// pull-required outcome and nothing of any change is transmitted.
#[test]
fn push_stale_version_requires_pull_first() {
    let change = ChangeEvent::File(FileEvent::Create { path: b"a.txt".to_vec(), size: 9 });
    let mut s = push_session(5, vec![(1, change)]);

    s.step(PushEvent::Start).unwrap();
    let acts = s.step(PushEvent::Chunk(enc(&Transmission::Proceed))).unwrap();
    match &acts[0] {
        PushAction::SendChunk(b) => {
            assert_eq!(
                b,
                &enc(&Transmission::SyncClientToServer { known_version: 5, change_count: 1 })
            );
        }
        _ => panic!("after the greeting ack comes the sync header"),
    }

    let r = s.step(PushEvent::Chunk(enc(&Transmission::ServerVersion { version: 7 })));
    assert_eq!(r.unwrap_err(), PushError::PullRequired);
    // Zero changes transmitted, cursor untouched.
    assert_eq!(s.server_version(), 5);
}

#[test]
fn push_handshake_rejected_on_any_other_reply() {
    let mut s = push_session(0, Vec::new());
    s.step(PushEvent::Start).unwrap();
    let r = s.step(PushEvent::Chunk(enc(&Transmission::SkipCurrent)));
    assert_eq!(r.unwrap_err(), PushError::HandshakeFailed);
}

#[test]
fn push_handshake_rejected_on_undecodable_reply() {
    let mut s = push_session(0, Vec::new());
    s.step(PushEvent::Start).unwrap();
    let r = s.step(PushEvent::Chunk(b"not a message".to_vec()));
    assert_eq!(r.unwrap_err(), PushError::HandshakeFailed);
}

#[test]
fn push_directory_change_needs_no_stat() {
    let change = ChangeEvent::Directory(DirectoryEvent::Create { path: b"d".to_vec() });
    let mut s = push_session(2, vec![(7, change)]);
    s.step(PushEvent::Start).unwrap();
    s.step(PushEvent::Chunk(enc(&Transmission::Proceed))).unwrap();
    let acts = s.step(PushEvent::Chunk(enc(&Transmission::Proceed))).unwrap();
    assert_eq!(acts.len(), 2);
    match &acts[0] {
        PushAction::SendChunk(b) => {
            let expect = ChangeEvent::Directory(DirectoryEvent::Create { path: b"d".to_vec() });
            assert_eq!(b, &enc(&Transmission::ChangeEvent(expect)));
        }
        _ => panic!("a directory change is sent as it stands"),
    }
    assert!(matches!(acts[1], PushAction::AwaitChunk));
}

#[test]
fn push_rejects_backward_acknowledgment() {
    let change = ChangeEvent::Directory(DirectoryEvent::Create { path: b"d".to_vec() });
    let mut s = push_session(6, vec![(7, change)]);
    s.step(PushEvent::Start).unwrap();
    s.step(PushEvent::Chunk(enc(&Transmission::Proceed))).unwrap();
    s.step(PushEvent::Chunk(enc(&Transmission::Proceed))).unwrap();
    let r = s.step(PushEvent::Chunk(enc(&Transmission::ServerVersion { version: 2 })));
    assert_eq!(r.unwrap_err(), PushError::VersionRegression);
    assert_eq!(s.server_version(), 6);
}

#[test]
fn push_empty_change_list_finishes_at_permission() {
    let mut s = push_session(1, Vec::new());
    s.step(PushEvent::Start).unwrap();
    let acts = s.step(PushEvent::Chunk(enc(&Transmission::Proceed))).unwrap();
    match &acts[0] {
        PushAction::SendChunk(b) => {
            assert_eq!(
                b,
                &enc(&Transmission::SyncClientToServer { known_version: 1, change_count: 0 })
            );
        }
        _ => panic!("after the greeting ack comes the sync header"),
    }
    let acts = s.step(PushEvent::Chunk(enc(&Transmission::Proceed))).unwrap();
    assert_eq!(acts.len(), 1);
    assert!(matches!(acts[0], PushAction::Finish));
    assert!(s.is_done());
}

fn drive_pull_to_events(s: &mut PullSession, version: u64) {
    let acts = s.step(PullEvent::Start).unwrap();
    match &acts[0] {
        PullAction::SendChunk(b) => {
            assert_eq!(b, &enc(&Transmission::Greeting { client_id: client_id() }));
        }
        _ => panic!("the session opens with the greeting"),
    }
    let acts = s.step(PullEvent::Chunk(enc(&Transmission::Proceed))).unwrap();
    match &acts[0] {
        PullAction::SendChunk(b) => {
            assert_eq!(b, &enc(&Transmission::SyncServerToClient { known_version: version }));
        }
        _ => panic!("after the greeting ack comes the sync header"),
    }
}

// Scenario: a file modify is announced, but instead of its content the
// server withdraws the file mid-stream. No error: the partial (here: no)
// bytes stay, the loop proceeds to the next exchange.
#[test]
fn pull_skip_current_mid_file_is_no_error() {
    let mut s = pull_session(3);
    drive_pull_to_events(&mut s, 3);

    let modify = ChangeEvent::File(FileEvent::Modify { path: b"b.txt".to_vec(), size: 10 });
    let acts = s.step(PullEvent::Chunk(enc(&Transmission::ChangeEvent(modify)))).unwrap();
    assert_eq!(acts.len(), 2);
    match &acts[0] {
        PullAction::Fs(FsOp::CreateEmptyFile { path }) => {
            assert_eq!(path, &b"/s/b.txt".to_vec());
        }
        _ => panic!("a modify first truncates the content entry"),
    }
    assert!(matches!(acts[1], PullAction::AwaitChunk));

    // SkipCurrent instead of the ten announced bytes: keep going.
    let acts = s.step(PullEvent::Chunk(enc(&Transmission::SkipCurrent))).unwrap();
    assert_eq!(acts.len(), 1);
    assert!(matches!(acts[0], PullAction::AwaitChunk));

    let acts = s.step(PullEvent::Chunk(enc(&Transmission::ServerVersion { version: 4 }))).unwrap();
    assert!(matches!(acts[0], PullAction::AwaitChunk));
    let acts = s.step(PullEvent::Chunk(enc(&Transmission::TransactionComplete))).unwrap();
    assert!(matches!(acts[0], PullAction::Finish));
    assert!(s.is_done());
    assert_eq!(s.server_version(), 4);
}

// Scenario: a directory move whose target already exists. The machine
// orders the renames; the driver's first rename fails, the session is
// abandoned, and the cursor stands where the last applied event left it.
#[test]
fn pull_directory_move_onto_existing_target_aborts() {
    let mut s = pull_session(3);
    drive_pull_to_events(&mut s, 3);

    let mv = ChangeEvent::Directory(DirectoryEvent::Move {
        from_path: b"x".to_vec(),
        to_path: b"y".to_vec(),
    });
    let acts = s.step(PullEvent::Chunk(enc(&Transmission::ChangeEvent(mv)))).unwrap();
    assert_eq!(acts.len(), 4);
    match &acts[0] {
        PullAction::Fs(FsOp::Rename { from, to }) => {
            assert_eq!(from, &b"/s/x".to_vec());
            assert_eq!(to, &b"/s/y".to_vec());
        }
        _ => panic!("a directory move renames the content entry first"),
    }

    // The driver performs the rename against a disk where "/s/y" exists,
    // gets the failure, and unwinds without driving the machine further.
    let existing: Vec<Vec<u8>> = vec![b"/s/x".to_vec(), b"/s/y".to_vec()];
    let rename_outcome: Result<(), &str> = match &acts[0] {
        PullAction::Fs(FsOp::Rename { from: _, to }) if existing.contains(to) => {
            Err("target exists")
        }
        _ => Ok(()),
    };
    assert!(rename_outcome.is_err());
    // The version cursor was never advanced past the last applied event.
    assert_eq!(s.server_version(), 3);
}

#[test]
fn pull_file_create_receives_expected_chunks() {
    let mut s = pull_session(1);
    drive_pull_to_events(&mut s, 1);

    let create = ChangeEvent::File(FileEvent::Create { path: b"c.txt".to_vec(), size: 5 });
    let acts = s.step(PullEvent::Chunk(enc(&Transmission::ChangeEvent(create)))).unwrap();
    assert!(matches!(
        &acts[0],
        PullAction::Fs(FsOp::CreateEmptyFile { path }) if path == &b"/s/c.txt".to_vec()
    ));

    // Five bytes fit one chunk; these bytes decode as no message, so they
    // are literal content.
    let content = vec![9u8, 8, 7, 6, 5];
    let acts = s.step(PullEvent::Chunk(content.clone())).unwrap();
    assert_eq!(acts.len(), 4);
    assert!(matches!(
        &acts[0],
        PullAction::Fs(FsOp::AppendFile { path, bytes })
            if path == &b"/s/c.txt".to_vec() && bytes == &content
    ));
    assert!(matches!(
        &acts[1],
        PullAction::Fs(FsOp::WriteMetadata { path, of })
            if path == &b"/m/c.txt".to_vec() && of == &b"/s/c.txt".to_vec()
    ));
    assert!(matches!(
        &acts[2],
        PullAction::Fs(FsOp::CreateLink { path, target })
            if path == &b"/v/c.txt".to_vec() && target == &b"/s/c.txt".to_vec()
    ));

    let acts = s.step(PullEvent::Chunk(enc(&Transmission::ServerVersion { version: 2 }))).unwrap();
    assert!(matches!(acts[0], PullAction::AwaitChunk));
    let acts = s.step(PullEvent::Chunk(enc(&Transmission::TransactionComplete))).unwrap();
    assert!(matches!(acts[0], PullAction::Finish));
    assert_eq!(s.server_version(), 2);
}

#[test]
fn pull_multi_chunk_content_counts_down() {
    let mut s = pull_session(1);
    drive_pull_to_events(&mut s, 1);

    // 65537 bytes announce two chunks.
    let create = ChangeEvent::File(FileEvent::Create { path: b"d.bin".to_vec(), size: 65537 });
    s.step(PullEvent::Chunk(enc(&Transmission::ChangeEvent(create)))).unwrap();

    let acts = s.step(PullEvent::Chunk(vec![0xAB; 65536])).unwrap();
    assert_eq!(acts.len(), 2);
    assert!(matches!(&acts[0], PullAction::Fs(FsOp::AppendFile { .. })));
    assert!(matches!(acts[1], PullAction::AwaitChunk));

    // The second and last chunk closes the reception: metadata and link
    // follow at once.
    let acts = s.step(PullEvent::Chunk(vec![0xCD])).unwrap();
    assert_eq!(acts.len(), 4);
    assert!(matches!(&acts[0], PullAction::Fs(FsOp::AppendFile { .. })));
    assert!(matches!(&acts[1], PullAction::Fs(FsOp::WriteMetadata { .. })));
    assert!(matches!(&acts[2], PullAction::Fs(FsOp::CreateLink { .. })));
}

#[test]
fn pull_rejects_unexpected_message_mid_file() {
    let mut s = pull_session(1);
    drive_pull_to_events(&mut s, 1);
    let create = ChangeEvent::File(FileEvent::Create { path: b"e".to_vec(), size: 5 });
    s.step(PullEvent::Chunk(enc(&Transmission::ChangeEvent(create)))).unwrap();
    let r = s.step(PullEvent::Chunk(enc(&Transmission::Proceed)));
    assert_eq!(r.unwrap_err(), PullError::UnexpectedMessage);
}

#[test]
fn pull_rejects_unsupported_change() {
    let mut s = pull_session(1);
    drive_pull_to_events(&mut s, 1);
    let undo = ChangeEvent::File(FileEvent::UndoDelete { path: b"x".to_vec() });
    let r = s.step(PullEvent::Chunk(enc(&Transmission::ChangeEvent(undo))));
    assert_eq!(r.unwrap_err(), PullError::UnsupportedChange);
}

#[test]
fn pull_rejects_greeting_in_event_loop() {
    let mut s = pull_session(1);
    drive_pull_to_events(&mut s, 1);
    let r = s.step(PullEvent::Chunk(enc(&Transmission::Greeting { client_id: client_id() })));
    assert_eq!(r.unwrap_err(), PullError::UnexpectedMessage);
}

#[test]
fn pull_rejects_backward_version() {
    let mut s = pull_session(9);
    drive_pull_to_events(&mut s, 9);
    let r = s.step(PullEvent::Chunk(enc(&Transmission::ServerVersion { version: 4 })));
    assert_eq!(r.unwrap_err(), PullError::VersionRegression);
    assert_eq!(s.server_version(), 9);
}

#[test]
fn pull_version_update_in_event_loop() {
    let mut s = pull_session(2);
    drive_pull_to_events(&mut s, 2);
    s.step(PullEvent::Chunk(enc(&Transmission::ServerVersion { version: 8 }))).unwrap();
    assert_eq!(s.server_version(), 8);
    let acts = s.step(PullEvent::Chunk(enc(&Transmission::TransactionComplete))).unwrap();
    assert!(matches!(acts[0], PullAction::Finish));
    assert!(s.is_done());
}

#[test]
fn pull_handshake_rejected_on_any_other_reply() {
    let mut s = pull_session(0);
    s.step(PullEvent::Start).unwrap();
    let r = s.step(PullEvent::Chunk(enc(&Transmission::TransactionComplete)));
    assert_eq!(r.unwrap_err(), PullError::HandshakeFailed);
}
