use vstd::prelude::*;

verus! {

// The closed set of change events and control messages exchanged with the
// server, together with their mathematical views. Paths travel as raw bytes:
// the wire format and the three on-disk projections treat them as opaque
// byte strings.

/// A change to a single file.
pub enum FileEvent {
    Create { path: Vec<u8>, size: u64 },
    Modify { path: Vec<u8>, size: u64 },
    Delete { path: Vec<u8> },
    Move { from_path: Vec<u8>, to_path: Vec<u8> },
    /// Not supported: kept so that it fails loudly instead of being dropped.
    UndoDelete { path: Vec<u8> },
}

/// A change to a single directory.
pub enum DirectoryEvent {
    Create { path: Vec<u8> },
    Delete { path: Vec<u8> },
    Move { from_path: Vec<u8>, to_path: Vec<u8> },
    /// Not supported: kept so that it fails loudly instead of being dropped.
    UndoDelete { path: Vec<u8> },
}

/// One filesystem mutation to be transmitted or applied.
pub enum ChangeEvent {
    File(FileEvent),
    Directory(DirectoryEvent),
    /// Not supported: kept so that it fails loudly instead of being dropped.
    Symlink { path: Vec<u8> },
}

/// The closed set of control messages framed on the channel.
pub enum Transmission {
    Greeting { client_id: Vec<u8> },
    Proceed,
    SyncClientToServer { known_version: u64, change_count: u64 },
    SyncServerToClient { known_version: u64 },
    ServerVersion { version: u64 },
    ChangeEvent(ChangeEvent),
    SkipCurrent,
    TransactionComplete,
    /// The error-carrying variant: the remote reports a failure.
    Failure { message: Vec<u8> },
}

/// Mathematical view of a `FileEvent`.
pub enum FileEventV {
    Create { path: Seq<u8>, size: u64 },
    Modify { path: Seq<u8>, size: u64 },
    Delete { path: Seq<u8> },
    Move { from_path: Seq<u8>, to_path: Seq<u8> },
    UndoDelete { path: Seq<u8> },
}

/// Mathematical view of a `DirectoryEvent`.
pub enum DirectoryEventV {
    Create { path: Seq<u8> },
    Delete { path: Seq<u8> },
    Move { from_path: Seq<u8>, to_path: Seq<u8> },
    UndoDelete { path: Seq<u8> },
}

/// Mathematical view of a `ChangeEvent`.
pub enum ChangeEventV {
    File(FileEventV),
    Directory(DirectoryEventV),
    Symlink { path: Seq<u8> },
}

/// Mathematical view of a `Transmission`.
pub enum TransmissionV {
    Greeting { client_id: Seq<u8> },
    Proceed,
    SyncClientToServer { known_version: u64, change_count: u64 },
    SyncServerToClient { known_version: u64 },
    ServerVersion { version: u64 },
    ChangeEvent(ChangeEventV),
    SkipCurrent,
    TransactionComplete,
    Failure { message: Seq<u8> },
}

/// An owned copy of a byte string, equal in view.
pub(crate) fn dup_bytes(v: &Vec<u8>) -> (r: Vec<u8>)
    ensures
        r@ == v@,
{
    let mut out: Vec<u8> = Vec::new();
    out.extend_from_slice(v.as_slice());
    assert(out@ =~= v@);
    out
}

/// An owned copy of a file event, equal in view.
pub fn dup_file_event(e: &FileEvent) -> (r: FileEvent)
    ensures
        r@ == e@,
{
    match e {
        FileEvent::Create { path, size } => FileEvent::Create {
            path: dup_bytes(path),
            size: *size,
        },
        FileEvent::Modify { path, size } => FileEvent::Modify {
            path: dup_bytes(path),
            size: *size,
        },
        FileEvent::Delete { path } => FileEvent::Delete { path: dup_bytes(path) },
        FileEvent::Move { from_path, to_path } => FileEvent::Move {
            from_path: dup_bytes(from_path),
            to_path: dup_bytes(to_path),
        },
        FileEvent::UndoDelete { path } => FileEvent::UndoDelete { path: dup_bytes(path) },
    }
}

/// An owned copy of a directory event, equal in view.
pub fn dup_directory_event(e: &DirectoryEvent) -> (r: DirectoryEvent)
    ensures
        r@ == e@,
{
    match e {
        DirectoryEvent::Create { path } => DirectoryEvent::Create { path: dup_bytes(path) },
        DirectoryEvent::Delete { path } => DirectoryEvent::Delete { path: dup_bytes(path) },
        DirectoryEvent::Move { from_path, to_path } => DirectoryEvent::Move {
            from_path: dup_bytes(from_path),
            to_path: dup_bytes(to_path),
        },
        DirectoryEvent::UndoDelete { path } => DirectoryEvent::UndoDelete {
            path: dup_bytes(path),
        },
    }
}

/// An owned copy of a change event, equal in view.
pub fn dup_change_event(e: &ChangeEvent) -> (r: ChangeEvent)
    ensures
        r@ == e@,
{
    match e {
        ChangeEvent::File(f) => ChangeEvent::File(dup_file_event(f)),
        ChangeEvent::Directory(d) => ChangeEvent::Directory(dup_directory_event(d)),
        ChangeEvent::Symlink { path } => ChangeEvent::Symlink { path: dup_bytes(path) },
    }
}

impl View for FileEvent {
    type V = FileEventV;

    open spec fn view(&self) -> FileEventV {
        match self {
            FileEvent::Create { path, size } => FileEventV::Create { path: path@, size: *size },
            FileEvent::Modify { path, size } => FileEventV::Modify { path: path@, size: *size },
            FileEvent::Delete { path } => FileEventV::Delete { path: path@ },
            FileEvent::Move { from_path, to_path } => FileEventV::Move {
                from_path: from_path@,
                to_path: to_path@,
            },
            FileEvent::UndoDelete { path } => FileEventV::UndoDelete { path: path@ },
        }
    }
}

impl View for DirectoryEvent {
    type V = DirectoryEventV;

    open spec fn view(&self) -> DirectoryEventV {
        match self {
            DirectoryEvent::Create { path } => DirectoryEventV::Create { path: path@ },
            DirectoryEvent::Delete { path } => DirectoryEventV::Delete { path: path@ },
            DirectoryEvent::Move { from_path, to_path } => DirectoryEventV::Move {
                from_path: from_path@,
                to_path: to_path@,
            },
            DirectoryEvent::UndoDelete { path } => DirectoryEventV::UndoDelete { path: path@ },
        }
    }
}

impl View for ChangeEvent {
    type V = ChangeEventV;

    open spec fn view(&self) -> ChangeEventV {
        match self {
            ChangeEvent::File(e) => ChangeEventV::File(e@),
            ChangeEvent::Directory(e) => ChangeEventV::Directory(e@),
            ChangeEvent::Symlink { path } => ChangeEventV::Symlink { path: path@ },
        }
    }
}

impl View for Transmission {
    type V = TransmissionV;

    open spec fn view(&self) -> TransmissionV {
        match self {
            Transmission::Greeting { client_id } => TransmissionV::Greeting {
                client_id: client_id@,
            },
            Transmission::Proceed => TransmissionV::Proceed,
            Transmission::SyncClientToServer { known_version, change_count } =>
                TransmissionV::SyncClientToServer {
                    known_version: *known_version,
                    change_count: *change_count,
                },
            Transmission::SyncServerToClient { known_version } =>
                TransmissionV::SyncServerToClient { known_version: *known_version },
            Transmission::ServerVersion { version } => TransmissionV::ServerVersion {
                version: *version,
            },
            Transmission::ChangeEvent(e) => TransmissionV::ChangeEvent(e@),
            Transmission::SkipCurrent => TransmissionV::SkipCurrent,
            Transmission::TransactionComplete => TransmissionV::TransactionComplete,
            Transmission::Failure { message } => TransmissionV::Failure { message: message@ },
        }
    }
}

} // verus!
