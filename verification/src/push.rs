use vstd::prelude::*;
use vstd::pervasive::VecAdditionalExecFns;

use crate::calculate_num_packets;
use crate::codec::{bytes_to_transmission_type, spec_decode, spec_encode,
    transmission_type_to_bytes};
use crate::data::{dup_bytes, dup_change_event, ChangeEvent, ChangeEventV, FileEvent, FileEventV,
    Transmission, TransmissionV};
use crate::paths::{join, spec_join, FileHandlerConfig};
use crate::spec_num_packets;
use crate::version::VersionCursor;

verus! {

// The push engine: the client-to-server session as a state machine. The
// machine makes every protocol decision; a driver around it performs the
// blocking work (socket reads and writes, stat and file reads, record
// deletion) and hands the results back in. The ordered list of pending
// changes comes from the offline-change detector; the machine only walks it
// and deletes each record once the server has acknowledged the change.

/// Where the push session stands.
pub enum PushState {
    /// About to send the greeting.
    Greet,
    /// Greeting sent; the remote must answer `Proceed`.
    AwaitGreetingAck,
    /// Header sent; `Proceed` grants permission, `ServerVersion` means the
    /// client is stale and must pull first.
    AwaitPermission,
    /// The current change is a file create or modify: waiting for the live
    /// size of the file, re-read just before transmission.
    AwaitSize,
    /// Change sent; the remote must acknowledge with `ServerVersion`.
    AwaitAck,
    /// Every change was acknowledged.
    Done,
    /// The session aborted; nothing more may be driven.
    Failed,
}

/// Mathematical view of a `PushState`.
pub enum PushStateV {
    Greet,
    AwaitGreetingAck,
    AwaitPermission,
    AwaitSize,
    AwaitAck,
    Done,
    Failed,
}

impl View for PushState {
    type V = PushStateV;

    open spec fn view(&self) -> PushStateV {
        match self {
            PushState::Greet => PushStateV::Greet,
            PushState::AwaitGreetingAck => PushStateV::AwaitGreetingAck,
            PushState::AwaitPermission => PushStateV::AwaitPermission,
            PushState::AwaitSize => PushStateV::AwaitSize,
            PushState::AwaitAck => PushStateV::AwaitAck,
            PushState::Done => PushStateV::Done,
            PushState::Failed => PushStateV::Failed,
        }
    }
}

/// What the driver hands the machine.
pub enum PushEvent {
    /// The session begins.
    Start,
    /// One framed chunk arrived.
    Chunk(Vec<u8>),
    /// The live byte length of the file the machine asked to stat.
    FileSized(u64),
}

/// Mathematical view of a `PushEvent`.
pub enum PushEventV {
    Start,
    Chunk(Seq<u8>),
    FileSized(u64),
}

impl View for PushEvent {
    type V = PushEventV;

    open spec fn view(&self) -> PushEventV {
        match self {
            PushEvent::Start => PushEventV::Start,
            PushEvent::Chunk(b) => PushEventV::Chunk(b@),
            PushEvent::FileSized(n) => PushEventV::FileSized(*n),
        }
    }
}

/// What the driver must do next, in order.
#[derive(Debug)]
pub enum PushAction {
    /// Frame and send these bytes.
    SendChunk(Vec<u8>),
    /// Read the next framed chunk and hand it back as `Chunk`.
    AwaitChunk,
    /// Stat the file at this storage path and hand back `FileSized`.
    StatFile(Vec<u8>),
    /// Read the file at `path` and send its bytes as exactly `chunk_count`
    /// raw chunks of at most `CHUNK_SIZE` bytes, no acknowledgment between
    /// them.
    StreamFile { path: Vec<u8>, chunk_count: u64 },
    /// Delete the pending-change record with this id: the change is
    /// committed.
    DeleteRecord(u64),
    /// The session completed successfully.
    Finish,
}

/// Mathematical view of a `PushAction`.
pub enum PushActionV {
    SendChunk(Seq<u8>),
    AwaitChunk,
    StatFile(Seq<u8>),
    StreamFile { path: Seq<u8>, chunk_count: u64 },
    DeleteRecord(u64),
    Finish,
}

impl View for PushAction {
    type V = PushActionV;

    open spec fn view(&self) -> PushActionV {
        match self {
            PushAction::SendChunk(b) => PushActionV::SendChunk(b@),
            PushAction::AwaitChunk => PushActionV::AwaitChunk,
            PushAction::StatFile(p) => PushActionV::StatFile(p@),
            PushAction::StreamFile { path, chunk_count } => PushActionV::StreamFile {
                path: path@,
                chunk_count: *chunk_count,
            },
            PushAction::DeleteRecord(id) => PushActionV::DeleteRecord(*id),
            PushAction::Finish => PushActionV::Finish,
        }
    }
}

/// Why a push session aborted.
#[derive(Debug, PartialEq, Eq, Structural)]
pub enum PushError {
    /// The remote did not answer the greeting with `Proceed`.
    HandshakeFailed,
    /// The server has advanced past what this client knows: pushing now
    /// would be based on stale state. Pull first, then push again.
    PullRequired,
    /// A message arrived that the current state does not accept.
    UnexpectedMessage,
    /// The remote acknowledged with a version lower than the cursor:
    /// versions never move backward.
    VersionRegression,
    /// The driver handed an event the current state cannot take.
    DriverMismatch,
}

/// Mathematical view of a whole session.
#[verifier::ext_equal]
pub struct PushV {
    pub storage_root: Seq<u8>,
    pub client_id: Seq<u8>,
    pub version: u64,
    pub changes: Seq<(u64, ChangeEventV)>,
    pub index: int,
    pub state: PushStateV,
}

/// One transition's outcome: the next session state and either the ordered
/// actions for the driver or the abort error.
#[verifier::ext_equal]
pub struct PushOutcome {
    pub post: PushV,
    pub result: Result<Seq<PushActionV>, PushError>,
}

/// The views of a pending-change list.
pub open spec fn changes_view(cs: Seq<(u64, ChangeEvent)>) -> Seq<(u64, ChangeEventV)> {
    cs.map_values(|c: (u64, ChangeEvent)| (c.0, c.1@))
}

pub open spec fn push_fail(s: PushV, e: PushError) -> PushOutcome {
    PushOutcome { post: PushV { state: PushStateV::Failed, ..s }, result: Err(e) }
}

/// What happens when the machine turns to the change at `index`: past the
/// end the session is done; a file create or modify first asks for the live
/// size; anything else is sent as it stands.
pub open spec fn push_dispatch(
    storage_root: Seq<u8>,
    changes: Seq<(u64, ChangeEventV)>,
    index: int,
) -> (PushStateV, Seq<PushActionV>) {
    if index >= changes.len() {
        (PushStateV::Done, seq![PushActionV::Finish])
    } else {
        match changes[index].1 {
            ChangeEventV::File(FileEventV::Create { path, size }) => (
                PushStateV::AwaitSize,
                seq![PushActionV::StatFile(spec_join(storage_root, path))],
            ),
            ChangeEventV::File(FileEventV::Modify { path, size }) => (
                PushStateV::AwaitSize,
                seq![PushActionV::StatFile(spec_join(storage_root, path))],
            ),
            e => (
                PushStateV::AwaitAck,
                seq![
                    PushActionV::SendChunk(spec_encode(TransmissionV::ChangeEvent(e))),
                    PushActionV::AwaitChunk,
                ],
            ),
        }
    }
}

/// The current change with its advisory size replaced by the live one.
pub open spec fn sized_event(e: ChangeEventV, n: u64) -> ChangeEventV {
    match e {
        ChangeEventV::File(FileEventV::Create { path, size }) => ChangeEventV::File(
            FileEventV::Create { path, size: n },
        ),
        ChangeEventV::File(FileEventV::Modify { path, size }) => ChangeEventV::File(
            FileEventV::Modify { path, size: n },
        ),
        _ => e,
    }
}

/// The whole transition relation of the push session. The cursor
/// (`version`) never decreases in any arm.
pub open spec fn push_next(s: PushV, ev: PushEventV) -> PushOutcome {
    match (s.state, ev) {
        (PushStateV::Greet, PushEventV::Start) => PushOutcome {
            post: PushV { state: PushStateV::AwaitGreetingAck, ..s },
            result: Ok(
                seq![
                    PushActionV::SendChunk(
                        spec_encode(TransmissionV::Greeting { client_id: s.client_id }),
                    ),
                    PushActionV::AwaitChunk,
                ],
            ),
        },
        (PushStateV::AwaitGreetingAck, PushEventV::Chunk(b)) => match spec_decode(b) {
            Some(TransmissionV::Proceed) => PushOutcome {
                post: PushV { state: PushStateV::AwaitPermission, ..s },
                result: Ok(
                    seq![
                        PushActionV::SendChunk(
                            spec_encode(
                                TransmissionV::SyncClientToServer {
                                    known_version: s.version,
                                    change_count: s.changes.len() as u64,
                                },
                            ),
                        ),
                        PushActionV::AwaitChunk,
                    ],
                ),
            },
            _ => push_fail(s, PushError::HandshakeFailed),
        },
        (PushStateV::AwaitPermission, PushEventV::Chunk(b)) => match spec_decode(b) {
            Some(TransmissionV::Proceed) => {
                let d = push_dispatch(s.storage_root, s.changes, s.index);
                PushOutcome { post: PushV { state: d.0, ..s }, result: Ok(d.1) }
            },
            // The optimistic-concurrency guard: the server has moved on, so
            // this push is refused before any change content is sent.
            Some(TransmissionV::ServerVersion { version }) => push_fail(
                s,
                PushError::PullRequired,
            ),
            _ => push_fail(s, PushError::UnexpectedMessage),
        },
        (PushStateV::AwaitSize, PushEventV::FileSized(n)) => {
            if 0 <= s.index < s.changes.len() {
                match s.changes[s.index].1 {
                    ChangeEventV::File(FileEventV::Create { path, size }) => {
                        let e2 = sized_event(s.changes[s.index].1, n);
                        PushOutcome {
                            post: PushV {
                                changes: s.changes.update(s.index, (s.changes[s.index].0, e2)),
                                state: PushStateV::AwaitAck,
                                ..s
                            },
                            result: Ok(
                                seq![
                                    PushActionV::SendChunk(
                                        spec_encode(TransmissionV::ChangeEvent(e2)),
                                    ),
                                    PushActionV::StreamFile {
                                        path: spec_join(s.storage_root, path),
                                        chunk_count: spec_num_packets(n) as u64,
                                    },
                                    PushActionV::AwaitChunk,
                                ],
                            ),
                        }
                    },
                    ChangeEventV::File(FileEventV::Modify { path, size }) => {
                        let e2 = sized_event(s.changes[s.index].1, n);
                        PushOutcome {
                            post: PushV {
                                changes: s.changes.update(s.index, (s.changes[s.index].0, e2)),
                                state: PushStateV::AwaitAck,
                                ..s
                            },
                            result: Ok(
                                seq![
                                    PushActionV::SendChunk(
                                        spec_encode(TransmissionV::ChangeEvent(e2)),
                                    ),
                                    PushActionV::StreamFile {
                                        path: spec_join(s.storage_root, path),
                                        chunk_count: spec_num_packets(n) as u64,
                                    },
                                    PushActionV::AwaitChunk,
                                ],
                            ),
                        }
                    },
                    _ => push_fail(s, PushError::DriverMismatch),
                }
            } else {
                push_fail(s, PushError::DriverMismatch)
            }
        },
        (PushStateV::AwaitAck, PushEventV::Chunk(b)) => match spec_decode(b) {
            Some(TransmissionV::ServerVersion { version }) => {
                if !(0 <= s.index < s.changes.len()) {
                    push_fail(s, PushError::DriverMismatch)
                } else if version >= s.version {
                    let d = push_dispatch(s.storage_root, s.changes, s.index + 1);
                    PushOutcome {
                        post: PushV { version, index: s.index + 1, state: d.0, ..s },
                        result: Ok(
                            seq![PushActionV::DeleteRecord(s.changes[s.index].0)] + d.1,
                        ),
                    }
                } else {
                    push_fail(s, PushError::VersionRegression)
                }
            },
            _ => push_fail(s, PushError::UnexpectedMessage),
        },
        _ => push_fail(s, PushError::DriverMismatch),
    }
}

/// Until the server grants permission, no transition streams file content
/// or deletes a pending-change record. Together with the gating above: a
/// stale push ends with every byte of content unsent and every record
/// intact.
pub proof fn lemma_no_content_before_permission(s: PushV, ev: PushEventV)
    requires
        s.state is Greet || s.state is AwaitGreetingAck || s.state is AwaitPermission,
    ensures
        match push_next(s, ev).result {
            Ok(acts) => forall|i: int|
                0 <= i < acts.len() ==> !((#[trigger] acts[i]) is StreamFile) && !(acts[i]
                    is DeleteRecord),
            Err(_) => true,
        },
{
}

/// Version monotonicity: no transition moves the cursor backward. A remote
/// acknowledgment with a lower version aborts the session with the cursor
/// intact.
pub proof fn lemma_push_version_monotonic(s: PushV, ev: PushEventV)
    ensures
        push_next(s, ev).post.version >= s.version,
{
}

/// An action result seen mathematically.
pub open spec fn push_result_view(r: Result<Vec<PushAction>, PushError>) -> Result<
    Seq<PushActionV>,
    PushError,
> {
    match r {
        Ok(v) => Ok(v@.map_values(|a: PushAction| a@)),
        Err(e) => Err(e),
    }
}

/// The client-to-server session.
pub struct PushSession {
    config: FileHandlerConfig,
    client_id: Vec<u8>,
    cursor: VersionCursor,
    changes: Vec<(u64, ChangeEvent)>,
    index: usize,
    state: PushState,
}

impl View for PushSession {
    type V = PushV;

    closed spec fn view(&self) -> PushV {
        PushV {
            storage_root: self.config.storage_directory@,
            client_id: self.client_id@,
            version: self.cursor@,
            changes: changes_view(self.changes@),
            index: self.index as int,
            state: self.state@,
        }
    }
}

fn take_state(st: &mut PushState) -> (r: PushState)
    ensures
        r == *old(st),
        *final(st) == PushState::Failed,
{
    let mut tmp = PushState::Failed;
    core::mem::swap(st, &mut tmp);
    tmp
}

impl PushSession {
    /// A fresh session over the detector's ordered, deduplicated pending
    /// changes, with the cursor as loaded from disk.
    pub fn new(
        config: FileHandlerConfig,
        client_id: Vec<u8>,
        cursor: VersionCursor,
        changes: Vec<(u64, ChangeEvent)>,
    ) -> (r: Self)
        ensures
            r@ == (PushV {
                storage_root: config.storage_directory@,
                client_id: client_id@,
                version: cursor@,
                changes: changes_view(changes@),
                index: 0,
                state: PushStateV::Greet,
            }),
    {
        PushSession { config, client_id, cursor, changes, index: 0, state: PushState::Greet }
    }

    /// The last server revision observed, to be persisted at session end.
    pub fn server_version(&self) -> (r: u64)
        ensures
            r == self@.version,
    {
        self.cursor.server_version()
    }

    pub fn is_done(&self) -> (r: bool)
        ensures
            r == (self@.state is Done),
    {
        match self.state {
            PushState::Done => true,
            _ => false,
        }
    }

    /// Turns to the change at `self.index`, as `push_dispatch` says.
    fn dispatch(&self) -> (r: (PushState, Vec<PushAction>))
        ensures
            ({
                let d = push_dispatch(self@.storage_root, self@.changes, self@.index);
                &&& r.0@ == d.0
                &&& r.1@.map_values(|a: PushAction| a@) == d.1
            }),
    {
        let ghost d = push_dispatch(self@.storage_root, self@.changes, self@.index);
        if self.index >= self.changes.len() {
            let mut acts: Vec<PushAction> = Vec::new();
            acts.push(PushAction::Finish);
            proof {
                assert(acts@.map_values(|a: PushAction| a@) =~= d.1);
            }
            (PushState::Done, acts)
        } else {
            let (_, ref ev) = self.changes[self.index];
            match ev {
                ChangeEvent::File(FileEvent::Create { path, size }) => {
                    let mut acts: Vec<PushAction> = Vec::new();
                    acts.push(PushAction::StatFile(join(&self.config.storage_directory, path)));
                    proof {
                        assert(acts@.map_values(|a: PushAction| a@) =~= d.1);
                    }
                    (PushState::AwaitSize, acts)
                },
                ChangeEvent::File(FileEvent::Modify { path, size }) => {
                    let mut acts: Vec<PushAction> = Vec::new();
                    acts.push(PushAction::StatFile(join(&self.config.storage_directory, path)));
                    proof {
                        assert(acts@.map_values(|a: PushAction| a@) =~= d.1);
                    }
                    (PushState::AwaitSize, acts)
                },
                _ => {
                    let t = Transmission::ChangeEvent(dup_change_event(ev));
                    let bytes = transmission_type_to_bytes(&t);
                    let mut acts: Vec<PushAction> = Vec::new();
                    acts.push(PushAction::SendChunk(bytes));
                    acts.push(PushAction::AwaitChunk);
                    proof {
                        assert(acts@.map_values(|a: PushAction| a@) =~= d.1);
                    }
                    (PushState::AwaitAck, acts)
                },
            }
        }
    }

    /// One transition: exactly `push_next` on the session's view. The
    /// version cursor never decreases.
    pub fn step(&mut self, ev: PushEvent) -> (r: Result<Vec<PushAction>, PushError>)
        ensures
            final(self)@ == push_next(old(self)@, ev@).post,
            push_result_view(r) == push_next(old(self)@, ev@).result,
            final(self)@.version >= old(self)@.version,
    {
        let ghost pre = self@;
        let ghost evv = ev@;
        let st = take_state(&mut self.state);
        match (st, ev) {
            (PushState::Greet, PushEvent::Start) => {
                let greeting = Transmission::Greeting { client_id: dup_bytes(&self.client_id) };
                let bytes = transmission_type_to_bytes(&greeting);
                let mut acts: Vec<PushAction> = Vec::new();
                acts.push(PushAction::SendChunk(bytes));
                acts.push(PushAction::AwaitChunk);
                self.state = PushState::AwaitGreetingAck;
                proof {
                    assert(self@ =~= push_next(pre, evv).post);
                    assert(acts@.map_values(|a: PushAction| a@) =~= push_next(
                        pre,
                        evv,
                    ).result->Ok_0);
                }
                Ok(acts)
            },
            (PushState::AwaitGreetingAck, PushEvent::Chunk(b)) => {
                match bytes_to_transmission_type(b.as_slice()) {
                    Ok(Transmission::Proceed) => {
                        let header = Transmission::SyncClientToServer {
                            known_version: self.cursor.server_version(),
                            change_count: self.changes.len() as u64,
                        };
                        let bytes = transmission_type_to_bytes(&header);
                        let mut acts: Vec<PushAction> = Vec::new();
                        acts.push(PushAction::SendChunk(bytes));
                        acts.push(PushAction::AwaitChunk);
                        self.state = PushState::AwaitPermission;
                        proof {
                            assert(self@ =~= push_next(pre, evv).post);
                            assert(acts@.map_values(|a: PushAction| a@) =~= push_next(
                                pre,
                                evv,
                            ).result->Ok_0);
                        }
                        Ok(acts)
                    },
                    _ => {
                        proof {
                            assert(self@ =~= push_next(pre, evv).post);
                        }
                        Err(PushError::HandshakeFailed)
                    },
                }
            },
            (PushState::AwaitPermission, PushEvent::Chunk(b)) => {
                match bytes_to_transmission_type(b.as_slice()) {
                    Ok(Transmission::Proceed) => {
                        let (next, acts) = self.dispatch();
                        self.state = next;
                        proof {
                            assert(self@ =~= push_next(pre, evv).post);
                            assert(acts@.map_values(|a: PushAction| a@) == push_next(
                                pre,
                                evv,
                            ).result->Ok_0);
                        }
                        Ok(acts)
                    },
                    Ok(Transmission::ServerVersion { version: _ }) => {
                        proof {
                            assert(self@ =~= push_next(pre, evv).post);
                        }
                        Err(PushError::PullRequired)
                    },
                    _ => {
                        proof {
                            assert(self@ =~= push_next(pre, evv).post);
                        }
                        Err(PushError::UnexpectedMessage)
                    },
                }
            },
            (PushState::AwaitSize, PushEvent::FileSized(n)) => {
                if self.index >= self.changes.len() {
                    proof {
                        assert(self@ =~= push_next(pre, evv).post);
                    }
                    return Err(PushError::DriverMismatch);
                }
                let (is_create, pathv) = match &self.changes[self.index].1 {
                    ChangeEvent::File(FileEvent::Create { path, size }) => (
                        true,
                        dup_bytes(path),
                    ),
                    ChangeEvent::File(FileEvent::Modify { path, size }) => (
                        false,
                        dup_bytes(path),
                    ),
                    _ => {
                        proof {
                            assert(self@ =~= push_next(pre, evv).post);
                        }
                        return Err(PushError::DriverMismatch);
                    },
                };
                let id = self.changes[self.index].0;
                let ev_store = if is_create {
                    ChangeEvent::File(FileEvent::Create { path: dup_bytes(&pathv), size: n })
                } else {
                    ChangeEvent::File(FileEvent::Modify { path: dup_bytes(&pathv), size: n })
                };
                let ev_send = if is_create {
                    ChangeEvent::File(FileEvent::Create { path: dup_bytes(&pathv), size: n })
                } else {
                    ChangeEvent::File(FileEvent::Modify { path: dup_bytes(&pathv), size: n })
                };
                let t = Transmission::ChangeEvent(ev_send);
                let bytes = transmission_type_to_bytes(&t);
                let stream_path = join(&self.config.storage_directory, &pathv);
                let packets = calculate_num_packets(n);
                self.changes.set(self.index, (id, ev_store));
                self.state = PushState::AwaitAck;
                let mut acts: Vec<PushAction> = Vec::new();
                acts.push(PushAction::SendChunk(bytes));
                acts.push(PushAction::StreamFile { path: stream_path, chunk_count: packets });
                acts.push(PushAction::AwaitChunk);
                proof {
                    assert(changes_view(self.changes@) =~= pre.changes.update(
                        pre.index,
                        (pre.changes[pre.index].0, sized_event(pre.changes[pre.index].1, n)),
                    ));
                    assert(self@ =~= push_next(pre, evv).post);
                    assert(acts@.map_values(|a: PushAction| a@) =~= push_next(
                        pre,
                        evv,
                    ).result->Ok_0);
                }
                Ok(acts)
            },
            (PushState::AwaitAck, PushEvent::Chunk(b)) => {
                match bytes_to_transmission_type(b.as_slice()) {
                    Ok(Transmission::ServerVersion { version }) => {
                        if self.index >= self.changes.len() {
                            proof {
                                assert(self@ =~= push_next(pre, evv).post);
                            }
                            Err(PushError::DriverMismatch)
                        } else if self.cursor.set(version) {
                            let id = self.changes[self.index].0;
                            self.index = self.index + 1;
                            let (next, rest) = self.dispatch();
                            self.state = next;
                            let mut acts: Vec<PushAction> = Vec::new();
                            acts.push(PushAction::DeleteRecord(id));
                            let mut rest = rest;
                            acts.append(&mut rest);
                            proof {
                                assert(self@ =~= push_next(pre, evv).post);
                                assert(acts@.map_values(|a: PushAction| a@) =~= push_next(
                                    pre,
                                    evv,
                                ).result->Ok_0);
                            }
                            Ok(acts)
                        } else {
                            proof {
                                assert(self@ =~= push_next(pre, evv).post);
                            }
                            Err(PushError::VersionRegression)
                        }
                    },
                    _ => {
                        proof {
                            assert(self@ =~= push_next(pre, evv).post);
                        }
                        Err(PushError::UnexpectedMessage)
                    },
                }
            },
            _ => {
                proof {
                    assert(self@ =~= push_next(pre, evv).post);
                }
                Err(PushError::DriverMismatch)
            },
        }
    }
}

/// Push gating: at the permission gate a `ServerVersion` reply — the server
/// is ahead of `known_version` — ends the session at once with the
/// pull-required outcome. No action is handed to the driver, so no change
/// content is sent, and the cursor is untouched.
pub proof fn lemma_push_gating(s: PushV, b: Seq<u8>, v: u64)
    requires
        s.state == PushStateV::AwaitPermission,
        spec_decode(b) == Some(TransmissionV::ServerVersion { version: v }),
    ensures
        push_next(s, PushEventV::Chunk(b)).result == Err::<Seq<PushActionV>, PushError>(
            PushError::PullRequired,
        ),
        push_next(s, PushEventV::Chunk(b)).post.state is Failed,
        push_next(s, PushEventV::Chunk(b)).post.version == s.version,
        push_next(s, PushEventV::Chunk(b)).post.changes == s.changes,
{
}

/// Packet count, sending side: when the live size of the current file
/// create or modify comes back as `n`, the machine orders the file streamed
/// as exactly `ceil(n / CHUNK_SIZE)` raw chunks, right after the sized
/// change event and before awaiting the acknowledgment.
pub proof fn lemma_stream_packet_count(s: PushV, n: u64, path: Seq<u8>)
    requires
        s.state == PushStateV::AwaitSize,
        0 <= s.index < s.changes.len(),
        (exists|size0: u64|
            s.changes[s.index].1 == ChangeEventV::File(
                FileEventV::Create { path, size: size0 },
            )) || (exists|size0: u64|
            s.changes[s.index].1 == ChangeEventV::File(
                FileEventV::Modify { path, size: size0 },
            )),
    ensures
        push_next(s, PushEventV::FileSized(n)).result is Ok,
        push_next(s, PushEventV::FileSized(n)).result->Ok_0[1] == (PushActionV::StreamFile {
            path: spec_join(s.storage_root, path),
            chunk_count: spec_num_packets(n) as u64,
        }),
{
}

} // verus!
