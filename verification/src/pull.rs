use vstd::prelude::*;

use crate::apply::{
    apply_ops, handle_server_to_client_change_event, ops_view, spec_plan_event, ApplyError,
    ChangePlan, FsModel, FsOp, FsOpV,
};
use crate::codec::{bytes_to_transmission_type, spec_decode, spec_encode,
    transmission_type_to_bytes};
use crate::data::{dup_bytes, ChangeEventV, FileEventV, Transmission, TransmissionV};
use crate::paths::FileHandlerConfig;
use crate::version::VersionCursor;

verus! {

// The pull engine: the server-to-client session as a state machine. The
// machine makes every protocol decision; a driver around it performs the
// blocking work (socket reads and writes, filesystem mutations) and hands
// each received chunk back in. One connection, strictly alternating
// send/receive, no concurrency.

/// Where the pull session stands.
pub enum PullState {
    /// About to send the greeting.
    Greet,
    /// Greeting sent; the remote must answer `Proceed`.
    AwaitGreetingAck,
    /// Header sent; expecting a change event, a version, a skip, or the end.
    AwaitEvent,
    /// Mid-file: `remaining` raw content chunks are still owed for `path`;
    /// `post_ops` run once the content is complete.
    Receiving { path: Vec<u8>, remaining: u64, post_ops: Vec<FsOp> },
    /// A change event was applied; expecting the version or the end.
    AwaitOutcome,
    /// The remote completed the transaction.
    Done,
    /// The session aborted; nothing more may be driven.
    Failed,
}

/// Mathematical view of a `PullState`.
pub enum PullStateV {
    Greet,
    AwaitGreetingAck,
    AwaitEvent,
    Receiving { path: Seq<u8>, remaining: u64, post_ops: Seq<FsOpV> },
    AwaitOutcome,
    Done,
    Failed,
}

impl View for PullState {
    type V = PullStateV;

    open spec fn view(&self) -> PullStateV {
        match self {
            PullState::Greet => PullStateV::Greet,
            PullState::AwaitGreetingAck => PullStateV::AwaitGreetingAck,
            PullState::AwaitEvent => PullStateV::AwaitEvent,
            PullState::Receiving { path, remaining, post_ops } => PullStateV::Receiving {
                path: path@,
                remaining: *remaining,
                post_ops: ops_view(post_ops@),
            },
            PullState::AwaitOutcome => PullStateV::AwaitOutcome,
            PullState::Done => PullStateV::Done,
            PullState::Failed => PullStateV::Failed,
        }
    }
}

/// What the driver hands the machine.
pub enum PullEvent {
    /// The session begins.
    Start,
    /// One framed chunk arrived.
    Chunk(Vec<u8>),
}

/// Mathematical view of a `PullEvent`.
pub enum PullEventV {
    Start,
    Chunk(Seq<u8>),
}

impl View for PullEvent {
    type V = PullEventV;

    open spec fn view(&self) -> PullEventV {
        match self {
            PullEvent::Start => PullEventV::Start,
            PullEvent::Chunk(b) => PullEventV::Chunk(b@),
        }
    }
}

/// What the driver must do next, in order.
#[derive(Debug)]
pub enum PullAction {
    /// Frame and send these bytes.
    SendChunk(Vec<u8>),
    /// Read the next framed chunk and hand it back as `Chunk`.
    AwaitChunk,
    /// Perform this filesystem mutation; a failure aborts the session.
    Fs(FsOp),
    /// The session completed successfully.
    Finish,
}

/// Mathematical view of a `PullAction`.
pub enum PullActionV {
    SendChunk(Seq<u8>),
    AwaitChunk,
    Fs(FsOpV),
    Finish,
}

impl View for PullAction {
    type V = PullActionV;

    open spec fn view(&self) -> PullActionV {
        match self {
            PullAction::SendChunk(b) => PullActionV::SendChunk(b@),
            PullAction::AwaitChunk => PullActionV::AwaitChunk,
            PullAction::Fs(op) => PullActionV::Fs(op@),
            PullAction::Finish => PullActionV::Finish,
        }
    }
}

/// Why a pull session aborted.
#[derive(Debug, PartialEq, Eq, Structural)]
pub enum PullError {
    /// The remote did not answer the greeting with `Proceed`.
    HandshakeFailed,
    /// A message arrived that the current state does not accept.
    UnexpectedMessage,
    /// The remote reported a version lower than the cursor: versions never
    /// move backward.
    VersionRegression,
    /// The event is not supported (UndoDelete, symlink changes).
    UnsupportedChange,
    /// The event's relative path was refused by the projector.
    InvalidPath,
    /// The driver handed an event the current state cannot take.
    DriverMismatch,
}

/// Mathematical view of a whole session.
#[verifier::ext_equal]
pub struct PullV {
    pub storage_root: Seq<u8>,
    pub view_root: Seq<u8>,
    pub meta_root: Seq<u8>,
    pub client_id: Seq<u8>,
    pub version: u64,
    pub state: PullStateV,
}

/// One transition's outcome: the next session state and either the ordered
/// actions for the driver or the abort error.
#[verifier::ext_equal]
pub struct PullOutcome {
    pub post: PullV,
    pub result: Result<Seq<PullActionV>, PullError>,
}

/// Mutations as driver actions.
pub open spec fn fs_acts(ops: Seq<FsOpV>) -> Seq<PullActionV> {
    ops.map_values(|op: FsOpV| PullActionV::Fs(op))
}

pub open spec fn pull_fail(s: PullV, e: PullError) -> PullOutcome {
    PullOutcome { post: PullV { state: PullStateV::Failed, ..s }, result: Err(e) }
}

/// The whole transition relation of the pull session. The cursor (`version`)
/// never decreases in any arm.
pub open spec fn pull_next(s: PullV, ev: PullEventV) -> PullOutcome {
    match (s.state, ev) {
        (PullStateV::Greet, PullEventV::Start) => PullOutcome {
            post: PullV { state: PullStateV::AwaitGreetingAck, ..s },
            result: Ok(
                seq![
                    PullActionV::SendChunk(
                        spec_encode(TransmissionV::Greeting { client_id: s.client_id }),
                    ),
                    PullActionV::AwaitChunk,
                ],
            ),
        },
        (PullStateV::AwaitGreetingAck, PullEventV::Chunk(b)) => match spec_decode(b) {
            Some(TransmissionV::Proceed) => PullOutcome {
                post: PullV { state: PullStateV::AwaitEvent, ..s },
                result: Ok(
                    seq![
                        PullActionV::SendChunk(
                            spec_encode(
                                TransmissionV::SyncServerToClient { known_version: s.version },
                            ),
                        ),
                        PullActionV::AwaitChunk,
                    ],
                ),
            },
            _ => pull_fail(s, PullError::HandshakeFailed),
        },
        (PullStateV::AwaitEvent, PullEventV::Chunk(b)) => match spec_decode(b) {
            Some(TransmissionV::ChangeEvent(e)) => match spec_plan_event(
                s.storage_root,
                s.view_root,
                s.meta_root,
                e,
            ) {
                Ok(plan) => match plan.content {
                    Some((path, n)) => if n > 0 {
                        PullOutcome {
                            post: PullV {
                                state: PullStateV::Receiving {
                                    path,
                                    remaining: n,
                                    post_ops: plan.post_ops,
                                },
                                ..s
                            },
                            result: Ok(fs_acts(plan.pre_ops) + seq![PullActionV::AwaitChunk]),
                        }
                    } else {
                        PullOutcome {
                            post: PullV { state: PullStateV::AwaitOutcome, ..s },
                            result: Ok(
                                fs_acts(plan.pre_ops) + fs_acts(plan.post_ops)
                                    + seq![PullActionV::AwaitChunk],
                            ),
                        }
                    },
                    None => PullOutcome {
                        post: PullV { state: PullStateV::AwaitOutcome, ..s },
                        result: Ok(
                            fs_acts(plan.pre_ops) + fs_acts(plan.post_ops)
                                + seq![PullActionV::AwaitChunk],
                        ),
                    },
                },
                Err(ApplyError::UnsupportedChange) => pull_fail(s, PullError::UnsupportedChange),
                Err(ApplyError::InvalidPath) => pull_fail(s, PullError::InvalidPath),
            },
            Some(TransmissionV::SkipCurrent) => PullOutcome {
                post: PullV { state: PullStateV::AwaitEvent, ..s },
                result: Ok(seq![PullActionV::AwaitChunk]),
            },
            Some(TransmissionV::TransactionComplete) => PullOutcome {
                post: PullV { state: PullStateV::Done, ..s },
                result: Ok(seq![PullActionV::Finish]),
            },
            Some(TransmissionV::ServerVersion { version }) => if version >= s.version {
                PullOutcome {
                    post: PullV { state: PullStateV::AwaitEvent, version, ..s },
                    result: Ok(seq![PullActionV::AwaitChunk]),
                }
            } else {
                pull_fail(s, PullError::VersionRegression)
            },
            _ => pull_fail(s, PullError::UnexpectedMessage),
        },
        (PullStateV::Receiving { path, remaining, post_ops }, PullEventV::Chunk(b)) => match
            spec_decode(b) {
            // The remote withdrew the file mid-stream: keep whatever was
            // written, no error, move on to the outcome.
            Some(TransmissionV::SkipCurrent) => PullOutcome {
                post: PullV { state: PullStateV::AwaitOutcome, ..s },
                result: Ok(seq![PullActionV::AwaitChunk]),
            },
            Some(_) => pull_fail(s, PullError::UnexpectedMessage),
            // Bytes that decode as no message are literal file content.
            None => if remaining > 1 {
                PullOutcome {
                    post: PullV {
                        state: PullStateV::Receiving {
                            path,
                            remaining: (remaining - 1) as u64,
                            post_ops,
                        },
                        ..s
                    },
                    result: Ok(
                        seq![
                            PullActionV::Fs(FsOpV::AppendFile { path, bytes: b }),
                            PullActionV::AwaitChunk,
                        ],
                    ),
                }
            } else {
                PullOutcome {
                    post: PullV { state: PullStateV::AwaitOutcome, ..s },
                    result: Ok(
                        seq![PullActionV::Fs(FsOpV::AppendFile { path, bytes: b })] + fs_acts(
                            post_ops,
                        ) + seq![PullActionV::AwaitChunk],
                    ),
                }
            },
        },
        (PullStateV::AwaitOutcome, PullEventV::Chunk(b)) => match spec_decode(b) {
            Some(TransmissionV::ServerVersion { version }) => if version >= s.version {
                PullOutcome {
                    post: PullV { state: PullStateV::AwaitEvent, version, ..s },
                    result: Ok(seq![PullActionV::AwaitChunk]),
                }
            } else {
                pull_fail(s, PullError::VersionRegression)
            },
            Some(TransmissionV::TransactionComplete) => PullOutcome {
                post: PullV { state: PullStateV::Done, ..s },
                result: Ok(seq![PullActionV::Finish]),
            },
            _ => pull_fail(s, PullError::UnexpectedMessage),
        },
        _ => pull_fail(s, PullError::DriverMismatch),
    }
}

// --- packet count on the receiving side ---

/// The filesystem mutations among a batch of actions, in order.
pub open spec fn fs_ops_of(acts: Seq<PullActionV>) -> Seq<FsOpV>
    decreases acts.len(),
{
    if acts.len() == 0 {
        Seq::empty()
    } else {
        match acts.first() {
            PullActionV::Fs(op) => seq![op] + fs_ops_of(acts.drop_first()),
            _ => fs_ops_of(acts.drop_first()),
        }
    }
}

/// Feeding one chunk after another: the session state at the end, every
/// filesystem mutation emitted on the way, and whether every step succeeded.
pub open spec fn pull_feed(s: PullV, chunks: Seq<Seq<u8>>) -> (PullV, Seq<FsOpV>, bool)
    decreases chunks.len(),
{
    if chunks.len() == 0 {
        (s, Seq::empty(), true)
    } else {
        let o = pull_next(s, PullEventV::Chunk(chunks.first()));
        match o.result {
            Ok(acts) => {
                let rest = pull_feed(o.post, chunks.drop_first());
                (rest.0, fs_ops_of(acts) + rest.1, rest.2)
            },
            Err(e) => (o.post, Seq::empty(), false),
        }
    }
}

proof fn lemma_fs_ops_of_app(a: Seq<PullActionV>, b: Seq<PullActionV>)
    ensures
        fs_ops_of(a + b) == fs_ops_of(a) + fs_ops_of(b),
    decreases a.len(),
{
    if a.len() == 0 {
        assert(a + b =~= b);
        assert(fs_ops_of(a) + fs_ops_of(b) =~= fs_ops_of(b));
    } else {
        assert((a + b).first() == a.first());
        assert((a + b).drop_first() =~= a.drop_first() + b);
        lemma_fs_ops_of_app(a.drop_first(), b);
        match a.first() {
            PullActionV::Fs(op) => {
                assert(seq![op] + (fs_ops_of(a.drop_first()) + fs_ops_of(b)) =~= (seq![op]
                    + fs_ops_of(a.drop_first())) + fs_ops_of(b));
            },
            _ => {},
        }
    }
}

proof fn lemma_fs_ops_of_fs_acts(ops: Seq<FsOpV>)
    ensures
        fs_ops_of(fs_acts(ops)) == ops,
    decreases ops.len(),
{
    if ops.len() == 0 {
        assert(fs_ops_of(fs_acts(ops)) =~= ops);
    } else {
        assert(fs_acts(ops).first() == PullActionV::Fs(ops.first()));
        assert(fs_acts(ops).drop_first() =~= fs_acts(ops.drop_first()));
        lemma_fs_ops_of_fs_acts(ops.drop_first());
        assert(seq![ops.first()] + ops.drop_first() =~= ops);
    }
}

proof fn lemma_fs_ops_of_one_fs(op: FsOpV)
    ensures
        fs_ops_of(seq![PullActionV::Fs(op)]) == seq![op],
{
    reveal_with_fuel(fs_ops_of, 2);
    assert(seq![PullActionV::Fs(op)].drop_first() =~= Seq::<PullActionV>::empty());
    assert(seq![op] + Seq::<FsOpV>::empty() =~= seq![op]);
}

/// Packet count, receiving side: a file announced as `n` raw chunks is
/// complete after exactly `n` content chunks (bytes that decode as no
/// message). Every step succeeds, the reception ends awaiting the outcome,
/// the version is untouched, and the emitted mutations are exactly the `n`
/// appends followed by the plan's closing steps.
pub proof fn lemma_reception_packet_count(
    s: PullV,
    path: Seq<u8>,
    n: u64,
    post: Seq<FsOpV>,
    chunks: Seq<Seq<u8>>,
)
    requires
        s.state == (PullStateV::Receiving { path, remaining: n, post_ops: post }),
        n >= 1,
        chunks.len() == n as int,
        forall|i: int| 0 <= i < chunks.len() ==> spec_decode(#[trigger] chunks[i]) is None,
    ensures
        pull_feed(s, chunks).2,
        pull_feed(s, chunks).0.state is AwaitOutcome,
        pull_feed(s, chunks).0.version == s.version,
        pull_feed(s, chunks).1 == crate::apply::append_ops(path, chunks) + post,
    decreases n,
{
    reveal_with_fuel(fs_ops_of, 4);
    reveal_with_fuel(pull_feed, 3);
    let b = chunks.first();
    assert(spec_decode(chunks[0]) is None);
    let o = pull_next(s, PullEventV::Chunk(b));
    let ap = FsOpV::AppendFile { path, bytes: b };
    if n == 1 {
        let acts = seq![PullActionV::Fs(ap)] + fs_acts(post) + seq![PullActionV::AwaitChunk];
        assert(o.result == Ok::<Seq<PullActionV>, PullError>(acts));
        assert(chunks.drop_first().len() == 0);
        lemma_fs_ops_of_app(seq![PullActionV::Fs(ap)] + fs_acts(post), seq![
            PullActionV::AwaitChunk,
        ]);
        lemma_fs_ops_of_app(seq![PullActionV::Fs(ap)], fs_acts(post));
        lemma_fs_ops_of_one_fs(ap);
        lemma_fs_ops_of_fs_acts(post);
        assert(fs_ops_of(seq![PullActionV::AwaitChunk]) =~= Seq::<FsOpV>::empty());
        assert(pull_feed(o.post, chunks.drop_first()).1 =~= Seq::<FsOpV>::empty());
        assert(fs_ops_of(acts) + Seq::<FsOpV>::empty() =~= fs_ops_of(acts));
        assert(pull_feed(s, chunks).1 =~= fs_ops_of(acts));
        assert(crate::apply::append_ops(path, chunks) =~= seq![ap]);
        assert(fs_ops_of(acts) =~= crate::apply::append_ops(path, chunks) + post);
    } else {
        let acts = seq![PullActionV::Fs(ap), PullActionV::AwaitChunk];
        assert(o.result == Ok::<Seq<PullActionV>, PullError>(acts));
        let rest_chunks = chunks.drop_first();
        assert forall|i: int| 0 <= i < rest_chunks.len() implies spec_decode(
            #[trigger] rest_chunks[i],
        ) is None by {
            assert(rest_chunks[i] == chunks[i + 1]);
        }
        lemma_reception_packet_count(o.post, path, (n - 1) as u64, post, rest_chunks);
        assert(seq![PullActionV::Fs(ap), PullActionV::AwaitChunk].drop_first() =~= seq![
            PullActionV::AwaitChunk,
        ]);
        assert(seq![PullActionV::AwaitChunk].drop_first() =~= Seq::<PullActionV>::empty());
        assert(fs_ops_of(acts) =~= seq![ap]);
        assert(pull_feed(s, chunks).1 == fs_ops_of(acts) + pull_feed(o.post, rest_chunks).1);
        assert(seq![ap] + (crate::apply::append_ops(path, rest_chunks) + post) =~= crate::apply::append_ops(
            path,
            chunks,
        ) + post);
    }
}

/// End to end: a file create announced in the event loop and delivered in
/// full. The announcement is accepted, its content is complete after
/// exactly the announced number of chunks, and the mutations emitted along
/// the way leave the three projections consistent: the content store holds
/// exactly the received bytes at the projected content path, a metadata
/// sidecar exists, and the view links to the content path.
pub proof fn lemma_pull_file_create_end_to_end(
    s: PullV,
    rel: Seq<u8>,
    size: u64,
    b: Seq<u8>,
    chunks: Seq<Seq<u8>>,
    m0: FsModel,
)
    requires
        s.state is AwaitEvent,
        spec_decode(b) == Some(
            TransmissionV::ChangeEvent(
                ChangeEventV::File(FileEventV::Create { path: rel, size }),
            ),
        ),
        crate::paths::valid_rel_path(rel),
        size >= 1,
        chunks.len() == crate::spec_num_packets(size),
        forall|i: int| 0 <= i < chunks.len() ==> spec_decode(#[trigger] chunks[i]) is None,
    ensures
        ({
            let announce = pull_next(s, PullEventV::Chunk(b));
            let feed = pull_feed(announce.post, chunks);
            let cp = crate::paths::spec_join(s.storage_root, rel);
            let m1 = apply_ops(m0, fs_ops_of(announce.result->Ok_0) + feed.1);
            &&& announce.result is Ok
            &&& feed.2
            &&& feed.0.state is AwaitOutcome
            &&& feed.0.version == s.version
            &&& m1.files.dom().contains(cp)
            &&& m1.files[cp] == crate::apply::concat_chunks(chunks)
            &&& m1.metas.contains(crate::paths::spec_join(s.meta_root, rel))
            &&& m1.links.dom().contains(crate::paths::spec_join(s.view_root, rel))
            &&& m1.links[crate::paths::spec_join(s.view_root, rel)] == cp
        }),
{
    let cp = crate::paths::spec_join(s.storage_root, rel);
    let plan = crate::apply::plan_file_create(s.storage_root, s.view_root, s.meta_root, rel, size);
    let announce = pull_next(s, PullEventV::Chunk(b));
    // One chunk carries CHUNK_SIZE bytes, so the count fits u64 for every
    // size: the announced count as stored in the receiving state is the
    // mathematical one.
    assert(crate::spec_num_packets(size) <= size) by (nonlinear_arith)
        requires size >= 1;
    let n = crate::spec_num_packets(size) as u64;
    assert(n as int == crate::spec_num_packets(size));
    assert(n >= 1);
    assert(announce.result == Ok::<Seq<PullActionV>, PullError>(
        fs_acts(plan.pre_ops) + seq![PullActionV::AwaitChunk],
    ));
    assert(announce.post.state == (PullStateV::Receiving {
        path: cp,
        remaining: n,
        post_ops: plan.post_ops,
    }));
    lemma_fs_ops_of_app(fs_acts(plan.pre_ops), seq![PullActionV::AwaitChunk]);
    lemma_fs_ops_of_fs_acts(plan.pre_ops);
    assert(fs_ops_of(seq![PullActionV::AwaitChunk]) =~= Seq::<FsOpV>::empty()) by {
        reveal_with_fuel(fs_ops_of, 2);
        assert(seq![PullActionV::AwaitChunk].drop_first() =~= Seq::<PullActionV>::empty());
    };
    assert(fs_ops_of(announce.result->Ok_0) =~= plan.pre_ops);
    lemma_reception_packet_count(announce.post, cp, n, plan.post_ops, chunks);
    let feed = pull_feed(announce.post, chunks);
    assert(feed.1 == crate::apply::append_ops(cp, chunks) + plan.post_ops);
    assert(fs_ops_of(announce.result->Ok_0) + feed.1 =~= plan.pre_ops + crate::apply::append_ops(
        cp,
        chunks,
    ) + plan.post_ops);
    crate::apply::lemma_file_create_consistency(
        s.storage_root,
        s.view_root,
        s.meta_root,
        rel,
        size,
        m0,
        chunks,
    );
}

/// Version monotonicity: no transition moves the cursor backward. A remote
/// that reports a lower version aborts the session with the cursor intact.
pub proof fn lemma_pull_version_monotonic(s: PullV, ev: PullEventV)
    ensures
        pull_next(s, ev).post.version >= s.version,
{
}

/// Version monotonicity across a whole run of chunks.
pub proof fn lemma_pull_feed_version_monotonic(s: PullV, chunks: Seq<Seq<u8>>)
    ensures
        pull_feed(s, chunks).0.version >= s.version,
    decreases chunks.len(),
{
    if chunks.len() > 0 {
        let o = pull_next(s, PullEventV::Chunk(chunks.first()));
        lemma_pull_version_monotonic(s, PullEventV::Chunk(chunks.first()));
        match o.result {
            Ok(_) => {
                lemma_pull_feed_version_monotonic(o.post, chunks.drop_first());
            },
            Err(_) => {},
        }
    }
}

/// An action result seen mathematically.
pub open spec fn pull_result_view(r: Result<Vec<PullAction>, PullError>) -> Result<
    Seq<PullActionV>,
    PullError,
> {
    match r {
        Ok(v) => Ok(v@.map_values(|a: PullAction| a@)),
        Err(e) => Err(e),
    }
}

/// The server-to-client session.
pub struct PullSession {
    config: FileHandlerConfig,
    client_id: Vec<u8>,
    cursor: VersionCursor,
    state: PullState,
}

impl View for PullSession {
    type V = PullV;

    closed spec fn view(&self) -> PullV {
        PullV {
            storage_root: self.config.storage_directory@,
            view_root: self.config.symlink_directory@,
            meta_root: self.config.metadata_directory@,
            client_id: self.client_id@,
            version: self.cursor@,
            state: self.state@,
        }
    }
}

fn take_state(st: &mut PullState) -> (r: PullState)
    ensures
        r == *old(st),
        *final(st) == PullState::Failed,
{
    let mut tmp = PullState::Failed;
    core::mem::swap(st, &mut tmp);
    tmp
}

/// Turns a plan's mutations into driver actions, in order.
fn fs_actions(ops: Vec<FsOp>) -> (r: Vec<PullAction>)
    ensures
        r@.map_values(|a: PullAction| a@) == fs_acts(ops_view(ops@)),
{
    let ghost orig = ops@;
    let mut ops = ops;
    let mut acts: Vec<PullAction> = Vec::new();
    while ops.len() > 0
        invariant
            acts@.len() + ops@.len() == orig.len(),
            ops@ == orig.subrange(acts@.len() as int, orig.len() as int),
            forall|i: int|
                0 <= i < acts@.len() ==> #[trigger] acts@[i]@ == PullActionV::Fs(orig[i]@),
        decreases ops@.len(),
    {
        let ghost k = acts@.len() as int;
        let op = ops.remove(0);
        proof {
            assert(orig.subrange(k, orig.len() as int)[0] == orig[k]);
            assert(ops@ =~= orig.subrange(k + 1, orig.len() as int));
        }
        acts.push(PullAction::Fs(op));
    }
    proof {
        assert forall|i: int| 0 <= i < orig.len() implies acts@.map_values(|a: PullAction| a@)[i]
            == #[trigger] fs_acts(ops_view(orig))[i] by {
            assert(acts@.map_values(|a: PullAction| a@)[i] == acts@[i]@);
            assert(fs_acts(ops_view(orig))[i] == PullActionV::Fs(ops_view(orig)[i]));
            assert(ops_view(orig)[i] == orig[i]@);
        }
        assert(acts@.map_values(|a: PullAction| a@) =~= fs_acts(ops_view(orig)));
    }
    acts
}

impl PullSession {
    /// A fresh session: the cursor as loaded from disk, the configured
    /// roots, and the id this client greets with.
    pub fn new(config: FileHandlerConfig, client_id: Vec<u8>, cursor: VersionCursor) -> (r: Self)
        ensures
            r@ == (PullV {
                storage_root: config.storage_directory@,
                view_root: config.symlink_directory@,
                meta_root: config.metadata_directory@,
                client_id: client_id@,
                version: cursor@,
                state: PullStateV::Greet,
            }),
    {
        PullSession { config, client_id, cursor, state: PullState::Greet }
    }

    /// The last server revision observed, to be persisted at session end.
    pub fn server_version(&self) -> (r: u64)
        ensures
            r == self@.version,
    {
        self.cursor.server_version()
    }

    pub fn is_done(&self) -> (r: bool)
        ensures
            r == (self@.state is Done),
    {
        match self.state {
            PullState::Done => true,
            _ => false,
        }
    }

    /// One transition: exactly `pull_next` on the session's view. The
    /// version cursor never decreases.
    pub fn step(&mut self, ev: PullEvent) -> (r: Result<Vec<PullAction>, PullError>)
        ensures
            final(self)@ == pull_next(old(self)@, ev@).post,
            pull_result_view(r) == pull_next(old(self)@, ev@).result,
            final(self)@.version >= old(self)@.version,
    {
        let ghost pre = self@;
        let ghost evv = ev@;
        let st = take_state(&mut self.state);
        match (st, ev) {
            (PullState::Greet, PullEvent::Start) => {
                let greeting = Transmission::Greeting { client_id: dup_bytes(&self.client_id) };
                let bytes = transmission_type_to_bytes(&greeting);
                let mut acts: Vec<PullAction> = Vec::new();
                acts.push(PullAction::SendChunk(bytes));
                acts.push(PullAction::AwaitChunk);
                self.state = PullState::AwaitGreetingAck;
                proof {
                    assert(self@ =~= pull_next(pre, evv).post);
                    assert(acts@.map_values(|a: PullAction| a@) =~= pull_next(
                        pre,
                        evv,
                    ).result->Ok_0);
                }
                Ok(acts)
            },
            (PullState::AwaitGreetingAck, PullEvent::Chunk(b)) => {
                match bytes_to_transmission_type(b.as_slice()) {
                    Ok(Transmission::Proceed) => {
                        let header = Transmission::SyncServerToClient {
                            known_version: self.cursor.server_version(),
                        };
                        let bytes = transmission_type_to_bytes(&header);
                        let mut acts: Vec<PullAction> = Vec::new();
                        acts.push(PullAction::SendChunk(bytes));
                        acts.push(PullAction::AwaitChunk);
                        self.state = PullState::AwaitEvent;
                        proof {
                            assert(self@ =~= pull_next(pre, evv).post);
                            assert(acts@.map_values(|a: PullAction| a@) =~= pull_next(
                                pre,
                                evv,
                            ).result->Ok_0);
                        }
                        Ok(acts)
                    },
                    _ => {
                        proof {
                            assert(self@ =~= pull_next(pre, evv).post);
                        }
                        Err(PullError::HandshakeFailed)
                    },
                }
            },
            (PullState::AwaitEvent, PullEvent::Chunk(b)) => {
                match bytes_to_transmission_type(b.as_slice()) {
                    Ok(Transmission::ChangeEvent(e)) => {
                        match handle_server_to_client_change_event(&self.config, &e) {
                            Ok(plan) => {
                                let ChangePlan { pre_ops, content, post_ops } = plan;
                                let mut acts = fs_actions(pre_ops);
                                match content {
                                    Some((path, n)) => {
                                        if n > 0 {
                                            acts.push(PullAction::AwaitChunk);
                                            self.state = PullState::Receiving {
                                                path,
                                                remaining: n,
                                                post_ops,
                                            };
                                        } else {
                                            let mut pacts = fs_actions(post_ops);
                                            acts.append(&mut pacts);
                                            acts.push(PullAction::AwaitChunk);
                                            self.state = PullState::AwaitOutcome;
                                        }
                                    },
                                    None => {
                                        let mut pacts = fs_actions(post_ops);
                                        acts.append(&mut pacts);
                                        acts.push(PullAction::AwaitChunk);
                                        self.state = PullState::AwaitOutcome;
                                    },
                                }
                                proof {
                                    assert(self@ =~= pull_next(pre, evv).post);
                                    assert(acts@.map_values(|a: PullAction| a@) =~= pull_next(
                                        pre,
                                        evv,
                                    ).result->Ok_0);
                                }
                                Ok(acts)
                            },
                            Err(ApplyError::UnsupportedChange) => {
                                proof {
                                    assert(self@ =~= pull_next(pre, evv).post);
                                }
                                Err(PullError::UnsupportedChange)
                            },
                            Err(ApplyError::InvalidPath) => {
                                proof {
                                    assert(self@ =~= pull_next(pre, evv).post);
                                }
                                Err(PullError::InvalidPath)
                            },
                        }
                    },
                    Ok(Transmission::SkipCurrent) => {
                        let mut acts: Vec<PullAction> = Vec::new();
                        acts.push(PullAction::AwaitChunk);
                        self.state = PullState::AwaitEvent;
                        proof {
                            assert(self@ =~= pull_next(pre, evv).post);
                            assert(acts@.map_values(|a: PullAction| a@) =~= pull_next(
                                pre,
                                evv,
                            ).result->Ok_0);
                        }
                        Ok(acts)
                    },
                    Ok(Transmission::TransactionComplete) => {
                        let mut acts: Vec<PullAction> = Vec::new();
                        acts.push(PullAction::Finish);
                        self.state = PullState::Done;
                        proof {
                            assert(self@ =~= pull_next(pre, evv).post);
                            assert(acts@.map_values(|a: PullAction| a@) =~= pull_next(
                                pre,
                                evv,
                            ).result->Ok_0);
                        }
                        Ok(acts)
                    },
                    Ok(Transmission::ServerVersion { version }) => {
                        if self.cursor.set(version) {
                            let mut acts: Vec<PullAction> = Vec::new();
                            acts.push(PullAction::AwaitChunk);
                            self.state = PullState::AwaitEvent;
                            proof {
                                assert(self@ =~= pull_next(pre, evv).post);
                                assert(acts@.map_values(|a: PullAction| a@) =~= pull_next(
                                    pre,
                                    evv,
                                ).result->Ok_0);
                            }
                            Ok(acts)
                        } else {
                            proof {
                                assert(self@ =~= pull_next(pre, evv).post);
                            }
                            Err(PullError::VersionRegression)
                        }
                    },
                    _ => {
                        proof {
                            assert(self@ =~= pull_next(pre, evv).post);
                        }
                        Err(PullError::UnexpectedMessage)
                    },
                }
            },
            (PullState::Receiving { path, remaining, post_ops }, PullEvent::Chunk(b)) => {
                match bytes_to_transmission_type(b.as_slice()) {
                    Ok(Transmission::SkipCurrent) => {
                        let mut acts: Vec<PullAction> = Vec::new();
                        acts.push(PullAction::AwaitChunk);
                        self.state = PullState::AwaitOutcome;
                        proof {
                            assert(self@ =~= pull_next(pre, evv).post);
                            assert(acts@.map_values(|a: PullAction| a@) =~= pull_next(
                                pre,
                                evv,
                            ).result->Ok_0);
                        }
                        Ok(acts)
                    },
                    Ok(_) => {
                        proof {
                            assert(self@ =~= pull_next(pre, evv).post);
                        }
                        Err(PullError::UnexpectedMessage)
                    },
                    Err(_) => {
                        if remaining > 1 {
                            let path2 = dup_bytes(&path);
                            let mut acts: Vec<PullAction> = Vec::new();
                            acts.push(PullAction::Fs(FsOp::AppendFile { path: path2, bytes: b }));
                            acts.push(PullAction::AwaitChunk);
                            self.state = PullState::Receiving {
                                path,
                                remaining: remaining - 1,
                                post_ops,
                            };
                            proof {
                                assert(self@ =~= pull_next(pre, evv).post);
                                assert(acts@.map_values(|a: PullAction| a@) =~= pull_next(
                                    pre,
                                    evv,
                                ).result->Ok_0);
                            }
                            Ok(acts)
                        } else {
                            let mut acts: Vec<PullAction> = Vec::new();
                            acts.push(PullAction::Fs(FsOp::AppendFile { path, bytes: b }));
                            let mut pacts = fs_actions(post_ops);
                            acts.append(&mut pacts);
                            acts.push(PullAction::AwaitChunk);
                            self.state = PullState::AwaitOutcome;
                            proof {
                                assert(self@ =~= pull_next(pre, evv).post);
                                assert(acts@.map_values(|a: PullAction| a@) =~= pull_next(
                                    pre,
                                    evv,
                                ).result->Ok_0);
                            }
                            Ok(acts)
                        }
                    },
                }
            },
            (PullState::AwaitOutcome, PullEvent::Chunk(b)) => {
                match bytes_to_transmission_type(b.as_slice()) {
                    Ok(Transmission::ServerVersion { version }) => {
                        if self.cursor.set(version) {
                            let mut acts: Vec<PullAction> = Vec::new();
                            acts.push(PullAction::AwaitChunk);
                            self.state = PullState::AwaitEvent;
                            proof {
                                assert(self@ =~= pull_next(pre, evv).post);
                                assert(acts@.map_values(|a: PullAction| a@) =~= pull_next(
                                    pre,
                                    evv,
                                ).result->Ok_0);
                            }
                            Ok(acts)
                        } else {
                            proof {
                                assert(self@ =~= pull_next(pre, evv).post);
                            }
                            Err(PullError::VersionRegression)
                        }
                    },
                    Ok(Transmission::TransactionComplete) => {
                        let mut acts: Vec<PullAction> = Vec::new();
                        acts.push(PullAction::Finish);
                        self.state = PullState::Done;
                        proof {
                            assert(self@ =~= pull_next(pre, evv).post);
                            assert(acts@.map_values(|a: PullAction| a@) =~= pull_next(
                                pre,
                                evv,
                            ).result->Ok_0);
                        }
                        Ok(acts)
                    },
                    _ => {
                        proof {
                            assert(self@ =~= pull_next(pre, evv).post);
                        }
                        Err(PullError::UnexpectedMessage)
                    },
                }
            },
            _ => {
                proof {
                    assert(self@ =~= pull_next(pre, evv).post);
                }
                Err(PullError::DriverMismatch)
            },
        }
    }
}

} // verus!
