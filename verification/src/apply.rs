use vstd::prelude::*;

use crate::data::{dup_bytes, ChangeEvent, ChangeEventV, DirectoryEvent, DirectoryEventV,
    FileEvent, FileEventV};
use crate::paths::{spec_join, valid_rel_path, FileHandlerConfig, FilePaths};
use crate::calculate_num_packets;
use crate::spec_num_packets;

verus! {

// The change applier. A change event is translated into a plan: the ordered
// filesystem mutations that keep the three projections (content store, view,
// metadata sidecar) in lockstep. The plan is applied step by step by the
// session driver; no step is rolled back, a failure partway surfaces as an
// error at the session boundary.

/// One filesystem mutation on one projected path.
#[derive(Debug)]
pub enum FsOp {
    CreateDir { path: Vec<u8> },
    RemoveDirAll { path: Vec<u8> },
    /// Creates the file, or truncates it to empty if it exists.
    CreateEmptyFile { path: Vec<u8> },
    AppendFile { path: Vec<u8>, bytes: Vec<u8> },
    RemoveFile { path: Vec<u8> },
    Rename { from: Vec<u8>, to: Vec<u8> },
    /// Writes the sidecar at `path` from the live modification time of `of`,
    /// never from anything received over the network.
    WriteMetadata { path: Vec<u8>, of: Vec<u8> },
    CreateLink { path: Vec<u8>, target: Vec<u8> },
    RemoveLink { path: Vec<u8> },
}

/// Mathematical view of an `FsOp`.
pub enum FsOpV {
    CreateDir { path: Seq<u8> },
    RemoveDirAll { path: Seq<u8> },
    CreateEmptyFile { path: Seq<u8> },
    AppendFile { path: Seq<u8>, bytes: Seq<u8> },
    RemoveFile { path: Seq<u8> },
    Rename { from: Seq<u8>, to: Seq<u8> },
    WriteMetadata { path: Seq<u8>, of: Seq<u8> },
    CreateLink { path: Seq<u8>, target: Seq<u8> },
    RemoveLink { path: Seq<u8> },
}

impl View for FsOp {
    type V = FsOpV;

    open spec fn view(&self) -> FsOpV {
        match self {
            FsOp::CreateDir { path } => FsOpV::CreateDir { path: path@ },
            FsOp::RemoveDirAll { path } => FsOpV::RemoveDirAll { path: path@ },
            FsOp::CreateEmptyFile { path } => FsOpV::CreateEmptyFile { path: path@ },
            FsOp::AppendFile { path, bytes } => FsOpV::AppendFile { path: path@, bytes: bytes@ },
            FsOp::RemoveFile { path } => FsOpV::RemoveFile { path: path@ },
            FsOp::Rename { from, to } => FsOpV::Rename { from: from@, to: to@ },
            FsOp::WriteMetadata { path, of } => FsOpV::WriteMetadata { path: path@, of: of@ },
            FsOp::CreateLink { path, target } => FsOpV::CreateLink {
                path: path@,
                target: target@,
            },
            FsOp::RemoveLink { path } => FsOpV::RemoveLink { path: path@ },
        }
    }
}

// --- the model: what a successfully applied plan does to the disk ---

/// Abstract state of the three projections. Directories and links of the
/// view projection and sidecars are tracked by path; file contents by bytes.
/// Timestamps are not modeled: a sidecar records the live mtime of its
/// content entry at write time.
#[verifier::ext_equal]
pub struct FsModel {
    pub dirs: Set<Seq<u8>>,
    pub files: Map<Seq<u8>, Seq<u8>>,
    pub links: Map<Seq<u8>, Seq<u8>>,
    pub metas: Set<Seq<u8>>,
}

/// The effect of one successful mutation on the model.
pub open spec fn apply_op(m: FsModel, op: FsOpV) -> FsModel {
    match op {
        FsOpV::CreateDir { path } => FsModel { dirs: m.dirs.insert(path), ..m },
        FsOpV::RemoveDirAll { path } => FsModel { dirs: m.dirs.remove(path), ..m },
        FsOpV::CreateEmptyFile { path } => FsModel {
            files: m.files.insert(path, Seq::empty()),
            ..m
        },
        FsOpV::AppendFile { path, bytes } => FsModel {
            files: m.files.insert(
                path,
                if m.files.dom().contains(path) {
                    m.files[path] + bytes
                } else {
                    bytes
                },
            ),
            ..m
        },
        FsOpV::RemoveFile { path } => FsModel {
            files: m.files.remove(path),
            metas: m.metas.remove(path),
            ..m
        },
        FsOpV::Rename { from, to } => FsModel {
            dirs: if m.dirs.contains(from) {
                m.dirs.remove(from).insert(to)
            } else {
                m.dirs
            },
            files: if m.files.dom().contains(from) {
                m.files.remove(from).insert(to, m.files[from])
            } else {
                m.files
            },
            links: if m.links.dom().contains(from) {
                m.links.remove(from).insert(to, m.links[from])
            } else {
                m.links
            },
            metas: if m.metas.contains(from) {
                m.metas.remove(from).insert(to)
            } else {
                m.metas
            },
        },
        FsOpV::WriteMetadata { path, of } => FsModel { metas: m.metas.insert(path), ..m },
        FsOpV::CreateLink { path, target } => FsModel {
            links: m.links.insert(path, target),
            ..m
        },
        FsOpV::RemoveLink { path } => FsModel { links: m.links.remove(path), ..m },
    }
}

/// The effect of a whole sequence of mutations, first to last.
pub open spec fn apply_ops(m: FsModel, ops: Seq<FsOpV>) -> FsModel
    decreases ops.len(),
{
    if ops.len() == 0 {
        m
    } else {
        apply_ops(apply_op(m, ops.first()), ops.drop_first())
    }
}

pub proof fn lemma_apply_ops_app(m: FsModel, a: Seq<FsOpV>, b: Seq<FsOpV>)
    ensures
        apply_ops(m, a + b) == apply_ops(apply_ops(m, a), b),
    decreases a.len(),
{
    if a.len() == 0 {
        assert(a + b =~= b);
    } else {
        assert((a + b).first() == a.first());
        assert((a + b).drop_first() =~= a.drop_first() + b);
        lemma_apply_ops_app(apply_op(m, a.first()), a.drop_first(), b);
    }
}

// --- plans ---

/// The dispatcher refused a change event.
#[derive(Debug, PartialEq, Eq, Structural)]
pub enum ApplyError {
    /// UndoDelete and symlink events are not supported; they fail loudly
    /// rather than being silently dropped.
    UnsupportedChange,
    /// The event's relative path was refused by the projector.
    InvalidPath,
}

/// The ordered mutations for one change event: the steps before any content
/// arrives, the content reception itself (path and expected chunk count),
/// and the steps after the content is complete.
pub struct ChangePlan {
    pub pre_ops: Vec<FsOp>,
    pub content: Option<(Vec<u8>, u64)>,
    pub post_ops: Vec<FsOp>,
}

/// The views of a sequence of mutations.
pub open spec fn ops_view(ops: Seq<FsOp>) -> Seq<FsOpV> {
    ops.map_values(|op: FsOp| op@)
}

/// Mathematical view of a `ChangePlan`.
#[verifier::ext_equal]
pub struct PlanV {
    pub pre_ops: Seq<FsOpV>,
    pub content: Option<(Seq<u8>, u64)>,
    pub post_ops: Seq<FsOpV>,
}

impl View for ChangePlan {
    type V = PlanV;

    open spec fn view(&self) -> PlanV {
        PlanV {
            pre_ops: ops_view(self.pre_ops@),
            content: match self.content {
                Some((ref p, n)) => Some((p@, n)),
                None => None,
            },
            post_ops: ops_view(self.post_ops@),
        }
    }
}

// The plans, one spec function per event kind. `s`, `v`, `m` are the
// storage, view (symlink) and metadata roots.

pub open spec fn plan_directory_create(s: Seq<u8>, v: Seq<u8>, m: Seq<u8>, rel: Seq<u8>) -> PlanV {
    PlanV {
        pre_ops: seq![
            FsOpV::CreateDir { path: spec_join(s, rel) },
            FsOpV::WriteMetadata { path: spec_join(m, rel), of: spec_join(s, rel) },
            FsOpV::CreateDir { path: spec_join(v, rel) },
        ],
        content: None,
        post_ops: Seq::empty(),
    }
}

pub open spec fn plan_directory_delete(s: Seq<u8>, v: Seq<u8>, m: Seq<u8>, rel: Seq<u8>) -> PlanV {
    PlanV {
        pre_ops: seq![
            FsOpV::RemoveDirAll { path: spec_join(s, rel) },
            FsOpV::RemoveFile { path: spec_join(m, rel) },
            FsOpV::RemoveDirAll { path: spec_join(v, rel) },
        ],
        content: None,
        post_ops: Seq::empty(),
    }
}

pub open spec fn plan_directory_move(
    s: Seq<u8>,
    v: Seq<u8>,
    m: Seq<u8>,
    from: Seq<u8>,
    to: Seq<u8>,
) -> PlanV {
    PlanV {
        pre_ops: seq![
            FsOpV::Rename { from: spec_join(s, from), to: spec_join(s, to) },
            FsOpV::Rename { from: spec_join(m, from), to: spec_join(m, to) },
            FsOpV::Rename { from: spec_join(v, from), to: spec_join(v, to) },
        ],
        content: None,
        post_ops: Seq::empty(),
    }
}

pub open spec fn plan_file_create(
    s: Seq<u8>,
    v: Seq<u8>,
    m: Seq<u8>,
    rel: Seq<u8>,
    size: u64,
) -> PlanV {
    PlanV {
        pre_ops: seq![FsOpV::CreateEmptyFile { path: spec_join(s, rel) }],
        content: Some((spec_join(s, rel), spec_num_packets(size) as u64)),
        post_ops: seq![
            FsOpV::WriteMetadata { path: spec_join(m, rel), of: spec_join(s, rel) },
            FsOpV::CreateLink { path: spec_join(v, rel), target: spec_join(s, rel) },
        ],
    }
}

pub open spec fn plan_file_modify(
    s: Seq<u8>,
    v: Seq<u8>,
    m: Seq<u8>,
    rel: Seq<u8>,
    size: u64,
) -> PlanV {
    PlanV {
        pre_ops: seq![FsOpV::CreateEmptyFile { path: spec_join(s, rel) }],
        content: Some((spec_join(s, rel), spec_num_packets(size) as u64)),
        post_ops: seq![
            FsOpV::WriteMetadata { path: spec_join(m, rel), of: spec_join(s, rel) },
        ],
    }
}

pub open spec fn plan_file_delete(s: Seq<u8>, v: Seq<u8>, m: Seq<u8>, rel: Seq<u8>) -> PlanV {
    PlanV {
        pre_ops: seq![
            FsOpV::RemoveFile { path: spec_join(s, rel) },
            FsOpV::RemoveFile { path: spec_join(m, rel) },
            FsOpV::RemoveLink { path: spec_join(v, rel) },
        ],
        content: None,
        post_ops: Seq::empty(),
    }
}

pub open spec fn plan_file_move(
    s: Seq<u8>,
    v: Seq<u8>,
    m: Seq<u8>,
    from: Seq<u8>,
    to: Seq<u8>,
) -> PlanV {
    PlanV {
        pre_ops: seq![
            FsOpV::Rename { from: spec_join(s, from), to: spec_join(s, to) },
            FsOpV::Rename { from: spec_join(m, from), to: spec_join(m, to) },
            FsOpV::RemoveLink { path: spec_join(v, from) },
            FsOpV::CreateLink { path: spec_join(v, to), target: spec_join(s, to) },
        ],
        content: None,
        post_ops: Seq::empty(),
    }
}

/// The plan for any change event: which plan each accepted event gets, and
/// exactly which events are refused and why.
pub open spec fn spec_plan_event(s: Seq<u8>, v: Seq<u8>, m: Seq<u8>, e: ChangeEventV) -> Result<
    PlanV,
    ApplyError,
> {
    match e {
        ChangeEventV::File(f) => match f {
            FileEventV::Create { path, size } => if valid_rel_path(path) {
                Ok(plan_file_create(s, v, m, path, size))
            } else {
                Err(ApplyError::InvalidPath)
            },
            FileEventV::Modify { path, size } => if valid_rel_path(path) {
                Ok(plan_file_modify(s, v, m, path, size))
            } else {
                Err(ApplyError::InvalidPath)
            },
            FileEventV::Delete { path } => if valid_rel_path(path) {
                Ok(plan_file_delete(s, v, m, path))
            } else {
                Err(ApplyError::InvalidPath)
            },
            FileEventV::Move { from_path, to_path } => if valid_rel_path(from_path)
                && valid_rel_path(to_path) {
                Ok(plan_file_move(s, v, m, from_path, to_path))
            } else {
                Err(ApplyError::InvalidPath)
            },
            FileEventV::UndoDelete { path } => Err(ApplyError::UnsupportedChange),
        },
        ChangeEventV::Directory(d) => match d {
            DirectoryEventV::Create { path } => if valid_rel_path(path) {
                Ok(plan_directory_create(s, v, m, path))
            } else {
                Err(ApplyError::InvalidPath)
            },
            DirectoryEventV::Delete { path } => if valid_rel_path(path) {
                Ok(plan_directory_delete(s, v, m, path))
            } else {
                Err(ApplyError::InvalidPath)
            },
            DirectoryEventV::Move { from_path, to_path } => if valid_rel_path(from_path)
                && valid_rel_path(to_path) {
                Ok(plan_directory_move(s, v, m, from_path, to_path))
            } else {
                Err(ApplyError::InvalidPath)
            },
            DirectoryEventV::UndoDelete { path } => Err(ApplyError::UnsupportedChange),
        },
        ChangeEventV::Symlink { path } => Err(ApplyError::UnsupportedChange),
    }
}

/// Shorthand for `spec_plan_event` over a config's three roots.
pub open spec fn spec_plan_for(config: FileHandlerConfig, e: ChangeEventV) -> Result<
    PlanV,
    ApplyError,
> {
    spec_plan_event(
        config.storage_directory@,
        config.symlink_directory@,
        config.metadata_directory@,
        e,
    )
}

/// A plan result seen mathematically.
pub open spec fn plan_result_view(r: Result<ChangePlan, ApplyError>) -> Result<
    PlanV,
    ApplyError,
> {
    match r {
        Ok(p) => Ok(p@),
        Err(e) => Err(e),
    }
}

pub fn handle_directory_create(config: &FileHandlerConfig, path: &Vec<u8>) -> (r: Result<
    ChangePlan,
    ApplyError,
>)
    ensures
        plan_result_view(r) == spec_plan_for(
            *config,
            ChangeEventV::Directory(DirectoryEventV::Create { path: path@ }),
        ),
{
    match FilePaths::from_relative_path(path, config) {
        Err(_) => Err(ApplyError::InvalidPath),
        Ok(fp) => {
            let (sp, vp, mp) = fp.into_parts();
            let sp2 = dup_bytes(&sp);
            let mut pre: Vec<FsOp> = Vec::new();
            pre.push(FsOp::CreateDir { path: sp });
            pre.push(FsOp::WriteMetadata { path: mp, of: sp2 });
            pre.push(FsOp::CreateDir { path: vp });
            let plan = ChangePlan { pre_ops: pre, content: None, post_ops: Vec::new() };
            proof {
                let target = plan_directory_create(
                    config.storage_directory@,
                    config.symlink_directory@,
                    config.metadata_directory@,
                    path@,
                );
                assert(plan@.pre_ops =~= target.pre_ops);
                assert(plan@.post_ops =~= target.post_ops);
                assert(plan@ =~= target);
            }
            Ok(plan)
        },
    }
}

pub fn handle_directory_delete(config: &FileHandlerConfig, path: &Vec<u8>) -> (r: Result<
    ChangePlan,
    ApplyError,
>)
    ensures
        plan_result_view(r) == spec_plan_for(
            *config,
            ChangeEventV::Directory(DirectoryEventV::Delete { path: path@ }),
        ),
{
    match FilePaths::from_relative_path(path, config) {
        Err(_) => Err(ApplyError::InvalidPath),
        Ok(fp) => {
            let (sp, vp, mp) = fp.into_parts();
            let mut pre: Vec<FsOp> = Vec::new();
            pre.push(FsOp::RemoveDirAll { path: sp });
            pre.push(FsOp::RemoveFile { path: mp });
            pre.push(FsOp::RemoveDirAll { path: vp });
            let plan = ChangePlan { pre_ops: pre, content: None, post_ops: Vec::new() };
            proof {
                let target = plan_directory_delete(
                    config.storage_directory@,
                    config.symlink_directory@,
                    config.metadata_directory@,
                    path@,
                );
                assert(plan@.pre_ops =~= target.pre_ops);
                assert(plan@.post_ops =~= target.post_ops);
                assert(plan@ =~= target);
            }
            Ok(plan)
        },
    }
}

pub fn handle_directory_move(config: &FileHandlerConfig, from_path: &Vec<u8>, to_path: &Vec<
    u8,
>) -> (r: Result<ChangePlan, ApplyError>)
    ensures
        plan_result_view(r) == spec_plan_for(
            *config,
            ChangeEventV::Directory(
                DirectoryEventV::Move { from_path: from_path@, to_path: to_path@ },
            ),
        ),
{
    let from_fp = match FilePaths::from_relative_path(from_path, config) {
        Err(_) => {
            return Err(ApplyError::InvalidPath);
        },
        Ok(fp) => fp,
    };
    let to_fp = match FilePaths::from_relative_path(to_path, config) {
        Err(_) => {
            return Err(ApplyError::InvalidPath);
        },
        Ok(fp) => fp,
    };
    let (sf, vf, mf) = from_fp.into_parts();
    let (st, vt, mt) = to_fp.into_parts();
    let mut pre: Vec<FsOp> = Vec::new();
    pre.push(FsOp::Rename { from: sf, to: st });
    pre.push(FsOp::Rename { from: mf, to: mt });
    pre.push(FsOp::Rename { from: vf, to: vt });
    let plan = ChangePlan { pre_ops: pre, content: None, post_ops: Vec::new() };
    proof {
        let target = plan_directory_move(
            config.storage_directory@,
            config.symlink_directory@,
            config.metadata_directory@,
            from_path@,
            to_path@,
        );
        assert(plan@.pre_ops =~= target.pre_ops);
        assert(plan@.post_ops =~= target.post_ops);
        assert(plan@ =~= target);
    }
    Ok(plan)
}

pub fn handle_file_create(config: &FileHandlerConfig, path: &Vec<u8>, size: u64) -> (r: Result<
    ChangePlan,
    ApplyError,
>)
    ensures
        plan_result_view(r) == spec_plan_for(
            *config,
            ChangeEventV::File(FileEventV::Create { path: path@, size }),
        ),
{
    match FilePaths::from_relative_path(path, config) {
        Err(_) => Err(ApplyError::InvalidPath),
        Ok(fp) => {
            let (sp, vp, mp) = fp.into_parts();
            let sp_content = dup_bytes(&sp);
            let sp_meta = dup_bytes(&sp);
            let sp_link = dup_bytes(&sp);
            let packets = calculate_num_packets(size);
            let mut pre: Vec<FsOp> = Vec::new();
            pre.push(FsOp::CreateEmptyFile { path: sp });
            let mut post: Vec<FsOp> = Vec::new();
            post.push(FsOp::WriteMetadata { path: mp, of: sp_meta });
            post.push(FsOp::CreateLink { path: vp, target: sp_link });
            let plan = ChangePlan {
                pre_ops: pre,
                content: Some((sp_content, packets)),
                post_ops: post,
            };
            proof {
                let target = plan_file_create(
                    config.storage_directory@,
                    config.symlink_directory@,
                    config.metadata_directory@,
                    path@,
                    size,
                );
                assert(plan@.pre_ops =~= target.pre_ops);
                assert(plan@.post_ops =~= target.post_ops);
                assert(plan@ =~= target);
            }
            Ok(plan)
        },
    }
}

pub fn handle_file_modify(config: &FileHandlerConfig, path: &Vec<u8>, size: u64) -> (r: Result<
    ChangePlan,
    ApplyError,
>)
    ensures
        plan_result_view(r) == spec_plan_for(
            *config,
            ChangeEventV::File(FileEventV::Modify { path: path@, size }),
        ),
{
    match FilePaths::from_relative_path(path, config) {
        Err(_) => Err(ApplyError::InvalidPath),
        Ok(fp) => {
            let (sp, _vp, mp) = fp.into_parts();
            let sp_content = dup_bytes(&sp);
            let sp_meta = dup_bytes(&sp);
            let packets = calculate_num_packets(size);
            let mut pre: Vec<FsOp> = Vec::new();
            pre.push(FsOp::CreateEmptyFile { path: sp });
            let mut post: Vec<FsOp> = Vec::new();
            post.push(FsOp::WriteMetadata { path: mp, of: sp_meta });
            let plan = ChangePlan {
                pre_ops: pre,
                content: Some((sp_content, packets)),
                post_ops: post,
            };
            proof {
                let target = plan_file_modify(
                    config.storage_directory@,
                    config.symlink_directory@,
                    config.metadata_directory@,
                    path@,
                    size,
                );
                assert(plan@.pre_ops =~= target.pre_ops);
                assert(plan@.post_ops =~= target.post_ops);
                assert(plan@ =~= target);
            }
            Ok(plan)
        },
    }
}

pub fn handle_file_delete(config: &FileHandlerConfig, path: &Vec<u8>) -> (r: Result<
    ChangePlan,
    ApplyError,
>)
    ensures
        plan_result_view(r) == spec_plan_for(
            *config,
            ChangeEventV::File(FileEventV::Delete { path: path@ }),
        ),
{
    match FilePaths::from_relative_path(path, config) {
        Err(_) => Err(ApplyError::InvalidPath),
        Ok(fp) => {
            let (sp, vp, mp) = fp.into_parts();
            let mut pre: Vec<FsOp> = Vec::new();
            pre.push(FsOp::RemoveFile { path: sp });
            pre.push(FsOp::RemoveFile { path: mp });
            pre.push(FsOp::RemoveLink { path: vp });
            let plan = ChangePlan { pre_ops: pre, content: None, post_ops: Vec::new() };
            proof {
                let target = plan_file_delete(
                    config.storage_directory@,
                    config.symlink_directory@,
                    config.metadata_directory@,
                    path@,
                );
                assert(plan@.pre_ops =~= target.pre_ops);
                assert(plan@.post_ops =~= target.post_ops);
                assert(plan@ =~= target);
            }
            Ok(plan)
        },
    }
}

pub fn handle_file_move(config: &FileHandlerConfig, from_path: &Vec<u8>, to_path: &Vec<u8>) -> (r:
    Result<ChangePlan, ApplyError>)
    ensures
        plan_result_view(r) == spec_plan_for(
            *config,
            ChangeEventV::File(FileEventV::Move { from_path: from_path@, to_path: to_path@ }),
        ),
{
    let from_fp = match FilePaths::from_relative_path(from_path, config) {
        Err(_) => {
            return Err(ApplyError::InvalidPath);
        },
        Ok(fp) => fp,
    };
    let to_fp = match FilePaths::from_relative_path(to_path, config) {
        Err(_) => {
            return Err(ApplyError::InvalidPath);
        },
        Ok(fp) => fp,
    };
    let (sf, vf, mf) = from_fp.into_parts();
    let (st, vt, mt) = to_fp.into_parts();
    let st2 = dup_bytes(&st);
    let mut pre: Vec<FsOp> = Vec::new();
    pre.push(FsOp::Rename { from: sf, to: st });
    pre.push(FsOp::Rename { from: mf, to: mt });
    pre.push(FsOp::RemoveLink { path: vf });
    pre.push(FsOp::CreateLink { path: vt, target: st2 });
    let plan = ChangePlan { pre_ops: pre, content: None, post_ops: Vec::new() };
    proof {
        let target = plan_file_move(
            config.storage_directory@,
            config.symlink_directory@,
            config.metadata_directory@,
            from_path@,
            to_path@,
        );
        assert(plan@.pre_ops =~= target.pre_ops);
        assert(plan@.post_ops =~= target.post_ops);
        assert(plan@ =~= target);
    }
    Ok(plan)
}

/// Dispatches one received change event to its plan. UndoDelete and symlink
/// events are refused loudly, never silently dropped.
pub fn handle_server_to_client_change_event(config: &FileHandlerConfig, event: &ChangeEvent) -> (r:
    Result<ChangePlan, ApplyError>)
    ensures
        plan_result_view(r) == spec_plan_for(*config, event@),
{
    match event {
        ChangeEvent::File(f) => match f {
            FileEvent::Create { path, size } => handle_file_create(config, path, *size),
            FileEvent::Modify { path, size } => handle_file_modify(config, path, *size),
            FileEvent::Delete { path } => handle_file_delete(config, path),
            FileEvent::Move { from_path, to_path } => handle_file_move(
                config,
                from_path,
                to_path,
            ),
            FileEvent::UndoDelete { path } => Err(ApplyError::UnsupportedChange),
        },
        ChangeEvent::Directory(d) => match d {
            DirectoryEvent::Create { path } => handle_directory_create(config, path),
            DirectoryEvent::Delete { path } => handle_directory_delete(config, path),
            DirectoryEvent::Move { from_path, to_path } => handle_directory_move(
                config,
                from_path,
                to_path,
            ),
            DirectoryEvent::UndoDelete { path } => Err(ApplyError::UnsupportedChange),
        },
        ChangeEvent::Symlink { path } => Err(ApplyError::UnsupportedChange),
    }
}

// --- three-projection consistency ---

/// The append operations that receiving `chunks` into `path` performs.
pub open spec fn append_ops(path: Seq<u8>, chunks: Seq<Seq<u8>>) -> Seq<FsOpV> {
    Seq::new(chunks.len(), |i: int| FsOpV::AppendFile { path, bytes: chunks[i] })
}

/// All received chunks, in order, as one byte string.
pub open spec fn concat_chunks(chunks: Seq<Seq<u8>>) -> Seq<u8>
    decreases chunks.len(),
{
    if chunks.len() == 0 {
        Seq::empty()
    } else {
        chunks.first() + concat_chunks(chunks.drop_first())
    }
}

proof fn lemma_apply_ops_one(m: FsModel, a: FsOpV)
    ensures
        apply_ops(m, seq![a]) == apply_op(m, a),
{
    assert(seq![a].first() == a);
    assert(seq![a].drop_first() =~= Seq::<FsOpV>::empty());
    assert(apply_ops(apply_op(m, a), Seq::<FsOpV>::empty()) == apply_op(m, a));
}

proof fn lemma_apply_ops_two(m: FsModel, a: FsOpV, b: FsOpV)
    ensures
        apply_ops(m, seq![a, b]) == apply_op(apply_op(m, a), b),
{
    assert(seq![a, b].drop_first() =~= seq![b]);
    lemma_apply_ops_one(apply_op(m, a), b);
}

proof fn lemma_apply_appends(m: FsModel, path: Seq<u8>, chunks: Seq<Seq<u8>>)
    requires
        m.files.dom().contains(path),
    ensures
        apply_ops(m, append_ops(path, chunks)) == (FsModel {
            files: m.files.insert(path, m.files[path] + concat_chunks(chunks)),
            ..m
        }),
    decreases chunks.len(),
{
    let ops = append_ops(path, chunks);
    if chunks.len() == 0 {
        assert(m.files[path] + concat_chunks(chunks) =~= m.files[path]);
        assert(m.files.insert(path, m.files[path]) =~= m.files);
        assert(apply_ops(m, ops) =~= (FsModel {
            files: m.files.insert(path, m.files[path] + concat_chunks(chunks)),
            ..m
        }));
    } else {
        assert(ops.first() == FsOpV::AppendFile { path, bytes: chunks.first() });
        let m1 = apply_op(m, ops.first());
        assert(m1.files == m.files.insert(path, m.files[path] + chunks.first()));
        assert(ops.drop_first() =~= append_ops(path, chunks.drop_first()));
        lemma_apply_appends(m1, path, chunks.drop_first());
        assert(m1.files[path] == m.files[path] + chunks.first());
        assert(m1.files.insert(path, m1.files[path] + concat_chunks(chunks.drop_first()))
            =~= m.files.insert(path, m.files[path] + concat_chunks(chunks))) by {
            assert(m.files[path] + chunks.first() + concat_chunks(chunks.drop_first())
                =~= m.files[path] + concat_chunks(chunks));
        };
        assert(apply_ops(m, ops) =~= (FsModel {
            files: m.files.insert(path, m.files[path] + concat_chunks(chunks)),
            ..m
        }));
    }
}

/// Three-projection consistency: after a successful file create for `rel`
/// whose content arrived as `chunks`, the content store holds exactly the
/// received bytes at the projected content path, a metadata sidecar exists
/// at the projected metadata path, and the view projection links the
/// projected view path to the content path.
pub proof fn lemma_file_create_consistency(
    s: Seq<u8>,
    v: Seq<u8>,
    m: Seq<u8>,
    rel: Seq<u8>,
    size: u64,
    m0: FsModel,
    chunks: Seq<Seq<u8>>,
)
    ensures
        ({
            let plan = plan_file_create(s, v, m, rel, size);
            let m1 = apply_ops(
                m0,
                plan.pre_ops + append_ops(spec_join(s, rel), chunks) + plan.post_ops,
            );
            &&& m1.files.dom().contains(spec_join(s, rel))
            &&& m1.files[spec_join(s, rel)] == concat_chunks(chunks)
            &&& m1.metas.contains(spec_join(m, rel))
            &&& m1.links.dom().contains(spec_join(v, rel))
            &&& m1.links[spec_join(v, rel)] == spec_join(s, rel)
        }),
{
    let cp = spec_join(s, rel);
    let vp = spec_join(v, rel);
    let mp = spec_join(m, rel);
    let plan = plan_file_create(s, v, m, rel, size);
    let rx = append_ops(cp, chunks);
    lemma_apply_ops_app(m0, plan.pre_ops + rx, plan.post_ops);
    lemma_apply_ops_app(m0, plan.pre_ops, rx);
    lemma_apply_ops_one(m0, FsOpV::CreateEmptyFile { path: cp });
    assert(plan.pre_ops =~= seq![FsOpV::CreateEmptyFile { path: cp }]);
    let m_pre = apply_ops(m0, plan.pre_ops);
    assert(m_pre.files == m0.files.insert(cp, Seq::empty()));
    lemma_apply_appends(m_pre, cp, chunks);
    let m_rx = apply_ops(m_pre, rx);
    assert(m_rx.files[cp] == Seq::<u8>::empty() + concat_chunks(chunks));
    assert(Seq::<u8>::empty() + concat_chunks(chunks) =~= concat_chunks(chunks));
    lemma_apply_ops_two(
        m_rx,
        FsOpV::WriteMetadata { path: mp, of: cp },
        FsOpV::CreateLink { path: vp, target: cp },
    );
}

} // verus!
