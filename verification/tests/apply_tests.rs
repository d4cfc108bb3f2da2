use std::collections::{HashMap, HashSet};
use std::time::SystemTime;

use hcs_client::apply::{
    handle_directory_create, handle_directory_move, handle_file_create, handle_file_delete,
    handle_server_to_client_change_event, ApplyError, ChangePlan, FsOp,
};
use hcs_client::data::{ChangeEvent, DirectoryEvent, FileEvent};
use hcs_client::paths::FileHandlerConfig;

fn config() -> FileHandlerConfig {
    FileHandlerConfig {
        storage_directory: b"/s".to_vec(),
        symlink_directory: b"/v".to_vec(),
        metadata_directory: b"/m".to_vec(),
        program_data_directory: b"/p".to_vec(),
    }
}

/// An in-memory stand-in for the disk, used to run plans in tests.
struct MiniFs {
    dirs: HashSet<Vec<u8>>,
    files: HashMap<Vec<u8>, (Vec<u8>, SystemTime)>,
    links: HashMap<Vec<u8>, Vec<u8>>,
    metas: HashMap<Vec<u8>, SystemTime>,
}

impl MiniFs {
    fn new() -> Self {
        MiniFs {
            dirs: HashSet::new(),
            files: HashMap::new(),
            links: HashMap::new(),
            metas: HashMap::new(),
        }
    }

    fn apply(&mut self, op: &FsOp) -> Result<(), String> {
        match op {
            FsOp::CreateDir { path } => {
                self.dirs.insert(path.clone());
                Ok(())
            }
            FsOp::RemoveDirAll { path } => {
                self.dirs.remove(path);
                Ok(())
            }
            FsOp::CreateEmptyFile { path } => {
                self.files.insert(path.clone(), (Vec::new(), SystemTime::now()));
                Ok(())
            }
            FsOp::AppendFile { path, bytes } => match self.files.get_mut(path) {
                Some((content, mtime)) => {
                    content.extend_from_slice(bytes);
                    *mtime = SystemTime::now();
                    Ok(())
                }
                None => Err("append to missing file".to_string()),
            },
            FsOp::RemoveFile { path } => {
                if self.files.remove(path).is_some() || self.metas.remove(path).is_some() {
                    Ok(())
                } else {
                    Err("remove of missing file".to_string())
                }
            }
            FsOp::Rename { from, to } => {
                if self.dirs.remove(from) {
                    if self.dirs.contains(to) {
                        return Err("rename target exists".to_string());
                    }
                    self.dirs.insert(to.clone());
                    Ok(())
                } else if let Some(f) = self.files.remove(from) {
                    self.files.insert(to.clone(), f);
                    Ok(())
                } else if let Some(t) = self.metas.remove(from) {
                    self.metas.insert(to.clone(), t);
                    Ok(())
                } else {
                    Err("rename of missing entry".to_string())
                }
            }
            FsOp::WriteMetadata { path, of } => {
                let mtime = match self.files.get(of) {
                    Some((_, t)) => *t,
                    None => SystemTime::now(),
                };
                self.metas.insert(path.clone(), mtime);
                Ok(())
            }
            FsOp::CreateLink { path, target } => {
                self.links.insert(path.clone(), target.clone());
                Ok(())
            }
            FsOp::RemoveLink { path } => {
                self.links.remove(path);
                Ok(())
            }
        }
    }

    fn apply_all(&mut self, ops: &[FsOp]) -> Result<(), String> {
        for op in ops {
            self.apply(op)?;
        }
        Ok(())
    }
}

#[test]
fn directory_create_touches_all_three_projections() {
    let plan = handle_directory_create(&config(), &b"d".to_vec()).expect("valid path");
    assert!(plan.content.is_none());
    assert!(plan.post_ops.is_empty());
    assert_eq!(plan.pre_ops.len(), 3);
    match &plan.pre_ops[0] {
        FsOp::CreateDir { path } => assert_eq!(path, &b"/s/d".to_vec()),
        _ => panic!("first step must create the content directory"),
    }
    match &plan.pre_ops[1] {
        FsOp::WriteMetadata { path, of } => {
            assert_eq!(path, &b"/m/d".to_vec());
            assert_eq!(of, &b"/s/d".to_vec());
        }
        _ => panic!("second step must write the sidecar"),
    }
    match &plan.pre_ops[2] {
        FsOp::CreateDir { path } => assert_eq!(path, &b"/v/d".to_vec()),
        _ => panic!("third step must create the view directory"),
    }
}

#[test]
fn file_create_plan_expects_packetized_content() {
    let plan = handle_file_create(&config(), &b"big.bin".to_vec(), 65537).expect("valid path");
    let (path, count) = plan.content.clone().expect("a file create receives content");
    assert_eq!(path, b"/s/big.bin".to_vec());
    assert_eq!(count, 2);
    assert_eq!(plan.pre_ops.len(), 1);
    assert_eq!(plan.post_ops.len(), 2);
    match &plan.post_ops[1] {
        FsOp::CreateLink { path, target } => {
            assert_eq!(path, &b"/v/big.bin".to_vec());
            assert_eq!(target, &b"/s/big.bin".to_vec());
        }
        _ => panic!("the view link comes after the metadata"),
    }
}

#[test]
fn unsupported_changes_fail_loudly() {
    let c = config();
    let undo = ChangeEvent::File(FileEvent::UndoDelete { path: b"x".to_vec() });
    assert!(matches!(
        handle_server_to_client_change_event(&c, &undo),
        Err(ApplyError::UnsupportedChange)
    ));
    let undo_dir = ChangeEvent::Directory(DirectoryEvent::UndoDelete { path: b"x".to_vec() });
    assert!(matches!(
        handle_server_to_client_change_event(&c, &undo_dir),
        Err(ApplyError::UnsupportedChange)
    ));
    let link = ChangeEvent::Symlink { path: b"x".to_vec() };
    assert!(matches!(
        handle_server_to_client_change_event(&c, &link),
        Err(ApplyError::UnsupportedChange)
    ));
}

#[test]
fn invalid_paths_are_refused() {
    let c = config();
    let bad = ChangeEvent::File(FileEvent::Delete { path: b"../etc".to_vec() });
    assert!(matches!(
        handle_server_to_client_change_event(&c, &bad),
        Err(ApplyError::InvalidPath)
    ));
}

fn run_file_create(fs: &mut MiniFs, plan: &ChangePlan, chunks: &[&[u8]]) {
    fs.apply_all(&plan.pre_ops).unwrap();
    let (path, count) = plan.content.clone().unwrap();
    assert_eq!(count as usize, chunks.len());
    for chunk in chunks {
        fs.apply(&FsOp::AppendFile { path: path.clone(), bytes: chunk.to_vec() }).unwrap();
    }
    fs.apply_all(&plan.post_ops).unwrap();
}

#[test]
fn three_projections_consistent_after_file_create() {
    let session_start = SystemTime::now();
    let mut fs = MiniFs::new();
    let content: Vec<u8> = vec![0xAA; 10];
    let plan = handle_file_create(&config(), &b"p.bin".to_vec(), 10).expect("valid path");
    run_file_create(&mut fs, &plan, &[content.as_slice()]);

    // Content store: exactly the received bytes at the content path.
    let (stored, _) = fs.files.get(&b"/s/p.bin".to_vec()).expect("content entry exists");
    assert_eq!(stored.len(), 10);
    assert_eq!(stored, &content);
    // Metadata sidecar: present, stamped no earlier than the session start.
    let stamp = fs.metas.get(&b"/m/p.bin".to_vec()).expect("sidecar exists");
    assert!(*stamp >= session_start);
    // View projection: a link referencing the content path.
    let target = fs.links.get(&b"/v/p.bin".to_vec()).expect("view entry exists");
    assert_eq!(target, &b"/s/p.bin".to_vec());
}

#[test]
fn directory_move_renames_all_three_projections() {
    let mut fs = MiniFs::new();
    let c = config();
    fs.apply_all(&handle_directory_create(&c, &b"x".to_vec()).unwrap().pre_ops).unwrap();
    let plan = handle_directory_move(&c, &b"x".to_vec(), &b"y".to_vec()).unwrap();
    fs.apply_all(&plan.pre_ops).unwrap();
    assert!(!fs.dirs.contains(&b"/s/x".to_vec()));
    assert!(fs.dirs.contains(&b"/s/y".to_vec()));
    assert!(!fs.metas.contains_key(&b"/m/x".to_vec()));
    assert!(fs.metas.contains_key(&b"/m/y".to_vec()));
    assert!(!fs.dirs.contains(&b"/v/x".to_vec()));
    assert!(fs.dirs.contains(&b"/v/y".to_vec()));
}

#[test]
fn file_delete_clears_all_three_projections() {
    let mut fs = MiniFs::new();
    let c = config();
    let plan = handle_file_create(&c, &b"f".to_vec(), 1).unwrap();
    run_file_create(&mut fs, &plan, &[&[7u8]]);
    let del = handle_file_delete(&c, &b"f".to_vec()).unwrap();
    fs.apply_all(&del.pre_ops).unwrap();
    assert!(!fs.files.contains_key(&b"/s/f".to_vec()));
    assert!(!fs.metas.contains_key(&b"/m/f".to_vec()));
    assert!(!fs.links.contains_key(&b"/v/f".to_vec()));
}
