use vstd::prelude::*;

verus! {

// The Path Projector: one logical relative path is mapped to three physical
// locations, which the change applier keeps in lockstep. Paths are raw byte
// strings; 47 is the path separator '/'.

/// The three root directories backing the projections, plus the program
/// data directory that holds the version cursor and the pending-change
/// records.
pub struct FileHandlerConfig {
    /// Root of the content store, the authoritative bytes.
    pub storage_directory: Vec<u8>,
    /// Root of the user-facing view, which links into the content store.
    pub symlink_directory: Vec<u8>,
    /// Root of the metadata sidecars, one per content entry.
    pub metadata_directory: Vec<u8>,
    /// Where the version cursor and pending-change records live.
    pub program_data_directory: Vec<u8>,
}

/// Root and relative path joined with one separator.
pub open spec fn spec_join(root: Seq<u8>, rel: Seq<u8>) -> Seq<u8> {
    root + seq![47u8] + rel
}

/// True when a ".." path component starts at `i`.
pub open spec fn dotdot_at(s: Seq<u8>, i: int) -> bool {
    &&& 0 <= i
    &&& i + 2 <= s.len()
    &&& (i == 0 || s[i - 1] == 47)
    &&& s[i] == 46
    &&& s[i + 1] == 46
    &&& (i + 2 == s.len() || s[i + 2] == 47)
}

/// A relative path the projector accepts: non-empty, not absolute, no NUL
/// byte, and no ".." component that could escape the roots.
pub open spec fn valid_rel_path(s: Seq<u8>) -> bool {
    &&& s.len() > 0
    &&& s[0] != 47
    &&& forall|k: int| 0 <= k < s.len() ==> s[k] != 0
    &&& forall|i: int| !dotdot_at(s, i)
}

/// The projector refused a relative path.
#[derive(Debug)]
pub struct PathError;

/// The three physical locations derived from one relative path.
pub struct FilePaths {
    storage_dir_path: Vec<u8>,
    symlink_dir_path: Vec<u8>,
    custom_metadata_path: Vec<u8>,
}

pub(crate) fn join(root: &Vec<u8>, rel: &Vec<u8>) -> (r: Vec<u8>)
    ensures
        r@ == spec_join(root@, rel@),
{
    let mut out: Vec<u8> = Vec::new();
    out.extend_from_slice(root.as_slice());
    out.push(47u8);
    out.extend_from_slice(rel.as_slice());
    assert(out@ =~= spec_join(root@, rel@));
    out
}

/// Checks `valid_rel_path` on real bytes.
pub fn check_rel_path(rel: &Vec<u8>) -> (r: bool)
    ensures
        r == valid_rel_path(rel@),
{
    if rel.len() == 0 {
        assert(!valid_rel_path(rel@));
        return false;
    }
    if rel[0] == 47 {
        return false;
    }
    let n = rel.len();
    let mut i: usize = 0;
    while i < n
        invariant
            n == rel@.len(),
            i <= n,
            rel@.len() > 0,
            rel@[0] != 47,
            forall|k: int| 0 <= k < i ==> rel@[k] != 0,
            forall|j: int| j < i ==> !dotdot_at(rel@, j),
        decreases n - i,
    {
        if rel[i] == 0 {
            return false;
        }
        if rel[i] == 46 && (i == 0 || rel[i - 1] == 47) && n - i >= 2 && rel[i + 1] == 46 && (n
            - i == 2 || rel[i + 2] == 47) {
            assert(dotdot_at(rel@, i as int));
            return false;
        }
        proof {
            assert(!dotdot_at(rel@, i as int));
        }
        i = i + 1;
    }
    proof {
        assert forall|j: int| !dotdot_at(rel@, j) by {
            if j >= n {
                assert(!dotdot_at(rel@, j));
            }
        }
    }
    true
}

impl FilePaths {
    /// Projects one relative path to its content-store, view, and metadata
    /// locations. Accepts exactly the paths `valid_rel_path` allows.
    pub fn from_relative_path(rel: &Vec<u8>, config: &FileHandlerConfig) -> (r: Result<
        FilePaths,
        PathError,
    >)
        ensures
            r is Ok <==> valid_rel_path(rel@),
            match r {
                Ok(fp) => {
                    &&& fp@.0 == spec_join(config.storage_directory@, rel@)
                    &&& fp@.1 == spec_join(config.symlink_directory@, rel@)
                    &&& fp@.2 == spec_join(config.metadata_directory@, rel@)
                },
                Err(_) => true,
            },
    {
        if !check_rel_path(rel) {
            return Err(PathError);
        }
        Ok(
            FilePaths {
                storage_dir_path: join(&config.storage_directory, rel),
                symlink_dir_path: join(&config.symlink_directory, rel),
                custom_metadata_path: join(&config.metadata_directory, rel),
            },
        )
    }

    /// The three locations as owned paths: content store, view, metadata.
    pub fn into_parts(self) -> (r: (Vec<u8>, Vec<u8>, Vec<u8>))
        ensures
            r.0@ == self@.0,
            r.1@ == self@.1,
            r.2@ == self@.2,
    {
        (self.storage_dir_path, self.symlink_dir_path, self.custom_metadata_path)
    }

    /// Where the authoritative bytes live in the content store.
    pub fn storage_dir_path(&self) -> (r: &Vec<u8>)
        ensures
            r@ == self@.0,
    {
        &self.storage_dir_path
    }

    /// Where the user-facing view entry lives.
    pub fn symlink_dir_path(&self) -> (r: &Vec<u8>)
        ensures
            r@ == self@.1,
    {
        &self.symlink_dir_path
    }

    /// Where the metadata sidecar lives.
    pub fn custom_metadata_path(&self) -> (r: &Vec<u8>)
        ensures
            r@ == self@.2,
    {
        &self.custom_metadata_path
    }
}

impl View for FilePaths {
    type V = (Seq<u8>, Seq<u8>, Seq<u8>);

    closed spec fn view(&self) -> (Seq<u8>, Seq<u8>, Seq<u8>) {
        (self.storage_dir_path@, self.symlink_dir_path@, self.custom_metadata_path@)
    }
}

} // verus!
