use vstd::prelude::*;

use crate::codec::{read_u64, u64_from_le, u64_le, write_u64};

verus! {

// The Version Cursor: the highest server revision this client has observed.
// It is loaded at session start, advanced only by acknowledgments from the
// remote side, and persisted at session end. It never moves backward: a
// decrease observed from the remote side is a protocol violation that the
// session engines turn into an error.

pub struct VersionCursor {
    version: u64,
}

impl View for VersionCursor {
    type V = u64;

    closed spec fn view(&self) -> u64 {
        self.version
    }
}

impl VersionCursor {
    pub fn new(version: u64) -> (r: Self)
        ensures
            r@ == version,
    {
        VersionCursor { version }
    }

    /// The last server revision observed.
    pub fn server_version(&self) -> (r: u64)
        ensures
            r == self@,
    {
        self.version
    }

    /// Advances the cursor to `v` and reports whether that was an advance.
    /// The cursor never decreases: a stale `v` is refused and reported.
    pub fn set(&mut self, v: u64) -> (r: bool)
        ensures
            r == (v >= old(self)@),
            final(self)@ == if v >= old(self)@ {
                v
            } else {
                old(self)@
            },
            final(self)@ >= old(self)@,
    {
        if v >= self.version {
            self.version = v;
            true
        } else {
            false
        }
    }

    /// The cursor's persisted byte form: eight little-endian bytes.
    pub fn to_bytes(&self) -> (r: Vec<u8>)
        ensures
            r@ == u64_le(self@),
    {
        let mut out: Vec<u8> = Vec::new();
        write_u64(&mut out, self.version);
        out
    }

    /// Reads a persisted cursor back; rejects anything but exactly eight
    /// bytes.
    pub fn from_bytes(s: &[u8]) -> (r: Option<Self>)
        ensures
            match r {
                Some(c) => s@.len() == 8 && c@ == u64_from_le(s@),
                None => s@.len() != 8,
            },
    {
        if s.len() == 8 {
            match read_u64(s, 0) {
                Some((v, _)) => {
                    proof {
                        assert(s@.subrange(0, 8) =~= s@);
                    }
                    Some(VersionCursor { version: v })
                },
                None => None,
            }
        } else {
            None
        }
    }
}

} // verus!
