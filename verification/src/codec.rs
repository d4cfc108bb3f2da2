use vstd::prelude::*;

use crate::data::{
    ChangeEvent, ChangeEventV, DirectoryEvent, DirectoryEventV, FileEvent, FileEventV,
    Transmission, TransmissionV,
};

verus! {

// Canonical byte codec for `Transmission`. Every message is a tag byte
// followed by its fields; integers travel as eight little-endian bytes and
// byte strings as a length followed by the bytes themselves. Encoding is
// canonical: one logical message has exactly one byte form, and decoding
// rejects trailing bytes, so the codec round-trips every message.

/// Decoding failed: the bytes are not the canonical form of any message.
#[derive(Debug)]
pub struct DecodeError;

/// The eight little-endian bytes of `v`.
pub open spec fn u64_le(v: u64) -> Seq<u8> {
    seq![
        (v & 0xff) as u8,
        ((v >> 8) & 0xff) as u8,
        ((v >> 16) & 0xff) as u8,
        ((v >> 24) & 0xff) as u8,
        ((v >> 32) & 0xff) as u8,
        ((v >> 40) & 0xff) as u8,
        ((v >> 48) & 0xff) as u8,
        ((v >> 56) & 0xff) as u8,
    ]
}

/// The value read back from eight little-endian bytes.
pub open spec fn u64_from_le(s: Seq<u8>) -> u64 {
    ((s[0] as u64) | ((s[1] as u64) << 8) | ((s[2] as u64) << 16) | ((s[3] as u64) << 24)
        | ((s[4] as u64) << 32) | ((s[5] as u64) << 40) | ((s[6] as u64) << 48) | ((s[7]
        as u64) << 56)) as u64
}

proof fn lemma_u64_le_roundtrip(v: u64)
    ensures
        u64_from_le(u64_le(v)) == v,
{
    assert((((v & 0xff) as u8) as u64) | ((((v >> 8) & 0xff) as u8) as u64) << 8 | ((((v >> 16)
        & 0xff) as u8) as u64) << 16 | ((((v >> 24) & 0xff) as u8) as u64) << 24 | ((((v >> 32)
        & 0xff) as u8) as u64) << 32 | ((((v >> 40) & 0xff) as u8) as u64) << 40 | ((((v >> 48)
        & 0xff) as u8) as u64) << 48 | ((((v >> 56) & 0xff) as u8) as u64) << 56 == v)
        by (bit_vector);
}

/// A byte string on the wire: its length, then its bytes.
pub open spec fn enc_bytes(b: Seq<u8>) -> Seq<u8> {
    u64_le(b.len() as u64) + b
}

pub open spec fn spec_encode_file(e: FileEventV) -> Seq<u8> {
    match e {
        FileEventV::Create { path, size } => seq![1u8] + enc_bytes(path) + u64_le(size),
        FileEventV::Modify { path, size } => seq![2u8] + enc_bytes(path) + u64_le(size),
        FileEventV::Delete { path } => seq![3u8] + enc_bytes(path),
        FileEventV::Move { from_path, to_path } => seq![4u8] + enc_bytes(from_path) + enc_bytes(
            to_path,
        ),
        FileEventV::UndoDelete { path } => seq![5u8] + enc_bytes(path),
    }
}

pub open spec fn spec_encode_dir(e: DirectoryEventV) -> Seq<u8> {
    match e {
        DirectoryEventV::Create { path } => seq![1u8] + enc_bytes(path),
        DirectoryEventV::Delete { path } => seq![2u8] + enc_bytes(path),
        DirectoryEventV::Move { from_path, to_path } => seq![3u8] + enc_bytes(from_path)
            + enc_bytes(to_path),
        DirectoryEventV::UndoDelete { path } => seq![4u8] + enc_bytes(path),
    }
}

pub open spec fn spec_encode_event(e: ChangeEventV) -> Seq<u8> {
    match e {
        ChangeEventV::File(f) => seq![1u8] + spec_encode_file(f),
        ChangeEventV::Directory(d) => seq![2u8] + spec_encode_dir(d),
        ChangeEventV::Symlink { path } => seq![3u8] + enc_bytes(path),
    }
}

/// The canonical byte form of a message.
pub open spec fn spec_encode(t: TransmissionV) -> Seq<u8> {
    match t {
        TransmissionV::Greeting { client_id } => seq![1u8] + enc_bytes(client_id),
        TransmissionV::Proceed => seq![2u8],
        TransmissionV::SyncClientToServer { known_version, change_count } => seq![3u8] + u64_le(
            known_version,
        ) + u64_le(change_count),
        TransmissionV::SyncServerToClient { known_version } => seq![4u8] + u64_le(known_version),
        TransmissionV::ServerVersion { version } => seq![5u8] + u64_le(version),
        TransmissionV::ChangeEvent(e) => seq![6u8] + spec_encode_event(e),
        TransmissionV::SkipCurrent => seq![7u8],
        TransmissionV::TransactionComplete => seq![8u8],
        TransmissionV::Failure { message } => seq![9u8] + enc_bytes(message),
    }
}

// --- spec-level reader: the meaning of the bytes ---

/// Reads one byte at `i`.
pub open spec fn rd_u8(s: Seq<u8>, i: int) -> Option<(u8, int)> {
    if 0 <= i && i < s.len() {
        Some((s[i], i + 1))
    } else {
        None
    }
}

/// Reads eight little-endian bytes at `i`.
pub open spec fn rd_u64(s: Seq<u8>, i: int) -> Option<(u64, int)> {
    if 0 <= i && i + 8 <= s.len() {
        Some((u64_from_le(s.subrange(i, i + 8)), i + 8))
    } else {
        None
    }
}

/// Reads a length-prefixed byte string at `i`.
pub open spec fn rd_bytes(s: Seq<u8>, i: int) -> Option<(Seq<u8>, int)> {
    match rd_u64(s, i) {
        Some((n, j)) => if j + n <= s.len() {
            Some((s.subrange(j, j + n), j + n))
        } else {
            None
        },
        None => None,
    }
}

pub open spec fn rd_file(s: Seq<u8>, i: int) -> Option<(FileEventV, int)> {
    match rd_u8(s, i) {
        Some((tag, j)) => if tag == 1 {
            match rd_bytes(s, j) {
                Some((path, k)) => match rd_u64(s, k) {
                    Some((size, l)) => Some((FileEventV::Create { path, size }, l)),
                    None => None,
                },
                None => None,
            }
        } else if tag == 2 {
            match rd_bytes(s, j) {
                Some((path, k)) => match rd_u64(s, k) {
                    Some((size, l)) => Some((FileEventV::Modify { path, size }, l)),
                    None => None,
                },
                None => None,
            }
        } else if tag == 3 {
            match rd_bytes(s, j) {
                Some((path, k)) => Some((FileEventV::Delete { path }, k)),
                None => None,
            }
        } else if tag == 4 {
            match rd_bytes(s, j) {
                Some((from_path, k)) => match rd_bytes(s, k) {
                    Some((to_path, l)) => Some((FileEventV::Move { from_path, to_path }, l)),
                    None => None,
                },
                None => None,
            }
        } else if tag == 5 {
            match rd_bytes(s, j) {
                Some((path, k)) => Some((FileEventV::UndoDelete { path }, k)),
                None => None,
            }
        } else {
            None
        },
        None => None,
    }
}

pub open spec fn rd_dir(s: Seq<u8>, i: int) -> Option<(DirectoryEventV, int)> {
    match rd_u8(s, i) {
        Some((tag, j)) => if tag == 1 {
            match rd_bytes(s, j) {
                Some((path, k)) => Some((DirectoryEventV::Create { path }, k)),
                None => None,
            }
        } else if tag == 2 {
            match rd_bytes(s, j) {
                Some((path, k)) => Some((DirectoryEventV::Delete { path }, k)),
                None => None,
            }
        } else if tag == 3 {
            match rd_bytes(s, j) {
                Some((from_path, k)) => match rd_bytes(s, k) {
                    Some((to_path, l)) => Some((DirectoryEventV::Move { from_path, to_path }, l)),
                    None => None,
                },
                None => None,
            }
        } else if tag == 4 {
            match rd_bytes(s, j) {
                Some((path, k)) => Some((DirectoryEventV::UndoDelete { path }, k)),
                None => None,
            }
        } else {
            None
        },
        None => None,
    }
}

pub open spec fn rd_event(s: Seq<u8>, i: int) -> Option<(ChangeEventV, int)> {
    match rd_u8(s, i) {
        Some((tag, j)) => if tag == 1 {
            match rd_file(s, j) {
                Some((f, k)) => Some((ChangeEventV::File(f), k)),
                None => None,
            }
        } else if tag == 2 {
            match rd_dir(s, j) {
                Some((d, k)) => Some((ChangeEventV::Directory(d), k)),
                None => None,
            }
        } else if tag == 3 {
            match rd_bytes(s, j) {
                Some((path, k)) => Some((ChangeEventV::Symlink { path }, k)),
                None => None,
            }
        } else {
            None
        },
        None => None,
    }
}

pub open spec fn rd_transmission(s: Seq<u8>, i: int) -> Option<(TransmissionV, int)> {
    match rd_u8(s, i) {
        Some((tag, j)) => if tag == 1 {
            match rd_bytes(s, j) {
                Some((client_id, k)) => Some((TransmissionV::Greeting { client_id }, k)),
                None => None,
            }
        } else if tag == 2 {
            Some((TransmissionV::Proceed, j))
        } else if tag == 3 {
            match rd_u64(s, j) {
                Some((known_version, k)) => match rd_u64(s, k) {
                    Some((change_count, l)) => Some(
                        (TransmissionV::SyncClientToServer { known_version, change_count }, l),
                    ),
                    None => None,
                },
                None => None,
            }
        } else if tag == 4 {
            match rd_u64(s, j) {
                Some((known_version, k)) => Some(
                    (TransmissionV::SyncServerToClient { known_version }, k),
                ),
                None => None,
            }
        } else if tag == 5 {
            match rd_u64(s, j) {
                Some((version, k)) => Some((TransmissionV::ServerVersion { version }, k)),
                None => None,
            }
        } else if tag == 6 {
            match rd_event(s, j) {
                Some((e, k)) => Some((TransmissionV::ChangeEvent(e), k)),
                None => None,
            }
        } else if tag == 7 {
            Some((TransmissionV::SkipCurrent, j))
        } else if tag == 8 {
            Some((TransmissionV::TransactionComplete, j))
        } else if tag == 9 {
            match rd_bytes(s, j) {
                Some((message, k)) => Some((TransmissionV::Failure { message }, k)),
                None => None,
            }
        } else {
            None
        },
        None => None,
    }
}

/// The message whose canonical byte form is exactly `s`, if any.
pub open spec fn spec_decode(s: Seq<u8>) -> Option<TransmissionV> {
    match rd_transmission(s, 0) {
        Some((t, j)) => if j == s.len() {
            Some(t)
        } else {
            None
        },
        None => None,
    }
}

// --- well-formedness: every path fits a length prefix ---

pub open spec fn wf_file(e: FileEventV) -> bool {
    match e {
        FileEventV::Create { path, size } => path.len() <= u64::MAX,
        FileEventV::Modify { path, size } => path.len() <= u64::MAX,
        FileEventV::Delete { path } => path.len() <= u64::MAX,
        FileEventV::Move { from_path, to_path } => from_path.len() <= u64::MAX && to_path.len()
            <= u64::MAX,
        FileEventV::UndoDelete { path } => path.len() <= u64::MAX,
    }
}

pub open spec fn wf_dir(e: DirectoryEventV) -> bool {
    match e {
        DirectoryEventV::Create { path } => path.len() <= u64::MAX,
        DirectoryEventV::Delete { path } => path.len() <= u64::MAX,
        DirectoryEventV::Move { from_path, to_path } => from_path.len() <= u64::MAX
            && to_path.len() <= u64::MAX,
        DirectoryEventV::UndoDelete { path } => path.len() <= u64::MAX,
    }
}

pub open spec fn wf_event(e: ChangeEventV) -> bool {
    match e {
        ChangeEventV::File(f) => wf_file(f),
        ChangeEventV::Directory(d) => wf_dir(d),
        ChangeEventV::Symlink { path } => path.len() <= u64::MAX,
    }
}

pub open spec fn wf_transmission(t: TransmissionV) -> bool {
    match t {
        TransmissionV::Greeting { client_id } => client_id.len() <= u64::MAX,
        TransmissionV::ChangeEvent(e) => wf_event(e),
        TransmissionV::Failure { message } => message.len() <= u64::MAX,
        _ => true,
    }
}

// --- the round trip: reading back what was written ---

/// A window of `s` that holds a whole encoded piece holds each of its parts.
proof fn lemma_piece(s: Seq<u8>, i: int, c: Seq<u8>, off: int, l2: int)
    requires
        0 <= i,
        i + c.len() <= s.len(),
        s.subrange(i, i + c.len()) == c,
        0 <= off,
        0 <= l2,
        off + l2 <= c.len(),
    ensures
        s.subrange(i + off, i + off + l2) == c.subrange(off, off + l2),
{
    assert(s.subrange(i + off, i + off + l2) =~= c.subrange(off, off + l2)) by {
        assert forall|k: int| 0 <= k < l2 implies #[trigger] s.subrange(i + off, i + off + l2)[k]
            == c.subrange(off, off + l2)[k] by {
            assert(c[off + k] == s.subrange(i, i + c.len())[off + k]);
        }
    };
}

proof fn lemma_rd_u64_at(s: Seq<u8>, i: int, v: u64)
    requires
        0 <= i,
        i + 8 <= s.len(),
        s.subrange(i, i + 8) == u64_le(v),
    ensures
        rd_u64(s, i) == Some((v, i + 8)),
{
    lemma_u64_le_roundtrip(v);
}

proof fn lemma_rd_bytes_at(s: Seq<u8>, i: int, b: Seq<u8>)
    requires
        0 <= i,
        b.len() <= u64::MAX,
        i + 8 + b.len() <= s.len(),
        s.subrange(i, i + 8 + b.len()) == enc_bytes(b),
    ensures
        rd_bytes(s, i) == Some((b, i + 8 + b.len())),
{
    let c = enc_bytes(b);
    assert(c.subrange(0, 8) =~= u64_le(b.len() as u64));
    lemma_piece(s, i, c, 0, 8);
    lemma_rd_u64_at(s, i, b.len() as u64);
    assert(c.subrange(8, c.len() as int) =~= b);
    lemma_piece(s, i, c, 8, b.len() as int);
    assert(s.subrange(i + 8, i + 8 + b.len()) == b);
}

proof fn lemma_rd_file_at(s: Seq<u8>, i: int, e: FileEventV)
    requires
        wf_file(e),
        0 <= i,
        i + spec_encode_file(e).len() <= s.len(),
        s.subrange(i, i + spec_encode_file(e).len()) == spec_encode_file(e),
    ensures
        rd_file(s, i) == Some((e, i + spec_encode_file(e).len())),
{
    let c = spec_encode_file(e);
    assert(s[i] == c[0]) by {
        assert(s.subrange(i, i + c.len())[0] == c[0]);
    };
    match e {
        FileEventV::Create { path, size } => {
            let n = path.len() as int;
            assert(c.subrange(1, 9 + n) =~= enc_bytes(path));
            lemma_piece(s, i, c, 1, 8 + n);
            lemma_rd_bytes_at(s, i + 1, path);
            assert(c.subrange(9 + n, 17 + n) =~= u64_le(size));
            lemma_piece(s, i, c, 9 + n, 8);
            lemma_rd_u64_at(s, i + 9 + n, size);
        },
        FileEventV::Modify { path, size } => {
            let n = path.len() as int;
            assert(c.subrange(1, 9 + n) =~= enc_bytes(path));
            lemma_piece(s, i, c, 1, 8 + n);
            lemma_rd_bytes_at(s, i + 1, path);
            assert(c.subrange(9 + n, 17 + n) =~= u64_le(size));
            lemma_piece(s, i, c, 9 + n, 8);
            lemma_rd_u64_at(s, i + 9 + n, size);
        },
        FileEventV::Delete { path } => {
            let n = path.len() as int;
            assert(c.subrange(1, 9 + n) =~= enc_bytes(path));
            lemma_piece(s, i, c, 1, 8 + n);
            lemma_rd_bytes_at(s, i + 1, path);
        },
        FileEventV::Move { from_path, to_path } => {
            let n = from_path.len() as int;
            let m = to_path.len() as int;
            assert(c.subrange(1, 9 + n) =~= enc_bytes(from_path));
            lemma_piece(s, i, c, 1, 8 + n);
            lemma_rd_bytes_at(s, i + 1, from_path);
            assert(c.subrange(9 + n, 17 + n + m) =~= enc_bytes(to_path));
            lemma_piece(s, i, c, 9 + n, 8 + m);
            lemma_rd_bytes_at(s, i + 9 + n, to_path);
        },
        FileEventV::UndoDelete { path } => {
            let n = path.len() as int;
            assert(c.subrange(1, 9 + n) =~= enc_bytes(path));
            lemma_piece(s, i, c, 1, 8 + n);
            lemma_rd_bytes_at(s, i + 1, path);
        },
    }
}

proof fn lemma_rd_dir_at(s: Seq<u8>, i: int, e: DirectoryEventV)
    requires
        wf_dir(e),
        0 <= i,
        i + spec_encode_dir(e).len() <= s.len(),
        s.subrange(i, i + spec_encode_dir(e).len()) == spec_encode_dir(e),
    ensures
        rd_dir(s, i) == Some((e, i + spec_encode_dir(e).len())),
{
    let c = spec_encode_dir(e);
    assert(s[i] == c[0]) by {
        assert(s.subrange(i, i + c.len())[0] == c[0]);
    };
    match e {
        DirectoryEventV::Create { path } => {
            let n = path.len() as int;
            assert(c.subrange(1, 9 + n) =~= enc_bytes(path));
            lemma_piece(s, i, c, 1, 8 + n);
            lemma_rd_bytes_at(s, i + 1, path);
        },
        DirectoryEventV::Delete { path } => {
            let n = path.len() as int;
            assert(c.subrange(1, 9 + n) =~= enc_bytes(path));
            lemma_piece(s, i, c, 1, 8 + n);
            lemma_rd_bytes_at(s, i + 1, path);
        },
        DirectoryEventV::Move { from_path, to_path } => {
            let n = from_path.len() as int;
            let m = to_path.len() as int;
            assert(c.subrange(1, 9 + n) =~= enc_bytes(from_path));
            lemma_piece(s, i, c, 1, 8 + n);
            lemma_rd_bytes_at(s, i + 1, from_path);
            assert(c.subrange(9 + n, 17 + n + m) =~= enc_bytes(to_path));
            lemma_piece(s, i, c, 9 + n, 8 + m);
            lemma_rd_bytes_at(s, i + 9 + n, to_path);
        },
        DirectoryEventV::UndoDelete { path } => {
            let n = path.len() as int;
            assert(c.subrange(1, 9 + n) =~= enc_bytes(path));
            lemma_piece(s, i, c, 1, 8 + n);
            lemma_rd_bytes_at(s, i + 1, path);
        },
    }
}

proof fn lemma_rd_event_at(s: Seq<u8>, i: int, e: ChangeEventV)
    requires
        wf_event(e),
        0 <= i,
        i + spec_encode_event(e).len() <= s.len(),
        s.subrange(i, i + spec_encode_event(e).len()) == spec_encode_event(e),
    ensures
        rd_event(s, i) == Some((e, i + spec_encode_event(e).len())),
{
    let c = spec_encode_event(e);
    assert(s[i] == c[0]) by {
        assert(s.subrange(i, i + c.len())[0] == c[0]);
    };
    match e {
        ChangeEventV::File(f) => {
            let n = spec_encode_file(f).len() as int;
            assert(c.subrange(1, 1 + n) =~= spec_encode_file(f));
            lemma_piece(s, i, c, 1, n);
            lemma_rd_file_at(s, i + 1, f);
        },
        ChangeEventV::Directory(d) => {
            let n = spec_encode_dir(d).len() as int;
            assert(c.subrange(1, 1 + n) =~= spec_encode_dir(d));
            lemma_piece(s, i, c, 1, n);
            lemma_rd_dir_at(s, i + 1, d);
        },
        ChangeEventV::Symlink { path } => {
            let n = path.len() as int;
            assert(c.subrange(1, 9 + n) =~= enc_bytes(path));
            lemma_piece(s, i, c, 1, 8 + n);
            lemma_rd_bytes_at(s, i + 1, path);
        },
    }
}

proof fn lemma_rd_transmission_at(s: Seq<u8>, i: int, t: TransmissionV)
    requires
        wf_transmission(t),
        0 <= i,
        i + spec_encode(t).len() <= s.len(),
        s.subrange(i, i + spec_encode(t).len()) == spec_encode(t),
    ensures
        rd_transmission(s, i) == Some((t, i + spec_encode(t).len())),
{
    let c = spec_encode(t);
    assert(s[i] == c[0]) by {
        assert(s.subrange(i, i + c.len())[0] == c[0]);
    };
    match t {
        TransmissionV::Greeting { client_id } => {
            let n = client_id.len() as int;
            assert(c.subrange(1, 9 + n) =~= enc_bytes(client_id));
            lemma_piece(s, i, c, 1, 8 + n);
            lemma_rd_bytes_at(s, i + 1, client_id);
        },
        TransmissionV::Proceed => {},
        TransmissionV::SyncClientToServer { known_version, change_count } => {
            assert(c.subrange(1, 9) =~= u64_le(known_version));
            lemma_piece(s, i, c, 1, 8);
            lemma_rd_u64_at(s, i + 1, known_version);
            assert(c.subrange(9, 17) =~= u64_le(change_count));
            lemma_piece(s, i, c, 9, 8);
            lemma_rd_u64_at(s, i + 9, change_count);
        },
        TransmissionV::SyncServerToClient { known_version } => {
            assert(c.subrange(1, 9) =~= u64_le(known_version));
            lemma_piece(s, i, c, 1, 8);
            lemma_rd_u64_at(s, i + 1, known_version);
        },
        TransmissionV::ServerVersion { version } => {
            assert(c.subrange(1, 9) =~= u64_le(version));
            lemma_piece(s, i, c, 1, 8);
            lemma_rd_u64_at(s, i + 1, version);
        },
        TransmissionV::ChangeEvent(e) => {
            let n = spec_encode_event(e).len() as int;
            assert(c.subrange(1, 1 + n) =~= spec_encode_event(e));
            lemma_piece(s, i, c, 1, n);
            lemma_rd_event_at(s, i + 1, e);
        },
        TransmissionV::SkipCurrent => {},
        TransmissionV::TransactionComplete => {},
        TransmissionV::Failure { message } => {
            let n = message.len() as int;
            assert(c.subrange(1, 9 + n) =~= enc_bytes(message));
            lemma_piece(s, i, c, 1, 8 + n);
            lemma_rd_bytes_at(s, i + 1, message);
        },
    }
}

/// Round trip: decoding the canonical byte form of any message gives back
/// exactly that message.
pub proof fn lemma_encode_decode(t: TransmissionV)
    requires
        wf_transmission(t),
    ensures
        spec_decode(spec_encode(t)) == Some(t),
{
    let s = spec_encode(t);
    assert(s.subrange(0, s.len() as int) =~= s);
    lemma_rd_transmission_at(s, 0, t);
}

// --- the converse: what was read is what those bytes encode ---

proof fn lemma_subrange_split(s: Seq<u8>, i: int, m: int, j: int)
    requires
        0 <= i <= m <= j <= s.len(),
    ensures
        s.subrange(i, j) == s.subrange(i, m) + s.subrange(m, j),
{
    assert(s.subrange(i, j) =~= s.subrange(i, m) + s.subrange(m, j));
}

proof fn lemma_rd_u64_inv(s: Seq<u8>, i: int, v: u64, j: int)
    requires
        rd_u64(s, i) == Some((v, j)),
    ensures
        0 <= i,
        j == i + 8,
        j <= s.len(),
        s.subrange(i, j) == u64_le(v),
{
    let w = s.subrange(i, i + 8);
    let x0 = w[0];
    let x1 = w[1];
    let x2 = w[2];
    let x3 = w[3];
    let x4 = w[4];
    let x5 = w[5];
    let x6 = w[6];
    let x7 = w[7];
    let y = (x0 as u64) | ((x1 as u64) << 8) | ((x2 as u64) << 16) | ((x3 as u64) << 24) | ((
    x4 as u64) << 32) | ((x5 as u64) << 40) | ((x6 as u64) << 48) | ((x7 as u64) << 56);
    assert((y & 0xff) as u8 == x0 && ((y >> 8) & 0xff) as u8 == x1 && ((y >> 16) & 0xff) as u8
        == x2 && ((y >> 24) & 0xff) as u8 == x3 && ((y >> 32) & 0xff) as u8 == x4 && ((y >> 40)
        & 0xff) as u8 == x5 && ((y >> 48) & 0xff) as u8 == x6 && ((y >> 56) & 0xff) as u8 == x7)
        by (bit_vector)
        requires
            y == (x0 as u64) | ((x1 as u64) << 8) | ((x2 as u64) << 16) | ((x3 as u64) << 24) | ((
            x4 as u64) << 32) | ((x5 as u64) << 40) | ((x6 as u64) << 48) | ((x7 as u64) << 56),
    ;
    assert(v == y);
    assert(u64_le(v) =~= w);
}

proof fn lemma_rd_bytes_inv(s: Seq<u8>, i: int, b: Seq<u8>, j: int)
    requires
        rd_bytes(s, i) == Some((b, j)),
    ensures
        0 <= i,
        j == i + 8 + b.len(),
        j <= s.len(),
        b.len() <= u64::MAX,
        s.subrange(i, j) == enc_bytes(b),
{
    let n = u64_from_le(s.subrange(i, i + 8));
    lemma_rd_u64_inv(s, i, n, i + 8);
    assert(b == s.subrange(i + 8, i + 8 + n));
    assert(b.len() == n);
    lemma_subrange_split(s, i, i + 8, j);
    assert((b.len() as u64) == n);
    assert(s.subrange(i, j) == u64_le(n) + b);
}

proof fn lemma_rd_file_inv(s: Seq<u8>, i: int, e: FileEventV, j: int)
    requires
        rd_file(s, i) == Some((e, j)),
    ensures
        0 <= i <= j <= s.len(),
        wf_file(e),
        s.subrange(i, j) == spec_encode_file(e),
{
    let tag = s[i];
    assert(s.subrange(i, i + 1) =~= seq![tag]);
    match e {
        FileEventV::Create { path, size } => {
            let k = i + 9 + path.len();
            lemma_rd_bytes_inv(s, i + 1, path, k);
            lemma_rd_u64_inv(s, k, size, j);
            lemma_subrange_split(s, i, i + 1, k);
            lemma_subrange_split(s, i, k, j);
            assert(s.subrange(i, j) =~= seq![1u8] + enc_bytes(path) + u64_le(size));
        },
        FileEventV::Modify { path, size } => {
            let k = i + 9 + path.len();
            lemma_rd_bytes_inv(s, i + 1, path, k);
            lemma_rd_u64_inv(s, k, size, j);
            lemma_subrange_split(s, i, i + 1, k);
            lemma_subrange_split(s, i, k, j);
            assert(s.subrange(i, j) =~= seq![2u8] + enc_bytes(path) + u64_le(size));
        },
        FileEventV::Delete { path } => {
            lemma_rd_bytes_inv(s, i + 1, path, j);
            lemma_subrange_split(s, i, i + 1, j);
            assert(s.subrange(i, j) =~= seq![3u8] + enc_bytes(path));
        },
        FileEventV::Move { from_path, to_path } => {
            let k = i + 9 + from_path.len();
            lemma_rd_bytes_inv(s, i + 1, from_path, k);
            lemma_rd_bytes_inv(s, k, to_path, j);
            lemma_subrange_split(s, i, i + 1, k);
            lemma_subrange_split(s, i, k, j);
            assert(s.subrange(i, j) =~= seq![4u8] + enc_bytes(from_path) + enc_bytes(to_path));
        },
        FileEventV::UndoDelete { path } => {
            lemma_rd_bytes_inv(s, i + 1, path, j);
            lemma_subrange_split(s, i, i + 1, j);
            assert(s.subrange(i, j) =~= seq![5u8] + enc_bytes(path));
        },
    }
}

proof fn lemma_rd_dir_inv(s: Seq<u8>, i: int, e: DirectoryEventV, j: int)
    requires
        rd_dir(s, i) == Some((e, j)),
    ensures
        0 <= i <= j <= s.len(),
        wf_dir(e),
        s.subrange(i, j) == spec_encode_dir(e),
{
    let tag = s[i];
    assert(s.subrange(i, i + 1) =~= seq![tag]);
    match e {
        DirectoryEventV::Create { path } => {
            lemma_rd_bytes_inv(s, i + 1, path, j);
            lemma_subrange_split(s, i, i + 1, j);
            assert(s.subrange(i, j) =~= seq![1u8] + enc_bytes(path));
        },
        DirectoryEventV::Delete { path } => {
            lemma_rd_bytes_inv(s, i + 1, path, j);
            lemma_subrange_split(s, i, i + 1, j);
            assert(s.subrange(i, j) =~= seq![2u8] + enc_bytes(path));
        },
        DirectoryEventV::Move { from_path, to_path } => {
            let k = i + 9 + from_path.len();
            lemma_rd_bytes_inv(s, i + 1, from_path, k);
            lemma_rd_bytes_inv(s, k, to_path, j);
            lemma_subrange_split(s, i, i + 1, k);
            lemma_subrange_split(s, i, k, j);
            assert(s.subrange(i, j) =~= seq![3u8] + enc_bytes(from_path) + enc_bytes(to_path));
        },
        DirectoryEventV::UndoDelete { path } => {
            lemma_rd_bytes_inv(s, i + 1, path, j);
            lemma_subrange_split(s, i, i + 1, j);
            assert(s.subrange(i, j) =~= seq![4u8] + enc_bytes(path));
        },
    }
}

proof fn lemma_rd_event_inv(s: Seq<u8>, i: int, e: ChangeEventV, j: int)
    requires
        rd_event(s, i) == Some((e, j)),
    ensures
        0 <= i <= j <= s.len(),
        wf_event(e),
        s.subrange(i, j) == spec_encode_event(e),
{
    let tag = s[i];
    assert(s.subrange(i, i + 1) =~= seq![tag]);
    match e {
        ChangeEventV::File(f) => {
            let k = choose|k: int| rd_file(s, i + 1) == Some((f, k));
            lemma_rd_file_inv(s, i + 1, f, k);
            assert(k == j);
            lemma_subrange_split(s, i, i + 1, j);
            assert(s.subrange(i, j) =~= seq![1u8] + spec_encode_file(f));
        },
        ChangeEventV::Directory(d) => {
            let k = choose|k: int| rd_dir(s, i + 1) == Some((d, k));
            lemma_rd_dir_inv(s, i + 1, d, k);
            assert(k == j);
            lemma_subrange_split(s, i, i + 1, j);
            assert(s.subrange(i, j) =~= seq![2u8] + spec_encode_dir(d));
        },
        ChangeEventV::Symlink { path } => {
            lemma_rd_bytes_inv(s, i + 1, path, j);
            lemma_subrange_split(s, i, i + 1, j);
            assert(s.subrange(i, j) =~= seq![3u8] + enc_bytes(path));
        },
    }
}

proof fn lemma_rd_transmission_inv(s: Seq<u8>, i: int, t: TransmissionV, j: int)
    requires
        rd_transmission(s, i) == Some((t, j)),
    ensures
        0 <= i <= j <= s.len(),
        wf_transmission(t),
        s.subrange(i, j) == spec_encode(t),
{
    let tag = s[i];
    assert(s.subrange(i, i + 1) =~= seq![tag]);
    match t {
        TransmissionV::Greeting { client_id } => {
            lemma_rd_bytes_inv(s, i + 1, client_id, j);
            lemma_subrange_split(s, i, i + 1, j);
            assert(s.subrange(i, j) =~= seq![1u8] + enc_bytes(client_id));
        },
        TransmissionV::Proceed => {
            assert(s.subrange(i, j) =~= seq![2u8]);
        },
        TransmissionV::SyncClientToServer { known_version, change_count } => {
            lemma_rd_u64_inv(s, i + 1, known_version, i + 9);
            lemma_rd_u64_inv(s, i + 9, change_count, j);
            lemma_subrange_split(s, i, i + 1, i + 9);
            lemma_subrange_split(s, i, i + 9, j);
            assert(s.subrange(i, j) =~= seq![3u8] + u64_le(known_version) + u64_le(change_count));
        },
        TransmissionV::SyncServerToClient { known_version } => {
            lemma_rd_u64_inv(s, i + 1, known_version, j);
            lemma_subrange_split(s, i, i + 1, j);
            assert(s.subrange(i, j) =~= seq![4u8] + u64_le(known_version));
        },
        TransmissionV::ServerVersion { version } => {
            lemma_rd_u64_inv(s, i + 1, version, j);
            lemma_subrange_split(s, i, i + 1, j);
            assert(s.subrange(i, j) =~= seq![5u8] + u64_le(version));
        },
        TransmissionV::ChangeEvent(e) => {
            let k = choose|k: int| rd_event(s, i + 1) == Some((e, k));
            lemma_rd_event_inv(s, i + 1, e, k);
            assert(k == j);
            lemma_subrange_split(s, i, i + 1, j);
            assert(s.subrange(i, j) =~= seq![6u8] + spec_encode_event(e));
        },
        TransmissionV::SkipCurrent => {
            assert(s.subrange(i, j) =~= seq![7u8]);
        },
        TransmissionV::TransactionComplete => {
            assert(s.subrange(i, j) =~= seq![8u8]);
        },
        TransmissionV::Failure { message } => {
            lemma_rd_bytes_inv(s, i + 1, message, j);
            lemma_subrange_split(s, i, i + 1, j);
            assert(s.subrange(i, j) =~= seq![9u8] + enc_bytes(message));
        },
    }
}

/// The converse of the round trip: a byte string decodes only to the one
/// message whose canonical form it is. A chunk is recognized as a control
/// message exactly when it is the canonical encoding of one.
pub proof fn lemma_decode_encode(s: Seq<u8>, t: TransmissionV)
    requires
        spec_decode(s) == Some(t),
    ensures
        spec_encode(t) == s,
        wf_transmission(t),
{
    lemma_rd_transmission_inv(s, 0, t, s.len() as int);
    assert(s.subrange(0, s.len() as int) =~= s);
}

pub(crate) fn write_u64(out: &mut Vec<u8>, v: u64)
    ensures
        final(out)@ == old(out)@ + u64_le(v),
{
    proof {
        assert(v & 0xff < 256 && (v >> 8) & 0xff < 256 && (v >> 16) & 0xff < 256 && (v >> 24)
            & 0xff < 256 && (v >> 32) & 0xff < 256 && (v >> 40) & 0xff < 256 && (v >> 48) & 0xff
            < 256 && (v >> 56) & 0xff < 256) by (bit_vector);
    }
    out.push((v & 0xff) as u8);
    out.push(((v >> 8) & 0xff) as u8);
    out.push(((v >> 16) & 0xff) as u8);
    out.push(((v >> 24) & 0xff) as u8);
    out.push(((v >> 32) & 0xff) as u8);
    out.push(((v >> 40) & 0xff) as u8);
    out.push(((v >> 48) & 0xff) as u8);
    out.push(((v >> 56) & 0xff) as u8);
    assert(out@ =~= old(out)@ + u64_le(v));
}

fn write_bytes(out: &mut Vec<u8>, b: &Vec<u8>)
    ensures
        final(out)@ == old(out)@ + enc_bytes(b@),
{
    write_u64(out, b.len() as u64);
    out.extend_from_slice(b.as_slice());
    assert(out@ =~= old(out)@ + enc_bytes(b@));
}

fn encode_file(out: &mut Vec<u8>, e: &FileEvent)
    ensures
        final(out)@ == old(out)@ + spec_encode_file(e@),
{
    match e {
        FileEvent::Create { path, size } => {
            out.push(1u8);
            write_bytes(out, path);
            write_u64(out, *size);
        },
        FileEvent::Modify { path, size } => {
            out.push(2u8);
            write_bytes(out, path);
            write_u64(out, *size);
        },
        FileEvent::Delete { path } => {
            out.push(3u8);
            write_bytes(out, path);
        },
        FileEvent::Move { from_path, to_path } => {
            out.push(4u8);
            write_bytes(out, from_path);
            write_bytes(out, to_path);
        },
        FileEvent::UndoDelete { path } => {
            out.push(5u8);
            write_bytes(out, path);
        },
    }
    assert(out@ =~= old(out)@ + spec_encode_file(e@));
}

fn encode_dir(out: &mut Vec<u8>, e: &DirectoryEvent)
    ensures
        final(out)@ == old(out)@ + spec_encode_dir(e@),
{
    match e {
        DirectoryEvent::Create { path } => {
            out.push(1u8);
            write_bytes(out, path);
        },
        DirectoryEvent::Delete { path } => {
            out.push(2u8);
            write_bytes(out, path);
        },
        DirectoryEvent::Move { from_path, to_path } => {
            out.push(3u8);
            write_bytes(out, from_path);
            write_bytes(out, to_path);
        },
        DirectoryEvent::UndoDelete { path } => {
            out.push(4u8);
            write_bytes(out, path);
        },
    }
    assert(out@ =~= old(out)@ + spec_encode_dir(e@));
}

fn encode_event(out: &mut Vec<u8>, e: &ChangeEvent)
    ensures
        final(out)@ == old(out)@ + spec_encode_event(e@),
{
    match e {
        ChangeEvent::File(f) => {
            out.push(1u8);
            encode_file(out, f);
        },
        ChangeEvent::Directory(d) => {
            out.push(2u8);
            encode_dir(out, d);
        },
        ChangeEvent::Symlink { path } => {
            out.push(3u8);
            write_bytes(out, path);
        },
    }
    assert(out@ =~= old(out)@ + spec_encode_event(e@));
}

/// Serializes a message to its canonical byte form.
pub fn transmission_type_to_bytes(t: &Transmission) -> (r: Vec<u8>)
    ensures
        r@ == spec_encode(t@),
{
    let mut out: Vec<u8> = Vec::new();
    match t {
        Transmission::Greeting { client_id } => {
            out.push(1u8);
            write_bytes(&mut out, client_id);
        },
        Transmission::Proceed => {
            out.push(2u8);
        },
        Transmission::SyncClientToServer { known_version, change_count } => {
            out.push(3u8);
            write_u64(&mut out, *known_version);
            write_u64(&mut out, *change_count);
        },
        Transmission::SyncServerToClient { known_version } => {
            out.push(4u8);
            write_u64(&mut out, *known_version);
        },
        Transmission::ServerVersion { version } => {
            out.push(5u8);
            write_u64(&mut out, *version);
        },
        Transmission::ChangeEvent(e) => {
            out.push(6u8);
            encode_event(&mut out, e);
        },
        Transmission::SkipCurrent => {
            out.push(7u8);
        },
        Transmission::TransactionComplete => {
            out.push(8u8);
        },
        Transmission::Failure { message } => {
            out.push(9u8);
            write_bytes(&mut out, message);
        },
    }
    assert(out@ =~= spec_encode(t@));
    out
}

fn read_u8(s: &[u8], i: usize) -> (r: Option<(u8, usize)>)
    requires
        i <= s@.len(),
    ensures
        match r {
            Some(p) => rd_u8(s@, i as int) == Some((p.0, p.1 as int)) && p.1 <= s@.len(),
            None => rd_u8(s@, i as int) is None,
        },
{
    if i < s.len() {
        Some((s[i], i + 1))
    } else {
        None
    }
}

pub(crate) fn read_u64(s: &[u8], i: usize) -> (r: Option<(u64, usize)>)
    requires
        i <= s@.len(),
    ensures
        match r {
            Some(p) => rd_u64(s@, i as int) == Some((p.0, p.1 as int)) && p.1 <= s@.len(),
            None => rd_u64(s@, i as int) is None,
        },
{
    if s.len() - i >= 8 {
        let v: u64 = (s[i] as u64) | ((s[i + 1] as u64) << 8) | ((s[i + 2] as u64) << 16) | ((s[i
            + 3] as u64) << 24) | ((s[i + 4] as u64) << 32) | ((s[i + 5] as u64) << 40) | ((s[i
            + 6] as u64) << 48) | ((s[i + 7] as u64) << 56);
        proof {
            let sub = s@.subrange(i as int, i as int + 8);
            assert(sub[0] == s@[i as int] && sub[1] == s@[i as int + 1] && sub[2] == s@[i as int
                + 2] && sub[3] == s@[i as int + 3] && sub[4] == s@[i as int + 4] && sub[5] == s@[
                i as int + 5] && sub[6] == s@[i as int + 6] && sub[7] == s@[i as int + 7]);
        }
        Some((v, i + 8))
    } else {
        None
    }
}

fn read_bytes(s: &[u8], i: usize) -> (r: Option<(Vec<u8>, usize)>)
    requires
        i <= s@.len(),
    ensures
        match r {
            Some(p) => rd_bytes(s@, i as int) == Some((p.0@, p.1 as int)) && p.1 <= s@.len(),
            None => rd_bytes(s@, i as int) is None,
        },
{
    match read_u64(s, i) {
        Some((n, j)) => {
            if n <= (s.len() - j) as u64 {
                let end: usize = j + (n as usize);
                let mut b: Vec<u8> = Vec::new();
                let mut k: usize = j;
                while k < end
                    invariant
                        j <= k <= end <= s@.len(),
                        b@ == s@.subrange(j as int, k as int),
                    decreases end - k,
                {
                    b.push(s[k]);
                    k = k + 1;
                    assert(b@ =~= s@.subrange(j as int, k as int));
                }
                Some((b, end))
            } else {
                None
            }
        },
        None => None,
    }
}

fn read_file(s: &[u8], i: usize) -> (r: Option<(FileEvent, usize)>)
    requires
        i <= s@.len(),
    ensures
        match r {
            Some(p) => rd_file(s@, i as int) == Some((p.0@, p.1 as int)) && p.1 <= s@.len(),
            None => rd_file(s@, i as int) is None,
        },
{
    match read_u8(s, i) {
        Some((tag, j)) => {
            if tag == 1 {
                match read_bytes(s, j) {
                    Some((path, k)) => match read_u64(s, k) {
                        Some((size, l)) => Some((FileEvent::Create { path, size }, l)),
                        None => None,
                    },
                    None => None,
                }
            } else if tag == 2 {
                match read_bytes(s, j) {
                    Some((path, k)) => match read_u64(s, k) {
                        Some((size, l)) => Some((FileEvent::Modify { path, size }, l)),
                        None => None,
                    },
                    None => None,
                }
            } else if tag == 3 {
                match read_bytes(s, j) {
                    Some((path, k)) => Some((FileEvent::Delete { path }, k)),
                    None => None,
                }
            } else if tag == 4 {
                match read_bytes(s, j) {
                    Some((from_path, k)) => match read_bytes(s, k) {
                        Some((to_path, l)) => Some((FileEvent::Move { from_path, to_path }, l)),
                        None => None,
                    },
                    None => None,
                }
            } else if tag == 5 {
                match read_bytes(s, j) {
                    Some((path, k)) => Some((FileEvent::UndoDelete { path }, k)),
                    None => None,
                }
            } else {
                None
            }
        },
        None => None,
    }
}

fn read_dir(s: &[u8], i: usize) -> (r: Option<(DirectoryEvent, usize)>)
    requires
        i <= s@.len(),
    ensures
        match r {
            Some(p) => rd_dir(s@, i as int) == Some((p.0@, p.1 as int)) && p.1 <= s@.len(),
            None => rd_dir(s@, i as int) is None,
        },
{
    match read_u8(s, i) {
        Some((tag, j)) => {
            if tag == 1 {
                match read_bytes(s, j) {
                    Some((path, k)) => Some((DirectoryEvent::Create { path }, k)),
                    None => None,
                }
            } else if tag == 2 {
                match read_bytes(s, j) {
                    Some((path, k)) => Some((DirectoryEvent::Delete { path }, k)),
                    None => None,
                }
            } else if tag == 3 {
                match read_bytes(s, j) {
                    Some((from_path, k)) => match read_bytes(s, k) {
                        Some((to_path, l)) => Some(
                            (DirectoryEvent::Move { from_path, to_path }, l),
                        ),
                        None => None,
                    },
                    None => None,
                }
            } else if tag == 4 {
                match read_bytes(s, j) {
                    Some((path, k)) => Some((DirectoryEvent::UndoDelete { path }, k)),
                    None => None,
                }
            } else {
                None
            }
        },
        None => None,
    }
}

fn read_event(s: &[u8], i: usize) -> (r: Option<(ChangeEvent, usize)>)
    requires
        i <= s@.len(),
    ensures
        match r {
            Some(p) => rd_event(s@, i as int) == Some((p.0@, p.1 as int)) && p.1 <= s@.len(),
            None => rd_event(s@, i as int) is None,
        },
{
    match read_u8(s, i) {
        Some((tag, j)) => {
            if tag == 1 {
                match read_file(s, j) {
                    Some((f, k)) => Some((ChangeEvent::File(f), k)),
                    None => None,
                }
            } else if tag == 2 {
                match read_dir(s, j) {
                    Some((d, k)) => Some((ChangeEvent::Directory(d), k)),
                    None => None,
                }
            } else if tag == 3 {
                match read_bytes(s, j) {
                    Some((path, k)) => Some((ChangeEvent::Symlink { path }, k)),
                    None => None,
                }
            } else {
                None
            }
        },
        None => None,
    }
}

fn read_transmission(s: &[u8], i: usize) -> (r: Option<(Transmission, usize)>)
    requires
        i <= s@.len(),
    ensures
        match r {
            Some(p) => rd_transmission(s@, i as int) == Some((p.0@, p.1 as int)) && p.1
                <= s@.len(),
            None => rd_transmission(s@, i as int) is None,
        },
{
    match read_u8(s, i) {
        Some((tag, j)) => {
            if tag == 1 {
                match read_bytes(s, j) {
                    Some((client_id, k)) => Some((Transmission::Greeting { client_id }, k)),
                    None => None,
                }
            } else if tag == 2 {
                Some((Transmission::Proceed, j))
            } else if tag == 3 {
                match read_u64(s, j) {
                    Some((known_version, k)) => match read_u64(s, k) {
                        Some((change_count, l)) => Some(
                            (Transmission::SyncClientToServer { known_version, change_count }, l),
                        ),
                        None => None,
                    },
                    None => None,
                }
            } else if tag == 4 {
                match read_u64(s, j) {
                    Some((known_version, k)) => Some(
                        (Transmission::SyncServerToClient { known_version }, k),
                    ),
                    None => None,
                }
            } else if tag == 5 {
                match read_u64(s, j) {
                    Some((version, k)) => Some((Transmission::ServerVersion { version }, k)),
                    None => None,
                }
            } else if tag == 6 {
                match read_event(s, j) {
                    Some((e, k)) => Some((Transmission::ChangeEvent(e), k)),
                    None => None,
                }
            } else if tag == 7 {
                Some((Transmission::SkipCurrent, j))
            } else if tag == 8 {
                Some((Transmission::TransactionComplete, j))
            } else if tag == 9 {
                match read_bytes(s, j) {
                    Some((message, k)) => Some((Transmission::Failure { message }, k)),
                    None => None,
                }
            } else {
                None
            }
        },
        None => None,
    }
}

/// Deserializes a message from its canonical byte form. Total over arbitrary
/// input: bytes that are not the canonical form of any message are rejected,
/// never a panic, since raw file content is speculatively decoded too.
pub fn bytes_to_transmission_type(s: &[u8]) -> (r: Result<Transmission, DecodeError>)
    ensures
        match r {
            Ok(t) => spec_decode(s@) == Some(t@),
            Err(_) => spec_decode(s@) is None,
        },
{
    match read_transmission(s, 0) {
        Some((t, j)) => {
            if j == s.len() {
                Ok(t)
            } else {
                Err(DecodeError)
            }
        },
        None => Err(DecodeError),
    }
}

} // verus!
