use vstd::prelude::*;

pub mod apply;
pub mod codec;
pub mod config;
pub mod data;
pub mod paths;
pub mod pull;
pub mod push;
pub mod records;
pub mod version;

pub use codec::{bytes_to_transmission_type, transmission_type_to_bytes, DecodeError};

verus! {

/// Number of payload bytes carried by one raw content chunk on the wire.
pub const CHUNK_SIZE: u64 = 65536;

/// Mathematical chunk count: how many raw chunks carry a file of `size` bytes.
pub open spec fn spec_num_packets(size: u64) -> int {
    (size as int + CHUNK_SIZE as int - 1) / (CHUNK_SIZE as int)
}

/// Number of raw content chunks needed for a file of `size` bytes,
/// the ceiling of `size / CHUNK_SIZE`.
pub fn calculate_num_packets(size: u64) -> (r: u64)
    ensures
        r as int == spec_num_packets(size),
{
    if size == 0 {
        0
    } else {
        (size - 1) / CHUNK_SIZE + 1
    }
}

} // verus!
