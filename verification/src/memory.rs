//! Guest linear memory as the host sees it: a byte buffer addressed by 32-bit
//! offsets, into which values are written in little-endian order.

use vstd::prelude::*;

verus! {

/// The four bytes of `value`, least significant first.
pub open spec fn u32_le_bytes(value: u32) -> Seq<u8> {
    seq![
        (value % 0x100) as u8,
        ((value / 0x100) % 0x100) as u8,
        ((value / 0x1_0000) % 0x100) as u8,
        ((value / 0x100_0000) % 0x100) as u8,
    ]
}

/// The eight bytes of `value`, least significant first.
pub open spec fn u64_le_bytes(value: u64) -> Seq<u8> {
    seq![
        (value % 0x100) as u8,
        ((value / 0x100) % 0x100) as u8,
        ((value / 0x1_0000) % 0x100) as u8,
        ((value / 0x100_0000) % 0x100) as u8,
        ((value / 0x1_0000_0000) % 0x100) as u8,
        ((value / 0x100_0000_0000) % 0x100) as u8,
        ((value / 0x1_0000_0000_0000) % 0x100) as u8,
        ((value / 0x100_0000_0000_0000) % 0x100) as u8,
    ]
}

/// The number that four little-endian bytes stand for.
pub open spec fn u32_from_le_bytes(bytes: Seq<u8>) -> int
    recommends
        bytes.len() == 4,
{
    bytes[0] + 0x100 * bytes[1] + 0x1_0000 * bytes[2] + 0x100_0000 * bytes[3]
}

/// The number that eight little-endian bytes stand for.
pub open spec fn u64_from_le_bytes(bytes: Seq<u8>) -> int
    recommends
        bytes.len() == 8,
{
    bytes[0] + 0x100 * bytes[1] + 0x1_0000 * bytes[2] + 0x100_0000 * bytes[3] + 0x1_0000_0000
        * bytes[4] + 0x100_0000_0000 * bytes[5] + 0x1_0000_0000_0000 * bytes[6]
        + 0x100_0000_0000_0000 * bytes[7]
}

/// Four bytes written for a number read back as that number.
pub proof fn lemma_u32_round_trip(value: u32)
    ensures
        u32_le_bytes(value).len() == 4,
        u32_from_le_bytes(u32_le_bytes(value)) == value,
{
}

/// Eight bytes written for a number read back as that number.
pub proof fn lemma_u64_round_trip(value: u64)
    ensures
        u64_le_bytes(value).len() == 8,
        u64_from_le_bytes(u64_le_bytes(value)) == value,
{
    assert(value == (value % 0x100) + 0x100 * ((value / 0x100) % 0x100) + 0x1_0000 * ((value
        / 0x1_0000) % 0x100) + 0x100_0000 * ((value / 0x100_0000) % 0x100) + 0x1_0000_0000 * ((
    value / 0x1_0000_0000) % 0x100) + 0x100_0000_0000 * ((value / 0x100_0000_0000) % 0x100)
        + 0x1_0000_0000_0000 * ((value / 0x1_0000_0000_0000) % 0x100) + 0x100_0000_0000_0000 * ((
    value / 0x100_0000_0000_0000) % 0x100)) by (bit_vector);
}

/// `memory` with `bytes` laid over it from offset `at` on. Bytes that would
/// fall outside `memory` are not part of the result.
pub open spec fn overlay(memory: Seq<u8>, at: int, bytes: Seq<u8>) -> Seq<u8> {
    Seq::new(
        memory.len(),
        |i: int|
            if at <= i < at + bytes.len() {
                bytes[i - at]
            } else {
                memory[i]
            },
    )
}

/// Whether the `len` bytes from offset `at` on all lie inside a memory of
/// `size` bytes.
pub open spec fn in_bounds(size: nat, at: int, len: int) -> bool {
    0 <= at && 0 <= len && at + len <= size
}

/// Copies `bytes` into `memory` from offset `at` on.
pub fn write_bytes(memory: &mut [u8], at: usize, bytes: &[u8])
    requires
        in_bounds(old(memory)@.len(), at as int, bytes@.len() as int),
    ensures
        final(memory)@ == overlay(old(memory)@, at as int, bytes@),
{
    let n = bytes.len();
    let size = memory.len();
    let mut k: usize = 0;
    while k < n
        invariant
            n == bytes@.len(),
            k <= n,
            at + n <= size,
            size == memory@.len(),
            memory@.len() == old(memory)@.len(),
            memory@ == overlay(old(memory)@, at as int, bytes@.take(k as int)),
        decreases n - k,
    {
        memory[at + k] = bytes[k];
        k += 1;
    }
    assert(bytes@.take(n as int) =~= bytes@);
}

/// Writes `value` into `memory` at offset `at`, least significant byte first.
pub fn write_u32(memory: &mut [u8], at: usize, value: u32)
    requires
        in_bounds(old(memory)@.len(), at as int, 4),
    ensures
        final(memory)@ == overlay(old(memory)@, at as int, u32_le_bytes(value)),
{
    memory[at] = (value % 0x100) as u8;
    memory[at + 1] = ((value / 0x100) % 0x100) as u8;
    memory[at + 2] = ((value / 0x1_0000) % 0x100) as u8;
    memory[at + 3] = ((value / 0x100_0000) % 0x100) as u8;
}

/// Writes `value` into `memory` at offset `at`, least significant byte first.
pub fn write_u64(memory: &mut [u8], at: usize, value: u64)
    requires
        in_bounds(old(memory)@.len(), at as int, 8),
    ensures
        final(memory)@ == overlay(old(memory)@, at as int, u64_le_bytes(value)),
{
    memory[at] = (value % 0x100) as u8;
    memory[at + 1] = ((value / 0x100) % 0x100) as u8;
    memory[at + 2] = ((value / 0x1_0000) % 0x100) as u8;
    memory[at + 3] = ((value / 0x100_0000) % 0x100) as u8;
    memory[at + 4] = ((value / 0x1_0000_0000) % 0x100) as u8;
    memory[at + 5] = ((value / 0x100_0000_0000) % 0x100) as u8;
    memory[at + 6] = ((value / 0x1_0000_0000_0000) % 0x100) as u8;
    memory[at + 7] = ((value / 0x100_0000_0000_0000) % 0x100) as u8;
}

/// Reads the number that stands at offset `at` of `memory`, least
/// significant byte first.
pub fn read_u64(memory: &[u8], at: usize) -> (value: u64)
    requires
        in_bounds(memory@.len(), at as int, 8),
    ensures
        value == u64_from_le_bytes(memory@.subrange(at as int, at + 8)),
{
    memory[at] as u64 + 0x100 * (memory[at + 1] as u64) + 0x1_0000 * (memory[at + 2] as u64)
        + 0x100_0000 * (memory[at + 3] as u64) + 0x1_0000_0000 * (memory[at + 4] as u64)
        + 0x100_0000_0000 * (memory[at + 5] as u64) + 0x1_0000_0000_0000 * (memory[at + 6] as u64)
        + 0x100_0000_0000_0000 * (memory[at + 7] as u64)
}

} // verus!
