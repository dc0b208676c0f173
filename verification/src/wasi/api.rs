//! The legacy system-call surface: a fixed catalogue of POSIX-shaped host
//! functions over the three descriptors 0, 1 and 2, the invocation arguments
//! and the environment.

use crate::memory::{
    in_bounds, lemma_u32_round_trip, overlay, u32_from_le_bytes, u32_le_bytes, write_bytes,
    write_u32,
};
use crate::trap::Trap;
use crate::wasi::types::{
    is_snapshot, lemma_offset_monotonic, lemma_offset_step, offset_of, total_len, WasiEnv,
    TERMINATOR, WASI_EBADF, WASI_EINVAL, WASI_ESUCCESS,
};
use vstd::prelude::*;

verus! {

/// The number of bytes a guest can address: its pointers are 32 bits wide.
pub const ADDRESS_SPACE: u64 = 0x1_0000_0000;

/// A stream that takes what a guest writes.
#[derive(Clone, Copy, Debug, PartialEq, Eq)]
pub enum Sink {
    /// The standard output of the process, descriptor 1.
    Stdout,
    /// The standard error of the process, descriptor 2.
    Stderr,
}

/// A stream that a guest reads from.
#[derive(Clone, Copy, Debug, PartialEq, Eq)]
pub enum Source {
    /// The standard input of the process, descriptor 0.
    Stdin,
}

/// What is to be done about a read or a write on a descriptor.
#[derive(Clone, Copy, Debug, PartialEq, Eq)]
pub enum Transfer<S> {
    /// Nothing: the call is over, with this status and this many bytes moved.
    Done(u32, u32),
    /// The guest's buffers go to, or are filled from, this stream. The count
    /// that the stream reports then goes to `WasiState::fd_transferred`.
    Forward(S),
}

/// `memory` after a size query has stored the number of `entries` at
/// `var_count` and then their total length at `total_bytes`, four bytes each.
pub open spec fn sizes_written(
    memory: Seq<u8>,
    entries: Seq<Seq<u8>>,
    var_count: u32,
    total_bytes: u32,
) -> Seq<u8> {
    overlay(
        overlay(memory, var_count as int, u32_le_bytes(entries.len() as u32)),
        total_bytes as int,
        u32_le_bytes(total_len(entries) as u32),
    )
}

/// `memory` after the first `n` of `entries` have been handed over, one after
/// the other: for entry `i`, first the offset at which its bytes will start is
/// stored in slot `i` of the pointer array at `ptrs`, then its bytes are copied
/// to that offset. The bytes of all entries lie back to back from `buf` on.
pub open spec fn entries_written(
    memory: Seq<u8>,
    entries: Seq<Seq<u8>>,
    ptrs: int,
    buf: int,
    n: nat,
) -> Seq<u8>
    decreases n,
{
    if n == 0 {
        memory
    } else {
        let i = n - 1;
        let at = buf + offset_of(entries, i);
        overlay(
            overlay(entries_written(memory, entries, ptrs, buf, i as nat), ptrs + 4 * i, u32_le_bytes(at as u32)),
            at,
            entries[i],
        )
    }
}

/// Whether the bytes of `entries` fit between `buf` and the end of what a
/// guest can address in a memory of `size` bytes.
pub open spec fn buffer_fits(size: nat, entries: Seq<Seq<u8>>, buf: u32) -> bool {
    in_bounds(size, buf as int, total_len(entries) as int) && buf + total_len(entries)
        <= ADDRESS_SPACE
}

/// Whether one pointer for each of `entries` fits between `ptrs` and the end
/// of a memory of `size` bytes.
pub open spec fn pointers_fit(size: nat, entries: Seq<Seq<u8>>, ptrs: u32) -> bool {
    in_bounds(size, ptrs as int, 4 * entries.len() as int)
}

/// Whether the pointer array at `ptrs` and the bytes from `buf` on of
/// `entries` share no byte.
pub open spec fn regions_apart(entries: Seq<Seq<u8>>, ptrs: u32, buf: u32) -> bool {
    ptrs + 4 * entries.len() <= buf || buf + total_len(entries) <= ptrs
}

/// Handing entries over changes no length.
proof fn lemma_written_len(memory: Seq<u8>, entries: Seq<Seq<u8>>, ptrs: int, buf: int, n: nat)
    ensures
        entries_written(memory, entries, ptrs, buf, n).len() == memory.len(),
    decreases n,
{
    if n > 0 {
        lemma_written_len(memory, entries, ptrs, buf, (n - 1) as nat);
    }
}

/// What byte `p` holds after the first `n` entries have been handed over to
/// regions that lie apart: inside a pointer slot the byte of the pointer,
/// inside an entry the byte of the entry, elsewhere what it held before.
proof fn lemma_written_byte(
    memory: Seq<u8>,
    entries: Seq<Seq<u8>>,
    ptrs: u32,
    buf: u32,
    n: int,
    p: int,
)
    requires
        is_snapshot(entries),
        buffer_fits(memory.len(), entries, buf),
        pointers_fit(memory.len(), entries, ptrs),
        regions_apart(entries, ptrs, buf),
        0 <= n <= entries.len(),
        0 <= p < memory.len(),
    ensures
        forall|j: int|
            0 <= j < n && ptrs + 4 * j <= p < ptrs + 4 * j + 4 ==> entries_written(
                memory,
                entries,
                ptrs as int,
                buf as int,
                n as nat,
            )[p] == u32_le_bytes((buf + #[trigger] offset_of(entries, j)) as u32)[p - ptrs - 4 * j],
        forall|j: int|
            0 <= j < n && buf + #[trigger] offset_of(entries, j) <= p < buf + offset_of(entries, j)
                + entries[j].len() ==> entries_written(
                memory,
                entries,
                ptrs as int,
                buf as int,
                n as nat,
            )[p] == entries[j][p - buf - offset_of(entries, j)],
        !(ptrs <= p < ptrs + 4 * n) && !(buf <= p < buf + offset_of(entries, n))
            ==> entries_written(memory, entries, ptrs as int, buf as int, n as nat)[p] == memory[p],
    decreases n,
{
    if n > 0 {
        let i = n - 1;
        let prev = entries_written(memory, entries, ptrs as int, buf as int, i as nat);
        let at = buf + offset_of(entries, i);
        let mid = overlay(prev, ptrs + 4 * i, u32_le_bytes(at as u32));
        let now = overlay(mid, at as int, entries[i]);
        assert(now == entries_written(memory, entries, ptrs as int, buf as int, n as nat));
        lemma_written_byte(memory, entries, ptrs, buf, i, p);
        lemma_written_len(memory, entries, ptrs as int, buf as int, i as nat);
        lemma_offset_step(entries, i);
        lemma_offset_monotonic(entries, i + 1, entries.len() as int);
        lemma_offset_monotonic(entries, 0, i);
        assert(offset_of(entries, 0) == 0) by {
            assert(entries.take(0) =~= Seq::<Seq<u8>>::empty());
        }
        assert forall|j: int| 0 <= j < n && ptrs + 4 * j <= p < ptrs + 4 * j + 4 implies now[p]
            == u32_le_bytes((buf + #[trigger] offset_of(entries, j)) as u32)[p - ptrs - 4 * j] by {
            assert(!(at <= p < at + entries[i].len()));
            assert(now[p] == mid[p]);
        }
        assert forall|j: int|
            0 <= j < n && buf + #[trigger] offset_of(entries, j) <= p < buf + offset_of(entries, j)
                + entries[j].len() implies now[p] == entries[j][p - buf - offset_of(
            entries,
            j,
        )] by {
            if j < i {
                lemma_offset_step(entries, j);
                lemma_offset_monotonic(entries, j + 1, i);
                assert(p < at);
                assert(!(ptrs + 4 * i <= p < ptrs + 4 * i + 4)) by {
                    lemma_offset_monotonic(entries, 0, j);
                }
                assert(now[p] == prev[p]);
            }
        }
    } else {
        assert(entries.take(0) =~= Seq::<Seq<u8>>::empty());
    }
}

/// What a guest finds after its arguments or its environment have been
/// handed over to two regions that lie apart. Slot `i` of the pointer array
/// holds the offset of entry `i`. At that offset stand the bytes of entry
/// `i`, the last of them the terminator. The entries lie back to back from
/// `buf` on, so that the last one ends where the total length says.
pub proof fn lemma_entries_round_trip(
    memory: Seq<u8>,
    entries: Seq<Seq<u8>>,
    ptrs: u32,
    buf: u32,
    i: int,
)
    requires
        is_snapshot(entries),
        buffer_fits(memory.len(), entries, buf),
        pointers_fit(memory.len(), entries, ptrs),
        regions_apart(entries, ptrs, buf),
        0 <= i < entries.len(),
    ensures
        ({
            let after = entries_written(memory, entries, ptrs as int, buf as int, entries.len());
            let at = buf + offset_of(entries, i);
            &&& after.len() == memory.len()
            &&& u32_from_le_bytes(after.subrange(ptrs + 4 * i, ptrs + 4 * i + 4)) == at
            &&& after.subrange(at, at + entries[i].len()) == entries[i]
            &&& after[at + entries[i].len() - 1] == TERMINATOR
            &&& at + entries[i].len() == buf + offset_of(entries, i + 1)
            &&& offset_of(entries, entries.len() as int) == total_len(entries)
        }),
{
    let n = entries.len() as int;
    let after = entries_written(memory, entries, ptrs as int, buf as int, entries.len());
    let at = buf + offset_of(entries, i);
    let slot = after.subrange(ptrs + 4 * i, ptrs + 4 * i + 4);
    let found = after.subrange(at, at + entries[i].len());
    lemma_written_len(memory, entries, ptrs as int, buf as int, entries.len());
    lemma_offset_step(entries, i);
    lemma_offset_monotonic(entries, i + 1, n);
    lemma_offset_monotonic(entries, 0, i);
    assert(entries.take(n) =~= entries);
    assert forall|q: int| 0 <= q < 4 implies slot[q] == u32_le_bytes(at as u32)[q] by {
        lemma_written_byte(memory, entries, ptrs, buf, n, ptrs + 4 * i + q);
    }
    assert(slot =~= u32_le_bytes(at as u32));
    lemma_u32_round_trip(at as u32);
    assert forall|q: int| 0 <= q < entries[i].len() implies found[q] == entries[i][q] by {
        lemma_written_byte(memory, entries, ptrs, buf, n, at + q);
    }
    assert(found =~= entries[i]);
    assert(after[at + entries[i].len() - 1] == found[entries[i].len() - 1]);
}

/// Handing entries over changes no byte outside the pointer array and the
/// bytes of the entries.
pub proof fn lemma_entries_stay_inside(
    memory: Seq<u8>,
    entries: Seq<Seq<u8>>,
    ptrs: u32,
    buf: u32,
    p: int,
)
    requires
        is_snapshot(entries),
        buffer_fits(memory.len(), entries, buf),
        pointers_fit(memory.len(), entries, ptrs),
        regions_apart(entries, ptrs, buf),
        0 <= p < memory.len(),
        !(ptrs <= p < ptrs + 4 * entries.len()),
        !(buf <= p < buf + total_len(entries)),
    ensures
        entries_written(memory, entries, ptrs as int, buf as int, entries.len())[p] == memory[p],
{
    assert(entries.take(entries.len() as int) =~= entries);
    lemma_written_byte(memory, entries, ptrs, buf, entries.len() as int, p);
}

/// What a guest finds after a size query whose two places lie apart: the
/// number of entries in the first and their total length in the second, as
/// many entries and bytes as handing them over then takes.
pub proof fn lemma_sizes_round_trip(
    memory: Seq<u8>,
    entries: Seq<Seq<u8>>,
    var_count: u32,
    total_bytes: u32,
)
    requires
        is_snapshot(entries),
        in_bounds(memory.len(), var_count as int, 4),
        in_bounds(memory.len(), total_bytes as int, 4),
        var_count + 4 <= total_bytes || total_bytes + 4 <= var_count,
    ensures
        ({
            let after = sizes_written(memory, entries, var_count, total_bytes);
            &&& after.len() == memory.len()
            &&& u32_from_le_bytes(after.subrange(var_count as int, var_count + 4)) == entries.len()
            &&& u32_from_le_bytes(after.subrange(total_bytes as int, total_bytes + 4)) == total_len(
                entries,
            )
        }),
{
    let after = sizes_written(memory, entries, var_count, total_bytes);
    assert(after.subrange(var_count as int, var_count + 4) =~= u32_le_bytes(entries.len() as u32));
    assert(after.subrange(total_bytes as int, total_bytes + 4) =~= u32_le_bytes(
        total_len(entries) as u32,
    ));
    lemma_u32_round_trip(entries.len() as u32);
    lemma_u32_round_trip(total_len(entries) as u32);
}

/// Stores the number of entries of `env` and their total length in guest
/// memory.
fn sizes_get(env: &WasiEnv, memory: &mut [u8], var_count: u32, total_bytes: u32) -> (status:
    Result<u32, Trap>)
    ensures
        match status {
            Ok(code) => {
                &&& in_bounds(old(memory)@.len(), var_count as int, 4)
                &&& in_bounds(old(memory)@.len(), total_bytes as int, 4)
                &&& code == WASI_ESUCCESS
                &&& final(memory)@ == sizes_written(old(memory)@, env@, var_count, total_bytes)
            },
            Err(trap) => {
                &&& !(in_bounds(old(memory)@.len(), var_count as int, 4) && in_bounds(
                    old(memory)@.len(),
                    total_bytes as int,
                    4,
                ))
                &&& trap == Trap::PointerOutOfBounds
                &&& final(memory)@ == old(memory)@
            },
        },
{
    let size = memory.len();
    if var_count as u64 + 4 > size as u64 || total_bytes as u64 + 4 > size as u64 {
        return Err(Trap::PointerOutOfBounds);
    }
    write_u32(memory, var_count as usize, env.len());
    write_u32(memory, total_bytes as usize, env.total_bytes());
    Ok(WASI_ESUCCESS)
}

/// Hands the entries of `env` to the guest: their bytes from `buf` on, and
/// the offset of each in the pointer array at `ptrs`.
fn entries_get(
    env: &WasiEnv,
    memory: &mut [u8],
    ptrs: u32,
    buf: u32,
    buffer_end: Trap,
    pointers_end: Trap,
) -> (status: Result<u32, Trap>)
    ensures
        match status {
            Ok(code) => {
                &&& buffer_fits(old(memory)@.len(), env@, buf)
                &&& pointers_fit(old(memory)@.len(), env@, ptrs)
                &&& code == WASI_ESUCCESS
                &&& final(memory)@ == entries_written(
                    old(memory)@,
                    env@,
                    ptrs as int,
                    buf as int,
                    env@.len(),
                )
            },
            Err(trap) => {
                &&& final(memory)@ == old(memory)@
                &&& if !buffer_fits(old(memory)@.len(), env@, buf) {
                    trap == buffer_end
                } else {
                    !pointers_fit(old(memory)@.len(), env@, ptrs) && trap == pointers_end
                }
            },
        },
{
    let size = memory.len();
    let count = env.len() as usize;
    let buf_end: u64 = buf as u64 + env.total_bytes() as u64;
    if buf_end > size as u64 || buf_end > ADDRESS_SPACE {
        return Err(buffer_end);
    }
    if ptrs as u64 + 4 * (count as u64) > size as u64 {
        return Err(pointers_end);
    }
    let ghost entries = env@;
    let mut at: usize = buf as usize;
    let mut slot: usize = ptrs as usize;
    let mut k: usize = 0;
    while k < count
        invariant
            k <= count,
            entries == env@,
            is_snapshot(entries),
            count == entries.len(),
            size == memory@.len(),
            size == old(memory)@.len(),
            at == buf + offset_of(entries, k as int),
            slot == ptrs + 4 * k,
            buf + total_len(entries) <= size,
            buf + total_len(entries) <= ADDRESS_SPACE,
            ptrs + 4 * count <= size,
            memory@ == entries_written(old(memory)@, entries, ptrs as int, buf as int, k as nat),
        decreases count - k,
    {
        proof {
            lemma_offset_step(entries, k as int);
            lemma_offset_monotonic(entries, k + 1, count as int);
        }
        let entry = env.entry(k);
        write_u32(memory, slot, at as u32);
        write_bytes(memory, at, entry.as_slice());
        at += entry.len();
        slot += 4;
        k += 1;
    }
    Ok(WASI_ESUCCESS)
}

/// The state of the legacy system-call surface of one instance. There is
/// none beyond the three descriptors that every instance has.
pub struct WasiState {}

impl WasiState {
    /// The state of an instance that has made no call yet.
    pub fn new() -> (state: Self)
        ensures
            state == (WasiState {  }),
    {
        Self {  }
    }

    /// The time of clock `_id`. Not supported: status 0 and time 0.
    pub fn clock_time_get(&self, _id: u32, _precision: u64) -> (result: (u32, u64))
        ensures
            result.0 == WASI_ESUCCESS,
            result.1 == 0,
    {
        (0, 0)
    }

    /// The attributes of the file at `_path`. Not supported: status 0 and 0.
    pub fn path_filestat_get(&self, _fd: u32, _flags: u32, _path: &str) -> (result: (u32, u32))
        ensures
            result.0 == WASI_ESUCCESS,
            result.1 == 0,
    {
        (0, 0)
    }

    /// What the host function reports once the worker has been handed to the
    /// other ready instances and has come back: success.
    pub fn sched_yield(&self) -> (status: u32)
        ensures
            status == WASI_ESUCCESS,
    {
        WASI_ESUCCESS
    }

    /// Random bytes for `_buf`. Not supported: no byte is produced, `_buf` is
    /// as before, and the status is 0.
    pub fn random_get(&self, _buf: &mut [u8]) -> (status: u32)
        ensures
            status == WASI_ESUCCESS,
            final(_buf)@ == old(_buf)@,
    {
        0
    }

    /// Notice that the guest wants to exit. Nothing is done about it.
    pub fn proc_exit(&self, _exit_code: u32) {
    }

    /// Decides a vectored write on descriptor `fd`. Descriptor 0 is the
    /// standard input and takes no writes; 1 and 2 are the standard output and
    /// the standard error. There is no other descriptor: a write on one traps.
    pub fn fd_write(&self, fd: u32) -> (step: Result<Transfer<Sink>, Trap>)
        ensures
            fd == 0 ==> step == Ok::<Transfer<Sink>, Trap>(Transfer::Done(WASI_EINVAL, 0)),
            fd == 1 ==> step == Ok::<Transfer<Sink>, Trap>(Transfer::Forward(Sink::Stdout)),
            fd == 2 ==> step == Ok::<Transfer<Sink>, Trap>(Transfer::Forward(Sink::Stderr)),
            fd > 2 ==> step == Err::<Transfer<Sink>, Trap>(Trap::UnsupportedWriteDestination),
    {
        if fd == 0 {
            Ok(Transfer::Done(WASI_EINVAL, 0))
        } else if fd == 1 {
            Ok(Transfer::Forward(Sink::Stdout))
        } else if fd == 2 {
            Ok(Transfer::Forward(Sink::Stderr))
        } else {
            Err(Trap::UnsupportedWriteDestination)
        }
    }

    /// Decides a vectored read on descriptor `fd`. Descriptor 0 is the
    /// standard input; 1 and 2 give nothing to read. There is no other
    /// descriptor: a read on one traps.
    pub fn fd_read(&self, fd: u32) -> (step: Result<Transfer<Source>, Trap>)
        ensures
            fd == 0 ==> step == Ok::<Transfer<Source>, Trap>(Transfer::Forward(Source::Stdin)),
            fd == 1 || fd == 2 ==> step == Ok::<Transfer<Source>, Trap>(
                Transfer::Done(WASI_EINVAL, 0),
            ),
            fd > 2 ==> step == Err::<Transfer<Source>, Trap>(Trap::UnsupportedReadDestination),
    {
        if fd == 0 {
            Ok(Transfer::Forward(Source::Stdin))
        } else if fd == 1 || fd == 2 {
            Ok(Transfer::Done(WASI_EINVAL, 0))
        } else {
            Err(Trap::UnsupportedReadDestination)
        }
    }

    /// What a forwarded read or write reports once the stream has moved
    /// `count` bytes: success, and the count in 32 bits.
    pub fn fd_transferred(&self, count: usize) -> (result: (u32, u32))
        ensures
            result.0 == WASI_ESUCCESS,
            result.1 == (count as int) % 0x1_0000_0000,
    {
        (WASI_ESUCCESS, ((count as u64) % ADDRESS_SPACE) as u32)
    }

    /// Opens a path. Not supported: status 0 and descriptor 0.
    pub fn path_open(
        &self,
        _a: u32,
        _b: u32,
        _c: u32,
        _d: u32,
        _e: u32,
        _f: i64,
        _g: i64,
        _h: u32,
    ) -> (result: (u32, u32))
        ensures
            result.0 == WASI_ESUCCESS,
            result.1 == 0,
    {
        (0, 0)
    }

    /// Closes descriptor `_fd`. There is nothing to close: success.
    pub fn fd_close(&self, _fd: u32) -> (status: u32)
        ensures
            status == WASI_ESUCCESS,
    {
        WASI_ESUCCESS
    }

    /// Describes the preopened directory behind `_fd`. There is none: the
    /// descriptor is reported as bad.
    pub fn fd_prestat_get(&self, _fd: u32, _prestat_ptr: u32) -> (status: u32)
        ensures
            status == WASI_EBADF,
    {
        WASI_EBADF
    }

    /// Names the preopened directory behind `_fd`. There is none: success,
    /// with nothing written.
    pub fn fd_prestat_dir_name(&self, _fd: u32, _path: &str) -> (status: u32)
        ensures
            status == WASI_ESUCCESS,
    {
        WASI_ESUCCESS
    }

    /// Tells the guest how much room the invocation arguments take: their
    /// number is stored at `var_count`, then their total length with
    /// terminators at `total_bytes`, four bytes each. Traps, with `memory`
    /// untouched, if either place lies outside `memory`.
    pub fn args_sizes_get(
        &self,
        arg: &WasiEnv,
        memory: &mut [u8],
        var_count: u32,
        total_bytes: u32,
    ) -> (status: Result<u32, Trap>)
        ensures
            match status {
                Ok(code) => {
                    &&& in_bounds(old(memory)@.len(), var_count as int, 4)
                    &&& in_bounds(old(memory)@.len(), total_bytes as int, 4)
                    &&& code == WASI_ESUCCESS
                    &&& final(memory)@ == sizes_written(old(memory)@, arg@, var_count, total_bytes)
                },
                Err(trap) => {
                    &&& !(in_bounds(old(memory)@.len(), var_count as int, 4) && in_bounds(
                        old(memory)@.len(),
                        total_bytes as int,
                        4,
                    ))
                    &&& trap == Trap::PointerOutOfBounds
                    &&& final(memory)@ == old(memory)@
                },
            },
    {
        sizes_get(arg, memory, var_count, total_bytes)
    }

    /// Hands the invocation arguments to the guest: the bytes of each, with
    /// its terminator, back to back from `args_buf` on, and the offset of each
    /// in the array of 32-bit pointers at `args`. Traps, with `memory`
    /// untouched, if the bytes or the pointers would run past the end of
    /// `memory`.
    pub fn args_get(&self, arg: &WasiEnv, memory: &mut [u8], args: u32, args_buf: u32) -> (status:
        Result<u32, Trap>)
        ensures
            match status {
                Ok(code) => {
                    &&& buffer_fits(old(memory)@.len(), arg@, args_buf)
                    &&& pointers_fit(old(memory)@.len(), arg@, args)
                    &&& code == WASI_ESUCCESS
                    &&& final(memory)@ == entries_written(
                        old(memory)@,
                        arg@,
                        args as int,
                        args_buf as int,
                        arg@.len(),
                    )
                },
                Err(trap) => {
                    &&& final(memory)@ == old(memory)@
                    &&& if !buffer_fits(old(memory)@.len(), arg@, args_buf) {
                        trap == Trap::ArgsBufferEnd
                    } else {
                        !pointers_fit(old(memory)@.len(), arg@, args) && trap
                            == Trap::ArgsPointerBufferEnd
                    }
                },
            },
    {
        entries_get(arg, memory, args, args_buf, Trap::ArgsBufferEnd, Trap::ArgsPointerBufferEnd)
    }

    /// Tells the guest how much room the environment variables take: their
    /// number is stored at `var_count`, then their total length with
    /// separators and terminators at `total_bytes`, four bytes each. Traps,
    /// with `memory` untouched, if either place lies outside `memory`.
    pub fn environ_sizes_get(
        &self,
        env: &WasiEnv,
        memory: &mut [u8],
        var_count: u32,
        total_bytes: u32,
    ) -> (status: Result<u32, Trap>)
        ensures
            match status {
                Ok(code) => {
                    &&& in_bounds(old(memory)@.len(), var_count as int, 4)
                    &&& in_bounds(old(memory)@.len(), total_bytes as int, 4)
                    &&& code == WASI_ESUCCESS
                    &&& final(memory)@ == sizes_written(old(memory)@, env@, var_count, total_bytes)
                },
                Err(trap) => {
                    &&& !(in_bounds(old(memory)@.len(), var_count as int, 4) && in_bounds(
                        old(memory)@.len(),
                        total_bytes as int,
                        4,
                    ))
                    &&& trap == Trap::PointerOutOfBounds
                    &&& final(memory)@ == old(memory)@
                },
            },
    {
        sizes_get(env, memory, var_count, total_bytes)
    }

    /// Hands the environment variables to the guest: the bytes of each, with
    /// its terminator, back to back from `environ_buf` on, and the offset of
    /// each in the array of 32-bit pointers at `environ`. Traps, with `memory`
    /// untouched, if the bytes or the pointers would run past the end of
    /// `memory`.
    pub fn environ_get(
        &self,
        env: &WasiEnv,
        memory: &mut [u8],
        environ: u32,
        environ_buf: u32,
    ) -> (status: Result<u32, Trap>)
        ensures
            match status {
                Ok(code) => {
                    &&& buffer_fits(old(memory)@.len(), env@, environ_buf)
                    &&& pointers_fit(old(memory)@.len(), env@, environ)
                    &&& code == WASI_ESUCCESS
                    &&& final(memory)@ == entries_written(
                        old(memory)@,
                        env@,
                        environ as int,
                        environ_buf as int,
                        env@.len(),
                    )
                },
                Err(trap) => {
                    &&& final(memory)@ == old(memory)@
                    &&& if !buffer_fits(old(memory)@.len(), env@, environ_buf) {
                        trap == Trap::EnvironBufferEnd
                    } else {
                        !pointers_fit(old(memory)@.len(), env@, environ) && trap
                            == Trap::EnvironPointerBufferEnd
                    }
                },
            },
    {
        entries_get(
            env,
            memory,
            environ,
            environ_buf,
            Trap::EnvironBufferEnd,
            Trap::EnvironPointerBufferEnd,
        )
    }
}

} // verus!
