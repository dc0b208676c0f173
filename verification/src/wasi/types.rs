//! What the legacy system-call surface hands to a guest: status codes, and
//! snapshots of the strings a process was started with.

use vstd::prelude::*;
use vstd::utf8::encode_utf8;

verus! {

/// The status of a call that did what it was asked to.
pub const WASI_ESUCCESS: u32 = 0;

/// The status of a call on a descriptor that is not open.
pub const WASI_EBADF: u32 = 8;

/// The status of a call with an argument that the operation does not take.
pub const WASI_EINVAL: u32 = 28;

/// The byte that ends an entry.
pub const TERMINATOR: u8 = 0;

/// The byte between the name and the value of an environment variable.
pub const SEPARATOR: u8 = 61;

/// The sum of the lengths of `entries`.
pub open spec fn total_len(entries: Seq<Seq<u8>>) -> nat
    decreases entries.len(),
{
    if entries.len() == 0 {
        0
    } else {
        total_len(entries.drop_last()) + entries.last().len()
    }
}

/// Where entry `i` starts when `entries` lie one after the other.
pub open spec fn offset_of(entries: Seq<Seq<u8>>, i: int) -> nat {
    total_len(entries.take(i))
}

/// How an invocation argument is handed to a guest: its UTF-8 bytes and a
/// terminator.
pub open spec fn arg_entry(arg: Seq<char>) -> Seq<u8> {
    encode_utf8(arg) + seq![TERMINATOR]
}

/// How an environment variable is handed to a guest: name, separator, value
/// and a terminator.
pub open spec fn var_entry(name: Seq<char>, value: Seq<char>) -> Seq<u8> {
    encode_utf8(name) + seq![SEPARATOR] + encode_utf8(value) + seq![TERMINATOR]
}

/// Whether each of `entries` ends in a terminator, and their number and their
/// total length can each be reported in 32 bits.
pub open spec fn is_snapshot(entries: Seq<Seq<u8>>) -> bool {
    &&& entries.len() <= u32::MAX
    &&& total_len(entries) <= u32::MAX
    &&& forall|i: int|
        0 <= i < entries.len() ==> (#[trigger] entries[i]).len() >= 1 && entries[i].last()
            == TERMINATOR
}

/// Entry `i` starts where entry `i - 1` ends.
pub proof fn lemma_offset_step(entries: Seq<Seq<u8>>, i: int)
    requires
        0 <= i < entries.len(),
    ensures
        offset_of(entries, i + 1) == offset_of(entries, i) + entries[i].len(),
{
    assert(entries.take(i + 1).drop_last() =~= entries.take(i));
}

/// Offsets grow with the index, and none lies beyond the total length.
pub proof fn lemma_offset_monotonic(entries: Seq<Seq<u8>>, i: int, j: int)
    requires
        0 <= i <= j <= entries.len(),
    ensures
        offset_of(entries, i) <= offset_of(entries, j),
        offset_of(entries, j) <= total_len(entries),
    decreases entries.len() - i,
{
    assert(entries.take(entries.len() as int) =~= entries);
    if i < j {
        lemma_offset_step(entries, i);
        lemma_offset_monotonic(entries, i + 1, j);
    } else if j < entries.len() {
        lemma_offset_step(entries, j);
        lemma_offset_monotonic(entries, j + 1, entries.len() as int);
    }
}

/// A snapshot of strings that a process was started with, in the form in
/// which a guest receives them: one byte string for each, ending in a
/// terminator. It is taken once and never changes.
pub struct WasiEnv {
    bytes: Vec<Vec<u8>>,
    total_bytes: u32,
}

impl View for WasiEnv {
    type V = Seq<Seq<u8>>;

    closed spec fn view(&self) -> Seq<Seq<u8>> {
        Seq::new(self.bytes@.len(), |i: int| self.bytes@[i]@)
    }
}

/// Appends `bytes` to `entry`.
fn push_all(entry: &mut Vec<u8>, bytes: &[u8])
    ensures
        final(entry)@ == old(entry)@ + bytes@,
{
    let n = bytes.len();
    let mut k: usize = 0;
    while k < n
        invariant
            n == bytes@.len(),
            k <= n,
            entry@ == old(entry)@ + bytes@.take(k as int),
        decreases n - k,
    {
        entry.push(bytes[k]);
        assert(bytes@.take(k + 1) =~= bytes@.take(k as int).push(bytes@[k as int]));
        k += 1;
    }
    assert(bytes@.take(n as int) =~= bytes@);
}

impl WasiEnv {
    #[verifier::type_invariant]
    spec fn inv(self) -> bool {
        &&& is_snapshot(self@)
        &&& self.total_bytes == total_len(self@)
    }

    /// The snapshot of no strings.
    pub fn empty() -> (env: WasiEnv)
        ensures
            env@ == Seq::<Seq<u8>>::empty(),
    {
        let env = WasiEnv { bytes: Vec::new(), total_bytes: 0 };
        assert(env@ =~= Seq::<Seq<u8>>::empty());
        env
    }

    /// The snapshot of the invocation arguments `args`, or nothing if their
    /// number or their total length with terminators is beyond 32 bits.
    pub fn args(args: &Vec<String>) -> (env: Option<WasiEnv>)
        ensures
            ({
                let entries = Seq::new(args@.len(), |i: int| arg_entry(args@[i]@));
                match env {
                    Some(e) => e@ == entries && is_snapshot(entries),
                    None => !is_snapshot(entries),
                }
            }),
    {
        let ghost entries = Seq::new(args@.len(), |i: int| arg_entry(args@[i]@));
        if args.len() > 0xffff_ffff {
            return None;
        }
        let mut bytes: Vec<Vec<u8>> = Vec::new();
        let mut total: u32 = 0;
        let mut k: usize = 0;
        while k < args.len()
            invariant
                k <= args@.len(),
                args@.len() <= u32::MAX,
                entries == Seq::new(args@.len(), |i: int| arg_entry(args@[i]@)),
                bytes@.len() == k,
                forall|i: int| 0 <= i < k ==> (#[trigger] bytes@[i])@ == entries[i],
                total == offset_of(entries, k as int),
            decreases args@.len() - k,
        {
            let mut entry: Vec<u8> = Vec::new();
            push_all(&mut entry, args[k].as_str().as_bytes());
            entry.push(TERMINATOR);
            assert(entry@ =~= entries[k as int]);
            proof {
                lemma_offset_step(entries, k as int);
                lemma_offset_monotonic(entries, k + 1, entries.len() as int);
            }
            if entry.len() > (0xffff_ffff - total) as usize {
                return None;
            }
            total = total + entry.len() as u32;
            bytes.push(entry);
            k += 1;
        }
        proof {
            assert(Seq::new(bytes@.len(), |i: int| bytes@[i]@) =~= entries);
            assert(entries.take(entries.len() as int) =~= entries);
            assert forall|i: int| 0 <= i < entries.len() implies (#[trigger] entries[i]).len() >= 1
                && entries[i].last() == TERMINATOR by {}
        }
        Some(WasiEnv { bytes, total_bytes: total })
    }

    /// The snapshot of the environment variables `vars`, each a name and a
    /// value, or nothing if their number or their total length with
    /// separators and terminators is beyond 32 bits.
    pub fn env_vars(vars: &Vec<(String, String)>) -> (env: Option<WasiEnv>)
        ensures
            ({
                let entries = Seq::new(vars@.len(), |i: int| var_entry(vars@[i].0@, vars@[i].1@));
                match env {
                    Some(e) => e@ == entries && is_snapshot(entries),
                    None => !is_snapshot(entries),
                }
            }),
    {
        let ghost entries = Seq::new(vars@.len(), |i: int| var_entry(vars@[i].0@, vars@[i].1@));
        if vars.len() > 0xffff_ffff {
            return None;
        }
        let mut bytes: Vec<Vec<u8>> = Vec::new();
        let mut total: u32 = 0;
        let mut k: usize = 0;
        while k < vars.len()
            invariant
                k <= vars@.len(),
                vars@.len() <= u32::MAX,
                entries == Seq::new(vars@.len(), |i: int| var_entry(vars@[i].0@, vars@[i].1@)),
                bytes@.len() == k,
                forall|i: int| 0 <= i < k ==> (#[trigger] bytes@[i])@ == entries[i],
                total == offset_of(entries, k as int),
            decreases vars@.len() - k,
        {
            let mut entry: Vec<u8> = Vec::new();
            push_all(&mut entry, vars[k].0.as_str().as_bytes());
            entry.push(SEPARATOR);
            push_all(&mut entry, vars[k].1.as_str().as_bytes());
            entry.push(TERMINATOR);
            assert(entry@ =~= entries[k as int]);
            proof {
                lemma_offset_step(entries, k as int);
                lemma_offset_monotonic(entries, k + 1, entries.len() as int);
            }
            if entry.len() > (0xffff_ffff - total) as usize {
                return None;
            }
            total = total + entry.len() as u32;
            bytes.push(entry);
            k += 1;
        }
        proof {
            assert(Seq::new(bytes@.len(), |i: int| bytes@[i]@) =~= entries);
            assert(entries.take(entries.len() as int) =~= entries);
            assert forall|i: int| 0 <= i < entries.len() implies (#[trigger] entries[i]).len() >= 1
                && entries[i].last() == TERMINATOR by {}
        }
        Some(WasiEnv { bytes, total_bytes: total })
    }

    /// The number of entries.
    pub fn len(&self) -> (count: u32)
        ensures
            count == self@.len(),
            is_snapshot(self@),
    {
        proof {
            use_type_invariant(self);
        }
        self.bytes.len() as u32
    }

    /// Entry `i`, terminator included.
    pub fn entry(&self, i: usize) -> (bytes: &Vec<u8>)
        requires
            i < self@.len(),
        ensures
            bytes@ == self@[i as int],
    {
        &self.bytes[i]
    }

    /// The number of bytes that all entries take together, terminators
    /// included.
    pub fn total_bytes(&self) -> (total: u32)
        ensures
            total == total_len(self@),
            is_snapshot(self@),
    {
        proof {
            use_type_invariant(self);
        }
        self.total_bytes
    }
}

} // verus!
