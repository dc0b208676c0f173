//! Spawning a process from a guest's call, in two steps: reading the request
//! out of guest memory before the process is made, and reporting what became
//! of it afterwards. Making the process lies between the two and is not done
//! here.

use crate::memory::{in_bounds, overlay, read_u64, u64_from_le_bytes, u64_le_bytes, write_u64};
use crate::state::State;
use crate::table::HashMapId;
use crate::trap::Trap;
use vstd::prelude::*;
use vstd::utf8::{encode_utf8, valid_utf8};

verus! {

/// The status of a spawn that made a process: its identifier is in guest
/// memory.
pub const SPAWNED: u32 = 0;

/// The status of a spawn that failed: the identifier of the failure is in
/// guest memory.
pub const SPAWN_FAILED: u32 = 1;

/// The bytes one argument takes: a tag and sixteen bytes of value.
pub const PARAM_BYTES: usize = 17;

/// The tag of a 32-bit integer.
pub const TAG_I32: u8 = 0x7F;

/// The tag of a 64-bit integer.
pub const TAG_I64: u8 = 0x7E;

/// The tag of a 128-bit vector.
pub const TAG_V128: u8 = 0x7B;

/// The kinds of value a function can be spawned with.
#[derive(Clone, Copy, Debug, PartialEq, Eq)]
pub enum ParamKind {
    I32,
    I64,
    V128,
}

/// One argument of the function to spawn: its kind and the sixteen bytes that
/// came with it, read as one number, least significant byte first.
#[derive(Clone, Copy, Debug, PartialEq, Eq)]
pub struct Param {
    pub kind: ParamKind,
    pub bits: u128,
}

/// What a guest asks for with a spawn, once every part of it has been found
/// sound.
#[derive(Debug, PartialEq, Eq)]
pub struct SpawnRequest {
    /// The node to spawn on.
    pub node_id: u64,
    /// The module that holds the function. The instance holds it.
    pub module_id: u64,
    /// The name of the function.
    pub function: String,
    /// The arguments to call it with.
    pub params: Vec<Param>,
}

/// The kind that a tag stands for, if it stands for one.
pub open spec fn kind_of(tag: u8) -> Option<ParamKind> {
    if tag == TAG_I32 {
        Some(ParamKind::I32)
    } else if tag == TAG_I64 {
        Some(ParamKind::I64)
    } else if tag == TAG_V128 {
        Some(ParamKind::V128)
    } else {
        None
    }
}

/// The tag of argument `i` in the encoded arguments `bytes`.
pub open spec fn tag_at(bytes: Seq<u8>, i: int) -> u8 {
    bytes[PARAM_BYTES * i]
}

/// The value of argument `i` in the encoded arguments `bytes`.
pub open spec fn bits_at(bytes: Seq<u8>, i: int) -> int {
    u64_from_le_bytes(bytes.subrange(PARAM_BYTES * i + 1, PARAM_BYTES * i + 9))
        + 0x1_0000_0000_0000_0000 * u64_from_le_bytes(
        bytes.subrange(PARAM_BYTES * i + 9, PARAM_BYTES * i + 17),
    )
}

/// Whether `bytes` are a whole number of arguments, each with a known tag.
pub open spec fn params_well_formed(bytes: Seq<u8>) -> bool {
    &&& bytes.len() % PARAM_BYTES as nat == 0
    &&& forall|i: int|
        0 <= i < bytes.len() / PARAM_BYTES as nat ==> kind_of(#[trigger] tag_at(bytes, i)) is Some
}

/// The arguments that well-formed `bytes` stand for, in their order.
pub open spec fn decoded_params(bytes: Seq<u8>) -> Seq<Param> {
    Seq::new(
        bytes.len() / PARAM_BYTES as nat,
        |i: int|
            Param { kind: kind_of(tag_at(bytes, i)).unwrap(), bits: bits_at(bytes, i) as u128 },
    )
}

/// What is wrong with a spawn, if anything: the first of the faults in the
/// order in which they are looked for.
pub open spec fn spawn_fault(
    module_known: bool,
    memory: Seq<u8>,
    fn_ptr: u32,
    fn_len: u32,
    args_ptr: u32,
    args_len: u32,
    out_id_ptr: u32,
) -> Option<Trap> {
    if !module_known {
        Some(Trap::UnknownModule)
    } else if !in_bounds(memory.len(), fn_ptr as int, fn_len as int) || !in_bounds(
        memory.len(),
        args_ptr as int,
        args_len as int,
    ) || !in_bounds(memory.len(), out_id_ptr as int, 8) {
        Some(Trap::SpawnOutOfBounds)
    } else if !valid_utf8(memory.subrange(fn_ptr as int, fn_ptr + fn_len)) {
        Some(Trap::InvalidFunctionName)
    } else if !params_well_formed(memory.subrange(args_ptr as int, args_ptr + args_len)) {
        Some(Trap::MalformedParams)
    } else {
        None
    }
}

/// `core::str::from_utf8`: the text that `bytes` spell, which is there exactly
/// if they are valid UTF-8 and is then made of these very bytes.
#[verifier::external_body]
fn text_of(bytes: &[u8]) -> (text: Option<&str>)
    ensures
        match text {
            Some(t) => valid_utf8(bytes@) && encode_utf8(t@) == bytes@,
            None => !valid_utf8(bytes@),
        },
{
    core::str::from_utf8(bytes).ok()
}

/// Reads the encoded arguments `bytes`, or nothing if they are not well
/// formed.
pub fn decode_params(bytes: &[u8]) -> (params: Option<Vec<Param>>)
    ensures
        match params {
            Some(p) => params_well_formed(bytes@) && p@ == decoded_params(bytes@),
            None => !params_well_formed(bytes@),
        },
{
    let len = bytes.len();
    if len % PARAM_BYTES != 0 {
        return None;
    }
    let count = len / PARAM_BYTES;
    let mut params: Vec<Param> = Vec::new();
    let mut i: usize = 0;
    while i < count
        invariant
            i <= count,
            len == bytes@.len(),
            len == count * PARAM_BYTES,
            params@.len() == i,
            forall|k: int| 0 <= k < i ==> kind_of(#[trigger] tag_at(bytes@, k)) is Some,
            forall|k: int| 0 <= k < i ==> #[trigger] params@[k] == decoded_params(bytes@)[k],
        decreases count - i,
    {
        let at = PARAM_BYTES * i;
        let tag = bytes[at];
        assert(tag == tag_at(bytes@, i as int));
        let kind = if tag == TAG_I32 {
            ParamKind::I32
        } else if tag == TAG_I64 {
            ParamKind::I64
        } else if tag == TAG_V128 {
            ParamKind::V128
        } else {
            return None;
        };
        let low = read_u64(bytes, at + 1);
        let high = read_u64(bytes, at + 9);
        let bits: u128 = low as u128 + 0x1_0000_0000_0000_0000 * (high as u128);
        params.push(Param { kind, bits });
        i += 1;
    }
    assert(params@ =~= decoded_params(bytes@));
    Some(params)
}

/// Reads a spawn out of guest memory before anything is done about it.
///
/// The function to spawn is named by the `fn_len` bytes at `fn_ptr`, its
/// arguments are encoded in the `args_len` bytes at `args_ptr`, and the
/// identifier of what comes of the spawn is to go to the eight bytes at
/// `out_id_ptr`. The call traps if `modules` holds nothing under `module_id`,
/// if one of the three places does not lie inside `memory`, if the name is
/// not UTF-8, or if the arguments are not well formed.
pub fn spawn_request<Module>(
    modules: &HashMapId<Module>,
    memory: &[u8],
    node_id: u64,
    module_id: u64,
    fn_ptr: u32,
    fn_len: u32,
    args_ptr: u32,
    args_len: u32,
    out_id_ptr: u32,
) -> (request: Result<SpawnRequest, Trap>)
    ensures
        match request {
            Ok(r) => {
                &&& spawn_fault(
                    modules@.entries.contains_key(module_id),
                    memory@,
                    fn_ptr,
                    fn_len,
                    args_ptr,
                    args_len,
                    out_id_ptr,
                ) is None
                &&& r.node_id == node_id
                &&& r.module_id == module_id
                &&& encode_utf8(r.function@) == memory@.subrange(fn_ptr as int, fn_ptr + fn_len)
                &&& r.params@ == decoded_params(
                    memory@.subrange(args_ptr as int, args_ptr + args_len),
                )
            },
            Err(trap) => spawn_fault(
                modules@.entries.contains_key(module_id),
                memory@,
                fn_ptr,
                fn_len,
                args_ptr,
                args_len,
                out_id_ptr,
            ) == Some(trap),
        },
{
    if modules.get(module_id).is_none() {
        return Err(Trap::UnknownModule);
    }
    let size = memory.len() as u64;
    if fn_ptr as u64 + fn_len as u64 > size || args_ptr as u64 + args_len as u64 > size
        || out_id_ptr as u64 + 8 > size {
        return Err(Trap::SpawnOutOfBounds);
    }
    let name = &memory[fn_ptr as usize..fn_ptr as usize + fn_len as usize];
    let function = match text_of(name) {
        Some(text) => text.to_owned(),
        None => {
            return Err(Trap::InvalidFunctionName);
        },
    };
    let args = &memory[args_ptr as usize..args_ptr as usize + args_len as usize];
    let params = match decode_params(args) {
        Some(params) => params,
        None => {
            return Err(Trap::MalformedParams);
        },
    };
    Ok(SpawnRequest { node_id, module_id, function, params })
}

/// Reports what became of a spawn. The process that was made joins the
/// processes of the instance and its identifier goes to the eight bytes at
/// `out_id_ptr`, with the status `SPAWNED`; a failure joins the captured
/// failures instead and it is its identifier that goes there, with the status
/// `SPAWN_FAILED`. If the eight bytes do not lie inside `memory` the call
/// traps, and neither the state nor `memory` changes.
pub fn spawn_complete<Msg, Config, Environment, Module, Process>(
    state: &mut State<Msg, Config, Environment, Module, Process>,
    memory: &mut [u8],
    outcome: Result<Process, anyhow::Error>,
    out_id_ptr: u32,
) -> (status: Result<u32, Trap>)
    requires
        old(state).wf(),
        old(state).resources.processes@.next_id < u64::MAX,
        old(state).errors@.next_id < u64::MAX,
    ensures
        final(state).wf(),
        final(state).mailbox == old(state).mailbox,
        final(state).module_loaded == old(state).module_loaded,
        final(state).resources.configs == old(state).resources.configs,
        final(state).resources.environments == old(state).resources.environments,
        final(state).resources.modules == old(state).resources.modules,
        match status {
            Ok(code) => {
                &&& in_bounds(old(memory)@.len(), out_id_ptr as int, 8)
                &&& match outcome {
                    Ok(process) => {
                        &&& code == SPAWNED
                        &&& final(state).resources.processes@ == old(
                            state,
                        ).resources.processes@.added(process)
                        &&& final(state).errors == old(state).errors
                        &&& final(memory)@ == overlay(
                            old(memory)@,
                            out_id_ptr as int,
                            u64_le_bytes(old(state).resources.processes@.next_id as u64),
                        )
                    },
                    Err(failure) => {
                        &&& code == SPAWN_FAILED
                        &&& final(state).errors@ == old(state).errors@.added(failure)
                        &&& final(state).resources.processes == old(state).resources.processes
                        &&& final(memory)@ == overlay(
                            old(memory)@,
                            out_id_ptr as int,
                            u64_le_bytes(old(state).errors@.next_id as u64),
                        )
                    },
                }
            },
            Err(trap) => {
                &&& !in_bounds(old(memory)@.len(), out_id_ptr as int, 8)
                &&& trap == Trap::SpawnOutOfBounds
                &&& final(state).same_tables(old(state))
                &&& final(memory)@ == old(memory)@
            },
        },
{
    if out_id_ptr as u64 + 8 > memory.len() as u64 {
        return Err(Trap::SpawnOutOfBounds);
    }
    match outcome {
        Ok(process) => {
            let id = state.resources.processes.add(process);
            write_u64(memory, out_id_ptr as usize, id);
            Ok(SPAWNED)
        },
        Err(failure) => {
            let id = state.errors.add(failure);
            write_u64(memory, out_id_ptr as usize, id);
            Ok(SPAWN_FAILED)
        },
    }
}

} // verus!
