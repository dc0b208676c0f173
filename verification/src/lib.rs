//! Per-instance state of a lightweight-actor runtime: the resource tables that
//! name host objects by numeric handle, the state every host call visits, and
//! the host functions that marshal values into guest memory.

pub mod distributed;
pub mod memory;
pub mod spawn;
pub mod state;
pub mod table;
pub mod trap;
pub mod wasi;
