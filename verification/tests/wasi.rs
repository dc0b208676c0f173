use lunatic_runtime::trap::Trap;
use lunatic_runtime::wasi::api::{Sink, Source, Transfer, WasiState};
use lunatic_runtime::wasi::types::{
    WasiEnv, WASI_EBADF, WASI_EINVAL, WASI_ESUCCESS,
};

fn strings(items: &[&str]) -> Vec<String> {
    items.iter().map(|s| s.to_string()).collect()
}

fn pairs(items: &[(&str, &str)]) -> Vec<(String, String)> {
    items.iter().map(|(k, v)| (k.to_string(), v.to_string())).collect()
}

fn read_u32(memory: &[u8], at: usize) -> u32 {
    let mut bytes = [0u8; 4];
    bytes.copy_from_slice(&memory[at..at + 4]);
    u32::from_le_bytes(bytes)
}

#[test]
fn status_codes_have_their_values() {
    assert_eq!(WASI_ESUCCESS, 0);
    assert_eq!(WASI_EBADF, 8);
    assert_eq!(WASI_EINVAL, 28);
}

#[test]
fn placeholders_report_fixed_results() {
    let wasi = WasiState::new();
    assert_eq!(wasi.clock_time_get(1, 1000), (0, 0));
    assert_eq!(wasi.path_filestat_get(3, 0, "/etc/hosts"), (0, 0));
    assert_eq!(wasi.path_open(3, 0, 0, 0, 0, -1, -1, 0), (0, 0));
    assert_eq!(wasi.fd_close(1), 0);
    assert_eq!(wasi.fd_close(77), 0);
    assert_eq!(wasi.fd_prestat_get(3, 0), 8);
    assert_eq!(wasi.fd_prestat_dir_name(3, "."), 0);
    assert_eq!(wasi.sched_yield(), 0);
    wasi.proc_exit(1);
}

#[test]
fn random_get_produces_no_bytes() {
    let wasi = WasiState::new();
    let mut buffer = vec![0xabu8; 16];
    assert_eq!(wasi.random_get(&mut buffer), 0);
    assert_eq!(buffer, vec![0xabu8; 16]);
}

#[test]
fn fd_write_to_standard_output_reports_the_bytes_written() {
    let wasi = WasiState::new();
    let vectors: Vec<&[u8]> = vec![b"ab", b"cd"];
    let mut standard_output: Vec<u8> = Vec::new();
    let result = match wasi.fd_write(1) {
        Ok(Transfer::Forward(Sink::Stdout)) => {
            let mut written = 0;
            for vector in &vectors {
                standard_output.extend_from_slice(vector);
                written += vector.len();
            }
            wasi.fd_transferred(written)
        }
        other => panic!("descriptor 1 must go to the standard output, not {:?}", other),
    };
    assert_eq!(result, (0, 4));
    assert_eq!(standard_output, b"abcd");
}

#[test]
fn fd_write_to_standard_input_is_invalid() {
    let wasi = WasiState::new();
    assert_eq!(wasi.fd_write(0), Ok(Transfer::Done(28, 0)));
}

#[test]
fn fd_write_knows_three_descriptors() {
    let wasi = WasiState::new();
    assert_eq!(wasi.fd_write(1), Ok(Transfer::Forward(Sink::Stdout)));
    assert_eq!(wasi.fd_write(2), Ok(Transfer::Forward(Sink::Stderr)));
    assert_eq!(wasi.fd_write(3), Err(Trap::UnsupportedWriteDestination));
    assert_eq!(wasi.fd_write(u32::MAX), Err(Trap::UnsupportedWriteDestination));
}

#[test]
fn fd_read_knows_three_descriptors() {
    let wasi = WasiState::new();
    assert_eq!(wasi.fd_read(0), Ok(Transfer::Forward(Source::Stdin)));
    assert_eq!(wasi.fd_read(1), Ok(Transfer::Done(28, 0)));
    assert_eq!(wasi.fd_read(2), Ok(Transfer::Done(28, 0)));
    assert_eq!(wasi.fd_read(3), Err(Trap::UnsupportedReadDestination));
    assert_eq!(wasi.fd_read(u32::MAX), Err(Trap::UnsupportedReadDestination));
}

#[test]
fn fd_transferred_reports_success_and_the_count() {
    let wasi = WasiState::new();
    assert_eq!(wasi.fd_transferred(0), (0, 0));
    assert_eq!(wasi.fd_transferred(4), (0, 4));
    assert_eq!(wasi.fd_transferred(4294967295), (0, 4294967295));
}

#[test]
fn snapshot_of_arguments_counts_terminators() {
    let env = WasiEnv::args(&strings(&["prog", "-v", ""])).unwrap();
    assert_eq!(env.len(), 3);
    assert_eq!(env.total_bytes(), 5 + 3 + 1);
    let none = WasiEnv::args(&Vec::new()).unwrap();
    assert_eq!(none.len(), 0);
    assert_eq!(none.total_bytes(), 0);
    assert_eq!(WasiEnv::empty().len(), 0);
    assert_eq!(WasiEnv::empty().total_bytes(), 0);
}

#[test]
fn snapshot_of_environment_counts_separators_and_terminators() {
    let env = WasiEnv::env_vars(&pairs(&[("HOME", "/root"), ("X", "")])).unwrap();
    assert_eq!(env.len(), 2);
    assert_eq!(env.total_bytes(), 11 + 3);
}

#[test]
fn args_sizes_get_stores_count_and_total() {
    let wasi = WasiState::new();
    let arg = WasiEnv::args(&strings(&["prog", "-v"])).unwrap();
    let mut memory = vec![0xeeu8; 16];
    assert_eq!(wasi.args_sizes_get(&arg, &mut memory, 4, 12), Ok(0));
    assert_eq!(
        memory,
        vec![0xee, 0xee, 0xee, 0xee, 2, 0, 0, 0, 0xee, 0xee, 0xee, 0xee, 8, 0, 0, 0]
    );
}

#[test]
fn sizes_stored_at_the_same_place_leave_the_total() {
    let wasi = WasiState::new();
    let arg = WasiEnv::args(&strings(&["prog", "-v"])).unwrap();
    let mut memory = vec![0u8; 8];
    assert_eq!(wasi.args_sizes_get(&arg, &mut memory, 2, 2), Ok(0));
    assert_eq!(memory, vec![0, 0, 8, 0, 0, 0, 0, 0]);
}

#[test]
fn sizes_get_traps_on_a_place_outside_memory() {
    let wasi = WasiState::new();
    let arg = WasiEnv::args(&strings(&["prog"])).unwrap();
    let mut memory = vec![1u8; 8];
    assert_eq!(wasi.args_sizes_get(&arg, &mut memory, 5, 0), Err(Trap::PointerOutOfBounds));
    assert_eq!(wasi.args_sizes_get(&arg, &mut memory, 0, 5), Err(Trap::PointerOutOfBounds));
    assert_eq!(
        wasi.environ_sizes_get(&arg, &mut memory, u32::MAX, 0),
        Err(Trap::PointerOutOfBounds)
    );
    assert_eq!(memory, vec![1u8; 8]);
    assert_eq!(wasi.environ_sizes_get(&arg, &mut memory, 0, 4), Ok(0));
    assert_eq!(memory, vec![1, 0, 0, 0, 5, 0, 0, 0]);
}

#[test]
fn args_get_writes_pointers_and_terminated_bytes() {
    let wasi = WasiState::new();
    let arg = WasiEnv::args(&strings(&["ab", "c"])).unwrap();
    let mut memory = vec![0xffu8; 16];
    assert_eq!(wasi.args_get(&arg, &mut memory, 0, 9), Ok(0));
    assert_eq!(
        memory,
        vec![9, 0, 0, 0, 12, 0, 0, 0, 0xff, b'a', b'b', 0, b'c', 0, 0xff, 0xff]
    );
}

#[test]
fn args_get_reproduces_what_args_sizes_get_counts() {
    let wasi = WasiState::new();
    let args = strings(&["lunatic", "--dir", "/tmp/x", "", "caf\u{e9}"]);
    let arg = WasiEnv::args(&args).unwrap();
    let mut memory = vec![0u8; 256];
    assert_eq!(wasi.args_sizes_get(&arg, &mut memory, 0, 4), Ok(0));
    let count = read_u32(&memory, 0) as usize;
    let total = read_u32(&memory, 4) as usize;
    assert_eq!(count, args.len());
    let (pointers, buffer) = (16usize, 100usize);
    assert_eq!(wasi.args_get(&arg, &mut memory, pointers as u32, buffer as u32), Ok(0));
    let mut expected_at = buffer;
    for (i, text) in args.iter().enumerate() {
        let at = read_u32(&memory, pointers + 4 * i) as usize;
        assert_eq!(at, expected_at);
        let end = at + memory[at..].iter().position(|b| *b == 0).unwrap();
        assert_eq!(&memory[at..end], text.as_bytes());
        expected_at = end + 1;
    }
    assert_eq!(expected_at - buffer, total);
    assert!(memory[expected_at..].iter().all(|b| *b == 0));
    assert!(memory[pointers + 4 * count..buffer].iter().all(|b| *b == 0));
}

#[test]
fn environ_get_reproduces_what_environ_sizes_get_counts() {
    let wasi = WasiState::new();
    let vars = pairs(&[("PATH", "/bin:/usr/bin"), ("EMPTY", ""), ("A", "=b")]);
    let env = WasiEnv::env_vars(&vars).unwrap();
    let mut memory = vec![0u8; 128];
    assert_eq!(wasi.environ_sizes_get(&env, &mut memory, 120, 124), Ok(0));
    let count = read_u32(&memory, 120) as usize;
    let total = read_u32(&memory, 124) as usize;
    assert_eq!(count, 3);
    assert_eq!(total, 19 + 7 + 5);
    assert_eq!(wasi.environ_get(&env, &mut memory, 64, 0), Ok(0));
    assert_eq!(&memory[..total], b"PATH=/bin:/usr/bin\0EMPTY=\0A==b\0");
    assert_eq!(read_u32(&memory, 64), 0);
    assert_eq!(read_u32(&memory, 68), 19);
    assert_eq!(read_u32(&memory, 72), 26);
    assert!(memory[total..64].iter().all(|b| *b == 0));
    assert!(memory[76..120].iter().all(|b| *b == 0));
}

#[test]
fn args_get_accepts_regions_that_end_with_memory() {
    let wasi = WasiState::new();
    let arg = WasiEnv::args(&strings(&["ab", "c"])).unwrap();
    let mut memory = vec![0u8; 13];
    assert_eq!(wasi.args_get(&arg, &mut memory, 5, 0), Ok(0));
    assert_eq!(memory, vec![b'a', b'b', 0, b'c', 0, 0, 0, 0, 0, 3, 0, 0, 0]);
    let mut memory = vec![0u8; 13];
    assert_eq!(wasi.args_get(&arg, &mut memory, 0, 8), Ok(0));
    assert_eq!(memory, vec![8, 0, 0, 0, 11, 0, 0, 0, b'a', b'b', 0, b'c', 0]);
}

#[test]
fn args_get_traps_when_the_bytes_run_past_memory() {
    let wasi = WasiState::new();
    let arg = WasiEnv::args(&strings(&["ab", "c"])).unwrap();
    let mut memory = vec![3u8; 16];
    assert_eq!(wasi.args_get(&arg, &mut memory, 0, 12), Err(Trap::ArgsBufferEnd));
    assert_eq!(wasi.args_get(&arg, &mut memory, 0, u32::MAX), Err(Trap::ArgsBufferEnd));
    assert_eq!(wasi.args_get(&arg, &mut memory, 12, 12), Err(Trap::ArgsBufferEnd));
    assert_eq!(memory, vec![3u8; 16]);
}

#[test]
fn args_get_traps_when_the_pointers_run_past_memory() {
    let wasi = WasiState::new();
    let arg = WasiEnv::args(&strings(&["ab", "c"])).unwrap();
    let mut memory = vec![3u8; 16];
    assert_eq!(wasi.args_get(&arg, &mut memory, 9, 0), Err(Trap::ArgsPointerBufferEnd));
    assert_eq!(wasi.args_get(&arg, &mut memory, u32::MAX, 0), Err(Trap::ArgsPointerBufferEnd));
    assert_eq!(memory, vec![3u8; 16]);
}

#[test]
fn environ_get_traps_with_its_own_traps() {
    let wasi = WasiState::new();
    let env = WasiEnv::env_vars(&pairs(&[("A", "b")])).unwrap();
    let mut memory = vec![3u8; 8];
    assert_eq!(wasi.environ_get(&env, &mut memory, 0, 5), Err(Trap::EnvironBufferEnd));
    assert_eq!(wasi.environ_get(&env, &mut memory, 5, 0), Err(Trap::EnvironPointerBufferEnd));
    assert_eq!(wasi.environ_get(&env, &mut memory, 9, 9), Err(Trap::EnvironBufferEnd));
    assert_eq!(memory, vec![3u8; 8]);
    assert_eq!(wasi.environ_get(&env, &mut memory, 4, 0), Ok(0));
    assert_eq!(memory, vec![b'A', b'=', b'b', 0, 0, 0, 0, 0]);
}

#[test]
fn nothing_to_hand_over_changes_nothing() {
    let wasi = WasiState::new();
    let mut memory = vec![3u8; 8];
    assert_eq!(wasi.args_get(&WasiEnv::empty(), &mut memory, 8, 8), Ok(0));
    assert_eq!(wasi.environ_get(&WasiEnv::empty(), &mut memory, 0, 0), Ok(0));
    assert_eq!(memory, vec![3u8; 8]);
    assert_eq!(wasi.args_get(&WasiEnv::empty(), &mut memory, 0, 9), Err(Trap::ArgsBufferEnd));
    assert_eq!(
        wasi.args_get(&WasiEnv::empty(), &mut memory, 9, 0),
        Err(Trap::ArgsPointerBufferEnd)
    );
}

#[test]
fn overlapping_regions_are_written_entry_by_entry() {
    let wasi = WasiState::new();
    let arg = WasiEnv::args(&strings(&["ab", "c"])).unwrap();
    let mut memory = vec![0xffu8; 12];
    assert_eq!(wasi.args_get(&arg, &mut memory, 2, 0), Ok(0));
    assert_eq!(memory, vec![b'a', b'b', 0, b'c', 0, 0, 3, 0, 0, 0, 0xff, 0xff]);
}

#[test]
fn snapshot_entries_end_in_a_terminator() {
    let env = WasiEnv::env_vars(&pairs(&[("HOME", "/root"), ("n", "\u{e9}")])).unwrap();
    assert_eq!(env.entry(0).as_slice(), b"HOME=/root\0");
    assert_eq!(env.entry(1).as_slice(), &[b'n', b'=', 0xc3, 0xa9, 0]);
    let arg = WasiEnv::args(&strings(&["a", "", "bc"])).unwrap();
    assert_eq!(arg.entry(0).as_slice(), b"a\0");
    assert_eq!(arg.entry(1).as_slice(), b"\0");
    assert_eq!(arg.entry(2).as_slice(), b"bc\0");
}
