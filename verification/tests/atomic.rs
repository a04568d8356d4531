use std::collections::HashMap;
use yy::atomic::{temp_extension, WriteState, WriteStep};
use yy::failure::{write_failure, Failure};

/// Performs one step on a disk kept in memory, as a file system would.
fn perform(disk: &mut HashMap<String, Vec<u8>>, step: WriteStep, tmp: &str, path: &str, bytes: &[u8]) {
    match step {
        WriteStep::CreateTemp => {
            disk.insert(tmp.to_string(), Vec::new());
        }
        WriteStep::WriteTemp => {
            disk.insert(tmp.to_string(), bytes.to_vec());
        }
        WriteStep::FlushTemp => {}
        WriteStep::Rename => {
            let moved = disk.remove(tmp).unwrap();
            disk.insert(path.to_string(), moved);
        }
    }
}

/// Runs the protocol on the disk until it ends or `steps` have been taken.
fn run(disk: &mut HashMap<String, Vec<u8>>, steps: usize, bytes: &[u8]) -> WriteState {
    let mut state = WriteState::start();
    for _ in 0..steps {
        match state.next_step() {
            Some(step) => {
                perform(disk, step, "/o/zig-ar.tmp", "/o/zig-ar.cmd", bytes);
                state = state.advance(true);
            }
            None => break,
        }
    }
    state
}

#[test]
fn crash_before_rename_leaves_the_file_untouched() {
    for steps in 0..4 {
        let mut disk = HashMap::new();
        disk.insert("/o/zig-ar.cmd".to_string(), b"old".to_vec());
        let state = run(&mut disk, steps, b"new bytes");
        assert_ne!(state, WriteState::Done);
        assert_eq!(disk.get("/o/zig-ar.cmd"), Some(&b"old".to_vec()));
    }
}

#[test]
fn crash_before_rename_creates_no_final_file() {
    for steps in 0..4 {
        let mut disk = HashMap::new();
        let state = run(&mut disk, steps, b"new bytes");
        assert_ne!(state, WriteState::Done);
        assert_eq!(disk.get("/o/zig-ar.cmd"), None);
    }
}

#[test]
fn complete_run_installs_all_bytes_and_removes_the_sibling() {
    let mut disk = HashMap::new();
    disk.insert("/o/zig-ar.cmd".to_string(), b"old".to_vec());
    let state = run(&mut disk, 10, b"new bytes");
    assert_eq!(state, WriteState::Done);
    assert_eq!(disk.get("/o/zig-ar.cmd"), Some(&b"new bytes".to_vec()));
    assert_eq!(disk.get("/o/zig-ar.tmp"), None);
}

#[test]
fn sibling_extension_is_tmp() {
    assert_eq!(temp_extension(), "tmp");
    let sibling = std::path::Path::new("/o/zig-x86_64-unknown-linux-musl.cmd")
        .with_extension(temp_extension());
    assert_eq!(sibling, std::path::Path::new("/o/zig-x86_64-unknown-linux-musl.tmp"));
}

#[test]
fn write_starts_by_creating_the_sibling() {
    let state = WriteState::start();
    assert_eq!(state, WriteState::Pending(WriteStep::CreateTemp));
    assert_eq!(state.next_step(), Some(WriteStep::CreateTemp));
}

#[test]
fn successful_run_goes_through_the_four_steps_in_order() {
    let mut state = WriteState::start();
    let mut steps = Vec::new();
    while let Some(step) = state.next_step() {
        steps.push(step);
        state = state.advance(true);
    }
    assert_eq!(
        steps,
        vec![WriteStep::CreateTemp, WriteStep::WriteTemp, WriteStep::FlushTemp, WriteStep::Rename]
    );
    assert_eq!(state, WriteState::Done);
}

#[test]
fn rename_comes_last() {
    let before_rename = WriteState::start().advance(true).advance(true).advance(true);
    assert_eq!(before_rename, WriteState::Pending(WriteStep::Rename));
    assert_eq!(before_rename.advance(true), WriteState::Done);
}

#[test]
fn failure_ends_the_run_at_the_step_that_failed() {
    let steps =
        [WriteStep::CreateTemp, WriteStep::WriteTemp, WriteStep::FlushTemp, WriteStep::Rename];
    for (done, failing) in steps.iter().enumerate() {
        let mut state = WriteState::start();
        for _ in 0..done {
            state = state.advance(true);
        }
        assert_eq!(state.next_step(), Some(*failing));
        let failed = state.advance(false);
        assert_eq!(failed, WriteState::Failed(*failing));
        assert_eq!(failed.next_step(), None);
    }
}

#[test]
fn finished_runs_stay_as_they_are() {
    assert_eq!(WriteState::Done.advance(true), WriteState::Done);
    assert_eq!(WriteState::Done.advance(false), WriteState::Done);
    assert_eq!(WriteState::Done.next_step(), None);
    let failed = WriteState::Failed(WriteStep::WriteTemp);
    assert_eq!(failed.advance(true), failed);
    assert_eq!(failed.advance(false), failed);
}

#[test]
fn failed_step_is_charged_to_the_file_it_worked_on() {
    let tmp = "/out/zig-ar.tmp";
    let path = "/out/zig-ar.cmd";
    let charged = |step: WriteStep| write_failure(&WriteState::Failed(step), tmp, path).unwrap();
    assert_eq!(
        charged(WriteStep::CreateTemp),
        Failure::AtomicWrite { step: WriteStep::CreateTemp, path: tmp.to_string() }
    );
    assert_eq!(
        charged(WriteStep::WriteTemp),
        Failure::AtomicWrite { step: WriteStep::WriteTemp, path: tmp.to_string() }
    );
    assert_eq!(
        charged(WriteStep::FlushTemp),
        Failure::AtomicWrite { step: WriteStep::FlushTemp, path: tmp.to_string() }
    );
    assert_eq!(
        charged(WriteStep::Rename),
        Failure::AtomicWrite { step: WriteStep::Rename, path: path.to_string() }
    );
}

#[test]
fn no_failure_while_the_run_goes_on_or_is_done() {
    assert_eq!(write_failure(&WriteState::start(), "t", "p"), None);
    assert_eq!(write_failure(&WriteState::Pending(WriteStep::Rename), "t", "p"), None);
    assert_eq!(write_failure(&WriteState::Done, "t", "p"), None);
}

#[test]
fn write_failure_messages_name_stage_and_path() {
    let message = |step: WriteStep| {
        write_failure(&WriteState::Failed(step), "/o/a.tmp", "/o/a.cmd").unwrap().message()
    };
    assert_eq!(message(WriteStep::CreateTemp), "creating /o/a.tmp");
    assert_eq!(message(WriteStep::WriteTemp), "writing /o/a.tmp");
    assert_eq!(message(WriteStep::FlushTemp), "flushing /o/a.tmp");
    assert_eq!(message(WriteStep::Rename), "renaming to /o/a.cmd");
}

#[test]
fn other_failure_messages() {
    assert_eq!(
        Failure::CreateOutputDir { path: "/ro/out".to_string() }.message(),
        "Failed to create output dir: /ro/out"
    );
    assert_eq!(Failure::HomeDirUnknown.message(), "Could not determine home directory");
    assert_eq!(
        Failure::CreateConfigDir { path: "/home/u/.cargo".to_string() }.message(),
        "create dir /home/u/.cargo"
    );
    assert_eq!(
        Failure::ReadConfig { path: "/home/u/.cargo/config.toml".to_string() }.message(),
        "reading /home/u/.cargo/config.toml"
    );
}
