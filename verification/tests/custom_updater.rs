use std::path::PathBuf;

use cockpit_maintenance::command::Platform;
use cockpit_maintenance::custom_updater::{
    sync_and_trigger_custom_build, CustomSyncReport, CustomSyncStepProgress, SyncAction, SyncTurn,
    SYNC_STEPS,
};

struct Run {
    directories: Vec<PathBuf>,
    commands: Vec<String>,
    progress: Vec<CustomSyncStepProgress>,
    report: CustomSyncReport,
}

/// Runs a synchronisation whose commands come back with these outcomes one after the other.
fn run(repo: Result<PathBuf, String>, outcomes: &[Result<&str, &str>]) -> Run {
    let mut directories = Vec::new();
    let mut commands = Vec::new();
    let mut sent = Vec::new();
    let mut turn = sync_and_trigger_custom_build(repo);
    loop {
        let SyncTurn { progress, action } = turn;
        sent.extend(progress);
        match action {
            SyncAction::Run { state, command } => {
                let outcome = outcomes[commands.len()];
                let line = state.command_line(Platform::Other);
                assert_eq!(line.args, ["-c", command.as_str()]);
                directories.push(line.directory.unwrap().clone());
                commands.push(command);
                turn = state.step_finished(
                    outcome.map(|s| s.to_string()).map_err(|s| s.to_string()),
                );
            }
            SyncAction::Finish(report) => return Run { directories, commands, progress: sent, report },
        }
    }
}

fn repo_dir() -> PathBuf {
    PathBuf::from("/srv/cockpit-tools")
}

const COMMANDS: [&str; 5] = [
    "git fetch upstream main:main",
    "git push origin main",
    "git merge main -m \"merge: sync upstream main into my-custom\"",
    "npm test",
    "git push origin my-custom",
];

const TITLES: [&str; 5] = [
    "1/5: Lấy cập nhật mới từ repo gốc (upstream)",
    "2/5: Đồng bộ nhánh main lên fork GitHub",
    "3/5: Gộp cập nhật main vào nhánh my-custom",
    "4/5: Chạy bộ kiểm thử regression (npm test)",
    "5/5: Đẩy lên GitHub để kích hoạt build matrix",
];

#[test]
fn missing_repo_is_reported_and_nothing_runs() {
    let done = run(Err("no repo".to_string()), &[]);
    assert!(done.commands.is_empty());
    assert!(done.progress.is_empty());
    assert!(!done.report.success);
    assert_eq!(done.report.message, "no repo");
    assert_eq!(done.report.current_step, 0);
    assert_eq!(done.report.total_steps, 5);
    assert_eq!(done.report.logs, "");
}

#[test]
fn full_run_goes_through_every_step() {
    let done = run(Ok(repo_dir()), &[Ok("a"), Ok("b"), Ok(""), Ok("d"), Ok("e")]);
    assert_eq!(SYNC_STEPS, 5);
    assert_eq!(done.commands, COMMANDS);
    assert!(done.report.success);
    assert_eq!(
        done.report.message,
        "Đồng bộ và kích hoạt build thành công trên GitHub Actions!"
    );
    assert_eq!(done.report.current_step, 5);
    assert_eq!(done.report.total_steps, 5);
    assert_eq!(
        done.report.logs,
        "=== Bước 1/5: 1/5: Lấy cập nhật mới từ repo gốc (upstream) ===\na\n\n\
         === Bước 2/5: 2/5: Đồng bộ nhánh main lên fork GitHub ===\nb\n\n\
         === Bước 3/5: 3/5: Gộp cập nhật main vào nhánh my-custom ===\n\n\n\
         === Bước 4/5: 4/5: Chạy bộ kiểm thử regression (npm test) ===\nd\n\n\
         === Bước 5/5: 5/5: Đẩy lên GitHub để kích hoạt build matrix ===\ne\n"
    );
}

#[test]
fn progress_of_a_full_run_alternates() {
    let outputs = ["a", "b", "c", "d", "e"];
    let outcomes: Vec<Result<&str, &str>> = outputs.iter().map(|s| Ok(*s)).collect();
    let done = run(Ok(repo_dir()), &outcomes);
    assert_eq!(done.progress.len(), 10);
    for (i, pair) in done.progress.chunks(2).enumerate() {
        for p in pair {
            assert_eq!(p.step, i + 1);
            assert_eq!(p.total, 5);
            assert_eq!(p.title, TITLES[i]);
        }
        assert_eq!(pair[0].status, "running");
        assert_eq!(pair[0].detail, "");
        assert_eq!(pair[1].status, "success");
        assert_eq!(pair[1].detail, outputs[i]);
    }
}

#[test]
fn failure_ends_the_run_at_once() {
    let done = run(Ok(repo_dir()), &[Ok("a"), Ok("b"), Err("conflict")]);
    assert_eq!(done.commands, COMMANDS[..3]);
    assert!(!done.report.success);
    assert_eq!(
        done.report.message,
        "Thất bại ở bước 3: 3/5: Gộp cập nhật main vào nhánh my-custom"
    );
    assert_eq!(done.report.current_step, 3);
    assert_eq!(done.report.total_steps, 5);
    assert_eq!(
        done.report.logs,
        "=== Bước 1/5: 1/5: Lấy cập nhật mới từ repo gốc (upstream) ===\na\n\n\
         === Bước 2/5: 2/5: Đồng bộ nhánh main lên fork GitHub ===\nb\n\n\
         === THẤT BẠI Bước 3/5: 3/5: Gộp cập nhật main vào nhánh my-custom ===\nconflict\n"
    );
    let statuses: Vec<&str> = done.progress.iter().map(|p| p.status.as_str()).collect();
    assert_eq!(
        statuses,
        ["running", "success", "running", "success", "running", "failed"]
    );
    assert_eq!(done.progress[5].detail, "conflict");
}

#[test]
fn failure_of_the_first_and_of_the_last_step() {
    let first = run(Ok(repo_dir()), &[Err("offline")]);
    assert_eq!(first.report.current_step, 1);
    assert_eq!(first.commands.len(), 1);
    let last = run(Ok(repo_dir()), &[Ok(""), Ok(""), Ok(""), Ok(""), Err("rejected")]);
    assert_eq!(last.report.current_step, 5);
    assert!(!last.report.success);
    assert_eq!(last.commands, COMMANDS);
}

#[test]
fn every_command_runs_in_the_directory_that_was_found() {
    let done = run(Ok(repo_dir()), &[Ok(""), Ok(""), Ok(""), Ok(""), Ok("")]);
    assert_eq!(done.directories, vec![repo_dir(); 5]);
    let done = run(Ok(PathBuf::from("/other")), &[Ok(""), Err("x")]);
    assert_eq!(done.directories, vec![PathBuf::from("/other"); 2]);
}

#[test]
fn titles_begin_with_the_number_of_their_step() {
    let done = run(Ok(repo_dir()), &[Ok(""), Ok(""), Ok(""), Ok(""), Ok("")]);
    for p in &done.progress {
        assert!(p.title.starts_with(&format!("{}/{}: ", p.step, p.total)));
    }
}
