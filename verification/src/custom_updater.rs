//! Synchronising the customised repository with its upstream and triggering a build of it.
//!
//! The work itself (looking at directories, running commands, sending progress to the window) is
//! done by the caller. This module decides what is done next, and what is reported.
use std::path::PathBuf;

use vstd::prelude::*;

use crate::command::{CommandLine, Platform};
use crate::run_step::{shell_command, shell_line};
use crate::text::{decimal, decimal_text, join_texts, joined, result_text, texts};

verus! {

/// How many commands a synchronisation consists of.
pub const SYNC_STEPS: usize = 5;

/// The progress of one step, as it is sent to the window.
#[derive(Debug, Clone)]
pub struct CustomSyncStepProgress {
    pub step: usize,
    pub total: usize,
    pub title: String,
    pub status: String,
    pub detail: String,
}

/// What a synchronisation came to.
#[derive(Debug, Clone)]
pub struct CustomSyncReport {
    pub success: bool,
    pub message: String,
    pub current_step: usize,
    pub total_steps: usize,
    pub logs: String,
}

/// A `CustomSyncStepProgress` with its strings as plain text.
pub ghost struct ProgressView {
    pub step: nat,
    pub total: nat,
    pub title: Seq<char>,
    pub status: Seq<char>,
    pub detail: Seq<char>,
}

/// A `CustomSyncReport` with its strings as plain text.
pub ghost struct ReportView {
    pub success: bool,
    pub message: Seq<char>,
    pub current_step: nat,
    pub total_steps: nat,
    pub logs: Seq<char>,
}

impl View for CustomSyncStepProgress {
    type V = ProgressView;

    open spec fn view(&self) -> ProgressView {
        ProgressView {
            step: self.step as nat,
            total: self.total as nat,
            title: self.title@,
            status: self.status@,
            detail: self.detail@,
        }
    }
}

impl View for CustomSyncReport {
    type V = ReportView;

    open spec fn view(&self) -> ReportView {
        ReportView {
            success: self.success,
            message: self.message@,
            current_step: self.current_step as nat,
            total_steps: self.total_steps as nat,
            logs: self.logs@,
        }
    }
}

/// The command of a step; steps are counted from 0 here.
pub open spec fn step_command(i: nat) -> Seq<char> {
    if i == 0 {
        "git fetch upstream main:main"@
    } else if i == 1 {
        "git push origin main"@
    } else if i == 2 {
        "git merge main -m \"merge: sync upstream main into my-custom\""@
    } else if i == 3 {
        "npm test"@
    } else {
        "git push origin my-custom"@
    }
}

/// The title of a step; steps are counted from 0 here.
pub open spec fn step_title(i: nat) -> Seq<char> {
    if i == 0 {
        "1/5: Lấy cập nhật mới từ repo gốc (upstream)"@
    } else if i == 1 {
        "2/5: Đồng bộ nhánh main lên fork GitHub"@
    } else if i == 2 {
        "3/5: Gộp cập nhật main vào nhánh my-custom"@
    } else if i == 3 {
        "4/5: Chạy bộ kiểm thử regression (npm test)"@
    } else {
        "5/5: Đẩy lên GitHub để kích hoạt build matrix"@
    }
}

/// The progress of step `i` (counted from 0), in a given status.
pub open spec fn progress_of(i: nat, status: Seq<char>, detail: Seq<char>) -> ProgressView {
    ProgressView { step: i + 1, total: SYNC_STEPS as nat, title: step_title(i), status, detail }
}

/// Step `i` has been started.
pub open spec fn running(i: nat) -> ProgressView {
    progress_of(i, "running"@, seq![])
}

/// The command of step `i` has come back with its output.
pub open spec fn succeeded(i: nat, output: Seq<char>) -> ProgressView {
    progress_of(i, "success"@, output)
}

/// The command of step `i` has come back with an error.
pub open spec fn failed(i: nat, error: Seq<char>) -> ProgressView {
    progress_of(i, "failed"@, error)
}

/// A paragraph of the log: a heading that names step `i`, then `body`.
pub open spec fn log_entry(opening: Seq<char>, i: nat, body: Seq<char>) -> Seq<char> {
    opening + decimal(i + 1) + "/"@ + decimal(SYNC_STEPS as nat) + ": "@ + step_title(i)
        + " ===\n"@ + body + "\n"@
}

/// The log entry of a step that succeeded.
pub open spec fn success_entry(i: nat, output: Seq<char>) -> Seq<char> {
    log_entry("=== Bước "@, i, output)
}

/// The log entry of a step that failed.
pub open spec fn failure_entry(i: nat, error: Seq<char>) -> Seq<char> {
    log_entry("=== THẤT BẠI Bước "@, i, error)
}

/// The report of a synchronisation that found no repository.
pub open spec fn repo_missing_report(error: Seq<char>) -> ReportView {
    ReportView {
        success: false,
        message: error,
        current_step: 0,
        total_steps: SYNC_STEPS as nat,
        logs: seq![],
    }
}

/// The report of a synchronisation that failed at step `i` (counted from 0).
pub open spec fn failure_report(i: nat, logs: Seq<Seq<char>>) -> ReportView {
    ReportView {
        success: false,
        message: "Thất bại ở bước "@ + decimal(i + 1) + ": "@ + step_title(i),
        current_step: i + 1,
        total_steps: SYNC_STEPS as nat,
        logs: joined(logs, "\n"@),
    }
}

/// The report of a synchronisation that went through.
pub open spec fn success_report(logs: Seq<Seq<char>>) -> ReportView {
    ReportView {
        success: true,
        message: "Đồng bộ và kích hoạt build thành công trên GitHub Actions!"@,
        current_step: SYNC_STEPS as nat,
        total_steps: SYNC_STEPS as nat,
        logs: joined(logs, "\n"@),
    }
}

/// A synchronisation while one of its commands runs.
#[derive(Debug)]
pub struct SyncState {
    repo_dir: PathBuf,
    step: usize,
    logs: Vec<String>,
}

/// A `SyncState` as plain values: the directory that the commands run in, the step whose command
/// runs (counted from 0), and the log entries of the steps before it.
pub ghost struct SyncStateView {
    pub repo_dir: PathBuf,
    pub step: nat,
    pub logs: Seq<Seq<char>>,
}

impl View for SyncState {
    type V = SyncStateView;

    closed spec fn view(&self) -> SyncStateView {
        SyncStateView {
            repo_dir: self.repo_dir,
            step: self.step as nat,
            logs: texts(self.logs@),
        }
    }
}

impl SyncStateView {
    /// The step exists, and each step before it has left one log entry.
    pub open spec fn valid(self) -> bool {
        &&& self.step < SYNC_STEPS
        &&& self.logs.len() == self.step
    }
}

/// What the caller does next: run the command of a step in the directory that the state names, and
/// come back with what it printed, or hand over the report.
#[derive(Debug)]
pub enum SyncAction {
    Run { state: SyncState, command: String },
    Finish(CustomSyncReport),
}

/// A `SyncAction` as plain values.
pub ghost enum ActionView {
    Run { state: SyncStateView, command: Seq<char> },
    Finish(ReportView),
}

impl View for SyncAction {
    type V = ActionView;

    open spec fn view(&self) -> ActionView {
        match self {
            SyncAction::Run { state, command } => ActionView::Run {
                state: state@,
                command: command@,
            },
            SyncAction::Finish(report) => ActionView::Finish(report@),
        }
    }
}

/// One turn of a synchronisation: progress to send, in order, and then the next action.
#[derive(Debug)]
pub struct SyncTurn {
    pub progress: Vec<CustomSyncStepProgress>,
    pub action: SyncAction,
}

/// A `SyncTurn` as plain values.
pub ghost struct TurnView {
    pub progress: Seq<ProgressView>,
    pub action: ActionView,
}

impl View for SyncTurn {
    type V = TurnView;

    open spec fn view(&self) -> TurnView {
        TurnView {
            progress: self.progress@.map_values(|p: CustomSyncStepProgress| p@),
            action: self.action@,
        }
    }
}

/// The turn that starts the command of a step.
pub open spec fn run_turn(before: Seq<ProgressView>, state: SyncStateView) -> TurnView {
    TurnView {
        progress: before.push(running(state.step)),
        action: ActionView::Run { state, command: step_command(state.step) },
    }
}

/// The first turn, once it is known whether there is a repository.
pub open spec fn first_turn(repo: Result<PathBuf, Seq<char>>) -> TurnView {
    match repo {
        Ok(repo_dir) => run_turn(seq![], SyncStateView { repo_dir, step: 0, logs: seq![] }),
        Err(error) => TurnView {
            progress: seq![],
            action: ActionView::Finish(repo_missing_report(error)),
        },
    }
}

/// The turn that follows when the command of a step has come back.
pub open spec fn next_turn(
    state: SyncStateView,
    outcome: Result<Seq<char>, Seq<char>>,
) -> TurnView {
    let i = state.step;
    match outcome {
        Ok(output) => {
            let logs = state.logs.push(success_entry(i, output));
            if i + 1 < SYNC_STEPS {
                run_turn(
                    seq![succeeded(i, output)],
                    SyncStateView { repo_dir: state.repo_dir, step: i + 1, logs },
                )
            } else {
                TurnView {
                    progress: seq![succeeded(i, output)],
                    action: ActionView::Finish(success_report(logs)),
                }
            }
        },
        Err(error) => TurnView {
            progress: seq![failed(i, error)],
            action: ActionView::Finish(failure_report(i, state.logs.push(failure_entry(i, error)))),
        },
    }
}

/// The command of a step.
fn command_text(i: usize) -> (r: &'static str)
    ensures
        r@ == step_command(i as nat),
{
    match i {
        0 => "git fetch upstream main:main",
        1 => "git push origin main",
        2 => "git merge main -m \"merge: sync upstream main into my-custom\"",
        3 => "npm test",
        _ => "git push origin my-custom",
    }
}

/// The title of a step.
fn title_text(i: usize) -> (r: &'static str)
    ensures
        r@ == step_title(i as nat),
{
    match i {
        0 => "1/5: Lấy cập nhật mới từ repo gốc (upstream)",
        1 => "2/5: Đồng bộ nhánh main lên fork GitHub",
        2 => "3/5: Gộp cập nhật main vào nhánh my-custom",
        3 => "4/5: Chạy bộ kiểm thử regression (npm test)",
        _ => "5/5: Đẩy lên GitHub để kích hoạt build matrix",
    }
}

/// The progress of a step, in a given status.
fn progress_entry(i: usize, status: &str, detail: &str) -> (r: CustomSyncStepProgress)
    requires
        i < SYNC_STEPS,
    ensures
        r@ == progress_of(i as nat, status@, detail@),
{
    CustomSyncStepProgress {
        step: i + 1,
        total: SYNC_STEPS,
        title: title_text(i).to_owned(),
        status: status.to_owned(),
        detail: detail.to_owned(),
    }
}

/// A paragraph of the log.
fn log_text(opening: &str, i: usize, body: &str) -> (r: String)
    requires
        i < SYNC_STEPS,
    ensures
        r@ == log_entry(opening@, i as nat, body@),
{
    let mut out = opening.to_owned();
    out.append(decimal_text(i as u64 + 1).as_str());
    out.append("/");
    out.append(decimal_text(SYNC_STEPS as u64).as_str());
    out.append(": ");
    out.append(title_text(i));
    out.append(" ===\n");
    out.append(body);
    out.append("\n");
    out
}

impl SyncState {
    #[verifier::type_invariant]
    spec fn inv(self) -> bool {
        self.step < SYNC_STEPS && self.logs@.len() == self.step
    }
}

/// The turn that starts the command of a step, after the progress that is already due.
fn start_step(
    before: Vec<CustomSyncStepProgress>,
    repo_dir: PathBuf,
    step: usize,
    logs: Vec<String>,
) -> (r: SyncTurn)
    requires
        step < SYNC_STEPS,
        logs@.len() == step,
    ensures
        r@ == run_turn(
            before@.map_values(|p: CustomSyncStepProgress| p@),
            (SyncStateView { repo_dir, step: step as nat, logs: texts(logs@) }),
        ),
{
    let ghost due = before@.map_values(|p: CustomSyncStepProgress| p@);
    let mut progress = before;
    progress.push(progress_entry(step, "running", String::new().as_str()));
    let state = SyncState { repo_dir, step, logs };
    let turn = SyncTurn {
        progress,
        action: SyncAction::Run { state, command: command_text(step).to_owned() },
    };
    assert(turn@.progress =~= due.push(running(step as nat)));
    turn
}

/// Begins a synchronisation. `repo` is the directory of the repository, which all commands run in;
/// where none was found, it is the message that the report then shows, and no command is run.
pub fn sync_and_trigger_custom_build(repo: Result<PathBuf, String>) -> (r: SyncTurn)
    ensures
        r@ == first_turn(
            match repo {
                Ok(repo_dir) => Ok(repo_dir),
                Err(error) => Err(error@),
            },
        ),
{
    match repo {
        Ok(repo_dir) => {
            let turn = start_step(Vec::new(), repo_dir, 0, Vec::new());
            assert(turn@ == first_turn(Ok(repo_dir))) by {
                assert(Seq::<CustomSyncStepProgress>::empty().map_values(
                    |p: CustomSyncStepProgress| p@,
                ) =~= seq![]);
                assert(texts(Seq::<String>::empty()) =~= seq![]);
            }
            turn
        },
        Err(error) => {
            let turn = SyncTurn {
                progress: Vec::new(),
                action: SyncAction::Finish(
                    CustomSyncReport {
                        success: false,
                        message: error,
                        current_step: 0,
                        total_steps: SYNC_STEPS,
                        logs: String::new(),
                    },
                ),
            };
            assert(turn@.progress =~= seq![]);
            turn
        },
    }
}

impl SyncState {
    /// The command line of the running step: its command, handed to the shell in the directory of
    /// the repository.
    pub fn command_line(&self, platform: Platform) -> (r: CommandLine<'_>)
        ensures
            r@ == shell_line(platform, self@.repo_dir, step_command(self@.step)),
    {
        shell_command(platform, &self.repo_dir, command_text(self.step))
    }

    /// The command of the running step has come back, with its output or with an error.
    pub fn step_finished(self, outcome: Result<String, String>) -> (r: SyncTurn)
        ensures
            self@.valid(),
            r@ == next_turn(self@, result_text(outcome)),
    {
        proof {
            use_type_invariant(&self);
        }
        let i: usize = self.step;
        let repo_dir = self.repo_dir;
        let mut logs = self.logs;
        let ghost earlier = texts(logs@);
        match outcome {
            Ok(output) => {
                logs.push(log_text("=== Bước ", i, output.as_str()));
                assert(texts(logs@) =~= earlier.push(success_entry(i as nat, output@)));
                let mut progress: Vec<CustomSyncStepProgress> = Vec::new();
                progress.push(progress_entry(i, "success", output.as_str()));
                let ghost due = progress@.map_values(|p: CustomSyncStepProgress| p@);
                assert(due =~= seq![succeeded(i as nat, output@)]);
                if i + 1 < SYNC_STEPS {
                    start_step(progress, repo_dir, i + 1, logs)
                } else {
                    SyncTurn {
                        progress,
                        action: SyncAction::Finish(
                            CustomSyncReport {
                                success: true,
                                message:
                                    "Đồng bộ và kích hoạt build thành công trên GitHub Actions!".to_owned(),
                                current_step: SYNC_STEPS,
                                total_steps: SYNC_STEPS,
                                logs: join_texts(&logs, "\n"),
                            },
                        ),
                    }
                }
            },
            Err(error) => {
                logs.push(log_text("=== THẤT BẠI Bước ", i, error.as_str()));
                assert(texts(logs@) =~= earlier.push(failure_entry(i as nat, error@)));
                let mut progress: Vec<CustomSyncStepProgress> = Vec::new();
                progress.push(progress_entry(i, "failed", error.as_str()));
                let ghost due = progress@.map_values(|p: CustomSyncStepProgress| p@);
                assert(due =~= seq![failed(i as nat, error@)]);
                let mut message = "Thất bại ở bước ".to_owned();
                message.append(decimal_text(i as u64 + 1).as_str());
                message.append(": ");
                message.append(title_text(i));
                SyncTurn {
                    progress,
                    action: SyncAction::Finish(
                        CustomSyncReport {
                            success: false,
                            message,
                            current_step: i + 1,
                            total_steps: SYNC_STEPS,
                            logs: join_texts(&logs, "\n"),
                        },
                    ),
                }
            },
        }
    }
}

} // verus!
