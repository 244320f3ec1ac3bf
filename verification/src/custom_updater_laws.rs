//! Laws of a synchronisation from its first turn to its report.
use std::path::PathBuf;

use vstd::prelude::*;

use crate::custom_updater::{
    failed, failure_entry, failure_report, first_turn, next_turn, repo_missing_report, running,
    step_command, step_title, succeeded, success_entry, success_report, ActionView,
    CustomSyncReport, CustomSyncStepProgress, ProgressView, ReportView, SyncAction, SyncState,
    SyncStateView, SyncTurn, TurnView, SYNC_STEPS,
};
use crate::text::{decimal, has_text, joined};
use crate::text_laws::{
    each_part_stands_in_the_whole, found_in_a_part_is_found, found_means_surrounded,
};

verus! {

/// What a command came back with: its output, or an error.
pub type Outcome = Result<Seq<char>, Seq<char>>;

/// A command that was started, and the directory that it was started in.
pub ghost struct Started {
    pub directory: PathBuf,
    pub command: Seq<char>,
}

/// A synchronisation so far: the commands that were started, the progress that was sent, and the
/// action of the latest turn.
pub ghost struct SyncTrace {
    pub commands: Seq<Started>,
    pub progress: Seq<ProgressView>,
    pub action: ActionView,
}

/// The trace with one turn more.
pub open spec fn extended(
    commands: Seq<Started>,
    progress: Seq<ProgressView>,
    turn: TurnView,
) -> SyncTrace {
    SyncTrace {
        commands: match turn.action {
            ActionView::Run { state, command } => commands.push(
                Started { directory: state.repo_dir, command },
            ),
            ActionView::Finish(_) => commands,
        },
        progress: progress + turn.progress,
        action: turn.action,
    }
}

/// The synchronisation of a repository that was found in `repo_dir`, whose commands come back with `outcomes`
/// one after the other. Once there is a report, nothing more happens.
pub open spec fn sync_run(repo_dir: PathBuf, outcomes: Seq<Outcome>) -> SyncTrace
    decreases outcomes.len(),
{
    if outcomes.len() == 0 {
        extended(seq![], seq![], first_turn(Ok(repo_dir)))
    } else {
        let before = sync_run(repo_dir, outcomes.drop_last());
        match before.action {
            ActionView::Run { state, .. } => extended(
                before.commands,
                before.progress,
                next_turn(state, outcomes.last()),
            ),
            ActionView::Finish(_) => before,
        }
    }
}

/// Every command came back with its output.
pub open spec fn all_ok(outcomes: Seq<Outcome>) -> bool {
    forall|i: int| 0 <= i < outcomes.len() ==> (#[trigger] outcomes[i]) is Ok
}

/// The first `n` commands, all of them in `repo_dir`.
pub open spec fn first_commands(repo_dir: PathBuf, n: nat) -> Seq<Started> {
    Seq::new(n, |i: int| Started { directory: repo_dir, command: step_command(i as nat) })
}

/// The log entries of steps that succeeded with these outcomes.
pub open spec fn success_logs(outcomes: Seq<Outcome>) -> Seq<Seq<char>> {
    Seq::new(outcomes.len(), |i: int| success_entry(i as nat, outcomes[i]->Ok_0))
}

/// The progress of steps that succeeded with these outcomes: each step is running and then a
/// success.
pub open spec fn success_progress(outcomes: Seq<Outcome>) -> Seq<ProgressView> {
    Seq::new(
        2 * outcomes.len(),
        |j: int|
            if j % 2 == 0 {
                running((j / 2) as nat)
            } else {
                succeeded((j / 2) as nat, outcomes[j / 2]->Ok_0)
            },
    )
}

/// As long as all steps succeed, the synchronisation goes on with the next one, in the same
/// directory.
pub proof fn success_leads_to_the_next_step(repo_dir: PathBuf, outcomes: Seq<Outcome>)
    requires
        all_ok(outcomes),
        outcomes.len() < SYNC_STEPS,
    ensures
        sync_run(repo_dir, outcomes) == (SyncTrace {
            commands: first_commands(repo_dir, outcomes.len() + 1),
            progress: success_progress(outcomes).push(running(outcomes.len())),
            action: ActionView::Run {
                state: SyncStateView {
                    repo_dir,
                    step: outcomes.len(),
                    logs: success_logs(outcomes),
                },
                command: step_command(outcomes.len()),
            },
        }),
    decreases outcomes.len(),
{
    let n = outcomes.len();
    let run = sync_run(repo_dir, outcomes);
    if n == 0 {
        assert(run.commands =~= first_commands(repo_dir, 1));
        assert(run.progress =~= success_progress(outcomes).push(running(0)));
        assert(success_logs(outcomes) =~= seq![]);
    } else {
        let earlier = outcomes.drop_last();
        success_leads_to_the_next_step(repo_dir, earlier);
        lemma_one_more_success(outcomes);
        assert(outcomes.last() is Ok);
        assert(run.commands =~= first_commands(repo_dir, n + 1));
        assert(run.progress =~= success_progress(outcomes).push(running(n)));
    }
}

/// The logs and the progress of a list of successes, from those of the list without its last.
proof fn lemma_one_more_success(outcomes: Seq<Outcome>)
    requires
        outcomes.len() > 0,
        all_ok(outcomes),
    ensures
        all_ok(outcomes.drop_last()),
        success_logs(outcomes) == success_logs(outcomes.drop_last()).push(
            success_entry((outcomes.len() - 1) as nat, outcomes.last()->Ok_0),
        ),
        success_progress(outcomes) == success_progress(outcomes.drop_last()).push(
            running((outcomes.len() - 1) as nat),
        ).push(succeeded((outcomes.len() - 1) as nat, outcomes.last()->Ok_0)),
{
    let earlier = outcomes.drop_last();
    assert(forall|i: int| 0 <= i < earlier.len() ==> #[trigger] earlier[i] == outcomes[i]);
    assert(success_logs(outcomes) =~= success_logs(earlier).push(
        success_entry((outcomes.len() - 1) as nat, outcomes.last()->Ok_0),
    ));
    assert(success_progress(outcomes) =~= success_progress(earlier).push(
        running((outcomes.len() - 1) as nat),
    ).push(succeeded((outcomes.len() - 1) as nat, outcomes.last()->Ok_0)));
}

/// Where all commands succeed, they have all been run, in their order and in the directory of the
/// repository, and the report is a success with the log of each.
pub proof fn all_steps_succeed(repo_dir: PathBuf, outcomes: Seq<Outcome>)
    requires
        all_ok(outcomes),
        outcomes.len() == SYNC_STEPS,
    ensures
        sync_run(repo_dir, outcomes) == (SyncTrace {
            commands: first_commands(repo_dir, SYNC_STEPS as nat),
            progress: success_progress(outcomes),
            action: ActionView::Finish(success_report(success_logs(outcomes))),
        }),
{
    let earlier = outcomes.drop_last();
    lemma_one_more_success(outcomes);
    success_leads_to_the_next_step(repo_dir, earlier);
    assert(outcomes.last() is Ok);
    assert(sync_run(repo_dir, outcomes).progress =~= success_progress(outcomes));
}

/// A run that has its report stays as it is.
proof fn lemma_report_is_final(repo_dir: PathBuf, outcomes: Seq<Outcome>, rest: Seq<Outcome>)
    requires
        sync_run(repo_dir, outcomes).action is Finish,
    ensures
        sync_run(repo_dir, outcomes + rest) == sync_run(repo_dir, outcomes),
    decreases rest.len(),
{
    if rest.len() == 0 {
        assert(outcomes + rest =~= outcomes);
    } else {
        lemma_report_is_final(repo_dir, outcomes, rest.drop_last());
        assert((outcomes + rest).drop_last() =~= outcomes + rest.drop_last());
    }
}

/// The first failure ends the synchronisation: no later command is run, whatever it would have
/// come to, and the report names the step that failed and holds the log up to it.
pub proof fn first_failure_ends_the_run(
    repo_dir: PathBuf,
    successes: Seq<Outcome>,
    error: Seq<char>,
    rest: Seq<Outcome>,
)
    requires
        all_ok(successes),
        successes.len() < SYNC_STEPS,
    ensures
        sync_run(repo_dir, successes.push(Err(error)) + rest) == (SyncTrace {
            commands: first_commands(repo_dir, successes.len() + 1),
            progress: success_progress(successes).push(running(successes.len())).push(
                failed(successes.len(), error),
            ),
            action: ActionView::Finish(
                failure_report(
                    successes.len(),
                    success_logs(successes).push(failure_entry(successes.len(), error)),
                ),
            ),
        }),
{
    let n = successes.len();
    let outcomes = successes.push(Err(error));
    assert(outcomes.drop_last() =~= successes);
    success_leads_to_the_next_step(repo_dir, successes);
    assert(sync_run(repo_dir, outcomes).progress =~= success_progress(successes).push(running(n)).push(
        failed(n, error),
    ));
    lemma_report_is_final(repo_dir, outcomes, rest);
}

/// Every command of a synchronisation is run in the directory of the repository, in the order of
/// the steps, however the commands come back.
pub proof fn every_command_runs_in_the_repo(repo_dir: PathBuf, outcomes: Seq<Outcome>)
    ensures
        sync_run(repo_dir, outcomes).commands == first_commands(
            repo_dir,
            sync_run(repo_dir, outcomes).commands.len(),
        ),
    decreases outcomes.len(),
{
    let run = sync_run(repo_dir, outcomes);
    if outcomes.len() > 0 {
        every_command_runs_in_the_repo(repo_dir, outcomes.drop_last());
        every_run_is_accounted_for(repo_dir, outcomes.drop_last());
    }
    assert(run.commands =~= first_commands(repo_dir, run.commands.len()));
}

/// What holds of every synchronisation, however its commands come back. While it runs, all
/// commands before the running one have succeeded. Its report counts the commands that were run;
/// all of them but the last have succeeded, and it is a success if and only if the last one has
/// too, which is then the last step.
pub proof fn every_run_is_accounted_for(repo_dir: PathBuf, outcomes: Seq<Outcome>)
    ensures
        match sync_run(repo_dir, outcomes).action {
            ActionView::Run { state, command } => {
                &&& all_ok(outcomes)
                &&& outcomes.len() < SYNC_STEPS
                &&& state.valid()
                &&& state.step == outcomes.len()
                &&& state.repo_dir == repo_dir
                &&& command == step_command(state.step)
                &&& sync_run(repo_dir, outcomes).commands.len() == state.step + 1
            },
            ActionView::Finish(report) => {
                &&& report.total_steps == SYNC_STEPS
                &&& 1 <= report.current_step <= SYNC_STEPS
                &&& report.current_step <= outcomes.len()
                &&& report.current_step == sync_run(repo_dir, outcomes).commands.len()
                &&& all_ok(outcomes.take(report.current_step - 1))
                &&& report.success <==> outcomes[report.current_step - 1] is Ok
                &&& report.success ==> report.current_step == SYNC_STEPS
            },
        },
    decreases outcomes.len(),
{
    let run = sync_run(repo_dir, outcomes);
    if outcomes.len() > 0 {
        let earlier = outcomes.drop_last();
        every_run_is_accounted_for(repo_dir, earlier);
        assert(forall|i: int| 0 <= i < earlier.len() ==> #[trigger] earlier[i] == outcomes[i]);
        match sync_run(repo_dir, earlier).action {
            ActionView::Run { state, .. } => {
                assert(outcomes.take(outcomes.len() - 1) =~= earlier);
                if outcomes.last() is Ok {
                    assert forall|i: int| 0 <= i < outcomes.len() implies (
                    #[trigger] outcomes[i]) is Ok by {
                        assert(i < earlier.len() ==> earlier[i] is Ok);
                    }
                }
            },
            ActionView::Finish(report) => {
                assert(outcomes.take(report.current_step - 1) =~= earlier.take(
                    report.current_step - 1,
                ));
            },
        }
    }
}

/// A synchronisation comes to its report after as many commands as there are steps, at the latest.
pub proof fn every_run_ends(repo_dir: PathBuf, outcomes: Seq<Outcome>)
    requires
        outcomes.len() >= SYNC_STEPS,
    ensures
        sync_run(repo_dir, outcomes).action is Finish,
{
    every_run_is_accounted_for(repo_dir, outcomes);
}

/// Without a repository nothing is run and no progress is sent; the report shows why.
pub proof fn nothing_runs_without_a_repo(error: Seq<char>)
    ensures
        first_turn(Err(error)).progress.len() == 0,
        first_turn(Err(error)).action == ActionView::Finish(repo_missing_report(error)),
{
}

/// The five commands, in their order, and their titles.
pub proof fn commands_and_titles()
    ensures
        SYNC_STEPS == 5,
        step_command(0) == "git fetch upstream main:main"@,
        step_command(1) == "git push origin main"@,
        step_command(2) == "git merge main -m \"merge: sync upstream main into my-custom\""@,
        step_command(3) == "npm test"@,
        step_command(4) == "git push origin my-custom"@,
        step_title(0) == "1/5: Lấy cập nhật mới từ repo gốc (upstream)"@,
        step_title(1) == "2/5: Đồng bộ nhánh main lên fork GitHub"@,
        step_title(2) == "3/5: Gộp cập nhật main vào nhánh my-custom"@,
        step_title(3) == "4/5: Chạy bộ kiểm thử regression (npm test)"@,
        step_title(4) == "5/5: Đẩy lên GitHub để kích hoạt build matrix"@,
{
}

/// The customised branch is pushed, which triggers the build, only once everything was fetched,
/// pushed and merged and the tests have passed.
pub proof fn build_is_triggered_only_after_the_tests(
    repo_dir: PathBuf,
    outcomes: Seq<Outcome>,
    k: int,
)
    requires
        0 <= k < sync_run(repo_dir, outcomes).commands.len(),
        sync_run(repo_dir, outcomes).commands[k].command == "git push origin my-custom"@,
    ensures
        k == 4,
        outcomes.len() >= 4,
        outcomes[0] is Ok,
        outcomes[1] is Ok,
        outcomes[2] is Ok,
        outcomes[3] is Ok,
        sync_run(repo_dir, outcomes).commands.len() == 5,
{
    reveal_strlit("git fetch upstream main:main");
    reveal_strlit("git push origin main");
    reveal_strlit("git merge main -m \"merge: sync upstream main into my-custom\"");
    reveal_strlit("npm test");
    reveal_strlit("git push origin my-custom");
    assert("git fetch upstream main:main"@.len() != "git push origin my-custom"@.len());
    assert("git push origin main"@.len() != "git push origin my-custom"@.len());
    assert("git merge main -m \"merge: sync upstream main into my-custom\""@.len()
        != "git push origin my-custom"@.len());
    assert("npm test"@.len() != "git push origin my-custom"@.len());
    every_command_runs_in_the_repo(repo_dir, outcomes);
    every_run_is_accounted_for(repo_dir, outcomes);
    let run = sync_run(repo_dir, outcomes);
    assert(run.commands[k].command == step_command(k as nat));
    assert(k == 4);
    match run.action {
        ActionView::Run { .. } => {},
        ActionView::Finish(report) => {
            let before = outcomes.take(report.current_step - 1);
            assert(before[0] is Ok && before[1] is Ok && before[2] is Ok && before[3] is Ok);
        },
    }
}

/// The first turn starts the first command in the directory that was found, with nothing logged
/// yet, and says that the step runs. Without a repository it only reports.
pub proof fn first_turn_starts_the_first_step(repo_dir: PathBuf, error: Seq<char>)
    ensures
        ({
            let turn = first_turn(Ok(repo_dir));
            &&& turn.progress == seq![running(0)]
            &&& turn.action is Run
            &&& turn.action->state.repo_dir == repo_dir
            &&& turn.action->state.step == 0
            &&& turn.action->state.logs.len() == 0
            &&& turn.action->command == "git fetch upstream main:main"@
        }),
        first_turn(Err(error)).progress.len() == 0,
        first_turn(Err(error)).action == ActionView::Finish(repo_missing_report(error)),
{
    assert(first_turn(Ok(repo_dir)).progress =~= seq![running(0)]);
}

/// The turn after a step. A success of one of the first four steps adds its log entry behind the
/// earlier ones, says so, and starts the next command in the same directory. A success of the last
/// step reports success, and any failure reports that step, each with the whole log.
pub proof fn turn_after_each_step(state: SyncStateView, text: Seq<char>)
    requires
        state.step < 5,
    ensures
        state.step < 4 ==> {
            let turn = next_turn(state, Ok(text));
            &&& turn.progress == seq![succeeded(state.step, text), running(state.step + 1)]
            &&& turn.action is Run
            &&& turn.action->state.repo_dir == state.repo_dir
            &&& turn.action->state.step == state.step + 1
            &&& turn.action->state.logs == state.logs.push(success_entry(state.step, text))
            &&& turn.action->command == step_command(state.step + 1)
        },
        state.step == 4 ==> {
            let turn = next_turn(state, Ok(text));
            &&& turn.progress == seq![succeeded(4, text)]
            &&& turn.action == ActionView::Finish(
                success_report(state.logs.push(success_entry(4, text))),
            )
        },
        ({
            let turn = next_turn(state, Err(text));
            &&& turn.progress == seq![failed(state.step, text)]
            &&& turn.action == ActionView::Finish(
                failure_report(state.step, state.logs.push(failure_entry(state.step, text))),
            )
        }),
        state.valid() <==> state.logs.len() == state.step,
{
    if state.step < 4 {
        assert(next_turn(state, Ok(text)).progress =~= seq![
            succeeded(state.step, text),
            running(state.step + 1),
        ]);
    }
}

/// Progress tells the step, counted from 1, out of five, with its title and one of three statuses;
/// the detail is empty while the step runs and then what its command came back with.
pub proof fn progress_tells_the_step(i: nat, text: Seq<char>)
    ensures
        running(i).step == i + 1,
        running(i).total == 5,
        running(i).title == step_title(i),
        running(i).status == "running"@,
        running(i).detail.len() == 0,
        succeeded(i, text).step == i + 1,
        succeeded(i, text).total == 5,
        succeeded(i, text).title == step_title(i),
        succeeded(i, text).status == "success"@,
        succeeded(i, text).detail == text,
        failed(i, text).step == i + 1,
        failed(i, text).total == 5,
        failed(i, text).title == step_title(i),
        failed(i, text).status == "failed"@,
        failed(i, text).detail == text,
{
}

/// A log entry is a heading with the number and the title of its step, and then what its command
/// came back with, unchanged.
pub proof fn log_entries_hold_the_output(i: nat, text: Seq<char>)
    ensures
        success_entry(i, text) == "=== Bước "@ + decimal(i + 1) + "/"@ + decimal(5) + ": "@
            + step_title(i) + " ===\n"@ + text + "\n"@,
        failure_entry(i, text) == "=== THẤT BẠI Bước "@ + decimal(i + 1) + "/"@ + decimal(5)
            + ": "@ + step_title(i) + " ===\n"@ + text + "\n"@,
{
}

/// A text that stands in one entry of a log stands in the whole log.
proof fn lemma_entry_stands_in_the_log(logs: Seq<Seq<char>>, i: int, text: Seq<char>)
    requires
        0 <= i < logs.len(),
        has_text(logs[i], text),
    ensures
        has_text(joined(logs, "\n"@), text),
{
    each_part_stands_in_the_whole(logs, "\n"@, i);
    let (b, a) = choose|b: Seq<char>, a: Seq<char>|
        joined(logs, "\n"@) == #[trigger] (b + logs[i] + a);
    found_in_a_part_is_found(b, logs[i], a, text);
}

/// What a command came back with stands in the log entry of its step.
proof fn lemma_output_stands_in_its_entry(i: nat, text: Seq<char>)
    ensures
        has_text(success_entry(i, text), text),
        has_text(failure_entry(i, text), text),
{
    let heading = decimal(i + 1) + "/"@ + decimal(5) + ": "@ + step_title(i) + " ===\n"@;
    let nothing = Seq::<char>::empty();
    assert(success_entry(i, text) =~= ("=== Bước "@ + heading) + text + "\n"@);
    assert(failure_entry(i, text) =~= ("=== THẤT BẠI Bước "@ + heading) + text + "\n"@);
    assert(text =~= nothing + text + nothing);
    found_means_surrounded(text, text);
    found_in_a_part_is_found("=== Bước "@ + heading, text, "\n"@, text);
    found_in_a_part_is_found("=== THẤT BẠI Bước "@ + heading, text, "\n"@, text);
}

/// The log of a report holds, unchanged, what every command that was run came back with, the
/// error of the last one among it.
pub proof fn report_holds_every_output(repo_dir: PathBuf, outcomes: Seq<Outcome>, i: int)
    requires
        sync_run(repo_dir, outcomes).action is Finish,
        0 <= i < sync_run(repo_dir, outcomes).action->Finish_0.current_step,
    ensures
        outcomes[i] is Ok ==> has_text(
            sync_run(repo_dir, outcomes).action->Finish_0.logs,
            outcomes[i]->Ok_0,
        ),
        outcomes[i] is Err ==> has_text(
            sync_run(repo_dir, outcomes).action->Finish_0.logs,
            outcomes[i]->Err_0,
        ),
{
    let report = sync_run(repo_dir, outcomes).action->Finish_0;
    every_run_is_accounted_for(repo_dir, outcomes);
    let k = report.current_step as int;
    let rest = outcomes.skip(k);
    let earlier = outcomes.take(k - 1);
    if report.success {
        let all = outcomes.take(k);
        assert forall|j: int| 0 <= j < all.len() implies (#[trigger] all[j]) is Ok by {
            assert(j < k - 1 ==> earlier[j] is Ok);
        }
        all_steps_succeed(repo_dir, all);
        lemma_report_is_final(repo_dir, all, rest);
        assert(all + rest =~= outcomes);
        assert(all[i] is Ok);
        lemma_output_stands_in_its_entry(i as nat, all[i]->Ok_0);
        lemma_entry_stands_in_the_log(success_logs(all), i, all[i]->Ok_0);
    } else {
        let error = outcomes[k - 1]->Err_0;
        first_failure_ends_the_run(repo_dir, earlier, error, rest);
        assert(earlier.push(Err(error)) + rest =~= outcomes);
        let logs = success_logs(earlier).push(failure_entry((k - 1) as nat, error));
        if i < k - 1 {
            assert(earlier[i] is Ok);
            lemma_output_stands_in_its_entry(i as nat, earlier[i]->Ok_0);
            assert(logs[i] == success_entry(i as nat, earlier[i]->Ok_0));
            lemma_entry_stands_in_the_log(logs, i, earlier[i]->Ok_0);
        } else {
            lemma_output_stands_in_its_entry(i as nat, error);
            assert(logs[i] == failure_entry(i as nat, error));
            lemma_entry_stands_in_the_log(logs, i, error);
        }
    }
}

/// What each report says.
pub proof fn reports_say_how_it_went(i: nat, error: Seq<char>, logs: Seq<Seq<char>>)
    ensures
        !repo_missing_report(error).success,
        repo_missing_report(error).message == error,
        repo_missing_report(error).current_step == 0,
        repo_missing_report(error).total_steps == 5,
        repo_missing_report(error).logs.len() == 0,
        !failure_report(i, logs).success,
        failure_report(i, logs).message == "Thất bại ở bước "@ + decimal(i + 1) + ": "@
            + step_title(i),
        failure_report(i, logs).current_step == i + 1,
        failure_report(i, logs).total_steps == 5,
        failure_report(i, logs).logs == joined(logs, "\n"@),
        success_report(logs).success,
        success_report(logs).message
            == "Đồng bộ và kích hoạt build thành công trên GitHub Actions!"@,
        success_report(logs).current_step == 5,
        success_report(logs).total_steps == 5,
        success_report(logs).logs == joined(logs, "\n"@),
{
}

/// What is sent and reported is shown as it is, field by field.
pub proof fn turns_are_shown_as_they_are(
    progress: CustomSyncStepProgress,
    report: CustomSyncReport,
    turn: SyncTurn,
    state: SyncState,
    command: String,
)
    ensures
        progress@ == (ProgressView {
            step: progress.step as nat,
            total: progress.total as nat,
            title: progress.title@,
            status: progress.status@,
            detail: progress.detail@,
        }),
        report@ == (ReportView {
            success: report.success,
            message: report.message@,
            current_step: report.current_step as nat,
            total_steps: report.total_steps as nat,
            logs: report.logs@,
        }),
        turn@.action == turn.action@,
        turn@.progress.len() == turn.progress@.len(),
        forall|i: int|
            0 <= i < turn.progress@.len() ==> #[trigger] turn@.progress[i] == turn.progress@[i]@,
        SyncAction::Finish(report)@ == ActionView::Finish(report@),
        (SyncAction::Run { state, command })@ == (ActionView::Run {
            state: state@,
            command: command@,
        }),
{
}

} // verus!
