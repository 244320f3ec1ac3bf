//! Laws of the text that a step shows.
use std::path::PathBuf;

use vstd::prelude::*;

use crate::command::{CommandLine, Platform};
use crate::run_step::{
    code_text, combined_output, exited_result, shell_line, step_result, utf8_lossy, CommandOutcome,
};
use crate::text::{
    blank, decimal, lemma_trim_end_takes, lemma_trim_start_skips, trim, trim_empties_blank,
    trim_keeps_trimmed, trim_leaves_trimmed, trimmed,
};

verus! {

/// The output of a step has no white space around it.
pub proof fn combined_output_is_trimmed(stdout: Seq<char>, stderr: Seq<char>)
    ensures
        trimmed(combined_output(stdout, stderr)),
{
    trim_leaves_trimmed(trim(stdout) + "\n"@ + trim(stderr));
}

/// A command that printed nothing on one of its outputs shows the other one alone, without the
/// white space around it.
pub proof fn blank_output_leaves_no_trace(text: Seq<char>, empty: Seq<char>)
    requires
        blank(empty),
    ensures
        combined_output(text, empty) == trim(text),
        combined_output(empty, text) == trim(text),
{
    reveal_strlit("\n");
    let t = trim(text);
    trim_empties_blank(empty);
    trim_leaves_trimmed(text);
    assert(trim(empty) =~= seq![]);
    let after = t + "\n"@ + seq![];
    assert(trim(after) == t) by {
        assert(after =~= t.push('\n'));
        if t.len() == 0 {
            assert(blank(after));
            trim_empties_blank(after);
            assert(trim(after) =~= t);
        } else {
            assert(after[0] == t[0]);
            assert(blank(after.skip(t.len() as int)));
            lemma_trim_end_takes(after, t.len() as int);
            assert(after.take(t.len() as int) =~= t);
            trim_keeps_trimmed(t);
        }
    }
    let before = seq![] + "\n"@ + t;
    assert(trim(before) == t) by {
        assert(before =~= seq!['\n'] + t);
        assert(blank(before.take(1)));
        lemma_trim_start_skips(before, 1);
        assert(before.skip(1) =~= t);
        trim_keeps_trimmed(t);
    }
}

/// A command that printed nothing at all leaves no output.
pub proof fn silent_command_has_no_output(stdout: Seq<char>, stderr: Seq<char>)
    requires
        blank(stdout),
        blank(stderr),
    ensures
        combined_output(stdout, stderr).len() == 0,
{
    blank_output_leaves_no_trace(stdout, stderr);
    trim_empties_blank(stdout);
}

/// A step succeeds if and only if its command was started and exited with success; the exit code
/// by itself does not count.
pub proof fn step_succeeds_with_its_command(cmd: Seq<char>, outcome: CommandOutcome)
    ensures
        step_result(cmd, outcome) is Ok <==> (outcome matches CommandOutcome::Exited {
            success,
            ..
        } && success),
{
}

/// A command that printed on both of its outputs shows both, the first one first, each without the
/// white space around it, with one line break between them.
pub proof fn both_outputs_are_shown(stdout: Seq<char>, stderr: Seq<char>)
    requires
        !blank(stdout),
        !blank(stderr),
    ensures
        combined_output(stdout, stderr) == trim(stdout) + seq!['\n'] + trim(stderr),
{
    let first = trim(stdout);
    let second = trim(stderr);
    reveal_strlit("\n");
    assert("\n"@ =~= seq!['\n']);
    trim_empties_blank(stdout);
    trim_empties_blank(stderr);
    trim_leaves_trimmed(stdout);
    trim_leaves_trimmed(stderr);
    let both = first + "\n"@ + second;
    assert(both[0] == first[0]);
    assert(both[both.len() - 1] == second[second.len() - 1]);
    trim_keeps_trimmed(both);
}

/// The shell is handed the command itself, character by character, as its last argument, and
/// nothing else depends on the command. It is started in the directory of the repository.
pub proof fn shell_gets_the_command_unchanged(
    platform: Platform,
    repo_dir: PathBuf,
    cmd: Seq<char>,
    other: Seq<char>,
)
    ensures
        shell_line(platform, repo_dir, cmd).args.last() == cmd,
        shell_line(platform, repo_dir, cmd).args.drop_last() == shell_line(
            platform,
            repo_dir,
            other,
        ).args.drop_last(),
        shell_line(platform, repo_dir, cmd).program == shell_line(
            platform,
            repo_dir,
            other,
        ).program,
        shell_line(platform, repo_dir, cmd).creation_flags == shell_line(
            platform,
            repo_dir,
            other,
        ).creation_flags,
        shell_line(platform, repo_dir, cmd).directory == Some(repo_dir),
{
    assert(shell_line(platform, repo_dir, cmd).args.drop_last() =~= shell_line(
        platform,
        repo_dir,
        other,
    ).args.drop_last());
}

/// The shell of Windows is PowerShell with these switches and no window; elsewhere it is `sh`.
pub proof fn shell_of_each_platform(repo_dir: PathBuf, cmd: Seq<char>)
    ensures
        ({
            let line = shell_line(Platform::Windows, repo_dir, cmd);
            &&& line.program == "powershell.exe"@
            &&& line.args.len() == 6
            &&& line.args[0] == "-NoProfile"@
            &&& line.args[1] == "-NonInteractive"@
            &&& line.args[2] == "-ExecutionPolicy"@
            &&& line.args[3] == "Bypass"@
            &&& line.args[4] == "-Command"@
            &&& line.args[5] == cmd
            &&& line.creation_flags == Some(0x0800_0000u32)
        }),
        ({
            let line = shell_line(Platform::Other, repo_dir, cmd);
            &&& line.program == "sh"@
            &&& line.args.len() == 2
            &&& line.args[0] == "-c"@
            &&& line.args[1] == cmd
            &&& line.creation_flags is None
        }),
{
}

/// An exit code is shown as its digits in brackets, with a minus sign where it is negative; a
/// command without an exit code shows that it has none.
pub proof fn exit_codes_are_shown(code: i32)
    ensures
        code >= 0 ==> code_text(Some(code)) == "Some("@ + decimal(code as nat) + ")"@,
        code < 0 ==> code_text(Some(code)) == "Some("@ + (seq!['-'] + decimal((-code) as nat))
            + ")"@,
        code_text(None) == "None"@,
{
}

/// A command that exited with success shows its output and nothing else, whatever the command and
/// its code are. One that failed shows the command, the code and then the output.
pub proof fn exited_commands_show_their_output(
    cmd: Seq<char>,
    stdout: Seq<char>,
    stderr: Seq<char>,
    code: Option<i32>,
)
    ensures
        exited_result(cmd, stdout, stderr, true, code) == Ok::<Seq<char>, Seq<char>>(
            combined_output(stdout, stderr),
        ),
        exited_result(cmd, stdout, stderr, false, code) == Err::<Seq<char>, Seq<char>>(
            "Lệnh '"@ + cmd + "' thất bại (mã thoát: "@ + code_text(code) + "):\n"@
                + combined_output(stdout, stderr),
        ),
{
}

/// A step shows the decoded outputs of its command, or why it could not be started.
pub proof fn steps_show_what_became_of_their_command(
    cmd: Seq<char>,
    stdout: Vec<u8>,
    stderr: Vec<u8>,
    success: bool,
    code: Option<i32>,
    error: String,
)
    ensures
        step_result(cmd, CommandOutcome::Exited { stdout, stderr, success, code })
            == exited_result(cmd, utf8_lossy(stdout@), utf8_lossy(stderr@), success, code),
        step_result(cmd, CommandOutcome::NotStarted(error)) == Err::<Seq<char>, Seq<char>>(
            "Không thể khởi chạy '"@ + cmd + "': "@ + error@,
        ),
{
}

/// A command line is shown as it is: each argument, the program, the directory and the flags.
pub proof fn command_line_is_shown_as_it_is(line: CommandLine<'_>)
    ensures
        line@.program == line.program@,
        line@.args.len() == line.args@.len(),
        forall|i: int|
            0 <= i < line.args@.len() ==> #[trigger] line@.args[i] == line.args@[i]@,
        line.directory is Some <==> line@.directory is Some,
        line.directory is Some ==> line@.directory->0 == *line.directory->0,
        line@.creation_flags == line.creation_flags,
{
}

} // verus!
