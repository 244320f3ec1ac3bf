//! Running one command of a synchronisation through the shell.
use std::path::PathBuf;

use vstd::prelude::*;
use vstd::utf8::{decode_utf8, valid_utf8};

use crate::command::{CommandLine, CommandLineView, Platform, CREATE_NO_WINDOW};
use crate::text::{result_text, signed_decimal, signed_decimal_text, texts, trim, trim_text};

verus! {

/// What became of a command: it ran and printed bytes, or it could not be started.
#[derive(Debug)]
pub enum CommandOutcome {
    Exited { stdout: Vec<u8>, stderr: Vec<u8>, success: bool, code: Option<i32> },
    NotStarted(String),
}

/// The command line that hands `cmd` to the shell of a platform, in the directory of the
/// repository.
pub open spec fn shell_line(
    platform: Platform,
    repo_dir: PathBuf,
    cmd: Seq<char>,
) -> CommandLineView {
    match platform {
        Platform::Windows => CommandLineView {
            program: "powershell.exe"@,
            args: seq![
                "-NoProfile"@,
                "-NonInteractive"@,
                "-ExecutionPolicy"@,
                "Bypass"@,
                "-Command"@,
                cmd,
            ],
            directory: Some(repo_dir),
            creation_flags: Some(CREATE_NO_WINDOW),
        },
        Platform::Other => CommandLineView {
            program: "sh"@,
            args: seq!["-c"@, cmd],
            directory: Some(repo_dir),
            creation_flags: None,
        },
    }
}

/// The text that `String::from_utf8_lossy` makes of bytes.
pub uninterp spec fn utf8_lossy(bytes: Seq<u8>) -> Seq<char>;

/// Both outputs of a command as one text: each without the white space around it, on lines of
/// their own, and nothing around the whole.
pub open spec fn combined_output(stdout: Seq<char>, stderr: Seq<char>) -> Seq<char> {
    trim(trim(stdout) + "\n"@ + trim(stderr))
}

/// An exit code as it is shown to the user: a process that a signal ended has none.
pub open spec fn code_text(code: Option<i32>) -> Seq<char> {
    match code {
        Some(n) => "Some("@ + signed_decimal(n as int) + ")"@,
        None => "None"@,
    }
}

/// What a step comes to whose command has exited: its output, or a message with its exit code and
/// its output.
pub open spec fn exited_result(
    cmd: Seq<char>,
    stdout: Seq<char>,
    stderr: Seq<char>,
    success: bool,
    code: Option<i32>,
) -> Result<Seq<char>, Seq<char>> {
    if success {
        Ok(combined_output(stdout, stderr))
    } else {
        Err(
            "Lệnh '"@ + cmd + "' thất bại (mã thoát: "@ + code_text(code) + "):\n"@
                + combined_output(stdout, stderr),
        )
    }
}

/// What a step comes to.
pub open spec fn step_result(cmd: Seq<char>, outcome: CommandOutcome) -> Result<
    Seq<char>,
    Seq<char>,
> {
    match outcome {
        CommandOutcome::Exited { stdout, stderr, success, code } => exited_result(
            cmd,
            utf8_lossy(stdout@),
            utf8_lossy(stderr@),
            success,
            code,
        ),
        CommandOutcome::NotStarted(error) => Err(
            "Không thể khởi chạy '"@ + cmd + "': "@ + error@,
        ),
    }
}

/// The command line that hands `cmd` to the shell of a platform, in the directory of the
/// repository.
pub fn shell_command<'a>(
    platform: Platform,
    repo_dir: &'a PathBuf,
    cmd: &str,
) -> (r: CommandLine<'a>)
    ensures
        r@ == shell_line(platform, *repo_dir, cmd@),
{
    let mut args: Vec<String> = Vec::new();
    match platform {
        Platform::Windows => {
            args.push("-NoProfile".to_owned());
            args.push("-NonInteractive".to_owned());
            args.push("-ExecutionPolicy".to_owned());
            args.push("Bypass".to_owned());
            args.push("-Command".to_owned());
            args.push(cmd.to_owned());
            assert(texts(args@) =~= shell_line(platform, *repo_dir, cmd@).args);
            CommandLine {
                program: "powershell.exe".to_owned(),
                args,
                directory: Some(repo_dir),
                creation_flags: Some(CREATE_NO_WINDOW),
            }
        },
        Platform::Other => {
            args.push("-c".to_owned());
            args.push(cmd.to_owned());
            assert(texts(args@) =~= shell_line(platform, *repo_dir, cmd@).args);
            CommandLine {
                program: "sh".to_owned(),
                args,
                directory: Some(repo_dir),
                creation_flags: None,
            }
        },
    }
}

/// Calls `String::from_utf8_lossy` of std. Its result is named by `utf8_lossy`; where the bytes
/// are well-formed UTF-8 it is the text that they encode. What stands in place of ill-formed bytes
/// is not stated.
#[verifier::external_body]
fn decode_lossy(bytes: &Vec<u8>) -> (r: String)
    ensures
        r@ == utf8_lossy(bytes@),
        valid_utf8(bytes@) ==> r@ == decode_utf8(bytes@),
{
    String::from_utf8_lossy(bytes).into_owned()
}

/// An exit code as it is shown to the user.
fn code_string(code: Option<i32>) -> (r: String)
    ensures
        r@ == code_text(code),
{
    match code {
        Some(n) => {
            let mut out = "Some(".to_owned();
            out.append(signed_decimal_text(n).as_str());
            out.append(")");
            out
        },
        None => "None".to_owned(),
    }
}

/// What a step comes to whose command has exited and printed these texts.
pub fn run_step_exited(
    cmd: &str,
    stdout: &str,
    stderr: &str,
    success: bool,
    code: Option<i32>,
) -> (r: Result<String, String>)
    ensures
        result_text(r) == exited_result(cmd@, stdout@, stderr@, success, code),
{
    let mut both = trim_text(stdout);
    both.append("\n");
    both.append(trim_text(stderr).as_str());
    let combined = trim_text(both.as_str());
    if success {
        Ok(combined)
    } else {
        let mut message = "Lệnh '".to_owned();
        message.append(cmd);
        message.append("' thất bại (mã thoát: ");
        message.append(code_string(code).as_str());
        message.append("):\n");
        message.append(combined.as_str());
        Err(message)
    }
}

/// What a step comes to, from what became of its command. An output that is well-formed UTF-8 is
/// shown as the text that it encodes, whatever the other output holds.
pub fn run_step(cmd: &str, outcome: CommandOutcome) -> (r: Result<String, String>)
    ensures
        result_text(r) == step_result(cmd@, outcome),
        outcome matches CommandOutcome::Exited { stdout, stderr, .. } ==> {
            &&& valid_utf8(stdout@) ==> utf8_lossy(stdout@) == decode_utf8(stdout@)
            &&& valid_utf8(stderr@) ==> utf8_lossy(stderr@) == decode_utf8(stderr@)
        },
{
    match outcome {
        CommandOutcome::Exited { stdout, stderr, success, code } => {
            let stdout_text = decode_lossy(&stdout);
            let stderr_text = decode_lossy(&stderr);
            run_step_exited(cmd, stdout_text.as_str(), stderr_text.as_str(), success, code)
        },
        CommandOutcome::NotStarted(error) => {
            let mut message = "Không thể khởi chạy '".to_owned();
            message.append(cmd);
            message.append("': ");
            message.append(error.as_str());
            Err(message)
        },
    }
}

} // verus!
