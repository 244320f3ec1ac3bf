use std::path::PathBuf;

use cockpit_maintenance::command::{Platform, CREATE_NO_WINDOW};
use cockpit_maintenance::run_step::{run_step, run_step_exited, shell_command, CommandOutcome};

#[test]
fn windows_runs_steps_through_powershell() {
    let repo_dir = PathBuf::from("/srv/repo");
    let line = shell_command(Platform::Windows, &repo_dir, "npm test");
    assert_eq!(line.directory, Some(&repo_dir));
    assert_eq!(line.program, "powershell.exe");
    assert_eq!(
        line.args,
        ["-NoProfile", "-NonInteractive", "-ExecutionPolicy", "Bypass", "-Command", "npm test"]
    );
    assert_eq!(line.creation_flags, Some(CREATE_NO_WINDOW));
    assert_eq!(CREATE_NO_WINDOW, 0x08000000);
}

#[test]
fn other_systems_run_steps_through_sh() {
    let repo_dir = PathBuf::from("/srv/repo");
    let line = shell_command(Platform::Other, &repo_dir, "npm test");
    assert_eq!(line.directory, Some(&repo_dir));
    assert_eq!(line.program, "sh");
    assert_eq!(line.args, ["-c", "npm test"]);
    assert_eq!(line.creation_flags, None);
}

#[test]
fn output_of_a_step_is_trimmed() {
    assert_eq!(
        run_step_exited("npm test", " out\n", "\nerr \n", true, Some(0)),
        Ok("out\nerr".to_string())
    );
}

#[test]
fn blank_output_is_not_shown() {
    assert_eq!(run_step_exited("c", "out\n", " ", true, Some(0)), Ok("out".to_string()));
    assert_eq!(run_step_exited("c", "\t", "err\n", true, Some(0)), Ok("err".to_string()));
    assert_eq!(run_step_exited("c", " ", "\n", true, Some(0)), Ok(String::new()));
}

#[test]
fn success_is_not_read_from_the_code() {
    assert!(run_step_exited("c", "", "", true, Some(3)).is_ok());
    assert!(run_step_exited("c", "", "", false, Some(0)).is_err());
}

#[test]
fn failed_step_shows_its_exit_code() {
    assert_eq!(
        run_step_exited("npm test", "1 failing\n", "boom\n", false, Some(1)),
        Err("Lệnh 'npm test' thất bại (mã thoát: Some(1)):\n1 failing\nboom".to_string())
    );
    assert_eq!(
        run_step_exited("npm test", "", "", false, Some(-1073741510)),
        Err("Lệnh 'npm test' thất bại (mã thoát: Some(-1073741510)):\n".to_string())
    );
    assert_eq!(
        run_step_exited("npm test", "", "killed", false, None),
        Err("Lệnh 'npm test' thất bại (mã thoát: None):\nkilled".to_string())
    );
}

#[test]
fn bytes_are_decoded_before_they_are_shown() {
    let outcome = CommandOutcome::Exited {
        stdout: "Đã xong\n".as_bytes().to_vec(),
        stderr: vec![b'f', 0xff, b'o'],
        success: true,
        code: Some(0),
    };
    assert_eq!(run_step("git fetch", outcome), Ok("Đã xong\nf\u{fffd}o".to_string()));
}

#[test]
fn each_output_is_decoded_by_itself() {
    let outcome = CommandOutcome::Exited {
        stdout: Vec::new(),
        stderr: vec![0xff],
        success: false,
        code: Some(1),
    };
    assert_eq!(
        run_step("npm test", outcome),
        Err("Lệnh 'npm test' thất bại (mã thoát: Some(1)):\n\u{fffd}".to_string())
    );
    let outcome = CommandOutcome::Exited {
        stdout: vec![0xff],
        stderr: b"warning\n".to_vec(),
        success: true,
        code: Some(0),
    };
    assert_eq!(run_step("npm test", outcome), Ok("\u{fffd}\nwarning".to_string()));
}

#[test]
fn command_that_cannot_be_started_is_an_error() {
    let outcome = CommandOutcome::NotStarted("No such file or directory".to_string());
    assert_eq!(
        run_step("git fetch", outcome),
        Err("Không thể khởi chạy 'git fetch': No such file or directory".to_string())
    );
}
