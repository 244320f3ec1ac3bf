use cockpit_maintenance::command::Platform;
use cockpit_maintenance::webview2_maintenance::{
    cleanup_current_webview2_processes, cleanup_orphaned_webview2_processes,
    is_cockpit_webview2_cmd, kill_pid_force, kill_succeeded, lock_files_to_remove, LockSighting,
    OrphanCleanup, ProcessInfo,
};

#[test]
fn test_is_cockpit_webview2_cmd() {
    let sample_cmd = r#""C:\Program Files (x86)\Microsoft\EdgeWebView\Application\msedgewebview2.exe" --user-data-dir="C:\Users\ADMIN\AppData\Local\com.jlcodes.cockpit-tools\EBWebView" --webview-exe-name=cockpit-tools.exe"#;
    assert!(is_cockpit_webview2_cmd(sample_cmd));

    let unrelated_cmd = r#""C:\Program Files (x86)\Microsoft\EdgeWebView\Application\msedgewebview2.exe" --user-data-dir="C:\Users\ADMIN\AppData\Local\Microsoft\Teams\EBWebView""#;
    assert!(!is_cockpit_webview2_cmd(unrelated_cmd));
}

const PROFILE_CMD: &str =
    "--user-data-dir=C:\\Users\\A\\AppData\\Local\\com.jlcodes.cockpit-tools\\EBWebView";

fn process(pid: u32, name: &str, cmd: &[&str], parent: Option<u32>) -> ProcessInfo {
    ProcessInfo {
        pid,
        name: name.to_string(),
        cmd: cmd.iter().map(|s| s.to_string()).collect(),
        parent,
    }
}

fn webview(pid: u32, parent: Option<u32>) -> ProcessInfo {
    process(pid, "msedgewebview2.exe", &["msedgewebview2.exe", PROFILE_CMD], parent)
}

fn instance(pid: u32) -> ProcessInfo {
    process(pid, "Cockpit-Tools.exe", &["Cockpit-Tools.exe"], None)
}

fn orphans(current_pid: u32, processes: &Vec<ProcessInfo>) -> OrphanCleanup {
    cleanup_orphaned_webview2_processes(Platform::Windows, current_pid, processes)
}

#[test]
fn either_mark_of_a_command_is_enough() {
    assert!(is_cockpit_webview2_cmd("--WebView-Exe-Name=Cockpit-Tools.EXE"));
    assert!(is_cockpit_webview2_cmd("x COM.JLCODES.COCKPIT-TOOLS y EBWEBVIEW z"));
    assert!(is_cockpit_webview2_cmd("ebwebview com.jlcodes.cockpit-tools"));
    assert!(!is_cockpit_webview2_cmd("com.jlcodes.cockpit-tools"));
    assert!(!is_cockpit_webview2_cmd("--webview-exe-name=cockpit-tools"));
    assert!(!is_cockpit_webview2_cmd(""));
}

#[test]
fn letter_case_and_surroundings_do_not_matter() {
    assert!(is_cockpit_webview2_cmd(PROFILE_CMD));
    assert!(is_cockpit_webview2_cmd(&PROFILE_CMD.to_uppercase()));
    assert!(is_cockpit_webview2_cmd(&format!("before {} after", PROFILE_CMD)));
}

#[test]
fn lone_instance_clears_everything_away() {
    let processes = vec![
        instance(10),
        webview(20, Some(10)),
        webview(21, Some(99)),
        webview(22, None),
        process(30, "msedgewebview2.exe", &["--user-data-dir=Teams\\EBWebView"], None),
        process(31, "explorer.exe", &[PROFILE_CMD], None),
    ];
    let cleanup = orphans(10, &processes);
    assert_eq!(cleanup.pids, [20, 21, 22]);
    assert_eq!(
        cleanup.lock_files,
        vec![vec!["lockfile".to_string()], vec!["Default".to_string(), "LOCK".to_string()]]
    );
}

#[test]
fn other_instance_keeps_its_windows_and_locks() {
    let processes = vec![
        instance(10),
        instance(11),
        webview(20, Some(10)),
        webview(21, Some(11)),
        webview(22, Some(99)),
        webview(23, None),
    ];
    let cleanup = orphans(10, &processes);
    assert_eq!(cleanup.pids, [22, 23]);
    assert!(cleanup.lock_files.is_empty());
}

#[test]
fn current_process_counts_even_where_it_is_not_listed() {
    let processes = vec![instance(11), webview(20, Some(10))];
    assert!(orphans(10, &processes).pids.is_empty());
    let processes = vec![webview(20, Some(10))];
    assert_eq!(orphans(10, &processes).pids, [20]);
}

#[test]
fn current_process_is_not_named() {
    let processes = vec![webview(10, None), webview(20, None)];
    assert_eq!(orphans(10, &processes).pids, [20]);
    assert_eq!(
        cleanup_current_webview2_processes(Platform::Windows, 10, &processes),
        [20]
    );
}

#[test]
fn second_cleanup_finds_nothing() {
    let mut processes = vec![
        instance(10),
        instance(11),
        webview(20, Some(11)),
        webview(21, Some(99)),
    ];
    let cleanup = orphans(10, &processes);
    assert_eq!(cleanup.pids, [21]);
    processes.retain(|p| !cleanup.pids.contains(&p.pid));
    assert!(orphans(10, &processes).pids.is_empty());
}

#[test]
fn order_of_the_list_does_not_matter() {
    let mut processes = vec![
        webview(20, Some(11)),
        instance(11),
        webview(21, Some(99)),
        instance(10),
        webview(22, None),
    ];
    let mut forward = orphans(10, &processes).pids;
    processes.reverse();
    let mut backward = orphans(10, &processes).pids;
    forward.sort();
    backward.sort();
    assert_eq!(forward, [21, 22]);
    assert_eq!(backward, forward);
}

#[test]
fn exit_leaves_the_windows_of_another_instance() {
    let processes = vec![instance(10), instance(11), webview(20, Some(10)), webview(21, Some(11))];
    assert_eq!(cleanup_current_webview2_processes(Platform::Windows, 10, &processes), [20]);
    assert_eq!(cleanup_current_webview2_processes(Platform::Windows, 11, &processes), [21]);
}

#[test]
fn second_exit_cleanup_finds_nothing() {
    let mut processes = vec![instance(11), webview(20, Some(10)), webview(21, Some(11)), webview(22, None)];
    let leaving = cleanup_current_webview2_processes(Platform::Windows, 10, &processes);
    assert_eq!(leaving, [20, 22]);
    processes.retain(|p| !leaving.contains(&p.pid));
    assert!(cleanup_current_webview2_processes(Platform::Windows, 10, &processes).is_empty());
}

#[test]
fn another_instance_spares_processes_and_locks() {
    let mut processes = vec![webview(20, Some(10)), webview(21, Some(11)), webview(22, None)];
    let alone = orphans(10, &processes);
    assert_eq!(alone.pids, [20, 21, 22]);
    assert_eq!(alone.lock_files.len(), 2);
    processes.push(instance(11));
    let together = orphans(10, &processes);
    assert_eq!(together.pids, [22]);
    assert!(together.lock_files.is_empty());
}

#[test]
fn lock_files_are_removed_where_they_exist() {
    let lock = |names: &[&str], exists: bool| LockSighting {
        path: names.iter().map(|s| s.to_string()).collect(),
        exists,
    };
    let seen = vec![lock(&["lockfile"], false), lock(&["Default", "LOCK"], true)];
    assert_eq!(lock_files_to_remove(true, &seen), [&["Default".to_string(), "LOCK".to_string()]]);
    assert!(lock_files_to_remove(false, &seen).is_empty());
    let both = vec![lock(&["lockfile"], true), lock(&["Default", "LOCK"], true)];
    assert_eq!(lock_files_to_remove(true, &both), [&both[0].path, &both[1].path]);
    assert!(lock_files_to_remove(true, &vec![]).is_empty());
}

#[test]
fn exit_ends_children_and_webviews_of_the_program() {
    let processes = vec![
        instance(10),
        instance(11),
        process(20, "MSEdgeWebView2.exe", &[], Some(10)),
        webview(21, Some(11)),
        process(22, "msedgewebview2.exe", &["Teams"], Some(99)),
        process(23, "notepad.exe", &[PROFILE_CMD], Some(10)),
        process(24, "msedgewebview2.exe", &["Teams"], None),
        webview(25, Some(99)),
        webview(26, None),
    ];
    assert_eq!(
        cleanup_current_webview2_processes(Platform::Windows, 10, &processes),
        [20, 25, 26]
    );
}

#[test]
fn orphans_also_go_on_exit() {
    let processes = vec![instance(11), webview(20, Some(99)), webview(21, Some(11))];
    let leaving = cleanup_current_webview2_processes(Platform::Windows, 10, &processes);
    for pid in orphans(10, &processes).pids {
        assert!(leaving.contains(&pid));
    }
    assert_eq!(leaving, [20]);
}

#[test]
fn arguments_are_joined_with_spaces() {
    let split = process(
        20,
        "msedgewebview2.exe",
        &["--dir=com.jlcodes.cockpit-tools", "EBWebView"],
        None,
    );
    let torn = process(
        21,
        "msedgewebview2.exe",
        &["--dir=com.jlcodes.", "cockpit-tools\\EBWebView"],
        None,
    );
    assert_eq!(orphans(10, &vec![split, torn]).pids, [20]);
}

#[test]
fn nothing_is_cleared_away_on_other_systems() {
    let processes = vec![webview(20, None)];
    let cleanup = cleanup_orphaned_webview2_processes(Platform::Other, 10, &processes);
    assert!(cleanup.pids.is_empty());
    assert!(cleanup.lock_files.is_empty());
    assert!(cleanup_current_webview2_processes(Platform::Other, 10, &processes).is_empty());
}

#[test]
fn kill_command_names_the_process() {
    let line = kill_pid_force(10, 4711).unwrap();
    assert_eq!(line.program, "taskkill");
    assert_eq!(line.args, ["/F", "/PID", "4711"]);
    assert_eq!(line.directory, None);
    assert_eq!(line.creation_flags, Some(0x08000000));
}

#[test]
fn system_process_and_current_process_are_not_killed() {
    assert!(kill_pid_force(10, 0).is_none());
    assert!(kill_pid_force(10, 10).is_none());
}

#[test]
fn kill_succeeds_with_its_command() {
    assert!(kill_succeeded(Some(true)));
    assert!(!kill_succeeded(Some(false)));
    assert!(!kill_succeeded(None));
}
