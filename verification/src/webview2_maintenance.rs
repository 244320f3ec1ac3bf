//! Clearing away WebView2 processes and lock files that a window of the program left behind.
//!
//! A WebView2 process that outlives its window keeps the `EBWebView` profile directory locked, and
//! the next window waits for that lock until it times out and stays blank. The caller lists the
//! running processes, ends some of them and removes files; this module says which.
use std::collections::HashSet;

use vstd::prelude::*;

use crate::command::{CommandLine, CommandLineView, Platform, CREATE_NO_WINDOW};
use crate::text::{
    ascii_lower, chars_of, contains_chars, decimal, decimal_text, has_text, join_texts, joined,
    lower_chars, same_chars, texts,
};

verus! {

broadcast use vstd::std_specs::hash::group_hash_axioms;

/// A running process, as the operating system lists it.
#[derive(Debug)]
pub struct ProcessInfo {
    pub pid: u32,
    pub name: String,
    pub cmd: Vec<String>,
    pub parent: Option<u32>,
}

/// A `ProcessInfo` with its strings as plain text.
pub ghost struct ProcessView {
    pub pid: u32,
    pub name: Seq<char>,
    pub cmd: Seq<Seq<char>>,
    pub parent: Option<u32>,
}

impl View for ProcessInfo {
    type V = ProcessView;

    open spec fn view(&self) -> ProcessView {
        ProcessView { pid: self.pid, name: self.name@, cmd: texts(self.cmd@), parent: self.parent }
    }
}

/// The processes of a list as plain values.
pub open spec fn listed(processes: Seq<ProcessInfo>) -> Seq<ProcessView> {
    processes.map_values(|p: ProcessInfo| p@)
}

/// A command line that belongs to a WebView2 of this program: it names the program's profile
/// directory, or the program as the owner of the window. Letter case does not matter.
pub open spec fn cockpit_cmd(cmd_line: Seq<char>) -> bool {
    let lower = ascii_lower(cmd_line);
    ||| has_text(lower, "com.jlcodes.cockpit-tools"@) && has_text(lower, "ebwebview"@)
    ||| has_text(lower, "--webview-exe-name=cockpit-tools.exe"@)
}

impl ProcessView {
    /// The process is an instance of this program.
    pub open spec fn is_instance(self) -> bool {
        ascii_lower(self.name) == "cockpit-tools.exe"@
    }

    /// The process is a WebView2.
    pub open spec fn is_webview(self) -> bool {
        ascii_lower(self.name) == "msedgewebview2.exe"@
    }

    /// The arguments of the process on one line.
    pub open spec fn cmd_line(self) -> Seq<char> {
        joined(self.cmd, " "@)
    }
}

/// An instance of the program other than the current process runs.
pub open spec fn other_instance_runs(processes: Seq<ProcessView>, current_pid: u32) -> bool {
    exists|i: int|
        0 <= i < processes.len() && (#[trigger] processes[i]).is_instance() && processes[i].pid
            != current_pid
}

/// `pid` is the current process or another running instance of the program.
pub open spec fn active_pid(processes: Seq<ProcessView>, current_pid: u32, pid: u32) -> bool {
    ||| pid == current_pid
    ||| exists|i: int|
        0 <= i < processes.len() && (#[trigger] processes[i]).is_instance() && processes[i].pid
            == pid
}

/// `p` is a WebView2 of this program, and its window is gone: its parent is no running instance,
/// or no other instance runs at all.
pub open spec fn orphaned(
    processes: Seq<ProcessView>,
    current_pid: u32,
    p: ProcessView,
) -> bool {
    &&& p.pid != current_pid
    &&& p.is_webview()
    &&& cockpit_cmd(p.cmd_line())
    &&& {
        ||| p.parent is None
        ||| !active_pid(processes, current_pid, p.parent->0)
        ||| !other_instance_runs(processes, current_pid)
    }
}

/// `p` is a WebView2 that goes when the current process ends: a child of it, or one with a command
/// line of this program that is no child of another running instance. Those belong to the other
/// instance and are left alone.
pub open spec fn ends_with_current(
    processes: Seq<ProcessView>,
    current_pid: u32,
    p: ProcessView,
) -> bool {
    &&& p.pid != current_pid
    &&& p.is_webview()
    &&& {
        ||| p.parent == Some(current_pid)
        ||| cockpit_cmd(p.cmd_line()) && (p.parent is None || !active_pid(
            processes,
            current_pid,
            p.parent->0,
        ))
    }
}

/// The pids of the processes that `chosen` picks, in the order of the list.
pub open spec fn pids_of(
    processes: Seq<ProcessView>,
    chosen: spec_fn(ProcessView) -> bool,
) -> Seq<u32> {
    processes.filter(chosen).map_values(|p: ProcessView| p.pid)
}

/// The pids of the orphaned WebView2 processes, in the order of the list.
pub open spec fn orphaned_pids(processes: Seq<ProcessView>, current_pid: u32) -> Seq<u32> {
    pids_of(processes, |p: ProcessView| orphaned(processes, current_pid, p))
}

/// The pids of the WebView2 processes that go with the current process, in the order of the list.
pub open spec fn exit_pids(processes: Seq<ProcessView>, current_pid: u32) -> Seq<u32> {
    pids_of(processes, |p: ProcessView| ends_with_current(processes, current_pid, p))
}

/// The lock files in the `EBWebView` directory, each by the names that lead to it from there.
pub open spec fn lock_paths() -> Seq<Seq<Seq<char>>> {
    seq![seq!["lockfile"@], seq!["Default"@, "LOCK"@]]
}

/// What is cleared away before the window opens: processes to end, and then lock files to remove
/// from the `EBWebView` directory where they exist.
#[derive(Debug)]
pub struct OrphanCleanup {
    pub pids: Vec<u32>,
    pub lock_files: Vec<Vec<String>>,
}

/// An `OrphanCleanup` as plain values.
pub ghost struct CleanupView {
    pub pids: Seq<u32>,
    pub lock_files: Seq<Seq<Seq<char>>>,
}

impl View for OrphanCleanup {
    type V = CleanupView;

    open spec fn view(&self) -> CleanupView {
        CleanupView {
            pids: self.pids@,
            lock_files: self.lock_files@.map_values(|path: Vec<String>| texts(path@)),
        }
    }
}

/// What is cleared away before the window opens. Only Windows has WebView2, and lock files stay
/// while another instance runs.
pub open spec fn orphan_cleanup(
    platform: Platform,
    current_pid: u32,
    processes: Seq<ProcessView>,
) -> CleanupView {
    match platform {
        Platform::Windows => CleanupView {
            pids: orphaned_pids(processes, current_pid),
            lock_files: if other_instance_runs(processes, current_pid) {
                seq![]
            } else {
                lock_paths()
            },
        },
        Platform::Other => CleanupView { pids: seq![], lock_files: seq![] },
    }
}

/// Whether a command line belongs to a WebView2 of this program.
pub fn is_cockpit_webview2_cmd(cmd_line: &str) -> (r: bool)
    ensures
        r == cockpit_cmd(cmd_line@),
{
    let lower = lower_chars(cmd_line);
    (contains_chars(&lower, &chars_of("com.jlcodes.cockpit-tools")) && contains_chars(
        &lower,
        &chars_of("ebwebview"),
    )) || contains_chars(&lower, &chars_of("--webview-exe-name=cockpit-tools.exe"))
}

/// Whether a process has a name, which is given in small letters.
fn has_name(process: &ProcessInfo, name: &str) -> (r: bool)
    ensures
        r == (ascii_lower(process.name@) == name@),
{
    same_chars(&lower_chars(process.name.as_str()), &chars_of(name))
}

/// Whether the command line of a process belongs to a WebView2 of this program.
fn has_cockpit_cmd(process: &ProcessInfo) -> (r: bool)
    ensures
        r == cockpit_cmd(process@.cmd_line()),
{
    is_cockpit_webview2_cmd(join_texts(&process.cmd, " ").as_str())
}

/// The pids of all running instances of the program, the current process among them, and whether
/// there is another one than that.
fn running_instances(current_pid: u32, processes: &Vec<ProcessInfo>) -> (r: (HashSet<u32>, bool))
    ensures
        forall|pid: u32| #[trigger]
            r.0@.contains(pid) == active_pid(listed(processes@), current_pid, pid),
        r.1 == other_instance_runs(listed(processes@), current_pid),
{
    let ghost list = listed(processes@);
    let mut active: HashSet<u32> = HashSet::new();
    active.insert(current_pid);
    let mut others = false;
    let mut i: usize = 0;
    while i < processes.len()
        invariant
            i <= processes@.len(),
            list == listed(processes@),
            forall|pid: u32| #[trigger]
                active@.contains(pid) == active_pid(list.take(i as int), current_pid, pid),
            others == other_instance_runs(list.take(i as int), current_pid),
        decreases processes@.len() - i,
    {
        let process = &processes[i];
        let ghost before = list.take(i as int);
        let ghost after = list.take(i + 1);
        let ghost active_before = active@;
        assert(after =~= before.push(process@));
        if has_name(process, "cockpit-tools.exe") {
            active.insert(process.pid);
            if process.pid != current_pid {
                others = true;
            }
        }
        proof {
            assert(after[i as int] == process@);
            assert(forall|j: int| 0 <= j < i ==> #[trigger] before[j] == after[j]);
            assert forall|pid: u32| #[trigger]
                active@.contains(pid) == active_pid(after, current_pid, pid) by {
                if active_pid(before, current_pid, pid) && pid != current_pid {
                    let j = choose|j: int|
                        0 <= j < before.len() && (#[trigger] before[j]).is_instance()
                            && before[j].pid == pid;
                    assert(after[j].is_instance());
                }
                if active_pid(after, current_pid, pid) && pid != current_pid {
                    let j = choose|j: int|
                        0 <= j < after.len() && (#[trigger] after[j]).is_instance() && after[j].pid
                            == pid;
                    assert(j < i ==> before[j].is_instance());
                }
                assert(active_before.contains(pid) == active_pid(before, current_pid, pid));
            }
            if other_instance_runs(before, current_pid) {
                let j = choose|j: int|
                    0 <= j < before.len() && (#[trigger] before[j]).is_instance() && before[j].pid
                        != current_pid;
                assert(after[j].is_instance());
            }
        }
        i += 1;
    }
    assert(list.take(i as int) =~= list);
    (active, others)
}

/// Choosing from a list with one process more.
proof fn lemma_pids_of_push(
    processes: Seq<ProcessView>,
    chosen: spec_fn(ProcessView) -> bool,
    p: ProcessView,
)
    ensures
        pids_of(processes.push(p), chosen) == if chosen(p) {
            pids_of(processes, chosen).push(p.pid)
        } else {
            pids_of(processes, chosen)
        },
{
    reveal(Seq::filter);
    assert(processes.push(p).drop_last() =~= processes);
    assert(pids_of(processes.push(p), chosen) =~= if chosen(p) {
        pids_of(processes, chosen).push(p.pid)
    } else {
        pids_of(processes, chosen)
    });
}

/// The lock files in the `EBWebView` directory.
fn lock_file_paths() -> (r: Vec<Vec<String>>)
    ensures
        r@.map_values(|path: Vec<String>| texts(path@)) == lock_paths(),
{
    let mut top: Vec<String> = Vec::new();
    top.push("lockfile".to_owned());
    let mut nested: Vec<String> = Vec::new();
    nested.push("Default".to_owned());
    nested.push("LOCK".to_owned());
    assert(texts(top@) =~= lock_paths()[0]);
    assert(texts(nested@) =~= lock_paths()[1]);
    let mut paths: Vec<Vec<String>> = Vec::new();
    paths.push(top);
    paths.push(nested);
    assert(paths@.map_values(|path: Vec<String>| texts(path@)) =~= lock_paths());
    paths
}

/// What is cleared away before the window opens: every WebView2 of this program whose window is
/// gone, and the lock files unless another instance runs. Nothing on other systems than Windows.
pub fn cleanup_orphaned_webview2_processes(
    platform: Platform,
    current_pid: u32,
    processes: &Vec<ProcessInfo>,
) -> (r: OrphanCleanup)
    ensures
        r@ == orphan_cleanup(platform, current_pid, listed(processes@)),
{
    let mut pids: Vec<u32> = Vec::new();
    if let Platform::Other = platform {
        let lock_files: Vec<Vec<String>> = Vec::new();
        let cleanup = OrphanCleanup { pids, lock_files };
        assert(cleanup@.lock_files =~= seq![]);
        return cleanup;
    }
    let ghost list = listed(processes@);
    let ghost chosen = |p: ProcessView| orphaned(list, current_pid, p);
    let (active, others) = running_instances(current_pid, processes);
    let mut i: usize = 0;
    proof {
        reveal(Seq::filter);
        assert(pids@ =~= pids_of(list.take(0), chosen));
    }
    while i < processes.len()
        invariant
            i <= processes@.len(),
            list == listed(processes@),
            chosen == (|p: ProcessView| orphaned(list, current_pid, p)),
            forall|pid: u32| #[trigger]
                active@.contains(pid) == active_pid(list, current_pid, pid),
            others == other_instance_runs(list, current_pid),
            pids@ == pids_of(list.take(i as int), chosen),
        decreases processes@.len() - i,
    {
        let process = &processes[i];
        proof {
            lemma_pids_of_push(list.take(i as int), chosen, process@);
            assert(list.take(i + 1) =~= list.take(i as int).push(process@));
        }
        if process.pid != current_pid && has_name(process, "msedgewebview2.exe")
            && has_cockpit_cmd(process) {
            let parent_gone = match process.parent {
                Some(parent) => !active.contains(&parent),
                None => true,
            };
            if parent_gone || !others {
                pids.push(process.pid);
            }
        }
        i += 1;
    }
    assert(list.take(i as int) =~= list);
    let lock_files: Vec<Vec<String>> = if others {
        Vec::new()
    } else {
        lock_file_paths()
    };
    let cleanup = OrphanCleanup { pids, lock_files };
    assert(others ==> cleanup@.lock_files =~= seq![]);
    cleanup
}

/// The pids of the WebView2 processes that are ended when the current process ends. Those of
/// another running instance are left alone. None on other systems than Windows.
pub fn cleanup_current_webview2_processes(
    platform: Platform,
    current_pid: u32,
    processes: &Vec<ProcessInfo>,
) -> (r: Vec<u32>)
    ensures
        r@ == match platform {
            Platform::Windows => exit_pids(listed(processes@), current_pid),
            Platform::Other => seq![],
        },
{
    let mut pids: Vec<u32> = Vec::new();
    if let Platform::Other = platform {
        return pids;
    }
    let ghost list = listed(processes@);
    let ghost chosen = |p: ProcessView| ends_with_current(list, current_pid, p);
    let (active, _) = running_instances(current_pid, processes);
    let mut i: usize = 0;
    proof {
        reveal(Seq::filter);
        assert(pids@ =~= pids_of(list.take(0), chosen));
    }
    while i < processes.len()
        invariant
            i <= processes@.len(),
            list == listed(processes@),
            chosen == (|p: ProcessView| ends_with_current(list, current_pid, p)),
            forall|pid: u32| #[trigger]
                active@.contains(pid) == active_pid(list, current_pid, pid),
            pids@ == pids_of(list.take(i as int), chosen),
        decreases processes@.len() - i,
    {
        let process = &processes[i];
        proof {
            lemma_pids_of_push(list.take(i as int), chosen, process@);
            assert(list.take(i + 1) =~= list.take(i as int).push(process@));
        }
        if process.pid != current_pid && has_name(process, "msedgewebview2.exe") {
            let goes = match process.parent {
                Some(parent) => parent == current_pid || (!active.contains(&parent)
                    && has_cockpit_cmd(process)),
                None => has_cockpit_cmd(process),
            };
            if goes {
                pids.push(process.pid);
            }
        }
        i += 1;
    }
    assert(list.take(i as int) =~= list);
    pids
}

/// A lock file in the `EBWebView` directory, by the names that lead to it from there, and whether
/// it exists.
#[derive(Debug)]
pub struct LockSighting {
    pub path: Vec<String>,
    pub exists: bool,
}

/// The names that lead to the lock files of a list that exist, in the order of the list.
pub open spec fn existing_locks(seen: Seq<LockSighting>) -> Seq<Seq<Seq<char>>> {
    seen.filter(|lock: LockSighting| lock.exists).map_values(|lock: LockSighting| texts(lock.path@))
}

/// The lock files to remove, from what was seen of them: those that exist, where the `EBWebView`
/// directory exists itself.
pub fn lock_files_to_remove<'a>(
    dir_exists: bool,
    seen: &'a Vec<LockSighting>,
) -> (r: Vec<&'a Vec<String>>)
    ensures
        r@.map_values(|path: &Vec<String>| texts(path@)) == if dir_exists {
            existing_locks(seen@)
        } else {
            seq![]
        },
{
    let mut found: Vec<&'a Vec<String>> = Vec::new();
    let mut i: usize = 0;
    proof {
        reveal(Seq::filter);
        assert(found@.map_values(|path: &Vec<String>| texts(path@)) =~= existing_locks(
            seen@.take(0),
        ));
    }
    if !dir_exists {
        return found;
    }
    while i < seen.len()
        invariant
            i <= seen@.len(),
            found@.map_values(|path: &Vec<String>| texts(path@)) == existing_locks(
                seen@.take(i as int),
            ),
        decreases seen@.len() - i,
    {
        let ghost before = found@.map_values(|path: &Vec<String>| texts(path@));
        if seen[i].exists {
            found.push(&seen[i].path);
        }
        proof {
            reveal(Seq::filter);
            let lock = seen@[i as int];
            assert(seen@.take(i + 1).drop_last() =~= seen@.take(i as int));
            assert(existing_locks(seen@.take(i + 1)) =~= if lock.exists {
                before.push(texts(lock.path@))
            } else {
                before
            });
            assert(found@.map_values(|path: &Vec<String>| texts(path@)) =~= existing_locks(
                seen@.take(i + 1),
            ));
        }
        i += 1;
    }
    assert(seen@.take(i as int) =~= seen@);
    found
}

/// The command line that ends a process by force.
pub open spec fn kill_line(pid: u32) -> CommandLineView {
    CommandLineView {
        program: "taskkill"@,
        args: seq!["/F"@, "/PID"@, decimal(pid as nat)],
        directory: None,
        creation_flags: Some(CREATE_NO_WINDOW),
    }
}

/// The command line that ends a process by force. There is none for the system process 0 and for
/// the current process: those are never ended.
pub fn kill_pid_force(current_pid: u32, pid: u32) -> (r: Option<CommandLine<'static>>)
    ensures
        r is None <==> pid == 0 || pid == current_pid,
        r is Some ==> r->0@ == kill_line(pid),
{
    if pid == 0 || pid == current_pid {
        return None;
    }
    let mut args: Vec<String> = Vec::new();
    args.push("/F".to_owned());
    args.push("/PID".to_owned());
    args.push(decimal_text(pid as u64));
    assert(texts(args@) =~= kill_line(pid).args);
    Some(
        CommandLine {
            program: "taskkill".to_owned(),
            args,
            directory: None,
            creation_flags: Some(CREATE_NO_WINDOW),
        },
    )
}

/// Whether a process was ended. `status` says whether its kill command exited with success, and is
/// `None` where no command was started.
pub fn kill_succeeded(status: Option<bool>) -> (r: bool)
    ensures
        r == (status == Some(true)),
{
    match status {
        Some(success) => success,
        None => false,
    }
}

} // verus!
