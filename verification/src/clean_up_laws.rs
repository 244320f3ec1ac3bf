//! Laws of the clean-up, on the listed processes themselves: their names, pids, parents and
//! arguments.
use vstd::prelude::*;

use crate::command::{Platform, CREATE_NO_WINDOW};
use crate::text::{ascii_lower, decimal, has_text, joined, texts};
use crate::text_laws::{
    digits_read_back, each_part_stands_in_the_whole, found_in_a_part_is_found,
    lower_case_of_joined_texts, number_read, parts_of_what_is_found_are_found,
};
use crate::webview2_maintenance::{
    active_pid, cockpit_cmd, ends_with_current, existing_locks, exit_pids, kill_line, listed,
    orphan_cleanup, orphaned, orphaned_pids, other_instance_runs, pids_of, LockSighting,
    OrphanCleanup, ProcessInfo, ProcessView,
};
use crate::webview2_maintenance_laws::pids_of_holds_the_chosen;

verus! {

/// Where the entries that a filter keeps stand in the list.
proof fn lemma_filter_positions<A>(s: Seq<A>, keep: spec_fn(A) -> bool) -> (at: Seq<int>)
    ensures
        at.len() == s.filter(keep).len(),
        forall|j: int, k: int| 0 <= j < k < at.len() ==> #[trigger] at[j] < #[trigger] at[k],
        forall|k: int|
            0 <= k < at.len() ==> 0 <= #[trigger] at[k] < s.len() && keep(s[at[k]]) && s.filter(
                keep,
            )[k] == s[at[k]],
        forall|i: int| 0 <= i < s.len() && keep(#[trigger] s[i]) ==> at.contains(i),
    decreases s.len(),
{
    reveal(Seq::filter);
    if s.len() == 0 {
        seq![]
    } else {
        let shorter = s.drop_last();
        let last = s.len() - 1;
        let earlier = lemma_filter_positions(shorter, keep);
        assert(forall|i: int| 0 <= i < last ==> #[trigger] s[i] == shorter[i]);
        if keep(s[last]) {
            let at = earlier.push(last);
            assert forall|i: int| 0 <= i < s.len() && keep(#[trigger] s[i]) implies at.contains(
                i,
            ) by {
                if i < last {
                    assert(keep(shorter[i]));
                    let k = choose|k: int| 0 <= k < earlier.len() && earlier[k] == i;
                    assert(at[k] == i);
                } else {
                    assert(at[earlier.len() as int] == i);
                }
            }
            at
        } else {
            assert forall|i: int| 0 <= i < s.len() && keep(
                #[trigger] s[i],
            ) implies earlier.contains(i) by {
                assert(keep(shorter[i]));
            }
            earlier
        }
    }
}

/// The instances of the program, by the names and pids in the list.
proof fn lemma_instances_listed(current_pid: u32, processes: Seq<ProcessInfo>)
    ensures
        other_instance_runs(listed(processes), current_pid) <==> exists|j: int|
            0 <= j < processes.len() && ascii_lower((#[trigger] processes[j]).name@)
                == "cockpit-tools.exe"@ && processes[j].pid != current_pid,
        forall|pid: u32| #[trigger]
            active_pid(listed(processes), current_pid, pid) <==> (pid == current_pid || exists|
                j: int,
            |
                0 <= j < processes.len() && ascii_lower((#[trigger] processes[j]).name@)
                    == "cockpit-tools.exe"@ && processes[j].pid == pid),
{
    let list = listed(processes);
    assert(list.len() == processes.len());
    assert(forall|j: int| 0 <= j < processes.len() ==> #[trigger] list[j] == processes[j]@);
    if exists|j: int|
        0 <= j < processes.len() && ascii_lower((#[trigger] processes[j]).name@)
            == "cockpit-tools.exe"@ && processes[j].pid != current_pid {
        let j = choose|j: int|
            0 <= j < processes.len() && ascii_lower((#[trigger] processes[j]).name@)
                == "cockpit-tools.exe"@ && processes[j].pid != current_pid;
        assert(list[j].is_instance());
    }
    if other_instance_runs(list, current_pid) {
        let j = choose|j: int|
            0 <= j < list.len() && (#[trigger] list[j]).is_instance() && list[j].pid
                != current_pid;
        assert(ascii_lower(processes[j].name@) == "cockpit-tools.exe"@);
    }
    assert forall|pid: u32| #[trigger]
        active_pid(list, current_pid, pid) <==> (pid == current_pid || exists|j: int|
            0 <= j < processes.len() && ascii_lower((#[trigger] processes[j]).name@)
                == "cockpit-tools.exe"@ && processes[j].pid == pid) by {
        if exists|j: int|
            0 <= j < processes.len() && ascii_lower((#[trigger] processes[j]).name@)
                == "cockpit-tools.exe"@ && processes[j].pid == pid {
            let j = choose|j: int|
                0 <= j < processes.len() && ascii_lower((#[trigger] processes[j]).name@)
                    == "cockpit-tools.exe"@ && processes[j].pid == pid;
            assert(list[j].is_instance());
        }
        if active_pid(list, current_pid, pid) && pid != current_pid {
            let j = choose|j: int|
                0 <= j < list.len() && (#[trigger] list[j]).is_instance() && list[j].pid == pid;
            assert(ascii_lower(processes[j].name@) == "cockpit-tools.exe"@);
        }
    }
}

/// The processes that are ended before the window opens, by their places in the list. In the order
/// of the list they are those named `msedgewebview2.exe`, other than the current process, whose
/// arguments hold the marks of this program, and of which one of these is true: they have no
/// parent; their parent is neither the current process nor named `cockpit-tools.exe` in the list;
/// no process of that name but the current one is in the list.
pub proof fn ended_before_the_window_opens(
    current_pid: u32,
    processes: Seq<ProcessInfo>,
) -> (at: Seq<int>)
    ensures
        ({
            let pids = orphan_cleanup(Platform::Windows, current_pid, listed(processes)).pids;
            let goes = |i: int|
                {
                    let p = processes[i];
                    let line = ascii_lower(joined(texts(p.cmd@), " "@));
                    &&& p.pid != current_pid
                    &&& ascii_lower(p.name@) == "msedgewebview2.exe"@
                    &&& (has_text(line, "com.jlcodes.cockpit-tools"@) && has_text(
                        line,
                        "ebwebview"@,
                    )) || has_text(line, "--webview-exe-name=cockpit-tools.exe"@)
                    &&& {
                        ||| p.parent is None
                        ||| p.parent->0 != current_pid && forall|j: int|
                            0 <= j < processes.len() && ascii_lower((#[trigger] processes[j]).name@)
                                == "cockpit-tools.exe"@ ==> processes[j].pid != p.parent->0
                        ||| forall|j: int|
                            0 <= j < processes.len() && ascii_lower((#[trigger] processes[j]).name@)
                                == "cockpit-tools.exe"@ ==> processes[j].pid == current_pid
                    }
                };
            &&& at.len() == pids.len()
            &&& forall|j: int, k: int| 0 <= j < k < at.len() ==> #[trigger] at[j] < #[trigger] at[k]
            &&& forall|k: int|
                0 <= k < at.len() ==> 0 <= #[trigger] at[k] < processes.len() && goes(at[k])
                    && pids[k] == processes[at[k]].pid
            &&& forall|i: int|
                0 <= i < processes.len() && #[trigger] goes(i) ==> at.contains(i)
        }),
{
    let list = listed(processes);
    let chosen = |p: ProcessView| orphaned(list, current_pid, p);
    lemma_instances_listed(current_pid, processes);
    let at = lemma_filter_positions(list, chosen);
    assert(forall|i: int| 0 <= i < processes.len() ==> #[trigger] list[i] == processes[i]@);
    assert(orphaned_pids(list, current_pid) == pids_of(list, chosen));
    assert(forall|i: int| 0 <= i < list.len() && chosen(list[i]) ==> #[trigger] at.contains(i));
    at
}

/// The processes that are ended when the current process ends, by their places in the list. In the
/// order of the list they are those named `msedgewebview2.exe`, other than the current process,
/// that are a child of it, or whose arguments hold the marks of this program while their parent,
/// if any, is not named `cockpit-tools.exe` in the list.
pub proof fn ended_on_exit(current_pid: u32, processes: Seq<ProcessInfo>) -> (at: Seq<int>)
    ensures
        ({
            let pids = exit_pids(listed(processes), current_pid);
            let goes = |i: int|
                {
                    let p = processes[i];
                    let line = ascii_lower(joined(texts(p.cmd@), " "@));
                    &&& p.pid != current_pid
                    &&& ascii_lower(p.name@) == "msedgewebview2.exe"@
                    &&& {
                        ||| p.parent == Some(current_pid)
                        ||| {
                            &&& (has_text(line, "com.jlcodes.cockpit-tools"@) && has_text(
                                line,
                                "ebwebview"@,
                            )) || has_text(line, "--webview-exe-name=cockpit-tools.exe"@)
                            &&& p.parent is Some ==> forall|j: int|
                                0 <= j < processes.len() && ascii_lower(
                                    (#[trigger] processes[j]).name@,
                                ) == "cockpit-tools.exe"@ ==> processes[j].pid != p.parent->0
                        }
                    }
                };
            &&& at.len() == pids.len()
            &&& forall|j: int, k: int| 0 <= j < k < at.len() ==> #[trigger] at[j] < #[trigger] at[k]
            &&& forall|k: int|
                0 <= k < at.len() ==> 0 <= #[trigger] at[k] < processes.len() && goes(at[k])
                    && pids[k] == processes[at[k]].pid
            &&& forall|i: int|
                0 <= i < processes.len() && #[trigger] goes(i) ==> at.contains(i)
        }),
{
    let list = listed(processes);
    let chosen = |p: ProcessView| ends_with_current(list, current_pid, p);
    lemma_instances_listed(current_pid, processes);
    let at = lemma_filter_positions(list, chosen);
    assert(forall|i: int| 0 <= i < processes.len() ==> #[trigger] list[i] == processes[i]@);
    assert(exit_pids(list, current_pid) == pids_of(list, chosen));
    assert(forall|i: int| 0 <= i < list.len() && chosen(list[i]) ==> #[trigger] at.contains(i));
    at
}

/// The lock files go if and only if this is Windows and the list holds no process named
/// `cockpit-tools.exe` but the current one. They are then these two, in this order.
pub proof fn lock_files_that_go(
    platform: Platform,
    current_pid: u32,
    processes: Seq<ProcessInfo>,
)
    ensures
        ({
            let locks = orphan_cleanup(platform, current_pid, listed(processes)).lock_files;
            if platform == Platform::Windows && forall|j: int|
                0 <= j < processes.len() && ascii_lower((#[trigger] processes[j]).name@)
                    == "cockpit-tools.exe"@ ==> processes[j].pid == current_pid {
                &&& locks.len() == 2
                &&& locks[0] == seq!["lockfile"@]
                &&& locks[1] == seq!["Default"@, "LOCK"@]
            } else {
                locks.len() == 0
            }
        }),
{
    lemma_instances_listed(current_pid, processes);
}

/// Nothing is cleared away on other systems than Windows, whatever runs.
pub proof fn nothing_goes_on_other_systems(current_pid: u32, processes: Seq<ProcessInfo>)
    ensures
        orphan_cleanup(Platform::Other, current_pid, listed(processes)).pids.len() == 0,
        orphan_cleanup(Platform::Other, current_pid, listed(processes)).lock_files.len() == 0,
{
}

/// A process named `cockpit-tools.exe` other than the current one, whatever its arguments and its
/// parent, keeps the lock files, and it keeps the processes that it is the parent of: at start and
/// on exit.
pub proof fn running_instance_keeps_its_own(
    platform: Platform,
    current_pid: u32,
    processes: Seq<ProcessInfo>,
    i: int,
    child: int,
)
    requires
        0 <= i < processes.len(),
        ascii_lower(processes[i].name@) == "cockpit-tools.exe"@,
        processes[i].pid != current_pid,
        0 <= child < processes.len(),
        processes[child].parent == Some(processes[i].pid),
        forall|j: int, k: int|
            0 <= j < k < processes.len() ==> (#[trigger] processes[j]).pid != (
            #[trigger] processes[k]).pid,
    ensures
        orphan_cleanup(platform, current_pid, listed(processes)).lock_files.len() == 0,
        !orphan_cleanup(platform, current_pid, listed(processes)).pids.contains(
            processes[child].pid,
        ),
        !exit_pids(listed(processes), current_pid).contains(processes[child].pid),
{
    let list = listed(processes);
    lemma_instances_listed(current_pid, processes);
    assert(active_pid(list, current_pid, processes[i].pid));
    assert(forall|j: int| 0 <= j < processes.len() ==> #[trigger] list[j] == processes[j]@);
    let orphan = |p: ProcessView| orphaned(list, current_pid, p);
    let exits = |p: ProcessView| ends_with_current(list, current_pid, p);
    let pid = processes[child].pid;
    pids_of_holds_the_chosen(list, orphan, pid);
    pids_of_holds_the_chosen(list, exits, pid);
    assert forall|j: int| 0 <= j < list.len() && (#[trigger] list[j]).pid == pid implies !orphan(
        list[j],
    ) && !exits(list[j]) by {
        assert(processes[j].pid == processes[child].pid);
        assert(j == child);
    }
}

/// A text that is found in one argument, without regard to letter case, is found in all arguments
/// on one line.
proof fn lemma_found_in_an_argument(cmd: Seq<String>, k: int, pattern: Seq<char>)
    requires
        0 <= k < cmd.len(),
        has_text(ascii_lower(cmd[k]@), pattern),
    ensures
        has_text(ascii_lower(joined(texts(cmd), " "@)), pattern),
{
    let parts = texts(cmd);
    each_part_stands_in_the_whole(parts, " "@, k);
    let (b, a) = choose|b: Seq<char>, a: Seq<char>|
        joined(parts, " "@) == #[trigger] (b + parts[k] + a);
    lower_case_of_joined_texts(b + parts[k], a);
    lower_case_of_joined_texts(b, parts[k]);
    found_in_a_part_is_found(ascii_lower(b), ascii_lower(parts[k]), ascii_lower(a), pattern);
}

/// One argument is enough, at any place: where it names this program as the owner of the window,
/// or holds both marks of the profile directory, a process named `msedgewebview2.exe` whose parent
/// is neither the current process nor named `cockpit-tools.exe` goes at start and on exit.
pub proof fn one_argument_is_enough(
    current_pid: u32,
    processes: Seq<ProcessInfo>,
    i: int,
    k: int,
)
    requires
        0 <= i < processes.len(),
        ascii_lower(processes[i].name@) == "msedgewebview2.exe"@,
        processes[i].pid != current_pid,
        processes[i].parent is Some ==> processes[i].parent->0 != current_pid,
        processes[i].parent is Some ==> forall|j: int|
            0 <= j < processes.len() && ascii_lower((#[trigger] processes[j]).name@)
                == "cockpit-tools.exe"@ ==> processes[j].pid != processes[i].parent->0,
        0 <= k < processes[i].cmd@.len(),
        has_text(
            ascii_lower(processes[i].cmd@[k]@),
            "--webview-exe-name=cockpit-tools.exe"@,
        ) || (has_text(ascii_lower(processes[i].cmd@[k]@), "com.jlcodes.cockpit-tools"@)
            && has_text(ascii_lower(processes[i].cmd@[k]@), "ebwebview"@)),
    ensures
        orphan_cleanup(Platform::Windows, current_pid, listed(processes)).pids.contains(
            processes[i].pid,
        ),
        exit_pids(listed(processes), current_pid).contains(processes[i].pid),
{
    let list = listed(processes);
    let p = processes[i];
    let arg = ascii_lower(p.cmd@[k]@);
    lemma_instances_listed(current_pid, processes);
    if has_text(arg, "--webview-exe-name=cockpit-tools.exe"@) {
        lemma_found_in_an_argument(p.cmd@, k, "--webview-exe-name=cockpit-tools.exe"@);
    } else {
        lemma_found_in_an_argument(p.cmd@, k, "com.jlcodes.cockpit-tools"@);
        lemma_found_in_an_argument(p.cmd@, k, "ebwebview"@);
    }
    assert(list[i] == p@);
    let orphan = |q: ProcessView| orphaned(list, current_pid, q);
    let exits = |q: ProcessView| ends_with_current(list, current_pid, q);
    pids_of_holds_the_chosen(list, orphan, p.pid);
    pids_of_holds_the_chosen(list, exits, p.pid);
    assert(orphan(list[i]) && exits(list[i]));
}

/// The two marks of the profile directory may stand in different arguments.
pub proof fn marks_may_stand_apart(
    current_pid: u32,
    processes: Seq<ProcessInfo>,
    i: int,
    k: int,
    l: int,
)
    requires
        0 <= i < processes.len(),
        ascii_lower(processes[i].name@) == "msedgewebview2.exe"@,
        processes[i].pid != current_pid,
        processes[i].parent is None,
        0 <= k < processes[i].cmd@.len(),
        0 <= l < processes[i].cmd@.len(),
        has_text(ascii_lower(processes[i].cmd@[k]@), "com.jlcodes.cockpit-tools"@),
        has_text(ascii_lower(processes[i].cmd@[l]@), "ebwebview"@),
    ensures
        orphan_cleanup(Platform::Windows, current_pid, listed(processes)).pids.contains(
            processes[i].pid,
        ),
        exit_pids(listed(processes), current_pid).contains(processes[i].pid),
{
    let list = listed(processes);
    let p = processes[i];
    lemma_found_in_an_argument(p.cmd@, k, "com.jlcodes.cockpit-tools"@);
    lemma_found_in_an_argument(p.cmd@, l, "ebwebview"@);
    assert(list[i] == p@);
    let orphan = |q: ProcessView| orphaned(list, current_pid, q);
    let exits = |q: ProcessView| ends_with_current(list, current_pid, q);
    pids_of_holds_the_chosen(list, orphan, p.pid);
    pids_of_holds_the_chosen(list, exits, p.pid);
    assert(orphan(list[i]) && exits(list[i]));
}

/// A command line is one of this program if and only if, without regard to letter case, it names
/// the program as the owner of the window, or names both the program's directory and the profile
/// directory.
pub proof fn marks_of_a_command(cmd_line: Seq<char>)
    ensures
        has_text(ascii_lower(cmd_line), "--webview-exe-name=cockpit-tools.exe"@) ==> cockpit_cmd(
            cmd_line,
        ),
        has_text(ascii_lower(cmd_line), "com.jlcodes.cockpit-tools"@) && has_text(
            ascii_lower(cmd_line),
            "ebwebview"@,
        ) ==> cockpit_cmd(cmd_line),
        !has_text(ascii_lower(cmd_line), "--webview-exe-name=cockpit-tools.exe"@) && !has_text(
            ascii_lower(cmd_line),
            "com.jlcodes.cockpit-tools"@,
        ) ==> !cockpit_cmd(cmd_line),
        !has_text(ascii_lower(cmd_line), "--webview-exe-name=cockpit-tools.exe"@) && !has_text(
            ascii_lower(cmd_line),
            "ebwebview"@,
        ) ==> !cockpit_cmd(cmd_line),
{
}

/// A command line in which `cockpit-tools` does not stand, in any letter case, is never one of
/// this program.
pub proof fn command_without_the_name_is_foreign(cmd_line: Seq<char>)
    requires
        !has_text(ascii_lower(cmd_line), "cockpit-tools"@),
    ensures
        !cockpit_cmd(cmd_line),
{
    let lower = ascii_lower(cmd_line);
    let nothing = Seq::<char>::empty();
    reveal_strlit("cockpit-tools");
    reveal_strlit("com.jlcodes.");
    reveal_strlit("com.jlcodes.cockpit-tools");
    reveal_strlit("--webview-exe-name=");
    reveal_strlit(".exe");
    reveal_strlit("--webview-exe-name=cockpit-tools.exe");
    assert("com.jlcodes.cockpit-tools"@ =~= "com.jlcodes."@ + "cockpit-tools"@ + nothing);
    assert("--webview-exe-name=cockpit-tools.exe"@ =~= "--webview-exe-name="@ + "cockpit-tools"@
        + ".exe"@);
    if has_text(lower, "com.jlcodes.cockpit-tools"@) {
        parts_of_what_is_found_are_found(lower, "com.jlcodes."@, "cockpit-tools"@, nothing);
    }
    if has_text(lower, "--webview-exe-name=cockpit-tools.exe"@) {
        parts_of_what_is_found_are_found(
            lower,
            "--webview-exe-name="@,
            "cockpit-tools"@,
            ".exe"@,
        );
    }
}

/// A process in whose arguments `cockpit-tools` does not stand, in any letter case, stays at
/// start; it stays on exit too unless it is a child of the current process.
pub proof fn processes_without_the_name_stay(
    platform: Platform,
    current_pid: u32,
    processes: Seq<ProcessInfo>,
    i: int,
)
    requires
        0 <= i < processes.len(),
        !has_text(ascii_lower(joined(texts(processes[i].cmd@), " "@)), "cockpit-tools"@),
        forall|j: int, k: int|
            0 <= j < k < processes.len() ==> (#[trigger] processes[j]).pid != (
            #[trigger] processes[k]).pid,
    ensures
        !orphan_cleanup(platform, current_pid, listed(processes)).pids.contains(processes[i].pid),
        processes[i].parent != Some(current_pid) ==> !exit_pids(
            listed(processes),
            current_pid,
        ).contains(processes[i].pid),
{
    let list = listed(processes);
    let pid = processes[i].pid;
    command_without_the_name_is_foreign(joined(texts(processes[i].cmd@), " "@));
    assert(forall|j: int| 0 <= j < processes.len() ==> #[trigger] list[j] == processes[j]@);
    let orphan = |p: ProcessView| orphaned(list, current_pid, p);
    let exits = |p: ProcessView| ends_with_current(list, current_pid, p);
    pids_of_holds_the_chosen(list, orphan, pid);
    pids_of_holds_the_chosen(list, exits, pid);
    assert forall|j: int| 0 <= j < list.len() && (#[trigger] list[j]).pid == pid implies j == i by {
        assert(processes[j].pid == processes[i].pid);
    }
}

/// The lock files that exist are all among those to remove, whatever else is in the list, and
/// nothing else is. They come in the order of the list, each as often as it is there.
pub proof fn locks_that_exist_go(seen: Seq<LockSighting>) -> (at: Seq<int>)
    ensures
        at.len() == existing_locks(seen).len(),
        forall|j: int, k: int| 0 <= j < k < at.len() ==> #[trigger] at[j] < #[trigger] at[k],
        forall|k: int|
            0 <= k < at.len() ==> 0 <= #[trigger] at[k] < seen.len() && seen[at[k]].exists
                && existing_locks(seen)[k] == texts(seen[at[k]].path@),
        forall|i: int| 0 <= i < seen.len() && (#[trigger] seen[i]).exists ==> at.contains(i),
        forall|i: int|
            0 <= i < seen.len() && (#[trigger] seen[i]).exists ==> existing_locks(seen).contains(
                texts(seen[i].path@),
            ),
{
    let there = |lock: LockSighting| lock.exists;
    let at = lemma_filter_positions(seen, there);
    assert forall|i: int| 0 <= i < seen.len() && (#[trigger] seen[i]).exists implies at.contains(
        i,
    ) && existing_locks(seen).contains(texts(seen[i].path@)) by {
        assert(there(seen[i]));
        let k = choose|k: int| 0 <= k < at.len() && at[k] == i;
        assert(existing_locks(seen)[k] == texts(seen[i].path@));
    }
    at
}

/// One lock file more changes nothing about the others.
pub proof fn locks_are_judged_one_by_one(seen: Seq<LockSighting>, lock: LockSighting)
    ensures
        existing_locks(seen.push(lock)) == if lock.exists {
            existing_locks(seen).push(texts(lock.path@))
        } else {
            existing_locks(seen)
        },
        existing_locks(Seq::<LockSighting>::empty()).len() == 0,
{
    reveal(Seq::filter);
    assert(seen.push(lock).drop_last() =~= seen);
    assert(existing_locks(seen.push(lock)) =~= if lock.exists {
        existing_locks(seen).push(texts(lock.path@))
    } else {
        existing_locks(seen)
    });
}

/// The command that ends a process is `taskkill` by force, without a window and without a
/// directory of its own, and its last argument reads as the pid.
pub proof fn kill_command_reads_as_its_pid(pid: u32)
    ensures
        kill_line(pid).program == "taskkill"@,
        kill_line(pid).args.len() == 3,
        kill_line(pid).args[0] == "/F"@,
        kill_line(pid).args[1] == "/PID"@,
        number_read(kill_line(pid).args[2]) == pid,
        kill_line(pid).args[2] == decimal(pid as nat),
        kill_line(pid).directory is None,
        kill_line(pid).creation_flags == Some(0x0800_0000u32),
        CREATE_NO_WINDOW == 0x0800_0000,
{
    digits_read_back(pid as nat);
}

/// What is cleared away is shown as it is: each pid, and each name on the way to each lock file.
pub proof fn cleanup_is_shown_as_it_is(cleanup: OrphanCleanup)
    ensures
        cleanup@.pids == cleanup.pids@,
        cleanup@.lock_files.len() == cleanup.lock_files@.len(),
        forall|i: int|
            0 <= i < cleanup.lock_files@.len() ==> (#[trigger] cleanup@.lock_files[i]).len()
                == cleanup.lock_files@[i]@.len(),
        forall|i: int, j: int|
            0 <= i < cleanup.lock_files@.len() && 0 <= j < cleanup.lock_files@[i]@.len()
                ==> #[trigger] cleanup@.lock_files[i][j] == cleanup.lock_files@[i]@[j]@,
{
}

} // verus!
