//! Laws of the WebView2 clean-up.
use vstd::prelude::*;

use crate::command::Platform;
use crate::text::{ascii_lower, has_text, occurs_at};
use crate::webview2_maintenance::{
    active_pid, cockpit_cmd, ends_with_current, exit_pids, lock_paths, orphan_cleanup, orphaned,
    orphaned_pids, other_instance_runs, pids_of, ProcessView,
};

verus! {

/// No two processes of the list have the same pid.
pub open spec fn distinct_pids(processes: Seq<ProcessView>) -> bool {
    forall|i: int, j: int|
        0 <= i < j < processes.len() ==> (#[trigger] processes[i]).pid != (
        #[trigger] processes[j]).pid
}

/// A pid is picked if and only if a picked process has it.
pub proof fn pids_of_holds_the_chosen(
    processes: Seq<ProcessView>,
    chosen: spec_fn(ProcessView) -> bool,
    pid: u32,
)
    ensures
        pids_of(processes, chosen).contains(pid) <==> exists|i: int|
            0 <= i < processes.len() && chosen(#[trigger] processes[i]) && processes[i].pid == pid,
{
    broadcast use vstd::seq_lib::group_filter_ensures;

    let kept = processes.filter(chosen);
    let pids = pids_of(processes, chosen);
    if pids.contains(pid) {
        let k = choose|k: int| 0 <= k < pids.len() && pids[k] == pid;
        assert(kept[k].pid == pid && chosen(kept[k]));
        assert(kept.contains(kept[k]));
        processes.lemma_filter_contains_rev(chosen, kept[k]);
        let i = choose|i: int| 0 <= i < processes.len() && processes[i] == kept[k];
        assert(chosen(processes[i]));
    }
    if exists|i: int|
        0 <= i < processes.len() && chosen(#[trigger] processes[i]) && processes[i].pid == pid {
        let i = choose|i: int|
            0 <= i < processes.len() && chosen(#[trigger] processes[i]) && processes[i].pid == pid;
        assert(kept.contains(processes[i]));
        let k = choose|k: int| 0 <= k < kept.len() && kept[k] == processes[i];
        assert(pids[k] == pid);
    }
}

/// Neither clean-up ever names the current process.
pub proof fn current_process_is_never_ended(
    platform: Platform,
    current_pid: u32,
    processes: Seq<ProcessView>,
)
    ensures
        !orphan_cleanup(platform, current_pid, processes).pids.contains(current_pid),
        !exit_pids(processes, current_pid).contains(current_pid),
{
    pids_of_holds_the_chosen(
        processes,
        |p: ProcessView| orphaned(processes, current_pid, p),
        current_pid,
    );
    pids_of_holds_the_chosen(
        processes,
        |p: ProcessView| ends_with_current(processes, current_pid, p),
        current_pid,
    );
}

/// Only WebView2 processes of this program are ended before the window opens: whatever else runs,
/// a WebView2 of another program among it, is left alone.
pub proof fn other_programs_are_left_alone(
    platform: Platform,
    current_pid: u32,
    processes: Seq<ProcessView>,
    i: int,
)
    requires
        distinct_pids(processes),
        0 <= i < processes.len(),
        !processes[i].is_webview() || !cockpit_cmd(processes[i].cmd_line()),
    ensures
        !orphan_cleanup(platform, current_pid, processes).pids.contains(processes[i].pid),
{
    pids_of_holds_the_chosen(
        processes,
        |p: ProcessView| orphaned(processes, current_pid, p),
        processes[i].pid,
    );
}

/// While another instance runs, a WebView2 whose parent is a running instance keeps its window.
pub proof fn windows_of_running_instances_stay(
    platform: Platform,
    current_pid: u32,
    processes: Seq<ProcessView>,
    i: int,
)
    requires
        distinct_pids(processes),
        other_instance_runs(processes, current_pid),
        0 <= i < processes.len(),
        processes[i].parent is Some,
        active_pid(processes, current_pid, processes[i].parent->0),
    ensures
        !orphan_cleanup(platform, current_pid, processes).pids.contains(processes[i].pid),
{
    pids_of_holds_the_chosen(
        processes,
        |p: ProcessView| orphaned(processes, current_pid, p),
        processes[i].pid,
    );
}

/// When the current process ends, a WebView2 whose parent is another running instance keeps its
/// window.
pub proof fn windows_of_other_instances_stay_on_exit(
    current_pid: u32,
    processes: Seq<ProcessView>,
    i: int,
)
    requires
        distinct_pids(processes),
        0 <= i < processes.len(),
        processes[i].parent is Some,
        processes[i].parent->0 != current_pid,
        active_pid(processes, current_pid, processes[i].parent->0),
    ensures
        !exit_pids(processes, current_pid).contains(processes[i].pid),
{
    pids_of_holds_the_chosen(
        processes,
        |p: ProcessView| ends_with_current(processes, current_pid, p),
        processes[i].pid,
    );
}

/// When the current process ends, every WebView2 that is a child of it goes.
pub proof fn own_webviews_go_on_exit(current_pid: u32, processes: Seq<ProcessView>, i: int)
    requires
        0 <= i < processes.len(),
        processes[i].pid != current_pid,
        processes[i].is_webview(),
        processes[i].parent == Some(current_pid),
    ensures
        exit_pids(processes, current_pid).contains(processes[i].pid),
{
    let chosen = |p: ProcessView| ends_with_current(processes, current_pid, p);
    pids_of_holds_the_chosen(processes, chosen, processes[i].pid);
    assert(chosen(processes[i]));
}

/// When the current process ends, nothing goes but WebView2 processes that are a child of it or
/// have a command line of this program.
pub proof fn other_programs_are_left_alone_on_exit(
    current_pid: u32,
    processes: Seq<ProcessView>,
    i: int,
)
    requires
        distinct_pids(processes),
        0 <= i < processes.len(),
        !processes[i].is_webview() || (processes[i].parent != Some(current_pid) && !cockpit_cmd(
            processes[i].cmd_line(),
        )),
    ensures
        !exit_pids(processes, current_pid).contains(processes[i].pid),
{
    pids_of_holds_the_chosen(
        processes,
        |p: ProcessView| ends_with_current(processes, current_pid, p),
        processes[i].pid,
    );
}

/// A WebView2 of this program whose parent is missing, dead or no running instance is an orphan,
/// whether another instance runs or not.
pub proof fn parentless_webviews_are_orphans(
    current_pid: u32,
    processes: Seq<ProcessView>,
    i: int,
)
    requires
        0 <= i < processes.len(),
        processes[i].pid != current_pid,
        processes[i].is_webview(),
        cockpit_cmd(processes[i].cmd_line()),
        processes[i].parent is None || !active_pid(
            processes,
            current_pid,
            processes[i].parent->0,
        ),
    ensures
        orphan_cleanup(Platform::Windows, current_pid, processes).pids.contains(processes[i].pid),
{
    let chosen = |p: ProcessView| orphaned(processes, current_pid, p);
    pids_of_holds_the_chosen(processes, chosen, processes[i].pid);
    assert(chosen(processes[i]));
}

/// While no other instance runs, every WebView2 of this program is an orphan.
pub proof fn lone_instance_ends_all_webviews(
    current_pid: u32,
    processes: Seq<ProcessView>,
    i: int,
)
    requires
        !other_instance_runs(processes, current_pid),
        0 <= i < processes.len(),
        processes[i].pid != current_pid,
        processes[i].is_webview(),
        cockpit_cmd(processes[i].cmd_line()),
    ensures
        orphan_cleanup(Platform::Windows, current_pid, processes).pids.contains(processes[i].pid),
{
    let chosen = |p: ProcessView| orphaned(processes, current_pid, p);
    pids_of_holds_the_chosen(processes, chosen, processes[i].pid);
    assert(chosen(processes[i]));
}

/// Lock files are removed all together or not at all, and only on Windows while no other instance
/// runs.
pub proof fn lock_files_need_a_lone_instance(
    platform: Platform,
    current_pid: u32,
    processes: Seq<ProcessView>,
)
    ensures
        orphan_cleanup(platform, current_pid, processes).lock_files.len() > 0 <==> platform
            == Platform::Windows && !other_instance_runs(processes, current_pid),
        orphan_cleanup(platform, current_pid, processes).lock_files.len() > 0
            ==> orphan_cleanup(platform, current_pid, processes).lock_files == lock_paths(),
{
}

/// What is an orphan when the program starts also goes when it ends.
pub proof fn orphans_go_on_exit_too(current_pid: u32, processes: Seq<ProcessView>, pid: u32)
    requires
        orphaned_pids(processes, current_pid).contains(pid),
    ensures
        exit_pids(processes, current_pid).contains(pid),
{
    let orphan = |p: ProcessView| orphaned(processes, current_pid, p);
    let exits = |p: ProcessView| ends_with_current(processes, current_pid, p);
    pids_of_holds_the_chosen(processes, orphan, pid);
    pids_of_holds_the_chosen(processes, exits, pid);
    let i = choose|i: int|
        0 <= i < processes.len() && orphan(#[trigger] processes[i]) && processes[i].pid == pid;
    assert(exits(processes[i]));
}

/// Letter case does not matter in a command line.
pub proof fn letter_case_does_not_matter(a: Seq<char>, b: Seq<char>)
    requires
        ascii_lower(a) == ascii_lower(b),
    ensures
        cockpit_cmd(a) == cockpit_cmd(b),
{
}

/// What stands in the middle of a text stands in the whole text.
proof fn lemma_has_text_within(before: Seq<char>, s: Seq<char>, after: Seq<char>, p: Seq<char>)
    requires
        has_text(s, p),
    ensures
        has_text(before + s + after, p),
{
    let at = choose|at: int| occurs_at(s, p, at);
    let whole = before + s + after;
    let moved = before.len() + at;
    assert(whole.subrange(moved, moved + p.len()) =~= s.subrange(at, at + p.len()));
    assert(occurs_at(whole, p, moved));
}

/// A command line of this program stays one when other text is put around it.
pub proof fn surrounding_text_does_not_hide_a_command(
    before: Seq<char>,
    cmd_line: Seq<char>,
    after: Seq<char>,
)
    requires
        cockpit_cmd(cmd_line),
    ensures
        cockpit_cmd(before + cmd_line + after),
{
    let lower = ascii_lower(cmd_line);
    let first = ascii_lower(before);
    let last = ascii_lower(after);
    assert(ascii_lower(before + cmd_line + after) =~= first + lower + last);
    if has_text(lower, "--webview-exe-name=cockpit-tools.exe"@) {
        lemma_has_text_within(first, lower, last, "--webview-exe-name=cockpit-tools.exe"@);
    } else {
        lemma_has_text_within(first, lower, last, "com.jlcodes.cockpit-tools"@);
        lemma_has_text_within(first, lower, last, "ebwebview"@);
    }
}

/// The list without the processes that `gone` picks.
pub open spec fn without(
    processes: Seq<ProcessView>,
    gone: spec_fn(ProcessView) -> bool,
) -> Seq<ProcessView> {
    processes.filter(|p: ProcessView| !gone(p))
}

/// The instances of the program are the same in two lists that hold the same instances.
proof fn lemma_same_instances(a: Seq<ProcessView>, b: Seq<ProcessView>, current_pid: u32)
    requires
        forall|p: ProcessView| #[trigger]
            p.is_instance() ==> (a.contains(p) <==> b.contains(p)),
    ensures
        other_instance_runs(a, current_pid) == other_instance_runs(b, current_pid),
        forall|pid: u32| #[trigger]
            active_pid(a, current_pid, pid) == active_pid(b, current_pid, pid),
{
    lemma_instances_carry_over(a, b, current_pid);
    lemma_instances_carry_over(b, a, current_pid);
}

/// The instances of the program in one list run in another one that holds them too.
proof fn lemma_instances_carry_over(a: Seq<ProcessView>, b: Seq<ProcessView>, current_pid: u32)
    requires
        forall|p: ProcessView| #[trigger] p.is_instance() && a.contains(p) ==> b.contains(p),
    ensures
        other_instance_runs(a, current_pid) ==> other_instance_runs(b, current_pid),
        forall|pid: u32| #[trigger]
            active_pid(a, current_pid, pid) ==> active_pid(b, current_pid, pid),
{
    assert forall|i: int| 0 <= i < a.len() && (#[trigger] a[i]).is_instance() implies exists|j: int|
        0 <= j < b.len() && #[trigger] b[j] == a[i] by {
        assert(a.contains(a[i]));
        assert(b.contains(a[i]));
    }
    if other_instance_runs(a, current_pid) {
        let i = choose|i: int|
            0 <= i < a.len() && (#[trigger] a[i]).is_instance() && a[i].pid != current_pid;
        let j = choose|j: int| 0 <= j < b.len() && #[trigger] b[j] == a[i];
        assert(b[j].is_instance());
    }
    assert forall|pid: u32| #[trigger] active_pid(a, current_pid, pid) implies active_pid(
        b,
        current_pid,
        pid,
    ) by {
        if pid != current_pid {
            let i = choose|i: int|
                0 <= i < a.len() && (#[trigger] a[i]).is_instance() && a[i].pid == pid;
            let j = choose|j: int| 0 <= j < b.len() && #[trigger] b[j] == a[i];
            assert(b[j].is_instance());
        }
    }
}

/// One more running instance never causes more to be cleared away: a process that stays without it
/// stays with it, and so do the lock files.
pub proof fn another_instance_spares_more(
    platform: Platform,
    current_pid: u32,
    processes: Seq<ProcessView>,
    instance: ProcessView,
    pid: u32,
)
    requires
        instance.is_instance(),
    ensures
        orphan_cleanup(platform, current_pid, processes.push(instance)).pids.contains(pid)
            ==> orphan_cleanup(platform, current_pid, processes).pids.contains(pid),
        orphan_cleanup(platform, current_pid, processes.push(instance)).lock_files.len() > 0
            ==> orphan_cleanup(platform, current_pid, processes).lock_files.len() > 0,
        exit_pids(processes.push(instance), current_pid).contains(pid) ==> exit_pids(
            processes,
            current_pid,
        ).contains(pid),
{
    let more = processes.push(instance);
    lemma_names_differ(instance);
    assert forall|p: ProcessView| #[trigger] p.is_instance() && processes.contains(
        p,
    ) implies more.contains(p) by {
        let i = choose|i: int| 0 <= i < processes.len() && processes[i] == p;
        assert(more[i] == p);
    }
    lemma_instances_carry_over(processes, more, current_pid);
    let orphan = |p: ProcessView| orphaned(processes, current_pid, p);
    let orphan_more = |p: ProcessView| orphaned(more, current_pid, p);
    lemma_chosen_from_fewer(processes, instance, orphan, orphan_more, pid);
    let exits = |p: ProcessView| ends_with_current(processes, current_pid, p);
    let exits_more = |p: ProcessView| ends_with_current(more, current_pid, p);
    lemma_chosen_from_fewer(processes, instance, exits, exits_more, pid);
}

/// An instance of the program is no WebView2.
proof fn lemma_names_differ(p: ProcessView)
    requires
        p.is_instance(),
    ensures
        !p.is_webview(),
{
    reveal_strlit("cockpit-tools.exe");
    reveal_strlit("msedgewebview2.exe");
    assert("cockpit-tools.exe"@.len() != "msedgewebview2.exe"@.len());
}

/// A pid that is picked from a list with one process more, by a stricter choice that leaves that
/// process out, is picked from the list without it.
proof fn lemma_chosen_from_fewer(
    processes: Seq<ProcessView>,
    added: ProcessView,
    chosen: spec_fn(ProcessView) -> bool,
    stricter: spec_fn(ProcessView) -> bool,
    pid: u32,
)
    requires
        !stricter(added),
        forall|p: ProcessView| #[trigger] stricter(p) ==> chosen(p),
    ensures
        pids_of(processes.push(added), stricter).contains(pid) ==> pids_of(
            processes,
            chosen,
        ).contains(pid),
{
    let more = processes.push(added);
    pids_of_holds_the_chosen(more, stricter, pid);
    pids_of_holds_the_chosen(processes, chosen, pid);
    if pids_of(more, stricter).contains(pid) {
        let i = choose|i: int|
            0 <= i < more.len() && stricter(#[trigger] more[i]) && more[i].pid == pid;
        assert(i < processes.len());
        assert(chosen(processes[i]));
    }
}

/// Taking away processes that are no instances leaves the same instances.
proof fn lemma_instances_stay(
    processes: Seq<ProcessView>,
    gone: spec_fn(ProcessView) -> bool,
    current_pid: u32,
)
    requires
        forall|p: ProcessView| #[trigger] gone(p) ==> p.is_webview(),
    ensures
        other_instance_runs(processes, current_pid) == other_instance_runs(
            without(processes, gone),
            current_pid,
        ),
        forall|pid: u32| #[trigger]
            active_pid(processes, current_pid, pid) == active_pid(
                without(processes, gone),
                current_pid,
                pid,
            ),
{
    broadcast use vstd::seq_lib::group_filter_ensures;

    let stays = |p: ProcessView| !gone(p);
    let rest = without(processes, gone);
    assert(rest == processes.filter(stays));
    assert forall|p: ProcessView| #[trigger] p.is_instance() implies (processes.contains(p)
        <==> rest.contains(p)) by {
        if processes.contains(p) {
            lemma_names_differ(p);
            assert(stays(p));
            let i = choose|i: int| 0 <= i < processes.len() && processes[i] == p;
            assert(rest.contains(processes[i]));
        }
        if rest.contains(p) {
            processes.lemma_filter_contains_rev(stays, p);
        }
    }
    lemma_same_instances(processes, rest, current_pid);
}

/// Nothing that was taken away is picked from what is left.
proof fn lemma_nothing_left(
    processes: Seq<ProcessView>,
    gone: spec_fn(ProcessView) -> bool,
    again: spec_fn(ProcessView) -> bool,
)
    requires
        forall|p: ProcessView| #[trigger] again(p) ==> gone(p),
    ensures
        pids_of(without(processes, gone), again).len() == 0,
{
    broadcast use vstd::seq_lib::group_filter_ensures;

    let stays = |p: ProcessView| !gone(p);
    let rest = without(processes, gone);
    assert(rest == processes.filter(stays));
    let pids = pids_of(rest, again);
    if pids.len() > 0 {
        assert(pids.contains(pids[0]));
        pids_of_holds_the_chosen(rest, again, pids[0]);
        let i = choose|i: int|
            0 <= i < rest.len() && again(#[trigger] rest[i]) && rest[i].pid == pids[0];
        assert(stays(rest[i]));
        assert(gone(rest[i]));
    }
}

/// Once the orphans are gone there are no more orphans.
pub proof fn no_orphans_are_left(current_pid: u32, processes: Seq<ProcessView>)
    ensures
        orphaned_pids(
            without(processes, |p: ProcessView| orphaned(processes, current_pid, p)),
            current_pid,
        ).len() == 0,
{
    let gone = |p: ProcessView| orphaned(processes, current_pid, p);
    let rest = without(processes, gone);
    lemma_instances_stay(processes, gone, current_pid);
    lemma_nothing_left(processes, gone, |p: ProcessView| orphaned(rest, current_pid, p));
}

/// Once the WebView2 processes that go with the current process are gone, no more of them go.
pub proof fn nothing_more_goes_on_exit(current_pid: u32, processes: Seq<ProcessView>)
    ensures
        exit_pids(
            without(processes, |p: ProcessView| ends_with_current(processes, current_pid, p)),
            current_pid,
        ).len() == 0,
{
    let gone = |p: ProcessView| ends_with_current(processes, current_pid, p);
    let rest = without(processes, gone);
    lemma_instances_stay(processes, gone, current_pid);
    lemma_nothing_left(processes, gone, |p: ProcessView| ends_with_current(rest, current_pid, p));
}

/// Picking from two lists one after the other is picking from each.
proof fn lemma_pids_of_add(
    a: Seq<ProcessView>,
    b: Seq<ProcessView>,
    chosen: spec_fn(ProcessView) -> bool,
)
    ensures
        pids_of(a + b, chosen) == pids_of(a, chosen) + pids_of(b, chosen),
{
    Seq::filter_distributes_over_add(a, b, chosen);
    assert(pids_of(a + b, chosen) =~= pids_of(a, chosen) + pids_of(b, chosen));
}

/// Picking from a list with one process more, as a collection without order.
proof fn lemma_pids_of_one_more(
    before: Seq<ProcessView>,
    p: ProcessView,
    after: Seq<ProcessView>,
    chosen: spec_fn(ProcessView) -> bool,
)
    ensures
        pids_of(before + seq![p] + after, chosen).to_multiset() == if chosen(p) {
            pids_of(before + after, chosen).to_multiset().insert(p.pid)
        } else {
            pids_of(before + after, chosen).to_multiset()
        },
{
    broadcast use vstd::seq_lib::group_to_multiset_ensures;

    let one = seq![p];
    let picked = pids_of(one, chosen);
    lemma_pids_of_add(before + one, after, chosen);
    lemma_pids_of_add(before, one, chosen);
    lemma_pids_of_add(before, after, chosen);
    let left = pids_of(before, chosen);
    let right = pids_of(after, chosen);
    reveal_with_fuel(Seq::filter, 2);
    assert(one.drop_last() =~= seq![]);
    assert(one.filter(chosen) =~= if chosen(p) {
        one
    } else {
        seq![]
    });
    vstd::seq_lib::lemma_multiset_commutative(left + picked, right);
    vstd::seq_lib::lemma_multiset_commutative(left, picked);
    vstd::seq_lib::lemma_multiset_commutative(left, right);
    if chosen(p) {
        assert(picked =~= Seq::<u32>::empty().push(p.pid));
        assert(picked.to_multiset() =~= vstd::multiset::Multiset::empty().insert(p.pid));
        assert((left + picked + right).to_multiset() =~= (left + right).to_multiset().insert(
            p.pid,
        ));
    } else {
        assert(left + picked + right =~= left + right);
    }
}

/// Picking does not depend on the order of the list.
proof fn lemma_pids_of_any_order(
    a: Seq<ProcessView>,
    b: Seq<ProcessView>,
    chosen: spec_fn(ProcessView) -> bool,
)
    requires
        a.to_multiset() == b.to_multiset(),
    ensures
        pids_of(a, chosen).to_multiset() == pids_of(b, chosen).to_multiset(),
    decreases a.len(),
{
    a.to_multiset_ensures();
    b.to_multiset_ensures();
    if a.len() == 0 {
        assert(a =~= b);
    } else {
        let p = a.last();
        let shorter = a.drop_last();
        assert(a =~= shorter + seq![p] + seq![]);
        assert(shorter + Seq::<ProcessView>::empty() =~= shorter);
        assert(a =~= shorter.push(p));
        assert(a[a.len() - 1] == p);
        assert(a.to_multiset().count(p) > 0);
        let j = choose|j: int| 0 <= j < b.len() && b[j] == p;
        let before = b.take(j);
        let after = b.skip(j + 1);
        assert(b =~= before + seq![p] + after);
        assert(b.remove(j) =~= before + after);
        assert(shorter =~= a.remove(a.len() - 1));
        assert(shorter.to_multiset() =~= (before + after).to_multiset());
        lemma_pids_of_any_order(shorter, before + after, chosen);
        lemma_pids_of_one_more(shorter, p, seq![], chosen);
        lemma_pids_of_one_more(before, p, after, chosen);
    }
}

/// The order in which the system lists the processes does not matter: the same processes are
/// ended, and the same lock files are removed.
pub proof fn listing_order_does_not_matter(
    platform: Platform,
    current_pid: u32,
    a: Seq<ProcessView>,
    b: Seq<ProcessView>,
)
    requires
        a.to_multiset() == b.to_multiset(),
    ensures
        orphan_cleanup(platform, current_pid, a).pids.to_multiset() == orphan_cleanup(
            platform,
            current_pid,
            b,
        ).pids.to_multiset(),
        orphan_cleanup(platform, current_pid, a).lock_files == orphan_cleanup(
            platform,
            current_pid,
            b,
        ).lock_files,
        exit_pids(a, current_pid).to_multiset() == exit_pids(b, current_pid).to_multiset(),
{
    a.to_multiset_ensures();
    b.to_multiset_ensures();
    assert forall|p: ProcessView| #[trigger] p.is_instance() implies (a.contains(p)
        <==> b.contains(p)) by {
        assert(a.contains(p) == (a.to_multiset().count(p) > 0));
        assert(b.contains(p) == (b.to_multiset().count(p) > 0));
    }
    lemma_same_instances(a, b, current_pid);
    let in_a = |p: ProcessView| orphaned(a, current_pid, p);
    let in_b = |p: ProcessView| orphaned(b, current_pid, p);
    assert(in_a =~= in_b);
    lemma_pids_of_any_order(a, b, in_a);
    let exit_a = |p: ProcessView| ends_with_current(a, current_pid, p);
    let exit_b = |p: ProcessView| ends_with_current(b, current_pid, p);
    assert(exit_a =~= exit_b);
    lemma_pids_of_any_order(a, b, exit_a);
}

} // verus!
