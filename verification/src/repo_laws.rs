//! Laws of the search for the repository.
use vstd::prelude::*;

use crate::repo::{
    after_look, first_candidate, not_found_text, CandidateView, RepoCandidate, RepoTurn,
    RepoTurnView, Sighting, DEFAULT_REPO_PATH, REPO_MARKER,
};
use crate::text::{trim, white_space};
use crate::text_laws::trim_gives_back_the_core;

verus! {

/// How many candidates can still follow a candidate.
pub open spec fn candidates_after(candidate: CandidateView) -> nat {
    match candidate {
        CandidateView::Given(_) => 3,
        CandidateView::Default => 2,
        CandidateView::CurrentDir => 1,
        CandidateView::CurrentDirParent => 0,
    }
}

/// What the search comes to from a candidate on, where `seen` says what is seen at each.
pub open spec fn search_from(
    candidate: CandidateView,
    seen: spec_fn(CandidateView) -> Sighting,
) -> RepoTurnView
    decreases candidates_after(candidate),
{
    match after_look(candidate, seen(candidate)) {
        RepoTurnView::Look(next) => search_from(next, seen),
        end => end,
    }
}

/// What the whole search comes to.
pub open spec fn search(
    repo_path: Option<Seq<char>>,
    seen: spec_fn(CandidateView) -> Sighting,
) -> RepoTurnView {
    search_from(first_candidate(repo_path), seen)
}

/// The search takes the first directory that holds a repository: the one that was asked for, then
/// the default one, then the working directory, then its parent. Where none of them does, it ends
/// with the message that says so.
pub proof fn first_repo_wins(
    repo_path: Option<Seq<char>>,
    seen: spec_fn(CandidateView) -> Sighting,
)
    ensures
        search(repo_path, seen) == {
            let asked = CandidateView::Given(trim(repo_path->0));
            if repo_path is Some && trim(repo_path->0).len() > 0 && seen(asked)
                == Sighting::Repo {
                RepoTurnView::Found(asked)
            } else if seen(CandidateView::Default) == Sighting::Repo {
                RepoTurnView::Found(CandidateView::Default)
            } else if seen(CandidateView::CurrentDir) == Sighting::Repo {
                RepoTurnView::Found(CandidateView::CurrentDir)
            } else if seen(CandidateView::CurrentDir) == Sighting::NoRepo && seen(
                CandidateView::CurrentDirParent,
            ) == Sighting::Repo {
                RepoTurnView::Found(CandidateView::CurrentDirParent)
            } else {
                RepoTurnView::NotFound(not_found_text())
            }
        },
{
    reveal_with_fuel(search_from, 4);
}

/// Looking at a candidate never leads back to it or to one before it, so the search ends.
pub proof fn search_moves_on(candidate: CandidateView, sighting: Sighting)
    ensures
        after_look(candidate, sighting) matches RepoTurnView::Look(next) ==> candidates_after(next)
            < candidates_after(candidate),
{
}

/// The directory that the search takes holds a repository.
pub proof fn what_is_found_is_a_repo(
    repo_path: Option<Seq<char>>,
    seen: spec_fn(CandidateView) -> Sighting,
)
    ensures
        search(repo_path, seen) matches RepoTurnView::Found(candidate) ==> seen(candidate)
            == Sighting::Repo,
{
    first_repo_wins(repo_path, seen);
}

/// The search begins at the directory that was asked for, without the white space around its name.
pub proof fn search_begins_at_what_was_asked_for(
    before: Seq<char>,
    core: Seq<char>,
    after: Seq<char>,
)
    requires
        forall|i: int| 0 <= i < before.len() ==> white_space(#[trigger] before[i]),
        forall|i: int| 0 <= i < after.len() ==> white_space(#[trigger] after[i]),
        core.len() > 0 ==> !white_space(core[0]) && !white_space(core[core.len() - 1]),
    ensures
        core.len() > 0 ==> first_candidate(Some(before + core + after)) == CandidateView::Given(
            core,
        ),
        core.len() == 0 ==> first_candidate(Some(before + core + after)) == CandidateView::Default,
        first_candidate(None) == CandidateView::Default,
{
    trim_gives_back_the_core(before, core, after);
}

/// What was seen at a place decides what follows: a repository is taken, and after a miss comes
/// the next place. A working directory that cannot be told has no parent to look at.
pub proof fn each_sighting_decides(asked: Seq<char>, miss: Sighting, candidate: CandidateView)
    requires
        miss == Sighting::NoRepo || miss == Sighting::Absent,
    ensures
        after_look(candidate, Sighting::Repo) == RepoTurnView::Found(candidate),
        after_look(CandidateView::Given(asked), miss) == RepoTurnView::Look(CandidateView::Default),
        after_look(CandidateView::Default, miss) == RepoTurnView::Look(CandidateView::CurrentDir),
        after_look(CandidateView::CurrentDir, Sighting::NoRepo) == RepoTurnView::Look(
            CandidateView::CurrentDirParent,
        ),
        after_look(CandidateView::CurrentDir, Sighting::Absent) is NotFound,
        after_look(CandidateView::CurrentDirParent, miss) is NotFound,
        after_look(candidate, miss) is NotFound ==> after_look(candidate, miss)
            == RepoTurnView::NotFound(
            "Không tìm thấy thư mục git repo của Cockpit Tools. Vui lòng kiểm tra đường dẫn dự án."@,
        ),
{
}

/// The fixed texts of the search.
pub proof fn fixed_texts_of_the_search()
    ensures
        not_found_text()
            == "Không tìm thấy thư mục git repo của Cockpit Tools. Vui lòng kiểm tra đường dẫn dự án."@,
        DEFAULT_REPO_PATH@ == "D:\\0-vung-apps\\cockpit-tools"@,
        REPO_MARKER@ == ".git"@,
{
}

/// A turn of the search is shown as it is.
pub proof fn turn_is_shown_as_it_is(candidate: RepoCandidate, path: String)
    ensures
        RepoCandidate::Given(path)@ == CandidateView::Given(path@),
        RepoCandidate::Default@ == CandidateView::Default,
        RepoCandidate::CurrentDir@ == CandidateView::CurrentDir,
        RepoCandidate::CurrentDirParent@ == CandidateView::CurrentDirParent,
        RepoTurn::Look(candidate)@ == RepoTurnView::Look(candidate@),
        RepoTurn::Found(candidate)@ == RepoTurnView::Found(candidate@),
        RepoTurn::NotFound(path)@ == RepoTurnView::NotFound(path@),
{
}

} // verus!
