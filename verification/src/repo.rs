//! Finding the directory of the repository.
//!
//! Directories are looked at one after the other until one of them holds a repository. The caller
//! looks; this module says where, and what follows from it.
use vstd::prelude::*;

use crate::text::{optional_text, trim, trim_text};

verus! {

/// A directory that holds an entry of this name is a repository.
pub const REPO_MARKER: &'static str = ".git";

/// Where the repository is looked for when the caller names no directory that holds one.
pub const DEFAULT_REPO_PATH: &'static str = r"D:\0-vung-apps\cockpit-tools";

/// A directory that may hold the repository.
#[derive(Debug)]
pub enum RepoCandidate {
    /// The directory that was asked for, without the white space around its name.
    Given(String),
    /// The directory `DEFAULT_REPO_PATH`.
    Default,
    /// The current working directory.
    CurrentDir,
    /// The parent of the current working directory.
    CurrentDirParent,
}

/// A `RepoCandidate` with its string as plain text.
pub ghost enum CandidateView {
    Given(Seq<char>),
    Default,
    CurrentDir,
    CurrentDirParent,
}

impl View for RepoCandidate {
    type V = CandidateView;

    open spec fn view(&self) -> CandidateView {
        match self {
            RepoCandidate::Given(path) => CandidateView::Given(path@),
            RepoCandidate::Default => CandidateView::Default,
            RepoCandidate::CurrentDir => CandidateView::CurrentDir,
            RepoCandidate::CurrentDirParent => CandidateView::CurrentDirParent,
        }
    }
}

/// What the caller saw at a candidate.
#[derive(Debug, Clone, Copy, PartialEq, Eq, Structural)]
pub enum Sighting {
    /// The directory holds a repository.
    Repo,
    /// The directory holds none.
    NoRepo,
    /// There is no such directory: the working directory cannot be told, or has no parent.
    Absent,
}

/// What the caller does next.
#[derive(Debug)]
pub enum RepoTurn {
    /// Look at this candidate.
    Look(RepoCandidate),
    /// This is the repository.
    Found(RepoCandidate),
    /// There is no repository; the message says so.
    NotFound(String),
}

/// A `RepoTurn` as plain values.
pub ghost enum RepoTurnView {
    Look(CandidateView),
    Found(CandidateView),
    NotFound(Seq<char>),
}

impl View for RepoTurn {
    type V = RepoTurnView;

    open spec fn view(&self) -> RepoTurnView {
        match self {
            RepoTurn::Look(candidate) => RepoTurnView::Look(candidate@),
            RepoTurn::Found(candidate) => RepoTurnView::Found(candidate@),
            RepoTurn::NotFound(message) => RepoTurnView::NotFound(message@),
        }
    }
}

/// The message of a search that found no repository.
pub open spec fn not_found_text() -> Seq<char> {
    "Không tìm thấy thư mục git repo của Cockpit Tools. Vui lòng kiểm tra đường dẫn dự án."@
}

/// Where the search begins: at the directory that was asked for, unless its name is blank.
pub open spec fn first_candidate(repo_path: Option<Seq<char>>) -> CandidateView {
    match repo_path {
        Some(path) => if trim(path).len() > 0 {
            CandidateView::Given(trim(path))
        } else {
            CandidateView::Default
        },
        None => CandidateView::Default,
    }
}

/// What follows when a candidate holds no repository, or is absent.
pub open spec fn after_miss(candidate: CandidateView, absent: bool) -> RepoTurnView {
    match candidate {
        CandidateView::Given(_) => RepoTurnView::Look(CandidateView::Default),
        CandidateView::Default => RepoTurnView::Look(CandidateView::CurrentDir),
        CandidateView::CurrentDir => if absent {
            RepoTurnView::NotFound(not_found_text())
        } else {
            RepoTurnView::Look(CandidateView::CurrentDirParent)
        },
        CandidateView::CurrentDirParent => RepoTurnView::NotFound(not_found_text()),
    }
}

/// What follows when the caller has looked at a candidate.
pub open spec fn after_look(candidate: CandidateView, sighting: Sighting) -> RepoTurnView {
    match sighting {
        Sighting::Repo => RepoTurnView::Found(candidate),
        Sighting::NoRepo => after_miss(candidate, false),
        Sighting::Absent => after_miss(candidate, true),
    }
}

/// Begins the search. `repo_path` is the directory that was asked for, if any.
pub fn resolve_repo_path(repo_path: Option<String>) -> (r: RepoTurn)
    ensures
        r@ == RepoTurnView::Look(first_candidate(optional_text(repo_path))),
{
    if let Some(path) = repo_path {
        let name = trim_text(path.as_str());
        if !name.as_str().is_empty() {
            return RepoTurn::Look(RepoCandidate::Given(name));
        }
    }
    RepoTurn::Look(RepoCandidate::Default)
}

impl RepoCandidate {
    /// The caller has looked at this candidate.
    pub fn looked_at(self, sighting: Sighting) -> (r: RepoTurn)
        ensures
            r@ == after_look(self@, sighting),
    {
        let absent = match sighting {
            Sighting::Repo => return RepoTurn::Found(self),
            Sighting::NoRepo => false,
            Sighting::Absent => true,
        };
        match self {
            RepoCandidate::Given(_) => return RepoTurn::Look(RepoCandidate::Default),
            RepoCandidate::Default => return RepoTurn::Look(RepoCandidate::CurrentDir),
            RepoCandidate::CurrentDir => if !absent {
                return RepoTurn::Look(RepoCandidate::CurrentDirParent);
            },
            RepoCandidate::CurrentDirParent => {},
        }
        RepoTurn::NotFound(
            "Không tìm thấy thư mục git repo của Cockpit Tools. Vui lòng kiểm tra đường dẫn dự án.".to_owned(),
        )
    }
}

} // verus!
