use cockpit_maintenance::repo::{
    resolve_repo_path, RepoCandidate, RepoTurn, Sighting, DEFAULT_REPO_PATH, REPO_MARKER,
};

fn label(candidate: &RepoCandidate) -> String {
    match candidate {
        RepoCandidate::Given(path) => format!("given {}", path),
        RepoCandidate::Default => "default".to_string(),
        RepoCandidate::CurrentDir => "current".to_string(),
        RepoCandidate::CurrentDirParent => "parent".to_string(),
    }
}

/// Runs a search in which the candidates show these sightings one after the other.
fn search(repo_path: Option<&str>, sightings: &[Sighting]) -> (Vec<String>, Result<String, String>) {
    let mut looked = Vec::new();
    let mut turn = resolve_repo_path(repo_path.map(|s| s.to_string()));
    loop {
        turn = match turn {
            RepoTurn::Look(candidate) => {
                let sighting = sightings[looked.len()];
                looked.push(label(&candidate));
                candidate.looked_at(sighting)
            }
            RepoTurn::Found(candidate) => return (looked, Ok(label(&candidate))),
            RepoTurn::NotFound(message) => return (looked, Err(message)),
        };
    }
}

const NOT_FOUND: &str =
    "Không tìm thấy thư mục git repo của Cockpit Tools. Vui lòng kiểm tra đường dẫn dự án.";

#[test]
fn directory_that_was_asked_for_comes_first() {
    let (looked, found) = search(Some("  /srv/repo\n"), &[Sighting::Repo]);
    assert_eq!(looked, ["given /srv/repo"]);
    assert_eq!(found, Ok("given /srv/repo".to_string()));
}

#[test]
fn blank_or_missing_name_begins_with_the_default() {
    for path in [None, Some(""), Some(" \t")] {
        let (looked, found) = search(path, &[Sighting::Repo]);
        assert_eq!(looked, ["default"]);
        assert_eq!(found, Ok("default".to_string()));
    }
    assert_eq!(DEFAULT_REPO_PATH, "D:\\0-vung-apps\\cockpit-tools");
    assert_eq!(REPO_MARKER, ".git");
}

#[test]
fn search_goes_on_to_the_parent_of_the_working_directory() {
    let none = Sighting::NoRepo;
    let (looked, found) = search(Some("x"), &[none, none, none, Sighting::Repo]);
    assert_eq!(looked, ["given x", "default", "current", "parent"]);
    assert_eq!(found, Ok("parent".to_string()));
    let (_, found) = search(Some("x"), &[none, none, Sighting::Repo]);
    assert_eq!(found, Ok("current".to_string()));
}

#[test]
fn search_without_a_repo_says_so() {
    let none = Sighting::NoRepo;
    let (looked, found) = search(None, &[none, none, none]);
    assert_eq!(looked.len(), 3);
    assert_eq!(found, Err(NOT_FOUND.to_string()));
    let (_, found) = search(None, &[none, none, Sighting::Absent]);
    assert_eq!(found, Err(NOT_FOUND.to_string()));
}

#[test]
fn unknown_working_directory_has_no_parent_to_look_at() {
    let (looked, found) = search(None, &[Sighting::NoRepo, Sighting::Absent]);
    assert_eq!(looked, ["default", "current"]);
    assert_eq!(found, Err(NOT_FOUND.to_string()));
}
