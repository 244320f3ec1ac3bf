//! The directory in which WebView2 keeps the profile of this program.
use std::path::PathBuf;

use vstd::prelude::*;

use crate::text::{optional_text, texts, trim, trim_text};

verus! {

/// The directory of this program below the user's local data directory.
pub const EBWEBVIEW_DIR_IDENTIFIER: &'static str = "com.jlcodes.cockpit-tools";

/// `dirs::data_local_dir`. Its result depends on the environment and on the user's settings, so
/// nothing is stated of it.
pub assume_specification[ dirs::data_local_dir ]() -> Option<PathBuf>;

/// Where a directory lies: below a path of the operating system, or below one that is given as
/// text.
#[derive(Debug)]
pub enum DirRoot {
    System(PathBuf),
    Named(String),
}

/// A directory: the names in `parts` lead to it from `root`.
#[derive(Debug)]
pub struct DataDir {
    pub root: DirRoot,
    pub parts: Vec<String>,
}

/// A `DirRoot` with its text as plain text.
pub ghost enum RootView {
    System(PathBuf),
    Named(Seq<char>),
}

/// A `DataDir` with its strings as plain text.
pub ghost struct DataDirView {
    pub root: RootView,
    pub parts: Seq<Seq<char>>,
}

impl View for DirRoot {
    type V = RootView;

    open spec fn view(&self) -> RootView {
        match self {
            DirRoot::System(path) => RootView::System(*path),
            DirRoot::Named(text) => RootView::Named(text@),
        }
    }
}

impl View for DataDir {
    type V = DataDirView;

    open spec fn view(&self) -> DataDirView {
        DataDirView { root: self.root@, parts: texts(self.parts@) }
    }
}

/// The profile directory below a root.
pub open spec fn ebwebview_below(root: RootView) -> DataDirView {
    DataDirView { root, parts: seq![EBWEBVIEW_DIR_IDENTIFIER@, "EBWebView"@] }
}

/// The profile directory: below the user's local data directory where the system tells it, and
/// else below the one that `local_appdata` names, unless that is blank.
pub open spec fn ebwebview_dir(
    local_data: Option<PathBuf>,
    local_appdata: Option<Seq<char>>,
) -> Option<DataDirView> {
    match (local_data, local_appdata) {
        (Some(path), _) => Some(ebwebview_below(RootView::System(path))),
        (None, Some(text)) => if trim(text).len() > 0 {
            Some(ebwebview_below(RootView::Named(trim(text))))
        } else {
            None
        },
        (None, None) => None,
    }
}

/// An optional directory as plain values.
pub open spec fn optional_dir(dir: Option<DataDir>) -> Option<DataDirView> {
    match dir {
        Some(d) => Some(d@),
        None => None,
    }
}

/// The profile directory below a root.
fn below(root: DirRoot) -> (r: DataDir)
    ensures
        r@ == ebwebview_below(root@),
{
    let mut parts: Vec<String> = Vec::new();
    parts.push(EBWEBVIEW_DIR_IDENTIFIER.to_owned());
    parts.push("EBWebView".to_owned());
    assert(texts(parts@) =~= seq![EBWEBVIEW_DIR_IDENTIFIER@, "EBWebView"@]);
    DataDir { root, parts }
}

/// The profile directory, from what the system tells of the user's local data directory and from
/// the environment variable `LOCALAPPDATA`.
pub fn ebwebview_data_dir(
    local_data: Option<PathBuf>,
    local_appdata: Option<String>,
) -> (r: Option<DataDir>)
    ensures
        optional_dir(r) == ebwebview_dir(local_data, optional_text(local_appdata)),
{
    if let Some(path) = local_data {
        return Some(below(DirRoot::System(path)));
    }
    if let Some(text) = local_appdata {
        let name = trim_text(text.as_str());
        if !name.as_str().is_empty() {
            return Some(below(DirRoot::Named(name)));
        }
    }
    None
}

/// What a function that looks up a directory tells.
fn told_by<F: Fn() -> Option<PathBuf>>(lookup: F) -> (r: Option<PathBuf>)
    requires
        lookup.requires(()),
    ensures
        lookup.ensures((), r),
{
    lookup()
}

/// The profile directory. The system is asked for the user's local data directory, and its answer
/// comes first. `local_appdata` is the environment variable of that name, where it is set and
/// readable; it only counts when the system tells no directory.
pub fn resolve_ebwebview_data_dir(local_appdata: Option<String>) -> (r: Option<DataDir>)
    ensures
        exists|local_data: Option<PathBuf>|
            call_ensures(dirs::data_local_dir, (), local_data) && optional_dir(r)
                == #[trigger] ebwebview_dir(local_data, optional_text(local_appdata)),
        local_appdata is Some && trim(local_appdata->0@).len() > 0 ==> r is Some,
        r is Some ==> r->0@ == ebwebview_below(r->0@.root),
{
    let local_data = told_by(dirs::data_local_dir);
    ebwebview_data_dir(local_data, local_appdata)
}

} // verus!
