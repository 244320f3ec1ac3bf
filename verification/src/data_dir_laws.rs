//! Laws of the profile directory.
use std::path::PathBuf;

use vstd::prelude::*;

use crate::data_dir::{
    ebwebview_dir, optional_dir, DataDir, DataDirView, DirRoot, RootView, EBWEBVIEW_DIR_IDENTIFIER,
};
use crate::text::white_space;
use crate::text_laws::trim_gives_back_the_core;

verus! {

/// Where the system tells the local data directory, the profile directory lies two names below it,
/// and the environment does not matter.
pub proof fn system_directory_decides(
    path: PathBuf,
    one: Option<Seq<char>>,
    other: Option<Seq<char>>,
)
    ensures
        ebwebview_dir(Some(path), one) == ebwebview_dir(Some(path), other),
        ebwebview_dir(Some(path), one) is Some,
        ebwebview_dir(Some(path), one)->0.root == RootView::System(path),
        ebwebview_dir(Some(path), one)->0.parts.len() == 2,
        ebwebview_dir(Some(path), one)->0.parts[0] == "com.jlcodes.cockpit-tools"@,
        ebwebview_dir(Some(path), one)->0.parts[1] == "EBWebView"@,
{
}

/// Where the system tells nothing, the profile directory lies two names below the text of the
/// environment, without the white space around it.
pub proof fn environment_decides_else(before: Seq<char>, core: Seq<char>, after: Seq<char>)
    requires
        forall|i: int| 0 <= i < before.len() ==> white_space(#[trigger] before[i]),
        forall|i: int| 0 <= i < after.len() ==> white_space(#[trigger] after[i]),
        core.len() > 0,
        !white_space(core[0]),
        !white_space(core[core.len() - 1]),
    ensures
        ebwebview_dir(None, Some(before + core + after)) is Some,
        ebwebview_dir(None, Some(before + core + after))->0.root == RootView::Named(core),
        ebwebview_dir(None, Some(before + core + after))->0.parts.len() == 2,
        ebwebview_dir(None, Some(before + core + after))->0.parts[0]
            == "com.jlcodes.cockpit-tools"@,
        ebwebview_dir(None, Some(before + core + after))->0.parts[1] == "EBWebView"@,
{
    trim_gives_back_the_core(before, core, after);
}

/// Where the system tells nothing and the environment holds nothing but white space, or nothing at
/// all, there is no profile directory.
pub proof fn nothing_told_is_no_directory(text: Seq<char>)
    requires
        forall|i: int| 0 <= i < text.len() ==> white_space(#[trigger] text[i]),
    ensures
        ebwebview_dir(None, Some(text)) is None,
        ebwebview_dir(None, None) is None,
{
    trim_gives_back_the_core(text, seq![], seq![]);
    assert(text + seq![] + seq![] =~= text);
}

/// A directory is shown as it is: its root, and each name on the way.
pub proof fn directory_is_shown_as_it_is(dir: DataDir, path: PathBuf, text: String)
    ensures
        DirRoot::System(path)@ == RootView::System(path),
        DirRoot::Named(text)@ == RootView::Named(text@),
        dir@.root == dir.root@,
        dir@.parts.len() == dir.parts@.len(),
        forall|i: int|
            0 <= i < dir.parts@.len() ==> #[trigger] dir@.parts[i] == dir.parts@[i]@,
        optional_dir(Some(dir)) == Some(dir@),
        optional_dir(None) == None::<DataDirView>,
        EBWEBVIEW_DIR_IDENTIFIER@ == "com.jlcodes.cockpit-tools"@,
{
}

} // verus!
