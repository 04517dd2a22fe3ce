//! Workspace watching: which created files are announced as new videos.

use vstd::prelude::*;
use crate::config::strs;
use crate::manifest::opt_view;
use crate::storage::video_extensions;
use crate::text::unicode_lowercase;

verus! {

/// New video files that appeared in a watched workspace.
pub struct WorkspaceFileChangeEvent {
    pub workspace_id: i64,
    pub workspace_path: String,
    pub new_files: Vec<String>,
}

/// Whether a path with this extension (`None` when it has none or it is
/// not valid UTF-8) is a video, compared lower-cased.
pub open spec fn video_ext(ext: Option<Seq<char>>) -> bool {
    match ext {
        Some(e) => video_extensions().contains(unicode_lowercase(e)),
        None => false,
    }
}

pub fn is_video_file(extension: &Option<String>) -> (r: bool)
    ensures
        r == video_ext(opt_view(*extension)),
{
    match extension {
        Some(e) => {
            let lower = crate::text::to_lowercase(e.as_str());
            crate::storage::is_video_extension(lower.as_str())
        },
        None => false,
    }
}

/// A created path: its text and its extension.
pub struct CreatedPath {
    pub path: String,
    pub extension: Option<String>,
}

/// The created paths that are videos, in order.
pub open spec fn videos_among(ps: Seq<CreatedPath>) -> Seq<Seq<char>>
    decreases ps.len(),
{
    if ps.len() == 0 {
        Seq::empty()
    } else if video_ext(opt_view(ps.last().extension)) {
        videos_among(ps.drop_last()).push(ps.last().path@)
    } else {
        videos_among(ps.drop_last())
    }
}

/// The event announcing the videos among created paths, if there are any.
pub fn file_change_event(workspace_id: i64, workspace_path: &str, created: &Vec<CreatedPath>) -> (r:
    Option<WorkspaceFileChangeEvent>)
    ensures
        videos_among(created@).len() == 0 ==> r is None,
        videos_among(created@).len() > 0 ==> (r matches Some(ev) && ev.workspace_id == workspace_id
            && ev.workspace_path@ == workspace_path@ && strs(ev.new_files@) == videos_among(created@)),
{
    let mut files: Vec<String> = Vec::new();
    let mut i: usize = 0;
    while i < created.len()
        invariant
            i <= created.len(),
            strs(files@) == videos_among(created@.take(i as int)),
        decreases created.len() - i,
    {
        assert(created@.take(i + 1).drop_last() == created@.take(i as int));
        assert(created@.take(i + 1).last() == created@[i as int]);
        if is_video_file(&created[i].extension) {
            let ghost pre = files@;
            files.push(created[i].path.clone());
            assert(strs(files@) == strs(pre).push(created@[i as int].path@));
        }
        i = i + 1;
    }
    assert(created@.take(created.len() as int) == created@);
    if files.len() == 0 {
        None
    } else {
        Some(
            WorkspaceFileChangeEvent {
                workspace_id,
                workspace_path: workspace_path.to_owned(),
                new_files: files,
            },
        )
    }
}

} // verus!
