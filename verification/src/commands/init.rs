//! `grit init`: the directories and files that make a new repository.
//! Creating them on disk is the caller's part; this module says what they
//! are.
use crate::path::FsPath;
use crate::path::PathView;
use crate::repo::git_dir_of;
use vstd::prelude::*;

verus! {

/// Everything `init` creates under a working tree.
pub struct InitLayout {
    /// The `.git` directory; `init` refuses where it already exists.
    pub git_dir: FsPath,
    /// The directories to create, parents included, in this order.
    pub dirs: Vec<FsPath>,
    /// The `HEAD` file and its content.
    pub head: FsPath,
    pub head_contents: String,
    /// The `config` file and its content.
    pub config: FsPath,
    pub config_contents: String,
}

/// `HEAD` of a new repository: the branch `main`, with no commit yet.
pub open spec fn head_text() -> Seq<char> {
    "ref: refs/heads/main\n"@
}

/// `config` of a new repository: format version 0, file modes tracked, a
/// working tree.
pub open spec fn config_text() -> Seq<char> {
    "[core]\n\trepositoryformatversion = 0\n\tfilemode = true\n\tbare = false\n"@
}

/// `parent/first/second`.
pub open spec fn two_below(parent: PathView, first: Seq<char>, second: Seq<char>) -> PathView {
    parent.join(first).join(second)
}

/// Everything `init` lays out lies under the given path, relative or
/// absolute as it is: `path/.git/<first>/<second>`.
pub proof fn lemma_layout_under_path(path: PathView, first: Seq<char>, second: Seq<char>)
    ensures
        git_dir_of(path).absolute == path.absolute,
        git_dir_of(path).components == path.components + seq![".git"@],
        two_below(git_dir_of(path), first, second).absolute == path.absolute,
        two_below(git_dir_of(path), first, second).components == path.components + seq![".git"@, first, second],
{
    assert(git_dir_of(path).components =~= path.components + seq![".git"@]);
    assert(two_below(git_dir_of(path), first, second).components =~= path.components + seq![".git"@, first, second]);
}

/// The layout of a new repository at `path`: `.git` with `objects/info`,
/// `objects/pack`, `refs/heads` and `refs/tags`, `HEAD` and `config`.
pub fn layout(path: &FsPath) -> (res: InitLayout)
    ensures
        res.git_dir@ == git_dir_of(path@),
        res.dirs@.len() == 4,
        res.dirs@[0]@ == two_below(git_dir_of(path@), "objects"@, "info"@),
        res.dirs@[1]@ == two_below(git_dir_of(path@), "objects"@, "pack"@),
        res.dirs@[2]@ == two_below(git_dir_of(path@), "refs"@, "heads"@),
        res.dirs@[3]@ == two_below(git_dir_of(path@), "refs"@, "tags"@),
        res.head@ == git_dir_of(path@).join("HEAD"@),
        res.head_contents@ == head_text(),
        res.config@ == git_dir_of(path@).join("config"@),
        res.config_contents@ == config_text(),
{
    let git_dir = path.join(".git");
    let mut dirs: Vec<FsPath> = Vec::new();
    dirs.push(git_dir.join("objects").join("info"));
    dirs.push(git_dir.join("objects").join("pack"));
    dirs.push(git_dir.join("refs").join("heads"));
    dirs.push(git_dir.join("refs").join("tags"));
    let head = git_dir.join("HEAD");
    let config = git_dir.join("config");
    InitLayout {
        git_dir,
        dirs,
        head,
        head_contents: "ref: refs/heads/main\n".to_owned(),
        config,
        config_contents: "[core]\n\trepositoryformatversion = 0\n\tfilemode = true\n\tbare = false\n".to_owned(),
    }
}

} // verus!
