//! Repositories: a working tree with a `.git` directory, and the upward
//! search that finds the nearest one.
use crate::path::lemma_ancestor_is_prefix;
use crate::path::FsPath;
use crate::path::PathView;
use vstd::prelude::*;

verus! {

/// What can go wrong in finding or creating a repository.
#[derive(Debug)]
pub enum RepoError {
    NotFound(FsPath),
    AlreadyExists(FsPath),
    Io(std::io::Error),
}

/// A handle to an open grit repository.
pub struct Repo {
    /// The root of the working tree (the directory containing `.git`).
    pub workdir: FsPath,
}

/// The `.git` directory of the working tree `workdir`.
pub open spec fn git_dir_of(workdir: PathView) -> PathView {
    workdir.join(".git"@)
}

/// `probe` has said `answer` of some path whose value is `target`.
pub open spec fn probe_answered<F: Fn(&FsPath) -> bool>(probe: F, target: PathView, answer: bool) -> bool {
    exists|q: FsPath| q@ == target && #[trigger] probe.ensures((&q,), answer)
}

/// `k` levels up from `start` is the nearest directory for which `probe`
/// said it has a `.git`: it said yes there and no at every level below.
pub open spec fn probe_nearest<F: Fn(&FsPath) -> bool>(probe: F, start: PathView, k: int) -> bool {
    &&& 0 <= k <= start.components.len()
    &&& probe_answered(probe, git_dir_of(start.ancestor(k)), true)
    &&& forall|j: int|
        0 <= j < k ==> probe_answered(probe, git_dir_of(#[trigger] start.ancestor(j)), false)
}

/// `k` levels up from `start` is the nearest directory whose `.git` is a
/// directory, where `has_git_dir` says which paths are directories.
pub open spec fn nearest_with_git(start: PathView, has_git_dir: spec_fn(PathView) -> bool, k: int) -> bool {
    &&& 0 <= k <= start.components.len()
    &&& has_git_dir(git_dir_of(start.ancestor(k)))
    &&& forall|j: int| 0 <= j < k ==> !has_git_dir(git_dir_of(#[trigger] start.ancestor(j)))
}

/// `probe` answers every path as `has_git_dir` says.
pub open spec fn probe_follows<F: Fn(&FsPath) -> bool>(probe: F, has_git_dir: spec_fn(PathView) -> bool) -> bool {
    forall|q: FsPath, b: bool| #[trigger] probe.ensures((&q,), b) ==> b == has_git_dir(q@)
}

/// `start` with the components `sub` below it.
pub open spec fn below(start: PathView, sub: Seq<Seq<char>>) -> PathView {
    PathView { absolute: start.absolute, components: start.components + sub }
}

/// Where the probe answers as the filesystem is, the directory `discover`
/// returns is the nearest one with a `.git` directory.
pub proof fn lemma_probe_nearest_is_nearest<F: Fn(&FsPath) -> bool>(
    probe: F,
    has_git_dir: spec_fn(PathView) -> bool,
    start: PathView,
    k: int,
)
    requires
        probe_follows(probe, has_git_dir),
        probe_nearest(probe, start, k),
    ensures
        nearest_with_git(start, has_git_dir, k),
{
    assert forall|j: int| 0 <= j < k implies !has_git_dir(git_dir_of(#[trigger] start.ancestor(j))) by {
        assert(probe_answered(probe, git_dir_of(start.ancestor(j)), false));
    }
}

/// There is one nearest directory with a `.git` directory.
pub proof fn lemma_nearest_unique(start: PathView, has_git_dir: spec_fn(PathView) -> bool, k1: int, k2: int)
    requires
        nearest_with_git(start, has_git_dir, k1),
        nearest_with_git(start, has_git_dir, k2),
    ensures
        k1 == k2,
{
    if k1 < k2 {
        assert(!has_git_dir(git_dir_of(start.ancestor(k1))));
    }
    if k2 < k1 {
        assert(!has_git_dir(git_dir_of(start.ancestor(k2))));
    }
}

/// A subdirectory with no `.git` of its own, nor any between it and
/// `start`, finds the same repository as `start`.
pub proof fn lemma_subdirectory_same_repo(
    start: PathView,
    sub: Seq<Seq<char>>,
    has_git_dir: spec_fn(PathView) -> bool,
    k: int,
    k2: int,
)
    requires
        nearest_with_git(start, has_git_dir, k),
        forall|j: int| 0 <= j < sub.len() ==> !has_git_dir(git_dir_of(#[trigger] below(start, sub).ancestor(j))),
        nearest_with_git(below(start, sub), has_git_dir, k2),
    ensures
        below(start, sub).ancestor(k2) == start.ancestor(k),
{
    let deeper = below(start, sub);
    let m = k + sub.len();
    assert forall|j: int| 0 <= j <= start.components.len() implies #[trigger] deeper.ancestor(j + sub.len())
        == start.ancestor(j) by {
        assert(deeper.ancestor(j + sub.len()).components =~= start.ancestor(j).components);
    }
    assert(deeper.ancestor(m) == start.ancestor(k));
    assert forall|j: int| 0 <= j < m implies !has_git_dir(git_dir_of(#[trigger] deeper.ancestor(j))) by {
        if j >= sub.len() {
            assert(deeper.ancestor((j - sub.len()) + sub.len()) == start.ancestor(j - sub.len()));
            assert(!has_git_dir(git_dir_of(start.ancestor(j - sub.len()))));
        }
    }
    assert(nearest_with_git(deeper, has_git_dir, m));
    lemma_nearest_unique(deeper, has_git_dir, m, k2);
}

/// Two searches with the same faithful probe, one from `start` and one from
/// a subdirectory below it with no `.git` of its own nor any between, end
/// in the same directory.
pub proof fn lemma_subdirectory_discovers_same_repo<F: Fn(&FsPath) -> bool>(
    probe: F,
    has_git_dir: spec_fn(PathView) -> bool,
    start: PathView,
    sub: Seq<Seq<char>>,
    k: int,
    k2: int,
)
    requires
        probe_follows(probe, has_git_dir),
        probe_nearest(probe, start, k),
        probe_nearest(probe, below(start, sub), k2),
        forall|j: int| 0 <= j < sub.len() ==> !has_git_dir(git_dir_of(#[trigger] below(start, sub).ancestor(j))),
    ensures
        below(start, sub).ancestor(k2) == start.ancestor(k),
{
    lemma_probe_nearest_is_nearest(probe, has_git_dir, start, k);
    lemma_probe_nearest_is_nearest(probe, has_git_dir, below(start, sub), k2);
    lemma_subdirectory_same_repo(start, sub, has_git_dir, k, k2);
}

/// The `.git` directory of a working tree lies in it: the same path, relative
/// or absolute as it is, with the one component `.git` after its own.
pub proof fn lemma_git_dir_in_workdir(workdir: PathView)
    ensures
        git_dir_of(workdir).absolute == workdir.absolute,
        git_dir_of(workdir).components == workdir.components.push(".git"@),
{
}

impl Repo {
    /// Return the path to the `.git` directory.
    pub fn git_dir(&self) -> (res: FsPath)
        ensures
            res@ == git_dir_of(self.workdir@),
            res@.absolute == self.workdir@.absolute,
            res@.components == self.workdir@.components.push(".git"@),
    {
        self.workdir.join(".git")
    }

    /// Walk up from `path` to find the nearest `.git` directory.
    ///
    /// `is_git_dir` says whether a path is a directory; it is asked of
    /// `path/.git`, then of the `.git` of each parent in turn, until one is
    /// found or the root has been tried. The result is the nearest directory
    /// for which it said yes; where it said no every time, the search fails
    /// with `path`.
    pub fn discover<F: Fn(&FsPath) -> bool>(path: &FsPath, is_git_dir: F) -> (res: Result<Repo, RepoError>)
        requires
            forall|q: &FsPath| #[trigger] is_git_dir.requires((q,)),
        ensures
            res matches Ok(repo) ==> exists|k: int|
                repo.workdir@ == #[trigger] path@.ancestor(k) && probe_nearest(is_git_dir, path@, k),
            res matches Ok(repo) ==> repo.workdir@.absolute == path@.absolute,
            res matches Ok(repo) ==> repo.workdir@.components.len() <= path@.components.len(),
            res matches Ok(repo) ==> forall|i: int|
                0 <= i < repo.workdir@.components.len() ==> #[trigger] repo.workdir@.components[i] == path@.components[i],
            res is Err ==> (res matches Err(RepoError::NotFound(p)) && p@ == path@),
            res is Err ==> forall|j: int| 0 <= j <= path@.components.len() ==> probe_answered(is_git_dir, git_dir_of(#[trigger] path@.ancestor(j)), false),
    {
        let mut current = path.clone();
        let ghost mut k: int = 0;
        assert(path@.ancestor(0).components =~= path@.components);
        loop
            invariant
                forall|q: &FsPath| #[trigger] is_git_dir.requires((q,)),
                0 <= k <= path@.components.len(),
                current@ == path@.ancestor(k),
                forall|j: int| 0 <= j < k ==> probe_answered(is_git_dir, git_dir_of(#[trigger] path@.ancestor(j)), false),
            decreases path@.components.len() - k,
        {
            let probe = current.join(".git");
            let found = is_git_dir(&probe);
            assert(probe_answered(is_git_dir, git_dir_of(path@.ancestor(k)), found));
            if found {
                proof {
                    lemma_ancestor_is_prefix(path@, k);
                }
                return Ok(Repo { workdir: current });
            }
            proof {
                assert(forall|j: int| 0 <= j < k + 1 ==> probe_answered(is_git_dir, git_dir_of(#[trigger] path@.ancestor(j)), false));
            }
            if !current.pop() {
                assert(k == path@.components.len());
                return Err(RepoError::NotFound(path.clone()));
            }
            assert(path@.ancestor(k).ancestor(1).components =~= path@.ancestor(k + 1).components);
            proof {
                k = k + 1;
            }
        }
    }
}

} // verus!
