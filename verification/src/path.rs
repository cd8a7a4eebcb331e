//! Paths as sequences of components, the model that the repository code
//! computes with. A path is absolute or relative, and holds zero or more
//! components; joining appends one, popping removes the last one.
use vstd::prelude::*;

verus! {

/// The mathematical value of a path.
pub struct PathView {
    pub absolute: bool,
    pub components: Seq<Seq<char>>,
}

impl PathView {
    /// This path with one more component at its end.
    pub open spec fn join(self, component: Seq<char>) -> PathView {
        PathView { absolute: self.absolute, components: self.components.push(component) }
    }

    /// This path with its last `k` components removed: relative or
    /// absolute as this path is.
    pub open spec fn ancestor(self, k: int) -> PathView {
        PathView {
            absolute: self.absolute,
            components: self.components.take(self.components.len() - k),
        }
    }
}

/// Joining appends exactly one component and keeps the path relative or
/// absolute as it was.
pub proof fn lemma_join_appends(p: PathView, c: Seq<char>)
    ensures
        p.join(c).absolute == p.absolute,
        p.join(c).components.len() == p.components.len() + 1,
        p.join(c).components.last() == c,
        p.join(c).components.drop_last() == p.components,
{
    assert(p.join(c).components.drop_last() =~= p.components);
}

/// Walking up `k` levels keeps a path relative or absolute as it was and
/// keeps its first components: an ancestor is a prefix of the path.
pub proof fn lemma_ancestor_is_prefix(p: PathView, k: int)
    requires
        0 <= k <= p.components.len(),
    ensures
        p.ancestor(k).absolute == p.absolute,
        p.ancestor(k).components.len() == p.components.len() - k,
        forall|i: int| 0 <= i < p.components.len() - k ==> #[trigger] p.ancestor(k).components[i] == p.components[i],
        p.ancestor(0) == p,
{
    assert(p.ancestor(0).components =~= p.components);
}

/// A filesystem path, held as its components.
#[derive(Debug, PartialEq, Eq)]
pub struct FsPath {
    pub absolute: bool,
    pub components: Vec<String>,
}

impl View for FsPath {
    type V = PathView;

    open spec fn view(&self) -> PathView {
        PathView {
            absolute: self.absolute,
            components: self.components@.map_values(|c: String| c@),
        }
    }
}

impl FsPath {
    /// The empty relative path.
    pub fn relative() -> (res: FsPath)
        ensures
            res@ == (PathView { absolute: false, components: Seq::empty() }),
    {
        let res = FsPath { absolute: false, components: Vec::new() };
        assert(res@.components =~= Seq::<Seq<char>>::empty());
        res
    }

    /// The root directory.
    pub fn root() -> (res: FsPath)
        ensures
            res@ == (PathView { absolute: true, components: Seq::empty() }),
    {
        let res = FsPath { absolute: true, components: Vec::new() };
        assert(res@.components =~= Seq::<Seq<char>>::empty());
        res
    }

    /// Append one component at the end of this path.
    pub fn push(&mut self, component: &str)
        ensures
            final(self)@ == old(self)@.join(component@),
    {
        self.components.push(component.to_owned());
        assert(self@.components =~= old(self)@.components.push(component@));
    }

    /// This path with one more component at its end.
    pub fn join(&self, component: &str) -> (res: FsPath)
        ensures
            res@ == self@.join(component@),
    {
        let mut res = self.clone();
        res.push(component);
        res
    }

    /// Truncate this path to its parent. Returns `false`, leaving the path
    /// unchanged, where it has no component left to remove.
    pub fn pop(&mut self) -> (popped: bool)
        ensures
            popped == (old(self)@.components.len() > 0),
            popped ==> final(self)@ == old(self)@.ancestor(1),
            popped ==> final(self)@.absolute == old(self)@.absolute,
            popped ==> final(self)@.components == old(self)@.components.drop_last(),
            !popped ==> final(self)@ == old(self)@,
    {
        if self.components.len() == 0 {
            false
        } else {
            let _ = self.components.pop();
            assert(self@.components =~= old(self)@.ancestor(1).components);
            assert(self@.components =~= old(self)@.components.drop_last());
            true
        }
    }
}

impl Clone for FsPath {
    fn clone(&self) -> (res: FsPath)
        ensures
            res@ == self@,
    {
        let mut components: Vec<String> = Vec::new();
        let mut i: usize = 0;
        while i < self.components.len()
            invariant
                i <= self.components@.len(),
                components@.len() == i,
                forall|j: int| 0 <= j < i ==> #[trigger] components@[j]@ == self.components@[j]@,
            decreases self.components@.len() - i,
        {
            components.push(self.components[i].clone());
            i = i + 1;
        }
        let res = FsPath { absolute: self.absolute, components };
        assert(res@.components =~= self@.components);
        res
    }
}

} // verus!
