//! The loose-object store under `.git/objects/`: where each object's file
//! lies. Reading and writing the files is left to the caller, who hands
//! their bytes to [`crate::objects::Object::from_loose_bytes`] and takes
//! them from [`crate::objects::Object::to_loose_bytes`].
use super::format::lemma_store_bytes_roundtrip;
use super::format::store_bytes;
use super::id::lemma_fan_out_remainder;
use super::id::lemma_hex_roundtrip;
use super::object::parse_loose_bytes;
use super::ObjectKind;
use crate::codec::sha1_digest;
use crate::codec::zlib_compressed;
use crate::codec::zlib_decompressed;
use super::ObjectId;
use crate::codec::hex_lower;
use crate::path::FsPath;
use crate::path::PathView;
use crate::repo::git_dir_of;
use crate::repo::Repo;
use vstd::prelude::*;

verus! {

/// The directory that holds the loose objects of the working tree `workdir`.
pub open spec fn objects_dir_of(workdir: PathView) -> PathView {
    git_dir_of(workdir).join("objects"@)
}

/// The file of the object `id`: the hex of its first byte names a fan-out
/// directory, the hex of the other nineteen names the file.
pub open spec fn object_path_of(workdir: PathView, id: Seq<u8>) -> PathView {
    objects_dir_of(workdir).join(hex_lower(id.take(1))).join(hex_lower(id.skip(1)))
}

/// The loose-object store backed by `.git/objects/`.
pub struct Store<'a> {
    repo: &'a Repo,
}

impl<'a> Store<'a> {
    /// The working tree of the repository this store belongs to.
    pub closed spec fn workdir(&self) -> PathView {
        self.repo.workdir@
    }

    pub fn new(repo: &'a Repo) -> (res: Store<'a>)
        ensures
            res.workdir() == repo.workdir@,
    {
        Store { repo }
    }

    fn objects_dir(&self) -> (res: FsPath)
        ensures
            res@ == objects_dir_of(self.workdir()),
    {
        self.repo.git_dir().join("objects")
    }

    /// Path to a loose object file given its id.
    pub fn object_path(&self, id: &ObjectId) -> (res: FsPath)
        ensures
            res@ == object_path_of(self.workdir(), id@),
            res@.absolute == self.workdir().absolute,
            res@.components == self.workdir().components + seq![
                ".git"@,
                "objects"@,
                hex_lower(id@.take(1)),
                hex_lower(id@.skip(1)),
            ],
    {
        proof {
            lemma_object_path_under_git_dir(self.workdir(), id@);
        }
        let fan_out = id.fan_out();
        let remainder = id.remainder();
        self.objects_dir().join(fan_out.as_str()).join(remainder.as_str())
    }
}

/// The objects directory of any working tree, however deep, is its
/// `.git/objects`; an object's file is `.git/objects/<fan-out>/<rest>`
/// under the working tree, relative or absolute as the tree is.
pub proof fn lemma_object_path_under_git_dir(workdir: PathView, id: Seq<u8>)
    ensures
        objects_dir_of(workdir).absolute == workdir.absolute,
        objects_dir_of(workdir).components == workdir.components + seq![".git"@, "objects"@],
        object_path_of(workdir, id).absolute == workdir.absolute,
        object_path_of(workdir, id).components == workdir.components + seq![
            ".git"@,
            "objects"@,
            hex_lower(id.take(1)),
            hex_lower(id.skip(1)),
        ],
{
    assert(objects_dir_of(workdir).components =~= workdir.components + seq![".git"@, "objects"@]);
    assert(object_path_of(workdir, id).components =~= workdir.components + seq![
        ".git"@,
        "objects"@,
        hex_lower(id.take(1)),
        hex_lower(id.skip(1)),
    ]);
}

/// An object's file lies two levels below the objects directory: a
/// directory named by two hex digits and a file named by thirty-eight, which
/// together spell the id.
pub proof fn lemma_object_path_spells_id(workdir: PathView, id: ObjectId)
    ensures
        ({
            let p = object_path_of(workdir, id@).components;
            let n = p.len() as int;
            &&& p.take(n - 2) == objects_dir_of(workdir).components
            &&& p[n - 2].len() == 2
            &&& p[n - 1].len() == 38
            &&& p[n - 2] + p[n - 1] == hex_lower(id@)
        }),
{
    lemma_fan_out_remainder(id);
    let p = object_path_of(workdir, id@).components;
    assert(p.take(p.len() - 2) =~= objects_dir_of(workdir).components);
}

/// The store representation of `kind` and `data` sits in `files` where its
/// id puts it, as `Object::to_loose_bytes` writes it.
pub open spec fn holds_written(
    workdir: PathView,
    files: Map<PathView, Seq<u8>>,
    p: PathView,
    kind: ObjectKind,
    data: Seq<u8>,
) -> bool {
    let s = store_bytes(kind, data);
    &&& data.len() <= usize::MAX
    &&& sha1_digest(s).len() == 20
    &&& p == object_path_of(workdir, sha1_digest(s))
    &&& files[p] == zlib_compressed(s)
    &&& zlib_decompressed(files[p]) == Some(s)
}

/// Every file of `files` (object files, by path) was written for some
/// object: it lies where that object's id puts it and holds what
/// `Object::to_loose_bytes` makes of it.
pub open spec fn holds_written_objects(workdir: PathView, files: Map<PathView, Seq<u8>>) -> bool {
    forall|p: PathView|
        #[trigger] files.contains_key(p) ==> exists|kind: ObjectKind, data: Seq<u8>|
            holds_written(workdir, files, p, kind, data)
}

/// Distinct ids have distinct object files.
pub proof fn lemma_object_path_injective(workdir: PathView, a: Seq<u8>, b: Seq<u8>)
    requires
        a.len() == 20,
        b.len() == 20,
        object_path_of(workdir, a) == object_path_of(workdir, b),
    ensures
        a == b,
{
    let pa = object_path_of(workdir, a).components;
    let pb = object_path_of(workdir, b).components;
    let n = pa.len() as int;
    assert(pa[n - 2] == pb[n - 2]);
    assert(pa[n - 1] == pb[n - 1]);
    lemma_hex_roundtrip(a.take(1));
    lemma_hex_roundtrip(b.take(1));
    lemma_hex_roundtrip(a.skip(1));
    lemma_hex_roundtrip(b.skip(1));
    assert(a =~= a.take(1) + a.skip(1));
    assert(b =~= b.take(1) + b.skip(1));
}

/// In a store where every file was written for an object, reading the file
/// of an id that is there gives an object, never an error, and the object
/// has that id.
pub proof fn lemma_written_objects_read_back(
    workdir: PathView,
    files: Map<PathView, Seq<u8>>,
    id: Seq<u8>,
)
    requires
        holds_written_objects(workdir, files),
        id.len() == 20,
        files.contains_key(object_path_of(workdir, id)),
    ensures
        match parse_loose_bytes(files[object_path_of(workdir, id)]) {
            Ok((kind, data)) => sha1_digest(store_bytes(kind, data)) == id,
            Err(_) => false,
        },
{
    let p = object_path_of(workdir, id);
    let (kind, data) = choose|kind: ObjectKind, data: Seq<u8>| holds_written(workdir, files, p, kind, data);
    let s = store_bytes(kind, data);
    lemma_object_path_injective(workdir, id, sha1_digest(s));
    lemma_store_bytes_roundtrip(kind, data);
}

} // verus!
