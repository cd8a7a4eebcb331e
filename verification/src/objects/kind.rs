//! The four kinds of git object and the names the object header gives them.
use super::ObjectError;
use super::ObjectErrorView;
use vstd::prelude::*;
use vstd::utf8::*;

verus! {

/// The four git object types.
#[derive(Debug, Clone, Copy, PartialEq, Eq, Structural)]
pub enum ObjectKind {
    Blob,
    Tree,
    Commit,
    Tag,
}

impl ObjectKind {
    /// The name git uses for this kind in the object header.
    pub open spec fn name(self) -> Seq<char> {
        match self {
            ObjectKind::Blob => seq!['b', 'l', 'o', 'b'],
            ObjectKind::Tree => seq!['t', 'r', 'e', 'e'],
            ObjectKind::Commit => seq!['c', 'o', 'm', 'm', 'i', 't'],
            ObjectKind::Tag => seq!['t', 'a', 'g'],
        }
    }

    /// The ASCII bytes of [`ObjectKind::name`].
    pub open spec fn name_bytes(self) -> Seq<u8> {
        match self {
            ObjectKind::Blob => seq![98u8, 108, 111, 98],
            ObjectKind::Tree => seq![116u8, 114, 101, 101],
            ObjectKind::Commit => seq![99u8, 111, 109, 109, 105, 116],
            ObjectKind::Tag => seq![116u8, 97, 103],
        }
    }

    /// The kind whose name is `s`, if any.
    pub open spec fn named(s: Seq<char>) -> Option<ObjectKind> {
        if s == ObjectKind::Blob.name() {
            Some(ObjectKind::Blob)
        } else if s == ObjectKind::Tree.name() {
            Some(ObjectKind::Tree)
        } else if s == ObjectKind::Commit.name() {
            Some(ObjectKind::Commit)
        } else if s == ObjectKind::Tag.name() {
            Some(ObjectKind::Tag)
        } else {
            None
        }
    }

    /// The ASCII string git uses in the object header, e.g. `"blob"`.
    pub fn as_str(self) -> (res: &'static str)
        ensures
            res@ == self.name(),
    {
        match self {
            ObjectKind::Blob => {
                proof {
                    reveal_strlit("blob");
                }
                "blob"
            },
            ObjectKind::Tree => {
                proof {
                    reveal_strlit("tree");
                }
                "tree"
            },
            ObjectKind::Commit => {
                proof {
                    reveal_strlit("commit");
                }
                "commit"
            },
            ObjectKind::Tag => {
                proof {
                    reveal_strlit("tag");
                }
                "tag"
            },
        }
    }

    /// The kind named `s`; any other text is an unknown kind.
    pub fn from_name(s: &str) -> (res: Result<ObjectKind, ObjectError>)
        ensures
            match res {
                Ok(k) => ObjectKind::named(s@) == Some(k),
                Err(e) => ObjectKind::named(s@) is None && e@ == ObjectErrorView::UnknownKind(s@),
            },
    {
        let owned = s.to_owned();
        proof {
            reveal_strlit("blob");
            reveal_strlit("tree");
            reveal_strlit("commit");
            reveal_strlit("tag");
            assert("blob"@ =~= ObjectKind::Blob.name());
            assert("tree"@ =~= ObjectKind::Tree.name());
            assert("commit"@ =~= ObjectKind::Commit.name());
            assert("tag"@ =~= ObjectKind::Tag.name());
        }
        if owned == "blob".to_owned() {
            Ok(ObjectKind::Blob)
        } else if owned == "tree".to_owned() {
            Ok(ObjectKind::Tree)
        } else if owned == "commit".to_owned() {
            Ok(ObjectKind::Commit)
        } else if owned == "tag".to_owned() {
            Ok(ObjectKind::Tag)
        } else {
            Err(ObjectError::UnknownKind(owned))
        }
    }
}

impl std::str::FromStr for ObjectKind {
    type Err = ObjectError;

    fn from_str(s: &str) -> (res: Result<ObjectKind, ObjectError>)
        ensures
            match res {
                Ok(k) => ObjectKind::named(s@) == Some(k),
                Err(e) => ObjectKind::named(s@) is None && e@ == ObjectErrorView::UnknownKind(s@),
            },
    {
        ObjectKind::from_name(s)
    }
}

/// The bytes of a kind's name are its name in UTF-8: they decode back to it
/// and hold neither a NUL nor a space.
pub proof fn lemma_name_bytes(k: ObjectKind)
    ensures
        encode_utf8(k.name()) == k.name_bytes(),
        valid_utf8(k.name_bytes()),
        decode_utf8(k.name_bytes()) == k.name(),
        forall|i: int|
            0 <= i < k.name_bytes().len() ==> #[trigger] k.name_bytes()[i] != 0u8
                && k.name_bytes()[i] != 32u8,
{
    let c = k.name();
    assert(is_ascii_chars(c));
    is_ascii_chars_encode_utf8(c);
    assert(encode_utf8(c) =~= k.name_bytes());
    encode_utf8_valid_utf8(c);
    encode_utf8_decode_utf8(c);
}

/// Only a kind's own name reads as that kind.
pub proof fn lemma_named_only_name(s: Seq<char>, k: ObjectKind)
    requires
        ObjectKind::named(s) == Some(k),
    ensures
        s == k.name(),
{
}

/// Reading a kind's name gives the kind.
pub proof fn lemma_named_name(k: ObjectKind)
    ensures
        ObjectKind::named(k.name()) == Some(k),
{
}

} // verus!
