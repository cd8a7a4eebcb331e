//! Git objects: their ids, kinds, the store representation and the loose
//! (zlib-compressed) files that hold it.
pub mod decimal;
pub mod format;
pub mod id;
pub mod kind;
pub mod object;
pub mod store;

pub use id::ObjectId;
pub use kind::ObjectKind;
pub use object::Object;
pub use store::Store;

use vstd::prelude::*;

verus! {

/// What can go wrong in the object store.
#[derive(Debug)]
pub enum ObjectError {
    InvalidOid(String),
    NotFound(ObjectId),
    Corrupt(String),
    UnknownKind(String),
    Io(std::io::Error),
}

/// The mathematical value of an [`ObjectError`]; an I/O error is seen only
/// as such.
pub enum ObjectErrorView {
    InvalidOid(Seq<char>),
    NotFound(Seq<u8>),
    Corrupt(Seq<char>),
    UnknownKind(Seq<char>),
    Io,
}

impl View for ObjectError {
    type V = ObjectErrorView;

    open spec fn view(&self) -> ObjectErrorView {
        match self {
            ObjectError::InvalidOid(s) => ObjectErrorView::InvalidOid(s@),
            ObjectError::NotFound(id) => ObjectErrorView::NotFound(id@),
            ObjectError::Corrupt(s) => ObjectErrorView::Corrupt(s@),
            ObjectError::UnknownKind(s) => ObjectErrorView::UnknownKind(s@),
            ObjectError::Io(_) => ObjectErrorView::Io,
        }
    }
}

} // verus!
