//! grit: a small git object store. It holds the loose-object format, object
//! ids, the paths of a repository and the layout that `init` creates; the
//! command line and the filesystem work around it stand in `app/`.
pub mod codec;
pub mod commands;
pub mod objects;
pub mod path;
pub mod repo;
