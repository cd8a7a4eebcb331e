use grit::commands::init;
use grit::objects::ObjectId;
use grit::objects::Store;
use grit::path::FsPath;
use grit::repo::Repo;
use grit::repo::RepoError;

fn path(absolute: bool, parts: &[&str]) -> FsPath {
    let mut p = if absolute { FsPath::root() } else { FsPath::relative() };
    for part in parts {
        p.push(part);
    }
    p
}

#[test]
fn join_and_pop() {
    let mut p = path(true, &["home", "me"]);
    let q = p.join("work");
    assert_eq!(q, path(true, &["home", "me", "work"]));
    assert!(p.pop());
    assert_eq!(p, path(true, &["home"]));
    assert!(p.pop());
    assert_eq!(p, FsPath::root());
    assert!(!p.pop());
    assert_eq!(p, FsPath::root());
}

#[test]
fn git_dir_is_dot_git() {
    let repo = Repo { workdir: path(true, &["src", "grit"]) };
    assert_eq!(repo.git_dir(), path(true, &["src", "grit", ".git"]));
}

#[test]
fn discover_finds_the_start() {
    let start = path(true, &["a", "b"]);
    let repo = Repo::discover(&start, |p: &FsPath| *p == path(true, &["a", "b", ".git"])).unwrap();
    assert_eq!(repo.workdir, start);
}

#[test]
fn discover_walks_up_to_the_nearest() {
    let start = path(true, &["a", "b", "c"]);
    let asked = std::cell::RefCell::new(Vec::new());
    let repo = Repo::discover(&start, |p: &FsPath| {
        asked.borrow_mut().push(p.clone());
        *p == path(true, &["a", ".git"]) || *p == path(true, &[".git"])
    })
    .unwrap();
    assert_eq!(repo.workdir, path(true, &["a"]));
    assert_eq!(
        *asked.borrow(),
        vec![
            path(true, &["a", "b", "c", ".git"]),
            path(true, &["a", "b", ".git"]),
            path(true, &["a", ".git"]),
        ]
    );
}

#[test]
fn discover_reaches_the_root() {
    let start = path(true, &["x", "y"]);
    let repo = Repo::discover(&start, |p: &FsPath| *p == path(true, &[".git"])).unwrap();
    assert_eq!(repo.workdir, FsPath::root());
}

#[test]
fn discover_fails_with_the_start() {
    let start = path(false, &["x", "y"]);
    let asked = std::cell::Cell::new(0usize);
    match Repo::discover(&start, |_p: &FsPath| {
        asked.set(asked.get() + 1);
        false
    }) {
        Err(RepoError::NotFound(p)) => assert_eq!(p, start),
        other => panic!("expected not found, got {:?}", other.err()),
    }
    // x/y/.git, x/.git, .git
    assert_eq!(asked.get(), 3);
}

#[test]
fn object_path_fans_out() {
    let repo = Repo { workdir: path(true, &["r"]) };
    let store = Store::new(&repo);
    let id = ObjectId::from_hex("ce013625030ba8dba906f756967f9e9ca394464a").unwrap();
    assert_eq!(
        store.object_path(&id),
        path(true, &["r", ".git", "objects", "ce", "013625030ba8dba906f756967f9e9ca394464a"])
    );
}

#[test]
fn init_creates_git_structure() {
    let layout = init::layout(&path(true, &["tmp", "new"]));
    assert_eq!(layout.git_dir, path(true, &["tmp", "new", ".git"]));
    assert_eq!(
        layout.dirs,
        vec![
            path(true, &["tmp", "new", ".git", "objects", "info"]),
            path(true, &["tmp", "new", ".git", "objects", "pack"]),
            path(true, &["tmp", "new", ".git", "refs", "heads"]),
            path(true, &["tmp", "new", ".git", "refs", "tags"]),
        ]
    );
    assert_eq!(layout.head, path(true, &["tmp", "new", ".git", "HEAD"]));
    assert_eq!(layout.config, path(true, &["tmp", "new", ".git", "config"]));
}

#[test]
fn init_head_points_to_main() {
    let layout = init::layout(&path(false, &["."]));
    assert_eq!(layout.head_contents, "ref: refs/heads/main\n");
    assert_eq!(
        layout.config_contents,
        "[core]\n\trepositoryformatversion = 0\n\tfilemode = true\n\tbare = false\n"
    );
}

#[test]
fn discover_from_subdirectory_finds_same_repo() {
    let has_git = |p: &FsPath| *p == path(true, &["proj", ".git"]);
    let top = Repo::discover(&path(true, &["proj"]), has_git).unwrap();
    let deep = Repo::discover(&path(true, &["proj", "src", "bin"]), has_git).unwrap();
    assert_eq!(top.workdir, deep.workdir);
}
