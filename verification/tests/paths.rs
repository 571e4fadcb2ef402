use std::path::{Component, Path};
use testcall::path::{
    canonical, confine, confine_resolving, normalize, normalize_step, same_path, starts_with, walk_onto,
    walk_resolving,
};
use testcall::{Failure, PathPart};

fn parts(path: &str) -> Vec<PathPart> {
    Path::new(path)
        .components()
        .map(|component| match component {
            Component::Prefix(prefix) => {
                PathPart::Prefix(prefix.as_os_str().as_encoded_bytes().to_vec())
            }
            Component::RootDir => PathPart::RootDir,
            Component::CurDir => PathPart::CurDir,
            Component::ParentDir => PathPart::ParentDir,
            Component::Normal(name) => PathPart::Normal(name.as_encoded_bytes().to_vec()),
        })
        .collect()
}

fn name(name: &str) -> PathPart {
    PathPart::Normal(name.as_bytes().to_vec())
}

#[test]
fn path_normalize() {
    assert_eq!(parts("/foo/bar"), normalize(&parts("/foo/bar")));
    assert_eq!(parts("/foo"), normalize(&parts("/foo/bar/..")));
    assert_eq!(parts("/foo/bar"), normalize(&parts("/foo/./bar/.")));
    assert_ne!(parts("/foo/bar"), normalize(&parts("/foo/bar/..")));
    assert_eq!(parts("foo/bar"), normalize(&parts("./foo/bar")));
}

#[test]
fn normalize_drops_parent_at_the_top() {
    assert_eq!(parts("/"), normalize(&parts("/..")));
    assert_eq!(parts("/foo"), normalize(&parts("/../../foo")));
    assert_eq!(parts("foo"), normalize(&parts("../foo")));
    assert_eq!(parts(""), normalize(&parts("foo/..")));
    assert_eq!(parts(""), normalize(&parts("foo/../..")));
    assert_eq!(parts(""), normalize(&parts("")));
}

#[test]
fn normalize_starts_over_at_a_root() {
    let joined = vec![name("a"), name("b"), PathPart::RootDir, name("c")];
    assert_eq!(parts("/c"), normalize(&joined));
    let prefixed = vec![
        PathPart::Prefix(b"C:".to_vec()),
        PathPart::RootDir,
        name("a"),
        PathPart::RootDir,
        name("b"),
    ];
    assert_eq!(
        vec![PathPart::Prefix(b"C:".to_vec()), PathPart::RootDir, name("b")],
        normalize(&prefixed)
    );
    let other_drive = vec![
        PathPart::Prefix(b"C:".to_vec()),
        PathPart::RootDir,
        name("a"),
        PathPart::Prefix(b"D:".to_vec()),
        name("b"),
    ];
    assert_eq!(vec![PathPart::Prefix(b"D:".to_vec()), name("b")], normalize(&other_drive));
}

#[test]
fn normalize_keeps_prefix_and_root_under_parent() {
    let path = vec![PathPart::Prefix(b"C:".to_vec()), PathPart::ParentDir];
    assert_eq!(vec![PathPart::Prefix(b"C:".to_vec())], normalize(&path));
    let path = vec![PathPart::Prefix(b"C:".to_vec()), PathPart::RootDir, PathPart::ParentDir];
    assert_eq!(vec![PathPart::Prefix(b"C:".to_vec()), PathPart::RootDir], normalize(&path));
}

#[test]
fn normalize_is_idempotent() {
    for path in ["/foo/./bar/../baz", "a/../../b/./c", "/", "", "../..", "/a/b/../../../c"] {
        let once = normalize(&parts(path));
        assert_eq!(once, normalize(&once));
    }
}

#[test]
fn step_applies_one_component() {
    let mut path = parts("/foo");
    normalize_step(&mut path, &name("bar"));
    assert_eq!(path, parts("/foo/bar"));
    normalize_step(&mut path, &PathPart::CurDir);
    assert_eq!(path, parts("/foo/bar"));
    normalize_step(&mut path, &PathPart::ParentDir);
    assert_eq!(path, parts("/foo"));
    normalize_step(&mut path, &PathPart::ParentDir);
    assert_eq!(path, parts("/"));
    normalize_step(&mut path, &PathPart::ParentDir);
    assert_eq!(path, parts("/"));
    normalize_step(&mut path, &PathPart::RootDir);
    assert_eq!(path, parts("/"));
}

#[test]
fn walk_onto_continues_from_start() {
    assert_eq!(walk_onto(parts("/a/b"), &parts("../c")), parts("/a/c"));
    assert_eq!(walk_onto(parts("/a/b"), &parts("")), parts("/a/b"));
    assert_eq!(walk_onto(parts("/a/b"), &parts("/c")), parts("/c"));
}

#[test]
fn starts_with_compares_whole_components() {
    assert!(starts_with(&parts("/foo/bar"), &parts("/foo")));
    assert!(starts_with(&parts("/foo"), &parts("/foo")));
    assert!(starts_with(&parts("/foo"), &parts("")));
    assert!(!starts_with(&parts("/foobar"), &parts("/foo")));
    assert!(!starts_with(&parts("/foo"), &parts("/foo/bar")));
    assert!(!starts_with(&parts("foo"), &parts("/foo")));
}

#[test]
fn confine_keeps_paths_inside() {
    let root = parts("/tmp/root");
    assert_eq!(confine(&root, &parts("a/b")), Ok(parts("/tmp/root/a/b")));
    assert_eq!(confine(&root, &parts("")), Ok(parts("/tmp/root")));
    assert_eq!(confine(&root, &parts(".")), Ok(parts("/tmp/root")));
    assert_eq!(confine(&root, &parts("a/..")), Ok(parts("/tmp/root")));
    assert_eq!(confine(&root, &parts("a/../b/./c")), Ok(parts("/tmp/root/b/c")));
}

#[test]
fn confine_refuses_escape() {
    let root = parts("/tmp/root");
    assert_eq!(confine(&root, &parts("..")), Err(Failure::Escape));
    assert_eq!(confine(&root, &parts("../other")), Err(Failure::Escape));
    assert_eq!(confine(&root, &parts("a/../../..")), Err(Failure::Escape));
    assert_eq!(confine(&root, &parts("../../../../etc/passwd")), Err(Failure::Escape));
    assert_eq!(confine(&root, &parts("/etc/passwd")), Err(Failure::Escape));
    assert_eq!(confine(&root, &parts("/tmp/rootless")), Err(Failure::Escape));
}

#[test]
fn confine_accepts_what_comes_back_inside() {
    let root = parts("/tmp/root");
    assert_eq!(confine(&root, &parts("../root/a")), Ok(parts("/tmp/root/a")));
    assert_eq!(confine(&root, &parts("/tmp/root/a")), Ok(parts("/tmp/root/a")));
    assert_eq!(confine(&root, &parts("../../../tmp/root")), Ok(parts("/tmp/root")));
}

#[test]
fn confine_round_trip() {
    let root = parts("/tmp/root");
    assert_eq!(
        confine(&root, &parts("foo/./bar/../bar")),
        confine(&root, &parts("foo/bar"))
    );
    let normal = normalize(&parts("foo/./bar/../bar"));
    assert_eq!(normal, parts("foo/bar"));
    assert_eq!(confine(&root, &normal), Ok(parts("/tmp/root/foo/bar")));
}

#[test]
fn canonical_wants_root_then_names() {
    assert!(canonical(&parts("/")));
    assert!(canonical(&parts("/tmp/root")));
    assert!(canonical(&vec![PathPart::Prefix(b"C:".to_vec()), PathPart::RootDir, name("a")]));
    assert!(!canonical(&parts("")));
    assert!(!canonical(&parts("tmp/root")));
    assert!(!canonical(&parts("/tmp/../root")));
    assert!(!canonical(&vec![PathPart::RootDir, PathPart::CurDir]));
    assert!(!canonical(&vec![PathPart::Prefix(b"C:".to_vec()), name("a")]));
    assert!(!canonical(&vec![PathPart::Prefix(b"C:".to_vec())]));
    assert!(!canonical(&vec![PathPart::RootDir, PathPart::RootDir]));
}

#[test]
fn parts_compare_by_content() {
    assert!(name("a").same(&name("a")));
    assert!(!name("a").same(&name("b")));
    assert!(!name("a").same(&name("ab")));
    assert!(!name("a").same(&PathPart::Prefix(b"a".to_vec())));
    assert!(PathPart::RootDir.same(&PathPart::RootDir));
    assert!(!PathPart::CurDir.same(&PathPart::ParentDir));
    assert_eq!(name("abc").duplicate(), name("abc"));
    assert_eq!(PathPart::Prefix(b"C:".to_vec()).duplicate(), PathPart::Prefix(b"C:".to_vec()));
}

// A disk on which `/tmp/root/out` is a link to `/etc` and `/tmp/root/in` a
// link to `/tmp/root/data`.
fn links(path: &Vec<PathPart>) -> Option<Vec<PathPart>> {
    if starts_with(path, &parts("/tmp/root/out")) {
        let mut target = parts("/etc");
        target.extend(path[4..].iter().cloned());
        Some(target)
    } else if starts_with(path, &parts("/tmp/root/in")) {
        let mut target = parts("/tmp/root/data");
        target.extend(path[4..].iter().cloned());
        Some(target)
    } else {
        None
    }
}

fn no_links(_path: &Vec<PathPart>) -> Option<Vec<PathPart>> {
    None
}

#[test]
fn resolving_walk_follows_links() {
    assert_eq!(walk_resolving(parts("/tmp/root"), &parts("out/passwd"), &links), parts("/etc/passwd"));
    assert_eq!(walk_resolving(parts("/tmp/root"), &parts("in/x/../y"), &links), parts("/tmp/root/data/y"));
    assert_eq!(walk_resolving(parts("/tmp/root"), &parts("in/.."), &links), parts("/tmp/root"));
    assert_eq!(walk_resolving(parts("/tmp/root"), &parts("a/./b"), &links), parts("/tmp/root/a/b"));
}

#[test]
fn resolving_walk_without_links_is_lexical() {
    for path in ["a/b/../c", "../x", "/abs/./path", "", "a/../../.."] {
        assert_eq!(
            walk_resolving(parts("/tmp/root"), &parts(path), &no_links),
            walk_onto(parts("/tmp/root"), &parts(path))
        );
        assert_eq!(
            confine_resolving(&parts("/tmp/root"), &parts(path), &no_links),
            confine(&parts("/tmp/root"), &parts(path))
        );
    }
}

#[test]
fn confine_resolving_refuses_link_that_leads_out() {
    let root = parts("/tmp/root");
    assert_eq!(confine_resolving(&root, &parts("out/passwd"), &links), Err(Failure::Escape));
    assert_eq!(confine_resolving(&root, &parts("out"), &links), Err(Failure::Escape));
    assert_eq!(confine_resolving(&root, &parts("a/../out/x"), &links), Err(Failure::Escape));
    assert_eq!(confine_resolving(&root, &parts("in/x"), &links), Ok(parts("/tmp/root/data/x")));
    assert_eq!(confine_resolving(&root, &parts("in/../.."), &links), Err(Failure::Escape));
    assert_eq!(confine_resolving(&root, &parts("b/c"), &links), Ok(parts("/tmp/root/b/c")));
    let closure = |path: &Vec<PathPart>| links(path);
    assert_eq!(confine_resolving(&root, &parts("out/../in"), &closure), Err(Failure::Escape));
}

#[test]
fn same_path_compares_all_components() {
    assert!(same_path(&parts("/a/b"), &parts("/a/b")));
    assert!(same_path(&parts(""), &parts("")));
    assert!(!same_path(&parts("/a/b"), &parts("/a")));
    assert!(!same_path(&parts("/a"), &parts("/a/b")));
    assert!(!same_path(&parts("/a/b"), &parts("/a/c")));
}
