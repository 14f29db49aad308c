use dottie::resolve::{Kind, Resolution, Snapshot, Verdict};

fn path(parts: &[&str]) -> Vec<String> {
    parts.iter().map(|s| s.to_string()).collect()
}

fn snapshot() -> Snapshot {
    Snapshot::new(path(&["/", "pkg", "files"]), path(&["/", "home"]))
}

fn summary(r: &Resolution) -> Vec<(Verdict, Vec<String>, Vec<String>)> {
    r.decisions
        .iter()
        .map(|d| (d.verdict, d.src_path.clone(), d.dest_path.clone()))
        .collect()
}

#[test]
fn two_files_into_empty_destination() {
    let mut s = snapshot();
    assert_eq!(s.add(None, "x.conf".to_string(), Kind::File, None), Some(0));
    assert_eq!(s.add(None, "sub".to_string(), Kind::Dir, None), Some(1));
    assert_eq!(s.add(Some(1), "y.conf".to_string(), Kind::File, None), Some(2));
    let r = s.resolve();
    assert!(r.feasible);
    assert_eq!(
        summary(&r),
        vec![
            (
                Verdict::Linkable,
                path(&["/", "pkg", "files", "x.conf"]),
                path(&["/", "home", "x.conf"])
            ),
            (
                Verdict::Linkable,
                path(&["/", "pkg", "files", "sub"]),
                path(&["/", "home", "sub"])
            ),
        ]
    );
}

#[test]
fn existing_matching_symlink_is_already_linked() {
    let mut s = snapshot();
    let target = path(&["/", "pkg", "files", "x.conf"]);
    s.add(None, "x.conf".to_string(), Kind::File, Some(Kind::Symlink { target }));
    let r = s.resolve();
    assert!(r.feasible);
    assert_eq!(r.decisions.len(), 1);
    assert_eq!(r.decisions[0].verdict, Verdict::AlreadyLinked);
    assert_eq!(r.decisions[0].dest_path, path(&["/", "home", "x.conf"]));
}

#[test]
fn real_file_at_destination_conflicts() {
    let mut s = snapshot();
    s.add(None, "x.conf".to_string(), Kind::File, Some(Kind::File));
    let r = s.resolve();
    assert!(!r.feasible);
    assert_eq!(r.decisions.len(), 1);
    assert_eq!(r.decisions[0].verdict, Verdict::Conflict);
}

#[test]
fn foreign_symlink_conflicts() {
    let mut s = snapshot();
    let target = path(&["/", "elsewhere", "x.conf"]);
    s.add(None, "x.conf".to_string(), Kind::File, Some(Kind::Symlink { target }));
    let r = s.resolve();
    assert!(!r.feasible);
    assert_eq!(r.decisions[0].verdict, Verdict::Conflict);
}

#[test]
fn broken_symlink_to_the_source_counts_as_linked() {
    // The comparison is on the link's text alone: whether its target exists
    // does not enter into it.
    let mut s = snapshot();
    let target = path(&["/", "pkg", "files", "gone.conf"]);
    s.add(None, "gone.conf".to_string(), Kind::File, Some(Kind::Symlink { target }));
    let r = s.resolve();
    assert_eq!(r.decisions[0].verdict, Verdict::AlreadyLinked);
}

#[test]
fn symlinked_directory_at_destination_is_not_entered() {
    let mut s = snapshot();
    let target = path(&["/", "data", "config"]);
    s.add(None, "config".to_string(), Kind::Dir, Some(Kind::Symlink { target }));
    s.add(Some(0), "a.conf".to_string(), Kind::File, None);
    let r = s.resolve();
    assert!(!r.feasible);
    assert_eq!(
        summary(&r),
        vec![(
            Verdict::Conflict,
            path(&["/", "pkg", "files", "config"]),
            path(&["/", "home", "config"])
        )]
    );
}

#[test]
fn nested_directories_resolve_to_their_leaf() {
    let mut s = snapshot();
    s.add(None, "a".to_string(), Kind::Dir, Some(Kind::Dir));
    s.add(Some(0), "b".to_string(), Kind::Dir, Some(Kind::Dir));
    s.add(Some(1), "file.txt".to_string(), Kind::File, None);
    let r = s.resolve();
    assert!(r.feasible);
    assert_eq!(
        summary(&r),
        vec![(
            Verdict::Linkable,
            path(&["/", "pkg", "files", "a", "b", "file.txt"]),
            path(&["/", "home", "a", "b", "file.txt"])
        )]
    );
}

#[test]
fn directory_missing_at_destination_is_linked_whole() {
    let mut s = snapshot();
    s.add(None, "a".to_string(), Kind::Dir, None);
    s.add(Some(0), "b".to_string(), Kind::Dir, None);
    s.add(Some(1), "file.txt".to_string(), Kind::File, None);
    let r = s.resolve();
    assert_eq!(
        summary(&r),
        vec![(
            Verdict::Linkable,
            path(&["/", "pkg", "files", "a"]),
            path(&["/", "home", "a"])
        )]
    );
}

#[test]
fn deep_conflict_makes_package_infeasible() {
    let mut s = snapshot();
    s.add(None, "top.conf".to_string(), Kind::File, None);
    s.add(None, "a".to_string(), Kind::Dir, Some(Kind::Dir));
    s.add(Some(1), "b".to_string(), Kind::Dir, Some(Kind::Dir));
    s.add(Some(2), "ok.conf".to_string(), Kind::File, None);
    s.add(Some(2), "bad.conf".to_string(), Kind::File, Some(Kind::Other));
    let r = s.resolve();
    assert!(!r.feasible);
    let verdicts: Vec<Verdict> = r.decisions.iter().map(|d| d.verdict).collect();
    assert_eq!(
        verdicts,
        vec![Verdict::Linkable, Verdict::Linkable, Verdict::Conflict]
    );
}

#[test]
fn every_leaf_appears_exactly_once() {
    let mut s = snapshot();
    s.add(None, "a".to_string(), Kind::Dir, Some(Kind::Dir));
    s.add(Some(0), "one".to_string(), Kind::File, None);
    s.add(Some(0), "two".to_string(), Kind::Symlink { target: path(&["x"]) }, Some(Kind::File));
    s.add(None, "one".to_string(), Kind::File, Some(Kind::Dir));
    s.add(Some(0), "c".to_string(), Kind::Dir, Some(Kind::Dir));
    s.add(Some(4), "one".to_string(), Kind::File, None);
    let r = s.resolve();
    let srcs: Vec<Vec<String>> = r.decisions.iter().map(|d| d.src_path.clone()).collect();
    assert_eq!(
        srcs,
        vec![
            path(&["/", "pkg", "files", "a", "one"]),
            path(&["/", "pkg", "files", "a", "two"]),
            path(&["/", "pkg", "files", "one"]),
            path(&["/", "pkg", "files", "a", "c", "one"]),
        ]
    );
}

#[test]
fn relinking_after_execution_finds_links() {
    let mut before = snapshot();
    before.add(None, "x.conf".to_string(), Kind::File, None);
    before.add(None, "sub".to_string(), Kind::Dir, Some(Kind::Dir));
    before.add(Some(1), "y.conf".to_string(), Kind::File, None);
    let first = before.resolve();
    assert_eq!(first.decisions.len(), 2);

    let mut after = snapshot();
    after.add(
        None,
        "x.conf".to_string(),
        Kind::File,
        Some(Kind::Symlink { target: path(&["/", "pkg", "files", "x.conf"]) }),
    );
    after.add(None, "sub".to_string(), Kind::Dir, Some(Kind::Dir));
    after.add(
        Some(1),
        "y.conf".to_string(),
        Kind::File,
        Some(Kind::Symlink { target: path(&["/", "pkg", "files", "sub", "y.conf"]) }),
    );
    let second = after.resolve();
    assert!(second.feasible);
    let verdicts: Vec<Verdict> = second.decisions.iter().map(|d| d.verdict).collect();
    assert_eq!(verdicts, vec![Verdict::AlreadyLinked, Verdict::AlreadyLinked]);
}

#[test]
fn add_rejects_duplicate_names_and_bad_parents() {
    let mut s = snapshot();
    assert_eq!(s.add(None, "a".to_string(), Kind::Dir, None), Some(0));
    assert_eq!(s.add(None, "a".to_string(), Kind::File, None), None);
    assert_eq!(s.add(Some(0), "a".to_string(), Kind::File, None), Some(1));
    assert_eq!(s.add(Some(1), "b".to_string(), Kind::File, None), None);
    assert_eq!(s.add(Some(7), "b".to_string(), Kind::File, None), None);
    assert_eq!(s.len(), 2);
}

#[test]
fn empty_source_tree_is_feasible() {
    let r = snapshot().resolve();
    assert!(r.feasible);
    assert!(r.decisions.is_empty());
}
