use dottie::cli::{build_host, build_version, flagged_lines, BuildInfo, InfoArg};
use dottie::dir::{app_dir, get, Dir, DirError};
use dottie::execute::Outcome;
use dottie::resolve::Verdict;
use dottie::summary::{package_step, status, LinkSummary, PackageStep, Status};

fn path(parts: &[&str]) -> Vec<String> {
    parts.iter().map(|s| s.to_string()).collect()
}

#[test]
fn layout_paths() {
    let app = app_dir(&path(&["/", "home", "me"]));
    assert_eq!(app, path(&["/", "home", "me", ".dottie"]));
    assert_eq!(get(&app, Dir::App), app);
    assert_eq!(
        get(&app, Dir::Pkg { pkg_name: "vim".to_string() }),
        path(&["/", "home", "me", ".dottie", "vim"])
    );
    assert_eq!(
        get(&app, Dir::Files { pkg_name: "vim".to_string() }),
        path(&["/", "home", "me", ".dottie", "vim", "files"])
    );
    assert_eq!(
        get(&app, Dir::Scripts { pkg_name: "vim".to_string() }),
        path(&["/", "home", "me", ".dottie", "vim", "scripts"])
    );
}

#[test]
fn directory_names_in_messages() {
    assert_eq!(Dir::App.describe(), "App directory `~/.dottie`");
    assert_eq!(
        Dir::Pkg { pkg_name: "vim".to_string() }.describe(),
        "Package Directory: vim"
    );
    assert_eq!(
        Dir::Files { pkg_name: "vim".to_string() }.describe(),
        "Files Directory for Package: vim"
    );
    assert_eq!(
        Dir::Scripts { pkg_name: "vim".to_string() }.describe(),
        "Scripts Directory for Package: vim"
    );
}

#[test]
fn directory_error_messages() {
    let e = DirError::CannotConfirmDirExistence(Dir::App, "permission denied".to_string());
    assert_eq!(
        e.describe(),
        "Cannot confirm existence of App directory `~/.dottie`: permission denied"
    );
    let e = DirError::FailedToCreateDir(
        Dir::Pkg { pkg_name: "zsh".to_string() },
        "read-only file system".to_string(),
    );
    assert_eq!(
        e.describe(),
        "Failed to create directory Package Directory: zsh: read-only file system"
    );
}

#[test]
fn version_and_host() {
    assert_eq!(build_version("1.2.3"), "v1.2.3");
    assert_eq!(build_version(""), "v");
    assert_eq!(build_host("x86_64-linux", None), "x86_64-linux");
    assert_eq!(build_host("x86_64-linux", Some("GitHub")), "x86_64-linux (GitHub)");
}

fn info() -> BuildInfo {
    BuildInfo {
        target: "T".to_string(),
        host: "H".to_string(),
        time: "2024-01-01 00:00:00 UTC".to_string(),
        profile: "release".to_string(),
        rust: "rustc 1.80".to_string(),
        version: "v0.1.0".to_string(),
    }
}

#[test]
fn flags_select_lines_in_order() {
    let arg = InfoArg { target: false, host: true, time: false, profile: false, rust: true, version: true };
    assert_eq!(flagged_lines(&arg, &info()), vec!["H", "rustc 1.80", "v0.1.0"]);
    let none = InfoArg { target: false, host: false, time: false, profile: false, rust: false, version: false };
    assert!(flagged_lines(&none, &info()).is_empty());
    let all = InfoArg { target: true, host: true, time: true, profile: true, rust: true, version: true };
    assert_eq!(flagged_lines(&all, &info()).len(), 6);
}

#[test]
fn package_steps() {
    assert_eq!(package_step(false, false), PackageStep::Missing);
    assert_eq!(package_step(false, true), PackageStep::Missing);
    assert_eq!(package_step(true, false), PackageStep::Empty);
    assert_eq!(package_step(true, true), PackageStep::Proceed);
}

#[test]
fn summary_sorts_packages() {
    let mut s = LinkSummary::new();
    assert!(!s.take_package("gone".to_string(), false, false));
    assert!(!s.take_package("bare".to_string(), true, false));
    assert!(s.take_package("vim".to_string(), true, true));
    s.record("vim".to_string(), Vec::new(), Vec::new());
    assert_eq!(s.non_exist, vec!["gone"]);
    assert_eq!(s.no_files, vec!["bare"]);
    assert_eq!(s.details.len(), 1);
    assert_eq!(s.details[0].pkg_name, "vim");
}

#[test]
fn statuses_for_report() {
    assert_eq!(status(Verdict::Linkable, None), Status::Planned);
    assert_eq!(status(Verdict::AlreadyLinked, None), Status::Exists);
    assert_eq!(status(Verdict::Conflict, None), Status::Occupied);
    assert_eq!(status(Verdict::Linkable, Some(&Outcome::Linked)), Status::Linked);
    assert_eq!(status(Verdict::Conflict, Some(&Outcome::Forced)), Status::Forced);
    assert_eq!(status(Verdict::Conflict, Some(&Outcome::Skipped)), Status::Occupied);
    assert_eq!(
        status(Verdict::Conflict, Some(&Outcome::RemoveFailed { reason: "busy".to_string() })),
        Status::Failed
    );
    assert_eq!(
        status(Verdict::Linkable, Some(&Outcome::LinkFailed { reason: "denied".to_string() })),
        Status::Failed
    );
    assert_eq!(status(Verdict::AlreadyLinked, Some(&Outcome::Satisfied)), Status::Exists);
}
