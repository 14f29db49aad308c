//! The layout of the application directory: one directory per package, each
//! with a `files` tree and a `scripts` tree.
use vstd::prelude::*;
use crate::paths::{child_path, comps, copy_path};

verus! {

/// A directory of the layout.
#[derive(Debug, Clone)]
pub enum Dir {
    /// The application directory itself.
    App,
    /// The directory of a package.
    Pkg { pkg_name: String },
    /// The `files` tree of a package.
    Files { pkg_name: String },
    /// The `scripts` tree of a package.
    Scripts { pkg_name: String },
}

/// The path of `dir`, where the application directory is `app`.
pub open spec fn dir_path(app: Seq<Seq<char>>, dir: Dir) -> Seq<Seq<char>> {
    match dir {
        Dir::App => app,
        Dir::Pkg { pkg_name } => app.push(pkg_name@),
        Dir::Files { pkg_name } => app.push(pkg_name@).push("files"@),
        Dir::Scripts { pkg_name } => app.push(pkg_name@).push("scripts"@),
    }
}

/// The application directory under the home directory `home`.
pub fn app_dir(home: &Vec<String>) -> (r: Vec<String>)
    ensures
        comps(r@) == comps(home@).push(".dottie"@),
{
    child_path(home, &String::from_str(".dottie"))
}

/// The path of `dir`, where the application directory is `app`.
pub fn get(app: &Vec<String>, dir: Dir) -> (r: Vec<String>)
    ensures
        comps(r@) == dir_path(comps(app@), dir),
{
    match dir {
        Dir::App => copy_path(app),
        Dir::Pkg { pkg_name } => child_path(app, &pkg_name),
        Dir::Files { pkg_name } => child_path(
            &child_path(app, &pkg_name),
            &String::from_str("files"),
        ),
        Dir::Scripts { pkg_name } => child_path(
            &child_path(app, &pkg_name),
            &String::from_str("scripts"),
        ),
    }
}

/// What `dir` is called in messages.
pub open spec fn dir_text(dir: Dir) -> Seq<char> {
    match dir {
        Dir::App => "App directory `~/.dottie`"@,
        Dir::Pkg { pkg_name } => "Package Directory: "@ + pkg_name@,
        Dir::Files { pkg_name } => "Files Directory for Package: "@ + pkg_name@,
        Dir::Scripts { pkg_name } => "Scripts Directory for Package: "@ + pkg_name@,
    }
}

impl Dir {
    /// What this directory is called in messages.
    pub fn describe(&self) -> (r: String)
        ensures
            r@ == dir_text(*self),
    {
        match self {
            Dir::App => String::from_str("App directory `~/.dottie`"),
            Dir::Pkg { pkg_name } => {
                let mut r = String::from_str("Package Directory: ");
                r.append(pkg_name.as_str());
                r
            },
            Dir::Files { pkg_name } => {
                let mut r = String::from_str("Files Directory for Package: ");
                r.append(pkg_name.as_str());
                r
            },
            Dir::Scripts { pkg_name } => {
                let mut r = String::from_str("Scripts Directory for Package: ");
                r.append(pkg_name.as_str());
                r
            },
        }
    }
}

/// A failure on a directory of the layout, with the system's reason.
#[derive(Debug)]
pub enum DirError {
    CannotConfirmDirExistence(Dir, String),
    FailedToCreateDir(Dir, String),
}

/// The message of a directory failure.
pub open spec fn dir_error_text(e: DirError) -> Seq<char> {
    match e {
        DirError::CannotConfirmDirExistence(d, reason) => "Cannot confirm existence of "@ + dir_text(
            d,
        ) + ": "@ + reason@,
        DirError::FailedToCreateDir(d, reason) => "Failed to create directory "@ + dir_text(d)
            + ": "@ + reason@,
    }
}

impl DirError {
    /// The message of this failure.
    pub fn describe(&self) -> (r: String)
        ensures
            r@ == dir_error_text(*self),
    {
        let (mut r, d, reason) = match self {
            DirError::CannotConfirmDirExistence(d, reason) => (
                String::from_str("Cannot confirm existence of "),
                d,
                reason,
            ),
            DirError::FailedToCreateDir(d, reason) => (
                String::from_str("Failed to create directory "),
                d,
                reason,
            ),
        };
        r.append(d.describe().as_str());
        r.append(": ");
        r.append(reason.as_str());
        r
    }
}

} // verus!
