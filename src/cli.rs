//! The options of the three commands, and what the `info` command shows.
use vstd::prelude::*;

verus! {

/// Options of the `info` command: each flag selects one piece of build
/// information.
pub struct InfoArg {
    pub target: bool,
    pub host: bool,
    pub time: bool,
    pub profile: bool,
    pub rust: bool,
    pub version: bool,
}

/// Options of the `link` command.
pub struct LinkArg {
    /// The packages whose files are linked.
    pub pkgs: Vec<String>,
    /// Link the files of every package.
    pub all: bool,
    /// Remove what occupies a destination where that is safe, then link.
    pub force: bool,
    /// Only show what would be linked.
    pub dry: bool,
}

/// Options of the `run` command.
pub struct RunArg {
    /// The packages whose scripts are run.
    pub pkgs: Vec<String>,
    /// Run the scripts of every package.
    pub all: bool,
    /// Only show which scripts would be run.
    pub dry: bool,
}

/// The commands.
pub enum CliArg {
    Run(RunArg),
    Link(LinkArg),
    Info(InfoArg),
}

/// What is known of the build, as text.
pub struct BuildInfo {
    pub target: String,
    pub host: String,
    pub time: String,
    pub profile: String,
    pub rust: String,
    pub version: String,
}

/// The version as shown: `v` before the package version.
pub fn build_version(pkg_version: &str) -> (r: String)
    ensures
        r@ == seq!['v'] + pkg_version@,
{
    let mut r = String::from_str("v");
    proof {
        reveal_strlit("v");
    }
    r.append(pkg_version);
    r
}

/// The build host as shown, with the continuous-integration platform that
/// built it in parentheses, if any.
pub fn build_host(host: &str, ci: Option<&str>) -> (r: String)
    ensures
        r@ == match ci {
            None => host@,
            Some(c) => host@ + " ("@ + c@ + ")"@,
        },
{
    let mut r = String::from_str(host);
    if let Some(c) = ci {
        r.append(" (");
        r.append(c);
        r.append(")");
    }
    r
}

/// `s` as a one-line list where `flag` is set, else the empty list.
pub open spec fn line_if(flag: bool, s: Seq<char>) -> Seq<Seq<char>> {
    if flag {
        seq![s]
    } else {
        seq![]
    }
}

/// The pieces of build information that `arg` selects, in a fixed order.
pub open spec fn flagged(arg: InfoArg, info: BuildInfo) -> Seq<Seq<char>> {
    line_if(arg.target, info.target@) + line_if(arg.host, info.host@) + line_if(arg.time, info.time@)
        + line_if(arg.profile, info.profile@) + line_if(arg.rust, info.rust@) + line_if(
        arg.version,
        info.version@,
    )
}

fn push_if(lines: &mut Vec<String>, flag: bool, s: &String)
    ensures
        final(lines)@.map_values(|l: String| l@) == old(lines)@.map_values(|l: String| l@) + line_if(
            flag,
            s@,
        ),
{
    let ghost before = lines@;
    if flag {
        lines.push(s.clone());
    }
    assert(lines@.map_values(|l: String| l@) =~= before.map_values(|l: String| l@) + line_if(
        flag,
        s@,
    ));
}

/// The lines that `info` shows when flags select what to show; empty when
/// no flag is set, in which case everything is shown with labels.
pub fn flagged_lines(arg: &InfoArg, info: &BuildInfo) -> (r: Vec<String>)
    ensures
        r@.map_values(|l: String| l@) == flagged(*arg, *info),
{
    let mut lines: Vec<String> = Vec::new();
    assert(lines@.map_values(|l: String| l@) =~= Seq::<Seq<char>>::empty());
    push_if(&mut lines, arg.target, &info.target);
    push_if(&mut lines, arg.host, &info.host);
    push_if(&mut lines, arg.time, &info.time);
    push_if(&mut lines, arg.profile, &info.profile);
    push_if(&mut lines, arg.rust, &info.rust);
    push_if(&mut lines, arg.version, &info.version);
    assert(lines@.map_values(|l: String| l@) =~= flagged(*arg, *info));
    lines
}

} // verus!
