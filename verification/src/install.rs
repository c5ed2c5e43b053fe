//! Where the editor installs itself, and what is done about what is there already.

use vstd::prelude::*;

use crate::paths;
use crate::paths::join_paths;
use crate::scan;
use crate::text::{join2, join3, owned};

verus! {

/// What is at the place that the editor is to be installed at.
#[derive(Clone, Copy, Debug, PartialEq, Eq, Structural)]
pub enum Found {
    Nothing,
    Directory,
    Symlink,
    /// A file: the binary that is running, or another.
    File { running: bool },
}

/// What is to be done.
#[derive(Debug)]
pub enum Plan {
    /// Why nothing is done.
    Refuse(String),
    /// What is said where nothing is left to do.
    Done(String),
    /// Copy the binary; first remove what is there, if anything is.
    Copy { replace: bool },
}

pub enum PlanModel {
    Refuse(Seq<char>),
    Done(Seq<char>),
    Copy { replace: bool },
}

impl View for Plan {
    type V = PlanModel;

    open spec fn view(&self) -> PlanModel {
        match *self {
            Plan::Refuse(s) => PlanModel::Refuse(s@),
            Plan::Done(s) => PlanModel::Done(s@),
            Plan::Copy { replace } => PlanModel::Copy { replace },
        }
    }
}

/// The directory that the editor is installed in.
pub fn install_dir(home: &str) -> (r: String)
    ensures
        r@ == paths::join(home@, ".local/bin"@),
{
    join_paths(home, ".local/bin")
}

/// The path that the editor is installed at.
pub fn install_target(home: &str) -> (r: String)
    ensures
        r@ == paths::join(paths::join(home@, ".local/bin"@), "dyad"@),
{
    join_paths(&install_dir(home), "dyad")
}

/// What is done about what is there: a directory is not overwritten, the running
/// binary is left alone, and anything else is replaced.
pub open spec fn planned(target: Seq<char>, found: Found) -> PlanModel {
    match found {
        Found::Nothing => PlanModel::Copy { replace: false },
        Found::Directory => PlanModel::Refuse(
            "refusing to overwrite "@ + target + ": it is a directory"@,
        ),
        Found::Symlink => PlanModel::Copy { replace: true },
        Found::File { running } => if running {
            PlanModel::Done("dyad is already installed at "@ + target)
        } else {
            PlanModel::Copy { replace: true }
        },
    }
}

/// What is to be done to install the editor at `target`.
pub fn plan(target: &str, found: Found) -> (r: Plan)
    ensures
        r@ == planned(target@, found),
{
    match found {
        Found::Nothing => Plan::Copy { replace: false },
        Found::Directory => Plan::Refuse(
            join3("refusing to overwrite ", target, ": it is a directory"),
        ),
        Found::Symlink => Plan::Copy { replace: true },
        Found::File { running } => {
            if running {
                Plan::Done(join2("dyad is already installed at ", target))
            } else {
                Plan::Copy { replace: true }
            }
        },
    }
}

/// What is said once the editor is installed; with a hint if its directory is not
/// among those that programs are looked for in.
pub open spec fn report_lines(
    target: Seq<char>,
    source: Seq<char>,
    dir: Seq<char>,
    on_path: bool,
) -> Seq<Seq<char>> {
    let done = seq!["Installed dyad to "@ + target, "  copied from "@ + source];
    if on_path {
        done
    } else {
        done + seq![
            ""@,
            "Note: "@ + dir + " is not on your PATH."@,
            "Add this to your shell profile:"@,
            "  export PATH=\"$HOME/.local/bin:$PATH\""@,
        ]
    }
}

/// What is said once the editor is installed.
pub fn report(target: &str, source: &str, dir: &str, on_path: bool) -> (r: Vec<String>)
    ensures
        scan::string_views(r@) == report_lines(target@, source@, dir@, on_path),
{
    let mut r: Vec<String> = Vec::new();
    r.push(join2("Installed dyad to ", target));
    r.push(join2("  copied from ", source));
    if !on_path {
        r.push(owned(""));
        r.push(join3("Note: ", dir, " is not on your PATH."));
        r.push(owned("Add this to your shell profile:"));
        r.push(owned("  export PATH=\"$HOME/.local/bin:$PATH\""));
    }
    assert(scan::string_views(r@) =~= report_lines(target@, source@, dir@, on_path));
    r
}

} // verus!
