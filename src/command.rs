//! Turning a command line into the program, arguments and working directory
//! to run, and the settings shared by a run.

use crate::text::{split_words, string_views, words};
use vstd::prelude::*;

verus! {

/// Settings of a run, handed to whatever needs them.
#[derive(Clone, Copy, Debug, PartialEq, Eq, Structural)]
pub struct Config {
    pub verbose: bool,
}

impl Config {
    pub fn new(verbose: bool) -> (r: Config)
        ensures
            r.verbose == verbose,
    {
        Config { verbose }
    }

    pub fn set_verbose(&mut self, verbose: bool)
        ensures
            final(self).verbose == verbose,
    {
        self.verbose = verbose;
    }

    pub fn is_verbose(&self) -> (r: bool)
        ensures
            r == self.verbose,
    {
        self.verbose
    }
}

/// A program to run, with its arguments and, if given, its working directory.
pub struct Invocation {
    pub program: String,
    pub args: Vec<String>,
    pub cwd: Option<String>,
}

pub open spec fn cwd_view(c: Option<String>) -> Option<Seq<char>> {
    match c {
        Some(s) => Some(s@),
        None => None,
    }
}

/// The first word of `cmd` is the program, the other words its arguments.
pub open spec fn planned(cmd: Seq<char>, cwd: Option<Seq<char>>, inv: Invocation) -> bool {
    &&& inv.program@ == words(cmd)[0]
    &&& string_views(inv.args@) == words(cmd).drop_first()
    &&& cwd_view(inv.cwd) == cwd
}

/// Splits `cmd` on whitespace into the program and its arguments.
pub fn exec_with_optional_cwd(cmd: &str, cwd: Option<String>) -> (r: Invocation)
    requires
        words(cmd@).len() > 0,
    ensures
        planned(cmd@, cwd_view(cwd), r),
{
    let mut parts = split_words(cmd);
    let ghost all = parts@;
    let program = parts.remove(0);
    assert(string_views(parts@) =~= string_views(all).drop_first());
    Invocation { program, args: parts, cwd }
}

/// The command line `cmd`, to run in the current directory.
pub fn exec(cmd: &str) -> (r: Invocation)
    requires
        words(cmd@).len() > 0,
    ensures
        planned(cmd@, None, r),
{
    exec_with_optional_cwd(cmd, None)
}

/// The command line `cmd`, to run in the directory `cwd`.
pub fn exec_in(cmd: &str, cwd: &str) -> (r: Invocation)
    requires
        words(cmd@).len() > 0,
    ensures
        planned(cmd@, Some(cwd@), r),
{
    exec_with_optional_cwd(cmd, Some(cwd.to_owned()))
}

} // verus!
