use vstd::prelude::*;

verus! {

/// The repository's path when none is given: the current directory.
pub open spec fn default_path() -> Seq<char> {
    seq!['.']
}

/// The reference to analyse when none is given: the current head.
pub open spec fn default_branch() -> Seq<char> {
    seq!['H', 'E', 'A', 'D']
}

/// What a run is asked to do: which repository, which reference, and
/// whether to open the dashboard instead of printing a report.
pub struct Options {
    pub path: String,
    pub branch: String,
    pub tui: bool,
}

/// The command line's arguments, with the repository's path under `repo`.
pub struct Args {
    pub repo: String,
    pub branch: String,
    pub tui: bool,
}

impl Default for Options {
    fn default() -> (r: Options)
        ensures
            r.path@ == default_path(),
            r.branch@ == default_branch(),
            !r.tui,
    {
        let r = Options {
            path: String::from_str("."),
            branch: String::from_str("HEAD"),
            tui: false,
        };
        proof {
            reveal_strlit(".");
            reveal_strlit("HEAD");
        }
        assert(r.path@ =~= default_path());
        assert(r.branch@ =~= default_branch());
        r
    }
}

impl Default for Args {
    fn default() -> (r: Args)
        ensures
            r.repo@ == default_path(),
            r.branch@ == default_branch(),
            !r.tui,
    {
        let r = Args { repo: String::from_str("."), branch: String::from_str("HEAD"), tui: false };
        proof {
            reveal_strlit(".");
            reveal_strlit("HEAD");
        }
        assert(r.repo@ =~= default_path());
        assert(r.branch@ =~= default_branch());
        r
    }
}

} // verus!
