//! Command-line options.

use vstd::prelude::*;

verus! {

/// How the tray runs.
#[derive(Clone, Copy, PartialEq, Eq, Structural, Debug)]
pub struct RunOptions {
    /// Print info logs to stdout.
    pub verbose: bool,
    /// Exit when no device remains in sysfs.
    pub quit_on_disconnect: bool,
}

/// What the command line asks for.
pub enum ArgsOutcome {
    Run(RunOptions),
    Help,
    Version,
    /// An argument that is no option.
    Unknown(String),
}

pub open spec fn is_help(a: Seq<char>) -> bool {
    a == "-h"@ || a == "--help"@
}

pub open spec fn is_version(a: Seq<char>) -> bool {
    a == "-V"@ || a == "--version"@
}

pub open spec fn is_verbose(a: Seq<char>) -> bool {
    a == "-v"@ || a == "--verbose"@
}

pub open spec fn is_quit_on_disconnect(a: Seq<char>) -> bool {
    a == "-q"@ || a == "--quit-on-disconnect"@
}

/// Options that only set a flag and let parsing go on.
pub open spec fn is_setting(a: Seq<char>) -> bool {
    is_verbose(a) || is_quit_on_disconnect(a)
}

/// Whether `k` is the first argument that is not a setting.
pub open spec fn stops_at(args: Seq<String>, k: int) -> bool {
    &&& 0 <= k < args.len()
    &&& !is_setting(args[k]@)
    &&& forall|i: int| 0 <= i < k ==> is_setting((#[trigger] args[i])@)
}

/// Whether `s` holds the text `w`.
fn text_is(s: &String, w: &str) -> (r: bool)
    ensures
        r == (s@ == w@),
{
    *s == String::from_str(w)
}

/// Help and version are no settings, and the two settings are apart.
proof fn lemma_option_words_distinct()
    ensures
        !is_setting("-h"@),
        !is_setting("--help"@),
        !is_setting("-V"@),
        !is_setting("--version"@),
        !is_quit_on_disconnect("-v"@),
        !is_quit_on_disconnect("--verbose"@),
        !is_verbose("-q"@),
        !is_verbose("--quit-on-disconnect"@),
        !is_help("-V"@),
        !is_help("--version"@),
        !is_version("-h"@),
        !is_version("--help"@),
{
    reveal_strlit("-h");
    reveal_strlit("--help");
    reveal_strlit("-V");
    reveal_strlit("--version");
    reveal_strlit("-v");
    reveal_strlit("--verbose");
    reveal_strlit("-q");
    reveal_strlit("--quit-on-disconnect");
    assert("-h"@[1] != "-v"@[1] && "-h"@[1] != "-q"@[1]);
    assert("-V"@[1] != "-v"@[1] && "-V"@[1] != "-q"@[1]);
    assert("--help"@.len() != "--verbose"@.len());
    assert("--help"@.len() != "--quit-on-disconnect"@.len());
    assert("--version"@[5] != "--verbose"@[5]);
    assert("--version"@.len() != "--quit-on-disconnect"@.len());
    assert("-V"@[1] != "-h"@[1]);
    assert("--version"@.len() != "--help"@.len());
    assert("--help"@.len() != "-V"@.len());
    assert("-h"@.len() != "--version"@.len());
}

/// Only one argument can be the first that is not a setting.
pub proof fn lemma_stops_at_unique(args: Seq<String>, k: int, j: int)
    requires
        stops_at(args, k),
        stops_at(args, j),
    ensures
        k == j,
{
    if k < j {
        assert(is_setting(args[k]@));
    } else if j < k {
        assert(is_setting(args[j]@));
    }
}

/// The words of the command line: `-h` and `--help` ask for help, `-V` and
/// `--version` for the version, and neither pair is a setting or the other's.
pub proof fn lemma_command_words()
    ensures
        is_help("-h"@) && is_help("--help"@),
        is_version("-V"@) && is_version("--version"@),
        !is_help("-V"@) && !is_help("--version"@),
        !is_version("-h"@) && !is_version("--help"@),
        !is_setting("-h"@) && !is_setting("--help"@) && !is_setting("-V"@) && !is_setting(
            "--version"@,
        ),
        is_verbose("-v"@) && is_verbose("--verbose"@),
        is_quit_on_disconnect("-q"@) && is_quit_on_disconnect("--quit-on-disconnect"@),
{
    lemma_option_words_distinct();
}

/// Reads the arguments (without the program name) in order: settings accumulate;
/// help, version or an unknown argument stop at once.
pub fn parse_args(args: &Vec<String>) -> (r: ArgsOutcome)
    ensures
        match r {
            ArgsOutcome::Run(o) => {
                &&& forall|i: int| 0 <= i < args.len() ==> is_setting((#[trigger] args@[i])@)
                &&& o.verbose == exists|i: int| 0 <= i < args.len() && is_verbose((#[trigger] args@[i])@)
                &&& o.quit_on_disconnect == exists|i: int|
                    0 <= i < args.len() && is_quit_on_disconnect((#[trigger] args@[i])@)
            },
            ArgsOutcome::Help => exists|k: int| stops_at(args@, k) && is_help((#[trigger] args@[k])@),
            ArgsOutcome::Version => exists|k: int|
                stops_at(args@, k) && is_version((#[trigger] args@[k])@),
            ArgsOutcome::Unknown(s) => exists|k: int|
                stops_at(args@, k) && !is_help((#[trigger] args@[k])@) && !is_version(args@[k]@)
                    && s@ == args@[k]@,
        },
        forall|k: int|
            stops_at(args@, k) && ((#[trigger] args@[k])@ == "-V"@ || args@[k]@ == "--version"@)
                ==> r is Version,
        forall|k: int|
            stops_at(args@, k) && ((#[trigger] args@[k])@ == "-h"@ || args@[k]@ == "--help"@)
                ==> r is Help,
        forall|k: int|
            stops_at(args@, k) && !((#[trigger] args@[k])@ == "-h"@ || args@[k]@ == "--help"@
                || args@[k]@ == "-V"@ || args@[k]@ == "--version"@) ==> (r matches ArgsOutcome::Unknown(
                s,
            ) && s@ == args@[k]@),
        (forall|i: int|
            0 <= i < args.len() ==> {
                let a = (#[trigger] args@[i])@;
                a == "-v"@ || a == "--verbose"@ || a == "-q"@ || a == "--quit-on-disconnect"@
            }) ==> (r matches ArgsOutcome::Run(o) && o.verbose == (exists|i: int|
            0 <= i < args.len() && ((#[trigger] args@[i])@ == "-v"@ || args@[i]@ == "--verbose"@))
            && o.quit_on_disconnect == (exists|i: int|
            0 <= i < args.len() && ((#[trigger] args@[i])@ == "-q"@ || args@[i]@
                == "--quit-on-disconnect"@))),
{
    let mut verbose = false;
    let mut quit_on_disconnect = false;
    let mut i: usize = 0;
    while i < args.len()
        invariant
            i <= args.len(),
            forall|j: int| 0 <= j < i ==> is_setting((#[trigger] args@[j])@),
            verbose == exists|j: int| 0 <= j < i && is_verbose((#[trigger] args@[j])@),
            quit_on_disconnect == exists|j: int| 0 <= j < i && is_quit_on_disconnect((#[trigger] args@[j])@),
        decreases args.len() - i,
    {
        proof {
            lemma_option_words_distinct();
        }
        let a = &args[i];
        if text_is(a, "-h") || text_is(a, "--help") {
            assert(stops_at(args@, i as int));
            assert forall|k: int| stops_at(args@, k) implies k == i by {
                lemma_stops_at_unique(args@, k, i as int);
            }
            return ArgsOutcome::Help;
        } else if text_is(a, "-V") || text_is(a, "--version") {
            assert(stops_at(args@, i as int));
            assert forall|k: int| stops_at(args@, k) implies k == i by {
                lemma_stops_at_unique(args@, k, i as int);
            }
            return ArgsOutcome::Version;
        } else if text_is(a, "-v") || text_is(a, "--verbose") {
            verbose = true;
        } else if text_is(a, "-q") || text_is(a, "--quit-on-disconnect") {
            quit_on_disconnect = true;
        } else {
            assert(stops_at(args@, i as int));
            assert forall|k: int| stops_at(args@, k) implies k == i by {
                lemma_stops_at_unique(args@, k, i as int);
            }
            return ArgsOutcome::Unknown(a.clone());
        }
        i += 1;
    }
    ArgsOutcome::Run(RunOptions { verbose, quit_on_disconnect })
}

impl ArgsOutcome {
    /// The exit status when the tray should not run: 0 after help or version,
    /// 2 after an unknown argument.
    pub fn exit_code(&self) -> (r: Option<i32>)
        ensures
            match self {
                ArgsOutcome::Run(_) => r is None,
                ArgsOutcome::Help | ArgsOutcome::Version => r == Some(0i32),
                ArgsOutcome::Unknown(_) => r == Some(2i32),
            },
    {
        match self {
            ArgsOutcome::Run(_) => None,
            ArgsOutcome::Help => Some(0),
            ArgsOutcome::Version => Some(0),
            ArgsOutcome::Unknown(_) => Some(2),
        }
    }
}

} // verus!
