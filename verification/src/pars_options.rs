//! Reading the command-line options of the parallel command runner.
//!
//! `-J`/`--parallel N` sets the number of worker threads, `-r`/`--remote SPEC` adds
//! a remote machine, `-e`/`--halt never|lazy|eager` chooses when to stop after a
//! failure, and `-s`/`--secondary` takes a value that is not used. Every argument is
//! looked at in turn, values included.

use vstd::prelude::*;
use crate::text::str_equal;
use crate::decimal::{parse_u32, parse_unsigned};
use crate::text::string_views;

verus! {

/// Something wrong that the options held, in the order it was met.
#[derive(PartialEq, Eq, Structural, Clone, Copy, Debug)]
pub enum ArgIssue {
    /// `-r` or `--remote` was the last argument.
    MissingRemote,
    /// `-e` or `--halt` was followed by something other than never, lazy or eager.
    InvalidHalt,
    /// `-s` or `--secondary` was the last argument.
    MissingSecondary,
}

/// The options that the runner reads.
pub struct ParsOptions {
    /// Number of worker threads (2 unless set).
    pub threads_limit: u32,
    /// The remote specifications, in order.
    pub remotes: Vec<String>,
    /// 0: never halt, 1: halt lazily, 2: halt eagerly (0 unless set).
    pub termination: i32,
    pub issues: Vec<ArgIssue>,
}

/// Threads, remotes, termination and issues, as mathematical values.
pub type OptionsModel = (u32, Seq<Seq<char>>, i32, Seq<ArgIssue>);

pub open spec fn options_model(o: ParsOptions) -> OptionsModel {
    (o.threads_limit, string_views(o.remotes@), o.termination, o.issues@)
}

/// The termination mode that a `--halt` value names.
pub open spec fn halt_mode(v: Seq<char>) -> Option<i32> {
    if v == "never"@ {
        Some(0i32)
    } else if v == "lazy"@ {
        Some(1i32)
    } else if v == "eager"@ {
        Some(2i32)
    } else {
        None
    }
}

/// The options after looking at argument `k`.
pub open spec fn option_step(args: Seq<Seq<char>>, k: int, m: OptionsModel) -> OptionsModel {
    let (threads, remotes, termination, issues) = m;
    let arg = args[k];
    let has_next = k + 1 < args.len();
    let next = args[k + 1];
    if arg == "-J"@ || arg == "--parallel"@ {
        if has_next && parse_unsigned(next, u32::MAX as nat) is Some {
            (parse_unsigned(next, u32::MAX as nat)->Some_0 as u32, remotes, termination, issues)
        } else {
            m
        }
    } else if arg == "-r"@ || arg == "--remote"@ {
        if has_next {
            (threads, remotes.push(next), termination, issues)
        } else {
            (threads, remotes, termination, issues.push(ArgIssue::MissingRemote))
        }
    } else if arg == "-e"@ || arg == "--halt"@ {
        if has_next {
            match halt_mode(next) {
                Some(t) => (threads, remotes, t, issues),
                None => (threads, remotes, termination, issues.push(ArgIssue::InvalidHalt)),
            }
        } else {
            m
        }
    } else if arg == "-s"@ || arg == "--secondary"@ {
        if has_next {
            m
        } else {
            (threads, remotes, termination, issues.push(ArgIssue::MissingSecondary))
        }
    } else {
        m
    }
}

/// The options after looking at the first `k` arguments.
pub open spec fn options_after(args: Seq<Seq<char>>, k: nat) -> OptionsModel
    decreases k,
{
    if k == 0 {
        (2u32, Seq::empty(), 0i32, Seq::empty())
    } else {
        option_step(args, k - 1, options_after(args, (k - 1) as nat))
    }
}

/// `-e`/`--halt` followed by `never`, `lazy` or `eager` sets the termination mode to
/// 0, 1 or 2 and changes nothing else; followed by anything else it keeps the mode
/// and records an invalid halt value.
pub proof fn lemma_halt_values(args: Seq<Seq<char>>, k: int, m: OptionsModel)
    requires
        0 <= k,
        k + 1 < args.len(),
        args[k] == "-e"@ || args[k] == "--halt"@,
    ensures
        args[k + 1] == "never"@ ==> option_step(args, k, m) == (m.0, m.1, 0i32, m.3),
        args[k + 1] == "lazy"@ ==> option_step(args, k, m) == (m.0, m.1, 1i32, m.3),
        args[k + 1] == "eager"@ ==> option_step(args, k, m) == (m.0, m.1, 2i32, m.3),
        args[k + 1] != "never"@ && args[k + 1] != "lazy"@ && args[k + 1] != "eager"@
            ==> option_step(args, k, m) == (m.0, m.1, m.2, m.3.push(ArgIssue::InvalidHalt)),
{
    reveal_strlit("-e");
    reveal_strlit("--halt");
    reveal_strlit("-J");
    reveal_strlit("--parallel");
    reveal_strlit("-r");
    reveal_strlit("--remote");
    reveal_strlit("never");
    reveal_strlit("lazy");
    reveal_strlit("eager");
    assert("-e"@[1] == 'e' && "-J"@[1] == 'J' && "-r"@[1] == 'r');
    assert("--halt"@.len() == 6 && "--parallel"@.len() == 10 && "--remote"@.len() == 8);
    assert("never"@[0] == 'n' && "eager"@[0] == 'e' && "lazy"@.len() == 4);
}

/// Reads the options from all the arguments (the program name included, as the
/// runner does).
pub fn parse_options(args: &Vec<String>) -> (r: ParsOptions)
    ensures
        options_model(r) == options_after(string_views(args@), args@.len() as nat),
{
    let ghost a = string_views(args@);
    let mut threads_limit: u32 = 2;
    let mut remotes: Vec<String> = Vec::new();
    let mut termination: i32 = 0;
    let mut issues: Vec<ArgIssue> = Vec::new();
    let mut index: usize = 0;
    while index < args.len()
        invariant
            index <= args@.len(),
            a == string_views(args@),
            (threads_limit, string_views(remotes@), termination, issues@) == options_after(a, index as nat),
        decreases args@.len() - index,
    {
        let arg = args[index].as_str();
        let has_next = index + 1 < args.len();
        let ghost before = (threads_limit, string_views(remotes@), termination, issues@);
        assert(arg@ == a[index as int]);
        if str_equal(arg, "-J") || str_equal(arg, "--parallel") {
            if has_next {
                assert(args[index + 1]@ == a[index + 1]);
                if let Some(j) = parse_u32(args[index + 1].as_str()) {
                    threads_limit = j;
                }
            }
        } else if str_equal(arg, "-r") || str_equal(arg, "--remote") {
            if has_next {
                assert(args[index + 1]@ == a[index + 1]);
                remotes.push(args[index + 1].clone());
                assert(string_views(remotes@) =~= before.1.push(a[index + 1]));
            } else {
                issues.push(ArgIssue::MissingRemote);
            }
        } else if str_equal(arg, "-e") || str_equal(arg, "--halt") {
            if has_next {
                let value = args[index + 1].as_str();
                assert(value@ == a[index + 1]);
                if str_equal(value, "never") {
                    termination = 0;
                } else if str_equal(value, "lazy") {
                    termination = 1;
                } else if str_equal(value, "eager") {
                    termination = 2;
                } else {
                    issues.push(ArgIssue::InvalidHalt);
                }
            }
        } else if str_equal(arg, "-s") || str_equal(arg, "--secondary") {
            if !has_next {
                issues.push(ArgIssue::MissingSecondary);
            }
        }
        index = index + 1;
    }
    ParsOptions { threads_limit, remotes, termination, issues }
}

} // verus!
