//! The closed set of command-line switches and the filter that picks them
//! out of an argument list.

use crate::text::{seq_views, str_eq};
use vstd::prelude::*;

verus! {

/// One recognized command-line switch.
#[derive(Debug, PartialEq, Eq, Structural, Clone, Copy)]
pub enum Flag {
    LineNumbers,
    CaseInsensitive,
    Invert,
    Count,
    /// Reserved for whole-word matching: parsed into the flag list, but
    /// consulted by no configuration.
    WordMatch,
    Verbose,
}

/// Which flag, if any, a single argument token stands for.
pub open spec fn spec_flag_of(arg: Seq<char>) -> Option<Flag> {
    if arg == "-n"@ {
        Some(Flag::LineNumbers)
    } else if arg == "-i"@ {
        Some(Flag::CaseInsensitive)
    } else if arg == "-c"@ {
        Some(Flag::Count)
    } else if arg == "-v"@ {
        Some(Flag::Invert)
    } else if arg == "-w"@ {
        Some(Flag::WordMatch)
    } else if arg == "-V"@ {
        Some(Flag::Verbose)
    } else {
        None
    }
}

impl Flag {
    /// Maps exactly the six literal tokens to their flags; anything else is
    /// not a flag.
    pub fn from_arg(arg: &str) -> (r: Option<Flag>)
        ensures
            r == spec_flag_of(arg@),
    {
        if str_eq(arg, "-n") {
            Some(Flag::LineNumbers)
        } else if str_eq(arg, "-i") {
            Some(Flag::CaseInsensitive)
        } else if str_eq(arg, "-c") {
            Some(Flag::Count)
        } else if str_eq(arg, "-v") {
            Some(Flag::Invert)
        } else if str_eq(arg, "-w") {
            Some(Flag::WordMatch)
        } else if str_eq(arg, "-V") {
            Some(Flag::Verbose)
        } else {
            None
        }
    }
}

/// The argument list with the program-name token removed.
pub open spec fn args_tail(argv: Seq<Seq<char>>) -> Seq<Seq<char>> {
    if argv.len() == 0 {
        argv
    } else {
        argv.drop_first()
    }
}

/// The recognized flags among `argv`, in their original relative order,
/// duplicates kept.
pub open spec fn flags_in(argv: Seq<Seq<char>>) -> Seq<Flag>
    decreases argv.len(),
{
    if argv.len() == 0 {
        Seq::empty()
    } else {
        let prefix = flags_in(argv.drop_last());
        match spec_flag_of(argv.last()) {
            Some(f) => prefix.push(f),
            None => prefix,
        }
    }
}

/// Filters the argument list (program name skipped) down to its recognized
/// flags, preserving order and duplicates.
pub fn parse_flags(args: &[String]) -> (r: Vec<Flag>)
    ensures
        r@ == flags_in(args_tail(seq_views(args@))),
{
    let mut r: Vec<Flag> = Vec::new();
    let n = args.len();
    if n == 0 {
        return r;
    }
    let ghost tail = args_tail(seq_views(args@));
    let mut i: usize = 1;
    proof {
        assert(tail.take(0) =~= Seq::<Seq<char>>::empty());
    }
    while i < n
        invariant
            1 <= i <= n,
            n == args@.len(),
            tail == args_tail(seq_views(args@)),
            tail.len() == n - 1,
            r@ == flags_in(tail.take(i - 1)),
        decreases n - i,
    {
        let a = &args[i];
        proof {
            assert(tail[i - 1] == args@[i as int]@);
            assert(tail.take(i as int).drop_last() =~= tail.take(i - 1));
            assert(tail.take(i as int).last() == tail[i - 1]);
        }
        match Flag::from_arg(a.as_str()) {
            Some(f) => {
                r.push(f);
            },
            None => {},
        }
        i = i + 1;
    }
    proof {
        assert(tail.take(n - 1) =~= tail);
    }
    r
}

/// Whether `f` occurs among `flags`.
pub fn has_flag(flags: &[Flag], f: Flag) -> (b: bool)
    ensures
        b == flags@.contains(f),
{
    let mut i: usize = 0;
    while i < flags.len()
        invariant
            i <= flags@.len(),
            forall|j: int| 0 <= j < i ==> flags@[j] != f,
        decreases flags@.len() - i,
    {
        if flags[i] == f {
            return true;
        }
        i = i + 1;
    }
    false
}

} // verus!
