//! Argument handling: separates the pattern and the file patterns from the
//! flags, demands at least one of each, and renders the usage text every
//! argument error carries.

use crate::error::RepError;
use crate::flags::{args_tail, flags_in, parse_flags, spec_flag_of, Flag};
use crate::text::{seq_views, str_eq};
use vstd::prelude::*;

verus! {

/// The fully parsed command line: the flags in order, the pattern, and at
/// least one file pattern.
#[derive(Debug)]
pub struct ParsedArgs {
    pub flags: Vec<Flag>,
    pub pattern: String,
    pub file_patterns: Vec<String>,
}

/// The usage text, with the program's own name spliced in.
pub open spec fn spec_usage(program: Seq<char>) -> Seq<char> {
    "Usage: "@ + program
        + " [OPTIONS] <PATTERN> <FILE(S)...>\n\nOptions:\n  -n    Show line numbers\n  -i    Case-insensitive search\n  -c    Count matches only\n  -v    Invert match (show non-matching lines)\n  -w    Match whole words only\n  -V    Verbose mode\n\nExamples:\n  "@
        + program + " \"hello\" file.txt\n  "@ + program + " -n \"error\" *.log\n  "@ + program
        + " -i \"TODO\" src/*.rs"@
}

impl ParsedArgs {
    /// Renders the usage text `spec_usage` describes.
    fn usage_string(program_name: &str) -> (r: String)
        ensures
            r@ == spec_usage(program_name@),
    {
        let mut s = String::from_str("Usage: ");
        s.append(program_name);
        s.append(
            " [OPTIONS] <PATTERN> <FILE(S)...>\n\nOptions:\n  -n    Show line numbers\n  -i    Case-insensitive search\n  -c    Count matches only\n  -v    Invert match (show non-matching lines)\n  -w    Match whole words only\n  -V    Verbose mode\n\nExamples:\n  ",
        );
        s.append(program_name);
        s.append(" \"hello\" file.txt\n  ");
        s.append(program_name);
        s.append(" -n \"error\" *.log\n  ");
        s.append(program_name);
        s.append(" -i \"TODO\" src/*.rs");
        proof {
            assert(s@ =~= spec_usage(program_name@));
        }
        s
    }
}

/// The non-flag tokens among `argv`, in order.
pub open spec fn non_flags_in(argv: Seq<Seq<char>>) -> Seq<Seq<char>>
    decreases argv.len(),
{
    if argv.len() == 0 {
        Seq::empty()
    } else {
        let prefix = non_flags_in(argv.drop_last());
        if spec_flag_of(argv.last()) is None {
            prefix.push(argv.last())
        } else {
            prefix
        }
    }
}

/// The argument list asks for the usage text explicitly.
pub open spec fn wants_help(argv: Seq<Seq<char>>) -> bool {
    argv.len() >= 2 && (argv[1] == "--help"@ || argv[1] == "-h"@)
}

/// Keeps the tokens (program name skipped) that name no flag.
fn extract_non_flag_args(args: &[String]) -> (r: Vec<String>)
    ensures
        seq_views(r@) == non_flags_in(args_tail(seq_views(args@))),
{
    let mut r: Vec<String> = Vec::new();
    let n = args.len();
    if n == 0 {
        proof {
            assert(seq_views(r@) =~= non_flags_in(args_tail(seq_views(args@))));
        }
        return r;
    }
    let ghost tail = args_tail(seq_views(args@));
    let mut i: usize = 1;
    proof {
        assert(tail.take(0) =~= Seq::<Seq<char>>::empty());
        assert(seq_views(r@) =~= Seq::<Seq<char>>::empty());
    }
    while i < n
        invariant
            1 <= i <= n,
            n == args@.len(),
            tail == args_tail(seq_views(args@)),
            tail.len() == n - 1,
            seq_views(r@) == non_flags_in(tail.take(i - 1)),
        decreases n - i,
    {
        let a = &args[i];
        proof {
            assert(tail[i - 1] == args@[i as int]@);
            assert(tail.take(i as int).drop_last() =~= tail.take(i - 1));
            assert(tail.take(i as int).last() == tail[i - 1]);
        }
        match Flag::from_arg(a.as_str()) {
            Some(_) => {},
            None => {
                let ghost old_views = seq_views(r@);
                r.push(a.clone());
                proof {
                    assert(seq_views(r@) =~= old_views.push(a@));
                }
            },
        }
        i = i + 1;
    }
    proof {
        assert(tail.take(n - 1) =~= tail);
    }
    r
}

/// Parses the whole command line.  Success needs a program name, no help
/// request, at least three tokens, and at least two non-flag tokens: the
/// pattern, then one or more file patterns.  Every refusal names its cause
/// and carries the usage text.
pub fn parse_args(args: &[String]) -> (r: Result<ParsedArgs, RepError>)
    ensures
        r is Ok <==> (seq_views(args@).len() >= 3 && !wants_help(seq_views(args@)) && non_flags_in(
            args_tail(seq_views(args@)),
        ).len() >= 2),
        r matches Ok(pa) ==> pa.flags@ == flags_in(args_tail(seq_views(args@))) && pa.pattern@
            == non_flags_in(args_tail(seq_views(args@)))[0] && seq_views(pa.file_patterns@)
            == non_flags_in(args_tail(seq_views(args@))).skip(1),
        args@.len() == 0 ==> (r matches Err(RepError::InvalidArguments(m)) && m@
            == "No program name provided (this is unusual - are you calling this correctly?)"@),
        args@.len() > 0 && wants_help(seq_views(args@)) ==> (r matches Err(RepError::Help(u)) && u@
            == spec_usage(args@[0]@)),
        args@.len() == 1 ==> (r matches Err(RepError::InvalidArguments(m)) && m@
            == "Missing search pattern and file(s)\n\n"@ + spec_usage(args@[0]@)),
        args@.len() == 2 && !wants_help(seq_views(args@)) ==> (r matches Err(
            RepError::InvalidArguments(m),
        ) && m@ == "Missing file(s) to search in\n\n"@ + spec_usage(args@[0]@)),
        args@.len() >= 3 && !wants_help(seq_views(args@)) && non_flags_in(
            args_tail(seq_views(args@)),
        ).len() == 0 ==> (r matches Err(RepError::InvalidArguments(m)) && m@
            == "No search pattern provided - all arguments appear to be flags\n\n"@ + spec_usage(
            args@[0]@,
        )),
        args@.len() >= 3 && !wants_help(seq_views(args@)) && non_flags_in(
            args_tail(seq_views(args@)),
        ).len() == 1 ==> (r matches Err(RepError::InvalidArguments(m)) && m@
            == "No files specified to search in\n\n"@ + spec_usage(args@[0]@)),
{
    if args.len() == 0 {
        return Err(
            RepError::InvalidArguments(
                String::from_str(
                    "No program name provided (this is unusual - are you calling this correctly?)",
                ),
            ),
        );
    }
    let program_name = &args[0];
    if args.len() >= 2 {
        let a1 = &args[1];
        if str_eq(a1.as_str(), "--help") || str_eq(a1.as_str(), "-h") {
            return Err(RepError::Help(ParsedArgs::usage_string(program_name.as_str())));
        }
    }
    if args.len() < 3 {
        let mut msg = if args.len() == 1 {
            String::from_str("Missing search pattern and file(s)\n\n")
        } else {
            String::from_str("Missing file(s) to search in\n\n")
        };
        msg.append(ParsedArgs::usage_string(program_name.as_str()).as_str());
        return Err(RepError::InvalidArguments(msg));
    }
    let flags = parse_flags(args);
    let non_flag_args = extract_non_flag_args(args);
    if non_flag_args.len() == 0 {
        let mut msg = String::from_str(
            "No search pattern provided - all arguments appear to be flags\n\n",
        );
        msg.append(ParsedArgs::usage_string(program_name.as_str()).as_str());
        return Err(RepError::InvalidArguments(msg));
    }
    if non_flag_args.len() < 2 {
        let mut msg = String::from_str("No files specified to search in\n\n");
        msg.append(ParsedArgs::usage_string(program_name.as_str()).as_str());
        return Err(RepError::InvalidArguments(msg));
    }
    let pattern = non_flag_args[0].clone();
    let ghost nf = non_flags_in(args_tail(seq_views(args@)));
    let mut file_patterns: Vec<String> = Vec::new();
    let mut i: usize = 1;
    proof {
        assert(seq_views(file_patterns@) =~= nf.subrange(1, 1));
    }
    while i < non_flag_args.len()
        invariant
            1 <= i <= non_flag_args@.len(),
            seq_views(non_flag_args@) == nf,
            nf.len() == non_flag_args@.len(),
            seq_views(file_patterns@) == nf.subrange(1, i as int),
        decreases non_flag_args@.len() - i,
    {
        let a = &non_flag_args[i];
        let ghost old_views = seq_views(file_patterns@);
        file_patterns.push(a.clone());
        proof {
            assert(seq_views(file_patterns@) =~= old_views.push(a@));
            assert(nf.subrange(1, i + 1) =~= nf.subrange(1, i as int).push(nf[i as int]));
        }
        i = i + 1;
    }
    proof {
        assert(nf.subrange(1, nf.len() as int) =~= nf.skip(1));
    }
    Ok(ParsedArgs { flags, pattern, file_patterns })
}

} // verus!
