//! The output formatter: renders one matched line or one per-file count as
//! its canonical text line, colon-joining the optional filename and
//! one-based line-number prefixes.

use crate::flags::{has_flag, Flag};
use crate::text::{dec_rep, usize_to_string};
use vstd::prelude::*;

verus! {

/// Whether a run prints each matched line or only a per-file count.
#[derive(Debug, PartialEq, Eq, Structural, Clone, Copy)]
pub enum OutputMode {
    FullLines,
    Count,
}

impl OutputMode {
    /// Count mode if any `Count` flag occurs, full lines otherwise.
    pub fn from_flags(flags: &[Flag]) -> (r: OutputMode)
        ensures
            r == (if flags@.contains(Flag::Count) {
                OutputMode::Count
            } else {
                OutputMode::FullLines
            }),
    {
        if has_flag(flags, Flag::Count) {
            OutputMode::Count
        } else {
            OutputMode::FullLines
        }
    }
}

/// How a run's output is rendered, derived once per run.
pub struct OutputConfig {
    pub mode: OutputMode,
    pub show_line_numbers: bool,
    pub show_filename: bool,
}

impl OutputConfig {
    /// Derives the run's output settings: line numbers are forced off in
    /// count mode, and filenames are shown exactly when more than one file
    /// was resolved.
    pub fn new(flags: &[Flag], multiple_files: bool) -> (r: OutputConfig)
        ensures
            r.mode == (if flags@.contains(Flag::Count) {
                OutputMode::Count
            } else {
                OutputMode::FullLines
            }),
            r.show_line_numbers == (flags@.contains(Flag::LineNumbers) && r.mode
                != OutputMode::Count),
            r.show_filename == multiple_files,
    {
        let mode = OutputMode::from_flags(flags);
        let show_line_numbers = has_flag(flags, Flag::LineNumbers) && mode != OutputMode::Count;
        OutputConfig { mode, show_line_numbers, show_filename: multiple_files }
    }
}

/// The canonical text for one matched line: the filename (when present and
/// shown) and the one-based line number (when shown) as colon-terminated
/// prefixes, then the raw line; no prefix adds no colon.
pub open spec fn spec_format_match(
    line: Seq<char>,
    line_number: nat,
    filename: Option<Seq<char>>,
    config: OutputConfig,
) -> Seq<char> {
    let fname_part = match filename {
        Some(f) => if config.show_filename {
            f + seq![':']
        } else {
            Seq::<char>::empty()
        },
        None => Seq::<char>::empty(),
    };
    let num_part = if config.show_line_numbers {
        dec_rep(line_number + 1) + seq![':']
    } else {
        Seq::<char>::empty()
    };
    fname_part + num_part + line
}

/// Renders one matched line, as `spec_format_match` describes; the stored
/// zero-based index becomes one-based here and nowhere earlier.
pub fn format_match(
    line: &str,
    line_number: usize,
    filename: Option<&str>,
    config: &OutputConfig,
) -> (r: String)
    requires
        config.show_line_numbers ==> line_number < usize::MAX,
    ensures
        r@ == spec_format_match(line@, line_number as nat, filename.deep_view(), *config),
{
    let mut r = String::new();
    match filename {
        Some(f) => {
            if config.show_filename {
                r.append(f);
                r.append(":");
            }
        },
        None => {},
    }
    if config.show_line_numbers {
        let num = usize_to_string(line_number + 1);
        r.append(num.as_str());
        r.append(":");
    }
    r.append(line);
    proof {
        reveal_strlit(":");
        assert(r@ =~= spec_format_match(line@, line_number as nat, filename.deep_view(), *config));
    }
    r
}

/// The canonical count line: `<filename>:<count>` when a filename is
/// present and shown, the bare count otherwise.
pub open spec fn spec_format_count(
    count: nat,
    filename: Option<Seq<char>>,
    show_filename: bool,
) -> Seq<char> {
    match filename {
        Some(f) => if show_filename {
            f + seq![':'] + dec_rep(count)
        } else {
            dec_rep(count)
        },
        None => dec_rep(count),
    }
}

/// Renders one per-file count, as `spec_format_count` describes.
pub fn format_count(count: usize, filename: Option<&str>, show_filename: bool) -> (r: String)
    ensures
        r@ == spec_format_count(count as nat, filename.deep_view(), show_filename),
{
    let num = usize_to_string(count);
    let r = match filename {
        Some(f) => {
            if show_filename {
                let mut s = String::from_str(f);
                s.append(":");
                s.append(num.as_str());
                s
            } else {
                num
            }
        },
        None => num,
    };
    proof {
        reveal_strlit(":");
        assert(r@ =~= spec_format_count(count as nat, filename.deep_view(), show_filename));
    }
    r
}

} // verus!
