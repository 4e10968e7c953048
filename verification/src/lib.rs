//! A literal substring search over files: the verified core of a small
//! grep-like tool.  Flags resolve to a search and an output configuration,
//! the searcher turns one file's contents into an ordered list of matched
//! lines, and the formatter renders each match or count as its canonical
//! text line.  Reading files and printing stay outside; this crate is the
//! whole pipeline from contents to output lines.

pub mod args;
pub mod error;
pub mod flags;
pub mod output;
pub mod search;
pub mod text;

use vstd::prelude::*;

verus! {

use crate::output::{
    format_count, format_match, spec_format_count, spec_format_match, OutputConfig, OutputMode,
};
use crate::search::{match_views, search, spec_search, SearchConfig};
use crate::text::{contains_char, lines_of};

/// The primary output lines for one file: its single count line in count
/// mode, or the formatted text of each matched line, in search order.
pub open spec fn spec_file_output(
    content: Seq<char>,
    pattern: Seq<char>,
    filename: Option<Seq<char>>,
    scfg: SearchConfig,
    ocfg: OutputConfig,
) -> Seq<Seq<char>> {
    let found = spec_search(content, pattern, scfg);
    if ocfg.mode == OutputMode::Count {
        seq![spec_format_count(found.len(), filename, ocfg.show_filename)]
    } else {
        Seq::new(found.len(), |j: int| spec_format_match(found[j].1, found[j].0, filename, ocfg))
    }
}

/// A file pattern without glob metacharacters names one literal file, so
/// matching nothing means that file is missing rather than that the
/// wildcard found nothing.
pub fn is_literal_file_pattern(pattern: &str) -> (r: bool)
    ensures
        r == (!pattern@.contains('*') && !pattern@.contains('?') && !pattern@.contains('[')),
{
    !contains_char(pattern, '*') && !contains_char(pattern, '?') && !contains_char(pattern, '[')
}

/// Searches one file's contents and renders the lines orchestration prints
/// for it, in order, as `spec_file_output` describes.
pub fn file_output_lines(
    contents: &str,
    pattern: &str,
    filename: Option<&str>,
    search_config: &SearchConfig,
    output_config: &OutputConfig,
) -> (r: Vec<String>)
    ensures
        r.deep_view() == spec_file_output(
            contents@,
            pattern@,
            filename.deep_view(),
            *search_config,
            *output_config,
        ),
{
    let result = search(contents, pattern, search_config);
    let ghost found = spec_search(contents@, pattern@, *search_config);
    match output_config.mode {
        OutputMode::Count => {
            let line = format_count(result.total_count, filename, output_config.show_filename);
            let mut out: Vec<String> = Vec::new();
            out.push(line);
            proof {
                assert(out.deep_view() =~= seq![line@]);
            }
            out
        },
        OutputMode::FullLines => {
            proof {
                assert forall|a: int| 0 <= a < result.matches@.len() implies result.matches@[
                a].line_number < usize::MAX by {
                    assert(result.matches@[a].line_number < lines_of(contents@).len());
                }
            }
            let mut out: Vec<String> = Vec::new();
            let n = result.matches.len();
            let mut j: usize = 0;
            proof {
                assert(out.deep_view() =~= Seq::<Seq<char>>::empty());
                assert(Seq::new(0, |k: int| spec_format_match(
                    found[k].1,
                    found[k].0,
                    filename.deep_view(),
                    *output_config,
                )) =~= Seq::<Seq<char>>::empty());
            }
            while j < n
                invariant
                    j <= n,
                    n == result.matches@.len(),
                    output_config.mode == OutputMode::FullLines,
                    match_views(result.matches@) == found,
                    forall|a: int|
                        0 <= a < result.matches@.len() ==> result.matches@[a].line_number
                            < usize::MAX,
                    out.deep_view() == Seq::new(
                        j as nat,
                        |k: int| spec_format_match(
                            found[k].1,
                            found[k].0,
                            filename.deep_view(),
                            *output_config,
                        ),
                    ),
                decreases n - j,
            {
                let m = &result.matches[j];
                proof {
                    assert(match_views(result.matches@)[j as int] == (
                    m.line_number as nat, m.content@));
                }
                let line = format_match(m.content.as_str(), m.line_number, filename, output_config);
                let ghost old_deep = out.deep_view();
                out.push(line);
                proof {
                    assert(found[j as int].0 == m.line_number as nat);
                    assert(found[j as int].1 == m.content@);
                    assert(line@ == spec_format_match(
                        found[j as int].1,
                        found[j as int].0,
                        filename.deep_view(),
                        *output_config,
                    ));
                    assert(out.deep_view() =~= old_deep.push(line@));
                    assert(old_deep.push(line@) =~= Seq::new(
                        (j + 1) as nat,
                        |k: int| spec_format_match(
                            found[k].1,
                            found[k].0,
                            filename.deep_view(),
                            *output_config,
                        ),
                    ));
                }
                j = j + 1;
            }
            out
        },
    }
}

} // verus!
