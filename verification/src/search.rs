//! The search engine: splits content into lines and keeps each line that
//! matches the pattern, or, inverted, each line that does not, in original
//! order with its zero-based line number.

use crate::flags::{has_flag, Flag};
use crate::text::{
    contains_seq, contains_substr, fold_case, lemma_contains_empty, lines_of, lower_of, split_lines,
};
use vstd::prelude::*;

verus! {

/// The searcher's resolved configuration, derived once per run.
pub struct SearchConfig {
    pub case_insensitive: bool,
    pub invert_match: bool,
}

impl SearchConfig {
    /// Reads the two switches the searcher consults out of the flag list.
    pub fn from_flags(flags: &[Flag]) -> (r: SearchConfig)
        ensures
            r.case_insensitive == flags@.contains(Flag::CaseInsensitive),
            r.invert_match == flags@.contains(Flag::Invert),
    {
        SearchConfig {
            case_insensitive: has_flag(flags, Flag::CaseInsensitive),
            invert_match: has_flag(flags, Flag::Invert),
        }
    }
}

/// One line the searcher kept: its zero-based index in the content's line
/// sequence and its exact text.
#[derive(Debug, Clone)]
pub struct MatchedLine {
    pub line_number: usize,
    pub content: String,
}

/// The searcher's result: the kept lines in ascending line order, and their
/// count, which always equals the sequence's length.
pub struct SearchResult {
    pub matches: Vec<MatchedLine>,
    pub total_count: usize,
}

/// Whether a line matches the pattern.  The empty pattern matches every
/// line; otherwise matching is substring containment, after case folding
/// both sides when `case_insensitive` is set.
pub open spec fn line_matches(line: Seq<char>, pattern: Seq<char>, case_insensitive: bool) -> bool {
    if pattern.len() == 0 {
        true
    } else if case_insensitive {
        contains_seq(lower_of(line), lower_of(pattern))
    } else {
        contains_seq(line, pattern)
    }
}

/// Whether a line belongs in the output: a match, or a non-match when
/// inverted.
pub open spec fn line_included(line: Seq<char>, pattern: Seq<char>, cfg: SearchConfig) -> bool {
    if cfg.invert_match {
        !line_matches(line, pattern, cfg.case_insensitive)
    } else {
        line_matches(line, pattern, cfg.case_insensitive)
    }
}

/// The included lines of `lines`, each paired with its zero-based index, in
/// original order.
pub open spec fn search_lines(lines: Seq<Seq<char>>, pattern: Seq<char>, cfg: SearchConfig) -> Seq<
    (nat, Seq<char>),
>
    decreases lines.len(),
{
    if lines.len() == 0 {
        Seq::empty()
    } else {
        let prefix = search_lines(lines.drop_last(), pattern, cfg);
        if line_included(lines.last(), pattern, cfg) {
            prefix.push(((lines.len() - 1) as nat, lines.last()))
        } else {
            prefix
        }
    }
}

/// The whole search as a function of its inputs: the included lines of the
/// content's lines.
pub open spec fn spec_search(content: Seq<char>, pattern: Seq<char>, cfg: SearchConfig) -> Seq<
    (nat, Seq<char>),
> {
    search_lines(lines_of(content), pattern, cfg)
}

/// The index-and-content view of a sequence of matched lines.
pub open spec fn match_views(ms: Seq<MatchedLine>) -> Seq<(nat, Seq<char>)> {
    ms.map_values(|m: MatchedLine| (m.line_number as nat, m.content@))
}

/// In the search model the recorded indices are strictly increasing, each
/// stays below the number of lines, and each entry carries exactly the line
/// its index points at.
pub proof fn lemma_search_lines_indices(lines: Seq<Seq<char>>, pattern: Seq<char>, cfg: SearchConfig)
    ensures
        forall|a: int, b: int|
            0 <= a < b < search_lines(lines, pattern, cfg).len() ==> search_lines(
                lines,
                pattern,
                cfg,
            )[a].0 < search_lines(lines, pattern, cfg)[b].0,
        forall|a: int|
            0 <= a < search_lines(lines, pattern, cfg).len() ==> search_lines(lines, pattern, cfg)[a].0
                < lines.len(),
        forall|a: int|
            0 <= a < search_lines(lines, pattern, cfg).len() ==> search_lines(lines, pattern, cfg)[a].1
                == lines[search_lines(lines, pattern, cfg)[a].0 as int],
    decreases lines.len(),
{
    if lines.len() > 0 {
        lemma_search_lines_indices(lines.drop_last(), pattern, cfg);
        assert(forall|a: int|
            0 <= a < search_lines(lines.drop_last(), pattern, cfg).len() ==> lines.drop_last()[
            search_lines(lines.drop_last(), pattern, cfg)[a].0 as int] == lines[search_lines(
                lines.drop_last(),
                pattern,
                cfg,
            )[a].0 as int]);
    }
}

proof fn lemma_partition_lines(lines: Seq<Seq<char>>, pattern: Seq<char>, case_insensitive: bool)
    ensures
        search_lines(
            lines,
            pattern,
            (SearchConfig { case_insensitive: case_insensitive, invert_match: false }),
        ).len() + search_lines(
            lines,
            pattern,
            (SearchConfig { case_insensitive: case_insensitive, invert_match: true }),
        ).len() == lines.len(),
    decreases lines.len(),
{
    if lines.len() > 0 {
        lemma_partition_lines(lines.drop_last(), pattern, case_insensitive);
    }
}

/// Matches and inverted matches partition the lines: for any content and
/// pattern, the plain total count and the inverted total count sum to the
/// number of lines, with no overlap and no gaps.
pub proof fn lemma_match_partition(content: Seq<char>, pattern: Seq<char>, case_insensitive: bool)
    ensures
        spec_search(
            content,
            pattern,
            (SearchConfig { case_insensitive: case_insensitive, invert_match: false }),
        ).len() + spec_search(
            content,
            pattern,
            (SearchConfig { case_insensitive: case_insensitive, invert_match: true }),
        ).len() == lines_of(content).len(),
{
    lemma_partition_lines(lines_of(content), pattern, case_insensitive);
}

proof fn lemma_empty_pattern_lines(lines: Seq<Seq<char>>, case_insensitive: bool)
    ensures
        search_lines(
            lines,
            Seq::empty(),
            (SearchConfig { case_insensitive: case_insensitive, invert_match: false }),
        ) == Seq::new(lines.len(), |i: int| (i as nat, lines[i])),
        search_lines(
            lines,
            Seq::empty(),
            (SearchConfig { case_insensitive: case_insensitive, invert_match: true }),
        ) == Seq::<(nat, Seq<char>)>::empty(),
    decreases lines.len(),
{
    if lines.len() > 0 {
        lemma_empty_pattern_lines(lines.drop_last(), case_insensitive);
        assert(Seq::new(lines.len(), |i: int| (i as nat, lines[i])) =~= Seq::new(
            lines.drop_last().len(),
            |i: int| (i as nat, lines.drop_last()[i]),
        ).push(((lines.len() - 1) as nat, lines.last())));
    } else {
        assert(Seq::new(lines.len(), |i: int| (i as nat, lines[i])) =~= Seq::<(
            nat,
            Seq<char>,
        )>::empty());
    }
}

/// The empty pattern matches every line when not inverted — the result
/// enumerates all lines in order — and matches no line at all when
/// inverted.
pub proof fn lemma_empty_pattern(content: Seq<char>, case_insensitive: bool)
    ensures
        spec_search(
            content,
            Seq::empty(),
            (SearchConfig { case_insensitive: case_insensitive, invert_match: false }),
        ) == Seq::new(lines_of(content).len(), |i: int| (i as nat, lines_of(content)[i])),
        spec_search(
            content,
            Seq::empty(),
            (SearchConfig { case_insensitive: case_insensitive, invert_match: true }),
        ) == Seq::<(nat, Seq<char>)>::empty(),
{
    lemma_empty_pattern_lines(lines_of(content), case_insensitive);
}

proof fn lemma_refold_lines(
    lines_a: Seq<Seq<char>>,
    lines_b: Seq<Seq<char>>,
    pattern: Seq<char>,
    invert: bool,
)
    requires
        lines_a.len() == lines_b.len(),
        forall|i: int| 0 <= i < lines_a.len() ==> lower_of(lines_a[i]) == lower_of(lines_b[i]),
    ensures
        search_lines(
            lines_a,
            pattern,
            (SearchConfig { case_insensitive: true, invert_match: invert }),
        ).len() == search_lines(
            lines_b,
            pattern,
            (SearchConfig { case_insensitive: true, invert_match: invert }),
        ).len(),
        forall|j: int|
            0 <= j < search_lines(
                lines_a,
                pattern,
                (SearchConfig { case_insensitive: true, invert_match: invert }),
            ).len() ==> search_lines(
                lines_a,
                pattern,
                (SearchConfig { case_insensitive: true, invert_match: invert }),
            )[j].0 == search_lines(
                lines_b,
                pattern,
                (SearchConfig { case_insensitive: true, invert_match: invert }),
            )[j].0,
    decreases lines_a.len(),
{
    let cfg = SearchConfig { case_insensitive: true, invert_match: invert };
    if lines_a.len() > 0 {
        assert(forall|i: int|
            0 <= i < lines_a.drop_last().len() ==> lower_of(lines_a.drop_last()[i]) == lower_of(
                lines_b.drop_last()[i],
            ));
        lemma_refold_lines(lines_a.drop_last(), lines_b.drop_last(), pattern, invert);
        assert(lower_of(lines_a.last()) == lower_of(lines_b.last()));
        assert(line_included(lines_a.last(), pattern, cfg) == line_included(
            lines_b.last(),
            pattern,
            cfg,
        ));
        let sa = search_lines(lines_a, pattern, cfg);
        let sb = search_lines(lines_b, pattern, cfg);
        let pa = search_lines(lines_a.drop_last(), pattern, cfg);
        let pb = search_lines(lines_b.drop_last(), pattern, cfg);
        assert forall|j: int| 0 <= j < sa.len() implies sa[j].0 == sb[j].0 by {
            if j < pa.len() {
                assert(pa[j].0 == pb[j].0);
            }
        }
    }
}

/// Case-insensitive search reads each line only through its case folding:
/// two contents whose lines fold to the same characters — one a recasing of
/// the other — yield matches at the same line numbers, while each result
/// still carries its own content's original, unfolded line.
pub proof fn lemma_case_insensitive_recase(
    content_a: Seq<char>,
    content_b: Seq<char>,
    pattern: Seq<char>,
    invert: bool,
)
    requires
        lines_of(content_a).len() == lines_of(content_b).len(),
        forall|i: int|
            0 <= i < lines_of(content_a).len() ==> lower_of(lines_of(content_a)[i]) == lower_of(
                lines_of(content_b)[i],
            ),
    ensures
        spec_search(
            content_a,
            pattern,
            (SearchConfig { case_insensitive: true, invert_match: invert }),
        ).len() == spec_search(
            content_b,
            pattern,
            (SearchConfig { case_insensitive: true, invert_match: invert }),
        ).len(),
        forall|j: int|
            0 <= j < spec_search(
                content_a,
                pattern,
                (SearchConfig { case_insensitive: true, invert_match: invert }),
            ).len() ==> spec_search(
                content_a,
                pattern,
                (SearchConfig { case_insensitive: true, invert_match: invert }),
            )[j].0 == spec_search(
                content_b,
                pattern,
                (SearchConfig { case_insensitive: true, invert_match: invert }),
            )[j].0,
        forall|j: int|
            0 <= j < spec_search(
                content_a,
                pattern,
                (SearchConfig { case_insensitive: true, invert_match: invert }),
            ).len() ==> spec_search(
                content_a,
                pattern,
                (SearchConfig { case_insensitive: true, invert_match: invert }),
            )[j].1 == lines_of(content_a)[spec_search(
                content_a,
                pattern,
                (SearchConfig { case_insensitive: true, invert_match: invert }),
            )[j].0 as int],
{
    let cfg = SearchConfig { case_insensitive: true, invert_match: invert };
    lemma_refold_lines(lines_of(content_a), lines_of(content_b), pattern, invert);
    lemma_search_lines_indices(lines_of(content_a), pattern, cfg);
}

/// Scans `content` line by line and keeps what `line_included` admits, in
/// encounter order, counting the kept lines.
pub fn search(content: &str, pattern: &str, config: &SearchConfig) -> (r: SearchResult)
    ensures
        r.total_count == r.matches@.len(),
        match_views(r.matches@) == spec_search(content@, pattern@, *config),
        lines_of(content@).len() <= usize::MAX,
        forall|a: int, b: int|
            0 <= a < b < r.matches@.len() ==> r.matches@[a].line_number < r.matches@[b].line_number,
        forall|a: int|
            0 <= a < r.matches@.len() ==> r.matches@[a].line_number < lines_of(content@).len()
                && r.matches@[a].content@ == lines_of(content@)[r.matches@[a].line_number as int],
{
    let lines = split_lines(content);
    let ghost lns = lines_of(content@);
    let folded_pattern = if config.case_insensitive {
        fold_case(pattern)
    } else {
        String::new()
    };
    let mut matches: Vec<MatchedLine> = Vec::new();
    let n = lines.len();
    let mut i: usize = 0;
    proof {
        assert(lns.take(0) =~= Seq::<Seq<char>>::empty());
    }
    while i < n
        invariant
            i <= n,
            n == lines@.len(),
            lines.deep_view() == lns,
            config.case_insensitive ==> folded_pattern@ == lower_of(pattern@),
            config.case_insensitive && pattern@.len() == 0 ==> folded_pattern@.len() == 0,
            match_views(matches@) == search_lines(lns.take(i as int), pattern@, *config),
        decreases n - i,
    {
        let line = &lines[i];
        let is_match = if config.case_insensitive {
            let folded_line = fold_case(line.as_str());
            contains_substr(folded_line.as_str(), folded_pattern.as_str())
        } else {
            contains_substr(line.as_str(), pattern)
        };
        proof {
            assert(lines.deep_view()[i as int] == lines@[i as int]@);
            if pattern@.len() == 0 {
                if config.case_insensitive {
                    lemma_contains_empty(lower_of(line@), folded_pattern@);
                } else {
                    lemma_contains_empty(line@, pattern@);
                }
            }
            assert(is_match == line_matches(lns[i as int], pattern@, config.case_insensitive));
            assert(lns.take(i + 1).drop_last() =~= lns.take(i as int));
            assert(lns.take(i + 1).last() == lns[i as int]);
        }
        let keep = if config.invert_match {
            !is_match
        } else {
            is_match
        };
        if keep {
            let ghost old_views = match_views(matches@);
            matches.push(MatchedLine { line_number: i, content: line.clone() });
            proof {
                assert(match_views(matches@) =~= old_views.push((i as nat, lns[i as int])));
            }
        }
        i = i + 1;
    }
    proof {
        assert(lns.take(n as int) =~= lns);
        lemma_search_lines_indices(lns, pattern@, *config);
        let sl = search_lines(lns, pattern@, *config);
        assert(match_views(matches@) == sl);
        assert forall|a: int| 0 <= a < matches@.len() implies matches@[a].line_number
            < lines_of(content@).len() && matches@[a].content@ == lines_of(content@)[matches@[
        a].line_number as int] by {
            assert(match_views(matches@)[a] == (matches@[a].line_number as nat, matches@[
            a].content@));
            assert(sl[a].0 < lns.len());
            assert(sl[a].1 == lns[sl[a].0 as int]);
        }
        assert forall|a: int, b: int| 0 <= a < b < matches@.len() implies matches@[
        a].line_number < matches@[b].line_number by {
            assert(match_views(matches@)[a] == (matches@[a].line_number as nat, matches@[
            a].content@));
            assert(match_views(matches@)[b] == (matches@[b].line_number as nat, matches@[
            b].content@));
            assert(sl[a].0 < sl[b].0);
        }
    }
    let total_count = matches.len();
    SearchResult { matches, total_count }
}

} // verus!
