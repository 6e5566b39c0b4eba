//! Extracting values from the lines of a session file: what the capture
//! groups of the filters hold in each line that matches.

use vstd::prelude::*;
use vstd::string::*;
use crate::filter::{
    combined_pattern, combined_regex, filter_patterns, filter_views, SearchFilter,
    SearchFilterView,
};
use crate::matcher::{
    compile_matcher, matcher_compiles, matching_lines, regex_capture_groups, regex_captures,
    search_lines, LineRegex,
};
use crate::lines::{count_lines, lemma_complete_len, line_total};
use crate::search::{
    all_compile, compile_filters, copy_filters, regex_patterns, well_numbered, SearchError,
};

verus! {

/// The capture groups that took part in a match, in order.
pub open spec fn present(groups: Seq<Option<Seq<char>>>) -> Seq<Seq<char>>
    decreases groups.len(),
{
    if groups.len() == 0 {
        Seq::empty()
    } else {
        let before = present(groups.drop_last());
        match groups.last() {
            Some(g) => before.push(g),
            None => before,
        }
    }
}

/// What the matches of one filter in a line give: for each match of which
/// more than one group took part, the groups but the first, which is the
/// whole match.
pub open spec fn extracted_groups(index: usize, captures: Seq<Seq<Option<Seq<char>>>>) -> Seq<
    (usize, Seq<Seq<char>>),
>
    decreases captures.len(),
{
    if captures.len() == 0 {
        Seq::empty()
    } else {
        let before = extracted_groups(index, captures.drop_last());
        let groups = present(captures.last());
        if groups.len() <= 1 {
            before
        } else {
            before.push((index, groups.drop_first()))
        }
    }
}

/// What a line gives: the extracted groups of each filter, in the order of
/// the filters.
pub open spec fn extracted(patterns: Seq<Seq<char>>, input: Seq<char>) -> Seq<
    (usize, Seq<Seq<char>>),
>
    decreases patterns.len(),
{
    if patterns.len() == 0 {
        Seq::empty()
    } else {
        extracted(patterns.drop_last(), input) + extracted_groups(
            (patterns.len() - 1) as usize,
            regex_captures(patterns.last(), input),
        )
    }
}

/// The values that the filters extract from one line.
#[derive(Debug)]
pub struct ExtractedMatchValue {
    /// The index of the line in the session file.
    pub index: u64,
    /// (filter index, extracted values)
    pub values: Vec<(usize, Vec<String>)>,
}

/// The mathematical value of an [`ExtractedMatchValue`].
pub struct ExtractedMatchValueView {
    pub index: u64,
    pub values: Seq<(usize, Seq<Seq<char>>)>,
}

impl View for ExtractedMatchValue {
    type V = ExtractedMatchValueView;

    open spec fn view(&self) -> ExtractedMatchValueView {
        ExtractedMatchValueView { index: self.index, values: self.values.deep_view() }
    }
}

/// The groups of one match that took part in it, as they are kept.
fn present_groups(groups: &Vec<Option<String>>) -> (r: Vec<String>)
    ensures
        r.deep_view() == present(groups.deep_view()),
{
    let ghost all = groups.deep_view();
    let mut out: Vec<String> = Vec::new();
    let mut i: usize = 0;
    while i < groups.len()
        invariant
            i <= groups.len(),
            all == groups.deep_view(),
            out.deep_view() == present(all.take(i as int)),
        decreases groups.len() - i,
    {
        let ghost shorter = out.deep_view();
        proof {
            assert(all.take(i + 1).drop_last() == all.take(i as int));
            assert(all[i as int] == groups@[i as int].deep_view());
        }
        match &groups[i] {
            Some(g) => {
                let copy = g.clone();
                out.push(copy);
                proof {
                    assert(out.deep_view() =~= shorter.push(g@));
                }
            },
            None => {},
        }
        i = i + 1;
    }
    proof {
        assert(all.take(all.len() as int) == all);
    }
    out
}

/// Adds to `values` what the matches of filter `index` give, where
/// `captures` holds the groups of each match.
pub fn extract_groups(
    index: usize,
    captures: &Vec<Vec<Option<String>>>,
    values: &mut Vec<(usize, Vec<String>)>,
)
    ensures
        final(values).deep_view() == old(values).deep_view() + extracted_groups(
            index,
            captures.deep_view(),
        ),
{
    let ghost all = captures.deep_view();
    let ghost start = values.deep_view();
    let mut i: usize = 0;
    while i < captures.len()
        invariant
            i <= captures.len(),
            all == captures.deep_view(),
            values.deep_view() == start + extracted_groups(index, all.take(i as int)),
        decreases captures.len() - i,
    {
        let ghost shorter = values.deep_view();
        proof {
            assert(all.take(i + 1).drop_last() == all.take(i as int));
            assert(all[i as int] == captures@[i as int].deep_view());
        }
        let mut groups = present_groups(&captures[i]);
        if groups.len() > 1 {
            let ghost kept = groups.deep_view();
            groups.remove(0);
            proof {
                assert(groups.deep_view() =~= kept.drop_first());
            }
            values.push((index, groups));
            proof {
                assert(values.deep_view() =~= shorter.push((index, kept.drop_first())));
            }
        }
        i = i + 1;
    }
    proof {
        assert(all.take(all.len() as int) == all);
    }
}

impl ExtractedMatchValue {
    /// The values that the filters extract from line `index`, whose text is
    /// `input`.
    pub fn new(index: u64, input: &str, filters: &[LineRegex]) -> (v: ExtractedMatchValue)
        ensures
            v@ == (ExtractedMatchValueView {
                index,
                values: extracted(regex_patterns(filters@), input@),
            }),
    {
        ExtractedMatchValue { index, values: ExtractedMatchValue::extract(input, filters) }
    }

    /// For each filter in turn and each of its matches in `input`, the
    /// capture groups of the match without the whole match. A match without
    /// such groups gives nothing.
    pub fn extract(input: &str, filters: &[LineRegex]) -> (values: Vec<(usize, Vec<String>)>)
        ensures
            values.deep_view() == extracted(regex_patterns(filters@), input@),
    {
        let ghost patterns = regex_patterns(filters@);
        let mut values: Vec<(usize, Vec<String>)> = Vec::new();
        let mut i: usize = 0;
        while i < filters.len()
            invariant
                i <= filters.len(),
                patterns == regex_patterns(filters@),
                values.deep_view() == extracted(patterns.take(i as int), input@),
            decreases filters.len() - i,
        {
            proof {
                assert(patterns.take(i + 1).drop_last() == patterns.take(i as int));
            }
            let captures = regex_capture_groups(&filters[i], input);
            extract_groups(i, &captures, &mut values);
            i = i + 1;
        }
        proof {
            assert(patterns.take(patterns.len() as int) == patterns);
        }
        values
    }
}

/// One line of a search result as it is shown: its number and its text.
#[derive(Debug)]
pub struct SearchMatch {
    pub line: u64,
    pub content: String,
}

/// Extracts values from all lines of a session file that match a filter.
pub struct MatchesExtractor {
    pub file_path: String,
    filters: Vec<SearchFilter>,
}

/// The mathematical value of a [`MatchesExtractor`].
pub struct MatchesExtractorView {
    pub file_path: Seq<char>,
    pub filters: Seq<SearchFilterView>,
}

impl View for MatchesExtractor {
    type V = MatchesExtractorView;

    closed spec fn view(&self) -> MatchesExtractorView {
        MatchesExtractorView {
            file_path: self.file_path@,
            filters: filter_views(self.filters@),
        }
    }
}

/// What the matching lines give: for each line from which the filters
/// extract a value, in turn, its index, which is its number less one, and the
/// values extracted. A line from which nothing is extracted is skipped.
pub open spec fn extracted_lines(patterns: Seq<Seq<char>>, lines: Seq<(u64, Seq<char>)>) -> Seq<
    ExtractedMatchValueView,
>
    decreases lines.len(),
{
    if lines.len() == 0 {
        Seq::empty()
    } else {
        let before = extracted_lines(patterns, lines.drop_last());
        let values = extracted(patterns, lines.last().1);
        if values.len() == 0 {
            before
        } else {
            before.push(
                ExtractedMatchValueView { index: (lines.last().0 - 1) as u64, values },
            )
        }
    }
}

/// The numbers of the lines, in order.
pub open spec fn line_numbers(lines: Seq<(u64, Seq<char>)>) -> Seq<u64> {
    lines.map_values(|l: (u64, Seq<char>)| l.0)
}

/// The line indices strictly ascend.
pub open spec fn indices_ascend(values: Seq<ExtractedMatchValueView>) -> bool {
    forall|i: int, j: int|
        0 <= i < j < values.len() ==> (#[trigger] values[i]).index < (#[trigger] values[j]).index
}

/// The values of a list of extracted values, in order.
pub open spec fn extracted_views(values: Seq<ExtractedMatchValue>) -> Seq<
    ExtractedMatchValueView,
> {
    values.map_values(|v: ExtractedMatchValue| v@)
}

impl MatchesExtractor {
    /// An extractor for the session file `path`.
    pub fn new(path: &str, filters: &[SearchFilter]) -> (extractor: MatchesExtractor)
        ensures
            extractor@ == (MatchesExtractorView {
                file_path: path@,
                filters: filter_views(filters@),
            }),
    {
        MatchesExtractor { file_path: String::from_str(path), filters: copy_filters(filters) }
    }

    /// Searches `content`, all bytes of the session file, with the combined
    /// pattern of the filters, and extracts from each matching line the
    /// values of the capture groups of each filter. A line from which no
    /// filter extracts a value is skipped. The lines come in the order of the
    /// file: an `IoOperation` error where the searcher does not number them
    /// so.
    #[verifier::loop_isolation(false)]
    pub fn extract_matches(&self, content: &[u8]) -> (r: Result<
        Vec<ExtractedMatchValue>,
        SearchError,
    >)
        ensures
            ({
                let patterns = filter_patterns(self@.filters);
                let combined = combined_pattern(self@.filters);
                if self@.filters.len() == 0 {
                    r matches Err(SearchError::Input(m)) && m@ == "Cannot search without filters"@
                } else if !all_compile(patterns) || !matcher_compiles(combined) {
                    r matches Err(SearchError::Regex(_))
                } else {
                    match matching_lines(combined, content@) {
                        Some(lines) => if well_numbered(
                            line_numbers(lines),
                            line_total(content@),
                        ) {
                            &&& r matches Ok(values)
                            &&& extracted_views(values@) == extracted_lines(patterns, lines)
                            &&& indices_ascend(extracted_views(values@))
                            &&& forall|i: int|
                                0 <= i < values@.len() ==> (#[trigger] values@[i]).index
                                    < line_total(content@)
                        } else {
                            r matches Err(SearchError::IoOperation(m)) && m@
                                == "Matching lines are not numbered in order"@
                        },
                        None => r matches Err(SearchError::IoOperation(_)),
                    }
                }
            }),
    {
        let ghost patterns = filter_patterns(self@.filters);
        if self.filters.len() == 0 {
            return Err(SearchError::Input(String::from_str("Cannot search without filters")));
        }
        let combined = combined_regex(self.filters.as_slice());
        let regexes = match compile_filters(self.filters.as_slice()) {
            Ok(v) => v,
            Err(e) => {
                return Err(e);
            },
        };
        let matcher = match compile_matcher(combined.as_str()) {
            Ok(m) => m,
            Err(err) => {
                return Err(SearchError::Regex(err.to_string()));
            },
        };
        let lines = match search_lines(&matcher, content) {
            Ok(l) => l,
            Err(err) => {
                return Err(SearchError::IoOperation(err.to_string()));
            },
        };
        let (complete, count) = count_lines(content);
        let total: usize = if complete < content.len() {
            count + 1
        } else {
            count
        };
        proof {
            lemma_complete_len(content@);
            assert(total == line_total(content@));
        }
        let ghost all = lines.deep_view();
        let ghost numbers = line_numbers(all);
        let mut values: Vec<ExtractedMatchValue> = Vec::new();
        let mut last: u64 = 0;
        let mut k: usize = 0;
        while k < lines.len()
            invariant
                k <= lines.len(),
                well_numbered(numbers.take(k as int), total as nat),
                k == 0 ==> last == 0,
                k > 0 ==> last == numbers[k - 1],
                last <= total,
                extracted_views(values@) == extracted_lines(patterns, all.take(k as int)),
                indices_ascend(extracted_views(values@)),
                forall|i: int| 0 <= i < values@.len() ==> (#[trigger] values@[i]).index < last,
            decreases lines.len() - k,
        {
            let number = lines[k].0;
            proof {
                assert(all[k as int] == (lines@[k as int].0, lines@[k as int].1@));
                assert(numbers[k as int] == number);
            }
            if number <= last || number > total as u64 {
                proof {
                    if k > 0 {
                        assert(numbers[k - 1] == last);
                    }
                    assert(!well_numbered(numbers, total as nat));
                }
                return Err(
                    SearchError::IoOperation(
                        String::from_str("Matching lines are not numbered in order"),
                    ),
                );
            }
            proof {
                let longer = numbers.take(k + 1);
                let shorter = numbers.take(k as int);
                assert(longer =~= shorter.push(number));
                assert forall|a: int, b: int| 0 <= a < b < longer.len() implies #[trigger] longer[a]
                    < #[trigger] longer[b] by {
                    if b == k && k > 0 {
                        assert(shorter[k - 1] == last);
                        if a < k - 1 {
                            assert(shorter[a] < shorter[k - 1]);
                        }
                    } else {
                        assert(shorter[a] < shorter[b]);
                    }
                }
                assert(all.take(k + 1).drop_last() =~= all.take(k as int));
                assert(all.take(k + 1).last() == all[k as int]);
            }
            let ghost before = values@;
            let value = ExtractedMatchValue::new(
                number - 1,
                lines[k].1.as_str(),
                regexes.as_slice(),
            );
            if value.values.len() > 0 {
                proof {
                    assert(value.values.deep_view().len() == value.values.len());
                }
                values.push(value);
                proof {
                    assert(extracted_views(values@) =~= extracted_views(before).push(value@));
                    assert forall|i: int, j: int| 0 <= i < j < values@.len() implies (
                    #[trigger] extracted_views(values@)[i]).index < (#[trigger] extracted_views(
                        values@,
                    )[j]).index by {
                        assert(extracted_views(values@)[i].index == values@[i].index);
                        if j < before.len() {
                            assert(extracted_views(before)[i].index < extracted_views(
                                before,
                            )[j].index);
                        } else {
                            assert(before[i].index < last);
                        }
                    }
                }
            } else {
                proof {
                    assert(value.values.deep_view().len() == value.values.len());
                }
            }
            last = number;
            k = k + 1;
        }
        proof {
            assert(all.take(all.len() as int) == all);
            assert(numbers.take(numbers.len() as int) == numbers);
        }
        Ok(values)
    }
}

} // verus!
