//! The incremental search: the filters of a search holder are compiled, the
//! bytes that were appended to the session file since the last run are
//! searched line by line, and each matching line is attributed to the
//! filters that it satisfies.

use vstd::prelude::*;
use vstd::string::*;
use vstd::slice::*;
use crate::filter::{
    combined_pattern, combined_regex, filter_as_regex, filter_patterns, filter_views,
    SearchFilter, SearchFilterView,
};
use crate::grabber::{grab_error_text, GrabError};
use crate::lines::{
    complete_len, count_lines, end_of_line, lemma_complete_len, lemma_line_end, line_end,
    newline_count,
};
use crate::map::{match_views, FilterMatch, FilterMatchView};
use crate::matcher::{
    compile_matcher, compile_regex, matcher_compiles, matching_lines, regex_compiles,
    regex_is_match, regex_matches, search_lines, LineRegex,
};
use crate::stats::{stats_of, FilterStats};
use crate::text::{decimal, push_decimal};
use tokio_util::sync::CancellationToken;

verus! {

/// Why a search did not run to its end.
#[derive(Debug)]
pub enum SearchError {
    Config(String),
    Communication(String),
    IoOperation(String),
    Regex(String),
    Input(String),
    Grab(GrabError),
}

/// The text of a search error.
pub open spec fn search_error_text(e: SearchError) -> Seq<char> {
    match e {
        SearchError::Config(m) => "Configuration error ("@ + m@ + ")"@,
        SearchError::Communication(m) => "Channel-Communication error ("@ + m@ + ")"@,
        SearchError::IoOperation(m) => "IO error while grabbing: ("@ + m@ + ")"@,
        SearchError::Regex(m) => "Regex-Error: ("@ + m@ + ")"@,
        SearchError::Input(m) => "Input-Error: ("@ + m@ + ")"@,
        SearchError::Grab(g) => "GrabError error ("@ + grab_error_text(g) + ")"@,
    }
}

fn bracketed(head: &str, body: &str) -> (text: String)
    ensures
        text@ == head@ + body@ + ")"@,
{
    let mut out = String::from_str(head);
    out.append(body);
    out.append(")");
    out
}

impl SearchError {
    /// The error as a line of text.
    pub fn message(&self) -> (text: String)
        ensures
            text@ == search_error_text(*self),
    {
        match self {
            SearchError::Config(m) => bracketed("Configuration error (", m.as_str()),
            SearchError::Communication(m) => bracketed(
                "Channel-Communication error (",
                m.as_str(),
            ),
            SearchError::IoOperation(m) => bracketed("IO error while grabbing: (", m.as_str()),
            SearchError::Regex(m) => bracketed("Regex-Error: (", m.as_str()),
            SearchError::Input(m) => bracketed("Input-Error: (", m.as_str()),
            SearchError::Grab(g) => {
                let inner = g.message();
                bracketed("GrabError error (", inner.as_str())
            },
        }
    }
}

/// The patterns that the regular expressions were compiled from, in order.
pub open spec fn regex_patterns(regexes: Seq<LineRegex>) -> Seq<Seq<char>> {
    regexes.map_values(|r: LineRegex| r.pattern())
}

/// The filters that a line satisfies: the index of each pattern that matches
/// the line, in ascending order. An index is a byte; an index above 255
/// wraps around.
pub open spec fn line_filters(patterns: Seq<Seq<char>>, line: Seq<char>) -> Seq<u8>
    decreases patterns.len(),
{
    if patterns.len() == 0 {
        Seq::empty()
    } else {
        let before = line_filters(patterns.drop_last(), line);
        if regex_matches(patterns.last(), line) {
            before.push(((patterns.len() - 1) % 256) as u8)
        } else {
            before
        }
    }
}

/// Compiles one pattern.
pub fn compile_filter(pattern: &str) -> (r: Result<LineRegex, SearchError>)
    ensures
        r is Ok == regex_compiles(pattern@),
        r matches Ok(re) ==> re.pattern() == pattern@,
        r matches Err(e) ==> e is Regex,
{
    match compile_regex(pattern) {
        Ok(re) => Ok(re),
        Err(err) => Err(SearchError::Regex(err.to_string())),
    }
}

/// Whether every one of the patterns compiles.
pub open spec fn all_compile(patterns: Seq<Seq<char>>) -> bool {
    forall|i: int| 0 <= i < patterns.len() ==> regex_compiles(#[trigger] patterns[i])
}

/// Compiles the pattern of each filter, in order.
pub fn compile_filters(filters: &[SearchFilter]) -> (r: Result<Vec<LineRegex>, SearchError>)
    ensures
        r is Ok == all_compile(filter_patterns(filter_views(filters@))),
        r matches Ok(regexes) ==> regex_patterns(regexes@) == filter_patterns(
            filter_views(filters@),
        ),
        r matches Err(e) ==> e is Regex,
{
    let ghost patterns = filter_patterns(filter_views(filters@));
    let mut out: Vec<LineRegex> = Vec::new();
    let mut i: usize = 0;
    while i < filters.len()
        invariant
            i <= filters.len(),
            patterns == filter_patterns(filter_views(filters@)),
            regex_patterns(out@) == patterns.take(i as int),
            all_compile(patterns.take(i as int)),
        decreases filters.len() - i,
    {
        let pattern = filter_as_regex(&filters[i]);
        let ghost before = out@;
        match compile_filter(pattern.as_str()) {
            Ok(re) => {
                out.push(re);
                proof {
                    assert(regex_patterns(out@) =~= regex_patterns(before).push(re.pattern()));
                    assert(patterns.take(i + 1) =~= patterns.take(i as int).push(
                        patterns[i as int],
                    ));
                }
            },
            Err(e) => {
                proof {
                    assert(!regex_compiles(patterns[i as int]));
                }
                return Err(e);
            },
        }
        i = i + 1;
    }
    proof {
        assert(patterns.take(patterns.len() as int) == patterns);
    }
    Ok(out)
}

/// Tells which of the regular expressions match the line.
pub fn classify_line(regexes: &[LineRegex], line: &str) -> (r: Vec<u8>)
    ensures
        r@ == line_filters(regex_patterns(regexes@), line@),
{
    let ghost patterns = regex_patterns(regexes@);
    let mut out: Vec<u8> = Vec::new();
    let mut i: usize = 0;
    while i < regexes.len()
        invariant
            i <= regexes.len(),
            patterns == regex_patterns(regexes@),
            out@ == line_filters(patterns.take(i as int), line@),
        decreases regexes.len() - i,
    {
        proof {
            assert(patterns.take(i + 1).drop_last() == patterns.take(i as int));
        }
        if regex_is_match(&regexes[i], line) {
            out.push((i % 256) as u8);
        }
        i = i + 1;
    }
    proof {
        assert(patterns.take(patterns.len() as int) == patterns);
    }
    out
}

/// Keeps a matching line as the searcher hands it over, and tells the
/// searcher to go on.
pub(crate) fn keep_line(lines: &mut Vec<(u64, String)>, number: u64, line: &str) -> (go_on: bool)
    ensures
        go_on,
        final(lines).deep_view() == old(lines).deep_view().push((number, line@)),
{
    let ghost before = lines.deep_view();
    lines.push((number, String::from_str(line)));
    proof {
        assert(lines.deep_view() =~= before.push((number, line@)));
    }
    true
}

/// The line numbers of a batch of numbered lines, in order.
pub open spec fn numbers_of(numbered: Seq<(u64, Seq<u8>)>) -> Seq<u64> {
    numbered.map_values(|n: (u64, Seq<u8>)| n.0)
}

/// The line numbers count from 1, none is above `extra`, and each is above
/// the one before it.
pub open spec fn well_numbered(numbers: Seq<u64>, extra: nat) -> bool {
    &&& forall|i: int| 0 <= i < numbers.len() ==> 1 <= #[trigger] numbers[i] <= extra
    &&& forall|i: int, j: int|
        0 <= i < j < numbers.len() ==> #[trigger] numbers[i] < #[trigger] numbers[j]
}

/// The matches that a batch of numbered lines stands for: line number `n`
/// of the batch is line `base + n - 1` of the session file.
pub open spec fn numbered_entries(base: u64, numbered: Seq<(u64, Seq<u8>)>) -> Seq<
    FilterMatchView,
> {
    numbered.map_values(
        |n: (u64, Seq<u8>)| FilterMatchView { index: (base + n.0 - 1) as u64, filters: n.1 },
    )
}

/// Each matching line with the filters that it satisfies.
pub open spec fn classify(patterns: Seq<Seq<char>>, lines: Seq<(u64, Seq<char>)>) -> Seq<
    (u64, Seq<u8>),
> {
    lines.map_values(|l: (u64, Seq<char>)| (l.0, line_filters(patterns, l.1)))
}

/// The result file as text: the line index of each match in base ten, each
/// on a line of its own.
pub open spec fn result_text(entries: Seq<FilterMatchView>) -> Seq<char>
    decreases entries.len(),
{
    if entries.len() == 0 {
        Seq::empty()
    } else {
        result_text(entries.drop_last()) + decimal(entries.last().index as nat) + seq!['\n']
    }
}

/// The lines that a batch of matches adds to the result file.
pub fn result_lines(found: &[FilterMatch]) -> (text: String)
    ensures
        text@ == result_text(match_views(found@)),
{
    let ghost views = match_views(found@);
    let mut out = String::new();
    let mut i: usize = 0;
    while i < found.len()
        invariant
            i <= found.len(),
            views == match_views(found@),
            out@ == result_text(views.take(i as int)),
        decreases found.len() - i,
    {
        proof {
            assert(views.take(i + 1).drop_last() == views.take(i as int));
        }
        push_decimal(&mut out, found[i].index);
        out.push('\n');
        i = i + 1;
    }
    proof {
        assert(views.take(views.len() as int) == views);
    }
    out
}

/// What a search holder knows: the session file and the result file, the
/// filters, and how far into the session file the search has come.
#[derive(Debug)]
pub struct SearchHolder {
    pub file_path: String,
    pub out_file_path: String,
    search_filters: Vec<SearchFilter>,
    bytes_read: u64,
    lines_read: u64,
    uuid: u128,
}

/// The mathematical value of a [`SearchHolder`].
pub struct SearchHolderView {
    pub file_path: Seq<char>,
    pub out_file_path: Seq<char>,
    pub filters: Seq<SearchFilterView>,
    pub bytes_read: u64,
    pub lines_read: u64,
    pub uuid: u128,
}

impl View for SearchHolder {
    type V = SearchHolderView;

    closed spec fn view(&self) -> SearchHolderView {
        SearchHolderView {
            file_path: self.file_path@,
            out_file_path: self.out_file_path@,
            filters: filter_views(self.search_filters@),
            bytes_read: self.bytes_read,
            lines_read: self.lines_read,
            uuid: self.uuid,
        }
    }
}

/// How a run of the search ends.
pub enum SearchOutcome {
    /// The holder has no filters. Nothing is searched.
    NoFilters,
    /// A pattern does not compile. Nothing is searched.
    BadPattern,
    /// The search of the bytes failed. The holder stays as it was.
    Unreadable,
    /// The place behind the lines searched cannot be written down. The
    /// holder stays as it was.
    OutOfRange,
    /// The lines found are not numbered as lines of these bytes are. The
    /// holder stays as it was.
    Misnumbered,
    /// The matches of the run, and the place up to which the session file
    /// has been searched now.
    Found { entries: Seq<FilterMatchView>, bytes_read: u64, lines_read: u64 },
}

/// The part of the bytes that is searched: the complete lines.
pub open spec fn searched(tail: Seq<u8>) -> Seq<u8> {
    tail.take(complete_len(tail) as int)
}

/// The place behind the complete lines of `tail` can be written down.
pub open spec fn cursor_fits(h: SearchHolderView, tail: Seq<u8>) -> bool {
    h.bytes_read + complete_len(tail) <= u64::MAX && h.lines_read + newline_count(tail)
        <= u64::MAX
}

/// Where the next run of the holder starts to read in a session file of the
/// given length, or why it cannot run.
pub open spec fn start_of_run(h: SearchHolderView, file_len: u64) -> Result<u64, Seq<char>> {
    if h.bytes_read == u64::MAX {
        Err("Search position is out of range"@)
    } else if 0 < h.bytes_read && file_len <= h.bytes_read {
        Err("Session file is shorter than the part already searched"@)
    } else {
        Ok((h.bytes_read + 1) as u64)
    }
}

/// How a run ends that found the given numbered lines in `tail`. A run that
/// is `complete` has searched all complete lines of `tail`; one that is not
/// was stopped behind the last of the given lines.
pub open spec fn batch_outcome(
    h: SearchHolderView,
    tail: Seq<u8>,
    numbered: Seq<(u64, Seq<u8>)>,
    complete: bool,
) -> SearchOutcome {
    if !cursor_fits(h, tail) {
        SearchOutcome::OutOfRange
    } else if !well_numbered(numbers_of(numbered), newline_count(tail)) {
        SearchOutcome::Misnumbered
    } else if complete {
        SearchOutcome::Found {
            entries: numbered_entries(h.lines_read, numbered),
            bytes_read: (h.bytes_read + complete_len(tail)) as u64,
            lines_read: (h.lines_read + newline_count(tail)) as u64,
        }
    } else if numbered.len() == 0 {
        SearchOutcome::Found {
            entries: Seq::empty(),
            bytes_read: h.bytes_read,
            lines_read: h.lines_read,
        }
    } else {
        SearchOutcome::Found {
            entries: numbered_entries(h.lines_read, numbered),
            bytes_read: (h.bytes_read + line_end(tail, numbered.last().0 as nat)) as u64,
            lines_read: (h.lines_read + numbered.last().0) as u64,
        }
    }
}

/// How a run of the holder over `tail` ends, if it looks at no more than
/// `processed` matching lines before it is stopped.
pub open spec fn search_outcome(h: SearchHolderView, tail: Seq<u8>, processed: nat)
    -> SearchOutcome {
    let patterns = filter_patterns(h.filters);
    if h.filters.len() == 0 {
        SearchOutcome::NoFilters
    } else if !matcher_compiles(combined_pattern(h.filters)) || !all_compile(patterns) {
        SearchOutcome::BadPattern
    } else {
        match matching_lines(combined_pattern(h.filters), searched(tail)) {
            None => SearchOutcome::Unreadable,
            Some(lines) => if processed < lines.len() {
                batch_outcome(h, tail, classify(patterns, lines.take(processed as int)), false)
            } else {
                batch_outcome(h, tail, classify(patterns, lines), true)
            },
        }
    }
}

/// What a run returns: the result file, the matches and their statistics.
pub type SearchResults = Result<(String, Vec<FilterMatch>, FilterStats), SearchError>;

/// The run returned `r` and left the holder as `after`, as the outcome says.
pub open spec fn search_result_is(
    r: SearchResults,
    after: SearchHolderView,
    before: SearchHolderView,
    outcome: SearchOutcome,
) -> bool {
    match outcome {
        SearchOutcome::NoFilters => {
            &&& after == before
            &&& r matches Err(SearchError::Input(m))
            &&& m@ == "Cannot search without filters"@
        },
        SearchOutcome::BadPattern => after == before && r matches Err(SearchError::Regex(_)),
        SearchOutcome::Unreadable => after == before && r matches Err(
            SearchError::IoOperation(_),
        ),
        SearchOutcome::OutOfRange => {
            &&& after == before
            &&& r matches Err(SearchError::IoOperation(m))
            &&& m@ == "Search position is out of range"@
        },
        SearchOutcome::Misnumbered => {
            &&& after == before
            &&& r matches Err(SearchError::IoOperation(m))
            &&& m@ == "Matching lines are not numbered in order"@
        },
        SearchOutcome::Found { entries, bytes_read, lines_read } => {
            &&& after == (SearchHolderView { bytes_read, lines_read, ..before })
            &&& r matches Ok((path, found, stats))
            &&& path@ == before.out_file_path
            &&& match_views(found@) == entries
            &&& stats@ == stats_of(entries)
        },
    }
}

/// The run over `tail` returned `r` and left the holder as `after`: it ended
/// in one of the ways in which a run can end, stopped behind some number of
/// matching lines or not at all.
pub open spec fn search_ran(
    r: SearchResults,
    after: SearchHolderView,
    before: SearchHolderView,
    tail: Seq<u8>,
) -> bool {
    exists|processed: nat|
        search_result_is(r, after, before, #[trigger] search_outcome(before, tail, processed))
}

impl SearchHolder {
    /// A holder for the session file `path` that has searched nothing yet.
    /// Its result file is `path` with `.out` behind it.
    pub fn new(path: &str, filters: &[SearchFilter], uuid: u128) -> (holder: SearchHolder)
        ensures
            holder@ == (SearchHolderView {
                file_path: path@,
                out_file_path: path@ + ".out"@,
                filters: filter_views(filters@),
                bytes_read: 0,
                lines_read: 0,
                uuid,
            }),
    {
        let mut out_file_path = String::from_str(path);
        out_file_path.append(".out");
        SearchHolder {
            file_path: String::from_str(path),
            out_file_path,
            search_filters: copy_filters(filters),
            bytes_read: 0,
            lines_read: 0,
            uuid,
        }
    }

    /// Replaces the filters. The place up to which the session file has been
    /// searched stays.
    pub fn set_filters(&mut self, filters: &[SearchFilter])
        ensures
            final(self)@ == (SearchHolderView { filters: filter_views(filters@), ..old(self)@ }),
    {
        self.search_filters = copy_filters(filters);
    }

    /// The number of the last byte of the session file that has been
    /// searched: the byte that ends the last line searched.
    pub fn bytes_read(&self) -> (n: u64)
        ensures
            n == self@.bytes_read,
    {
        self.bytes_read
    }

    /// The number of lines of the session file that have been searched.
    pub fn lines_read(&self) -> (n: u64)
        ensures
            n == self@.lines_read,
    {
        self.lines_read
    }

    /// The operation that the holder belongs to.
    pub fn uuid(&self) -> (id: u128)
        ensures
            id == self@.uuid,
    {
        self.uuid
    }

    /// Where in the session file the next run starts to read: one byte
    /// behind the last byte searched. An `IoOperation` error where the file
    /// has become so short that the last byte searched is gone, or where the
    /// place cannot be written down.
    pub fn start_position(&self, file_len: u64) -> (r: Result<u64, SearchError>)
        ensures
            match start_of_run(self@, file_len) {
                Ok(position) => r == Ok::<u64, SearchError>(position),
                Err(why) => r matches Err(SearchError::IoOperation(m)) && m@ == why,
            },
    {
        if self.bytes_read == u64::MAX {
            return Err(SearchError::IoOperation(String::from_str("Search position is out of range")));
        }
        if self.bytes_read > 0 && file_len <= self.bytes_read {
            return Err(
                SearchError::IoOperation(
                    String::from_str("Session file is shorter than the part already searched"),
                ),
            );
        }
        Ok(self.bytes_read + 1)
    }

    /// Takes the numbered lines that a run found in `tail`, the bytes of the
    /// session file from the start position on, each with the filters that
    /// it satisfies: turns them into matches, counts the hits and moves on
    /// the place up to which the session file has been searched.
    #[verifier::loop_isolation(false)]
    pub fn take_batch(&mut self, tail: &[u8], numbered: &[(u64, Vec<u8>)], complete: bool) -> (r:
        SearchResults)
        ensures
            search_result_is(
                r,
                final(self)@,
                old(self)@,
                batch_outcome(old(self)@, tail@, numbered.deep_view(), complete),
            ),
            final(self)@.bytes_read >= old(self)@.bytes_read,
            final(self)@.lines_read >= old(self)@.lines_read,
            r matches Ok((_, found, _)) ==> {
                &&& crate::map::ascending(match_views(found@))
                &&& forall|i: int|
                    0 <= i < found@.len() ==> old(self)@.lines_read <= (#[trigger] found@[i]).index
                        < final(self)@.lines_read
            },
    {
        let ghost before = self@;
        let ghost pairs = numbered.deep_view();
        let ghost numbers = numbers_of(pairs);
        let (complete_bytes, extra) = count_lines(tail);
        let new_bytes = self.bytes_read.checked_add(complete_bytes as u64);
        let new_lines = self.lines_read.checked_add(extra as u64);
        if new_bytes.is_none() || new_lines.is_none() {
            return Err(
                SearchError::IoOperation(String::from_str("Search position is out of range")),
            );
        }
        let base = self.lines_read;
        let mut found: Vec<FilterMatch> = Vec::new();
        let mut last: u64 = 0;
        let mut i: usize = 0;
        while i < numbered.len()
            invariant
                i <= numbered.len(),
                *self == *old(self),
                pairs == numbered.deep_view(),
                numbers == numbers_of(pairs),
                base + extra <= u64::MAX,
                well_numbered(numbers.take(i as int), extra as nat),
                i == 0 ==> last == 0,
                i > 0 ==> last == numbers[i - 1],
                last <= extra,
                match_views(found@) == numbered_entries(base, pairs.take(i as int)),
            decreases numbered.len() - i,
        {
            let number = numbered[i].0;
            proof {
                assert(numbers[i as int] == number);
            }
            if number <= last || number > extra as u64 {
                proof {
                    if i > 0 {
                        assert(numbers[i - 1] == last);
                    }
                    assert(!well_numbered(numbers, extra as nat));
                }
                return Err(
                    SearchError::IoOperation(
                        String::from_str("Matching lines are not numbered in order"),
                    ),
                );
            }
            let ghost old_found = found@;
            let entry = FilterMatch::new(base + (number - 1), crate::text::copy_bytes(&numbered[i].1));
            found.push(entry);
            proof {
                assert(pairs[i as int] == (number, numbered@[i as int].1@));
                assert(match_views(found@) =~= match_views(old_found).push(entry@));
                assert(pairs.take(i + 1) =~= pairs.take(i as int).push(pairs[i as int]));
                assert(numbered_entries(base, pairs.take(i + 1)) =~= numbered_entries(
                    base,
                    pairs.take(i as int),
                ).push(entry@));
                assert(numbers.take(i + 1) =~= numbers.take(i as int).push(number));
                let longer = numbers.take(i + 1);
                let shorter = numbers.take(i as int);
                assert forall|a: int, b: int| 0 <= a < b < longer.len() implies #[trigger] longer[a]
                    < #[trigger] longer[b] by {
                    if b == i && i > 0 {
                        assert(shorter[i - 1] == last);
                        if a < i - 1 {
                            assert(shorter[a] < shorter[i - 1]);
                        }
                    } else {
                        assert(shorter[a] < shorter[b]);
                    }
                }
            }
            last = number;
            i = i + 1;
        }
        proof {
            assert(pairs.take(pairs.len() as int) == pairs);
            assert(numbers.take(numbers.len() as int) == numbers);
            lemma_complete_len(tail@);
        }
        let stats = FilterStats::count(found.as_slice());
        if complete {
            self.bytes_read = self.bytes_read + complete_bytes as u64;
            self.lines_read = self.lines_read + extra as u64;
        } else if numbered.len() > 0 {
            proof {
                lemma_line_end(tail@, last as nat);
                assert(pairs.last().0 == last);
            }
            let end = end_of_line(tail, last as usize);
            self.bytes_read = self.bytes_read + end as u64;
            self.lines_read = self.lines_read + last;
        }
        proof {
            let entries = match_views(found@);
            assert forall|a: int, b: int| 0 <= a < b < entries.len() implies (
            #[trigger] entries[a]).index < (#[trigger] entries[b]).index by {
                assert(numbers[a] < numbers[b]);
            }
            assert forall|k: int| 0 <= k < found@.len() implies before.lines_read <= (
            #[trigger] found@[k]).index < self@.lines_read by {
                assert(entries[k].index == found@[k].index);
                assert(1 <= numbers[k] <= extra);
                if !complete {
                    assert(numbers[k] <= last) by {
                        if k < numbers.len() - 1 {
                            assert(numbers[k] < numbers[numbers.len() - 1]);
                        }
                    }
                }
            }
        }
        proof {
            assert(match_views(found@) =~= batch_outcome(before, tail@, pairs, complete)->entries);
        }
        Ok((self.out_file_path.clone(), found, stats))
    }

    /// Runs the search over `tail`, the bytes of the session file from the
    /// start position on. The complete lines of `tail` are searched with the
    /// combined pattern of all filters; each matching line is attributed to
    /// the filters whose own pattern matches it. Before each matching line
    /// the token is asked: once it is cancelled the run stops and returns
    /// what it has, which is no error.
    #[verifier::loop_isolation(false)]
    pub fn execute_search(&mut self, tail: &[u8], cancel: &CancellationToken) -> (r:
        SearchResults)
        ensures
            search_ran(r, final(self)@, old(self)@, tail@),
            final(self)@.bytes_read >= old(self)@.bytes_read,
            final(self)@.lines_read >= old(self)@.lines_read,
            r matches Ok((_, found, _)) ==> {
                &&& crate::map::ascending(match_views(found@))
                &&& forall|i: int|
                    0 <= i < found@.len() ==> old(self)@.lines_read <= (#[trigger] found@[i]).index
                        < final(self)@.lines_read
            },
    {
        let ghost before = self@;
        let ghost patterns = filter_patterns(before.filters);
        if self.search_filters.len() == 0 {
            proof {
                assert(search_outcome(before, tail@, 0) is NoFilters);
            }
            return Err(SearchError::Input(String::from_str("Cannot search without filters")));
        }
        let combined = combined_regex(self.search_filters.as_slice());
        let matcher = match compile_matcher(combined.as_str()) {
            Ok(m) => m,
            Err(err) => {
                proof {
                    assert(search_outcome(before, tail@, 0) is BadPattern);
                }
                return Err(SearchError::Regex(err.to_string()));
            },
        };
        let regexes = match compile_filters(self.search_filters.as_slice()) {
            Ok(v) => v,
            Err(e) => {
                proof {
                    assert(search_outcome(before, tail@, 0) is BadPattern);
                }
                return Err(e);
            },
        };
        let (complete_bytes, _) = count_lines(tail);
        let lines = match search_lines(&matcher, slice_subrange(tail, 0, complete_bytes)) {
            Ok(l) => l,
            Err(err) => {
                proof {
                    assert(search_outcome(before, tail@, 0) is Unreadable);
                }
                return Err(SearchError::IoOperation(err.to_string()));
            },
        };
        let ghost all = lines.deep_view();
        let mut numbered: Vec<(u64, Vec<u8>)> = Vec::new();
        let mut k: usize = 0;
        while k < lines.len()
            invariant
                k <= lines.len(),
                numbered.deep_view() == classify(patterns, all.take(k as int)),
            decreases lines.len() - k,
        {
            if cancel.is_cancelled() {
                break ;
            }
            let filters = classify_line(regexes.as_slice(), lines[k].1.as_str());
            let ghost shorter = numbered.deep_view();
            numbered.push((lines[k].0, filters));
            proof {
                assert(all[k as int] == (lines@[k as int].0, lines@[k as int].1@));
                assert(filters.deep_view() =~= filters@);
                assert(numbered@.last().deep_view() == (lines@[k as int].0, filters@));
                assert(numbered.deep_view() =~= shorter.push((lines@[k as int].0, filters@)));
                assert(all.take(k + 1) =~= all.take(k as int).push(all[k as int]));
            }
            k = k + 1;
        }
        let batch = numbered.as_slice();
        proof {
            assert(all.take(all.len() as int) == all);
            assert(batch.deep_view() =~= numbered.deep_view());
        }
        let r = self.take_batch(tail, batch, k == lines.len());
        proof {
            assert(search_result_is(r, self@, before, search_outcome(before, tail@, k as nat)));
        }
        r
    }
}

/// A copy of the filters.
pub(crate) fn copy_filters(filters: &[SearchFilter]) -> (r: Vec<SearchFilter>)
    ensures
        filter_views(r@) == filter_views(filters@),
{
    let mut out: Vec<SearchFilter> = Vec::new();
    let mut i: usize = 0;
    while i < filters.len()
        invariant
            i <= filters.len(),
            filter_views(out@) == filter_views(filters@).take(i as int),
        decreases filters.len() - i,
    {
        let ghost before = out@;
        let copy = filters[i].clone();
        out.push(copy);
        proof {
            let all = filter_views(filters@);
            assert(filter_views(out@) =~= filter_views(before).push(copy@));
            assert(all.take(i + 1) =~= all.take(i as int).push(all[i as int]));
        }
        i = i + 1;
    }
    proof {
        let all = filter_views(filters@);
        assert(all.take(all.len() as int) == all);
    }
    out
}

} // verus!
