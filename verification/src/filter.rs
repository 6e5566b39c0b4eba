//! User filters and the regular expression patterns they stand for.

use vstd::prelude::*;
use vstd::string::*;
use crate::text::joined;

verus! {

/// One user filter: a text and the flags that say how to read it.
#[derive(Debug)]
pub struct SearchFilter {
    pub value: String,
    pub is_regex: bool,
    pub ignore_case: bool,
    pub is_word: bool,
}

/// The mathematical value of a [`SearchFilter`].
pub struct SearchFilterView {
    pub value: Seq<char>,
    pub is_regex: bool,
    pub ignore_case: bool,
    pub is_word: bool,
}

impl View for SearchFilter {
    type V = SearchFilterView;

    open spec fn view(&self) -> SearchFilterView {
        SearchFilterView {
            value: self.value@,
            is_regex: self.is_regex,
            ignore_case: self.ignore_case,
            is_word: self.is_word,
        }
    }
}

impl Clone for SearchFilter {
    fn clone(&self) -> (r: SearchFilter)
        ensures
            r@ == self@,
    {
        SearchFilter {
            value: self.value.clone(),
            is_regex: self.is_regex,
            ignore_case: self.ignore_case,
            is_word: self.is_word,
        }
    }
}

/// The values of a list of filters, in order.
pub open spec fn filter_views(filters: Seq<SearchFilter>) -> Seq<SearchFilterView> {
    filters.map_values(|f: SearchFilter| f@)
}

impl SearchFilter {
    /// A filter that reads `value` as a regular expression, with regard to
    /// case and not bound to whole words.
    pub fn new(value: &str) -> (f: SearchFilter)
        ensures
            f@ == (SearchFilterView {
                value: value@,
                is_regex: true,
                ignore_case: false,
                is_word: false,
            }),
    {
        SearchFilter {
            value: String::from_str(value),
            is_regex: true,
            ignore_case: false,
            is_word: false,
        }
    }

    /// The same filter, ignoring case or not.
    #[must_use]
    pub fn ignore_case(self, ignore: bool) -> (f: SearchFilter)
        ensures
            f@ == (SearchFilterView { ignore_case: ignore, ..self@ }),
    {
        let mut f = self;
        f.ignore_case = ignore;
        f
    }

    /// The same filter, read as a regular expression or as a literal text.
    #[must_use]
    pub fn regex(self, regex: bool) -> (f: SearchFilter)
        ensures
            f@ == (SearchFilterView { is_regex: regex, ..self@ }),
    {
        let mut f = self;
        f.is_regex = regex;
        f
    }

    /// The same filter, bound to whole words or not.
    #[must_use]
    pub fn word(self, word: bool) -> (f: SearchFilter)
        ensures
            f@ == (SearchFilterView { is_word: word, ..self@ }),
    {
        let mut f = self;
        f.is_word = word;
        f
    }
}

/// The pattern that a filter stands for: the text, escaped unless it is a
/// regular expression, between word boundaries if the filter is bound to
/// whole words, and inside a switch that turns case off and on again if the
/// filter ignores case.
pub open spec fn filter_pattern(f: SearchFilterView) -> Seq<char> {
    let subject = if f.is_regex {
        f.value
    } else {
        escaped(f.value)
    };
    let boundary = if f.is_word {
        "\\b"@
    } else {
        ""@
    };
    let case_off = if f.ignore_case {
        "(?i)"@
    } else {
        ""@
    };
    let case_on = if f.ignore_case {
        "(?-i)"@
    } else {
        ""@
    };
    case_off + boundary + subject + boundary + case_on
}

/// The patterns of a list of filters, in order.
pub open spec fn filter_patterns(filters: Seq<SearchFilterView>) -> Seq<Seq<char>> {
    filters.map_values(|f: SearchFilterView| filter_pattern(f))
}

/// The pattern that matches a line exactly when one of the filters'
/// patterns does: the patterns with `|` between them, in parentheses.
pub open spec fn combined_pattern(filters: Seq<SearchFilterView>) -> Seq<char> {
    seq!['('] + joined(filter_patterns(filters), seq!['|']) + seq![')']
}

/// The characters that carry a meaning in a pattern and are escaped in a
/// literal filter.
pub open spec fn is_special(c: char) -> bool {
    c == '{' || c == '}' || c == '[' || c == ']' || c == '+' || c == '$' || c == '^' || c == '/'
        || c == '!' || c == '.' || c == '*' || c == '|' || c == '(' || c == ')' || c == ':'
        || c == '?' || c == ',' || c == '=' || c == '<' || c == '>' || c == '\\'
}

/// What one character of a literal filter becomes in a pattern.
pub open spec fn escaped_char(c: char) -> Seq<char> {
    if is_special(c) {
        seq!['\\', c]
    } else {
        seq![c]
    }
}

/// A literal text with every special character prefixed by a backslash.
pub open spec fn escaped(s: Seq<char>) -> Seq<char>
    decreases s.len(),
{
    if s.len() == 0 {
        Seq::empty()
    } else {
        escaped(s.drop_last()) + escaped_char(s.last())
    }
}

fn special(c: char) -> (b: bool)
    ensures
        b == is_special(c),
{
    c == '{' || c == '}' || c == '[' || c == ']' || c == '+' || c == '$' || c == '^' || c == '/'
        || c == '!' || c == '.' || c == '*' || c == '|' || c == '(' || c == ')' || c == ':'
        || c == '?' || c == ',' || c == '=' || c == '<' || c == '>' || c == '\\'
}

/// Escapes a literal text so that a pattern matches it character by character.
pub fn escape(value: &str) -> (r: String)
    ensures
        r@ == escaped(value@),
{
    broadcast use vstd::string::group_string_axioms;

    let mut out = String::new();
    for c in it: value.chars()
        invariant
            it.seq() == value@,
            out@ == escaped(value@.take(it.index())),
    {
        proof {
            let n = it.index();
            assert(value@.take(n + 1).drop_last() == value@.take(n));
        }
        if special(c) {
            out.push('\\');
        }
        out.push(c);
    }
    proof {
        assert(value@.take(value@.len() as int) == value@);
    }
    out
}

/// The pattern of a filter.
pub fn filter_as_regex(filter: &SearchFilter) -> (r: String)
    ensures
        r@ == filter_pattern(filter@),
{
    let word_marker = if filter.is_word {
        "\\b"
    } else {
        ""
    };
    let ignore_case_start = if filter.ignore_case {
        "(?i)"
    } else {
        ""
    };
    let ignore_case_end = if filter.ignore_case {
        "(?-i)"
    } else {
        ""
    };
    let subject = if filter.is_regex {
        filter.value.clone()
    } else {
        escape(filter.value.as_str())
    };
    let mut out = String::from_str(ignore_case_start);
    out.append(word_marker);
    out.append(subject.as_str());
    out.append(word_marker);
    out.append(ignore_case_end);
    out
}

/// The one pattern that stands for all the filters together.
pub fn combined_regex(filters: &[SearchFilter]) -> (r: String)
    ensures
        r@ == combined_pattern(filter_views(filters@)),
{
    let mut out = String::new();
    out.push('(');
    let ghost patterns = filter_patterns(filter_views(filters@));
    let mut i: usize = 0;
    while i < filters.len()
        invariant
            i <= filters.len(),
            patterns == filter_patterns(filter_views(filters@)),
            out@ == seq!['('] + joined(patterns.take(i as int), seq!['|']),
        decreases filters.len() - i,
    {
        proof {
            assert(patterns.take(i + 1).drop_last() == patterns.take(i as int));
        }
        if i > 0 {
            out.push('|');
        }
        let pattern = filter_as_regex(&filters[i]);
        out.append(pattern.as_str());
        i = i + 1;
    }
    proof {
        assert(patterns.take(patterns.len() as int) == patterns);
    }
    out.push(')');
    out
}

} // verus!
