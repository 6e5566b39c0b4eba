//! The search map: for each matched line of the session file, the filters
//! that it satisfied.

use vstd::prelude::*;
use vstd::string::*;
use crate::text::{copy_bytes, decimal, joined, push_decimal};

verus! {

/// One matched line: its index in the session file, counted from 0, and the
/// indices of the filters that matched it.
#[derive(Debug)]
pub struct FilterMatch {
    pub index: u64,
    pub filters: Vec<u8>,
}

/// The mathematical value of a [`FilterMatch`].
pub struct FilterMatchView {
    pub index: u64,
    pub filters: Seq<u8>,
}

impl View for FilterMatch {
    type V = FilterMatchView;

    open spec fn view(&self) -> FilterMatchView {
        FilterMatchView { index: self.index, filters: self.filters@ }
    }
}

/// The values of a list of matches, in order.
pub open spec fn match_views(entries: Seq<FilterMatch>) -> Seq<FilterMatchView> {
    entries.map_values(|m: FilterMatch| m@)
}

/// The line indices strictly ascend: no line stands twice in the list.
pub open spec fn ascending(entries: Seq<FilterMatchView>) -> bool {
    forall|i: int, j: int| 0 <= i < j < entries.len() ==> entries[i].index < entries[j].index
}

/// The filter indices of one match as text: decimal numbers with commas
/// between them.
pub open spec fn filters_text(filters: Seq<u8>) -> Seq<char> {
    joined(filters.map_values(|f: u8| decimal(f as nat)), seq![','])
}

/// One match as text.
pub open spec fn match_text(m: FilterMatchView) -> Seq<char> {
    "{\"index\":"@ + decimal(m.index as nat) + ",\"filters\":["@ + filters_text(m.filters)
        + "]}"@
}

/// A list of matches as text: a JSON array with one object for each match,
/// in order, without white space.
pub open spec fn map_text(entries: Seq<FilterMatchView>) -> Seq<char> {
    seq!['['] + joined(entries.map_values(|m: FilterMatchView| match_text(m)), seq![','])
        + seq![']']
}

impl FilterMatch {
    pub fn new(index: u64, filters: Vec<u8>) -> (m: FilterMatch)
        ensures
            m.index == index,
            m.filters == filters,
    {
        FilterMatch { index, filters }
    }

    /// A copy of this match.
    pub fn duplicate(&self) -> (m: FilterMatch)
        ensures
            m@ == self@,
    {
        FilterMatch { index: self.index, filters: copy_bytes(&self.filters) }
    }

    /// Appends this match as text to `out`.
    fn push_text(&self, out: &mut String)
        ensures
            final(out)@ == old(out)@ + match_text(self@),
    {
        out.append("{\"index\":");
        push_decimal(out, self.index);
        out.append(",\"filters\":[");
        let ghost before = out@;
        let ghost texts = self.filters@.map_values(|f: u8| decimal(f as nat));
        let mut i: usize = 0;
        while i < self.filters.len()
            invariant
                i <= self.filters.len(),
                texts == self.filters@.map_values(|f: u8| decimal(f as nat)),
                out@ == before + joined(texts.take(i as int), seq![',']),
            decreases self.filters.len() - i,
        {
            proof {
                assert(texts.take(i + 1).drop_last() == texts.take(i as int));
            }
            if i > 0 {
                out.push(',');
            }
            push_decimal(out, self.filters[i] as u64);
            i = i + 1;
        }
        proof {
            assert(texts.take(texts.len() as int) == texts);
        }
        out.append("]}");
    }
}

/// The matches found so far, in the order in which they were added, and the
/// length of the stream that a rendering of the map is scaled to.
#[derive(Debug)]
pub struct SearchMap {
    pub entries: Vec<FilterMatch>,
    pub stream_len: u64,
}

/// The mathematical value of a [`SearchMap`].
pub struct SearchMapView {
    pub entries: Seq<FilterMatchView>,
    pub stream_len: u64,
}

impl View for SearchMap {
    type V = SearchMapView;

    open spec fn view(&self) -> SearchMapView {
        SearchMapView { entries: match_views(self.entries@), stream_len: self.stream_len }
    }
}

impl SearchMap {
    /// An empty map for a stream of length 0.
    pub fn new() -> (map: SearchMap)
        ensures
            map@.entries == Seq::<FilterMatchView>::empty(),
            map@.stream_len == 0,
    {
        SearchMap { entries: Vec::new(), stream_len: 0 }
    }

    /// Replaces the matches: by the given ones, or by none.
    pub fn set(&mut self, entries: Option<Vec<FilterMatch>>)
        ensures
            final(self)@.stream_len == old(self)@.stream_len,
            final(self)@.entries == match entries {
                Some(m) => match_views(m@),
                None => Seq::empty(),
            },
    {
        match entries {
            Some(m) => {
                self.entries = m;
            },
            None => {
                self.entries = Vec::new();
            },
        }
    }

    /// Sets the length of the stream that the map is scaled to.
    pub fn set_stream_len(&mut self, len: u64)
        ensures
            final(self)@.stream_len == len,
            final(self)@.entries == old(self)@.entries,
    {
        self.stream_len = len;
    }

    /// The length of the stream that the map is scaled to.
    pub fn get_stream_len(&self) -> (len: u64)
        ensures
            len == self@.stream_len,
    {
        self.stream_len
    }

    /// Moves the given matches to the end of the map and leaves the given
    /// list empty.
    pub fn append(&mut self, entries: &mut Vec<FilterMatch>)
        ensures
            final(self)@.stream_len == old(self)@.stream_len,
            final(self)@.entries == old(self)@.entries + match_views(old(entries)@),
            final(entries)@ == Seq::<FilterMatch>::empty(),
    {
        self.entries.append(entries);
    }

    /// A copy of the map.
    pub fn duplicate(&self) -> (map: SearchMap)
        ensures
            map@ == self@,
    {
        let mut entries: Vec<FilterMatch> = Vec::new();
        let mut i: usize = 0;
        while i < self.entries.len()
            invariant
                i <= self.entries.len(),
                match_views(entries@) == match_views(self.entries@).take(i as int),
            decreases self.entries.len() - i,
        {
            let ghost before = entries@;
            let copy = self.entries[i].duplicate();
            entries.push(copy);
            proof {
                assert(match_views(entries@) =~= match_views(before).push(copy@));
                assert(match_views(self.entries@).take(i + 1) =~= match_views(self.entries@).take(
                    i as int,
                ).push(self.entries@[i as int]@));
            }
            i = i + 1;
        }
        proof {
            let all = match_views(self.entries@);
            assert(all.take(all.len() as int) == all);
        }
        SearchMap { entries, stream_len: self.stream_len }
    }

    /// The given matches as text.
    pub fn map_as_str(entries: &[FilterMatch]) -> (text: String)
        ensures
            text@ == map_text(match_views(entries@)),
    {
        let mut out = String::new();
        out.push('[');
        let ghost texts = match_views(entries@).map_values(|m: FilterMatchView| match_text(m));
        let mut i: usize = 0;
        while i < entries.len()
            invariant
                i <= entries.len(),
                texts == match_views(entries@).map_values(|m: FilterMatchView| match_text(m)),
                out@ == seq!['['] + joined(texts.take(i as int), seq![',']),
            decreases entries.len() - i,
        {
            proof {
                assert(texts.take(i + 1).drop_last() == texts.take(i as int));
            }
            if i > 0 {
                out.push(',');
            }
            entries[i].push_text(&mut out);
            i = i + 1;
        }
        proof {
            assert(texts.take(texts.len() as int) == texts);
        }
        out.push(']');
        out
    }
}

} // verus!
