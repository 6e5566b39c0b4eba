//! What holds of the search and of the session over any number of commands.

use vstd::prelude::*;
use crate::filter::filter_patterns;
use crate::lines::{
    complete_len, lemma_complete_len, lemma_line_end, lemma_line_end_monotonic,
    lemma_newline_count_concat, line_end, newline_count, NEWLINE,
};
use crate::map::{ascending, FilterMatchView, SearchMapView};
use crate::matcher::{matching_lines, regex_matches};
use crate::search::{
    batch_outcome, classify, line_filters, numbered_entries, numbers_of, search_outcome,
    searched, well_numbered, SearchHolderView, SearchOutcome,
};
use crate::stats::{hit_count, occurrences};
use crate::grabber::GrabError;
use crate::search::SearchError;
use crate::state::{SearchHolderStateView, SessionStateView};

verus! {

/// The holder has searched `file` up to a line end: nothing yet, or up to
/// the byte `bytes_read`, which ends a line, and `lines_read` is the number
/// of lines that end between byte 1 and that byte.
pub open spec fn cursor_valid(h: SearchHolderView, file: Seq<u8>) -> bool {
    if h.lines_read == 0 {
        h.bytes_read == 0
    } else {
        &&& 0 < h.bytes_read < file.len()
        &&& file[h.bytes_read as int] == NEWLINE
        &&& newline_count(file.subrange(1, h.bytes_read + 1)) == h.lines_read
    }
}

/// The bytes of `file` from the start position of the holder on.
pub open spec fn unread(h: SearchHolderView, file: Seq<u8>) -> Seq<u8> {
    if h.bytes_read + 1 <= file.len() {
        file.subrange(h.bytes_read + 1, file.len() as int)
    } else {
        Seq::empty()
    }
}

/// The holder as a run leaves it.
pub open spec fn moved_on(h: SearchHolderView, outcome: SearchOutcome) -> SearchHolderView {
    match outcome {
        SearchOutcome::Found { entries, bytes_read, lines_read } => SearchHolderView {
            bytes_read,
            lines_read,
            ..h
        },
        _ => h,
    }
}

/// A part of a file holds no more complete lines than the file.
proof fn lemma_newline_count_part(file: Seq<u8>, from: int, to: int)
    requires
        0 <= from <= to <= file.len(),
    ensures
        newline_count(file.subrange(from, to)) <= newline_count(file),
{
    let a = file.subrange(0, from);
    let b = file.subrange(from, to);
    let c = file.subrange(to, file.len() as int);
    lemma_newline_count_concat(a, b);
    lemma_newline_count_concat(a + b, c);
    assert(a + b + c =~= file);
}

/// A run over the unread bytes of the session file leaves the holder at a
/// line end again, never before the place where it was, and every line
/// index that the run returns names a line of the file that the run has
/// searched: it is below the number of lines of the file.
pub proof fn lemma_batch_keeps_cursor(
    h: SearchHolderView,
    file: Seq<u8>,
    numbered: Seq<(u64, Seq<u8>)>,
    complete: bool,
)
    requires
        cursor_valid(h, file),
    ensures
        ({
            let outcome = batch_outcome(h, unread(h, file), numbered, complete);
            let after = moved_on(h, outcome);
            &&& cursor_valid(after, file)
            &&& h.bytes_read <= after.bytes_read
            &&& h.lines_read <= after.lines_read <= newline_count(file)
            &&& outcome matches SearchOutcome::Found { entries, .. } ==> {
                &&& ascending(entries)
                &&& forall|i: int|
                    0 <= i < entries.len() ==> h.lines_read <= (#[trigger] entries[i]).index
                        < after.lines_read
            }
        }),
{
    let tail = unread(h, file);
    let outcome = batch_outcome(h, tail, numbered, complete);
    let after = moved_on(h, outcome);
    let extra = newline_count(tail);
    let numbers = numbers_of(numbered);
    lemma_complete_len(tail);
    if h.lines_read > 0 {
        lemma_newline_count_part(file, 1, h.bytes_read + 1);
    }
    if outcome is Found {
        let entries = outcome->entries;
        // how far the run has come into the unread bytes, and over how many lines
        let lines: nat = if complete {
            extra
        } else if numbered.len() == 0 {
            0
        } else {
            numbered.last().0 as nat
        };
        let bytes: nat = if complete {
            complete_len(tail)
        } else {
            line_end(tail, lines)
        };
        if numbered.len() > 0 {
            assert(numbers[numbered.len() - 1] == numbered.last().0);
        }
        lemma_line_end(tail, lines);
        assert(after.bytes_read == h.bytes_read + bytes);
        assert(after.lines_read == h.lines_read + lines);
        if lines > 0 {
            let end = h.bytes_read + bytes;
            assert(bytes > 0) by {
                if bytes == 0 {
                    assert(tail.take(0).len() == 0);
                }
            }
            assert(tail[bytes - 1] == NEWLINE);
            assert(file[end] == tail[bytes - 1]);
            let read_before = if h.bytes_read == 0 {
                Seq::<u8>::empty()
            } else {
                file.subrange(1, h.bytes_read + 1)
            };
            assert(newline_count(read_before) == h.lines_read);
            assert(file.subrange(1, end + 1) =~= read_before + tail.take(bytes as int));
            lemma_newline_count_concat(read_before, tail.take(bytes as int));
            lemma_newline_count_part(file, 1, end + 1);
        }
        assert forall|i: int, j: int| 0 <= i < j < entries.len() implies (
        #[trigger] entries[i]).index < (#[trigger] entries[j]).index by {
            assert(numbers[i] < numbers[j]);
        }
        assert forall|i: int| 0 <= i < entries.len() implies h.lines_read <= (
        #[trigger] entries[i]).index < after.lines_read by {
            assert(1 <= numbers[i] <= extra);
            if !complete && i < numbered.len() - 1 {
                assert(numbers[i] < numbers[numbered.len() - 1]);
            }
        }
    }
}

/// A search run over the unread bytes of the session file leaves the holder
/// at a line end again and never before the place where it was; the line
/// indices that it returns ascend, are none that an earlier run returned,
/// and are below the number of lines of the file.
pub proof fn lemma_search_keeps_cursor(h: SearchHolderView, file: Seq<u8>, processed: nat)
    requires
        cursor_valid(h, file),
    ensures
        ({
            let outcome = search_outcome(h, unread(h, file), processed);
            let after = moved_on(h, outcome);
            &&& cursor_valid(after, file)
            &&& h.bytes_read <= after.bytes_read
            &&& h.lines_read <= after.lines_read <= newline_count(file)
            &&& outcome matches SearchOutcome::Found { entries, .. } ==> {
                &&& ascending(entries)
                &&& forall|i: int|
                    0 <= i < entries.len() ==> h.lines_read <= (#[trigger] entries[i]).index
                        < after.lines_read
            }
        }),
{
    let tail = unread(h, file);
    let patterns = filter_patterns(h.filters);
    if h.lines_read > 0 {
        lemma_newline_count_part(file, 1, h.bytes_read + 1);
    }
    if search_outcome(h, tail, processed) is Found {
        let lines = matching_lines(crate::filter::combined_pattern(h.filters), searched(tail))->0;
        if processed < lines.len() {
            lemma_batch_keeps_cursor(
                h,
                file,
                classify(patterns, lines.take(processed as int)),
                false,
            );
        } else {
            lemma_batch_keeps_cursor(h, file, classify(patterns, lines), true);
        }
    }
}

/// A run that is cancelled returns the first of the matches that the run
/// would have returned had it been cancelled later or not at all, and does
/// not come further into the file.
pub proof fn lemma_cancelled_run_is_prefix(
    h: SearchHolderView,
    tail: Seq<u8>,
    sooner: nat,
    later: nat,
)
    requires
        sooner <= later,
        search_outcome(h, tail, later) is Found,
    ensures
        ({
            let whole = search_outcome(h, tail, later);
            let part = search_outcome(h, tail, sooner);
            &&& part is Found
            &&& part->entries.is_prefix_of(whole->entries)
            &&& h.bytes_read <= part->bytes_read <= whole->bytes_read
            &&& h.lines_read <= part->lines_read <= whole->lines_read
        }),
{
    let patterns = filter_patterns(h.filters);
    let lines = matching_lines(crate::filter::combined_pattern(h.filters), searched(tail))->0;
    let extra = newline_count(tail);
    let whole = search_outcome(h, tail, later);
    let part = search_outcome(h, tail, sooner);
    lemma_complete_len(tail);
    if sooner >= lines.len() {
        assert(part == whole);
    } else {
        let complete = later >= lines.len();
        let seen = if complete {
            lines
        } else {
            lines.take(later as int)
        };
        let numbered = classify(patterns, seen);
        let numbers = numbers_of(numbered);
        let fewer = classify(patterns, lines.take(sooner as int));
        let fewer_numbers = numbers_of(fewer);
        assert(whole == batch_outcome(h, tail, numbered, complete));
        assert(part == batch_outcome(h, tail, fewer, false));
        assert(well_numbered(numbers, extra));
        assert(seen.take(sooner as int) =~= lines.take(sooner as int));
        assert(fewer =~= numbered.take(sooner as int));
        assert forall|i: int| 0 <= i < fewer_numbers.len() implies 1
            <= #[trigger] fewer_numbers[i] <= extra by {
            assert(fewer_numbers[i] == numbers[i]);
        }
        assert forall|i: int, j: int| 0 <= i < j < fewer_numbers.len() implies (
        #[trigger] fewer_numbers[i]) < (#[trigger] fewer_numbers[j]) by {
            assert(fewer_numbers[i] == numbers[i]);
            assert(fewer_numbers[j] == numbers[j]);
        }
        assert(well_numbered(fewer_numbers, extra));
        assert(part is Found);
        if sooner == 0 {
            assert(part->entries =~= Seq::<FilterMatchView>::empty());
            if !complete && later > 0 {
                assert(numbers[numbered.len() - 1] == numbered.last().0);
                lemma_line_end(tail, numbered.last().0 as nat);
            }
        } else {
            let last = fewer.last().0;
            assert(last == numbers[sooner - 1]);
            assert(1 <= last <= extra);
            lemma_line_end(tail, last as nat);
            assert(numbered.len() >= sooner);
            assert(whole->entries == numbered_entries(h.lines_read, numbered));
            assert(part->entries == numbered_entries(h.lines_read, fewer));
            assert(numbered_entries(h.lines_read, fewer) =~= numbered_entries(
                h.lines_read,
                numbered,
            ).subrange(0, sooner as int));
            if !complete {
                let end = numbered.last().0;
                assert(end == numbers[numbers.len() - 1]);
                if sooner < later {
                    assert(numbers[sooner - 1] < numbers[numbers.len() - 1]);
                }
                lemma_line_end(tail, end as nat);
                lemma_line_end_monotonic(tail, last as nat, end as nat);
            }
        }
    }
}

/// How many of the lines the pattern matches.
pub open spec fn matched_count(pattern: Seq<char>, lines: Seq<(u64, Seq<char>)>) -> nat
    decreases lines.len(),
{
    if lines.len() == 0 {
        0
    } else {
        matched_count(pattern, lines.drop_last()) + if regex_matches(pattern, lines.last().1) {
            1nat
        } else {
            0nat
        }
    }
}

/// Among the filters of a line, an index stands once if its pattern matches
/// the line, and not at all if it does not.
proof fn lemma_line_filters_count(patterns: Seq<Seq<char>>, line: Seq<char>, f: int)
    requires
        patterns.len() <= 256,
        0 <= f < 256,
    ensures
        occurrences(line_filters(patterns, line), f as u8) == if f < patterns.len()
            && regex_matches(patterns[f], line) {
            1nat
        } else {
            0nat
        },
    decreases patterns.len(),
{
    if patterns.len() > 0 {
        let front = patterns.drop_last();
        lemma_line_filters_count(front, line, f);
        let before = line_filters(front, line);
        if regex_matches(patterns.last(), line) {
            let index = ((patterns.len() - 1) % 256) as u8;
            assert(before.push(index).drop_last() =~= before);
        }
    }
}

/// The hits of a filter in the matches of a run are the matching lines of
/// the run that the pattern of the filter matches: none is counted twice
/// and none is left out. This holds of up to 256 filters; above that,
/// filter indices wrap around and share their counts.
pub proof fn lemma_hits_are_matched_lines(
    patterns: Seq<Seq<char>>,
    base: u64,
    lines: Seq<(u64, Seq<char>)>,
    f: int,
)
    requires
        patterns.len() <= 256,
        0 <= f < patterns.len(),
    ensures
        hit_count(numbered_entries(base, classify(patterns, lines)), f as u8) == matched_count(
            patterns[f],
            lines,
        ),
    decreases lines.len(),
{
    let entries = numbered_entries(base, classify(patterns, lines));
    if lines.len() > 0 {
        let front = lines.drop_last();
        lemma_hits_are_matched_lines(patterns, base, front, f);
        assert(entries.drop_last() =~= numbered_entries(base, classify(patterns, front)));
        assert(entries.last().filters == line_filters(patterns, lines.last().1));
        lemma_line_filters_count(patterns, lines.last().1, f);
    }
}

/// Some one of the patterns matches the line.
pub open spec fn any_matches(patterns: Seq<Seq<char>>, line: Seq<char>) -> bool {
    exists|i: int| 0 <= i < patterns.len() && regex_matches(#[trigger] patterns[i], line)
}

/// The lines that some one of the patterns matches, in order.
pub open spec fn lines_with_a_match(patterns: Seq<Seq<char>>, lines: Seq<(u64, Seq<char>)>) -> Seq<
    (u64, Seq<char>),
>
    decreases lines.len(),
{
    if lines.len() == 0 {
        Seq::empty()
    } else {
        let before = lines_with_a_match(patterns, lines.drop_last());
        if any_matches(patterns, lines.last().1) {
            before.push(lines.last())
        } else {
            before
        }
    }
}

/// Where the lines that a run looks at are the lines that some filter
/// matches, the hits of a filter are all the lines searched that its
/// pattern matches: to look at these lines only loses no hit. This holds of
/// up to 256 filters.
pub proof fn lemma_hits_cover_all_lines(
    patterns: Seq<Seq<char>>,
    base: u64,
    lines: Seq<(u64, Seq<char>)>,
    f: int,
)
    requires
        patterns.len() <= 256,
        0 <= f < patterns.len(),
    ensures
        hit_count(
            numbered_entries(base, classify(patterns, lines_with_a_match(patterns, lines))),
            f as u8,
        ) == matched_count(patterns[f], lines),
{
    lemma_matches_are_kept(patterns, lines, f);
    lemma_hits_are_matched_lines(patterns, base, lines_with_a_match(patterns, lines), f);
}

proof fn lemma_matches_are_kept(patterns: Seq<Seq<char>>, lines: Seq<(u64, Seq<char>)>, f: int)
    requires
        0 <= f < patterns.len(),
    ensures
        matched_count(patterns[f], lines_with_a_match(patterns, lines)) == matched_count(
            patterns[f],
            lines,
        ),
    decreases lines.len(),
{
    if lines.len() > 0 {
        lemma_matches_are_kept(patterns, lines.drop_last(), f);
        let before = lines_with_a_match(patterns, lines.drop_last());
        if any_matches(patterns, lines.last().1) {
            assert(before.push(lines.last()).drop_last() =~= before);
        } else {
            assert(!regex_matches(patterns[f], lines.last().1));
        }
    }
}

/// The hits of a filter index in the matches of two runs are the hits of
/// the one and those of the other.
pub proof fn lemma_hits_add_up(a: Seq<FilterMatchView>, b: Seq<FilterMatchView>, f: u8)
    ensures
        hit_count(a + b, f) == hit_count(a, f) + hit_count(b, f),
    decreases b.len(),
{
    if b.len() == 0 {
        assert(a + b =~= a);
    } else {
        lemma_hits_add_up(a, b.drop_last(), f);
        assert((a + b).drop_last() =~= a + b.drop_last());
    }
}

/// No line stands twice among matches whose indices ascend, as those of a
/// run do.
pub proof fn lemma_no_line_twice(entries: Seq<FilterMatchView>)
    requires
        ascending(entries),
    ensures
        forall|i: int, j: int|
            0 <= i < entries.len() && 0 <= j < entries.len() && i != j ==> (
            #[trigger] entries[i]).index != (#[trigger] entries[j]).index,
{
    assert forall|i: int, j: int|
        0 <= i < entries.len() && 0 <= j < entries.len() && i != j implies (
    #[trigger] entries[i]).index != (#[trigger] entries[j]).index by {
        if i < j {
            assert(entries[i].index < entries[j].index);
        } else {
            assert(entries[j].index < entries[i].index);
        }
    }
}

/// The matches of two runs, one after the other, ascend where the second
/// run started behind the lines of the first.
pub proof fn lemma_runs_ascend(a: Seq<FilterMatchView>, b: Seq<FilterMatchView>, lines_read: u64)
    requires
        ascending(a),
        ascending(b),
        forall|i: int| 0 <= i < a.len() ==> (#[trigger] a[i]).index < lines_read,
        forall|i: int| 0 <= i < b.len() ==> lines_read <= (#[trigger] b[i]).index,
    ensures
        ascending(a + b),
{
}

/// The pending bytes wait for a flush: where bytes wait, the session has
/// updates.
pub open spec fn writer_wf(s: SessionStateView) -> bool {
    match s.session_writer {
        Some(pending) => pending.len() > 0 ==> s.session_has_updates,
        None => true,
    }
}

/// The bytes that wait in the session.
pub open spec fn pending(s: SessionStateView) -> Seq<u8> {
    match s.session_writer {
        Some(p) => p,
        None => Seq::empty(),
    }
}

/// All the texts, one after the other.
pub open spec fn all_bytes(texts: Seq<Seq<u8>>) -> Seq<u8>
    decreases texts.len(),
{
    if texts.len() == 0 {
        Seq::empty()
    } else {
        all_bytes(texts.drop_last()) + texts.last()
    }
}

/// The session after the texts were written to it one after the other,
/// `elapsed[i]` milliseconds after the last flush each, and the bytes that
/// were handed out for the session file on the way.
pub open spec fn after_writes(s: SessionStateView, texts: Seq<Seq<u8>>, elapsed: Seq<u128>) -> (
    SessionStateView,
    Seq<u8>,
)
    decreases texts.len(),
{
    if texts.len() == 0 || elapsed.len() != texts.len() {
        (s, Seq::empty())
    } else {
        let (before, out) = after_writes(s, texts.drop_last(), elapsed.drop_last());
        let (after, flush) = before.written(texts.last(), elapsed.last());
        (
            after,
            out + match flush {
                Some(bytes) => bytes,
                None => Seq::empty(),
            },
        )
    }
}

/// Writes lose nothing and change no order: the bytes handed out and those
/// that still wait are the bytes that waited before and all texts written.
pub proof fn lemma_writes_keep_bytes(s: SessionStateView, texts: Seq<Seq<u8>>, elapsed: Seq<u128>)
    requires
        writer_wf(s),
        elapsed.len() == texts.len(),
    ensures
        ({
            let (after, out) = after_writes(s, texts, elapsed);
            &&& writer_wf(after)
            &&& out + pending(after) == pending(s) + all_bytes(texts)
            &&& s.assigned() ==> after.assigned()
        }),
    decreases texts.len(),
{
    if texts.len() > 0 {
        lemma_writes_keep_bytes(s, texts.drop_last(), elapsed.drop_last());
        let (before, out) = after_writes(s, texts.drop_last(), elapsed.drop_last());
        let (after, flush) = before.written(texts.last(), elapsed.last());
        let handed = out + match flush {
            Some(bytes) => bytes,
            None => Seq::empty(),
        };
        assert(handed + pending(after) =~= out + pending(before) + texts.last());
        assert(pending(s) + all_bytes(texts) =~= pending(s) + all_bytes(texts.drop_last())
            + texts.last());
    } else {
        assert(Seq::<u8>::empty() + pending(s) =~= pending(s) + all_bytes(texts));
    }
}

/// After any number of writes and a flush, the session file holds the
/// texts written, in order: the bytes handed out for it are these texts,
/// behind the bytes that waited at the start, and no bytes wait any more.
pub proof fn lemma_writes_then_flush(s: SessionStateView, texts: Seq<Seq<u8>>, elapsed: Seq<u128>)
    requires
        writer_wf(s),
        elapsed.len() == texts.len(),
    ensures
        ({
            let (written, out) = after_writes(s, texts, elapsed);
            let (after, flush) = written.flushed();
            let last = match flush {
                Some(bytes) => bytes,
                None => Seq::empty(),
            };
            &&& out + last == pending(s) + all_bytes(texts)
            &&& pending(after).len() == 0
        }),
{
    lemma_writes_keep_bytes(s, texts, elapsed);
    let (written, out) = after_writes(s, texts, elapsed);
    let (after, flush) = written.flushed();
    let last = match flush {
        Some(bytes) => bytes,
        None => Seq::<u8>::empty(),
    };
    assert(out + last =~= out + pending(written));
}

/// Bytes that could not be written are not lost: they wait again, before
/// all bytes that have come since, and the next flush hands them out first.
pub proof fn lemma_write_failed_keeps_bytes(s: SessionStateView, unwritten: Seq<u8>)
    ensures
        writer_wf(s.write_failed(unwritten)),
        pending(s.write_failed(unwritten)) == unwritten + pending(s),
        s.write_failed(unwritten).flushed().1 == Some(unwritten + pending(s)),
{
    assert(unwritten + Seq::<u8>::empty() =~= unwritten);
}

/// `UpdateSession` twice, with no line added in between: the second one
/// changes nothing, has no event, and replies `false`.
pub proof fn lemma_update_session_twice(s: SessionStateView, line_count: usize)
    requires
        s.content_grabber is Some,
    ensures
        ({
            let (once, _, _) = s.stream_scanned(line_count);
            let (twice, event, reply) = once.stream_scanned(line_count);
            twice == once && event is None && !reply
        }),
{
}

/// `UpdateSession` on an empty session file, of which no line was known:
/// no event, and the reply is `false`.
pub proof fn lemma_update_empty_session(s: SessionStateView)
    requires
        s.content_grabber is Some,
        s.stream_len() == 0,
    ensures
        s.stream_scanned(0).1 is None,
        !s.stream_scanned(0).2,
{
}

/// The reply of `UpdateSession` is `true` where the session file has more
/// lines than before, and only there; the event is there where the number
/// of lines has changed, so with every reply `true`. Without the event
/// nothing follows: no search runs and no further event is emitted.
pub proof fn lemma_update_session_reply(s: SessionStateView, line_count: usize)
    requires
        s.content_grabber is Some,
    ensures
        s.stream_scanned(line_count).2 == (line_count > s.stream_len()),
        s.stream_scanned(line_count).1 is Some == (line_count != s.stream_len()),
        s.stream_scanned(line_count).2 ==> s.stream_scanned(line_count).1 is Some,
{
}

/// `UpdateSession` on a session that keeps no search holder, or whose
/// holder is handed out, emits nothing of the search; and a search that
/// failed is no error of the command: the reply stays what it was.
pub proof fn lemma_update_without_search(
    s: SessionStateView,
    grown: bool,
    why: SearchError,
    scanned: Option<Result<usize, GrabError>>,
)
    ensures
        s.update_ended(grown, None, scanned).events.len() == 0,
        s.update_ended(grown, None, scanned).state == s,
        s.update_ended(grown, None, scanned).reply == grown,
        s.update_ended(grown, Some(Err(why)), scanned).events.len() == 0,
        s.update_ended(grown, Some(Err(why)), scanned).state == s,
        s.update_ended(grown, Some(Err(why)), scanned).reply == grown,
{
}

/// `SetMatches` and then `GetSearchMap`: the map holds what was set.
pub proof fn lemma_set_matches_then_get(s: SessionStateView, entries: Seq<FilterMatchView>)
    ensures
        s.set_matches(Some(entries)).search_map.entries == entries,
        s.set_matches(None).search_map.entries == Seq::<FilterMatchView>::empty(),
        s.set_matches(Some(entries)).search_map.stream_len == s.search_map.stream_len,
{
}

/// `GetSearchHolder` and then `SetSearchHolder` with a holder: the session
/// keeps that holder, and is as before where the holder is the one that it
/// handed out.
pub proof fn lemma_get_then_set_holder(s: SessionStateView, uuid: u128, h: SearchHolderView)
    requires
        s.holder_to_take(uuid) is Some,
    ensures
        s.holder_taken().search_holder is InUse,
        s.holder_taken().holder_returned(Some(h)).search_holder
            == SearchHolderStateView::Available(h),
        s.search_holder == SearchHolderStateView::Available(h) ==> s.holder_to_take(uuid) == Some(
            h,
        ) && s.holder_taken().holder_returned(Some(h)) == s,
{
}

/// While the holder is handed out, no second one is.
pub proof fn lemma_holder_is_exclusive(s: SessionStateView, first: u128, second: u128)
    ensures
        s.holder_taken().holder_to_take(second) is None,
        s.search_holder is InUse ==> s.holder_to_take(first) is None,
{
}

/// `DropSearch` brings the search back to where it was before the first
/// search: no holder, no search result, no matches. Only the length that
/// the search map is scaled to stays.
pub proof fn lemma_drop_search(s: SessionStateView)
    ensures
        ({
            let dropped = s.search_dropped();
            let never = SessionStateView::initial();
            &&& dropped.search_holder == never.search_holder
            &&& dropped.search_grabber == never.search_grabber
            &&& dropped.search_map.entries == never.search_map.entries
            &&& dropped.search_result_len() == 0
            &&& dropped == (SessionStateView {
                search_holder: never.search_holder,
                search_grabber: never.search_grabber,
                search_map: SearchMapView {
                    stream_len: s.search_map.stream_len,
                    ..never.search_map
                },
                ..s
            })
        }),
{
}

} // verus!
