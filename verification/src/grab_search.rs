//! Grabbing lines of the search result: the lines of the search result file
//! name lines of the session file; neighbouring numbers are grabbed from the
//! session file in one go, and each line that comes back is tagged with its
//! place in the session file and its row in the search result.

use vstd::prelude::*;
use vstd::string::*;
use crate::events::{error_of, NativeError, NativeErrorKind};
use crate::grabber::{
    element_views, grab_error_text, grabbed_lines, range_in_text, range_text, GrabError,
    GrabbedContent, GrabbedElement, GrabbedElementView, Grabber, GrabberView, LineRange,
};
use crate::text::{parse_u64, parsed_u64};

verus! {

/// The texts of the lines, in order.
pub open spec fn contents(elements: Seq<GrabbedElementView>) -> Seq<Seq<char>> {
    elements.map_values(|e: GrabbedElementView| e.content)
}

/// Every one of the texts is a line number.
pub open spec fn all_parse(texts: Seq<Seq<char>>) -> bool {
    forall|i: int| 0 <= i < texts.len() ==> parsed_u64(#[trigger] texts[i]) is Some
}

/// The line numbers that the texts stand for, in order.
pub open spec fn parsed_positions(texts: Seq<Seq<char>>) -> Seq<u64> {
    texts.map_values(|t: Seq<char>| parsed_u64(t)->0)
}

/// The error of a line of the search result file that is no line number.
pub open spec fn no_line_number() -> crate::events::NativeErrorView {
    error_of(NativeErrorKind::OperationSearch, "Cannot parse line number"@)
}

/// Reads the line numbers that the lines of the search result file hold.
pub fn parse_positions(line_numbers: &GrabbedContent) -> (r: Result<Vec<u64>, NativeError>)
    ensures
        ({
            let texts = contents(element_views(line_numbers.grabbed_elements@));
            if all_parse(texts) {
                r matches Ok(positions) && positions@ == parsed_positions(texts)
            } else {
                r matches Err(e) && e@ == no_line_number()
            }
        }),
{
    let ghost texts = contents(element_views(line_numbers.grabbed_elements@));
    let mut positions: Vec<u64> = Vec::new();
    let mut i: usize = 0;
    while i < line_numbers.grabbed_elements.len()
        invariant
            i <= line_numbers.grabbed_elements.len(),
            texts == contents(element_views(line_numbers.grabbed_elements@)),
            all_parse(texts.take(i as int)),
            positions@ == parsed_positions(texts.take(i as int)),
        decreases line_numbers.grabbed_elements.len() - i,
    {
        let text = line_numbers.grabbed_elements[i].content.as_str();
        proof {
            assert(texts[i as int] == text@);
        }
        match parse_u64(text) {
            Some(position) => {
                positions.push(position);
                proof {
                    assert(texts.take(i + 1) =~= texts.take(i as int).push(texts[i as int]));
                    assert(positions@ =~= parsed_positions(texts.take(i + 1)));
                }
            },
            None => {
                return Err(
                    NativeError::new(NativeErrorKind::OperationSearch, "Cannot parse line number"),
                );
            },
        }
        i = i + 1;
    }
    proof {
        assert(texts.take(texts.len() as int) == texts);
    }
    Ok(positions)
}

/// The line numbers in runs: each range holds numbers that follow one
/// another without a gap, in the order given, and a new range starts
/// wherever a number is not the one before it plus one.
pub open spec fn coalesced(positions: Seq<u64>) -> Seq<LineRange>
    decreases positions.len(),
{
    if positions.len() == 0 {
        Seq::empty()
    } else if positions.len() == 1 {
        seq![LineRange { start: positions[0], end: positions[0] }]
    } else {
        let before = coalesced(positions.drop_last());
        let position = positions.last();
        if before.last().end + 1 == position {
            before.drop_last().push(LineRange { start: before.last().start, end: position })
        } else {
            before.push(LineRange { start: position, end: position })
        }
    }
}

/// The line numbers of a range, in ascending order.
pub open spec fn range_positions(range: LineRange) -> Seq<u64> {
    Seq::new(range.size(), |k: int| (range.start + k) as u64)
}

/// The line numbers of the ranges, range after range.
pub open spec fn expanded(ranges: Seq<LineRange>) -> Seq<u64>
    decreases ranges.len(),
{
    if ranges.len() == 0 {
        Seq::empty()
    } else {
        expanded(ranges.drop_last()) + range_positions(ranges.last())
    }
}

/// The runs of a list of line numbers hold these numbers and no others, in
/// the order given; no run is empty, and no run goes on where the one
/// before it ends.
pub proof fn lemma_coalesced(positions: Seq<u64>)
    ensures
        expanded(coalesced(positions)) == positions,
        positions.len() > 0 ==> coalesced(positions).len() > 0 && coalesced(
            positions,
        ).last().end == positions.last(),
        coalesced(positions).len() <= positions.len(),
        forall|k: int|
            0 <= k < coalesced(positions).len() ==> (#[trigger] coalesced(positions)[k]).start
                <= coalesced(positions)[k].end,
        forall|k: int|
            0 <= k < coalesced(positions).len() - 1 ==> (#[trigger] coalesced(positions)[k]).end
                + 1 != coalesced(positions)[k + 1].start,
    decreases positions.len(),
{
    let runs = coalesced(positions);
    if positions.len() == 0 {
    } else if positions.len() == 1 {
        let only = LineRange { start: positions[0], end: positions[0] };
        assert(runs.drop_last() =~= Seq::<LineRange>::empty());
        assert(runs.last() == only);
        assert(range_positions(only) =~= seq![positions[0]]);
        assert(expanded(runs) == expanded(runs.drop_last()) + range_positions(only));
        assert(expanded(runs) =~= positions);
    } else {
        let front = positions.drop_last();
        let before = coalesced(front);
        let position = positions.last();
        lemma_coalesced(front);
        let last = before.last();
        assert(expanded(before) == expanded(before.drop_last()) + range_positions(last));
        if last.end + 1 == position {
            let longer = LineRange { start: last.start, end: position };
            assert(runs.drop_last() =~= before.drop_last());
            assert(range_positions(longer) =~= range_positions(last).push(position));
            assert(expanded(runs) =~= expanded(before).push(position));
            assert(expanded(runs) =~= positions);
            assert forall|k: int| 0 <= k < runs.len() - 1 implies (#[trigger] runs[k]).end + 1
                != runs[k + 1].start by {
                assert(runs[k] == before[k]);
                assert(runs[k + 1].start == before[k + 1].start);
            }
        } else {
            let single = LineRange { start: position, end: position };
            assert(runs.drop_last() =~= before);
            assert(range_positions(single) =~= seq![position]);
            assert(expanded(runs) =~= expanded(before).push(position));
            assert(expanded(runs) =~= positions);
            assert forall|k: int| 0 <= k < runs.len() - 1 implies (#[trigger] runs[k]).end + 1
                != runs[k + 1].start by {
                if k < before.len() - 1 {
                    assert(runs[k] == before[k]);
                    assert(runs[k + 1] == before[k + 1]);
                }
            }
        }
    }
}

/// Puts the line numbers into runs.
pub fn coalesce(positions: &[u64]) -> (ranges: Vec<LineRange>)
    ensures
        ranges@ == coalesced(positions@),
{
    let mut ranges: Vec<LineRange> = Vec::new();
    let mut i: usize = 0;
    while i < positions.len()
        invariant
            i <= positions.len(),
            ranges@ == coalesced(positions@.take(i as int)),
        decreases positions.len() - i,
    {
        let position = positions[i];
        proof {
            assert(positions@.take(i + 1).drop_last() == positions@.take(i as int));
            lemma_coalesced(positions@.take(i as int));
        }
        let n = ranges.len();
        if n > 0 && ranges[n - 1].end < u64::MAX && ranges[n - 1].end + 1 == position {
            let start = ranges[n - 1].start;
            let ghost before = ranges@;
            ranges.set(n - 1, LineRange { start, end: position });
            proof {
                assert(ranges@ =~= before.drop_last().push(LineRange { start, end: position }));
            }
        } else {
            ranges.push(LineRange { start: position, end: position });
        }
        i = i + 1;
    }
    proof {
        assert(positions@.take(positions@.len() as int) == positions@);
    }
    ranges
}

/// The lines of all grabs, grab after grab.
pub open spec fn flat(grabbed: Seq<Seq<GrabbedElementView>>) -> Seq<GrabbedElementView>
    decreases grabbed.len(),
{
    if grabbed.len() == 0 {
        Seq::empty()
    } else {
        flat(grabbed.drop_last()) + grabbed.last()
    }
}

/// The place in the session file of each line that was grabbed: the lines
/// that came back for a range are the lines from the start of the range on.
pub open spec fn grabbed_positions(ranges: Seq<LineRange>, grabbed: Seq<Seq<GrabbedElementView>>)
    -> Seq<int>
    decreases grabbed.len(),
{
    if grabbed.len() == 0 || ranges.len() != grabbed.len() {
        Seq::empty()
    } else {
        grabbed_positions(ranges.drop_last(), grabbed.drop_last()) + Seq::new(
            grabbed.last().len(),
            |j: int| ranges.last().start + j,
        )
    }
}

/// There is one grab for each range, and every place and every row of a line
/// that was grabbed can be written down.
pub open spec fn tags_fit(
    start_row: u64,
    ranges: Seq<LineRange>,
    grabbed: Seq<Seq<GrabbedElementView>>,
) -> bool {
    let positions = grabbed_positions(ranges, grabbed);
    &&& grabbed.len() == ranges.len()
    &&& forall|i: int|
        0 <= i < positions.len() ==> #[trigger] positions[i] <= usize::MAX && start_row + i
            <= usize::MAX
}

/// The lines that were grabbed, each tagged with its place in the session
/// file and with its row, which counts on from `start_row`.
pub open spec fn tagged(
    start_row: u64,
    ranges: Seq<LineRange>,
    grabbed: Seq<Seq<GrabbedElementView>>,
) -> Seq<GrabbedElementView> {
    let all = flat(grabbed);
    let positions = grabbed_positions(ranges, grabbed);
    Seq::new(
        all.len(),
        |i: int|
            GrabbedElementView {
                pos: Some(positions[i] as usize),
                row: Some((start_row + i) as usize),
                ..all[i]
            },
    )
}

/// The values of the lines of each grab.
pub open spec fn grab_views(grabbed: Seq<GrabbedContent>) -> Seq<Seq<GrabbedElementView>> {
    grabbed.map_values(|g: GrabbedContent| element_views(g.grabbed_elements@))
}

/// As many places as lines were grabbed.
pub proof fn lemma_grabbed_positions_len(
    ranges: Seq<LineRange>,
    grabbed: Seq<Seq<GrabbedElementView>>,
)
    requires
        ranges.len() == grabbed.len(),
    ensures
        grabbed_positions(ranges, grabbed).len() == flat(grabbed).len(),
    decreases grabbed.len(),
{
    if grabbed.len() > 0 {
        lemma_grabbed_positions_len(ranges.drop_last(), grabbed.drop_last());
    }
}

/// The error of a grab whose lines have no place or row that can be written
/// down.
pub open spec fn out_of_range() -> crate::events::NativeErrorView {
    error_of(NativeErrorKind::Grabber, "Grabbed lines are out of range"@)
}

/// Puts together what was grabbed from the session file for each of the
/// ranges: all lines in order, each tagged with its place in the session
/// file and its row in the search result.
pub fn finish_grab_search(start_row: u64, ranges: &[LineRange], grabbed: &[GrabbedContent]) -> (r:
    Result<GrabbedContent, NativeError>)
    ensures
        if tags_fit(start_row, ranges@, grab_views(grabbed@)) {
            r matches Ok(content) && element_views(content.grabbed_elements@) == tagged(
                start_row,
                ranges@,
                grab_views(grabbed@),
            )
        } else {
            r matches Err(e) && e@ == out_of_range()
        },
{
    let ghost views = grab_views(grabbed@);
    if ranges.len() != grabbed.len() {
        return Err(NativeError::grabber("Grabbed lines are out of range"));
    }
    let mut out: Vec<GrabbedElement> = Vec::new();
    let mut k: usize = 0;
    while k < grabbed.len()
        invariant
            k <= grabbed.len(),
            ranges.len() == grabbed.len(),
            views == grab_views(grabbed@),
            tags_fit(start_row, ranges@.take(k as int), views.take(k as int)),
            element_views(out@) == tagged(start_row, ranges@.take(k as int), views.take(k as int)),
        decreases grabbed.len() - k,
    {
        let ghost done_ranges = ranges@.take(k as int);
        let ghost done = views.take(k as int);
        let ghost next_ranges = ranges@.take(k + 1);
        let ghost next = views.take(k + 1);
        let ghost run = views[k as int];
        let elements = &grabbed[k].grabbed_elements;
        let start = ranges[k].start;
        proof {
            assert(next.drop_last() =~= done);
            assert(next_ranges.drop_last() =~= done_ranges);
            assert(next.last() == run);
            assert(run == element_views(elements@));
            lemma_grabbed_positions_len(done_ranges, done);
            lemma_grabbed_positions_len(next_ranges, next);
            lemma_grabbed_positions_len(ranges@, views);
            assert(element_views(out@).len() == out@.len());
            assert(tagged(start_row, done_ranges, done).len() == flat(done).len());
        }
        let ghost base = flat(done).len();
        let mut j: usize = 0;
        while j < elements.len()
            invariant
                j <= elements.len(),
                k < grabbed.len(),
                ranges.len() == grabbed.len(),
                views == grab_views(grabbed@),
                run == views[k as int],
                run == element_views(elements@),
                start == ranges@[k as int].start,
                done == views.take(k as int),
                done_ranges == ranges@.take(k as int),
                next == views.take(k + 1),
                next_ranges == ranges@.take(k + 1),
                next.drop_last() == done,
                next_ranges.drop_last() == done_ranges,
                next.last() == run,
                next_ranges.last() == ranges@[k as int],
                base == flat(done).len(),
                grabbed_positions(done_ranges, done).len() == base,
                tags_fit(start_row, done_ranges, done),
                out@.len() == base + j,
                forall|i: int|
                    0 <= i < base ==> (#[trigger] element_views(out@)[i]) == tagged(
                        start_row,
                        done_ranges,
                        done,
                    )[i],
                forall|i: int|
                    0 <= i < j ==> start + i <= usize::MAX && start_row + base + i <= usize::MAX
                        && (#[trigger] element_views(out@)[base + i]) == (GrabbedElementView {
                        pos: Some((start + i) as usize),
                        row: Some((start_row + base + i) as usize),
                        ..run[i]
                    }),
            decreases elements.len() - j,
        {
            let place = match start.checked_add(j as u64) {
                Some(p) => if p <= usize::MAX as u64 {
                    Some(p as usize)
                } else {
                    None
                },
                None => None,
            };
            let row = match start_row.checked_add(out.len() as u64) {
                Some(r) => if r <= usize::MAX as u64 {
                    Some(r as usize)
                } else {
                    None
                },
                None => None,
            };
            if place.is_none() || row.is_none() {
                proof {
                    let positions = grabbed_positions(next_ranges, next);
                    let all_positions = grabbed_positions(ranges@, views);
                    lemma_grabbed_positions_prefix(ranges@, views, k + 1);
                    assert(positions[base + j] == start + j);
                    assert(all_positions[base + j] == start + j);
                    assert(!tags_fit(start_row, ranges@, views));
                }
                return Err(NativeError::grabber("Grabbed lines are out of range"));
            }
            let ghost before = out@;
            let element = GrabbedElement {
                source_id: elements[j].source_id.clone(),
                content: elements[j].content.clone(),
                row,
                pos: place,
            };
            out.push(element);
            proof {
                assert(run[j as int] == elements@[j as int]@);
                assert(element_views(out@) =~= element_views(before).push(element@));
                assert forall|i: int| 0 <= i < base implies (#[trigger] element_views(out@)[i])
                    == tagged(start_row, done_ranges, done)[i] by {
                    assert(element_views(out@)[i] == element_views(before)[i]);
                }
                assert forall|i: int| 0 <= i < j + 1 implies start + i <= usize::MAX && start_row
                    + base + i <= usize::MAX && (#[trigger] element_views(out@)[base + i]) == (
                GrabbedElementView {
                    pos: Some((start + i) as usize),
                    row: Some((start_row + base + i) as usize),
                    ..run[i]
                }) by {
                    if i < j {
                        assert(element_views(out@)[base + i] == element_views(before)[base + i]);
                    }
                }
            }
            j = j + 1;
        }
        proof {
            let positions = grabbed_positions(next_ranges, next);
            let shorter = grabbed_positions(done_ranges, done);
            assert(flat(next) == flat(done) + run);
            assert(positions == shorter + Seq::new(run.len(), |j: int| start + j));
            assert forall|i: int| 0 <= i < positions.len() implies #[trigger] positions[i]
                <= usize::MAX && start_row + i <= usize::MAX by {
                if i < base {
                    assert(positions[i] == shorter[i]);
                } else {
                    assert(positions[i] == start + (i - base));
                    assert(element_views(out@)[base + (i - base)].pos == Some(
                        (start + (i - base)) as usize,
                    ));
                }
            }
            assert(element_views(out@) =~= tagged(start_row, next_ranges, next)) by {
                let target = tagged(start_row, next_ranges, next);
                assert(target.len() == base + run.len());
                assert forall|i: int| 0 <= i < target.len() implies element_views(out@)[i]
                    == target[i] by {
                    if i < base {
                        assert(positions[i] == shorter[i]);
                        assert(flat(next)[i] == flat(done)[i]);
                        assert(element_views(out@)[i] == tagged(start_row, done_ranges, done)[i]);
                    } else {
                        assert(positions[i] == start + (i - base));
                        assert(flat(next)[i] == run[i - base]);
                        assert(element_views(out@)[base + (i - base)].pos == Some(
                            (start + (i - base)) as usize,
                        ));
                    }
                }
            }
        }
        k = k + 1;
    }
    proof {
        assert(views.take(views.len() as int) == views);
        assert(ranges@.take(ranges@.len() as int) == ranges@);
    }
    Ok(GrabbedContent { grabbed_elements: out })
}

/// The places of the lines of the first grabs are the first of the places
/// of the lines of all grabs.
proof fn lemma_grabbed_positions_prefix(
    ranges: Seq<LineRange>,
    grabbed: Seq<Seq<GrabbedElementView>>,
    k: int,
)
    requires
        ranges.len() == grabbed.len(),
        0 <= k <= grabbed.len(),
    ensures
        grabbed_positions(ranges.take(k), grabbed.take(k)).len() <= grabbed_positions(
            ranges,
            grabbed,
        ).len(),
        forall|i: int|
            0 <= i < grabbed_positions(ranges.take(k), grabbed.take(k)).len()
                ==> #[trigger] grabbed_positions(ranges, grabbed)[i] == grabbed_positions(
                ranges.take(k),
                grabbed.take(k),
            )[i],
    decreases grabbed.len(),
{
    if k == grabbed.len() {
        assert(ranges.take(k) == ranges);
        assert(grabbed.take(k) == grabbed);
    } else {
        lemma_grabbed_positions_prefix(ranges.drop_last(), grabbed.drop_last(), k);
        assert(ranges.drop_last().take(k) == ranges.take(k));
        assert(grabbed.drop_last().take(k) == grabbed.take(k));
    }
}

/// Where each range came back whole, the lines that were grabbed are those
/// that the ranges name.
pub proof fn lemma_grabbed_whole_ranges(
    ranges: Seq<LineRange>,
    grabbed: Seq<Seq<GrabbedElementView>>,
)
    requires
        ranges.len() == grabbed.len(),
        forall|k: int| 0 <= k < ranges.len() ==> (#[trigger] grabbed[k]).len() == ranges[k].size(),
    ensures
        grabbed_positions(ranges, grabbed) == expanded(ranges).map_values(|p: u64| p as int),
    decreases grabbed.len(),
{
    let positions = grabbed_positions(ranges, grabbed);
    let named = expanded(ranges).map_values(|p: u64| p as int);
    if grabbed.len() == 0 {
        assert(positions =~= named);
    } else {
        lemma_grabbed_whole_ranges(ranges.drop_last(), grabbed.drop_last());
        let last = ranges.last();
        assert(grabbed.last().len() == last.size());
        assert(Seq::new(grabbed.last().len(), |j: int| last.start + j) =~= range_positions(
            last,
        ).map_values(|p: u64| p as int));
        assert(positions =~= named);
    }
}

/// `GrabSearch` returns the lines that the search result names, in the
/// order in which it names them: where the search result holds the line
/// numbers `positions` and each of their runs came back whole from the
/// session file, line `i` of what is returned is tagged with the place
/// `positions[i]` and the row `start_row + i`. So the places ascend where
/// the line numbers of the search result do.
pub proof fn lemma_grab_search_tags(
    start_row: u64,
    positions: Seq<u64>,
    grabbed: Seq<Seq<GrabbedElementView>>,
)
    requires
        grabbed.len() == coalesced(positions).len(),
        forall|k: int|
            0 <= k < grabbed.len() ==> (#[trigger] grabbed[k]).len() == coalesced(
                positions,
            )[k].size(),
    ensures
        tagged(start_row, coalesced(positions), grabbed).len() == positions.len(),
        forall|i: int|
            0 <= i < positions.len() ==> {
                let line = #[trigger] tagged(start_row, coalesced(positions), grabbed)[i];
                &&& line.pos == Some(positions[i] as usize)
                &&& line.row == Some((start_row + i) as usize)
                &&& line.content == flat(grabbed)[i].content
            },
{
    let ranges = coalesced(positions);
    lemma_coalesced(positions);
    lemma_grabbed_whole_ranges(ranges, grabbed);
    lemma_grabbed_positions_len(ranges, grabbed);
}

/// The text holds the lines of every one of the ranges.
pub open spec fn all_in_text(ranges: Seq<LineRange>, content: Seq<u8>) -> bool {
    forall|k: int| 0 <= k < ranges.len() ==> range_in_text(#[trigger] ranges[k], content)
}

/// The first of the ranges whose lines the text does not hold.
pub open spec fn first_not_in_text(ranges: Seq<LineRange>, content: Seq<u8>) -> LineRange
    decreases ranges.len(),
{
    if ranges.len() == 0 || !range_in_text(ranges[0], content) {
        ranges[0]
    } else {
        first_not_in_text(ranges.drop_first(), content)
    }
}

/// What a grabber returns for each of the ranges, or the error of the first
/// range that it cannot grab.
pub open spec fn grabbed_ranges(grabber: GrabberView, content: Seq<u8>, ranges: Seq<LineRange>)
    -> Result<Seq<Seq<GrabbedElementView>>, Seq<char>> {
    if ranges.len() == 0 {
        Ok(Seq::empty())
    } else if grabber.metadata is None {
        Err(grab_error_text(GrabError::NotInitialize))
    } else if !all_in_text(ranges, content) {
        Err("Invalid range: ("@ + range_text(first_not_in_text(ranges, content)) + ")"@)
    } else {
        Ok(ranges.map_values(|range: LineRange| grabbed_lines(grabber.path, content, range)))
    }
}

proof fn lemma_first_not_in_text(ranges: Seq<LineRange>, content: Seq<u8>, k: int)
    requires
        0 <= k < ranges.len(),
        all_in_text(ranges.take(k), content),
        !range_in_text(ranges[k], content),
    ensures
        first_not_in_text(ranges, content) == ranges[k],
        !all_in_text(ranges, content),
    decreases k,
{
    if k > 0 {
        assert(ranges.take(k)[0] == ranges[0]);
        assert forall|j: int| 0 <= j < k - 1 implies range_in_text(
            #[trigger] ranges.drop_first().take(k - 1)[j],
            content,
        ) by {
            assert(ranges.drop_first().take(k - 1)[j] == ranges.take(k)[j + 1]);
        }
        lemma_first_not_in_text(ranges.drop_first(), content, k - 1);
    }
}

/// Grabs each of the ranges from `content`, the text of the file of the
/// grabber.
pub fn grab_ranges(grabber: &Grabber, content: &[u8], ranges: &[LineRange]) -> (r: Result<
    Vec<GrabbedContent>,
    GrabError,
>)
    ensures
        match grabbed_ranges(grabber@, content@, ranges@) {
            Ok(grabbed) => r matches Ok(v) && grab_views(v@) == grabbed,
            Err(text) => r matches Err(e) && grab_error_text(e) == text,
        },
{
    let ghost all = ranges@.map_values(
        |range: LineRange| grabbed_lines(grabber@.path, content@, range),
    );
    let mut out: Vec<GrabbedContent> = Vec::new();
    let mut k: usize = 0;
    while k < ranges.len()
        invariant
            k <= ranges.len(),
            all == ranges@.map_values(
                |range: LineRange| grabbed_lines(grabber@.path, content@, range),
            ),
            k > 0 ==> grabber@.metadata is Some,
            all_in_text(ranges@.take(k as int), content@),
            grab_views(out@) == all.take(k as int),
        decreases ranges.len() - k,
    {
        let ghost before = out@;
        match grabber.grab_content(content, &ranges[k]) {
            Ok(grabbed) => {
                out.push(grabbed);
                proof {
                    assert(grab_views(out@) =~= grab_views(before).push(all[k as int]));
                    assert(all.take(k + 1) =~= all.take(k as int).push(all[k as int]));
                    assert forall|j: int| 0 <= j < k + 1 implies range_in_text(
                        #[trigger] ranges@.take(k + 1)[j],
                        content@,
                    ) by {
                        if j < k {
                            assert(ranges@.take(k as int)[j] == ranges@[j]);
                        }
                    }
                }
            },
            Err(e) => {
                proof {
                    if grabber@.metadata is Some {
                        lemma_first_not_in_text(ranges@, content@, k as int);
                    }
                }
                return Err(e);
            },
        }
        k = k + 1;
    }
    proof {
        assert(all.take(all.len() as int) == all);
        assert(ranges@.take(ranges@.len() as int) == ranges@);
    }
    Ok(out)
}

/// The lines of a file that the line numbers name, one for each number.
pub open spec fn named_lines(path: Seq<char>, content: Seq<u8>, positions: Seq<u64>) -> Seq<
    GrabbedElementView,
> {
    positions.map_values(
        |position: u64|
            grabbed_lines(path, content, LineRange { start: position, end: position })[0],
    )
}

/// What a grabber returns for ranges that hold lines is the lines of the
/// file that the ranges name, range after range.
pub proof fn lemma_grabbed_ranges_are_named_lines(
    path: Seq<char>,
    content: Seq<u8>,
    ranges: Seq<LineRange>,
)
    requires
        forall|k: int| 0 <= k < ranges.len() ==> (#[trigger] ranges[k]).start <= ranges[k].end,
    ensures
        flat(ranges.map_values(|range: LineRange| grabbed_lines(path, content, range)))
            == named_lines(path, content, expanded(ranges)),
    decreases ranges.len(),
{
    let grabbed = ranges.map_values(|range: LineRange| grabbed_lines(path, content, range));
    if ranges.len() == 0 {
        assert(flat(grabbed) =~= named_lines(path, content, expanded(ranges)));
    } else {
        let front = ranges.drop_last();
        let last = ranges.last();
        lemma_grabbed_ranges_are_named_lines(path, content, front);
        assert(grabbed.drop_last() =~= front.map_values(
            |range: LineRange| grabbed_lines(path, content, range),
        ));
        assert(grabbed_lines(path, content, last) =~= named_lines(
            path,
            content,
            range_positions(last),
        ));
        assert(named_lines(path, content, expanded(front) + range_positions(last))
            =~= named_lines(path, content, expanded(front)) + named_lines(
            path,
            content,
            range_positions(last),
        ));
    }
}

/// `GrabSearch` returns the lines of the session file that the search
/// result names, in the order in which it names them: where the lines asked
/// for hold the line numbers `positions` and the session file holds all
/// these lines, line `i` of what is returned is line `positions[i]` of the
/// session file, tagged with that place and with the row `start_row + i`.
pub proof fn lemma_grab_search_lines(
    start_row: u64,
    grabber: GrabberView,
    content: Seq<u8>,
    positions: Seq<u64>,
)
    requires
        grabber.metadata is Some,
        all_in_text(coalesced(positions), content),
    ensures
        grabbed_ranges(grabber, content, coalesced(positions)) is Ok,
        ({
            let grabbed = grabbed_ranges(grabber, content, coalesced(positions))->Ok_0;
            let lines = tagged(start_row, coalesced(positions), grabbed);
            &&& lines.len() == positions.len()
            &&& forall|i: int|
                0 <= i < positions.len() ==> #[trigger] lines[i] == (GrabbedElementView {
                    pos: Some(positions[i] as usize),
                    row: Some((start_row + i) as usize),
                    ..named_lines(grabber.path, content, positions)[i]
                })
        }),
{
    let ranges = coalesced(positions);
    let grabbed = ranges.map_values(
        |range: LineRange| grabbed_lines(grabber.path, content, range),
    );
    lemma_coalesced(positions);
    if ranges.len() == 0 {
        assert(grabbed =~= Seq::<Seq<GrabbedElementView>>::empty());
    }
    lemma_grabbed_ranges_are_named_lines(grabber.path, content, ranges);
    lemma_grab_search_tags(start_row, positions, grabbed);
}

} // verus!
