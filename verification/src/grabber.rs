//! What the session knows of a grabber: the lazy line index over a text
//! file. Reading the file is the caller's part; the session keeps the path
//! and the number of lines that the last scan found, and works on what a
//! grab returned.

use vstd::prelude::*;
use vstd::string::*;
use crate::events::{error_of, NativeError, NativeErrorKind};
use crate::lines::{
    complete_len, lemma_complete_len, lemma_line_end, lemma_line_end_prefix,
    lemma_newline_count_prefix, line_end, line_span, line_total, newline_count, NEWLINE,
};
use crate::lines::lemma_line_span;
use crate::strings::{decode_lossy, utf8_lossy};
use crate::text::{decimal, push_decimal};

verus! {

/// Why a grabber could not scan its file or return lines of it.
#[derive(Debug)]
pub enum GrabError {
    /// Opening, reading or seeking the file failed.
    IoOperation(String),
    /// The lines asked for are not all in the file.
    InvalidRange(String),
    /// The scan was cancelled.
    Interrupted,
    /// The file has not been scanned yet.
    NotInitialize,
}

/// The text of a grab error.
pub open spec fn grab_error_text(e: GrabError) -> Seq<char> {
    match e {
        GrabError::IoOperation(m) => "IO error while grabbing: ("@ + m@ + ")"@,
        GrabError::InvalidRange(m) => "Invalid range: ("@ + m@ + ")"@,
        GrabError::Interrupted => "Grabbing interrupted"@,
        GrabError::NotInitialize => "Metadata initialization not done"@,
    }
}

impl GrabError {
    /// The error as a line of text.
    pub fn message(&self) -> (text: String)
        ensures
            text@ == grab_error_text(*self),
    {
        match self {
            GrabError::IoOperation(m) => {
                let mut out = String::from_str("IO error while grabbing: (");
                out.append(m.as_str());
                out.append(")");
                out
            },
            GrabError::InvalidRange(m) => {
                let mut out = String::from_str("Invalid range: (");
                out.append(m.as_str());
                out.append(")");
                out
            },
            GrabError::Interrupted => String::from_str("Grabbing interrupted"),
            GrabError::NotInitialize => String::from_str("Metadata initialization not done"),
        }
    }

    /// The error as a session command reports it: a grabber error that
    /// carries the text of this one.
    pub fn to_native(&self) -> (e: NativeError)
        ensures
            e@ == error_of(NativeErrorKind::Grabber, grab_error_text(*self)),
    {
        let text = self.message();
        NativeError::new(NativeErrorKind::Grabber, text.as_str())
    }
}

/// Lines `start..=end` of a file, counted from 0.
#[derive(Debug, Clone, Copy, PartialEq, Eq, Structural)]
pub struct LineRange {
    pub start: u64,
    pub end: u64,
}

impl LineRange {
    /// The lines from `start` to `end`, both included.
    pub fn from_inclusive(start: u64, end: u64) -> (r: LineRange)
        ensures
            r == (LineRange { start, end }),
    {
        LineRange { start, end }
    }

    /// The one line `line`.
    pub fn single_line(line: u64) -> (r: LineRange)
        ensures
            r == (LineRange { start: line, end: line }),
    {
        LineRange { start: line, end: line }
    }

    /// The first line of the range.
    pub fn start(&self) -> (line: u64)
        ensures
            line == self.start,
    {
        self.start
    }

    /// The last line of the range.
    pub fn end(&self) -> (line: u64)
        ensures
            line == self.end,
    {
        self.end
    }

    /// The number of lines in the range.
    pub open spec fn size(self) -> nat {
        if self.start <= self.end {
            (self.end - self.start + 1) as nat
        } else {
            0
        }
    }
}

/// The range as it stands in an error.
pub open spec fn range_text(range: LineRange) -> Seq<char> {
    decimal(range.start as nat) + "..="@ + decimal(range.end as nat)
}

/// The range holds a line, and the text holds all lines of the range.
pub open spec fn range_in_text(range: LineRange, content: Seq<u8>) -> bool {
    range.start <= range.end < line_total(content)
}

/// Finds the lines of the range in the text of a file: where each of them
/// starts and where it stops, its line end left out. An `InvalidRange` error
/// where the range holds no line or the text does not hold all of them.
pub fn grab_spans(content: &[u8], range: &LineRange) -> (r: Result<
    Vec<(usize, usize)>,
    GrabError,
>)
    ensures
        match r {
            Ok(spans) => {
                &&& range_in_text(*range, content@)
                &&& spans@.len() == range.size()
                &&& forall|k: int|
                    0 <= k < spans@.len() ==> (#[trigger] spans@[k].0 as nat, spans@[k].1 as nat)
                        == line_span(content@, (range.start + k) as nat)
            },
            Err(e) => {
                &&& !range_in_text(*range, content@)
                &&& e matches GrabError::InvalidRange(m)
                &&& m@ == range_text(*range)
            },
        },
{
    if range.start > range.end {
        return Err(invalid_range(range));
    }
    let mut spans: Vec<(usize, usize)> = Vec::new();
    let mut from: usize = 0;
    let mut line: u64 = 0;
    let mut i: usize = 0;
    while i < content.len() && line <= range.end
        invariant
            i <= content.len(),
            from <= i,
            range.start <= range.end,
            line == newline_count(content@.take(i as int)),
            line <= i,
            line <= range.end + 1,
            from == line_end(content@, line as nat),
            from == complete_len(content@.take(i as int)),
            spans@.len() == if line <= range.start {
                0
            } else {
                line - range.start
            },
            forall|k: int|
                0 <= k < spans@.len() ==> (#[trigger] spans@[k].0 as nat, spans@[k].1 as nat)
                    == line_span(content@, (range.start + k) as nat),
        decreases content.len() - i,
    {
        proof {
            let shorter = content@.take(i as int);
            let longer = content@.take(i + 1);
            assert(longer.drop_last() == shorter);
            lemma_newline_count_prefix(content@, i + 1);
            if content@[i as int] == NEWLINE {
                lemma_line_end(longer, (line + 1) as nat);
                lemma_line_end_prefix(content@, i + 1, (line + 1) as nat);
            } else {
                lemma_line_end(longer, line as nat);
            }
        }
        if content[i] == NEWLINE {
            if line >= range.start {
                let ghost before = spans@;
                spans.push((from, i));
                proof {
                    assert forall|k: int| 0 <= k < spans@.len() implies (
                        #[trigger] spans@[k].0 as nat,
                        spans@[k].1 as nat,
                    ) == line_span(content@, (range.start + k) as nat) by {
                        if k < before.len() {
                            assert(spans@[k] == before[k]);
                        }
                    }
                }
            }
            line = line + 1;
            from = i + 1;
        }
        i = i + 1;
    }
    proof {
        lemma_newline_count_prefix(content@, i as int);
        lemma_complete_len(content@);
        if i == content@.len() {
            assert(content@.take(i as int) == content@);
        }
    }
    if line > range.end {
        return Ok(spans);
    }
    if line == range.end && from < content.len() {
        let ghost before = spans@;
        spans.push((from, content.len()));
        proof {
            assert forall|k: int| 0 <= k < spans@.len() implies (
                #[trigger] spans@[k].0 as nat,
                spans@[k].1 as nat,
            ) == line_span(content@, (range.start + k) as nat) by {
                if k < before.len() {
                    assert(spans@[k] == before[k]);
                }
            }
        }
        return Ok(spans);
    }
    Err(invalid_range(range))
}

/// The error of a range that cannot be grabbed.
fn invalid_range(range: &LineRange) -> (e: GrabError)
    ensures
        e matches GrabError::InvalidRange(m) && m@ == range_text(*range),
{
    let mut text = String::new();
    push_decimal(&mut text, range.start);
    text.append("..=");
    push_decimal(&mut text, range.end);
    GrabError::InvalidRange(text)
}

/// One line as a grabber returns it.
#[derive(Debug)]
pub struct GrabbedElement {
    /// The source that the line came from.
    pub source_id: String,
    /// The line, without its end-of-line.
    pub content: String,
    /// The row of the line in the view that asked for it.
    pub row: Option<usize>,
    /// The index of the line in the session file.
    pub pos: Option<usize>,
}

/// The mathematical value of a [`GrabbedElement`].
pub struct GrabbedElementView {
    pub source_id: Seq<char>,
    pub content: Seq<char>,
    pub row: Option<usize>,
    pub pos: Option<usize>,
}

impl View for GrabbedElement {
    type V = GrabbedElementView;

    open spec fn view(&self) -> GrabbedElementView {
        GrabbedElementView {
            source_id: self.source_id@,
            content: self.content@,
            row: self.row,
            pos: self.pos,
        }
    }
}

/// The values of a list of lines, in order.
pub open spec fn element_views(elements: Seq<GrabbedElement>) -> Seq<GrabbedElementView> {
    elements.map_values(|e: GrabbedElement| e@)
}

/// The lines of the range as a grabber over the file `path` returns them:
/// the text of each line, without place and row.
pub open spec fn grabbed_lines(path: Seq<char>, content: Seq<u8>, range: LineRange) -> Seq<
    GrabbedElementView,
> {
    Seq::new(
        range.size(),
        |k: int|
            {
                let span = line_span(content, (range.start + k) as nat);
                GrabbedElementView {
                    source_id: path,
                    content: utf8_lossy(content.subrange(span.0 as int, span.1 as int)),
                    row: None,
                    pos: None,
                }
            },
    )
}

/// The lines that one grab returned, in order.
#[derive(Debug)]
pub struct GrabbedContent {
    pub grabbed_elements: Vec<GrabbedElement>,
}

/// What a scan of the file found.
#[derive(Debug, Clone, Copy, PartialEq, Eq, Structural)]
pub struct GrabMetadata {
    /// The number of lines in the file.
    pub line_count: usize,
}

/// The session's record of a grabber.
#[derive(Debug)]
pub struct Grabber {
    /// The file that the grabber reads.
    pub path: String,
    /// What the last scan found; `None` until the file has been scanned.
    pub metadata: Option<GrabMetadata>,
}

/// The mathematical value of a [`Grabber`].
pub struct GrabberView {
    pub path: Seq<char>,
    pub metadata: Option<GrabMetadata>,
}

impl View for Grabber {
    type V = GrabberView;

    open spec fn view(&self) -> GrabberView {
        GrabberView { path: self.path@, metadata: self.metadata }
    }
}

impl GrabberView {
    /// The number of lines that the last scan found, 0 before any scan.
    pub open spec fn line_count(self) -> nat {
        match self.metadata {
            Some(md) => md.line_count as nat,
            None => 0,
        }
    }
}

impl Grabber {
    /// A grabber over `path` that has not scanned its file yet.
    pub fn lazy(path: &str) -> (g: Grabber)
        ensures
            g@ == (GrabberView { path: path@, metadata: None }),
    {
        Grabber { path: String::from_str(path), metadata: None }
    }

    /// What the last scan found.
    pub fn get_metadata(&self) -> (md: Option<GrabMetadata>)
        ensures
            md == self@.metadata,
    {
        self.metadata
    }

    /// The number of lines that the last scan found.
    pub fn log_entry_count(&self) -> (n: Option<usize>)
        ensures
            n == match self@.metadata {
                Some(md) => Some(md.line_count),
                None => None,
            },
    {
        match self.metadata {
            Some(md) => Some(md.line_count),
            None => None,
        }
    }

    /// The lines of the range as they stand in `content`, the text of the
    /// file, each without its line end. A `NotInitialize` error where the
    /// file has not been scanned yet, an `InvalidRange` error where the range
    /// holds no line or goes beyond the text.
    pub fn grab_content(&self, content: &[u8], range: &LineRange) -> (r: Result<
        GrabbedContent,
        GrabError,
    >)
        ensures
            match r {
                Ok(grabbed) => {
                    &&& self@.metadata is Some
                    &&& range_in_text(*range, content@)
                    &&& element_views(grabbed.grabbed_elements@) == grabbed_lines(
                        self@.path,
                        content@,
                        *range,
                    )
                },
                Err(e) => if self@.metadata is None {
                    e is NotInitialize
                } else {
                    &&& !range_in_text(*range, content@)
                    &&& e matches GrabError::InvalidRange(m)
                    &&& m@ == range_text(*range)
                },
            },
    {
        if self.metadata.is_none() {
            return Err(GrabError::NotInitialize);
        }
        let spans = match grab_spans(content, range) {
            Ok(spans) => spans,
            Err(e) => {
                return Err(e);
            },
        };
        let ghost lines = grabbed_lines(self@.path, content@, *range);
        let mut elements: Vec<GrabbedElement> = Vec::new();
        let mut k: usize = 0;
        while k < spans.len()
            invariant
                k <= spans.len(),
                range_in_text(*range, content@),
                spans@.len() == range.size(),
                lines == grabbed_lines(self@.path, content@, *range),
                forall|j: int|
                    0 <= j < spans@.len() ==> (#[trigger] spans@[j].0 as nat, spans@[j].1 as nat)
                        == line_span(content@, (range.start + j) as nat),
                element_views(elements@) == lines.take(k as int),
            decreases spans.len() - k,
        {
            let (from, to) = spans[k];
            proof {
                assert((spans@[k as int].0 as nat, spans@[k as int].1 as nat) == line_span(
                    content@,
                    (range.start + k) as nat,
                ));
                lemma_line_span(content@, (range.start + k) as nat);
            }
            let ghost before = elements@;
            let element = GrabbedElement {
                source_id: self.path.clone(),
                content: decode_lossy(vstd::slice::slice_subrange(content, from, to)),
                row: None,
                pos: None,
            };
            elements.push(element);
            proof {
                assert(element_views(elements@) =~= element_views(before).push(element@));
                assert(lines.take(k + 1) =~= lines.take(k as int).push(lines[k as int]));
            }
            k = k + 1;
        }
        proof {
            assert(lines.take(lines.len() as int) == lines);
        }
        Ok(GrabbedContent { grabbed_elements: elements })
    }

    /// Records what a scan of the file found.
    pub fn update(&mut self, line_count: usize)
        ensures
            final(self)@ == (GrabberView {
                metadata: Some(GrabMetadata { line_count }),
                ..old(self)@
            }),
    {
        self.metadata = Some(GrabMetadata { line_count });
    }
}

} // verus!
