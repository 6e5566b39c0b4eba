//! A process as a source of bytes: how the arguments of its command line
//! are told apart, and the buffer that holds the lines it has printed.

use vstd::prelude::*;
use vstd::string::*;
use buf_redux::Buffer;
use crate::buffer::buffer_bytes;
use crate::matcher::{compile_regex, regex_compiles, regex_replaced, replace_groups};
use crate::text::{decimal, joined, push_decimal};

verus! {

/// Why a process could not be started or could not go on.
#[derive(Debug)]
pub enum ProcessError {
    Setup(String),
    Unrecoverable(String),
}

/// The text of a process error.
pub open spec fn process_error_text(e: ProcessError) -> Seq<char> {
    match e {
        ProcessError::Setup(m) => "Process setup problem: "@ + m@,
        ProcessError::Unrecoverable(m) => "Unrecoverable process error: "@ + m@,
    }
}

impl ProcessError {
    /// The error as a line of text.
    pub fn message(&self) -> (text: String)
        ensures
            text@ == process_error_text(*self),
    {
        match self {
            ProcessError::Setup(m) => {
                let mut out = String::from_str("Process setup problem: ");
                out.append(m.as_str());
                out
            },
            ProcessError::Unrecoverable(m) => {
                let mut out = String::from_str("Unrecoverable process error: ");
                out.append(m.as_str());
                out
            },
        }
    }
}

/// Why a source of bytes cannot be read any further.
#[derive(Debug)]
pub enum SourceError {
    Unrecoverable(String),
}

/// What a source has taken in with one reload.
#[derive(Debug, Clone, Copy, PartialEq, Eq, Structural)]
pub struct ReloadInfo {
    pub newly_loaded_bytes: usize,
    pub available_bytes: usize,
    pub skipped_bytes: usize,
    pub last_known_ts: Option<u64>,
}

impl ReloadInfo {
    pub fn new(
        newly_loaded_bytes: usize,
        available_bytes: usize,
        skipped_bytes: usize,
        last_known_ts: Option<u64>,
    ) -> (info: ReloadInfo)
        ensures
            info == (ReloadInfo {
                newly_loaded_bytes,
                available_bytes,
                skipped_bytes,
                last_known_ts,
            }),
    {
        ReloadInfo { newly_loaded_bytes, available_bytes, skipped_bytes, last_known_ts }
    }
}

/// The pattern of a group in double quotes: a quote, as few characters as
/// possible, a quote.
pub open spec fn group_pattern() -> Seq<char> {
    "\".*?\""@
}

/// The text without its double quotes.
pub open spec fn without_quotes(s: Seq<char>) -> Seq<char>
    decreases s.len(),
{
    if s.len() == 0 {
        Seq::empty()
    } else {
        let before = without_quotes(s.drop_last());
        if s.last() == '"' {
            before
        } else {
            before.push(s.last())
        }
    }
}

/// The text that stands for group `i` while the arguments are told apart.
pub open spec fn placeholder(i: nat) -> Seq<char> {
    "==extraction:("@ + decimal(i) + ")=="@
}

/// The text before each group and the placeholder that stands in the place
/// of the group, group after group. Each of `cuts` is the text that stands
/// before a group, behind the group before it, and the group.
pub open spec fn masked_front(cuts: Seq<(Seq<char>, Seq<char>)>) -> Seq<char>
    decreases cuts.len(),
{
    if cuts.len() == 0 {
        Seq::empty()
    } else {
        masked_front(cuts.drop_last()) + cuts.last().0 + placeholder((cuts.len() - 1) as nat)
    }
}

/// A text with a placeholder in the place of each of its groups, where
/// `rest` is what stands behind the last group.
pub open spec fn masked(cuts: Seq<(Seq<char>, Seq<char>)>, rest: Seq<char>) -> Seq<char> {
    masked_front(cuts) + rest
}

/// The groups as they are kept while the text is cut: each without its
/// quotes.
pub open spec fn kept_groups(cuts: Seq<(Seq<char>, Seq<char>)>) -> Seq<Seq<char>> {
    cuts.map_values(|cut: (Seq<char>, Seq<char>)| without_quotes(cut.1))
}

/// The pieces of a text that its spaces delimit, in order. Two spaces in a
/// row delimit an empty piece, and so does a space at either end.
pub open spec fn split_at_spaces(s: Seq<char>) -> Seq<Seq<char>>
    decreases s.len(),
{
    if s.len() == 0 {
        seq![Seq::empty()]
    } else {
        let before = split_at_spaces(s.drop_last());
        if s.last() == ' ' {
            before.push(Seq::empty())
        } else {
            before.drop_last().push(before.last().push(s.last()))
        }
    }
}

/// The text with `with` in the place of `key`, wherever `key` stands in it,
/// from the left and without overlap.
pub open spec fn replaced(s: Seq<char>, key: Seq<char>, with: Seq<char>) -> Seq<char>
    decreases s.len(),
{
    if s.len() == 0 {
        Seq::empty()
    } else if key.len() > 0 && key.is_prefix_of(s) {
        with + replaced(s.skip(key.len() as int), key, with)
    } else {
        seq![s[0]] + replaced(s.skip(1), key, with)
    }
}

/// The piece with each group in the place of its placeholder, group after
/// group.
pub open spec fn restored(piece: Seq<char>, groups: Seq<Seq<char>>) -> Seq<char>
    decreases groups.len(),
{
    if groups.len() == 0 {
        piece
    } else {
        replaced(
            restored(piece, groups.drop_last()),
            placeholder((groups.len() - 1) as nat),
            groups.last(),
        )
    }
}

/// The arguments that a masked text and its groups make up: the text is
/// cut at its spaces, and in each piece the groups are put back in the
/// place of their placeholders.
pub open spec fn assembled_args(text: Seq<char>, groups: Seq<Seq<char>>) -> Seq<Seq<char>> {
    split_at_spaces(text).map_values(|piece: Seq<char>| restored(piece, groups))
}

/// The arguments of a command line that was cut at every space: a group in
/// double quotes is one argument, or part of one, with its spaces and
/// without its quotes. `None` where the pattern of a group does not compile.
pub open spec fn parsed_args(args: Seq<Seq<char>>) -> Option<Seq<Seq<char>>> {
    let cuts = regex_replaced(group_pattern(), joined(args, seq![' ']));
    if !regex_compiles(group_pattern()) {
        None
    } else {
        Some(assembled_args(masked(cuts.0, cuts.1), kept_groups(cuts.0)))
    }
}

/// The characters of a text.
fn chars_of(text: &str) -> (chars: Vec<char>)
    ensures
        chars@ == text@,
{
    broadcast use vstd::string::group_string_axioms;

    let mut out: Vec<char> = Vec::new();
    for c in it: text.chars()
        invariant
            it.seq() == text@,
            out@ == text@.take(it.index()),
    {
        out.push(c);
        proof {
            assert(text@.take(it.index() + 1) =~= text@.take(it.index()).push(c));
        }
    }
    proof {
        assert(text@.take(text@.len() as int) == text@);
    }
    out
}

/// The arguments with a space between each two of them.
fn join_args(args: &Vec<String>) -> (text: String)
    ensures
        text@ == joined(args.deep_view(), seq![' ']),
{
    let ghost all = args.deep_view();
    let mut out = String::new();
    let mut i: usize = 0;
    while i < args.len()
        invariant
            i <= args.len(),
            all == args.deep_view(),
            out@ == joined(all.take(i as int), seq![' ']),
        decreases args.len() - i,
    {
        proof {
            assert(all.take(i + 1).drop_last() == all.take(i as int));
            assert(all[i as int] == args@[i as int]@);
        }
        if i > 0 {
            out.push(' ');
        }
        out.append(args[i].as_str());
        i = i + 1;
    }
    proof {
        assert(all.take(all.len() as int) == all);
    }
    out
}

/// The text without its double quotes.
fn remove_quotes(text: &str) -> (r: String)
    ensures
        r@ == without_quotes(text@),
{
    broadcast use vstd::string::group_string_axioms;

    let mut out = String::new();
    for c in it: text.chars()
        invariant
            it.seq() == text@,
            out@ == without_quotes(text@.take(it.index())),
    {
        proof {
            assert(text@.take(it.index() + 1).drop_last() == text@.take(it.index()));
        }
        if c != '"' {
            out.push(c);
        }
    }
    proof {
        assert(text@.take(text@.len() as int) == text@);
    }
    out
}

/// The placeholder of group `i`.
fn placeholder_text(i: usize) -> (text: String)
    ensures
        text@ == placeholder(i as nat),
{
    let mut out = String::from_str("==extraction:(");
    push_decimal(&mut out, i as u64);
    out.append(")==");
    out
}

/// Takes a group out of the way while the text is cut: keeps the group
/// without its quotes, and returns the placeholder that stands in its place.
pub(crate) fn take_group(groups: &mut Vec<String>, whole: &str) -> (mark: String)
    ensures
        final(groups).deep_view() == old(groups).deep_view().push(without_quotes(whole@)),
        mark@ == placeholder(old(groups).len() as nat),
{
    let ghost before = groups.deep_view();
    let mark = placeholder_text(groups.len());
    let group = remove_quotes(whole);
    groups.push(group);
    proof {
        assert(groups.deep_view() =~= before.push(without_quotes(whole@)));
    }
    mark
}

/// The pieces of the text that its spaces delimit.
fn split_spaces(text: &str) -> (pieces: Vec<String>)
    ensures
        pieces.deep_view() == split_at_spaces(text@),
{
    broadcast use vstd::string::group_string_axioms;

    let mut done: Vec<String> = Vec::new();
    let mut current = String::new();
    for c in it: text.chars()
        invariant
            it.seq() == text@,
            done.deep_view().push(current@) == split_at_spaces(text@.take(it.index())),
    {
        let ghost before = split_at_spaces(text@.take(it.index()));
        proof {
            assert(text@.take(it.index() + 1).drop_last() == text@.take(it.index()));
            assert(before.last() == current@);
            assert(before.drop_last() =~= done.deep_view());
        }
        if c == ' ' {
            let ghost shorter = done.deep_view();
            done.push(current);
            proof {
                assert(done.deep_view() =~= shorter.push(before.last()));
            }
            current = String::new();
        } else {
            current.push(c);
        }
    }
    proof {
        assert(text@.take(text@.len() as int) == text@);
    }
    let ghost shorter = done.deep_view();
    let ghost last = current@;
    done.push(current);
    proof {
        assert(done.deep_view() =~= shorter.push(last));
    }
    done
}

/// Whether `key` stands in `text` at place `i`.
fn stands_at(text: &Vec<char>, i: usize, key: &Vec<char>) -> (b: bool)
    requires
        i <= text.len(),
    ensures
        b == key@.is_prefix_of(text@.skip(i as int)),
{
    if key.len() > text.len() - i {
        return false;
    }
    let mut j: usize = 0;
    while j < key.len()
        invariant
            j <= key.len(),
            i + key.len() <= text.len(),
            key@.take(j as int) =~= text@.skip(i as int).take(j as int),
        decreases key.len() - j,
    {
        if key[j] != text[i + j] {
            proof {
                assert(text@.skip(i as int)[j as int] != key@[j as int]);
            }
            return false;
        }
        proof {
            assert(key@.take(j + 1) =~= key@.take(j as int).push(key@[j as int]));
            assert(text@.skip(i as int).take(j + 1) =~= text@.skip(i as int).take(j as int).push(
                text@[i + j],
            ));
        }
        j = j + 1;
    }
    proof {
        assert(key@.take(key@.len() as int) == key@);
        assert(text@.skip(i as int).subrange(0, key@.len() as int) =~= text@.skip(i as int).take(
            key@.len() as int,
        ));
    }
    true
}

/// The text with `with` in the place of `key`, wherever `key` stands in it.
pub fn replace_all(text: &str, key: &str, with: &str) -> (r: String)
    ensures
        r@ == replaced(text@, key@, with@),
{
    let chars = chars_of(text);
    let pattern = chars_of(key);
    let mut out = String::new();
    let mut i: usize = 0;
    proof {
        assert(chars@.skip(0) =~= text@);
        assert(out@ + replaced(text@, key@, with@) =~= replaced(text@, key@, with@));
    }
    while i < chars.len()
        invariant
            i <= chars.len(),
            chars@ == text@,
            pattern@ == key@,
            out@ + replaced(chars@.skip(i as int), key@, with@) == replaced(text@, key@, with@),
        decreases chars.len() - i,
    {
        let ghost rest = chars@.skip(i as int);
        if pattern.len() > 0 && stands_at(&chars, i, &pattern) {
            proof {
                assert(rest.skip(key@.len() as int) =~= chars@.skip(i + key@.len()));
                assert(out@ + with@ + replaced(chars@.skip(i + key@.len()), key@, with@) =~= out@
                    + (with@ + replaced(rest.skip(key@.len() as int), key@, with@)));
            }
            out.append(with);
            i = i + pattern.len();
        } else {
            proof {
                assert(rest.skip(1) =~= chars@.skip(i + 1));
                assert(out@.push(chars@[i as int]) + replaced(chars@.skip(i + 1), key@, with@)
                    =~= out@ + (seq![rest[0]] + replaced(rest.skip(1), key@, with@)));
            }
            out.push(chars[i]);
            i = i + 1;
        }
    }
    proof {
        assert(chars@.skip(chars@.len() as int).len() == 0);
        assert(out@ + Seq::<char>::empty() =~= out@);
    }
    out
}

/// The piece with the groups in the place of their placeholders.
fn restore(piece: String, groups: &Vec<String>) -> (r: String)
    ensures
        r@ == restored(piece@, groups.deep_view()),
{
    let ghost all = groups.deep_view();
    let ghost start = piece@;
    let mut current = piece;
    let mut i: usize = 0;
    while i < groups.len()
        invariant
            i <= groups.len(),
            all == groups.deep_view(),
            current@ == restored(start, all.take(i as int)),
        decreases groups.len() - i,
    {
        proof {
            assert(all.take(i + 1).drop_last() == all.take(i as int));
            assert(all[i as int] == groups@[i as int]@);
        }
        let key = placeholder_text(i);
        current = replace_all(current.as_str(), key.as_str(), groups[i].as_str());
        i = i + 1;
    }
    proof {
        assert(all.take(all.len() as int) == all);
    }
    current
}

/// Makes the arguments out of a text in which placeholders stand for the
/// groups, and of the groups.
pub fn assemble_args(text: &str, groups: &Vec<String>) -> (r: Vec<String>)
    ensures
        r.deep_view() == assembled_args(text@, groups.deep_view()),
{
    let pieces = split_spaces(text);
    let ghost piece_views = pieces.deep_view();
    let ghost group_views = groups.deep_view();
    let mut args: Vec<String> = Vec::new();
    let mut k: usize = 0;
    while k < pieces.len()
        invariant
            k <= pieces.len(),
            piece_views == pieces.deep_view(),
            group_views == groups.deep_view(),
            args.deep_view() == piece_views.take(k as int).map_values(
                |piece: Seq<char>| restored(piece, group_views),
            ),
        decreases pieces.len() - k,
    {
        let ghost shorter = args.deep_view();
        let arg = restore(pieces[k].clone(), groups);
        args.push(arg);
        proof {
            assert(piece_views[k as int] == pieces@[k as int]@);
            assert(args.deep_view() =~= shorter.push(restored(pieces@[k as int]@, group_views)));
            assert(piece_views.take(k + 1) =~= piece_views.take(k as int).push(
                piece_views[k as int],
            ));
        }
        k = k + 1;
    }
    proof {
        assert(piece_views.take(piece_views.len() as int) == piece_views);
    }
    args
}

/// The part of a line that a buffer has taken: the first `kept` of its
/// bytes, with a line end behind them if `ended`.
pub open spec fn kept_part(bytes: Seq<u8>, kept: int, ended: bool) -> Seq<u8> {
    bytes.take(kept) + if ended {
        seq![crate::lines::NEWLINE]
    } else {
        Seq::empty()
    }
}

/// The lines that a process has printed and that have not been consumed
/// yet.
pub struct ProcessSource {
    buffer: Buffer,
}

impl View for ProcessSource {
    type V = Seq<u8>;

    closed spec fn view(&self) -> Seq<u8> {
        buffer_bytes(&self.buffer)
    }
}

/// The error of a command line that cannot be told apart.
pub open spec fn no_regex() -> Seq<char> {
    "Fail to build regex"@
}

impl ProcessSource {
    /// Tells apart the arguments of a command line that was cut at every
    /// space: what stands in double quotes stays together and loses the
    /// quotes.
    pub fn parse_args(args: Vec<String>) -> (r: Result<Vec<String>, ProcessError>)
        ensures
            match parsed_args(args.deep_view()) {
                Some(parsed) => r matches Ok(v) && v.deep_view() == parsed,
                None => r matches Err(ProcessError::Setup(m)) && m@ == no_regex(),
            },
    {
        let group_re = match compile_regex("\".*?\"") {
            Ok(re) => re,
            Err(_) => {
                return Err(ProcessError::Setup(String::from_str("Fail to build regex")));
            },
        };
        let args_str = join_args(&args);
        let (parsed, groups) = replace_groups(&group_re, args_str.as_str());
        Ok(assemble_args(parsed.as_str(), &groups))
    }

    /// Whether the source has to wait once more, for the output alone: it
    /// has when what came is the end of the error stream, which may end
    /// before the output does.
    pub fn is_closing(from_stderr: bool, ended: bool) -> (closing: bool)
        ensures
            closing == (from_stderr && ended),
    {
        from_stderr && ended
    }

    /// A source that holds no bytes yet.
    pub fn new() -> (source: ProcessSource)
        ensures
            source@ == Seq::<u8>::empty(),
    {
        ProcessSource { buffer: Buffer::new() }
    }

    /// Takes in what the process has printed: a line goes to the end of the
    /// buffer with a line end behind it, as far as the buffer has room. The
    /// line counts as loaded with its line end.
    pub fn store(&mut self, output: Option<Result<String, String>>) -> (r: Result<
        Option<ReloadInfo>,
        SourceError,
    >)
        ensures
            match output {
                Some(Ok(line)) => {
                    let bytes = vstd::utf8::encode_utf8(line@);
                    &&& exists|kept: int, ended: bool|
                        0 <= kept <= bytes.len() && final(self)@ == old(self)@ + #[trigger] kept_part(
                            bytes,
                            kept,
                            ended,
                        )
                    &&& if bytes.len() < usize::MAX {
                        r == Ok::<Option<ReloadInfo>, SourceError>(
                            Some(
                                ReloadInfo {
                                    newly_loaded_bytes: (bytes.len() + 1) as usize,
                                    available_bytes: (bytes.len() + 1) as usize,
                                    skipped_bytes: 0,
                                    last_known_ts: None,
                                },
                            ),
                        )
                    } else {
                        r is Err
                    }
                },
                Some(Err(why)) => {
                    &&& final(self)@ == old(self)@
                    &&& r matches Err(SourceError::Unrecoverable(m))
                    &&& m@ == why@
                },
                None => final(self)@ == old(self)@ && r == Ok::<Option<ReloadInfo>, SourceError>(
                    None,
                ),
            },
    {
        match output {
            Some(Ok(line)) => {
                let bytes = line.as_str().as_bytes();
                let ghost before = self@;
                let kept = self.buffer.copy_from_slice(bytes);
                let ghost middle = self@;
                let mut end: Vec<u8> = Vec::new();
                end.push(crate::lines::NEWLINE);
                let ended = self.buffer.copy_from_slice(end.as_slice());
                proof {
                    assert(end@.take(1) =~= seq![crate::lines::NEWLINE]);
                    assert(end@.take(0) =~= Seq::<u8>::empty());
                    assert(self@ =~= before + kept_part(bytes@, kept as int, ended == 1));
                }
                if bytes.len() == usize::MAX {
                    return Err(SourceError::Unrecoverable(String::from_str("Line is too long")));
                }
                let stored = bytes.len() + 1;
                Ok(Some(ReloadInfo::new(stored, stored, 0, None)))
            },
            Some(Err(why)) => Err(SourceError::Unrecoverable(why)),
            None => Ok(None),
        }
    }

    /// The bytes that the source holds.
    pub fn current_slice(&self) -> (bytes: &[u8])
        ensures
            bytes@ == self@,
    {
        self.buffer.buf()
    }

    /// Drops `offset` bytes from the front, or all bytes if the source
    /// holds fewer.
    pub fn consume(&mut self, offset: usize)
        ensures
            final(self)@ == if offset <= old(self)@.len() {
                old(self)@.skip(offset as int)
            } else {
                Seq::<u8>::empty()
            },
    {
        let held = self.buffer.len();
        if offset <= held {
            self.buffer.consume(offset);
        } else {
            self.buffer.consume(held);
            proof {
                assert(old(self)@.skip(held as int) =~= Seq::<u8>::empty());
            }
        }
    }

    /// The number of bytes that the source holds.
    pub fn len(&self) -> (n: usize)
        ensures
            n == self@.len(),
    {
        self.buffer.len()
    }

    /// Whether the source holds no bytes.
    pub fn is_empty(&self) -> (b: bool)
        ensures
            b == (self@.len() == 0),
    {
        self.len() == 0
    }
}

} // verus!
