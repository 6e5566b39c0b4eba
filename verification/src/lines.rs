//! Lines in a run of bytes: how many are complete, where they end.

use vstd::prelude::*;

verus! {

/// The byte that ends a line.
pub const NEWLINE: u8 = 10;

/// The number of complete lines in `s`: the number of bytes that end a line.
pub open spec fn newline_count(s: Seq<u8>) -> nat
    decreases s.len(),
{
    if s.len() == 0 {
        0
    } else {
        newline_count(s.drop_last()) + if s.last() == NEWLINE {
            1nat
        } else {
            0nat
        }
    }
}

/// The length of the complete lines of `s`: of its prefix up to and with
/// the last byte that ends a line, 0 if there is none.
pub open spec fn complete_len(s: Seq<u8>) -> nat
    decreases s.len(),
{
    if s.len() == 0 {
        0
    } else if s.last() == NEWLINE {
        s.len()
    } else {
        complete_len(s.drop_last())
    }
}

/// The length of the first `n` lines of `s`: of its shortest prefix that
/// holds `n` complete lines, and of all of `s` if it holds fewer.
pub open spec fn line_end(s: Seq<u8>, n: nat) -> nat
    decreases s.len(),
{
    if n == 0 || s.len() == 0 {
        0
    } else if newline_count(s.drop_last()) >= n {
        line_end(s.drop_last(), n)
    } else {
        s.len()
    }
}

/// A prefix holds no more complete lines than the whole.
pub proof fn lemma_newline_count_prefix(s: Seq<u8>, k: int)
    requires
        0 <= k <= s.len(),
    ensures
        newline_count(s.take(k)) <= newline_count(s),
        newline_count(s.take(k)) <= k,
    decreases s.len(),
{
    if k == s.len() {
        assert(s.take(k) == s);
        if s.len() > 0 {
            lemma_newline_count_prefix(s.drop_last(), k - 1);
            assert(s.drop_last().take(k - 1) == s.drop_last());
        }
    } else {
        lemma_newline_count_prefix(s.drop_last(), k);
        assert(s.drop_last().take(k) == s.take(k));
    }
}

/// The lines of two runs of bytes, one after the other, add up.
pub proof fn lemma_newline_count_concat(a: Seq<u8>, b: Seq<u8>)
    ensures
        newline_count(a + b) == newline_count(a) + newline_count(b),
    decreases b.len(),
{
    if b.len() == 0 {
        assert(a + b == a);
    } else {
        lemma_newline_count_concat(a, b.drop_last());
        assert((a + b).drop_last() == a + b.drop_last());
    }
}

/// The complete lines of `s` end with a byte that ends a line, hold every
/// complete line of `s`, and are followed by none.
pub proof fn lemma_complete_len(s: Seq<u8>)
    ensures
        complete_len(s) <= s.len(),
        newline_count(s) <= complete_len(s),
        complete_len(s) > 0 ==> s[complete_len(s) - 1] == NEWLINE,
        complete_len(s) == 0 <==> newline_count(s) == 0,
        newline_count(s.take(complete_len(s) as int)) == newline_count(s),
        complete_len(s.take(complete_len(s) as int)) == complete_len(s),
    decreases s.len(),
{
    if s.len() == 0 {
        assert(s.take(0) == s);
    } else if s.last() == NEWLINE {
        assert(s.take(s.len() as int) == s);
        lemma_newline_count_prefix(s, s.len() as int);
    } else {
        let front = s.drop_last();
        lemma_complete_len(front);
        assert(front.take(complete_len(front) as int) == s.take(complete_len(front) as int));
    }
}

/// The first `n` lines of `s` are a prefix of `s` that holds `n` complete
/// lines, where `s` has as many.
pub proof fn lemma_line_end(s: Seq<u8>, n: nat)
    ensures
        line_end(s, n) <= s.len(),
        n <= newline_count(s) ==> line_end(s, n) <= complete_len(s) && newline_count(
            s.take(line_end(s, n) as int),
        ) == n,
        n <= newline_count(s) && n > 0 ==> s[line_end(s, n) - 1] == NEWLINE,
        n > newline_count(s) ==> line_end(s, n) == s.len(),
        n == newline_count(s) ==> line_end(s, n) == complete_len(s),
    decreases s.len(),
{
    lemma_complete_len(s);
    if n == 0 {
        assert(s.take(0).len() == 0);
    } else if s.len() == 0 {
    } else {
        let front = s.drop_last();
        lemma_line_end(front, n);
        lemma_complete_len(front);
        if newline_count(front) >= n {
            assert(front.take(line_end(front, n) as int) == s.take(line_end(front, n) as int));
        } else {
            assert(s.take(s.len() as int) == s);
        }
    }
}

/// The first lines of `s` grow with their number.
pub proof fn lemma_line_end_monotonic(s: Seq<u8>, m: nat, n: nat)
    requires
        m <= n,
    ensures
        line_end(s, m) <= line_end(s, n),
    decreases s.len(),
{
    if m == 0 || s.len() == 0 {
    } else {
        lemma_line_end_monotonic(s.drop_last(), m, n);
        lemma_line_end(s.drop_last(), m);
        lemma_line_end(s.drop_last(), n);
    }
}

/// Counts the complete lines of `bytes` and measures their length.
pub fn count_lines(bytes: &[u8]) -> (r: (usize, usize))
    ensures
        r.0 == complete_len(bytes@),
        r.1 == newline_count(bytes@),
        r.1 <= r.0 <= bytes@.len(),
{
    let mut complete: usize = 0;
    let mut count: usize = 0;
    let mut i: usize = 0;
    while i < bytes.len()
        invariant
            i <= bytes.len(),
            complete == complete_len(bytes@.take(i as int)),
            count == newline_count(bytes@.take(i as int)),
            count <= complete <= i,
        decreases bytes.len() - i,
    {
        proof {
            assert(bytes@.take(i + 1).drop_last() == bytes@.take(i as int));
        }
        if bytes[i] == NEWLINE {
            count = count + 1;
            complete = i + 1;
        }
        i = i + 1;
    }
    proof {
        assert(bytes@.take(bytes@.len() as int) == bytes@);
    }
    (complete, count)
}

/// Measures the first `n` lines of `bytes`.
pub fn end_of_line(bytes: &[u8], n: usize) -> (r: usize)
    ensures
        r == line_end(bytes@, n as nat),
        r <= bytes@.len(),
{
    let mut count: usize = 0;
    let mut i: usize = 0;
    while i < bytes.len() && count < n
        invariant
            i <= bytes.len(),
            count == newline_count(bytes@.take(i as int)),
            count <= n,
            count <= i,
            i == line_end(bytes@.take(i as int), n as nat),
        decreases bytes.len() - i,
    {
        proof {
            assert(bytes@.take(i + 1).drop_last() == bytes@.take(i as int));
            lemma_line_end(bytes@.take(i as int), n as nat);
        }
        if bytes[i] == NEWLINE {
            count = count + 1;
        }
        i = i + 1;
    }
    proof {
        lemma_line_end_prefix(bytes@, i as int, n as nat);
    }
    i
}

/// The number of lines of a text: its complete lines, and one more if bytes
/// stand behind the last line end.
pub open spec fn line_total(s: Seq<u8>) -> nat {
    newline_count(s) + if s.len() > 0 && s.last() != NEWLINE {
        1nat
    } else {
        0nat
    }
}

/// Where line `k` of a text stands, lines counted from 0: from the byte
/// behind the line before it up to, and without, the byte that ends it, or
/// up to the end of the text if nothing ends it.
pub open spec fn line_span(s: Seq<u8>, k: nat) -> (nat, nat) {
    (
        line_end(s, k),
        if k < newline_count(s) {
            (line_end(s, k + 1) - 1) as nat
        } else {
            s.len()
        },
    )
}

/// A line of a text starts no later than it stops, and stops within the
/// text.
pub proof fn lemma_line_span(s: Seq<u8>, k: nat)
    ensures
        line_span(s, k).0 <= line_span(s, k).1 <= s.len(),
{
    lemma_line_end(s, k);
    lemma_line_end(s, k + 1);
    lemma_complete_len(s);
    if k < newline_count(s) {
        lemma_line_end_monotonic(s, k, k + 1);
        if line_end(s, k) == line_end(s, k + 1) {
            lemma_newline_count_prefix(s, line_end(s, k) as int);
        }
    }
}

/// Counts the lines of a text that comes in pieces.
#[derive(Debug, Clone, Copy, PartialEq, Eq, Structural)]
pub struct LineCounter {
    complete: usize,
    open: bool,
}

impl LineCounter {
    /// The counter has been fed the bytes `s`, piece by piece.
    pub closed spec fn counts(self, s: Seq<u8>) -> bool {
        &&& self.complete == if newline_count(s) > usize::MAX {
            usize::MAX
        } else {
            newline_count(s) as usize
        }
        &&& self.open == (s.len() > 0 && s.last() != NEWLINE)
    }

    /// A counter that has been fed nothing.
    pub fn new() -> (counter: LineCounter)
        ensures
            counter.counts(Seq::empty()),
    {
        LineCounter { complete: 0, open: false }
    }

    /// Feeds the next piece of the text.
    pub fn feed(&mut self, chunk: &[u8])
        ensures
            forall|s: Seq<u8>| old(self).counts(s) ==> #[trigger] final(self).counts(s + chunk@),
    {
        let (complete, count) = count_lines(chunk);
        let ghost before = *self;
        if chunk.len() > 0 {
            self.open = complete < chunk.len();
            self.complete = if count <= usize::MAX - self.complete {
                self.complete + count
            } else {
                usize::MAX
            };
        }
        proof {
            assert forall|s: Seq<u8>| before.counts(s) implies #[trigger] self.counts(
                s + chunk@,
            ) by {
                lemma_newline_count_concat(s, chunk@);
                lemma_complete_len(chunk@);
                if chunk@.len() == 0 {
                    assert(s + chunk@ =~= s);
                } else {
                    assert((s + chunk@).last() == chunk@.last());
                    if complete == chunk@.len() {
                        assert(chunk@.last() == NEWLINE);
                    } else if chunk@.last() == NEWLINE {
                        assert(complete_len(chunk@) == chunk@.len());
                    }
                }
            }
        }
    }

    /// The number of lines of the text fed so far, or the largest number
    /// that can be written down where there are more.
    pub fn total(&self) -> (n: usize)
        ensures
            forall|s: Seq<u8>|
                #[trigger] self.counts(s) ==> n == if line_total(s) > usize::MAX {
                    usize::MAX
                } else {
                    line_total(s) as usize
                },
    {
        if self.open && self.complete < usize::MAX {
            self.complete + 1
        } else {
            self.complete
        }
    }
}

/// A prefix that holds `n` complete lines, or is all of `s`, has the first
/// `n` lines of `s` as its own.
pub proof fn lemma_line_end_prefix(s: Seq<u8>, k: int, n: nat)
    requires
        0 <= k <= s.len(),
        k == s.len() || newline_count(s.take(k)) >= n,
    ensures
        line_end(s, n) == line_end(s.take(k), n),
    decreases s.len(),
{
    if k == s.len() {
        assert(s.take(k) == s);
    } else {
        let front = s.drop_last();
        assert(front.take(k) == s.take(k));
        lemma_newline_count_prefix(front, k);
        lemma_line_end_prefix(front, k, n);
        if n == 0 {
            assert(line_end(s.take(k), n) == 0);
        }
    }
}

} // verus!
