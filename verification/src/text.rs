//! Text helpers shared by the other modules: decimal numbers as they stand
//! in the search result file and in the serialized search map.

use vstd::prelude::*;
use vstd::string::*;

verus! {

/// The parts in order, with the separator between each two of them.
pub open spec fn joined(parts: Seq<Seq<char>>, separator: Seq<char>) -> Seq<char>
    decreases parts.len(),
{
    if parts.len() == 0 {
        Seq::empty()
    } else if parts.len() == 1 {
        parts[0]
    } else {
        joined(parts.drop_last(), separator) + separator + parts.last()
    }
}

/// A copy of a byte vector.
pub fn copy_bytes(bytes: &Vec<u8>) -> (r: Vec<u8>)
    ensures
        r@ == bytes@,
{
    let mut out: Vec<u8> = Vec::new();
    let mut i: usize = 0;
    while i < bytes.len()
        invariant
            i <= bytes.len(),
            out@ == bytes@.take(i as int),
        decreases bytes.len() - i,
    {
        out.push(bytes[i]);
        i = i + 1;
    }
    proof {
        assert(bytes@.take(bytes@.len() as int) == bytes@);
    }
    out
}

/// Appends the bytes to `out`.
pub fn append_bytes(out: &mut Vec<u8>, bytes: &[u8])
    ensures
        final(out)@ == old(out)@ + bytes@,
{
    let mut i: usize = 0;
    while i < bytes.len()
        invariant
            i <= bytes.len(),
            out@ == old(out)@ + bytes@.take(i as int),
        decreases bytes.len() - i,
    {
        out.push(bytes[i]);
        proof {
            assert(bytes@.take(i + 1) =~= bytes@.take(i as int).push(bytes@[i as int]));
        }
        i = i + 1;
    }
    proof {
        assert(bytes@.take(bytes@.len() as int) == bytes@);
    }
}

/// The character that stands for a digit `0..=9`.
pub open spec fn digit_char(d: int) -> char {
    if d == 0 {
        '0'
    } else if d == 1 {
        '1'
    } else if d == 2 {
        '2'
    } else if d == 3 {
        '3'
    } else if d == 4 {
        '4'
    } else if d == 5 {
        '5'
    } else if d == 6 {
        '6'
    } else if d == 7 {
        '7'
    } else if d == 8 {
        '8'
    } else {
        '9'
    }
}

/// The digit that a character stands for, if it is one of `0..=9`.
pub open spec fn digit_value(c: char) -> Option<nat> {
    if c == '0' {
        Some(0)
    } else if c == '1' {
        Some(1)
    } else if c == '2' {
        Some(2)
    } else if c == '3' {
        Some(3)
    } else if c == '4' {
        Some(4)
    } else if c == '5' {
        Some(5)
    } else if c == '6' {
        Some(6)
    } else if c == '7' {
        Some(7)
    } else if c == '8' {
        Some(8)
    } else if c == '9' {
        Some(9)
    } else {
        None
    }
}

/// A number in base ten, most significant digit first, without leading zeros.
pub open spec fn decimal(n: nat) -> Seq<char>
    decreases n,
{
    if n < 10 {
        seq![digit_char(n as int)]
    } else {
        decimal(n / 10).push(digit_char((n % 10) as int))
    }
}

/// The number that a non-empty run of digits stands for.
pub open spec fn digits_value(s: Seq<char>) -> Option<nat>
    decreases s.len(),
{
    if s.len() == 0 {
        None
    } else if s.len() == 1 {
        digit_value(s[0])
    } else {
        match (digits_value(s.drop_last()), digit_value(s.last())) {
            (Some(high), Some(low)) => Some(high * 10 + low),
            _ => None,
        }
    }
}

/// What a text is as a line number: digits, with an optional `+` before
/// them, that stand for a number within `u64`.
pub open spec fn parsed_u64(s: Seq<char>) -> Option<u64> {
    let digits = if s.len() > 0 && s[0] == '+' {
        s.drop_first()
    } else {
        s
    };
    match digits_value(digits) {
        Some(v) => if v <= u64::MAX {
            Some(v as u64)
        } else {
            None
        },
        None => None,
    }
}

fn digit(d: u64) -> (c: char)
    requires
        d < 10,
    ensures
        c == digit_char(d as int),
{
    if d == 0 {
        '0'
    } else if d == 1 {
        '1'
    } else if d == 2 {
        '2'
    } else if d == 3 {
        '3'
    } else if d == 4 {
        '4'
    } else if d == 5 {
        '5'
    } else if d == 6 {
        '6'
    } else if d == 7 {
        '7'
    } else if d == 8 {
        '8'
    } else {
        '9'
    }
}

fn value_of_digit(c: char) -> (d: Option<u64>)
    ensures
        match d {
            Some(v) => digit_value(c) == Some(v as nat) && v < 10,
            None => digit_value(c) is None,
        },
{
    if c == '0' {
        Some(0)
    } else if c == '1' {
        Some(1)
    } else if c == '2' {
        Some(2)
    } else if c == '3' {
        Some(3)
    } else if c == '4' {
        Some(4)
    } else if c == '5' {
        Some(5)
    } else if c == '6' {
        Some(6)
    } else if c == '7' {
        Some(7)
    } else if c == '8' {
        Some(8)
    } else if c == '9' {
        Some(9)
    } else {
        None
    }
}

/// Appends `n` in base ten to `out`.
pub fn push_decimal(out: &mut String, n: u64)
    ensures
        final(out)@ == old(out)@ + decimal(n as nat),
    decreases n,
{
    if n >= 10 {
        push_decimal(out, n / 10);
    }
    out.push(digit(n % 10));
}

/// `n` in base ten.
pub fn u64_to_string(n: u64) -> (r: String)
    ensures
        r@ == decimal(n as nat),
{
    let mut out = String::new();
    push_decimal(&mut out, n);
    out
}

/// Reads a line number: `Some` with the number exactly when the text is a
/// non-empty run of digits, with an optional `+` before it, whose value fits
/// in `u64`.
pub fn parse_u64(text: &str) -> (r: Option<u64>)
    ensures
        r == parsed_u64(text@),
{
    broadcast use vstd::string::group_string_axioms;

    let mut value: u64 = 0;
    let mut any: bool = false;
    let mut signed: bool = false;
    for c in it: text.chars()
        invariant
            it.seq() == text@,
            signed ==> text@.len() > 0 && text@[0] == '+' && it.index() >= 1,
            !signed && it.index() > 0 ==> text@[0] != '+',
            any == (digits_upto(text@, signed, it.index()).len() > 0),
            !any ==> value == 0 && it.index() == if signed { 1int } else { 0 },
            any ==> digits_value(digits_upto(text@, signed, it.index())) == Some(value as nat),
    {
        let ghost i = it.index();
        let ghost digits = digits_upto(text@, signed, i);
        if c == '+' && !any && !signed {
            signed = true;
            proof {
                assert(text@.take(1).drop_first() =~= Seq::<char>::empty());
            }
        } else {
            let ghost longer = digits_upto(text@, signed, i + 1);
            proof {
                if signed {
                    assert(text@.take(i).drop_first() =~= text@.subrange(1, i));
                    assert(longer =~= text@.subrange(1, i + 1));
                } else {
                    assert(longer =~= text@.take(i).push(c));
                }
                assert(longer.drop_last() =~= digits);
                assert(longer.last() == c);
            }
            let d = match value_of_digit(c) {
                Some(d) => d,
                None => {
                    proof {
                        lemma_digits_prefix_none(text@, signed, i + 1);
                    }
                    return None;
                },
            };
            let next = match value.checked_mul(10) {
                Some(v) => v.checked_add(d),
                None => None,
            };
            match next {
                Some(v) => {
                    value = v;
                },
                None => {
                    proof {
                        assert(digits_value(longer) == Some((value * 10 + d) as nat));
                        lemma_digits_prefix_large(text@, signed, i + 1);
                    }
                    return None;
                },
            }
            any = true;
            proof {
                assert(digits_value(longer) == Some(value as nat));
            }
        }
    }
    proof {
        assert(text@.take(text@.len() as int) == text@);
    }
    if any {
        Some(value)
    } else {
        None
    }
}

/// The digits of `s` after an optional sign, up to position `upto`.
spec fn digits_upto(s: Seq<char>, signed: bool, upto: int) -> Seq<char> {
    if signed {
        s.take(upto).drop_first()
    } else {
        s.take(upto)
    }
}

/// The digits up to a position and the rest of the text make up all digits.
proof fn lemma_digits_split(s: Seq<char>, signed: bool, upto: int)
    requires
        0 <= upto <= s.len(),
        signed ==> upto >= 1,
        digits_upto(s, signed, upto).len() > 0,
    ensures
        digits_upto(s, signed, upto) + s.subrange(upto, s.len() as int) == digits_upto(
            s,
            signed,
            s.len() as int,
        ),
{
    let a = digits_upto(s, signed, upto);
    let b = s.subrange(upto, s.len() as int);
    let all = digits_upto(s, signed, s.len() as int);
    assert(s.take(s.len() as int) == s);
    if signed {
        assert(a.len() == upto - 1);
        assert(all.len() == s.len() - 1);
        assert forall|k: int| 0 <= k < all.len() implies (a + b)[k] == all[k] by {
            if k < a.len() {
                assert(a[k] == s.take(upto)[k + 1]);
            } else {
                assert(b[k - a.len()] == s[k - a.len() + upto]);
            }
        }
        assert(a + b =~= all);
    } else {
        assert(a + b =~= all);
    }
}

/// A run of digits that holds a character which is no digit stands for no
/// number, however it goes on.
proof fn lemma_digits_extend_none(a: Seq<char>, b: Seq<char>)
    requires
        a.len() > 0,
        digits_value(a) is None,
    ensures
        digits_value(a + b) is None,
    decreases b.len(),
{
    if b.len() == 0 {
        assert(a + b =~= a);
    } else {
        lemma_digits_extend_none(a, b.drop_last());
        assert((a + b).drop_last() =~= a + b.drop_last());
    }
}

/// A run of digits stands for no less than any of its prefixes.
proof fn lemma_digits_extend_large(a: Seq<char>, b: Seq<char>)
    requires
        a.len() > 0,
        digits_value(a) is Some,
    ensures
        digits_value(a + b) matches Some(v) ==> v >= digits_value(a)->0,
    decreases b.len(),
{
    if b.len() == 0 {
        assert(a + b =~= a);
    } else {
        lemma_digits_extend_large(a, b.drop_last());
        assert((a + b).drop_last() =~= a + b.drop_last());
    }
}

proof fn lemma_digits_prefix_none(s: Seq<char>, signed: bool, upto: int)
    requires
        0 <= upto <= s.len(),
        signed ==> s.len() > 0 && s[0] == '+' && upto >= 1,
        !signed ==> s.len() > 0 && s[0] != '+',
        digits_upto(s, signed, upto).len() > 0,
        digits_value(digits_upto(s, signed, upto)) is None,
    ensures
        parsed_u64(s) is None,
{
    let a = digits_upto(s, signed, upto);
    let b = s.subrange(upto, s.len() as int);
    lemma_digits_extend_none(a, b);
    lemma_digits_split(s, signed, upto);
    assert(s.take(s.len() as int) == s);
}

proof fn lemma_digits_prefix_large(s: Seq<char>, signed: bool, upto: int)
    requires
        0 <= upto <= s.len(),
        signed ==> s.len() > 0 && s[0] == '+' && upto >= 1,
        !signed ==> s.len() > 0 && s[0] != '+',
        digits_upto(s, signed, upto).len() > 0,
        digits_value(digits_upto(s, signed, upto)) matches Some(v) && v > u64::MAX,
    ensures
        parsed_u64(s) is None,
{
    let a = digits_upto(s, signed, upto);
    let b = s.subrange(upto, s.len() as int);
    lemma_digits_extend_large(a, b);
    lemma_digits_split(s, signed, upto);
    assert(s.take(s.len() as int) == s);
}

/// The digits of a number stand for that number.
pub proof fn lemma_decimal_digits(n: nat)
    ensures
        decimal(n).len() > 0,
        digits_value(decimal(n)) == Some(n),
        decimal(n)[0] != '+',
    decreases n,
{
    if n >= 10 {
        lemma_decimal_digits(n / 10);
        assert(decimal(n).drop_last() == decimal(n / 10));
    }
}

/// Reading the text that stands for a number gives that number back.
pub proof fn lemma_parse_decimal(n: u64)
    ensures
        parsed_u64(decimal(n as nat)) == Some(n),
{
    lemma_decimal_digits(n as nat);
}

} // verus!
