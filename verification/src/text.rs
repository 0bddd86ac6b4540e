//! Small verified operations on text: equality, decimal numbers, joining and
//! splitting into lines.

use vstd::prelude::*;
use vstd::string::*;
use vstd::utf8::*;
use crate::order::{bytes_le, lemma_lex_le_antisymmetric, lemma_lex_le_reflexive};

verus! {

/// Decides whether two strings hold the same characters.
pub fn str_eq(a: &str, b: &str) -> (r: bool)
    ensures
        r == (a@ == b@),
{
    let r = bytes_le(a.as_bytes(), b.as_bytes()) && bytes_le(b.as_bytes(), a.as_bytes());
    proof {
        let ea = encode_utf8(a@);
        let eb = encode_utf8(b@);
        if r {
            lemma_lex_le_antisymmetric(ea, eb);
            encode_utf8_decode_utf8(a@);
            encode_utf8_decode_utf8(b@);
        }
        if a@ == b@ {
            lemma_lex_le_reflexive(ea);
        }
    }
    r
}

/// The characters of a string.
pub fn chars_of(text: &str) -> (chars: Vec<char>)
    ensures
        chars@ == text@,
{
    let mut chars: Vec<char> = Vec::new();
    for c in it: text.chars()
        invariant
            it.seq() == text@,
            chars@ == it.seq().take(it.index() as int),
    {
        chars.push(c);
    }
    chars
}

/// The characters of each string.
pub open spec fn lines_view(lines: Seq<String>) -> Seq<Seq<char>> {
    Seq::new(lines.len(), |i: int| lines[i]@)
}

/// The index of the first line feed of `s`, or the length of `s` where it
/// has none.
pub open spec fn first_newline(s: Seq<char>) -> int
    decreases s.len(),
{
    if s.len() == 0 || s[0] == '\n' {
        0
    } else {
        1 + first_newline(s.drop_first())
    }
}

/// `first_newline` is within the text, no line feed stands before it, and
/// one stands at it unless it is the end.
pub proof fn lemma_first_newline(s: Seq<char>)
    ensures
        0 <= first_newline(s) <= s.len(),
        forall|i: int| 0 <= i < first_newline(s) ==> s[i] != '\n',
        first_newline(s) < s.len() ==> s[first_newline(s)] == '\n',
    decreases s.len(),
{
    if !(s.len() == 0 || s[0] == '\n') {
        let t = s.drop_first();
        lemma_first_newline(t);
        assert forall|i: int| 0 <= i < first_newline(s) implies s[i] != '\n' by {
            if i > 0 {
                assert(s[i] == t[i - 1]);
            }
        }
    }
}

/// A position with a line feed, or the end, that no line feed precedes is
/// the first newline.
pub proof fn lemma_first_newline_is(s: Seq<char>, k: int)
    requires
        0 <= k <= s.len(),
        forall|i: int| 0 <= i < k ==> s[i] != '\n',
        k < s.len() ==> s[k] == '\n',
    ensures
        first_newline(s) == k,
{
    lemma_first_newline(s);
}

/// A line without the carriage return that it ends with, if it ends with
/// one.
pub open spec fn strip_cr(line: Seq<char>) -> Seq<char> {
    if line.len() > 0 && line.last() == '\r' {
        line.drop_last()
    } else {
        line
    }
}

/// The lines of a text. A line ends at a line feed, or at a carriage return
/// directly followed by one; the terminator is not part of the line. A last
/// line without a line feed is a line as it stands; the empty text has no
/// line.
pub open spec fn split_lines(s: Seq<char>) -> Seq<Seq<char>>
    decreases s.len(),
{
    let k = first_newline(s);
    if s.len() == 0 {
        Seq::empty()
    } else if 0 <= k < s.len() {
        seq![strip_cr(s.take(k))] + split_lines(s.skip(k + 1))
    } else {
        seq![s]
    }
}

/// Splits a text into its lines.
pub fn lines_of(text: &str) -> (lines: Vec<String>)
    ensures
        lines_view(lines@) == split_lines(text@),
{
    let chars = chars_of(text);
    let n = chars.len();
    let mut lines: Vec<String> = Vec::new();
    let mut start: usize = 0;
    let mut i: usize = 0;
    assert(text@.skip(0) =~= text@);
    assert(lines_view(lines@) =~= Seq::<Seq<char>>::empty());
    while i < n
        invariant
            chars@ == text@,
            n == text@.len(),
            start <= i <= n,
            forall|j: int| start <= j < i ==> text@[j] != '\n',
            split_lines(text@) == lines_view(lines@) + split_lines(text@.skip(start as int)),
        decreases n - i,
    {
        if chars[i] == '\n' {
            let ghost rest = text@.skip(start as int);
            let ghost before = lines@;
            let end = if i > start && chars[i - 1] == '\r' {
                i - 1
            } else {
                i
            };
            let line = text.substring_char(start, end).to_owned();
            proof {
                lemma_first_newline_is(rest, i - start);
                assert(rest.take(i - start) =~= text@.subrange(start as int, i as int));
                assert(line@ =~= strip_cr(rest.take(i - start)));
                assert(rest.skip(i - start + 1) =~= text@.skip(i + 1));
            }
            lines.push(line);
            proof {
                assert(lines_view(lines@) =~= lines_view(before) + seq![line@]);
            }
            start = i + 1;
        }
        i = i + 1;
    }
    if start < n {
        let ghost rest = text@.skip(start as int);
        let ghost before = lines@;
        let line = text.substring_char(start, n).to_owned();
        proof {
            lemma_first_newline_is(rest, n - start);
            assert(line@ =~= rest);
        }
        lines.push(line);
        proof {
            assert(lines_view(lines@) =~= lines_view(before) + seq![line@]);
        }
    } else {
        assert(text@.skip(start as int).len() == 0);
        assert(lines_view(lines@) + Seq::<Seq<char>>::empty() =~= lines_view(lines@));
    }
    lines
}

/// The character of a decimal digit.
pub open spec fn digit(d: nat) -> char {
    if d == 0 {
        '0'
    } else if d == 1 {
        '1'
    } else if d == 2 {
        '2'
    } else if d == 3 {
        '3'
    } else if d == 4 {
        '4'
    } else if d == 5 {
        '5'
    } else if d == 6 {
        '6'
    } else if d == 7 {
        '7'
    } else if d == 8 {
        '8'
    } else {
        '9'
    }
}

/// The decimal numeral of `n`, without leading zeros.
pub open spec fn decimal(n: nat) -> Seq<char>
    decreases n,
{
    if n < 10 {
        seq![digit(n)]
    } else {
        decimal(n / 10).push(digit(n % 10))
    }
}

/// The numeral of one digit.
fn digit_str(d: u64) -> (r: &'static str)
    requires
        d < 10,
    ensures
        r@ == seq![digit(d as nat)],
{
    let r = if d == 0 {
        "0"
    } else if d == 1 {
        "1"
    } else if d == 2 {
        "2"
    } else if d == 3 {
        "3"
    } else if d == 4 {
        "4"
    } else if d == 5 {
        "5"
    } else if d == 6 {
        "6"
    } else if d == 7 {
        "7"
    } else if d == 8 {
        "8"
    } else {
        "9"
    };
    proof {
        reveal_strlit("0");
        reveal_strlit("1");
        reveal_strlit("2");
        reveal_strlit("3");
        reveal_strlit("4");
        reveal_strlit("5");
        reveal_strlit("6");
        reveal_strlit("7");
        reveal_strlit("8");
        reveal_strlit("9");
        assert(r@ =~= seq![digit(d as nat)]);
    }
    r
}

/// Appends the decimal numeral of `n` to `out`.
pub fn push_decimal(out: &mut String, n: u64)
    ensures
        final(out)@ == old(out)@ + decimal(n as nat),
    decreases n,
{
    if n >= 10 {
        push_decimal(out, n / 10);
    }
    out.append(digit_str(n % 10));
    proof {
        let before = old(out)@;
        if n >= 10 {
            assert(before + decimal((n / 10) as nat) + seq![digit((n % 10) as nat)] =~= before
                + decimal((n / 10) as nat).push(digit((n % 10) as nat)));
        }
    }
}

/// The parts in their order, with `sep` between each two neighbours.
pub open spec fn joined(parts: Seq<Seq<char>>, sep: Seq<char>) -> Seq<char>
    decreases parts.len(),
{
    if parts.len() == 0 {
        Seq::empty()
    } else if parts.len() == 1 {
        parts[0]
    } else {
        joined(parts.drop_last(), sep) + sep + parts.last()
    }
}

/// Appends the parts to `out`, with `sep` between each two neighbours.
pub fn push_joined(out: &mut String, parts: &Vec<String>, sep: &str)
    ensures
        final(out)@ == old(out)@ + joined(lines_view(parts@), sep@),
{
    let ghost before = out@;
    let ghost all = lines_view(parts@);
    let mut i: usize = 0;
    assert(all.take(0) =~= Seq::<Seq<char>>::empty());
    assert(before + Seq::<char>::empty() =~= before);
    while i < parts.len()
        invariant
            i <= parts@.len(),
            all == lines_view(parts@),
            out@ == before + joined(all.take(i as int), sep@),
        decreases parts@.len() - i,
    {
        let ghost done = all.take(i as int);
        let ghost next = all.take(i + 1);
        if i > 0 {
            out.append(sep);
        }
        out.append(parts[i].as_str());
        proof {
            assert(next.drop_last() =~= done);
            assert(next.last() == parts@[i as int]@);
            if i == 0 {
                assert(joined(done, sep@) =~= Seq::<char>::empty());
                assert(out@ =~= before + next[0]);
            } else {
                assert(out@ =~= before + (joined(done, sep@) + sep@ + next.last()));
            }
        }
        i = i + 1;
    }
    assert(all.take(parts@.len() as int) =~= all);
}

} // verus!
