//! Splitting text into lines, pieces and words, and reading decimal numbers,
//! with the meaning that Rust's `str::split`, `str::split_whitespace` and
//! `str::parse::<usize>` give them.
use vstd::prelude::*;

verus! {

/// The Unicode `White_Space` property, which `char::is_whitespace` tests.
pub open spec fn is_white_space(c: char) -> bool {
    let u = c as u32;
    (0x09 <= u <= 0x0d) || u == 0x20 || u == 0x85 || u == 0xa0 || u == 0x1680 || (0x2000 <= u
        <= 0x200a) || u == 0x2028 || u == 0x2029 || u == 0x202f || u == 0x205f || u == 0x3000
}

/// Whether `c` is white space in the sense of `char::is_whitespace`.
pub fn is_whitespace(c: char) -> (b: bool)
    ensures
        b == is_white_space(c),
{
    let u = c as u32;
    (0x09 <= u && u <= 0x0d) || u == 0x20 || u == 0x85 || u == 0xa0 || u == 0x1680 || (0x2000
        <= u && u <= 0x200a) || u == 0x2028 || u == 0x2029 || u == 0x202f || u == 0x205f || u
        == 0x3000
}

/// What separates the pieces of a text.
#[derive(Clone, Copy, Debug, PartialEq, Eq)]
pub enum Separator {
    /// One given character.
    Char(char),
    /// Any white-space character.
    WhiteSpace,
}

pub open spec fn separates(sep: Separator, c: char) -> bool {
    match sep {
        Separator::Char(s) => c == s,
        Separator::WhiteSpace => is_white_space(c),
    }
}

fn is_separator(sep: Separator, c: char) -> (b: bool)
    ensures
        b == separates(sep, c),
{
    match sep {
        Separator::Char(s) => c == s,
        Separator::WhiteSpace => is_whitespace(c),
    }
}

/// The pieces of `s` between separators, as `str::split` yields them:
/// `n` separators give `n + 1` pieces, empty ones included.
pub open spec fn pieces(s: Seq<char>, sep: Separator) -> Seq<Seq<char>>
    decreases s.len(),
{
    if s.len() == 0 {
        seq![Seq::empty()]
    } else {
        let prev = pieces(s.drop_last(), sep);
        if separates(sep, s.last()) {
            prev.push(Seq::empty())
        } else {
            prev.update(prev.len() - 1, prev.last().push(s.last()))
        }
    }
}

/// The non-empty members of `p`, in their order.
pub open spec fn non_empty(p: Seq<Seq<char>>) -> Seq<Seq<char>>
    decreases p.len(),
{
    if p.len() == 0 {
        p
    } else if p.last().len() > 0 {
        non_empty(p.drop_last()).push(p.last())
    } else {
        non_empty(p.drop_last())
    }
}

/// The words of `s`, as `str::split_whitespace` yields them: the non-empty
/// pieces between white-space characters.
pub open spec fn words(s: Seq<char>) -> Seq<Seq<char>> {
    non_empty(pieces(s, Separator::WhiteSpace))
}

/// The views of a sequence of character vectors.
pub open spec fn seqs_of(v: Seq<Vec<char>>) -> Seq<Seq<char>> {
    v.map_values(|t: Vec<char>| t@)
}

pub proof fn lemma_pieces_len(s: Seq<char>, sep: Separator)
    ensures
        pieces(s, sep).len() >= 1,
    decreases s.len(),
{
    if s.len() > 0 {
        lemma_pieces_len(s.drop_last(), sep);
    }
}

/// Splitting at one separator character: the pieces of `a`, the separator,
/// then `b` are the pieces of `a` followed by the pieces of `b`.
pub proof fn lemma_pieces_concat(a: Seq<char>, b: Seq<char>, c: char)
    ensures
        pieces(a + seq![c] + b, Separator::Char(c)) == pieces(a, Separator::Char(c)) + pieces(
            b,
            Separator::Char(c),
        ),
    decreases b.len(),
{
    let sep = Separator::Char(c);
    let s = a + seq![c] + b;
    if b.len() == 0 {
        assert(s.drop_last() =~= a);
        assert(s.last() == c);
        assert(pieces(b, sep) =~= seq![Seq::<char>::empty()]);
        assert(pieces(s, sep) =~= pieces(a, sep) + pieces(b, sep));
    } else {
        lemma_pieces_concat(a, b.drop_last(), c);
        lemma_pieces_len(b.drop_last(), sep);
        assert(s.drop_last() =~= a + seq![c] + b.drop_last());
        assert(s.last() == b.last());
        let x = pieces(a, sep);
        let y = pieces(b.drop_last(), sep);
        if separates(sep, b.last()) {
            assert(pieces(s, sep) =~= x + y.push(Seq::empty()));
        } else {
            let z = x + y;
            assert(z.last() == y.last());
            assert(z.update(z.len() - 1, z.last().push(b.last())) =~= x + y.update(
                y.len() - 1,
                y.last().push(b.last()),
            ));
        }
    }
}

/// The value of a single decimal digit `c`.
pub open spec fn digit_value(c: char) -> int {
    (c as u32) - 0x30
}

/// A single decimal digit reads as its own value.
pub proof fn lemma_parse_single_digit(c: char)
    requires
        is_decimal_digit(c),
    ensures
        parse_usize(seq![c]) == Some(digit_value(c) as usize),
{
    let d = seq![c];
    assert(unsigned_digits(d) == d);
    assert(d.drop_last() =~= Seq::<char>::empty());
    assert(d.last() == c);
    assert(decimal_value(d.drop_last()) == 0);
    assert(decimal_value(d) == decimal_value(d.drop_last()) * 10 + ((d.last() as u32) - 0x30) as nat);
    assert(decimal_value(d) == digit_value(c));
}

/// Writing one more digit after a numeral multiplies its value by ten and
/// adds the digit; where that no longer fits in a `usize` the numeral is
/// refused.
pub proof fn lemma_parse_append_digit(d: Seq<char>, c: char, v: usize)
    requires
        d.len() > 0,
        is_decimal_digit(d[0]),
        parse_usize(d) == Some(v),
        is_decimal_digit(c),
    ensures
        parse_usize(d.push(c)) == (if 10 * v + digit_value(c) <= usize::MAX {
            Some((10 * v + digit_value(c)) as usize)
        } else {
            None
        }),
{
    let e = d.push(c);
    assert(d[0] != '+');
    assert(e[0] == d[0]);
    assert(unsigned_digits(d) == d);
    assert(unsigned_digits(e) == e);
    assert(e.drop_last() =~= d);
    assert(all_decimal_digits(e)) by {
        assert forall|i: int| 0 <= i < e.len() implies is_decimal_digit(#[trigger] e[i]) by {
            if i < d.len() {
                assert(e[i] == d[i]);
            }
        }
    }
    assert(decimal_value(e) == 10 * v + digit_value(c));
}

/// A leading `+` does not change what a numeral reads as.
pub proof fn lemma_parse_plus_sign(d: Seq<char>)
    requires
        d.len() > 0,
        d[0] != '+',
    ensures
        parse_usize(seq!['+'] + d) == parse_usize(d),
{
    let e = seq!['+'] + d;
    assert(e.drop_first() =~= d);
}

/// A numeral with a character other than a decimal digit after its optional
/// leading `+` is refused.
pub proof fn lemma_parse_refuses_non_digit(s: Seq<char>, i: int)
    requires
        0 < i < s.len() || (i == 0 && s.len() > 0 && s[0] != '+'),
        !is_decimal_digit(s[i]),
    ensures
        parse_usize(s) is None,
{
    let d = unsigned_digits(s);
    if s[0] == '+' {
        assert(d[i - 1] == s[i]);
    } else {
        assert(d[i] == s[i]);
    }
}

/// The characters of `text`, in order.
pub fn chars_of(text: &str) -> (out: Vec<char>)
    ensures
        out@ == text@,
{
    let mut out: Vec<char> = Vec::new();
    for c in it: text.chars()
        invariant
            out@ == it.seq().take(it.index()),
    {
        out.push(c);
    }
    out
}

/// The pieces of `s` between separators (see `pieces`).
pub fn split(s: &Vec<char>, sep: Separator) -> (out: Vec<Vec<char>>)
    ensures
        seqs_of(out@) == pieces(s@, sep),
{
    let mut out: Vec<Vec<char>> = Vec::new();
    let mut cur: Vec<char> = Vec::new();
    let mut i: usize = 0;
    proof {
        assert(s@.take(0) =~= Seq::<char>::empty());
        assert(seqs_of(out@).push(cur@) =~= pieces(s@.take(0), sep));
    }
    while i < s.len()
        invariant
            0 <= i <= s.len(),
            seqs_of(out@).push(cur@) == pieces(s@.take(i as int), sep),
        decreases s.len() - i,
    {
        let c = s[i];
        let ghost before = s@.take(i as int);
        proof {
            assert(s@.take(i + 1).drop_last() =~= before);
            assert(s@.take(i + 1).last() == c);
            lemma_pieces_len(before, sep);
        }
        if is_separator(sep, c) {
            out.push(cur);
            cur = Vec::new();
            proof {
                assert(seqs_of(out@).push(cur@) =~= pieces(before, sep).push(Seq::empty()));
            }
        } else {
            cur.push(c);
            proof {
                let p = pieces(before, sep);
                assert(seqs_of(out@).push(cur@) =~= p.update(p.len() - 1, p.last().push(c)));
            }
        }
        i += 1;
    }
    proof {
        assert(s@.take(s.len() as int) =~= s@);
    }
    out.push(cur);
    out
}

/// The words of `s` (see `words`).
pub fn split_whitespace(s: &Vec<char>) -> (out: Vec<Vec<char>>)
    ensures
        seqs_of(out@) == words(s@),
{
    let mut out: Vec<Vec<char>> = Vec::new();
    let mut cur: Vec<char> = Vec::new();
    let mut i: usize = 0;
    proof {
        assert(s@.take(0) =~= Seq::<char>::empty());
        assert(seqs_of(out@) =~= non_empty(pieces(s@.take(0), Separator::WhiteSpace).drop_last()));
    }
    while i < s.len()
        invariant
            0 <= i <= s.len(),
            pieces(s@.take(i as int), Separator::WhiteSpace).last() == cur@,
            seqs_of(out@) == non_empty(pieces(s@.take(i as int), Separator::WhiteSpace).drop_last()),
        decreases s.len() - i,
    {
        let c = s[i];
        let ghost before = s@.take(i as int);
        let ghost p = pieces(before, Separator::WhiteSpace);
        proof {
            assert(s@.take(i + 1).drop_last() =~= before);
            assert(s@.take(i + 1).last() == c);
            lemma_pieces_len(before, Separator::WhiteSpace);
        }
        if is_whitespace(c) {
            if cur.len() > 0 {
                out.push(cur);
            }
            cur = Vec::new();
            proof {
                let q = p.push(Seq::empty());
                assert(q.drop_last() =~= p);
                assert(p =~= p.drop_last().push(p.last()));
                assert(seqs_of(out@) =~= non_empty(p));
            }
        } else {
            cur.push(c);
            proof {
                let q = p.update(p.len() - 1, p.last().push(c));
                assert(q.drop_last() =~= p.drop_last());
            }
        }
        i += 1;
    }
    proof {
        assert(s@.take(s.len() as int) =~= s@);
        let p = pieces(s@, Separator::WhiteSpace);
        lemma_pieces_len(s@, Separator::WhiteSpace);
        assert(p =~= p.drop_last().push(p.last()));
    }
    if cur.len() > 0 {
        out.push(cur);
    }
    proof {
        assert(seqs_of(out@) =~= words(s@));
    }
    out
}

/// Whether `c` is one of the decimal digits `0` to `9`.
pub open spec fn is_decimal_digit(c: char) -> bool {
    0x30 <= (c as u32) <= 0x39
}

/// The value of the decimal numeral `d`, read from the most significant digit.
pub open spec fn decimal_value(d: Seq<char>) -> nat
    decreases d.len(),
{
    if d.len() == 0 {
        0
    } else {
        decimal_value(d.drop_last()) * 10 + ((d.last() as u32) - 0x30) as nat
    }
}

/// Whether every character of `d` is a decimal digit.
pub open spec fn all_decimal_digits(d: Seq<char>) -> bool {
    forall|i: int| 0 <= i < d.len() ==> is_decimal_digit(#[trigger] d[i])
}

/// `s` without the one leading `+` that an unsigned numeral may carry.
pub open spec fn unsigned_digits(s: Seq<char>) -> Seq<char> {
    if s.len() > 0 && s[0] == '+' {
        s.drop_first()
    } else {
        s
    }
}

/// What `str::parse::<usize>` gives for `s`: an optional leading `+`, then
/// one or more decimal digits whose value fits in a `usize`; anything else
/// is refused.
pub open spec fn parse_usize(s: Seq<char>) -> Option<usize> {
    let d = unsigned_digits(s);
    if d.len() > 0 && all_decimal_digits(d) && decimal_value(d) <= usize::MAX {
        Some(decimal_value(d) as usize)
    } else {
        None
    }
}

proof fn lemma_decimal_value_prefix(d: Seq<char>, k: int)
    requires
        0 <= k <= d.len(),
    ensures
        decimal_value(d.take(k)) <= decimal_value(d),
    decreases d.len(),
{
    if k < d.len() {
        assert(d.drop_last().take(k) =~= d.take(k));
        lemma_decimal_value_prefix(d.drop_last(), k);
    } else {
        assert(d.take(k) =~= d);
    }
}

/// Reads `s` as `str::parse::<usize>` does (see `parse_usize`).
pub fn parse_decimal(s: &Vec<char>) -> (r: Option<usize>)
    ensures
        r == parse_usize(s@),
{
    let start: usize = if s.len() > 0 && s[0] == '+' {
        1
    } else {
        0
    };
    let ghost d = unsigned_digits(s@);
    assert(d =~= s@.subrange(start as int, s@.len() as int));
    if start >= s.len() {
        return None;
    }
    let mut v: usize = 0;
    let mut i: usize = start;
    assert(d.take(0) =~= Seq::<char>::empty());
    while i < s.len()
        invariant
            start <= i <= s.len(),
            d == unsigned_digits(s@),
            d =~= s@.subrange(start as int, s@.len() as int),
            forall|j: int| 0 <= j < i - start ==> is_decimal_digit(#[trigger] d[j]),
            v as nat == decimal_value(d.take(i - start)),
        decreases s.len() - i,
    {
        let c = s[i];
        let u = c as u32;
        assert(d[i - start] == c);
        if !(0x30 <= u && u <= 0x39) {
            assert(!is_decimal_digit(d[i - start]));
            return None;
        }
        let dv = (u - 0x30) as usize;
        assert(d.take(i + 1 - start).drop_last() =~= d.take(i - start));
        assert(decimal_value(d.take(i + 1 - start)) == v * 10 + dv);
        let m = v.checked_mul(10);
        if m.is_none() {
            proof {
                assert(v * 10 + dv > usize::MAX);
                if all_decimal_digits(d) {
                    lemma_decimal_value_prefix(d, i + 1 - start);
                }
            }
            return None;
        }
        let a = m.unwrap().checked_add(dv);
        if a.is_none() {
            proof {
                assert(v * 10 + dv > usize::MAX);
                if all_decimal_digits(d) {
                    lemma_decimal_value_prefix(d, i + 1 - start);
                }
            }
            return None;
        }
        v = a.unwrap();
        i += 1;
    }
    assert(d.take(s.len() - start) =~= d);
    Some(v)
}

} // verus!
