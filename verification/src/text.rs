//! Character-level helpers shared by the parsers of this crate.
//!
//! Strings are viewed as sequences of `char`; every helper states its result
//! over that view.

use vstd::prelude::*;
use vstd::std_specs::iter::IteratorSpec;
use vstd::utf8::{decode_utf8, valid_utf8};

verus! {

/// `String::push` appends one character to the end of the string.
pub assume_specification[ String::push ](s: &mut String, c: char)
    ensures
        final(s)@ == old(s)@.push(c),
;

/// The characters of `s`, in order.
pub fn chars_of(s: &str) -> (v: Vec<char>)
    ensures
        v@ == s@,
{
    let mut v: Vec<char> = Vec::new();
    let mut rest = s.chars();
    assert(v@ + rest.remaining() =~= s@);
    loop
        invariant
            v@ + rest.remaining() == s@,
            rest.decrease() is Some,
        decreases rest.decrease()->0,
    {
        let ghost before = v@;
        let ghost left = rest.remaining();
        match rest.next() {
            Some(c) => {
                v.push(c);
                assert(v@ + rest.remaining() =~= before + left);
            },
            None => {
                assert(left.len() == 0);
                assert(v@ =~= s@);
                return v;
            },
        }
    }
}

/// The string made of `v[from..to]`.
pub fn string_of(v: &Vec<char>, from: usize, to: usize) -> (s: String)
    requires
        from <= to <= v@.len(),
    ensures
        s@ == v@.subrange(from as int, to as int),
{
    let mut s = String::new();
    let mut i: usize = from;
    while i < to
        invariant
            from <= i <= to <= v@.len(),
            s@ == v@.subrange(from as int, i as int),
        decreases to - i,
    {
        s.push(v[i]);
        i += 1;
        assert(s@ =~= v@.subrange(from as int, i as int));
    }
    s
}

/// A copy of `v[from..to]`.
pub fn slice_of(v: &Vec<char>, from: usize, to: usize) -> (r: Vec<char>)
    requires
        from <= to <= v@.len(),
    ensures
        r@ == v@.subrange(from as int, to as int),
{
    let mut r: Vec<char> = Vec::new();
    let mut i: usize = from;
    while i < to
        invariant
            from <= i <= to <= v@.len(),
            r@ == v@.subrange(from as int, i as int),
        decreases to - i,
    {
        r.push(v[i]);
        i += 1;
        assert(r@ =~= v@.subrange(from as int, i as int));
    }
    r
}

/// Position of the first `c` at or after `from`, or the length of `s` when
/// there is none.
pub open spec fn index_of(s: Seq<char>, c: char, from: int) -> int
    decreases s.len() - from,
{
    if from < 0 || from >= s.len() {
        s.len() as int
    } else if s[from] == c {
        from
    } else {
        index_of(s, c, from + 1)
    }
}

/// `index_of` lies between `from` and the length, names a `c` when it lies
/// inside, and passes over no `c`.
pub proof fn lemma_index_of(s: Seq<char>, c: char, from: int)
    requires
        0 <= from <= s.len(),
    ensures
        from <= index_of(s, c, from) <= s.len(),
        index_of(s, c, from) < s.len() ==> s[index_of(s, c, from)] == c,
        forall|j: int| from <= j < index_of(s, c, from) ==> s[j] != c,
    decreases s.len() - from,
{
    if from < s.len() && s[from] != c {
        lemma_index_of(s, c, from + 1);
    }
}

/// Position of the first `c` in `v` at or after `from`, or the length of `v`.
pub fn find_char(v: &Vec<char>, c: char, from: usize) -> (r: usize)
    requires
        from <= v@.len(),
    ensures
        r == index_of(v@, c, from as int),
        from <= r <= v@.len(),
        r < v@.len() ==> v@[r as int] == c,
        forall|j: int| from <= j < r ==> v@[j] != c,
{
    let mut i: usize = from;
    while i < v.len()
        invariant
            from <= i <= v@.len(),
            index_of(v@, c, from as int) == index_of(v@, c, i as int),
            forall|j: int| from <= j < i ==> v@[j] != c,
        decreases v@.len() - i,
    {
        if v[i] == c {
            return i;
        }
        i += 1;
    }
    i
}

/// The line that starts at `start`: it runs to the next line feed, without
/// the carriage return that may stand before it, or to the end of the text.
pub open spec fn line_at(s: Seq<char>, start: int) -> Seq<char> {
    let e = index_of(s, '\n', start);
    if e < s.len() && start < e && s[e - 1] == '\r' {
        s.subrange(start, e - 1)
    } else {
        s.subrange(start, e)
    }
}

/// Where the line after the one at `start` starts.
pub open spec fn next_line(s: Seq<char>, start: int) -> int {
    let e = index_of(s, '\n', start);
    if e < s.len() {
        e + 1
    } else {
        e
    }
}

/// The two ends of the line of `v` that starts at `start`, and where the
/// next line starts.
pub fn line_range(v: &Vec<char>, start: usize) -> (r: (usize, usize))
    requires
        start <= v@.len(),
    ensures
        start <= r.0 <= r.1 <= v@.len(),
        v@.subrange(start as int, r.0 as int) == line_at(v@, start as int),
        r.1 == next_line(v@, start as int),
        start < v@.len() ==> r.1 > start,
{
    let n = v.len();
    let end = find_char(v, '\n', start);
    let next = if end < n {
        end + 1
    } else {
        end
    };
    let stop = if end < n && start < end && v[end - 1] == '\r' {
        end - 1
    } else {
        end
    };
    (stop, next)
}

/// Appends `v[from..to]` to `out`.
pub fn push_range(out: &mut String, v: &Vec<char>, from: usize, to: usize)
    requires
        from <= to <= v@.len(),
    ensures
        final(out)@ == old(out)@ + v@.subrange(from as int, to as int),
{
    let mut i: usize = from;
    assert(out@ =~= old(out)@ + v@.subrange(from as int, from as int));
    while i < to
        invariant
            from <= i <= to <= v@.len(),
            out@ == old(out)@ + v@.subrange(from as int, i as int),
        decreases to - i,
    {
        out.push(v[i]);
        i += 1;
        assert(out@ =~= old(out)@ + v@.subrange(from as int, i as int));
    }
}

/// Every line of a text from `start` on, each with two blanks in front,
/// joined by line feeds.
pub open spec fn indented(s: Seq<char>, start: int) -> Seq<char>
    decreases s.len() - start,
{
    if start < 0 || start >= s.len() {
        Seq::empty()
    } else {
        proof {
            lemma_index_of(s, '\n', start);
        }
        let next = next_line(s, start);
        "  "@ + line_at(s, start) + (if next < s.len() {
            "\n"@ + indented(s, next)
        } else {
            Seq::empty()
        })
    }
}

/// A text with two blanks in front of each of its lines.
pub fn indent(text: &str) -> (out: String)
    ensures
        out@ == indented(text@, 0),
{
    let v = chars_of(text);
    let n = v.len();
    let mut out = String::new();
    let mut start: usize = 0;
    assert(out@ + indented(v@, 0) =~= indented(v@, 0));
    while start < n
        invariant
            v@ == text@,
            n == v@.len(),
            start <= n,
            start < n && start == 0 ==> indented(v@, 0) == out@ + indented(v@, 0),
            start < n && start > 0 ==> indented(v@, 0) == out@ + "\n"@ + indented(v@, start as int),
            start >= n ==> indented(v@, 0) == out@,
        decreases n - start,
    {
        let ghost before = out@;
        let first = start == 0;
        if !first {
            out.append("\n");
        }
        let (stop, next) = line_range(&v, start);
        out.append("  ");
        push_range(&mut out, &v, start, stop);
        proof {
            let lead = if first {
                Seq::<char>::empty()
            } else {
                "\n"@
            };
            let line = "  "@ + line_at(v@, start as int);
            assert(out@ =~= before + lead + line);
            if next < n {
                assert(before + lead + (line + ("\n"@ + indented(v@, next as int))) =~= out@
                    + "\n"@ + indented(v@, next as int));
            } else {
                assert(before + lead + (line + Seq::<char>::empty()) =~= out@);
            }
            assert(before + lead + indented(v@, start as int) =~= before + lead + (line + (if next
                < n {
                "\n"@ + indented(v@, next as int)
            } else {
                Seq::empty()
            })));
            if first {
                assert(before + lead + indented(v@, 0) =~= before + indented(v@, 0));
            }
        }
        start = next;
    }
    out
}

/// Whether `v[from..to]` spells `word`.
pub fn range_is(v: &Vec<char>, from: usize, to: usize, word: &str) -> (r: bool)
    requires
        from <= to <= v@.len(),
    ensures
        r == (v@.subrange(from as int, to as int) == word@),
{
    let n = word.unicode_len();
    if to - from != n {
        return false;
    }
    let mut i: usize = 0;
    while i < n
        invariant
            from <= to <= v@.len(),
            n == word@.len(),
            to - from == n,
            i <= n,
            forall|j: int| 0 <= j < i ==> v@[from + j] == word@[j],
        decreases n - i,
    {
        if v[from + i] != word.get_char(i) {
            assert(v@.subrange(from as int, to as int)[i as int] != word@[i as int]);
            return false;
        }
        i += 1;
    }
    assert(v@.subrange(from as int, to as int) =~= word@);
    true
}

/// Whether `s` begins with `p`.
pub open spec fn has_prefix(s: Seq<char>, p: Seq<char>) -> bool {
    p.len() <= s.len() && s.subrange(0, p.len() as int) == p
}

/// Whether `v` begins with `word`.
pub fn starts_with(v: &Vec<char>, word: &str) -> (r: bool)
    ensures
        r == has_prefix(v@, word@),
{
    let n = word.unicode_len();
    if n > v.len() {
        return false;
    }
    range_is(v, 0, n, word)
}

/// White space as Unicode defines it.
pub open spec fn is_space(c: char) -> bool {
    let u = c as u32;
    (0x09 <= u <= 0x0d) || u == 0x20 || u == 0x85 || u == 0xa0 || u == 0x1680 || (0x2000 <= u
        <= 0x200a) || u == 0x2028 || u == 0x2029 || u == 0x202f || u == 0x205f || u == 0x3000
}

/// Whether `c` is white space.
pub fn space(c: char) -> (r: bool)
    ensures
        r == is_space(c),
{
    let u = c as u32;
    (0x09 <= u && u <= 0x0d) || u == 0x20 || u == 0x85 || u == 0xa0 || u == 0x1680 || (0x2000 <= u
        && u <= 0x200a) || u == 0x2028 || u == 0x2029 || u == 0x202f || u == 0x205f || u == 0x3000
}

/// Where the word that starts at `from` ends: at the first white space at or
/// after `from`, or at the end of the text.
pub open spec fn word_end(s: Seq<char>, from: int) -> int
    decreases s.len() - from,
{
    if from < 0 || from >= s.len() || is_space(s[from]) {
        from
    } else {
        word_end(s, from + 1)
    }
}

/// Where the word of `v` that starts at `from` ends.
pub fn find_space(v: &Vec<char>, from: usize) -> (r: usize)
    requires
        from <= v@.len(),
    ensures
        r == word_end(v@, from as int),
        from <= r <= v@.len(),
        r < v@.len() ==> is_space(v@[r as int]),
        forall|j: int| from <= j < r ==> !is_space(v@[j]),
{
    let mut i: usize = from;
    while i < v.len() && !space(v[i])
        invariant
            from <= i <= v@.len(),
            word_end(v@, from as int) == word_end(v@, i as int),
            forall|j: int| from <= j < i ==> !is_space(v@[j]),
        decreases v@.len() - i,
    {
        i += 1;
    }
    i
}

/// The first position of `v` at or after `from` that holds no white space,
/// or the length of `v`.
pub fn skip_spaces(v: &Vec<char>, from: usize) -> (r: usize)
    requires
        from <= v@.len(),
    ensures
        r == trim_start(v@, from as int, v@.len() as int),
        from <= r <= v@.len(),
        r < v@.len() ==> !is_space(v@[r as int]),
        forall|j: int| from <= j < r ==> is_space(v@[j]),
{
    let mut i: usize = from;
    while i < v.len() && space(v[i])
        invariant
            from <= i <= v@.len(),
            trim_start(v@, from as int, v@.len() as int) == trim_start(
                v@,
                i as int,
                v@.len() as int,
            ),
            forall|j: int| from <= j < i ==> is_space(v@[j]),
        decreases v@.len() - i,
    {
        i += 1;
    }
    i
}

/// Where the text of `s[from..to]` starts once white space is taken off its
/// front: the first position that holds no white space, or `to`.
pub open spec fn trim_start(s: Seq<char>, from: int, to: int) -> int
    decreases to - from,
{
    if from >= to || from < 0 || from >= s.len() || !is_space(s[from]) {
        from
    } else {
        trim_start(s, from + 1, to)
    }
}

/// Where the text of `s[from..to]` ends once white space is taken off its
/// back: one past the last position that holds no white space, or `from`.
pub open spec fn trim_end(s: Seq<char>, from: int, to: int) -> int
    decreases to - from,
{
    if to <= from || to > s.len() || to <= 0 || !is_space(s[to - 1]) {
        to
    } else {
        trim_end(s, from, to - 1)
    }
}

/// `s[from..to]` without the white space at its two ends.
pub open spec fn trimmed(s: Seq<char>, from: int, to: int) -> Seq<char> {
    let a = trim_start(s, from, to);
    s.subrange(a, trim_end(s, a, to))
}

/// The two ends of `v[from..to]` without the white space around it.
pub fn trim_range(v: &Vec<char>, from: usize, to: usize) -> (r: (usize, usize))
    requires
        from <= to <= v@.len(),
    ensures
        r.0 == trim_start(v@, from as int, to as int),
        r.1 == trim_end(v@, r.0 as int, to as int),
        from <= r.0 <= r.1 <= to,
        v@.subrange(r.0 as int, r.1 as int) == trimmed(v@, from as int, to as int),
{
    let mut a: usize = from;
    while a < to && space(v[a])
        invariant
            from <= a <= to <= v@.len(),
            trim_start(v@, from as int, to as int) == trim_start(v@, a as int, to as int),
        decreases to - a,
    {
        a += 1;
    }
    let mut b: usize = to;
    while b > a && space(v[b - 1])
        invariant
            a <= b <= to <= v@.len(),
            trim_end(v@, a as int, to as int) == trim_end(v@, a as int, b as int),
        decreases b - a,
    {
        b -= 1;
    }
    (a, b)
}

/// The digits of a number in base ten.
pub open spec fn decimal(n: nat) -> Seq<char>
    decreases n,
{
    if n < 10 {
        seq![(n + '0' as nat) as char]
    } else {
        decimal(n / 10).push((n % 10 + '0' as nat) as char)
    }
}

/// Calls `usize::to_string`, which writes the number in base ten, without a
/// sign and without leading zeros.
#[verifier::external_body]
pub(crate) fn decimal_string(n: usize) -> (s: String)
    ensures
        s@ == decimal(n as nat),
{
    n.to_string()
}

/// Whether every character is a decimal digit.
pub open spec fn all_digits(s: Seq<char>) -> bool {
    forall|i: int| 0 <= i < s.len() ==> '0' <= #[trigger] s[i] <= '9'
}

/// The number that a string of decimal digits spells.
pub open spec fn digits_value(s: Seq<char>) -> nat
    decreases s.len(),
{
    if s.len() == 0 {
        0
    } else {
        (digits_value(s.drop_last()) * 10 + (s.last() as int - '0' as int)) as nat
    }
}

/// The number that `s` spells as a `usize`: an optional `+`, then one or more
/// decimal digits and nothing else, with a value that fits.
pub open spec fn spec_parse_usize(s: Seq<char>) -> Option<usize> {
    let digits = if s.len() > 0 && s[0] == '+' {
        s.subrange(1, s.len() as int)
    } else {
        s
    };
    if digits.len() > 0 && all_digits(digits) && digits_value(digits) <= usize::MAX {
        Some(digits_value(digits) as usize)
    } else {
        None
    }
}

/// Calls `str::parse::<usize>`, which reads an optional `+` followed by
/// decimal digits and refuses anything else, an empty string and a number
/// that does not fit.
#[verifier::external_body]
pub(crate) fn parse_usize(s: &str) -> (r: Option<usize>)
    ensures
        r == spec_parse_usize(s@),
{
    s.parse::<usize>().ok()
}

/// Calls `std::str::from_utf8`, which gives the text that the bytes encode
/// exactly when they are valid UTF-8.
#[verifier::external_body]
pub(crate) fn utf8_str(bytes: &[u8]) -> (r: Option<&str>)
    ensures
        r is Some <==> valid_utf8(bytes@),
        r matches Some(s) ==> s@ == decode_utf8(bytes@),
{
    std::str::from_utf8(bytes).ok()
}

} // verus!
