//! Executable searching, splitting and trimming of string slices, each proved
//! against the text model.

use vstd::prelude::*;
use vstd::string::StrSliceExecFns;
use vstd::string::StringExecFns;
use crate::text::{
    after, before, decimal, digit, has_char, index_of, is_whitespace, lemma_index_of_unique,
    lemma_leading_whitespace_unique, lemma_lines_unfold, lemma_split_inclusive_unfold,
    lemma_trailing_whitespace_unique, lines, split_inclusive, strip_line_ending, texts, trim,
    trim_start,
};

verus! {

/// The characters of `s`, in order.
pub fn chars_of(s: &str) -> (chars: Vec<char>)
    ensures
        chars@ == s@,
{
    let mut chars: Vec<char> = Vec::new();
    for c in it: s.chars()
        invariant
            it.seq() == s@,
            chars@ == it.seq().take(it.index()),
    {
        chars.push(c);
    }
    chars
}

/// Whether `a` and `b` are the same text.
pub fn same_text(a: &str, b: &str) -> (same: bool)
    ensures
        same == (a@ == b@),
{
    String::from_str(a) == String::from_str(b)
}

/// Whether `c` is whitespace.
pub fn is_whitespace_char(c: char) -> (b: bool)
    ensures
        b == is_whitespace(c),
{
    let u: u32 = c as u32;
    (0x09 <= u && u <= 0x0D) || u == 0x20 || u == 0x85 || u == 0xA0 || u == 0x1680 || (0x2000 <= u
        && u <= 0x200A) || u == 0x2028 || u == 0x2029 || u == 0x202F || u == 0x205F || u == 0x3000
}

/// The position of the first `c` among `chars`, or their number if there is
/// none.
pub fn find_char(chars: &Vec<char>, c: char) -> (i: usize)
    ensures
        i == index_of(chars@, c),
        i <= chars.len(),
{
    let mut i: usize = 0;
    while i < chars.len() && chars[i] != c
        invariant
            i <= chars.len(),
            forall|j: int| 0 <= j < i ==> chars@[j] != c,
        decreases chars.len() - i,
    {
        i += 1;
    }
    proof {
        lemma_index_of_unique(chars@, c, i as int);
    }
    i
}

/// Cuts `s` at its first `c`: the parts before and after it, or `None` if
/// `c` does not occur.
pub fn split_at_char<'a>(s: &'a str, c: char) -> (parts: Option<(&'a str, &'a str)>)
    ensures
        parts is Some == has_char(s@, c),
        parts matches Some((head, tail)) ==> head@ == before(s@, c) && tail@ == after(s@, c),
{
    let chars = chars_of(s);
    let i = find_char(&chars, c);
    if i < chars.len() {
        let head = s.substring_char(0, i);
        let tail = s.substring_char(i + 1, chars.len());
        Some((head, tail))
    } else {
        None
    }
}

/// `s` without the whitespace at either end.
pub fn trim_str<'a>(s: &'a str) -> (trimmed: &'a str)
    ensures
        trimmed@ == trim(s@),
{
    let chars = chars_of(s);
    let n = chars.len();
    let mut start: usize = 0;
    while start < n && is_whitespace_char(chars[start])
        invariant
            start <= n,
            n == chars.len(),
            forall|j: int| 0 <= j < start ==> is_whitespace(chars@[j]),
        decreases n - start,
    {
        start += 1;
    }
    let mut end: usize = n;
    while end > start && is_whitespace_char(chars[end - 1])
        invariant
            start <= end <= n,
            n == chars.len(),
            forall|j: int| end <= j < n ==> is_whitespace(chars@[j]),
        decreases end,
    {
        end -= 1;
    }
    proof {
        lemma_leading_whitespace_unique(s@, start as int);
        let t = trim_start(s@);
        assert(t.len() == n - start);
        assert forall|j: int| t.len() - (n - end) <= j < t.len() implies is_whitespace(t[j]) by {
            assert(t[j] == s@[j + start]);
        }
        if n - end < t.len() {
            assert(t[t.len() - (n - end) - 1] == s@[end - 1]);
        }
        lemma_trailing_whitespace_unique(t, n - end);
        assert(trim(s@) =~= s@.subrange(start as int, end as int));
    }
    s.substring_char(start, end)
}

/// The pieces of `s` that end just after each `c`.
pub fn split_segments<'a>(s: &'a str, c: char) -> (pieces: Vec<&'a str>)
    ensures
        texts(pieces@) == split_inclusive(s@, c),
{
    let chars = chars_of(s);
    let n = chars.len();
    let mut pieces: Vec<&'a str> = Vec::new();
    let mut start: usize = 0;
    let mut i: usize = 0;
    assert(s@.skip(0) =~= s@);
    assert(texts(pieces@) =~= Seq::<Seq<char>>::empty());
    while i < n
        invariant
            start <= i <= n,
            n == chars.len(),
            chars@ == s@,
            forall|j: int| start <= j < i ==> chars@[j] != c,
            split_inclusive(s@, c) == texts(pieces@) + split_inclusive(s@.skip(start as int), c),
        decreases n - i,
    {
        if chars[i] == c {
            let piece = s.substring_char(start, i + 1);
            proof {
                let rest = s@.skip(start as int);
                lemma_index_of_unique(rest, c, i - start);
                lemma_split_inclusive_unfold(rest, c);
                assert(rest.take(i - start + 1) =~= piece@);
                assert(after(rest, c) =~= s@.skip(i + 1));
                assert(texts(pieces@.push(piece)) =~= texts(pieces@) + seq![piece@]);
            }
            pieces.push(piece);
            start = i + 1;
        }
        i += 1;
    }
    proof {
        let rest = s@.skip(start as int);
        lemma_index_of_unique(rest, c, rest.len() as int);
        lemma_split_inclusive_unfold(rest, c);
    }
    if start < n {
        let piece = s.substring_char(start, n);
        proof {
            assert(piece@ =~= s@.skip(start as int));
            assert(texts(pieces@.push(piece)) =~= texts(pieces@) + seq![piece@]);
        }
        pieces.push(piece);
    }
    pieces
}

/// The lines of `s`, without their terminators.
pub fn split_lines<'a>(s: &'a str) -> (found: Vec<&'a str>)
    ensures
        texts(found@) == lines(s@),
{
    let chars = chars_of(s);
    let n = chars.len();
    let mut found: Vec<&'a str> = Vec::new();
    let mut start: usize = 0;
    let mut i: usize = 0;
    assert(s@.skip(0) =~= s@);
    assert(texts(found@) =~= Seq::<Seq<char>>::empty());
    while i < n
        invariant
            start <= i <= n,
            n == chars.len(),
            chars@ == s@,
            forall|j: int| start <= j < i ==> chars@[j] != '\n',
            lines(s@) == texts(found@) + lines(s@.skip(start as int)),
        decreases n - i,
    {
        if chars[i] == '\n' {
            let end: usize = if i > start && chars[i - 1] == '\r' {
                i - 1
            } else {
                i
            };
            let line = s.substring_char(start, end);
            proof {
                let rest = s@.skip(start as int);
                lemma_index_of_unique(rest, '\n', i - start);
                lemma_lines_unfold(rest);
                let raw = rest.take(i - start + 1);
                assert(raw.last() == '\n');
                assert(raw.drop_last() =~= s@.subrange(start as int, i as int));
                if i > start {
                    assert(raw.drop_last().last() == chars@[i - 1]);
                }
                assert(strip_line_ending(raw) =~= line@);
                assert(after(rest, '\n') =~= s@.skip(i + 1));
                assert(texts(found@.push(line)) =~= texts(found@) + seq![line@]);
            }
            found.push(line);
            start = i + 1;
        }
        i += 1;
    }
    proof {
        let rest = s@.skip(start as int);
        lemma_index_of_unique(rest, '\n', rest.len() as int);
        lemma_lines_unfold(rest);
    }
    if start < n {
        let line = s.substring_char(start, n);
        proof {
            assert(line@ =~= s@.skip(start as int));
            assert(texts(found@.push(line)) =~= texts(found@) + seq![line@]);
        }
        found.push(line);
    }
    found
}

/// The string for one decimal digit.
fn digit_str(d: usize) -> (s: &'static str)
    requires
        d < 10,
    ensures
        s@ == seq![digit(d as nat)],
{
    proof {
        reveal_strlit("0");
        reveal_strlit("1");
        reveal_strlit("2");
        reveal_strlit("3");
        reveal_strlit("4");
        reveal_strlit("5");
        reveal_strlit("6");
        reveal_strlit("7");
        reveal_strlit("8");
        reveal_strlit("9");
    }
    let s = if d == 0 {
        "0"
    } else if d == 1 {
        "1"
    } else if d == 2 {
        "2"
    } else if d == 3 {
        "3"
    } else if d == 4 {
        "4"
    } else if d == 5 {
        "5"
    } else if d == 6 {
        "6"
    } else if d == 7 {
        "7"
    } else if d == 8 {
        "8"
    } else {
        "9"
    };
    assert(s@ =~= seq![digit(d as nat)]);
    s
}

/// `n` written in decimal.
pub fn decimal_string(n: usize) -> (s: String)
    ensures
        s@ == decimal(n as nat),
    decreases n,
{
    if n < 10 {
        String::from_str(digit_str(n))
    } else {
        let mut s = decimal_string(n / 10);
        s.append(digit_str(n % 10));
        assert(s@ =~= decimal(n as nat));
        s
    }
}

} // verus!
