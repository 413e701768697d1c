//! The text model: what it means to search, split and trim a sequence of
//! characters. Everything here is ghost code; `scan` holds the executable
//! counterparts.

use vstd::prelude::*;

verus! {

/// The position of the first `c` in `s`, or `s.len()` if there is none.
pub open spec fn index_of<A>(s: Seq<A>, c: A) -> int
    decreases s.len(),
{
    if s.len() == 0 || s[0] == c {
        0
    } else {
        1 + index_of(s.drop_first(), c)
    }
}

/// Whether `c` occurs in `s`.
pub open spec fn has_char(s: Seq<char>, c: char) -> bool {
    index_of(s, c) < s.len()
}

/// The part of `s` before the first `c` (all of `s` if there is none).
pub open spec fn before(s: Seq<char>, c: char) -> Seq<char> {
    s.take(index_of(s, c))
}

/// The part of `s` after the first `c` (empty if there is none).
pub open spec fn after(s: Seq<char>, c: char) -> Seq<char> {
    if has_char(s, c) {
        s.skip(index_of(s, c) + 1)
    } else {
        Seq::empty()
    }
}

/// The pieces of `s` between occurrences of `c`. There is always at least
/// one piece: splitting the empty text yields one empty piece.
pub open spec fn split(s: Seq<char>, c: char) -> Seq<Seq<char>>
    decreases s.len(),
{
    if has_char(s, c) {
        proof {
            lemma_index_of(s, c);
        }
        seq![before(s, c)] + split(after(s, c), c)
    } else {
        seq![s]
    }
}

/// The pieces of `s` that end just after each occurrence of `c`; each piece
/// but possibly the last ends in `c`. The empty text has no pieces.
pub open spec fn split_inclusive(s: Seq<char>, c: char) -> Seq<Seq<char>>
    decreases s.len(),
{
    if s.len() == 0 {
        Seq::empty()
    } else if has_char(s, c) {
        proof {
            lemma_index_of(s, c);
        }
        seq![s.take(index_of(s, c) + 1)] + split_inclusive(after(s, c), c)
    } else {
        seq![s]
    }
}

/// A line without its terminator: a final `\n` is removed, and then a `\r`
/// that stood before it. A lone `\r` at the end of an unterminated line stays.
pub open spec fn strip_line_ending(line: Seq<char>) -> Seq<char> {
    if line.len() > 0 && line.last() == '\n' {
        let rest = line.drop_last();
        if rest.len() > 0 && rest.last() == '\r' {
            rest.drop_last()
        } else {
            rest
        }
    } else {
        line
    }
}

/// The lines of `s`. Lines end at `\n` or `\r\n`; the terminator of the last
/// line is optional, so a text that ends in a terminator has the same lines
/// as the one without it.
pub open spec fn lines(s: Seq<char>) -> Seq<Seq<char>> {
    split_inclusive(s, '\n').map_values(|line: Seq<char>| strip_line_ending(line))
}

/// The characters with the Unicode `White_Space` property.
pub open spec fn is_whitespace(c: char) -> bool {
    let u = c as u32;
    ||| 0x09 <= u <= 0x0D
    ||| u == 0x20
    ||| u == 0x85
    ||| u == 0xA0
    ||| u == 0x1680
    ||| 0x2000 <= u <= 0x200A
    ||| u == 0x2028
    ||| u == 0x2029
    ||| u == 0x202F
    ||| u == 0x205F
    ||| u == 0x3000
}

/// How many characters of whitespace `s` starts with.
pub open spec fn leading_whitespace(s: Seq<char>) -> int
    decreases s.len(),
{
    if s.len() == 0 || !is_whitespace(s[0]) {
        0
    } else {
        1 + leading_whitespace(s.drop_first())
    }
}

/// How many characters of whitespace `s` ends with.
pub open spec fn trailing_whitespace(s: Seq<char>) -> int
    decreases s.len(),
{
    if s.len() == 0 || !is_whitespace(s.last()) {
        0
    } else {
        1 + trailing_whitespace(s.drop_last())
    }
}

/// `s` without the whitespace at its start.
pub open spec fn trim_start(s: Seq<char>) -> Seq<char> {
    s.skip(leading_whitespace(s))
}

/// `s` without the whitespace at its end.
pub open spec fn trim_end(s: Seq<char>) -> Seq<char> {
    s.take(s.len() - trailing_whitespace(s))
}

/// `s` without the whitespace at either end.
pub open spec fn trim(s: Seq<char>) -> Seq<char> {
    trim_end(trim_start(s))
}

/// `s` neither starts nor ends with whitespace.
pub open spec fn is_trimmed(s: Seq<char>) -> bool {
    s.len() > 0 ==> !is_whitespace(s[0]) && !is_whitespace(s.last())
}

/// The decimal digit for `d`.
pub open spec fn digit(d: nat) -> char
    recommends
        d < 10,
{
    if d == 0 {
        '0'
    } else if d == 1 {
        '1'
    } else if d == 2 {
        '2'
    } else if d == 3 {
        '3'
    } else if d == 4 {
        '4'
    } else if d == 5 {
        '5'
    } else if d == 6 {
        '6'
    } else if d == 7 {
        '7'
    } else if d == 8 {
        '8'
    } else {
        '9'
    }
}

/// `n` written in decimal, without leading zeros.
pub open spec fn decimal(n: nat) -> Seq<char>
    decreases n,
{
    if n < 10 {
        seq![digit(n)]
    } else {
        decimal(n / 10).push(digit(n % 10))
    }
}

/// `index_of` lies within the text; nothing before it is `c`, and what
/// stands at it, if anything, is `c`.
pub proof fn lemma_index_of<A>(s: Seq<A>, c: A)
    ensures
        0 <= index_of(s, c) <= s.len(),
        forall|j: int| 0 <= j < index_of(s, c) ==> s[j] != c,
        index_of(s, c) < s.len() ==> s[index_of(s, c)] == c,
    decreases s.len(),
{
    if s.len() == 0 || s[0] == c {
    } else {
        let rest = s.drop_first();
        lemma_index_of(rest, c);
        assert forall|j: int| 0 <= j < index_of(s, c) implies s[j] != c by {
            if j > 0 {
                assert(s[j] == rest[j - 1]);
            }
        }
        if index_of(rest, c) < rest.len() {
            assert(rest[index_of(rest, c)] == s[index_of(rest, c) + 1]);
        }
    }
}

/// A position is `index_of` as soon as no `c` stands before it and it is
/// either the end of the text or holds a `c`.
pub proof fn lemma_index_of_unique<A>(s: Seq<A>, c: A, i: int)
    requires
        0 <= i <= s.len(),
        forall|j: int| 0 <= j < i ==> s[j] != c,
        i < s.len() ==> s[i] == c,
    ensures
        index_of(s, c) == i,
{
    lemma_index_of(s, c);
    let k = index_of(s, c);
    if k < i {
        assert(s[k] != c);
    } else if i < k {
        assert(s[i] != c);
    }
}

/// `leading_whitespace` lies within the text; everything before it is
/// whitespace, and what stands at it, if anything, is not.
pub proof fn lemma_leading_whitespace(s: Seq<char>)
    ensures
        0 <= leading_whitespace(s) <= s.len(),
        forall|j: int| 0 <= j < leading_whitespace(s) ==> is_whitespace(s[j]),
        leading_whitespace(s) < s.len() ==> !is_whitespace(s[leading_whitespace(s)]),
    decreases s.len(),
{
    if s.len() == 0 || !is_whitespace(s[0]) {
    } else {
        let rest = s.drop_first();
        lemma_leading_whitespace(rest);
        assert forall|j: int| 0 <= j < leading_whitespace(s) implies is_whitespace(s[j]) by {
            if j > 0 {
                assert(s[j] == rest[j - 1]);
            }
        }
        if leading_whitespace(rest) < rest.len() {
            assert(rest[leading_whitespace(rest)] == s[leading_whitespace(rest) + 1]);
        }
    }
}

/// A position is `leading_whitespace` as soon as everything before it is
/// whitespace and it is either the end of the text or holds something else.
pub proof fn lemma_leading_whitespace_unique(s: Seq<char>, i: int)
    requires
        0 <= i <= s.len(),
        forall|j: int| 0 <= j < i ==> is_whitespace(s[j]),
        i < s.len() ==> !is_whitespace(s[i]),
    ensures
        leading_whitespace(s) == i,
{
    lemma_leading_whitespace(s);
    let k = leading_whitespace(s);
    if k < i {
        assert(is_whitespace(s[k]));
    } else if i < k {
        assert(is_whitespace(s[i]));
    }
}

/// `trailing_whitespace` is at most the length; the characters it counts are
/// whitespace, and the one before them, if any, is not.
pub proof fn lemma_trailing_whitespace(s: Seq<char>)
    ensures
        0 <= trailing_whitespace(s) <= s.len(),
        forall|j: int| s.len() - trailing_whitespace(s) <= j < s.len() ==> is_whitespace(s[j]),
        trailing_whitespace(s) < s.len() ==> !is_whitespace(
            s[s.len() - trailing_whitespace(s) - 1],
        ),
    decreases s.len(),
{
    if s.len() == 0 || !is_whitespace(s.last()) {
    } else {
        let rest = s.drop_last();
        lemma_trailing_whitespace(rest);
        assert forall|j: int| s.len() - trailing_whitespace(s) <= j < s.len() implies is_whitespace(
            s[j],
        ) by {
            if j < s.len() - 1 {
                assert(s[j] == rest[j]);
            }
        }
        if trailing_whitespace(s) < s.len() {
            assert(rest[rest.len() - trailing_whitespace(rest) - 1] == s[s.len()
                - trailing_whitespace(s) - 1]);
        }
    }
}

/// A count is `trailing_whitespace` as soon as the characters it covers are
/// whitespace and the one before them, if any, is not.
pub proof fn lemma_trailing_whitespace_unique(s: Seq<char>, k: int)
    requires
        0 <= k <= s.len(),
        forall|j: int| s.len() - k <= j < s.len() ==> is_whitespace(s[j]),
        k < s.len() ==> !is_whitespace(s[s.len() - k - 1]),
    ensures
        trailing_whitespace(s) == k,
{
    lemma_trailing_whitespace(s);
    let t = trailing_whitespace(s);
    if t < k {
        assert(is_whitespace(s[s.len() - t - 1]));
    } else if k < t {
        assert(is_whitespace(s[s.len() - k - 1]));
    }
}

/// Trimming yields a trimmed text, and leaves a trimmed text as it is.
pub proof fn lemma_trim(s: Seq<char>)
    ensures
        is_trimmed(trim(s)),
        is_trimmed(s) ==> trim(s) == s,
{
    lemma_leading_whitespace(s);
    let t = trim_start(s);
    lemma_trailing_whitespace(t);
    let r = trim(s);
    if r.len() > 0 {
        assert(r[0] == t[0]);
        assert(t[0] == s[leading_whitespace(s)]);
        assert(r.last() == t[t.len() - trailing_whitespace(t) - 1]);
    }
    if is_trimmed(s) {
        assert(t =~= s);
        assert(r =~= s);
    }
}

/// The views of a list of string slices.
pub open spec fn texts(pieces: Seq<&str>) -> Seq<Seq<char>> {
    pieces.map_values(|piece: &str| piece@)
}

/// How `split` proceeds from its first piece.
pub proof fn lemma_split_unfold(s: Seq<char>, c: char)
    ensures
        split(s, c).len() >= 1,
        split(s, c)[0] == before(s, c),
        has_char(s, c) ==> split(s, c).skip(1) == split(after(s, c), c),
        !has_char(s, c) ==> split(s, c).len() == 1,
        has_char(s, c) ==> split(s, c).len() == 1 + split(after(s, c), c).len(),
{
    lemma_index_of(s, c);
    if has_char(s, c) {
        assert(split(s, c).skip(1) =~= split(after(s, c), c));
    } else {
        assert(before(s, c) =~= s);
    }
}

/// How `split_inclusive` proceeds from its first piece.
pub proof fn lemma_split_inclusive_unfold(s: Seq<char>, c: char)
    ensures
        s.len() == 0 ==> split_inclusive(s, c) == Seq::<Seq<char>>::empty(),
        has_char(s, c) ==> split_inclusive(s, c) == seq![s.take(index_of(s, c) + 1)]
            + split_inclusive(after(s, c), c),
        s.len() > 0 && !has_char(s, c) ==> split_inclusive(s, c) == seq![s],
{
}

/// How `lines` proceeds from its first line.
pub proof fn lemma_lines_unfold(s: Seq<char>)
    ensures
        s.len() == 0 ==> lines(s) == Seq::<Seq<char>>::empty(),
        has_char(s, '\n') ==> lines(s) == seq![strip_line_ending(s.take(index_of(s, '\n') + 1))]
            + lines(after(s, '\n')),
        s.len() > 0 && !has_char(s, '\n') ==> lines(s) == seq![s],
{
    lemma_index_of(s, '\n');
    if s.len() == 0 {
        assert(lines(s) =~= Seq::<Seq<char>>::empty());
    } else if has_char(s, '\n') {
        assert(lines(s) =~= seq![strip_line_ending(s.take(index_of(s, '\n') + 1))] + lines(
            after(s, '\n'),
        ));
    } else {
        assert(s.last() != '\n');
        assert(lines(s) =~= seq![s]);
    }
}

} // verus!
