//! Character-level helpers for string slices.
use vstd::prelude::*;
use vstd::string::{StrSliceExecFns, StringExecFns};

verus! {

/// Whether `needle` occurs in `hay` starting at position `i`.
pub open spec fn occurs_at(needle: Seq<char>, hay: Seq<char>, i: int) -> bool {
    &&& 0 <= i
    &&& i + needle.len() <= hay.len()
    &&& hay.subrange(i, i + needle.len()) == needle
}

/// Whether `needle` occurs in `hay` as a contiguous run of characters.
/// The empty sequence occurs in every sequence.
pub open spec fn is_substring(needle: Seq<char>, hay: Seq<char>) -> bool {
    exists|i: int| occurs_at(needle, hay, i)
}

/// The characters of a string slice, in order.
pub fn to_chars(s: &str) -> (v: Vec<char>)
    ensures
        v@ == s@,
{
    let mut v: Vec<char> = Vec::new();
    for c in it: s.chars()
        invariant
            v@ == it.seq().take(it.index()),
            it.seq() == s@,
    {
        v.push(c);
    }
    v
}

/// Whether `needle` stands in `hay` at position `start`.
fn matches_at(hay: &Vec<char>, needle: &Vec<char>, start: usize) -> (found: bool)
    requires
        start + needle@.len() <= hay@.len(),
    ensures
        found == occurs_at(needle@, hay@, start as int),
{
    let mut j: usize = 0;
    while j < needle.len()
        invariant
            j <= needle.len(),
            start + needle.len() <= hay.len(),
            forall|k: int| 0 <= k < j ==> hay@[start + k] == needle@[k],
        decreases needle.len() - j,
    {
        if hay[start + j] != needle[j] {
            proof {
                let window = hay@.subrange(start as int, start + needle@.len());
                assert(window[j as int] == hay@[start + j]);
            }
            return false;
        }
        j += 1;
    }
    assert(hay@.subrange(start as int, start + needle@.len()) =~= needle@);
    true
}

/// Whether two string slices hold the same characters.
pub fn str_eq(a: &str, b: &str) -> (same: bool)
    ensures
        same == (a@ == b@),
{
    let left = to_chars(a);
    let right = to_chars(b);
    if left.len() != right.len() {
        return false;
    }
    let same = matches_at(&left, &right, 0);
    assert(left@.subrange(0, left@.len() as int) =~= left@);
    same
}

/// Whether `needle` occurs in `hay`.
pub fn str_contains(hay: &str, needle: &str) -> (found: bool)
    ensures
        found == is_substring(needle@, hay@),
{
    let text = to_chars(hay);
    let pattern = to_chars(needle);
    let mut i: usize = 0;
    while i <= text.len() && text.len() - i >= pattern.len()
        invariant
            i <= text.len() + 1,
            text@ == hay@,
            pattern@ == needle@,
            forall|k: int| 0 <= k < i ==> !occurs_at(pattern@, text@, k),
        decreases text.len() + 1 - i,
    {
        if matches_at(&text, &pattern, i) {
            return true;
        }
        assert(pattern@.len() > 0) by {
            if pattern@.len() == 0 {
                assert(text@.subrange(i as int, i as int) =~= pattern@);
            }
        }
        i += 1;
    }
    false
}

/// The length of the longest prefix of `text` that holds no `sep`.
pub open spec fn run_length(text: Seq<char>, sep: char) -> nat
    decreases text.len(),
{
    if text.len() == 0 || text[0] == sep {
        0
    } else {
        1 + run_length(text.drop_first(), sep)
    }
}

/// The pieces of `text` between its separators. A separator ends a piece,
/// so that no empty piece follows the last separator, and the empty text
/// has no pieces.
pub open spec fn split_terminated(text: Seq<char>, sep: char) -> Seq<Seq<char>>
    decreases text.len(),
{
    if text.len() == 0 {
        Seq::empty()
    } else {
        let n = run_length(text, sep);
        if n >= text.len() {
            seq![text]
        } else {
            seq![text.take(n as int)] + split_terminated(text.skip(n as int + 1), sep)
        }
    }
}

/// `text` without the run of `c` that it starts with.
pub open spec fn trim_start(text: Seq<char>, c: char) -> Seq<char>
    decreases text.len(),
{
    if text.len() > 0 && text[0] == c {
        trim_start(text.drop_first(), c)
    } else {
        text
    }
}

/// `text` without the run of `c` that it ends with.
pub open spec fn trim_end(text: Seq<char>, c: char) -> Seq<char>
    decreases text.len(),
{
    if text.len() > 0 && text.last() == c {
        trim_end(text.drop_last(), c)
    } else {
        text
    }
}

/// `text` without the runs of `c` at its two ends.
pub open spec fn trim(text: Seq<char>, c: char) -> Seq<char> {
    trim_end(trim_start(text, c), c)
}

/// The characters of each of a list of string slices.
pub open spec fn lines_view(lines: Seq<&str>) -> Seq<Seq<char>> {
    lines.map_values(|line: &str| line@)
}

/// `run_length` is the position of the first separator, or the length of
/// a text without one.
proof fn lemma_run_length(text: Seq<char>, sep: char, j: int)
    requires
        0 <= j <= text.len(),
        forall|k: int| 0 <= k < j ==> text[k] != sep,
        j == text.len() || text[j] == sep,
    ensures
        run_length(text, sep) == j,
    decreases j,
{
    if j > 0 {
        let rest = text.drop_first();
        assert forall|k: int| 0 <= k < j - 1 implies rest[k] != sep by {
            assert(rest[k] == text[k + 1]);
        }
        lemma_run_length(rest, sep, j - 1);
    }
}

/// `trim_start` drops exactly the leading run of `c`.
proof fn lemma_trim_start(text: Seq<char>, c: char, j: int)
    requires
        0 <= j <= text.len(),
        forall|k: int| 0 <= k < j ==> text[k] == c,
        j == text.len() || text[j] != c,
    ensures
        trim_start(text, c) == text.skip(j),
    decreases j,
{
    if j > 0 {
        let rest = text.drop_first();
        assert forall|k: int| 0 <= k < j - 1 implies rest[k] == c by {
            assert(rest[k] == text[k + 1]);
        }
        lemma_trim_start(rest, c, j - 1);
        assert(rest.skip(j - 1) =~= text.skip(j));
    } else {
        assert(text.skip(0) =~= text);
    }
}

/// `trim_end` drops exactly the trailing run of `c`.
proof fn lemma_trim_end(text: Seq<char>, c: char, j: int)
    requires
        0 <= j <= text.len(),
        forall|k: int| j <= k < text.len() ==> text[k] == c,
        j == 0 || text[j - 1] != c,
    ensures
        trim_end(text, c) == text.take(j),
    decreases text.len() - j,
{
    if j < text.len() {
        let rest = text.drop_last();
        lemma_trim_end(rest, c, j);
        assert(rest.take(j) =~= text.take(j));
    } else {
        assert(text.take(j) =~= text);
    }
}

/// The lines of `text`: its pieces between line feeds, as `str`'s
/// `split_terminator` gives them.
pub fn split_lines<'a>(text: &'a str) -> (lines: Vec<&'a str>)
    ensures
        lines_view(lines@) == split_terminated(text@, '\n'),
{
    let chars = to_chars(text);
    let mut lines: Vec<&'a str> = Vec::new();
    let mut start: usize = 0;
    let mut i: usize = 0;
    proof {
        assert(text@.skip(0) =~= text@);
        assert(lines_view(lines@) =~= Seq::<Seq<char>>::empty());
    }
    while i < chars.len()
        invariant
            chars@ == text@,
            start <= i <= chars.len(),
            forall|k: int| start <= k < i ==> chars@[k] != '\n',
            split_terminated(text@, '\n') == lines_view(lines@) + split_terminated(
                text@.skip(start as int),
                '\n',
            ),
        decreases chars.len() - i,
    {
        if chars[i] == '\n' {
            let piece = text.substring_char(start, i);
            proof {
                let rest = text@.skip(start as int);
                assert forall|k: int| 0 <= k < i - start implies rest[k] != '\n' by {
                    assert(rest[k] == chars@[start + k]);
                }
                lemma_run_length(rest, '\n', i - start);
                assert(rest.take(i - start) =~= piece@);
                assert(rest.skip(i - start + 1) =~= text@.skip(i + 1));
                assert(lines_view(lines@.push(piece)) =~= lines_view(lines@) + seq![piece@]);
            }
            lines.push(piece);
            start = i + 1;
        }
        i += 1;
    }
    proof {
        let rest = text@.skip(start as int);
        assert forall|k: int| 0 <= k < rest.len() implies rest[k] != '\n' by {
            assert(rest[k] == chars@[start + k]);
        }
        lemma_run_length(rest, '\n', rest.len() as int);
    }
    if start < chars.len() {
        let piece = text.substring_char(start, chars.len());
        proof {
            assert(piece@ =~= text@.skip(start as int));
            assert(lines_view(lines@.push(piece)) =~= lines_view(lines@) + seq![piece@]);
        }
        lines.push(piece);
    }
    lines
}

/// `text` without the NUL characters at its two ends, as `str`'s
/// `trim_matches` gives it.
pub fn trim_nul<'a>(text: &'a str) -> (trimmed: &'a str)
    ensures
        trimmed@ == trim(text@, '\0'),
{
    let chars = to_chars(text);
    let mut start: usize = 0;
    while start < chars.len() && chars[start] == '\0'
        invariant
            start <= chars.len(),
            forall|k: int| 0 <= k < start ==> chars@[k] == '\0',
        decreases chars.len() - start,
    {
        start += 1;
    }
    let mut end: usize = chars.len();
    while end > start && chars[end - 1] == '\0'
        invariant
            start <= end <= chars.len(),
            forall|k: int| end <= k < chars.len() ==> chars@[k] == '\0',
        decreases end - start,
    {
        end -= 1;
    }
    let trimmed = text.substring_char(start, end);
    proof {
        lemma_trim_start(text@, '\0', start as int);
        let tail = text@.skip(start as int);
        assert forall|k: int| end - start <= k < tail.len() implies tail[k] == '\0' by {
            assert(tail[k] == chars@[start + k]);
        }
        lemma_trim_end(tail, '\0', end - start);
        assert(tail.take(end - start) =~= trimmed@);
    }
    trimmed
}

/// `text` without its occurrences of `c`.
pub open spec fn remove_char(text: Seq<char>, c: char) -> Seq<char>
    decreases text.len(),
{
    if text.len() == 0 {
        Seq::empty()
    } else if text.last() == c {
        remove_char(text.drop_last(), c)
    } else {
        remove_char(text.drop_last(), c).push(text.last())
    }
}

/// `text` without its double quotes.
pub fn strip_quotes(text: &str) -> (stripped: String)
    ensures
        stripped@ == remove_char(text@, '"'),
{
    let chars = to_chars(text);
    let mut stripped = String::new();
    let mut start: usize = 0;
    let mut i: usize = 0;
    proof {
        assert(text@.take(0) =~= Seq::<char>::empty());
        assert(stripped@ + text@.subrange(0, 0) =~= Seq::<char>::empty());
    }
    while i < chars.len()
        invariant
            chars@ == text@,
            start <= i <= chars.len(),
            stripped@ + text@.subrange(start as int, i as int) == remove_char(
                text@.take(i as int),
                '"',
            ),
        decreases chars.len() - i,
    {
        proof {
            let next = text@.take(i + 1);
            assert(next.drop_last() =~= text@.take(i as int));
            assert(next.last() == chars@[i as int]);
        }
        if chars[i] == '"' {
            let piece = text.substring_char(start, i);
            stripped.append(piece);
            start = i + 1;
            proof {
                assert(stripped@ + text@.subrange(start as int, start as int) =~= stripped@);
            }
        } else {
            proof {
                assert(text@.subrange(start as int, i + 1) =~= text@.subrange(
                    start as int,
                    i as int,
                ).push(chars@[i as int]));
                assert(stripped@ + text@.subrange(start as int, i as int).push(chars@[i as int])
                    =~= (stripped@ + text@.subrange(start as int, i as int)).push(
                    chars@[i as int],
                ));
            }
        }
        i += 1;
    }
    let piece = text.substring_char(start, chars.len());
    stripped.append(piece);
    proof {
        assert(text@.take(i as int) =~= text@);
    }
    stripped
}

/// The decimal digit of a number below ten.
pub open spec fn digit(d: nat) -> Seq<char> {
    "0123456789"@.subrange(d as int, d as int + 1)
}

/// The decimal numeral of `n`, without leading zeros.
pub open spec fn decimal(n: nat) -> Seq<char>
    decreases n,
{
    if n < 10 {
        digit(n)
    } else {
        decimal(n / 10) + digit(n % 10)
    }
}

/// The decimal numeral of `n`.
pub fn to_decimal(n: usize) -> (numeral: String)
    ensures
        numeral@ == decimal(n as nat),
    decreases n,
{
    proof {
        reveal_strlit("0123456789");
    }
    if n < 10 {
        String::from_str("0123456789".substring_char(n, n + 1))
    } else {
        let mut numeral = to_decimal(n / 10);
        numeral.append("0123456789".substring_char(n % 10, n % 10 + 1));
        numeral
    }
}

} // verus!
