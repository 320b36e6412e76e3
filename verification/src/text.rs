//! Text as sequences of characters: trimming, cutting into lines, blocks and
//! words, prefixes, replacement and decimal numbers.

use vstd::prelude::*;
use vstd::utf8::{decode_utf8, valid_utf8};

verus! {

broadcast use vstd::string::group_string_axioms;

/// `String::push` of std: the character is appended to the end of the string.
pub assume_specification[ String::push ](s: &mut String, c: char)
    ensures
        final(s)@ == old(s)@.push(c),
;

/// The text that bytes are read as when what is not UTF-8 is replaced.
pub uninterp spec fn lossy_text(bytes: Seq<u8>) -> Seq<char>;

/// `String::from_utf8_lossy` of std: bytes that are UTF-8 are decoded as such;
/// for all others the result is a function of the bytes alone, whose
/// replacement characters are not spelled out here.
#[verifier::external_body]
pub(crate) fn decode_lossy(bytes: &[u8]) -> (res: String)
    ensures
        res@ == lossy_text(bytes@),
        valid_utf8(bytes@) ==> res@ == decode_utf8(bytes@),
{
    String::from_utf8_lossy(bytes).into_owned()
}

/// The characters with the White_Space property of Unicode.
pub open spec fn is_space(c: char) -> bool {
    ||| '\u{9}' <= c <= '\u{d}'
    ||| c == ' '
    ||| c == '\u{85}'
    ||| c == '\u{a0}'
    ||| c == '\u{1680}'
    ||| '\u{2000}' <= c <= '\u{200a}'
    ||| c == '\u{2028}'
    ||| c == '\u{2029}'
    ||| c == '\u{202f}'
    ||| c == '\u{205f}'
    ||| c == '\u{3000}'
}

pub fn is_white_space(c: char) -> (res: bool)
    ensures
        res == is_space(c),
{
    ('\u{9}' <= c && c <= '\u{d}') || c == ' ' || c == '\u{85}' || c == '\u{a0}' || c == '\u{1680}'
        || ('\u{2000}' <= c && c <= '\u{200a}') || c == '\u{2028}' || c == '\u{2029}' || c
        == '\u{202f}' || c == '\u{205f}' || c == '\u{3000}'
}

/// The characters of a text, one by one.
pub(crate) fn chars_of(s: &str) -> (res: Vec<char>)
    ensures
        res@ == s@,
{
    let mut res: Vec<char> = Vec::new();
    for c in it: s.chars()
        invariant
            it.seq() == s@,
            res@ == s@.take(it.index() as int),
    {
        res.push(c);
    }
    res
}

/// The characters from `from` up to `to`, as a text of their own.
pub(crate) fn slice_of(chars: &Vec<char>, from: usize, to: usize) -> (res: String)
    requires
        from <= to <= chars@.len(),
    ensures
        res@ == chars@.subrange(from as int, to as int),
{
    let mut res = String::new();
    let mut i: usize = from;
    while i < to
        invariant
            from <= i <= to <= chars@.len(),
            res@ == chars@.subrange(from as int, i as int),
        decreases to - i,
    {
        res.push(chars[i]);
        i += 1;
    }
    res
}

/// Two texts, one after the other.
pub fn cat(first: &str, second: &str) -> (res: String)
    ensures
        res@ == first@ + second@,
{
    let mut res = first.to_owned();
    res.append(second);
    res
}

pub fn same_text(a: &str, b: &str) -> (res: bool)
    ensures
        res == (a@ == b@),
{
    let x = a.to_owned();
    let y = b.to_owned();
    x == y
}

/// What is left of a text behind the white space at its start.
pub open spec fn trimmed_start(s: Seq<char>) -> Seq<char>
    decreases s.len(),
{
    if s.len() > 0 && is_space(s.first()) {
        trimmed_start(s.drop_first())
    } else {
        s
    }
}

/// What is left of a text before the white space at its end.
pub open spec fn trimmed_end(s: Seq<char>) -> Seq<char>
    decreases s.len(),
{
    if s.len() > 0 && is_space(s.last()) {
        trimmed_end(s.drop_last())
    } else {
        s
    }
}

/// A text without the white space at its start and its end.
pub open spec fn trimmed(s: Seq<char>) -> Seq<char> {
    trimmed_end(trimmed_start(s))
}

pub fn trim(s: &str) -> (res: String)
    ensures
        res@ == trimmed(s@),
{
    let chars = chars_of(s);
    let mut from: usize = 0;
    proof {
        assert(s@.skip(0) == s@);
    }
    while from < chars.len() && is_white_space(chars[from])
        invariant
            chars@ == s@,
            from <= chars@.len(),
            trimmed_start(s@) == trimmed_start(s@.skip(from as int)),
        decreases chars@.len() - from,
    {
        proof {
            assert(s@.skip(from as int).drop_first() == s@.skip(from + 1));
        }
        from += 1;
    }
    let mut to: usize = chars.len();
    let ghost rest = s@.skip(from as int);
    proof {
        assert(rest == s@.subrange(from as int, to as int));
    }
    while from < to && is_white_space(chars[to - 1])
        invariant
            chars@ == s@,
            from <= to <= chars@.len(),
            trimmed_end(rest) == trimmed_end(s@.subrange(from as int, to as int)),
        decreases to - from,
    {
        proof {
            assert(s@.subrange(from as int, to as int).drop_last() == s@.subrange(
                from as int,
                to - 1,
            ));
        }
        to -= 1;
    }
    slice_of(&chars, from, to)
}

/// What follows `prefix` in `s`, if `s` starts with it.
pub open spec fn after_prefix(s: Seq<char>, prefix: Seq<char>) -> Option<Seq<char>> {
    if prefix.is_prefix_of(s) {
        Some(s.skip(prefix.len() as int))
    } else {
        None
    }
}

pub fn strip_prefix(s: &str, prefix: &str) -> (res: Option<String>)
    ensures
        res.deep_view() == after_prefix(s@, prefix@),
{
    let chars = chars_of(s);
    let wanted = chars_of(prefix);
    if wanted.len() > chars.len() {
        return None;
    }
    let mut i: usize = 0;
    while i < wanted.len()
        invariant
            chars@ == s@,
            wanted@ == prefix@,
            i <= wanted@.len() <= chars@.len(),
            wanted@.take(i as int) == chars@.take(i as int),
        decreases wanted@.len() - i,
    {
        if wanted[i] != chars[i] {
            proof {
                assert(prefix@[i as int] != s@.subrange(0, prefix@.len() as int)[i as int]);
            }
            return None;
        }
        i += 1;
    }
    proof {
        assert(prefix@ == s@.subrange(0, prefix@.len() as int));
    }
    Some(slice_of(&chars, wanted.len(), chars.len()))
}

/// The position of the first `c` in `s`, or the length of `s` if it has none.
pub open spec fn position_of(s: Seq<char>, c: char) -> int
    decreases s.len(),
{
    if s.len() == 0 || s.first() == c {
        0
    } else {
        1 + position_of(s.drop_first(), c)
    }
}

proof fn lemma_position_of(s: Seq<char>, c: char, at: int)
    requires
        0 <= at <= s.len(),
        forall|i: int| 0 <= i < at ==> s[i] != c,
        at < s.len() ==> s[at] == c,
    ensures
        position_of(s, c) == at,
    decreases s.len(),
{
    if at > 0 {
        lemma_position_of(s.drop_first(), c, at - 1);
    }
}

pub proof fn lemma_position_of_bounds(s: Seq<char>, c: char)
    ensures
        0 <= position_of(s, c) <= s.len(),
        forall|i: int| 0 <= i < position_of(s, c) ==> s[i] != c,
        position_of(s, c) < s.len() ==> s[position_of(s, c)] == c,
    decreases s.len(),
{
    if s.len() > 0 && s.first() != c {
        let rest = s.drop_first();
        lemma_position_of_bounds(rest, c);
        assert forall|i: int| 0 <= i < position_of(s, c) implies s[i] != c by {
            if i > 0 {
                assert(s[i] == rest[i - 1]);
            }
        }
    }
}

/// A line that a line feed ended, without the carriage return before it.
pub open spec fn without_return(s: Seq<char>) -> Seq<char> {
    if s.len() > 0 && s.last() == '\r' {
        s.drop_last()
    } else {
        s
    }
}

/// The lines of a text. A line ends at a line feed, with or without a carriage
/// return before it; behind the last line feed there is a line only if there is
/// text.
pub open spec fn lines_of(s: Seq<char>) -> Seq<Seq<char>>
    decreases s.len(),
{
    let at = position_of(s, '\n');
    if s.len() == 0 {
        seq![]
    } else if at == s.len() {
        seq![s]
    } else {
        proof {
            lemma_position_of_bounds(s, '\n');
        }
        seq![without_return(s.take(at))] + lines_of(s.skip(at + 1))
    }
}

pub fn lines(s: &str) -> (res: Vec<String>)
    ensures
        res.deep_view() == lines_of(s@),
{
    let chars = chars_of(s);
    let mut res: Vec<String> = Vec::new();
    let mut start: usize = 0;
    let mut i: usize = 0;
    proof {
        assert(s@.skip(0) == s@);
        assert(res.deep_view() + lines_of(s@) == lines_of(s@));
    }
    while i < chars.len()
        invariant
            chars@ == s@,
            start <= i <= chars@.len(),
            forall|k: int| start <= k < i ==> chars@[k] != '\n',
            lines_of(s@) == res.deep_view() + lines_of(s@.skip(start as int)),
        decreases chars@.len() - i,
    {
        if chars[i] == '\n' {
            let ghost before = res.deep_view();
            let ghost rest = s@.skip(start as int);
            let end: usize = if start < i && chars[i - 1] == '\r' {
                i - 1
            } else {
                i
            };
            let line = slice_of(&chars, start, end);
            proof {
                lemma_position_of(rest, '\n', i - start);
                let whole = rest.take(i - start);
                assert(whole == s@.subrange(start as int, i as int));
                if start < i {
                    assert(whole.last() == chars@[i - 1]);
                    assert(whole.drop_last() == s@.subrange(start as int, i - 1));
                }
                assert(line@ == without_return(whole));
                assert(rest.skip(i - start + 1) == s@.skip(i + 1));
            }
            res.push(line);
            proof {
                assert(res.deep_view() == before.push(line@));
                assert(before + (seq![line@] + lines_of(s@.skip(i + 1))) == res.deep_view()
                    + lines_of(s@.skip(i + 1)));
            }
            start = i + 1;
        }
        i += 1;
    }
    let ghost before = res.deep_view();
    let ghost rest = s@.skip(start as int);
    proof {
        lemma_position_of(rest, '\n', rest.len() as int);
    }
    if start < chars.len() {
        let line = slice_of(&chars, start, chars.len());
        res.push(line);
        proof {
            assert(line@ == rest);
            assert(res.deep_view() == before.push(rest));
        }
    }
    res
}

/// A line that is ended by a line feed comes before the lines that follow it.
pub proof fn law_first_line(line: Seq<char>, rest: Seq<char>)
    requires
        !line.contains('\n'),
    ensures
        lines_of(line.push('\n') + rest) == seq![without_return(line)] + lines_of(rest),
{
    let s = line.push('\n') + rest;
    let at = line.len() as int;
    assert forall|i: int| 0 <= i < at implies s[i] != '\n' by {
        assert(line.contains(line[i]));
    }
    lemma_position_of(s, '\n', at);
    assert(s.take(at) == line);
    assert(s.skip(at + 1) == rest);
}

/// The carriage return at the end of a line that a line feed ended is no part of
/// it; every other line is kept as it is.
pub proof fn law_line_ends(line: Seq<char>, rest: Seq<char>)
    requires
        !line.contains('\n'),
    ensures
        lines_of(line.push('\r').push('\n') + rest) == seq![line] + lines_of(rest),
        line.len() == 0 || line.last() != '\r' ==> lines_of(line.push('\n') + rest) == seq![line]
            + lines_of(rest),
        lines_of(Seq::<char>::empty()).len() == 0,
{
    let returned = line.push('\r');
    assert forall|i: int| 0 <= i < returned.len() implies returned[i] != '\n' by {
        if i < line.len() {
            assert(line.contains(line[i]));
        }
    }
    law_first_line(returned, rest);
    assert(returned.drop_last() == line);
    law_first_line(line, rest);
}

/// Text without a line feed is a line of its own.
pub proof fn law_last_line(line: Seq<char>)
    requires
        line.len() > 0,
        !line.contains('\n'),
    ensures
        lines_of(line) == seq![line],
{
    assert forall|i: int| 0 <= i < line.len() implies line[i] != '\n' by {
        assert(line.contains(line[i]));
    }
    lemma_position_of(line, '\n', line.len() as int);
}

/// The position of the first blank line of a text, that is of two line feeds in
/// a row, or the length of the text if it has none.
pub open spec fn blank_line_in(s: Seq<char>) -> int
    decreases s.len(),
{
    if s.len() < 2 {
        s.len() as int
    } else if s[0] == '\n' && s[1] == '\n' {
        0
    } else {
        1 + blank_line_in(s.drop_first())
    }
}

proof fn lemma_blank_line_in(s: Seq<char>, at: int)
    requires
        0 <= at <= s.len(),
        forall|i: int| 0 <= i < at && i + 1 < s.len() ==> !(s[i] == '\n' && #[trigger] s[i + 1] == '\n'),
        at < s.len() ==> at + 1 < s.len() && s[at] == '\n' && s[at + 1] == '\n',
    ensures
        blank_line_in(s) == at,
    decreases s.len(),
{
    if s.len() >= 2 && at > 0 {
        assert(!(s[0] == '\n' && s[0int + 1] == '\n'));
        let rest = s.drop_first();
        assert forall|i: int| 0 <= i < at - 1 && i + 1 < rest.len() implies !(rest[i] == '\n'
            && #[trigger] rest[i + 1] == '\n') by {
            assert(s[i + 1 + 1] == rest[i + 1]);
        }
        lemma_blank_line_in(rest, at - 1);
    }
}

pub proof fn lemma_blank_line_in_bounds(s: Seq<char>)
    ensures
        0 <= blank_line_in(s) <= s.len(),
        blank_line_in(s) < s.len() ==> blank_line_in(s) + 1 < s.len(),
    decreases s.len(),
{
    if s.len() >= 2 {
        lemma_blank_line_in_bounds(s.drop_first());
    }
}

/// The parts into which the blank lines cut a text, from the left. Empty parts
/// count.
pub open spec fn blocks_of(s: Seq<char>) -> Seq<Seq<char>>
    decreases s.len(),
{
    let at = blank_line_in(s);
    if at == s.len() {
        seq![s]
    } else {
        proof {
            lemma_blank_line_in_bounds(s);
        }
        seq![s.take(at)] + blocks_of(s.skip(at + 2))
    }
}

pub fn blocks(s: &str) -> (res: Vec<String>)
    ensures
        res.deep_view() == blocks_of(s@),
{
    let chars = chars_of(s);
    let mut res: Vec<String> = Vec::new();
    let mut start: usize = 0;
    let mut i: usize = 0;
    proof {
        assert(s@.skip(0) == s@);
        assert(res.deep_view() + blocks_of(s@) == blocks_of(s@));
    }
    while i < chars.len()
        invariant
            chars@ == s@,
            start <= i <= chars@.len(),
            forall|k: int|
                start <= k < i && k + 1 < chars@.len() ==> !(chars@[k] == '\n' && #[trigger] chars@[k
                    + 1] == '\n'),
            blocks_of(s@) == res.deep_view() + blocks_of(s@.skip(start as int)),
        decreases chars@.len() - i,
    {
        if chars[i] == '\n' && i + 1 < chars.len() && chars[i + 1] == '\n' {
            let ghost before = res.deep_view();
            let ghost rest = s@.skip(start as int);
            let block = slice_of(&chars, start, i);
            proof {
                assert forall|k: int| 0 <= k < i - start && k + 1 < rest.len() implies !(rest[k]
                    == '\n' && #[trigger] rest[k + 1] == '\n') by {
                    assert(chars@[start + k + 1] == rest[k + 1]);
                }
                lemma_blank_line_in(rest, i - start);
                assert(block@ == rest.take(i - start));
                assert(rest.skip(i - start + 2) == s@.skip(i + 2));
            }
            res.push(block);
            proof {
                assert(res.deep_view() == before.push(block@));
                assert(before + (seq![block@] + blocks_of(s@.skip(i + 2))) == res.deep_view()
                    + blocks_of(s@.skip(i + 2)));
            }
            i += 2;
            start = i;
        } else {
            i += 1;
        }
    }
    let ghost before = res.deep_view();
    let block = slice_of(&chars, start, chars.len());
    res.push(block);
    proof {
        let rest = s@.skip(start as int);
        assert forall|k: int| 0 <= k < rest.len() && k + 1 < rest.len() implies !(rest[k] == '\n'
            && #[trigger] rest[k + 1] == '\n') by {
            assert(chars@[start + k + 1] == rest[k + 1]);
        }
        lemma_blank_line_in(rest, rest.len() as int);
        assert(block@ == rest);
        assert(res.deep_view() == before.push(rest));
    }
    res
}

/// Whether a text has no blank line inside.
pub open spec fn is_gapless(s: Seq<char>) -> bool {
    forall|i: int| 0 <= i < s.len() - 1 ==> !(s[i] == '\n' && #[trigger] s[i + 1] == '\n')
}

/// A block that is ended by a blank line comes before the blocks that follow it.
pub proof fn law_first_block(block: Seq<char>, rest: Seq<char>)
    requires
        is_gapless(block),
        block.len() > 0 ==> block.last() != '\n',
    ensures
        blocks_of(block.push('\n').push('\n') + rest) == seq![block] + blocks_of(rest),
{
    let s = block.push('\n').push('\n') + rest;
    let at = block.len() as int;
    assert forall|i: int| 0 <= i < at && i + 1 < s.len() implies !(s[i] == '\n'
        && #[trigger] s[i + 1] == '\n') by {
        if i + 1 < at {
            assert(block[i + 1] == s[i + 1]);
        } else {
            assert(s[i] == block.last());
        }
    }
    assert(s[at + 1] == '\n');
    lemma_blank_line_in(s, at);
    assert(s.take(at) == block);
    assert(s.skip(at + 2) == rest);
}

/// A text without a blank line is a block of its own.
pub proof fn law_last_block(s: Seq<char>)
    requires
        is_gapless(s),
    ensures
        blocks_of(s) == seq![s],
{
    assert forall|i: int| 0 <= i < s.len() && i + 1 < s.len() implies !(s[i] == '\n'
        && #[trigger] s[i + 1] == '\n') by {}
    lemma_blank_line_in(s, s.len() as int);
}

/// Trimming takes white space from both ends of a text, all of it, and nothing
/// else.
pub proof fn law_trim_exact(s: Seq<char>)
    ensures
        exists|from: int, to: int|
            {
                &&& 0 <= from <= to <= s.len()
                &&& trimmed(s) == #[trigger] s.subrange(from, to)
                &&& forall|i: int| 0 <= i < from || to <= i < s.len() ==> is_space(#[trigger] s[i])
            },
        trimmed(s).len() > 0 ==> !is_space(trimmed(s).first()) && !is_space(trimmed(s).last()),
{
    let from = lemma_trim_start(s);
    let rest = s.skip(from);
    let to = lemma_trim_end(rest);
    assert(s.subrange(from, from + to) == rest.take(to));
    assert forall|i: int| 0 <= i < from || from + to <= i < s.len() implies is_space(
        #[trigger] s[i],
    ) by {
        if i >= from + to {
            assert(s[i] == rest[i - from]);
        }
    }
    if to > 0 {
        assert(rest.take(to).first() == rest.first());
    }
}

proof fn lemma_trim_start(s: Seq<char>) -> (from: int)
    ensures
        0 <= from <= s.len(),
        trimmed_start(s) == s.skip(from),
        forall|i: int| 0 <= i < from ==> is_space(#[trigger] s[i]),
        from < s.len() ==> !is_space(s[from]),
    decreases s.len(),
{
    if s.len() > 0 && is_space(s.first()) {
        let rest = s.drop_first();
        let from = lemma_trim_start(rest);
        assert(rest.skip(from) == s.skip(from + 1));
        assert forall|i: int| 0 <= i < from + 1 implies is_space(#[trigger] s[i]) by {
            if i > 0 {
                assert(s[i] == rest[i - 1]);
            }
        }
        from + 1
    } else {
        assert(s.skip(0) == s);
        0
    }
}

proof fn lemma_trim_end(s: Seq<char>) -> (to: int)
    ensures
        0 <= to <= s.len(),
        trimmed_end(s) == s.take(to),
        forall|i: int| to <= i < s.len() ==> is_space(#[trigger] s[i]),
        to > 0 ==> !is_space(s[to - 1]),
    decreases s.len(),
{
    if s.len() > 0 && is_space(s.last()) {
        let rest = s.drop_last();
        let to = lemma_trim_end(rest);
        assert(rest.take(to) == s.take(to));
        assert forall|i: int| to <= i < s.len() implies is_space(#[trigger] s[i]) by {
            if i < rest.len() {
                assert(s[i] == rest[i]);
            }
        }
        to
    } else {
        assert(s.take(s.len() as int) == s);
        s.len() as int
    }
}

/// What follows a prefix is all that follows it, and only a text that starts with
/// the prefix has anything to follow it.
pub proof fn law_prefix_exact(s: Seq<char>, prefix: Seq<char>, rest: Seq<char>)
    ensures
        after_prefix(prefix + rest, prefix) == Some(rest),
        after_prefix(s, prefix) == Some(rest) ==> s == prefix + rest,
        after_prefix(s, prefix) is None ==> s != prefix + rest,
{
    let whole = prefix + rest;
    assert(whole.subrange(0, prefix.len() as int) == prefix);
    assert(whole.skip(prefix.len() as int) == rest);
    if after_prefix(s, prefix) == Some(rest) {
        assert(s == prefix + s.skip(prefix.len() as int));
    }
}

/// White space is taken from the end of a text only.
pub proof fn law_trim_end_start(s: Seq<char>)
    ensures
        trimmed_end(s).is_prefix_of(s),
        s.len() > 0 && !is_space(s.last()) ==> trimmed_end(s) == s,
    decreases s.len(),
{
    if s.len() > 0 && is_space(s.last()) {
        law_trim_end_start(s.drop_last());
        let kept = trimmed_end(s);
        assert(s.subrange(0, kept.len() as int) == s.drop_last().subrange(0, kept.len() as int));
    } else {
        assert(s.subrange(0, s.len() as int) == s);
    }
}

/// What is left when white space was taken from the end ends in none.
pub proof fn law_trim_end_twice(s: Seq<char>)
    ensures
        trimmed_end(trimmed_end(s)) == trimmed_end(s),
    decreases s.len(),
{
    if s.len() > 0 && is_space(s.last()) {
        law_trim_end_twice(s.drop_last());
    }
}

/// White space at the end of two texts is that at the end of the second one, if
/// that one holds anything else.
pub proof fn law_trim_end_concat(a: Seq<char>, b: Seq<char>)
    requires
        trimmed_end(b).len() > 0,
    ensures
        trimmed_end(a + b) == a + trimmed_end(b),
    decreases b.len(),
{
    assert((a + b).last() == b.last());
    if is_space(b.last()) {
        law_trim_end_concat(a, b.drop_last());
        assert((a + b).drop_last() == a + b.drop_last());
    }
}

/// A text that neither starts nor ends in white space is kept by trimming.
pub proof fn law_trim_keeps(s: Seq<char>)
    requires
        s.len() > 0 ==> !is_space(s.first()) && !is_space(s.last()),
    ensures
        trimmed(s) == s,
{
}

/// The position of the first white space in a text, or its length if it has none.
pub open spec fn space_in(s: Seq<char>) -> int
    decreases s.len(),
{
    if s.len() == 0 || is_space(s.first()) {
        0
    } else {
        1 + space_in(s.drop_first())
    }
}

proof fn lemma_space_in(s: Seq<char>, at: int)
    requires
        0 <= at <= s.len(),
        forall|i: int| 0 <= i < at ==> !is_space(#[trigger] s[i]),
        at < s.len() ==> is_space(s[at]),
    ensures
        space_in(s) == at,
    decreases s.len(),
{
    if at > 0 {
        assert(!is_space(s[0]));
        lemma_space_in(s.drop_first(), at - 1);
    }
}

pub proof fn lemma_space_in_bounds(s: Seq<char>)
    ensures
        0 <= space_in(s) <= s.len(),
        s.len() > 0 && !is_space(s.first()) ==> space_in(s) > 0,
        forall|i: int| 0 <= i < space_in(s) ==> !is_space(#[trigger] s[i]),
        space_in(s) < s.len() ==> is_space(s[space_in(s)]),
    decreases s.len(),
{
    if s.len() > 0 && !is_space(s.first()) {
        let rest = s.drop_first();
        lemma_space_in_bounds(rest);
        assert forall|i: int| 0 <= i < space_in(s) implies !is_space(#[trigger] s[i]) by {
            if i > 0 {
                assert(s[i] == rest[i - 1]);
            }
        }
    }
}

/// The words of a text: its parts between white space, none of them empty.
pub open spec fn words_of(s: Seq<char>) -> Seq<Seq<char>>
    decreases s.len(),
{
    if s.len() == 0 {
        seq![]
    } else if is_space(s.first()) {
        words_of(s.drop_first())
    } else {
        proof {
            lemma_space_in_bounds(s);
        }
        seq![s.take(space_in(s))] + words_of(s.skip(space_in(s)))
    }
}

pub fn words(s: &str) -> (res: Vec<String>)
    ensures
        res.deep_view() == words_of(s@),
{
    let chars = chars_of(s);
    let mut res: Vec<String> = Vec::new();
    let mut i: usize = 0;
    proof {
        assert(s@.skip(0) == s@);
        assert(res.deep_view() + words_of(s@) == words_of(s@));
    }
    while i < chars.len()
        invariant
            chars@ == s@,
            i <= chars@.len(),
            words_of(s@) == res.deep_view() + words_of(s@.skip(i as int)),
        decreases chars@.len() - i,
    {
        let ghost rest = s@.skip(i as int);
        if is_white_space(chars[i]) {
            proof {
                assert(rest.drop_first() == s@.skip(i + 1));
            }
            i += 1;
        } else {
            let start: usize = i;
            while i < chars.len() && !is_white_space(chars[i])
                invariant
                    start <= i <= chars@.len(),
                    forall|k: int| start <= k < i ==> !is_space(#[trigger] chars@[k]),
                decreases chars@.len() - i,
            {
                i += 1;
            }
            let ghost before = res.deep_view();
            let word = slice_of(&chars, start, i);
            proof {
                lemma_space_in(rest, i - start);
                assert(word@ == rest.take(i - start));
                assert(rest.skip(i - start) == s@.skip(i as int));
            }
            res.push(word);
            proof {
                assert(res.deep_view() == before.push(word@));
                assert(before + (seq![word@] + words_of(s@.skip(i as int))) == res.deep_view()
                    + words_of(s@.skip(i as int)));
            }
        }
    }
    proof {
        assert(res.deep_view() + words_of(s@.skip(i as int)) == res.deep_view());
    }
    res
}

/// White space between two texts keeps their words apart, and adds none.
pub proof fn law_words_concat(a: Seq<char>, c: char, b: Seq<char>)
    requires
        is_space(c),
    ensures
        words_of(a.push(c) + b) == words_of(a) + words_of(b),
    decreases a.len(),
{
    let s = a.push(c) + b;
    if a.len() == 0 {
        assert(s.drop_first() == b);
        assert(words_of(a) + words_of(b) == words_of(b));
    } else if is_space(a.first()) {
        law_words_concat(a.drop_first(), c, b);
        assert(s.drop_first() == a.drop_first().push(c) + b);
    } else {
        lemma_space_in_bounds(a);
        let at = space_in(a);
        assert forall|i: int| 0 <= i < at implies !is_space(#[trigger] s[i]) by {
            assert(s[i] == a[i]);
        }
        assert(is_space(s[at]));
        lemma_space_in(s, at);
        law_words_concat(a.skip(at), c, b);
        assert(s.skip(at) == a.skip(at).push(c) + b);
        assert(s.take(at) == a.take(at));
        assert(seq![a.take(at)] + (words_of(a.skip(at)) + words_of(b)) == (seq![a.take(at)]
            + words_of(a.skip(at))) + words_of(b));
    }
}

/// A text without white space is the only word of itself.
pub proof fn law_one_word(s: Seq<char>)
    requires
        s.len() > 0,
        forall|i: int| 0 <= i < s.len() ==> !is_space(#[trigger] s[i]),
    ensures
        words_of(s) == seq![s],
{
    assert(!is_space(s[0]));
    lemma_space_in(s, s.len() as int);
    assert(s.take(s.len() as int) == s);
    assert(s.skip(s.len() as int) == Seq::<char>::empty());
    assert(words_of(s.skip(s.len() as int)) == Seq::<Seq<char>>::empty());
}

/// No word is empty or has white space inside, and the words together hold all
/// the characters of a text that are not white space, in their order.
pub proof fn law_words_hold_all(s: Seq<char>)
    ensures
        forall|i: int| 0 <= i < words_of(s).len() ==> (#[trigger] words_of(s)[i]).len() > 0,
        forall|i: int, j: int|
            0 <= i < words_of(s).len() && 0 <= j < words_of(s)[i].len() ==> !is_space(
                #[trigger] words_of(s)[i][j],
            ),
        words_of(s).flatten() == s.filter(|c: char| !is_space(c)),
    decreases s.len(),
{
    let solid = |c: char| !is_space(c);
    broadcast use vstd::seq_lib::group_seq_properties;
    if s.len() == 0 {
        reveal(Seq::filter);
        assert(words_of(s).flatten() == Seq::<char>::empty()) by {
            reveal_with_fuel(Seq::flatten, 2);
        }
        assert(s.filter(solid) == Seq::<char>::empty());
    } else if is_space(s.first()) {
        law_words_hold_all(s.drop_first());
        let head = seq![s.first()];
        assert(s == head + s.drop_first());
        Seq::filter_distributes_over_add(head, s.drop_first(), solid);
        assert(head.filter(solid) == Seq::<char>::empty()) by {
            reveal_with_fuel(Seq::filter, 2);
        }
        assert(s.filter(solid) == s.drop_first().filter(solid));
    } else {
        lemma_space_in_bounds(s);
        let at = space_in(s);
        let word = s.take(at);
        let rest = s.skip(at);
        law_words_hold_all(rest);
        let words = words_of(s);
        assert(words == seq![word] + words_of(rest));
        assert forall|i: int| 0 <= i < words.len() implies (#[trigger] words[i]).len() > 0 by {
            if i > 0 {
                assert(words[i] == words_of(rest)[i - 1]);
            }
        }
        assert forall|i: int, j: int| 0 <= i < words.len() && 0 <= j < words[i].len() implies !is_space(
            #[trigger] words[i][j],
        ) by {
            if i > 0 {
                assert(words[i] == words_of(rest)[i - 1]);
                assert(!is_space(words_of(rest)[i - 1][j]));
            } else {
                assert(words[i][j] == s[j]);
            }
        }
        assert(s == word + rest);
        Seq::filter_distributes_over_add(word, rest, solid);
        lemma_solid(word);
        assert(words.drop_first() == words_of(rest));
        assert(words.flatten() == word + words_of(rest).flatten()) by {
            reveal_with_fuel(Seq::flatten, 2);
        }
    }
}

/// A text without white space has nothing to be left out.
proof fn lemma_solid(s: Seq<char>)
    requires
        forall|i: int| 0 <= i < s.len() ==> !is_space(#[trigger] s[i]),
    ensures
        s.filter(|c: char| !is_space(c)) == s,
    decreases s.len(),
{
    reveal(Seq::filter);
    if s.len() > 0 {
        let rest = s.drop_last();
        assert forall|i: int| 0 <= i < rest.len() implies !is_space(#[trigger] rest[i]) by {
            assert(rest[i] == s[i]);
        }
        lemma_solid(rest);
        assert(!is_space(s[s.len() - 1]));
        assert(rest.push(s.last()) == s);
    }
}

/// White space alone makes no words.
pub proof fn law_blank_has_no_words(s: Seq<char>)
    requires
        forall|i: int| 0 <= i < s.len() ==> is_space(#[trigger] s[i]),
    ensures
        words_of(s).len() == 0,
    decreases s.len(),
{
    if s.len() > 0 {
        assert(is_space(s[0]));
        let rest = s.drop_first();
        assert forall|i: int| 0 <= i < rest.len() implies is_space(#[trigger] rest[i]) by {
            assert(rest[i] == s[i + 1]);
        }
        law_blank_has_no_words(rest);
    }
}

/// The decimal digit of a number below ten.
pub open spec fn digit(n: nat) -> char {
    if n == 0 { '0' }
    else if n == 1 { '1' }
    else if n == 2 { '2' }
    else if n == 3 { '3' }
    else if n == 4 { '4' }
    else if n == 5 { '5' }
    else if n == 6 { '6' }
    else if n == 7 { '7' }
    else if n == 8 { '8' }
    else { '9' }
}

/// A number in decimal digits, without leading zeros.
pub open spec fn decimal_of(n: nat) -> Seq<char>
    decreases n,
{
    if n < 10 {
        seq![digit(n)]
    } else {
        decimal_of(n / 10).push(digit(n % 10))
    }
}

/// The number that decimal digits stand for.
pub open spec fn number_of(digits: Seq<char>) -> int
    decreases digits.len(),
{
    if digits.len() == 0 {
        0
    } else {
        number_of(digits.drop_last()) * 10 + (digits.last() as int - '0' as int)
    }
}

/// A number is written in digits that stand for it, without a zero in front.
pub proof fn law_decimal_exact(n: nat)
    ensures
        number_of(decimal_of(n)) == n,
        decimal_of(n).len() > 0,
        forall|i: int| 0 <= i < decimal_of(n).len() ==> '0' <= #[trigger] decimal_of(n)[i] <= '9',
        decimal_of(n).len() > 1 ==> decimal_of(n)[0] != '0',
        n > 0 ==> decimal_of(n)[0] != '0',
    decreases n,
{
    let digits = decimal_of(n);
    if n < 10 {
        assert(digits.drop_last() == Seq::<char>::empty());
        assert(number_of(digits.drop_last()) == 0);
    } else {
        let before = decimal_of(n / 10);
        law_decimal_exact(n / 10);
        assert(digits.drop_last() == before);
        assert forall|i: int| 0 <= i < digits.len() implies '0' <= #[trigger] digits[i] <= '9' by {
            if i < before.len() {
                assert(digits[i] == before[i]);
            }
        }
        assert(digits[0] == before[0]);
    }
}

pub fn decimal(n: usize) -> (res: String)
    ensures
        res@ == decimal_of(n as nat),
    decreases n,
{
    let mut res = if n < 10 {
        String::new()
    } else {
        decimal(n / 10)
    };
    let d: usize = n % 10;
    let c = match d {
        0 => '0',
        1 => '1',
        2 => '2',
        3 => '3',
        4 => '4',
        5 => '5',
        6 => '6',
        7 => '7',
        8 => '8',
        _ => '9',
    };
    res.push(c);
    res
}

/// White space is, by code point, what Unicode says it is. No visible character of
/// ASCII is.
pub proof fn law_space_exact(c: char)
    ensures
        ({
            let code = c as int;
            is_space(c) <==> (9 <= code <= 13 || code == 32 || code == 0x85 || code == 0xa0 || code
                == 0x1680 || 0x2000 <= code <= 0x200a || code == 0x2028 || code == 0x2029 || code
                == 0x202f || code == 0x205f || code == 0x3000)
        }),
        '!' <= c <= '~' ==> !is_space(c),
{
}

} // verus!
