//! Text primitives over sequences of characters.
//!
//! The specifications describe text as `Seq<char>`, the view of `str` and `String`. The executable
//! functions work on character slices, so that each of them is a plain loop over indices.
use vstd::prelude::*;

verus! {

/// The characters of an optional text.
pub open spec fn opt_text(text: Option<String>) -> Option<Seq<char>> {
    match text {
        Some(s) => Some(s@),
        None => None,
    }
}

/// The characters of each text of a list.
pub open spec fn texts(list: Seq<String>) -> Seq<Seq<char>> {
    list.map_values(|s: String| s@)
}

/// `pattern` stands in `s` at position `at`.
pub open spec fn occurs_at(s: Seq<char>, pattern: Seq<char>, at: int) -> bool {
    0 <= at && at + pattern.len() <= s.len() && s.subrange(at, at + pattern.len()) == pattern
}

/// `s` begins with `pattern`.
pub open spec fn has_prefix(s: Seq<char>, pattern: Seq<char>) -> bool {
    occurs_at(s, pattern, 0)
}

/// `pattern` stands somewhere in `s`.
pub open spec fn has_text(s: Seq<char>, pattern: Seq<char>) -> bool {
    exists|at: int| occurs_at(s, pattern, at)
}

/// `at` is the leftmost position of `pattern` in `s`.
pub open spec fn first_at(s: Seq<char>, pattern: Seq<char>, at: int) -> bool {
    occurs_at(s, pattern, at) && forall|other: int| 0 <= other < at ==> !occurs_at(s, pattern, other)
}

/// What stands before and after the leftmost `pattern` in `s`, if there is one.
pub open spec fn split_once(s: Seq<char>, pattern: Seq<char>) -> Option<(Seq<char>, Seq<char>)> {
    if has_text(s, pattern) {
        let at = choose|at: int| first_at(s, pattern, at);
        Some((s.subrange(0, at), s.subrange(at + pattern.len(), s.len() as int)))
    } else {
        None
    }
}

/// `s` up to the leftmost `pattern`; all of it where there is none.
pub open spec fn cut_before(s: Seq<char>, pattern: Seq<char>) -> Seq<char> {
    match split_once(s, pattern) {
        Some((before, _)) => before,
        None => s,
    }
}

/// The characters with the Unicode property White_Space.
pub open spec fn is_space(c: char) -> bool {
    ||| '\u{9}' <= c <= '\u{d}'
    ||| c == '\u{20}'
    ||| c == '\u{85}'
    ||| c == '\u{a0}'
    ||| c == '\u{1680}'
    ||| '\u{2000}' <= c <= '\u{200a}'
    ||| c == '\u{2028}'
    ||| c == '\u{2029}'
    ||| c == '\u{202f}'
    ||| c == '\u{205f}'
    ||| c == '\u{3000}'
}

/// `s` without the white space it begins with.
pub open spec fn trimmed_start(s: Seq<char>) -> Seq<char>
    decreases s.len(),
{
    if s.len() > 0 && is_space(s[0]) {
        trimmed_start(s.subrange(1, s.len() as int))
    } else {
        s
    }
}

/// `s` without the white space it ends with.
pub open spec fn trimmed_end(s: Seq<char>) -> Seq<char>
    decreases s.len(),
{
    if s.len() > 0 && is_space(s.last()) {
        trimmed_end(s.drop_last())
    } else {
        s
    }
}

/// `s` without the white space around it.
pub open spec fn trimmed(s: Seq<char>) -> Seq<char> {
    trimmed_end(trimmed_start(s))
}

/// A line without the carriage return that belongs to its line feed.
pub open spec fn without_cr(line: Seq<char>) -> Seq<char> {
    if line.len() > 0 && line.last() == '\r' {
        line.drop_last()
    } else {
        line
    }
}

/// The lines of `s`: each ends at a line feed, which may have a carriage return before it, or at
/// the end of the text; nothing after the last line feed is no line.
pub open spec fn lines(s: Seq<char>) -> Seq<Seq<char>>
    decreases s.len(),
{
    if s.len() == 0 {
        Seq::empty()
    } else {
        match split_once(s, seq!['\n']) {
            Some((line, rest)) => {
                proof {
                    lemma_split_shorter(s, seq!['\n']);
                }
                seq![without_cr(line)] + lines(rest)
            },
            None => seq![s],
        }
    }
}

/// `s` with `to` in the place of each `from`.
pub open spec fn replaced(s: Seq<char>, from: char, to: char) -> Seq<char> {
    s.map_values(|c: char| if c == from { to } else { c })
}

/// The text that `str::to_lowercase` makes of `s`.
pub uninterp spec fn lowercased(s: Seq<char>) -> Seq<char>;

/// `s` holds ASCII characters only.
pub open spec fn all_ascii(s: Seq<char>) -> bool {
    forall|i: int| 0 <= i < s.len() ==> #[trigger] s[i] <= '\u{7f}'
}

/// `s` with each ASCII capital in lower case.
pub open spec fn ascii_lowercased(s: Seq<char>) -> Seq<char> {
    s.map_values(|c: char| if 'A' <= c <= 'Z' { (c as u32 + 32) as char } else { c })
}

/// `str::to_lowercase`: the result depends on the characters alone, and on ASCII text it is the
/// text with `A` to `Z` in lower case. How other characters are mapped is left to the name.
pub assume_specification[ str::to_lowercase ](s: &str) -> (lower: String)
    ensures
        lower@ == lowercased(s@),
        all_ascii(s@) ==> lower@ == ascii_lowercased(s@),
;

/// `a` stands before `b` in a dictionary, or is `b`: the first character in which they differ
/// decides by its code point, and a text stands before its continuations.
pub open spec fn lexical_le(a: Seq<char>, b: Seq<char>) -> bool
    decreases a.len(),
{
    if a.len() == 0 {
        true
    } else if b.len() == 0 {
        false
    } else if a[0] != b[0] {
        a[0] < b[0]
    } else {
        lexical_le(a.drop_first(), b.drop_first())
    }
}

/// The number of bytes that `s` takes in UTF-8.
pub open spec fn byte_len(s: Seq<char>) -> nat {
    vstd::utf8::encode_utf8(s).len()
}

/// The texts of `list`, with `separator` between each two.
pub open spec fn joined(list: Seq<Seq<char>>, separator: Seq<char>) -> Seq<char>
    decreases list.len(),
{
    if list.len() == 0 {
        Seq::empty()
    } else if list.len() == 1 {
        list[0]
    } else {
        joined(list.drop_last(), separator) + separator + list.last()
    }
}

/// `String::push`: the character stands behind what the string held.
pub assume_specification[ String::push ](s: &mut String, c: char)
    ensures
        final(s)@ == old(s)@.push(c),
;

/// `String::pop`: takes the last character off and returns it; an empty string stays as it is.
pub assume_specification[ String::pop ](s: &mut String) -> (last: Option<char>)
    ensures
        old(s)@.len() == 0 ==> last is None && final(s)@ == old(s)@,
        old(s)@.len() > 0 ==> last == Some(old(s)@.last()) && final(s)@ == old(s)@.drop_last(),
;

/// The characters of `text`.
pub fn chars_of(text: &str) -> (chars: Vec<char>)
    ensures
        chars@ == text@,
{
    let mut chars: Vec<char> = Vec::new();
    for c in it: text.chars()
        invariant
            it.seq() == text@,
            chars@ == text@.take(it.index()),
    {
        chars.push(c);
    }
    assert(text@.take(text@.len() as int) == text@);
    chars
}

/// The text made of `chars`.
pub fn text_of(chars: &[char]) -> (text: String)
    ensures
        text@ == chars@,
{
    let mut text: String = String::new();
    let mut i: usize = 0;
    while i < chars.len()
        invariant
            i <= chars.len(),
            text@ == chars@.take(i as int),
        decreases chars.len() - i,
    {
        text.push(chars[i]);
        i = i + 1;
        assert(chars@.take(i as int) == chars@.take(i - 1).push(chars@[i - 1]));
    }
    assert(chars@.take(i as int) == chars@);
    text
}

/// The part of `chars` from `from` up to `to`.
pub fn part_of(chars: &[char], from: usize, to: usize) -> (part: Vec<char>)
    requires
        from <= to <= chars@.len(),
    ensures
        part@ == chars@.subrange(from as int, to as int),
{
    let mut part: Vec<char> = Vec::new();
    let mut i: usize = from;
    while i < to
        invariant
            from <= i <= to <= chars@.len(),
            part@ == chars@.subrange(from as int, i as int),
        decreases to - i,
    {
        part.push(chars[i]);
        i = i + 1;
        assert(chars@.subrange(from as int, i as int) == chars@.subrange(from as int, i - 1).push(
            chars@[i - 1],
        ));
    }
    part
}

/// Whether `pattern` stands in `chars` at `at`.
pub fn matches_at(chars: &[char], pattern: &[char], at: usize) -> (found: bool)
    ensures
        found == occurs_at(chars@, pattern@, at as int),
{
    if chars.len() < at || chars.len() - at < pattern.len() {
        return false;
    }
    let size: usize = chars.len();
    let mut i: usize = 0;
    while i < pattern.len()
        invariant
            i <= pattern@.len(),
            size == chars@.len(),
            at + pattern@.len() <= size,
            forall|j: int| 0 <= j < i ==> chars@[at + j] == pattern@[j],
        decreases pattern.len() - i,
    {
        if chars[at + i] != pattern[i] {
            assert(chars@.subrange(at as int, at + pattern@.len())[i as int] == chars@[at + i]);
            return false;
        }
        i = i + 1;
    }
    assert(chars@.subrange(at as int, at + pattern@.len()) =~= pattern@);
    true
}

/// Whether `chars` begins with `pattern`.
pub fn starts_with(chars: &[char], pattern: &str) -> (found: bool)
    ensures
        found == has_prefix(chars@, pattern@),
{
    let pattern = chars_of(pattern);
    matches_at(chars, pattern.as_slice(), 0)
}

/// The leftmost position of `pattern` in `chars`.
pub fn position_of(chars: &[char], pattern: &[char]) -> (at: Option<usize>)
    ensures
        match at {
            Some(at) => first_at(chars@, pattern@, at as int),
            None => !has_text(chars@, pattern@),
        },
{
    let mut at: usize = 0;
    while at <= chars.len()
        invariant
            at <= chars@.len() + 1,
            forall|other: int| 0 <= other < at ==> !occurs_at(chars@, pattern@, other),
        decreases chars.len() + 1 - at,
    {
        if matches_at(chars, pattern, at) {
            return Some(at);
        }
        if at == chars.len() {
            return None;
        }
        at = at + 1;
    }
    None
}

/// Whether `pattern` stands somewhere in `chars`.
pub fn contains(chars: &[char], pattern: &str) -> (found: bool)
    ensures
        found == has_text(chars@, pattern@),
{
    let pattern = chars_of(pattern);
    position_of(chars, pattern.as_slice()).is_some()
}

/// The leftmost position of a pattern is where a text is split.
pub proof fn lemma_split_at(s: Seq<char>, pattern: Seq<char>, at: int)
    requires
        first_at(s, pattern, at),
    ensures
        split_once(s, pattern) == Some(
            (s.subrange(0, at), s.subrange(at + pattern.len(), s.len() as int)),
        ),
{
    let chosen = choose|at: int| first_at(s, pattern, at);
    assert(first_at(s, pattern, chosen));
    assert(!(chosen < at));
    assert(!(at < chosen));
}

/// The parts of `chars` before and after the leftmost `pattern`.
pub fn split_at_first(chars: &[char], pattern: &str) -> (parts: Option<(Vec<char>, Vec<char>)>)
    ensures
        match parts {
            Some((before, after)) => split_once(chars@, pattern@) == Some((before@, after@)),
            None => split_once(chars@, pattern@) is None,
        },
{
    let pattern = chars_of(pattern);
    match position_of(chars, pattern.as_slice()) {
        Some(at) => {
            proof {
                lemma_split_at(chars@, pattern@, at as int);
            }
            let size: usize = chars.len();
            let before = part_of(chars, 0, at);
            let after = part_of(chars, at + pattern.len(), size);
            Some((before, after))
        },
        None => None,
    }
}

/// Whether `c` is white space.
pub fn space(c: char) -> (found: bool)
    ensures
        found == is_space(c),
{
    ('\u{9}' <= c && c <= '\u{d}') || c == '\u{20}' || c == '\u{85}' || c == '\u{a0}' || c == '\u{1680}' || (
    '\u{2000}' <= c && c <= '\u{200a}') || c == '\u{2028}' || c == '\u{2029}' || c == '\u{202f}' || c
        == '\u{205f}' || c == '\u{3000}'
}

/// `chars` without the white space around it.
pub fn trim(chars: &[char]) -> (inner: Vec<char>)
    ensures
        inner@ == trimmed(chars@),
{
    let mut from: usize = 0;
    assert(chars@.subrange(0, chars@.len() as int) == chars@);
    while from < chars.len() && space(chars[from])
        invariant
            from <= chars@.len(),
            trimmed_start(chars@) == trimmed_start(chars@.subrange(from as int, chars@.len() as int)),
        decreases chars.len() - from,
    {
        assert(chars@.subrange(from as int, chars@.len() as int).subrange(1, chars@.len() - from)
            == chars@.subrange(from + 1, chars@.len() as int));
        from = from + 1;
    }
    let ghost rest = chars@.subrange(from as int, chars@.len() as int);
    assert(trimmed_start(chars@) == rest);
    let mut to: usize = chars.len();
    while from < to && space(chars[to - 1])
        invariant
            from <= to <= chars@.len(),
            trimmed_end(rest) == trimmed_end(chars@.subrange(from as int, to as int)),
        decreases to,
    {
        assert(chars@.subrange(from as int, to as int).drop_last() == chars@.subrange(
            from as int,
            to - 1,
        ));
        to = to - 1;
    }
    part_of(chars, from, to)
}

/// The lines of `text`.
pub fn lines_of(text: &str) -> (list: Vec<Vec<char>>)
    ensures
        list@.map_values(|line: Vec<char>| line@) == lines(text@),
{
    let mut list: Vec<Vec<char>> = Vec::new();
    let mut rest = chars_of(text);
    let ghost view = |line: Vec<char>| line@;
    assert(list@.map_values(view) + lines(rest@) == lines(text@));
    while rest.len() > 0
        invariant
            view == (|line: Vec<char>| line@),
            list@.map_values(view) + lines(rest@) == lines(text@),
        decreases rest@.len(),
    {
        let ghost before = list@.map_values(view);
        proof {
            reveal_strlit("\n");
            assert("\n"@ =~= seq!['\n']);
        }
        match split_at_first(rest.as_slice(), "\n") {
            Some((line, after)) => {
                let keep: usize = if line.len() > 0 && line[line.len() - 1] == '\r' {
                    line.len() - 1
                } else {
                    line.len()
                };
                let kept = part_of(line.as_slice(), 0, keep);
                assert(kept@ == without_cr(line@));
                list.push(kept);
                assert(list@.map_values(view) == before.push(kept@));
                proof {
                    lemma_split_shorter(rest@, seq!['\n']);
                }
                assert(before + (seq![kept@] + lines(after@)) == before.push(kept@) + lines(after@));
                rest = after;
            },
            None => {
                let ghost last = rest@;
                list.push(rest);
                assert(list@.map_values(view) == before.push(last));
                assert(before + seq![last] == before.push(last));
                rest = Vec::new();
                assert(list@.map_values(view) + lines(rest@) == list@.map_values(view));
            },
        }
    }
    assert(list@.map_values(view) + lines(rest@) == list@.map_values(view));
    list
}

/// What follows a separator is shorter than the whole.
pub proof fn lemma_split_shorter(s: Seq<char>, pattern: Seq<char>)
    requires
        split_once(s, pattern) is Some,
        pattern.len() > 0,
    ensures
        split_once(s, pattern) matches Some((_, rest)) && rest.len() < s.len(),
{
    let some = choose|at: int| occurs_at(s, pattern, at);
    lemma_first_exists(s, pattern, some);
    let at = choose|at: int| first_at(s, pattern, at);
    assert(first_at(s, pattern, at));
}

/// A pattern that stands somewhere has a leftmost position.
proof fn lemma_first_exists(s: Seq<char>, pattern: Seq<char>, at: int)
    requires
        occurs_at(s, pattern, at),
    ensures
        exists|first: int| first_at(s, pattern, first),
    decreases at,
{
    if exists|other: int| 0 <= other < at && occurs_at(s, pattern, other) {
        let other = choose|other: int| 0 <= other < at && occurs_at(s, pattern, other);
        lemma_first_exists(s, pattern, other);
    } else {
        assert(first_at(s, pattern, at));
    }
}

/// After a line feed the lines of a text begin anew.
pub proof fn lemma_lines_joined(before: Seq<char>, after: Seq<char>)
    requires
        before.len() > 0 ==> before.last() == '\n',
    ensures
        lines(before + after) == lines(before) + lines(after),
    decreases before.len(),
{
    let whole = before + after;
    let feed = seq!['\n'];
    if before.len() == 0 {
        assert(whole =~= after);
        assert(lines(before) + lines(after) =~= lines(after));
    } else {
        let end = before.len() - 1;
        assert(before.subrange(end, end + 1) =~= feed);
        assert(occurs_at(before, feed, end));
        lemma_first_exists(before, feed, end);
        let at = choose|at: int| first_at(before, feed, at);
        assert(first_at(before, feed, at));
        assert(whole.subrange(at, at + 1) =~= before.subrange(at, at + 1));
        assert forall|other: int| 0 <= other < at implies !occurs_at(whole, feed, other) by {
            assert(whole.subrange(other, other + 1) =~= before.subrange(other, other + 1));
            assert(!occurs_at(before, feed, other));
        }
        assert(first_at(whole, feed, at));
        lemma_split_at(before, feed, at);
        lemma_split_at(whole, feed, at);
        let rest = before.subrange(at + 1, before.len() as int);
        assert(occurs_at(whole, feed, at));
        assert(whole.subrange(0, at) =~= before.subrange(0, at));
        assert(whole.subrange(at + 1, whole.len() as int) =~= rest + after);
        lemma_lines_joined(rest, after);
        assert(lines(whole) =~= lines(before) + lines(after));
    }
}

/// The number of bytes of `text`.
pub fn bytes_in(text: &str) -> (count: usize)
    ensures
        count == byte_len(text@),
{
    text.as_bytes().len()
}

/// The texts of `list`, with `separator` between each two.
pub fn join(list: &Vec<String>, separator: &str) -> (result: String)
    ensures
        result@ == joined(texts(list@), separator@),
{
    let ghost all = texts(list@);
    let mut result: String = String::new();
    let mut i: usize = 0;
    while i < list.len()
        invariant
            i <= list@.len(),
            all == texts(list@),
            result@ == joined(all.take(i as int), separator@),
        decreases list.len() - i,
    {
        if i > 0 {
            result.append(separator);
        }
        result.append(list[i].as_str());
        i = i + 1;
        assert(all.take(i as int).drop_last() =~= all.take(i - 1));
        assert(all.take(i as int).last() == list@[i - 1]@);
        assert(i == 1 ==> result@ =~= list@[0]@);
    }
    assert(all.take(i as int) =~= all);
    result
}

/// Whether `a` stands before `b` in a dictionary, or is `b`.
pub fn precedes(a: &str, b: &str) -> (result: bool)
    ensures
        result == lexical_le(a@, b@),
{
    let left = chars_of(a);
    let right = chars_of(b);
    let mut i: usize = 0;
    assert(left@.skip(0) == a@ && right@.skip(0) == b@);
    while i < left.len() && i < right.len()
        invariant
            i <= left@.len(),
            i <= right@.len(),
            lexical_le(a@, b@) == lexical_le(left@.skip(i as int), right@.skip(i as int)),
        decreases left.len() - i,
    {
        if left[i] != right[i] {
            return left[i] < right[i];
        }
        assert(left@.skip(i as int).drop_first() == left@.skip(i + 1));
        assert(right@.skip(i as int).drop_first() == right@.skip(i + 1));
        i = i + 1;
    }
    i == left.len()
}

/// Of two texts one stands before the other.
pub proof fn lemma_lexical_total(a: Seq<char>, b: Seq<char>)
    ensures
        lexical_le(a, b) || lexical_le(b, a),
    decreases a.len(),
{
    if a.len() > 0 && b.len() > 0 {
        lemma_lexical_total(a.drop_first(), b.drop_first());
    }
}

/// The dictionary order is transitive.
pub proof fn lemma_lexical_transitive(a: Seq<char>, b: Seq<char>, c: Seq<char>)
    requires
        lexical_le(a, b),
        lexical_le(b, c),
    ensures
        lexical_le(a, c),
    decreases a.len(),
{
    if a.len() > 0 && b.len() > 0 && c.len() > 0 && a[0] == b[0] && b[0] == c[0] {
        lemma_lexical_transitive(a.drop_first(), b.drop_first(), c.drop_first());
    }
}

/// `text` with `to` in the place of each `from`.
pub fn replace(text: &str, from: char, to: char) -> (result: String)
    ensures
        result@ == replaced(text@, from, to),
{
    let chars = chars_of(text);
    let mut result: String = String::new();
    let mut i: usize = 0;
    while i < chars.len()
        invariant
            i <= chars@.len(),
            chars@ == text@,
            result@ == replaced(text@.take(i as int), from, to),
        decreases chars.len() - i,
    {
        let c = chars[i];
        result.push(if c == from { to } else { c });
        i = i + 1;
        assert(replaced(text@.take(i as int), from, to) =~= replaced(text@.take(i - 1), from, to).push(
            if c == from { to } else { c },
        ));
    }
    assert(text@.take(i as int) == text@);
    result
}

} // verus!
