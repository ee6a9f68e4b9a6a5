//! Character-sequence primitives shared by the rest of the crate.
//!
//! Every contract in the crate speaks of text as `Seq<char>`. The executable
//! code scans text as `Vec<char>` and converts at the public boundary.

use vstd::prelude::*;

verus! {

/// `pat` occurs in `s` starting at position `i`.
pub open spec fn occurs_at(s: Seq<char>, pat: Seq<char>, i: int) -> bool {
    &&& 0 <= i
    &&& i + pat.len() <= s.len()
    &&& s.subrange(i, i + pat.len()) == pat
}

/// `s` begins with `pat`.
pub open spec fn starts_with(s: Seq<char>, pat: Seq<char>) -> bool {
    occurs_at(s, pat, 0)
}

/// `s` ends with `pat`.
pub open spec fn ends_with(s: Seq<char>, pat: Seq<char>) -> bool {
    occurs_at(s, pat, s.len() - pat.len())
}

/// `pat` occurs somewhere in `s`.
pub open spec fn contains(s: Seq<char>, pat: Seq<char>) -> bool {
    exists|i: int| occurs_at(s, pat, i)
}

/// The least position at or after `from` where `pat` occurs in `s`, or
/// `s.len()` when there is none.
pub open spec fn first_occurrence(s: Seq<char>, pat: Seq<char>, from: int) -> int
    decreases s.len() - from,
{
    if from < 0 || from >= s.len() {
        s.len() as int
    } else if occurs_at(s, pat, from) {
        from
    } else {
        first_occurrence(s, pat, from + 1)
    }
}

/// The greatest position at or before `upto` where `pat` occurs in `s`, or
/// `-1` when there is none.
pub open spec fn last_occurrence(s: Seq<char>, pat: Seq<char>, upto: int) -> int
    decreases upto + 1,
{
    if upto < 0 {
        -1
    } else if occurs_at(s, pat, upto) {
        upto
    } else {
        last_occurrence(s, pat, upto - 1)
    }
}

/// What follows the last occurrence of `pat` in `s`; all of `s` when `pat`
/// does not occur.
pub open spec fn after_last(s: Seq<char>, pat: Seq<char>) -> Seq<char> {
    let at = last_occurrence(s, pat, s.len() as int);
    if at < 0 {
        s
    } else {
        s.skip(at + pat.len())
    }
}

/// What precedes the first occurrence of `pat` in `s`; all of `s` when `pat`
/// does not occur.
pub open spec fn before_first(s: Seq<char>, pat: Seq<char>) -> Seq<char> {
    s.take(first_occurrence(s, pat, 0))
}

/// `s` with every occurrence of `from`, found left to right without overlap,
/// replaced by `to`. An empty `from` matches before every character and at
/// the end.
pub open spec fn replace_all(s: Seq<char>, from: Seq<char>, to: Seq<char>) -> Seq<char>
    decreases s.len(),
{
    if s.len() == 0 {
        if from.len() == 0 {
            to
        } else {
            s
        }
    } else if from.len() == 0 {
        to + seq![s[0]] + replace_all(s.skip(1), from, to)
    } else if occurs_at(s, from, 0) {
        to + replace_all(s.skip(from.len() as int), from, to)
    } else {
        seq![s[0]] + replace_all(s.skip(1), from, to)
    }
}

/// The line-feed character as a pattern.
pub open spec fn line_feed() -> Seq<char> {
    seq!['\n']
}

/// `line` without one trailing carriage return.
pub open spec fn without_carriage_return(line: Seq<char>) -> Seq<char> {
    if line.len() > 0 && line.last() == '\r' {
        line.drop_last()
    } else {
        line
    }
}

/// The lines of `s`: pieces ended by a line feed, each without its line feed
/// and without a carriage return before it. Text after the last line feed is
/// a line of its own, kept as it is, unless it is empty.
pub open spec fn lines(s: Seq<char>) -> Seq<Seq<char>>
    decreases s.len(),
{
    if s.len() == 0 {
        seq![]
    } else {
        let end = first_occurrence(s, line_feed(), 0);
        if end < 0 || end >= s.len() {
            seq![s]
        } else {
            seq![without_carriage_return(s.take(end))] + lines(s.skip(end + 1))
        }
    }
}

/// The texts of a list of strings.
pub open spec fn texts(v: Seq<String>) -> Seq<Seq<char>> {
    v.map_values(|s: String| s@)
}

/// The texts of a list of character vectors.
pub open spec fn rows(v: Seq<Vec<char>>) -> Seq<Seq<char>> {
    v.map_values(|r: Vec<char>| r@)
}

/// The decimal digit for a value below ten.
pub open spec fn digit(d: nat) -> char {
    if d == 0 {
        '0'
    } else if d == 1 {
        '1'
    } else if d == 2 {
        '2'
    } else if d == 3 {
        '3'
    } else if d == 4 {
        '4'
    } else if d == 5 {
        '5'
    } else if d == 6 {
        '6'
    } else if d == 7 {
        '7'
    } else if d == 8 {
        '8'
    } else {
        '9'
    }
}

/// The decimal numeral of `n`, without sign or leading zeros.
pub open spec fn decimal(n: nat) -> Seq<char>
    decreases n,
{
    if n < 10 {
        seq![digit(n)]
    } else {
        decimal(n / 10).push(digit(n % 10))
    }
}

/// `s` with zeros in front so that it has at least `width` characters.
pub open spec fn zero_padded(s: Seq<char>, width: nat) -> Seq<char> {
    if s.len() >= width {
        s
    } else {
        Seq::new((width - s.len()) as nat, |i: int| '0') + s
    }
}

/// The texts of `parts` with `separator` between each two of them.
pub open spec fn joined_with(parts: Seq<Seq<char>>, separator: Seq<char>) -> Seq<char>
    decreases parts.len(),
{
    if parts.len() == 0 {
        seq![]
    } else if parts.len() == 1 {
        parts[0]
    } else {
        joined_with(parts.drop_last(), separator) + separator + parts.last()
    }
}

/// The pieces of `s` between the occurrences of `separator`, found left to
/// right. A text without the separator, and any text for an empty
/// separator, is one piece.
pub open spec fn split_on(s: Seq<char>, separator: Seq<char>) -> Seq<Seq<char>>
    decreases s.len(),
{
    let at = first_occurrence(s, separator, 0);
    if separator.len() == 0 || at >= s.len() || !occurs_at(s, separator, at) {
        seq![s]
    } else {
        seq![s.take(at)] + split_on(s.skip(at + separator.len()), separator)
    }
}

/// `a` stands before `b` in the order of strings: the first character in
/// which they differ decides, by its code; a text stands after each of its
/// own beginnings.
pub open spec fn text_before(a: Seq<char>, b: Seq<char>) -> bool
    decreases a.len(),
{
    if b.len() == 0 {
        false
    } else if a.len() == 0 {
        true
    } else if a[0] != b[0] {
        (a[0] as u32) < (b[0] as u32)
    } else {
        text_before(a.skip(1), b.skip(1))
    }
}

/// Of two texts exactly one holds: the first stands before the second, the
/// second before the first, or they are the same.
pub proof fn lemma_text_order_total(a: Seq<char>, b: Seq<char>)
    ensures
        text_before(a, b) || text_before(b, a) || a == b,
        !(text_before(a, b) && text_before(b, a)),
        a == b ==> !text_before(a, b),
    decreases a.len(),
{
    if a.len() > 0 && b.len() > 0 {
        lemma_text_order_total(a.skip(1), b.skip(1));
        vstd::utf8::char_u32_cast(a[0], a[0] as u32);
        vstd::utf8::char_u32_cast(b[0], b[0] as u32);
        if a[0] == b[0] && a.skip(1) == b.skip(1) {
            assert(a =~= seq![a[0]] + a.skip(1));
            assert(b =~= seq![b[0]] + b.skip(1));
        }
    } else if a.len() == 0 && b.len() == 0 {
        assert(a =~= b);
    }
}

/// What stands before a text that stands before a third stands before the
/// third.
pub proof fn lemma_text_order_transitive(a: Seq<char>, b: Seq<char>, c: Seq<char>)
    requires
        text_before(a, b),
        text_before(b, c),
    ensures
        text_before(a, c),
    decreases a.len(),
{
    if a.len() > 0 && b.len() > 0 && c.len() > 0 {
        if a[0] == b[0] && b[0] == c[0] {
            lemma_text_order_transitive(a.skip(1), b.skip(1), c.skip(1));
        }
    }
}

/// `first_occurrence` is a position of the text from `from` on, or its end.
pub proof fn lemma_first_occurrence_bounds(s: Seq<char>, pat: Seq<char>, from: int)
    requires
        0 <= from <= s.len(),
    ensures
        from <= first_occurrence(s, pat, from) <= s.len(),
        first_occurrence(s, pat, from) < s.len() ==> occurs_at(
            s,
            pat,
            first_occurrence(s, pat, from),
        ),
        forall|j: int| from <= j < first_occurrence(s, pat, from) ==> !occurs_at(s, pat, j),
    decreases s.len() - from,
{
    if from < s.len() && !occurs_at(s, pat, from) {
        lemma_first_occurrence_bounds(s, pat, from + 1);
    }
}

/// `last_occurrence` is the greatest matching position up to `upto`.
pub proof fn lemma_last_occurrence_bounds(s: Seq<char>, pat: Seq<char>, upto: int)
    ensures
        -1 <= last_occurrence(s, pat, upto),
        upto >= -1 ==> last_occurrence(s, pat, upto) <= upto,
        last_occurrence(s, pat, upto) >= 0 ==> occurs_at(s, pat, last_occurrence(s, pat, upto)),
        forall|j: int| last_occurrence(s, pat, upto) < j <= upto ==> !occurs_at(s, pat, j),
    decreases upto + 1,
{
    if upto >= 0 && !occurs_at(s, pat, upto) {
        lemma_last_occurrence_bounds(s, pat, upto - 1);
    }
}

/// The characters of a string slice, in order.
pub fn chars_of(s: &str) -> (v: Vec<char>)
    ensures
        v@ == s@,
{
    let mut v: Vec<char> = Vec::new();
    for c in it: s.chars()
        invariant
            it.seq() == s@,
            v@ == it.seq().take(it.index() as int),
    {
        v.push(c);
    }
    v
}

/// Calls `String::from_iter` of std on the characters of `v`: the string
/// built holds exactly those characters, in order.
#[verifier::external_body]
pub(crate) fn string_of(v: &Vec<char>) -> (res: String)
    ensures
        res@ == v@,
{
    String::from_iter(v.iter())
}

/// Appends the characters of `src` to `dst`.
pub fn push_all(dst: &mut Vec<char>, src: &Vec<char>)
    ensures
        final(dst)@ == old(dst)@ + src@,
{
    let mut i: usize = 0;
    while i < src.len()
        invariant
            i <= src.len(),
            dst@ == old(dst)@ + src@.take(i as int),
        decreases src.len() - i,
    {
        dst.push(src[i]);
        i += 1;
    }
    assert(src@.take(src.len() as int) == src@);
}

/// Appends the characters of the string slice `src` to `dst`.
pub fn push_str(dst: &mut Vec<char>, src: &str)
    ensures
        final(dst)@ == old(dst)@ + src@,
{
    let chars = chars_of(src);
    push_all(dst, &chars);
}

/// The characters of `s` from position `from` up to, not including, `to`.
pub fn slice_of(s: &Vec<char>, from: usize, to: usize) -> (res: Vec<char>)
    requires
        from <= to <= s.len(),
    ensures
        res@ == s@.subrange(from as int, to as int),
{
    let mut res: Vec<char> = Vec::new();
    let mut i: usize = from;
    while i < to
        invariant
            from <= i <= to <= s.len(),
            res@ == s@.subrange(from as int, i as int),
        decreases to - i,
    {
        res.push(s[i]);
        i += 1;
    }
    res
}

/// Whether `pat` occurs in `s` at position `i`.
pub fn matches_at(s: &Vec<char>, pat: &Vec<char>, i: usize) -> (res: bool)
    ensures
        res == occurs_at(s@, pat@, i as int),
{
    if pat.len() > s.len() || i > s.len() - pat.len() {
        return false;
    }
    let mut k: usize = 0;
    while k < pat.len()
        invariant
            k <= pat.len(),
            i + pat.len() <= s.len(),
            forall|j: int| 0 <= j < k ==> s@[i + j] == pat@[j],
        decreases pat.len() - k,
    {
        if s[i + k] != pat[k] {
            proof {
                let sub = s@.subrange(i as int, i + pat.len());
                assert(sub[k as int] == s@[i + k]);
            }
            return false;
        }
        k += 1;
    }
    assert(s@.subrange(i as int, i + pat.len()) =~= pat@);
    true
}

/// The first position at or after `from` where `pat` occurs in `s`, or the
/// length of `s`.
pub fn find_from(s: &Vec<char>, pat: &Vec<char>, from: usize) -> (res: usize)
    requires
        from <= s.len(),
    ensures
        res == first_occurrence(s@, pat@, from as int),
        from <= res <= s.len(),
{
    let mut i: usize = from;
    while i < s.len()
        invariant
            from <= i <= s.len(),
            first_occurrence(s@, pat@, from as int) == first_occurrence(s@, pat@, i as int),
        decreases s.len() - i,
    {
        if matches_at(s, pat, i) {
            return i;
        }
        i += 1;
    }
    i
}

/// The last position where `pat` occurs in `s`, if there is one.
pub fn find_last(s: &Vec<char>, pat: &Vec<char>) -> (res: Option<usize>)
    ensures
        match res {
            Some(at) => at == last_occurrence(s@, pat@, s@.len() as int),
            None => last_occurrence(s@, pat@, s@.len() as int) < 0,
        },
{
    let mut i: usize = s.len();
    loop
        invariant
            i <= s.len(),
            last_occurrence(s@, pat@, s@.len() as int) == last_occurrence(s@, pat@, i as int),
        decreases i,
    {
        if matches_at(s, pat, i) {
            return Some(i);
        }
        if i == 0 {
            assert(last_occurrence(s@, pat@, -1) == -1);
            return None;
        }
        i -= 1;
    }
}

/// Whether `pat` occurs in `s`.
pub fn contains_text(s: &Vec<char>, pat: &Vec<char>) -> (res: bool)
    ensures
        res == contains(s@, pat@),
{
    if matches_at(s, pat, s.len()) {
        return true;
    }
    let at = find_from(s, pat, 0);
    proof {
        lemma_first_occurrence_bounds(s@, pat@, 0);
        if at >= s.len() {
            assert forall|j: int| !occurs_at(s@, pat@, j) by {
                if occurs_at(s@, pat@, j) {
                    assert(j < s@.len() || j == s@.len());
                }
            }
        }
    }
    at < s.len()
}

/// `s` with every occurrence of `from` replaced by `to`.
pub fn replace_text(s: &Vec<char>, from: &Vec<char>, to: &Vec<char>) -> (res: Vec<char>)
    ensures
        res@ == replace_all(s@, from@, to@),
{
    let mut res: Vec<char> = Vec::new();
    let mut i: usize = 0;
    proof {
        assert(s@.skip(0) =~= s@);
        assert(res@ + replace_all(s@, from@, to@) =~= replace_all(s@, from@, to@));
    }
    while i < s.len()
        invariant
            i <= s.len(),
            res@ + replace_all(s@.skip(i as int), from@, to@) == replace_all(s@, from@, to@),
        decreases s.len() - i,
    {
        let ghost rest = s@.skip(i as int);
        let ghost before = res@;
        proof {
            assert(rest.len() > 0);
            assert(rest[0] == s@[i as int]);
            assert(occurs_at(rest, from@, 0) == occurs_at(s@, from@, i as int)) by {
                if i + from@.len() <= s@.len() {
                    assert(rest.subrange(0, from@.len() as int) =~= s@.subrange(
                        i as int,
                        i + from@.len(),
                    ));
                }
            }
        }
        if from.len() == 0 {
            push_all(&mut res, to);
            res.push(s[i]);
            proof {
                assert(rest.skip(1) =~= s@.skip(i + 1));
                assert(res@ + replace_all(s@.skip(i + 1), from@, to@) =~= before + (to@
                    + seq![s@[i as int]] + replace_all(rest.skip(1), from@, to@)));
            }
            i += 1;
        } else if matches_at(s, from, i) {
            push_all(&mut res, to);
            proof {
                assert(rest.skip(from@.len() as int) =~= s@.skip(i + from@.len()));
                assert(res@ + replace_all(s@.skip(i + from@.len()), from@, to@) =~= before + (to@
                    + replace_all(rest.skip(from@.len() as int), from@, to@)));
            }
            i += from.len();
        } else {
            res.push(s[i]);
            proof {
                assert(rest.skip(1) =~= s@.skip(i + 1));
                assert(res@ + replace_all(s@.skip(i + 1), from@, to@) =~= before + (seq![
                    s@[i as int],
                ] + replace_all(rest.skip(1), from@, to@)));
            }
            i += 1;
        }
    }
    proof {
        assert(s@.skip(i as int).len() == 0);
    }
    if from.len() == 0 {
        push_all(&mut res, to);
    }
    proof {
        assert(res@ =~= replace_all(s@, from@, to@));
    }
    res
}

/// `s` with every occurrence of `from` replaced by `to`.
pub fn replace(s: &str, from: &str, to: &str) -> (res: String)
    ensures
        res@ == replace_all(s@, from@, to@),
{
    let replaced = replace_text(&chars_of(s), &chars_of(from), &chars_of(to));
    string_of(&replaced)
}

/// Whether `a` stands before `b` in the order of strings.
pub fn stands_before(a: &str, b: &str) -> (res: bool)
    ensures
        res == text_before(a@, b@),
{
    let left = chars_of(a);
    let right = chars_of(b);
    let mut i: usize = 0;
    proof {
        assert(left@.skip(0) =~= left@);
        assert(right@.skip(0) =~= right@);
    }
    while i < left.len() && i < right.len()
        invariant
            i <= left@.len(),
            i <= right@.len(),
            left@ == a@,
            right@ == b@,
            text_before(left@, right@) == text_before(left@.skip(i as int), right@.skip(i as int)),
        decreases left@.len() - i,
    {
        proof {
            assert(left@.skip(i as int)[0] == left@[i as int]);
            assert(right@.skip(i as int)[0] == right@[i as int]);
            assert(left@.skip(i as int).skip(1) =~= left@.skip(i + 1));
            assert(right@.skip(i as int).skip(1) =~= right@.skip(i + 1));
        }
        if left[i] != right[i] {
            let code = left[i] as u32;
            let other = right[i] as u32;
            return code < other;
        }
        i += 1;
    }
    i < right.len()
}

/// Whether two string slices hold the same text.
pub fn same_str(a: &str, b: &str) -> (res: bool)
    ensures
        res == (a@ == b@),
{
    let left = a.to_owned();
    let right = b.to_owned();
    left == right
}

/// `a` followed by `b`.
pub fn concat2(a: &str, b: &str) -> (res: String)
    ensures
        res@ == a@ + b@,
{
    let mut res = a.to_owned();
    res.append(b);
    res
}

/// `a` followed by `b` and `c`.
pub fn concat3(a: &str, b: &str, c: &str) -> (res: String)
    ensures
        res@ == a@ + b@ + c@,
{
    let mut res = a.to_owned();
    res.append(b);
    res.append(c);
    res
}

/// Whether `s` begins with `pat`.
pub fn has_prefix(s: &str, pat: &str) -> (res: bool)
    ensures
        res == starts_with(s@, pat@),
{
    matches_at(&chars_of(s), &chars_of(pat), 0)
}

/// Whether `s` ends with `pat`.
pub fn has_suffix(s: &str, pat: &str) -> (res: bool)
    ensures
        res == ends_with(s@, pat@),
{
    let text = chars_of(s);
    let tail = chars_of(pat);
    if tail.len() > text.len() {
        return false;
    }
    matches_at(&text, &tail, text.len() - tail.len())
}

/// The text after the last occurrence of `pat` in `s`, or all of `s`.
pub fn text_after_last(s: &Vec<char>, pat: &Vec<char>) -> (res: Vec<char>)
    ensures
        res@ == after_last(s@, pat@),
{
    let end = s.len();
    match find_last(s, pat) {
        Some(at) => {
            proof {
                lemma_last_occurrence_bounds(s@, pat@, s@.len() as int);
            }
            slice_of(s, at + pat.len(), end)
        },
        None => {
            let res = slice_of(s, 0, s.len());
            assert(res@ =~= s@);
            res
        },
    }
}

/// The text before the first occurrence of `pat` in `s`, or all of `s`.
pub fn text_before_first(s: &Vec<char>, pat: &Vec<char>) -> (res: Vec<char>)
    ensures
        res@ == before_first(s@, pat@),
{
    let at = find_from(s, pat, 0);
    slice_of(s, 0, at)
}

/// Appends the strings of `src` to `dst`.
pub fn push_strings(dst: &mut Vec<String>, src: &Vec<String>)
    ensures
        final(dst)@ == old(dst)@ + src@,
{
    let mut i: usize = 0;
    while i < src.len()
        invariant
            i <= src@.len(),
            dst@ == old(dst)@ + src@.take(i as int),
        decreases src@.len() - i,
    {
        dst.push(src[i].clone());
        i += 1;
    }
    assert(src@.take(src@.len() as int) == src@);
}

/// The texts of two lists, one after the other, are the texts of the lists
/// one after the other.
pub proof fn lemma_texts_add(a: Seq<String>, b: Seq<String>)
    ensures
        texts(a + b) == texts(a) + texts(b),
{
    assert(texts(a + b) =~= texts(a) + texts(b));
}

/// Appending a string to a list appends its text to the list's texts.
pub proof fn lemma_texts_push(v: Seq<String>, s: String)
    ensures
        texts(v.push(s)) == texts(v).push(s@),
{
    assert(texts(v.push(s)) =~= texts(v).push(s@));
}

/// The lines of `s`.
pub fn split_lines(s: &Vec<char>) -> (res: Vec<Vec<char>>)
    ensures
        rows(res@) == lines(s@),
{
    let mut res: Vec<Vec<char>> = Vec::new();
    let mut feed: Vec<char> = Vec::new();
    feed.push('\n');
    assert(feed@ =~= line_feed());
    let mut i: usize = 0;
    proof {
        assert(s@.skip(0) =~= s@);
        assert(rows(res@) + lines(s@) =~= lines(s@));
    }
    while i < s.len()
        invariant
            i <= s.len(),
            feed@ == line_feed(),
            rows(res@) + lines(s@.skip(i as int)) == lines(s@),
        decreases s.len() - i,
    {
        let ghost rest = s@.skip(i as int);
        let ghost before = rows(res@);
        let end = find_from(s, &feed, i);
        proof {
            lemma_first_occurrence_shift(s@, feed@, i as int, 0);
            assert(first_occurrence(rest, line_feed(), 0) == end - i);
        }
        if end >= s.len() {
            let line = slice_of(s, i, s.len());
            proof {
                assert(line@ =~= rest);
            }
            res.push(line);
            proof {
                assert(rows(res@) =~= before.push(rest));
                assert(lines(s@.skip(s@.len() as int)) =~= seq![]);
                assert(rows(res@) + lines(s@.skip(s@.len() as int)) =~= before + seq![rest]);
            }
            i = s.len();
        } else {
            let mut stop = end;
            if stop > i && s[stop - 1] == '\r' {
                stop -= 1;
            }
            let line = slice_of(s, i, stop);
            proof {
                assert(rest.take(end - i) =~= s@.subrange(i as int, end as int));
                assert(line@ =~= without_carriage_return(rest.take(end - i)));
                assert(rest.skip(end - i + 1) =~= s@.skip(end + 1));
            }
            res.push(line);
            proof {
                assert(rows(res@) =~= before.push(line@));
                assert(rows(res@) + lines(s@.skip(end + 1)) =~= before + (seq![line@] + lines(
                    rest.skip(end - i + 1),
                )));
            }
            i = end + 1;
        }
    }
    proof {
        assert(lines(s@.skip(i as int)) =~= seq![]);
        assert(rows(res@) + Seq::<Seq<char>>::empty() =~= rows(res@));
    }
    res
}

/// Searching the text from `from` on finds what searching the whole text from
/// `from` finds.
pub proof fn lemma_first_occurrence_shift(s: Seq<char>, pat: Seq<char>, from: int, k: int)
    requires
        0 <= from <= s.len(),
        0 <= k <= s.len() - from,
    ensures
        first_occurrence(s.skip(from), pat, k) == first_occurrence(s, pat, from + k) - from,
    decreases s.len() - from - k,
{
    let rest = s.skip(from);
    if k < rest.len() {
        assert(occurs_at(rest, pat, k) == occurs_at(s, pat, from + k)) by {
            if from + k + pat.len() <= s.len() {
                assert(rest.subrange(k, k + pat.len()) =~= s.subrange(
                    from + k,
                    from + k + pat.len(),
                ));
            }
        }
        if !occurs_at(rest, pat, k) {
            lemma_first_occurrence_shift(s, pat, from, k + 1);
        }
    }
}

/// The decimal numeral of `n`.
pub fn decimal_of(n: u64) -> (res: Vec<char>)
    ensures
        res@ == decimal(n as nat),
    decreases n,
{
    if n < 10 {
        let mut res: Vec<char> = Vec::new();
        res.push(digit_of(n));
        res
    } else {
        let mut res = decimal_of(n / 10);
        res.push(digit_of(n % 10));
        res
    }
}

/// The decimal numeral of `n` with zeros in front up to `width` characters.
pub fn padded_decimal_of(n: u64, width: usize) -> (res: Vec<char>)
    ensures
        res@ == zero_padded(decimal(n as nat), width as nat),
{
    let digits = decimal_of(n);
    let mut res: Vec<char> = Vec::new();
    if digits.len() < width {
        let missing = width - digits.len();
        let mut i: usize = 0;
        while i < missing
            invariant
                i <= missing,
                res@ == Seq::new(i as nat, |k: int| '0'),
            decreases missing - i,
        {
            res.push('0');
            assert(res@ =~= Seq::new((i + 1) as nat, |k: int| '0'));
            i += 1;
        }
    }
    push_all(&mut res, &digits);
    res
}

/// The pieces of `s` between the occurrences of `separator`.
pub fn split_text(s: &Vec<char>, separator: &Vec<char>) -> (res: Vec<Vec<char>>)
    ensures
        rows(res@) == split_on(s@, separator@),
{
    let mut res: Vec<Vec<char>> = Vec::new();
    let end = s.len();
    if separator.len() == 0 {
        let piece = slice_of(s, 0, end);
        assert(piece@ =~= s@);
        res.push(piece);
        assert(rows(res@) =~= seq![s@]);
        return res;
    }
    proof {
        assert(s@.skip(0) =~= s@);
        assert(rows(res@) + split_on(s@, separator@) =~= split_on(s@, separator@));
    }
    let mut i: usize = 0;
    let mut done = false;
    while !done
        invariant
            i <= s@.len(),
            end == s@.len(),
            separator@.len() > 0,
            !done ==> rows(res@) + split_on(s@.skip(i as int), separator@) == split_on(
                s@,
                separator@,
            ),
            done ==> rows(res@) == split_on(s@, separator@),
        decreases s@.len() - i + if done { 0int } else { 1int },
    {
        let ghost rest = s@.skip(i as int);
        let ghost before = rows(res@);
        let at = find_from(s, separator, i);
        proof {
            lemma_first_occurrence_shift(s@, separator@, i as int, 0);
            lemma_first_occurrence_bounds(s@, separator@, i as int);
        }
        if at >= end {
            let piece = slice_of(s, i, end);
            proof {
                assert(piece@ =~= rest);
            }
            res.push(piece);
            proof {
                assert(rows(res@) =~= before + seq![rest]);
            }
            done = true;
        } else {
            let piece = slice_of(s, i, at);
            proof {
                assert(piece@ =~= rest.take(at - i));
                assert(occurs_at(s@, separator@, at as int));
                assert(rest.subrange(at - i, at - i + separator@.len()) =~= s@.subrange(
                    at as int,
                    at + separator@.len(),
                ));
                assert(occurs_at(rest, separator@, at - i));
                assert(first_occurrence(rest, separator@, 0) == at - i);
                assert(rest.skip(at - i + separator@.len()) =~= s@.skip(at + separator@.len()));
            }
            res.push(piece);
            proof {
                assert(rows(res@) =~= before.push(piece@));
                assert(rows(res@) + split_on(s@.skip(at + separator@.len()), separator@) =~= before
                    + (seq![piece@] + split_on(
                    rest.skip(at - i + separator@.len()),
                    separator@,
                )));
            }
            i = at + separator.len();
        }
    }
    res
}

/// The strings of `parts` with `separator` between each two of them.
pub fn join_strings(parts: &Vec<String>, separator: &str) -> (res: String)
    ensures
        res@ == joined_with(texts(parts@), separator@),
{
    let mut res = String::new();
    proof {
        assert(texts(parts@).take(0) =~= seq![]);
        assert(res@ =~= seq![]);
    }
    let mut i: usize = 0;
    while i < parts.len()
        invariant
            i <= parts@.len(),
            res@ == joined_with(texts(parts@).take(i as int), separator@),
        decreases parts@.len() - i,
    {
        proof {
            assert(texts(parts@).take(i + 1).drop_last() =~= texts(parts@).take(i as int));
            assert(texts(parts@).take(i + 1).last() == parts@[i as int]@);
        }
        if i > 0 {
            res.append(separator);
        }
        let ghost before = res@;
        res.append(parts[i].as_str());
        proof {
            if i == 0 {
                assert(before =~= seq![]);
                assert(res@ =~= parts@[0]@);
                assert(texts(parts@).take(1)[0] == parts@[0]@);
            }
        }
        i += 1;
    }
    proof {
        assert(texts(parts@).take(parts@.len() as int) =~= texts(parts@));
    }
    res
}

/// The digit character of a value below ten.
fn digit_of(d: u64) -> (res: char)
    requires
        d < 10,
    ensures
        res == digit(d as nat),
{
    if d == 0 {
        '0'
    } else if d == 1 {
        '1'
    } else if d == 2 {
        '2'
    } else if d == 3 {
        '3'
    } else if d == 4 {
        '4'
    } else if d == 5 {
        '5'
    } else if d == 6 {
        '6'
    } else if d == 7 {
        '7'
    } else if d == 8 {
        '8'
    } else {
        '9'
    }
}

} // verus!
