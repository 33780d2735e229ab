//! Searching and cutting text, seen as a sequence of characters.

use vstd::prelude::*;

verus! {

/// `String::push` appends one character to the end of the string.
pub assume_specification[ String::push ](s: &mut String, ch: char)
    ensures
        final(s)@ == old(s)@.push(ch),
;

/// Whether `pat` stands in `text` at index `at`.
pub open spec fn occurs_at(text: Seq<char>, pat: Seq<char>, at: int) -> bool {
    &&& 0 <= at
    &&& at + pat.len() <= text.len()
    &&& text.subrange(at, at + pat.len()) == pat
}

/// The first index at or after `from` at which `pat` stands in `text`.
pub open spec fn find_from(text: Seq<char>, pat: Seq<char>, from: int) -> Option<int>
    decreases text.len() - from + 1,
{
    if from < 0 || from + pat.len() > text.len() {
        None
    } else if occurs_at(text, pat, from) {
        Some(from)
    } else {
        find_from(text, pat, from + 1)
    }
}

/// The first index at which `pat` stands in `text`.
pub open spec fn find(text: Seq<char>, pat: Seq<char>) -> Option<int> {
    find_from(text, pat, 0)
}

pub open spec fn contains(text: Seq<char>, pat: Seq<char>) -> bool {
    find(text, pat) is Some
}

pub open spec fn starts_with(text: Seq<char>, pat: Seq<char>) -> bool {
    occurs_at(text, pat, 0)
}

/// What follows `pat` at the start of `text`, where `text` starts with it.
pub open spec fn strip_prefix(text: Seq<char>, pat: Seq<char>) -> Option<Seq<char>> {
    if starts_with(text, pat) {
        Some(text.skip(pat.len() as int))
    } else {
        None
    }
}

/// `text` from index `from` on, without the occurrences of `pat`, which are
/// taken from left to right and do not overlap. An empty `pat` removes nothing.
pub open spec fn remove_all_from(text: Seq<char>, pat: Seq<char>, from: int) -> Seq<char>
    decreases text.len() - from,
{
    if from < 0 || from >= text.len() {
        Seq::empty()
    } else if pat.len() > 0 && occurs_at(text, pat, from) {
        remove_all_from(text, pat, from + pat.len())
    } else {
        seq![text[from]] + remove_all_from(text, pat, from + 1)
    }
}

pub open spec fn remove_all(text: Seq<char>, pat: Seq<char>) -> Seq<char> {
    remove_all_from(text, pat, 0)
}

/// `find_from` gives the least index from `from` on at which `pat` stands, and
/// `None` exactly when there is none.
pub proof fn lemma_find_from(text: Seq<char>, pat: Seq<char>, from: int)
    requires
        0 <= from,
    ensures
        match find_from(text, pat, from) {
            Some(i) => from <= i && occurs_at(text, pat, i) && forall|j: int|
                from <= j < i ==> !occurs_at(text, pat, j),
            None => forall|j: int| from <= j ==> !occurs_at(text, pat, j),
        },
    decreases text.len() - from + 1,
{
    if from + pat.len() > text.len() {
    } else if occurs_at(text, pat, from) {
    } else {
        lemma_find_from(text, pat, from + 1);
    }
}

/// The characters of `s`, in order.
pub fn to_chars(s: &str) -> (chars: Vec<char>)
    ensures
        chars@ == s@,
{
    let mut chars: Vec<char> = Vec::new();
    for c in it: s.chars()
        invariant
            it.seq() == s@,
            chars@ == s@.take(it.index() as int),
    {
        chars.push(c);
    }
    chars
}

/// The string made of `chars`, in order.
pub fn from_chars(chars: &Vec<char>) -> (s: String)
    ensures
        s@ == chars@,
{
    let mut s = String::new();
    let mut i: usize = 0;
    while i < chars.len()
        invariant
            i <= chars.len(),
            s@ == chars@.take(i as int),
        decreases chars.len() - i,
    {
        s.push(chars[i]);
        i += 1;
    }
    s
}

pub fn chars_eq(a: &Vec<char>, b: &Vec<char>) -> (same: bool)
    ensures
        same == (a@ == b@),
{
    if a.len() != b.len() {
        return false;
    }
    let mut i: usize = 0;
    while i < a.len()
        invariant
            i <= a.len(),
            a.len() == b.len(),
            a@.take(i as int) == b@.take(i as int),
        decreases a.len() - i,
    {
        if a[i] != b[i] {
            return false;
        }
        assert(a@.take(i + 1) == a@.take(i as int).push(a@[i as int]));
        assert(b@.take(i + 1) == b@.take(i as int).push(b@[i as int]));
        i += 1;
    }
    assert(a@ == a@.take(a.len() as int));
    assert(b@ == b@.take(b.len() as int));
    true
}

/// The characters of `chars` from index `from` up to, not including, `to`.
pub fn subvec(chars: &Vec<char>, from: usize, to: usize) -> (part: Vec<char>)
    requires
        from <= to <= chars.len(),
    ensures
        part@ == chars@.subrange(from as int, to as int),
{
    let mut part: Vec<char> = Vec::new();
    let mut i: usize = from;
    while i < to
        invariant
            from <= i <= to <= chars.len(),
            part@ == chars@.subrange(from as int, i as int),
        decreases to - i,
    {
        part.push(chars[i]);
        i += 1;
    }
    part
}

pub fn matches_at(text: &Vec<char>, pat: &Vec<char>, at: usize) -> (found: bool)
    ensures
        found == occurs_at(text@, pat@, at as int),
{
    if pat.len() > text.len() || at > text.len() - pat.len() {
        return false;
    }
    let mut i: usize = 0;
    while i < pat.len()
        invariant
            i <= pat.len(),
            at + pat.len() <= text.len(),
            forall|k: int| 0 <= k < i ==> text@[at + k] == pat@[k],
        decreases pat.len() - i,
    {
        if text[at + i] != pat[i] {
            assert(text@.subrange(at as int, at + pat.len())[i as int] != pat@[i as int]);
            return false;
        }
        i += 1;
    }
    assert(text@.subrange(at as int, at + pat.len()) =~= pat@);
    true
}

pub fn find_in(text: &Vec<char>, pat: &Vec<char>, from: usize) -> (found: Option<usize>)
    ensures
        match found {
            Some(i) => find_from(text@, pat@, from as int) == Some(i as int),
            None => find_from(text@, pat@, from as int) is None,
        },
{
    if pat.len() > text.len() {
        return None;
    }
    let last: usize = text.len() - pat.len();
    let mut i: usize = from;
    while i <= last
        invariant
            from <= i,
            last == text.len() - pat.len(),
            find_from(text@, pat@, from as int) == find_from(text@, pat@, i as int),
        decreases last + 1 - i,
    {
        if matches_at(text, pat, i) {
            return Some(i);
        }
        if i == last {
            assert(find_from(text@, pat@, i + 1) is None);
            return None;
        }
        i += 1;
    }
    None
}

pub fn includes(text: &Vec<char>, pat: &Vec<char>) -> (found: bool)
    ensures
        found == contains(text@, pat@),
{
    find_in(text, pat, 0).is_some()
}

/// The rest of `text` after `pat`, where `text` starts with `pat`.
pub fn without_prefix(text: &Vec<char>, pat: &Vec<char>) -> (rest: Option<Vec<char>>)
    ensures
        match rest {
            Some(r) => strip_prefix(text@, pat@) == Some(r@),
            None => strip_prefix(text@, pat@) is None,
        },
{
    if matches_at(text, pat, 0) {
        Some(subvec(text, pat.len(), text.len()))
    } else {
        None
    }
}

pub fn without_all(text: &Vec<char>, pat: &Vec<char>) -> (rest: Vec<char>)
    ensures
        rest@ == remove_all(text@, pat@),
{
    let mut rest: Vec<char> = Vec::new();
    let mut i: usize = 0;
    while i < text.len()
        invariant
            i <= text.len(),
            rest@ + remove_all_from(text@, pat@, i as int) == remove_all(text@, pat@),
        decreases text.len() - i,
    {
        if pat.len() > 0 && matches_at(text, pat, i) {
            i += pat.len();
        } else {
            proof {
                let tail = remove_all_from(text@, pat@, i + 1);
                assert(rest@.push(text@[i as int]) + tail =~= rest@ + (seq![text@[i as int]] + tail));
            }
            rest.push(text[i]);
            i += 1;
        }
    }
    assert(rest@ + Seq::<char>::empty() =~= rest@);
    rest
}

/// Whether `c` is white space as Unicode defines it (the property White_Space).
pub open spec fn is_whitespace(c: char) -> bool {
    let n = c as u32;
    ||| 0x09 <= n <= 0x0D
    ||| n == 0x20
    ||| n == 0x85
    ||| n == 0xA0
    ||| n == 0x1680
    ||| 0x2000 <= n <= 0x200A
    ||| n == 0x2028
    ||| n == 0x2029
    ||| n == 0x202F
    ||| n == 0x205F
    ||| n == 0x3000
}

/// What is cut from both ends of a text: white space, or one given character.
#[derive(Clone, Copy, Debug, PartialEq, Eq)]
pub enum Cut {
    Whitespace,
    Char(char),
}

impl Cut {
    pub open spec fn takes(self, c: char) -> bool {
        match self {
            Cut::Whitespace => is_whitespace(c),
            Cut::Char(d) => c == d,
        }
    }

    pub fn cuts(&self, c: char) -> (cut: bool)
        ensures
            cut == self.takes(c),
    {
        match self {
            Cut::Whitespace => {
                let n: u32 = c as u32;
                (0x09 <= n && n <= 0x0D) || n == 0x20 || n == 0x85 || n == 0xA0 || n == 0x1680
                    || (0x2000 <= n && n <= 0x200A) || n == 0x2028 || n == 0x2029 || n == 0x202F
                    || n == 0x205F || n == 0x3000
            },
            Cut::Char(d) => c == *d,
        }
    }
}

/// The first index from `from` on whose character `cut` does not take, or the
/// length of `text`.
pub open spec fn skip_forward(text: Seq<char>, cut: Cut, from: int) -> int
    decreases text.len() - from,
{
    if 0 <= from < text.len() && cut.takes(text[from]) {
        skip_forward(text, cut, from + 1)
    } else {
        from
    }
}

/// The least end, not below `low`, such that `cut` takes every character from
/// it up to `to`.
pub open spec fn skip_backward(text: Seq<char>, cut: Cut, low: int, to: int) -> int
    decreases to - low,
{
    if low < to <= text.len() && 0 <= low && cut.takes(text[to - 1]) {
        skip_backward(text, cut, low, to - 1)
    } else {
        to
    }
}

/// `text` without the characters that `cut` takes at its start and at its end.
pub open spec fn trim_by(text: Seq<char>, cut: Cut) -> Seq<char> {
    let start = skip_forward(text, cut, 0);
    text.subrange(start, skip_backward(text, cut, start, text.len() as int))
}

/// `text` without the white space at its start and at its end.
pub open spec fn trim(text: Seq<char>) -> Seq<char> {
    trim_by(text, Cut::Whitespace)
}

/// `text` without the run of `c` at its start and at its end.
pub open spec fn trim_matches(text: Seq<char>, c: char) -> Seq<char> {
    trim_by(text, Cut::Char(c))
}

pub proof fn lemma_skip_forward_bounds(text: Seq<char>, cut: Cut, from: int)
    requires
        0 <= from <= text.len(),
    ensures
        from <= skip_forward(text, cut, from) <= text.len(),
    decreases text.len() - from,
{
    if from < text.len() && cut.takes(text[from]) {
        lemma_skip_forward_bounds(text, cut, from + 1);
    }
}

pub proof fn lemma_skip_backward_bounds(text: Seq<char>, cut: Cut, low: int, to: int)
    requires
        0 <= low <= to <= text.len(),
    ensures
        low <= skip_backward(text, cut, low, to) <= to,
    decreases to - low,
{
    if low < to && cut.takes(text[to - 1]) {
        lemma_skip_backward_bounds(text, cut, low, to - 1);
    }
}

/// A trimmed text neither starts nor ends with a character that was cut.
pub proof fn lemma_trim_by_ends(text: Seq<char>, cut: Cut)
    ensures
        trim_by(text, cut).len() > 0 ==> !cut.takes(trim_by(text, cut).first()) && !cut.takes(
            trim_by(text, cut).last(),
        ),
{
    let start = skip_forward(text, cut, 0);
    lemma_skip_forward_bounds(text, cut, 0);
    lemma_skip_forward_stops(text, cut, 0);
    lemma_skip_backward_bounds(text, cut, start, text.len() as int);
    lemma_skip_backward_stops(text, cut, start, text.len() as int);
}

proof fn lemma_skip_forward_stops(text: Seq<char>, cut: Cut, from: int)
    requires
        0 <= from <= text.len(),
    ensures
        skip_forward(text, cut, from) < text.len() ==> !cut.takes(
            text[skip_forward(text, cut, from)],
        ),
    decreases text.len() - from,
{
    if from < text.len() && cut.takes(text[from]) {
        lemma_skip_forward_stops(text, cut, from + 1);
    }
}

proof fn lemma_skip_backward_stops(text: Seq<char>, cut: Cut, low: int, to: int)
    requires
        0 <= low <= to <= text.len(),
    ensures
        low < skip_backward(text, cut, low, to) ==> !cut.takes(
            text[skip_backward(text, cut, low, to) - 1],
        ),
    decreases to - low,
{
    if low < to && cut.takes(text[to - 1]) {
        lemma_skip_backward_stops(text, cut, low, to - 1);
    }
}

pub fn trimmed_by(text: &Vec<char>, cut: Cut) -> (rest: Vec<char>)
    ensures
        rest@ == trim_by(text@, cut),
{
    let mut start: usize = 0;
    while start < text.len() && cut.cuts(text[start])
        invariant
            start <= text.len(),
            skip_forward(text@, cut, 0) == skip_forward(text@, cut, start as int),
        decreases text.len() - start,
    {
        start += 1;
    }
    let mut end: usize = text.len();
    while start < end && cut.cuts(text[end - 1])
        invariant
            start <= end <= text.len(),
            skip_backward(text@, cut, start as int, text.len() as int) == skip_backward(
                text@,
                cut,
                start as int,
                end as int,
            ),
        decreases end - start,
    {
        end -= 1;
    }
    subvec(text, start, end)
}

pub fn trimmed(text: &Vec<char>) -> (rest: Vec<char>)
    ensures
        rest@ == trim(text@),
{
    trimmed_by(text, Cut::Whitespace)
}

/// `line` without one carriage return at its end.
pub open spec fn strip_cr(line: Seq<char>) -> Seq<char> {
    if line.len() > 0 && line.last() == '\r' {
        line.drop_last()
    } else {
        line
    }
}

/// The index behind the last `sep` before index `n`, or 0 where there is none.
pub open spec fn after_last(text: Seq<char>, sep: char, n: int) -> int
    decreases n,
{
    if n <= 0 {
        0
    } else if text[n - 1] == sep {
        n
    } else {
        after_last(text, sep, n - 1)
    }
}

/// Where the line that holds index `n` starts: behind the last line feed
/// before `n`.
pub open spec fn line_start(text: Seq<char>, n: int) -> int {
    after_last(text, '\n', n)
}

/// How often `c` stands in the first `n` characters of `text`.
pub open spec fn count_char(text: Seq<char>, c: char, n: int) -> nat
    decreases n,
{
    if n <= 0 {
        0
    } else if text[n - 1] == c {
        count_char(text, c, n - 1) + 1
    } else {
        count_char(text, c, n - 1)
    }
}

/// The lines that a line feed ends before index `n`, each without its line
/// feed and without a carriage return before it.
pub open spec fn ended_lines(text: Seq<char>, n: int) -> Seq<Seq<char>>
    decreases n,
{
    if n <= 0 {
        Seq::empty()
    } else if text[n - 1] == '\n' {
        ended_lines(text, n - 1).push(strip_cr(text.subrange(line_start(text, n - 1), n - 1)))
    } else {
        ended_lines(text, n - 1)
    }
}

/// The lines of `text`. A line ends at a line feed, or at a carriage return
/// followed by a line feed; what follows the last line feed is a line of its
/// own unless it is empty, and keeps a carriage return at its end.
pub open spec fn lines(text: Seq<char>) -> Seq<Seq<char>> {
    let n = text.len() as int;
    let start = line_start(text, n);
    if start < n {
        ended_lines(text, n).push(text.subrange(start, n))
    } else {
        ended_lines(text, n)
    }
}

pub proof fn lemma_after_last_bounds(text: Seq<char>, sep: char, n: int)
    requires
        0 <= n <= text.len(),
    ensures
        0 <= after_last(text, sep, n) <= n,
        after_last(text, sep, n) > 0 ==> text[after_last(text, sep, n) - 1] == sep,
        forall|i: int| after_last(text, sep, n) <= i < n ==> text[i] != sep,
    decreases n,
{
    if n > 0 && text[n - 1] != sep {
        lemma_after_last_bounds(text, sep, n - 1);
    }
}

pub proof fn lemma_count_char_bounds(text: Seq<char>, c: char, n: int)
    requires
        0 <= n <= text.len(),
    ensures
        count_char(text, c, n) <= n,
    decreases n,
{
    if n > 0 {
        lemma_count_char_bounds(text, c, n - 1);
    }
}

/// The index behind the last `sep` in `text`, or 0.
pub fn index_after_last(text: &Vec<char>, sep: char) -> (index: usize)
    ensures
        index == after_last(text@, sep, text.len() as int),
        index <= text.len(),
{
    let mut index: usize = 0;
    let mut i: usize = 0;
    while i < text.len()
        invariant
            index <= i <= text.len(),
            index == after_last(text@, sep, i as int),
        decreases text.len() - i,
    {
        if text[i] == sep {
            index = i + 1;
        }
        i += 1;
    }
    index
}

pub fn count_of(text: &Vec<char>, c: char) -> (count: usize)
    ensures
        count == count_char(text@, c, text.len() as int),
{
    let mut count: usize = 0;
    let mut i: usize = 0;
    while i < text.len()
        invariant
            i <= text.len(),
            count <= i,
            count == count_char(text@, c, i as int),
        decreases text.len() - i,
    {
        if text[i] == c {
            count += 1;
        }
        i += 1;
    }
    count
}

/// The views of the lines held in `v`.
pub open spec fn views(v: Seq<Vec<char>>) -> Seq<Seq<char>> {
    v.map_values(|line: Vec<char>| line@)
}

pub fn split_lines(text: &Vec<char>) -> (all: Vec<Vec<char>>)
    ensures
        views(all@) == lines(text@),
{
    let mut all: Vec<Vec<char>> = Vec::new();
    let mut start: usize = 0;
    let mut i: usize = 0;
    while i < text.len()
        invariant
            start <= i <= text.len(),
            start == line_start(text@, i as int),
            views(all@) == ended_lines(text@, i as int),
        decreases text.len() - i,
    {
        if text[i] == '\n' {
            let end: usize = if start < i && text[i - 1] == '\r' {
                i - 1
            } else {
                i
            };
            let line = subvec(text, start, end);
            proof {
                let whole = text@.subrange(start as int, i as int);
                assert(line@ =~= strip_cr(whole));
                assert(views(all@.push(line)) =~= views(all@).push(line@));
            }
            all.push(line);
            start = i + 1;
        }
        i += 1;
    }
    if start < text.len() {
        let line = subvec(text, start, text.len());
        proof {
            assert(views(all@.push(line)) =~= views(all@).push(line@));
        }
        all.push(line);
    }
    all
}

} // verus!
