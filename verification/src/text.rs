//! Text primitives of the line-oriented format that the player-control
//! program prints: trimming, searching, splitting into lines.
//!
//! Every operation is stated over `Seq<char>`, the view of a string, and the
//! executable functions work on slices of `char` so that each step is a
//! constant-time index.

use vstd::prelude::*;
use vstd::slice::slice_subrange;
use vstd::string::StringSliceAdditionalSpecFns;
use vstd::utf8::encode_utf8_decode_utf8;

verus! {

/// `String::push` appends the given character to the end of the string and
/// changes nothing else.
pub assume_specification[ String::push ](s: &mut String, ch: char)
    ensures
        final(s)@ == old(s)@.push(ch),
;

/// The characters with the Unicode property `White_Space`.
pub open spec fn is_whitespace(c: char) -> bool {
    let n = c as u32;
    ||| 0x09 <= n <= 0x0D
    ||| n == 0x20
    ||| n == 0x85
    ||| n == 0xA0
    ||| n == 0x1680
    ||| 0x2000 <= n <= 0x200A
    ||| n == 0x2028
    ||| n == 0x2029
    ||| n == 0x202F
    ||| n == 0x205F
    ||| n == 0x3000
}

/// The ASCII whitespace characters: space, tab, line feed, form feed and
/// carriage return. The vertical tab is not one of them.
pub open spec fn is_ascii_whitespace(c: char) -> bool {
    c == ' ' || c == '\t' || c == '\n' || c == '\x0C' || c == '\r'
}

/// `s` without its leading whitespace.
pub open spec fn trimmed_start(s: Seq<char>) -> Seq<char>
    decreases s.len(),
{
    if s.len() > 0 && is_whitespace(s[0]) {
        trimmed_start(s.drop_first())
    } else {
        s
    }
}

/// `s` without its trailing whitespace.
pub open spec fn trimmed_end(s: Seq<char>) -> Seq<char>
    decreases s.len(),
{
    if s.len() > 0 && is_whitespace(s.last()) {
        trimmed_end(s.drop_last())
    } else {
        s
    }
}

/// `s` without its leading and trailing whitespace.
pub open spec fn trimmed(s: Seq<char>) -> Seq<char> {
    trimmed_end(trimmed_start(s))
}

/// `s` without its leading ASCII whitespace.
pub open spec fn trimmed_ascii_start(s: Seq<char>) -> Seq<char>
    decreases s.len(),
{
    if s.len() > 0 && is_ascii_whitespace(s[0]) {
        trimmed_ascii_start(s.drop_first())
    } else {
        s
    }
}

/// Whether `pat` stands in `s` at index `i`.
pub open spec fn occurs_at(s: Seq<char>, pat: Seq<char>, i: int) -> bool {
    0 <= i && i + pat.len() <= s.len() && s.subrange(i, i + pat.len()) == pat
}

/// The least index at or after `i` at which `pat` stands in `s`.
pub open spec fn first_match_from(s: Seq<char>, pat: Seq<char>, i: int) -> Option<int>
    decreases s.len() - i + 1,
{
    if i < 0 || i + pat.len() > s.len() {
        None
    } else if occurs_at(s, pat, i) {
        Some(i)
    } else {
        first_match_from(s, pat, i + 1)
    }
}

/// The least index at which `pat` stands in `s`.
pub open spec fn first_match(s: Seq<char>, pat: Seq<char>) -> Option<int> {
    first_match_from(s, pat, 0)
}

/// `s` cut at the first occurrence of `pat`: what stands before it and what
/// stands after it.
pub open spec fn split_at_first(s: Seq<char>, pat: Seq<char>) -> Option<(Seq<char>, Seq<char>)> {
    match first_match(s, pat) {
        Some(i) => Some((s.take(i), s.skip(i + pat.len()))),
        None => None,
    }
}

/// `s` without one trailing carriage return.
pub open spec fn without_cr(s: Seq<char>) -> Seq<char> {
    if s.len() > 0 && s.last() == '\r' {
        s.drop_last()
    } else {
        s
    }
}

/// The first line of a non-empty text: what stands before the first line
/// feed, less one carriage return that precedes the line feed. A text without
/// a line feed is one line and keeps a carriage return at its end.
pub open spec fn first_line(s: Seq<char>) -> Seq<char> {
    match first_match(s, seq!['\n']) {
        Some(i) => without_cr(s.take(i)),
        None => s,
    }
}

/// What follows the first line and its line feed.
pub open spec fn after_first_line(s: Seq<char>) -> Seq<char> {
    match first_match(s, seq!['\n']) {
        Some(i) => s.skip(i + 1),
        None => Seq::empty(),
    }
}

/// The lines of a text. Each line feed ends a line; what follows the last
/// line feed is a line only if it is not empty.
pub open spec fn lines_of(s: Seq<char>) -> Seq<Seq<char>>
    decreases s.len(),
    via lines_of_decreases
{
    if s.len() == 0 {
        Seq::empty()
    } else {
        seq![first_line(s)] + lines_of(after_first_line(s))
    }
}

#[via_fn]
proof fn lines_of_decreases(s: Seq<char>) {
    if s.len() > 0 {
        lemma_first_match_from(s, seq!['\n'], 0);
    }
}

/// What `first_match_from` finds is an occurrence at or after `i`, and no
/// occurrence stands between `i` and it; where it finds none, there is none
/// at or after `i`.
pub proof fn lemma_first_match_from(s: Seq<char>, pat: Seq<char>, i: int)
    requires
        0 <= i,
    ensures
        match first_match_from(s, pat, i) {
            Some(k) => i <= k && occurs_at(s, pat, k) && forall|j: int|
                i <= j < k ==> !occurs_at(s, pat, j),
            None => forall|j: int| i <= j ==> !occurs_at(s, pat, j),
        },
    decreases s.len() - i + 1,
{
    if i + pat.len() > s.len() {
    } else if occurs_at(s, pat, i) {
    } else {
        lemma_first_match_from(s, pat, i + 1);
    }
}

/// `first_match` gives the first occurrence: `pat` stands at the index it
/// returns and at no smaller one, and it returns none only if `pat` stands
/// nowhere in `s`.
pub proof fn lemma_first_match(s: Seq<char>, pat: Seq<char>)
    ensures
        match first_match(s, pat) {
            Some(k) => occurs_at(s, pat, k) && forall|j: int| j < k ==> !occurs_at(s, pat, j),
            None => forall|j: int| !occurs_at(s, pat, j),
        },
{
    lemma_first_match_from(s, pat, 0);
}

/// An occurrence with none before it is the first match.
pub proof fn lemma_first_match_is(s: Seq<char>, pat: Seq<char>, k: int)
    requires
        occurs_at(s, pat, k),
        forall|j: int| 0 <= j < k ==> !occurs_at(s, pat, j),
    ensures
        first_match(s, pat) == Some(k),
{
    lemma_first_match_from(s, pat, 0);
}

/// Where `pat` stands nowhere, there is no first match.
pub proof fn lemma_first_match_none(s: Seq<char>, pat: Seq<char>)
    requires
        forall|j: int| 0 <= j && j + pat.len() <= s.len() ==> !occurs_at(s, pat, j),
    ensures
        first_match(s, pat) is None,
{
    lemma_first_match_from(s, pat, 0);
}

/// Where the first `k` characters are whitespace and the next one is not,
/// trimming the start drops exactly those `k`.
pub proof fn lemma_trimmed_start(s: Seq<char>, k: int)
    requires
        0 <= k <= s.len(),
        forall|i: int| 0 <= i < k ==> is_whitespace(s[i]),
        k < s.len() ==> !is_whitespace(s[k]),
    ensures
        trimmed_start(s) == s.skip(k),
    decreases k,
{
    if k > 0 {
        lemma_trimmed_start(s.drop_first(), k - 1);
    }
}

/// Where the characters from index `k` on are whitespace and the one before
/// is not, trimming the end keeps exactly the first `k`.
pub proof fn lemma_trimmed_end(s: Seq<char>, k: int)
    requires
        0 <= k <= s.len(),
        forall|i: int| k <= i < s.len() ==> is_whitespace(s[i]),
        0 < k ==> !is_whitespace(s[k - 1]),
    ensures
        trimmed_end(s) == s.take(k),
    decreases s.len() - k,
{
    if k < s.len() {
        lemma_trimmed_end(s.drop_last(), k);
    }
}

/// Where the first `k` characters are ASCII whitespace and the next one is
/// not, trimming the start drops exactly those `k`.
pub proof fn lemma_trimmed_ascii_start(s: Seq<char>, k: int)
    requires
        0 <= k <= s.len(),
        forall|i: int| 0 <= i < k ==> is_ascii_whitespace(s[i]),
        k < s.len() ==> !is_ascii_whitespace(s[k]),
    ensures
        trimmed_ascii_start(s) == s.skip(k),
    decreases k,
{
    if k > 0 {
        lemma_trimmed_ascii_start(s.drop_first(), k - 1);
    }
}

/// A trimmed text neither starts nor ends with whitespace.
pub proof fn lemma_trimmed_has_no_margin(s: Seq<char>)
    ensures
        trimmed(s).len() > 0 ==> !is_whitespace(trimmed(s)[0]) && !is_whitespace(trimmed(s).last()),
{
    lemma_trimmed_start_shape(s);
    lemma_trimmed_end_shape(trimmed_start(s));
}

/// Trimming the start leaves a suffix that does not begin with whitespace.
pub proof fn lemma_trimmed_start_shape(s: Seq<char>)
    ensures
        trimmed_start(s).len() <= s.len(),
        trimmed_start(s) == s.skip(s.len() - trimmed_start(s).len()),
        trimmed_start(s).len() > 0 ==> !is_whitespace(trimmed_start(s)[0]),
    decreases s.len(),
{
    if s.len() > 0 && is_whitespace(s[0]) {
        let t = s.drop_first();
        lemma_trimmed_start_shape(t);
        assert(t.skip(t.len() - trimmed_start(t).len()) =~= s.skip(
            s.len() - trimmed_start(t).len(),
        ));
    }
}

/// Trimming the end leaves a prefix that does not end with whitespace.
pub proof fn lemma_trimmed_end_shape(s: Seq<char>)
    ensures
        trimmed_end(s).len() <= s.len(),
        trimmed_end(s) == s.take(trimmed_end(s).len() as int),
        trimmed_end(s).len() > 0 ==> !is_whitespace(trimmed_end(s).last()),
    decreases s.len(),
{
    if s.len() > 0 && is_whitespace(s.last()) {
        lemma_trimmed_end_shape(s.drop_last());
    }
}

/// Trimming a text twice is trimming it once.
pub proof fn lemma_trimmed_idempotent(s: Seq<char>)
    ensures
        trimmed(trimmed(s)) == trimmed(s),
{
    lemma_trimmed_start_shape(s);
    lemma_trimmed_end_shape(trimmed_start(s));
}

/// Whether `c` is whitespace.
pub fn whitespace(c: char) -> (r: bool)
    ensures
        r == is_whitespace(c),
{
    let n: u32 = c as u32;
    (0x09 <= n && n <= 0x0D) || n == 0x20 || n == 0x85 || n == 0xA0 || n == 0x1680 || (0x2000 <= n
        && n <= 0x200A) || n == 0x2028 || n == 0x2029 || n == 0x202F || n == 0x205F || n == 0x3000
}

/// Whether `c` is ASCII whitespace.
pub fn ascii_whitespace(c: char) -> (r: bool)
    ensures
        r == is_ascii_whitespace(c),
{
    c == ' ' || c == '\t' || c == '\n' || c == '\x0C' || c == '\r'
}

/// The characters of a string.
pub fn chars_of(s: &str) -> (r: Vec<char>)
    ensures
        r@ == s@,
{
    let mut out: Vec<char> = Vec::new();
    for c in it: s.chars()
        invariant
            out@ == it.seq().take(it.index()),
            it.seq() == s@,
    {
        out.push(c);
    }
    out
}

/// The string made of the given characters.
pub fn string_of(s: &[char]) -> (r: String)
    ensures
        r@ == s@,
{
    let mut out = String::new();
    let mut i: usize = 0;
    while i < s.len()
        invariant
            i <= s.len(),
            out@ == s@.take(i as int),
        decreases s.len() - i,
    {
        out.push(s[i]);
        i += 1;
    }
    out
}

/// Whether two strings hold the same text.
pub fn text_eq(a: &str, b: &str) -> (r: bool)
    ensures
        r == (a@ == b@),
{
    let x = a.as_bytes();
    let y = b.as_bytes();
    proof {
        encode_utf8_decode_utf8(a@);
        encode_utf8_decode_utf8(b@);
    }
    if x.len() != y.len() {
        return false;
    }
    let mut i: usize = 0;
    while i < x.len()
        invariant
            i <= x.len(),
            x.len() == y.len(),
            x@ == a.spec_bytes(),
            y@ == b.spec_bytes(),
            forall|j: int| 0 <= j < i ==> x@[j] == y@[j],
        decreases x.len() - i,
    {
        if x[i] != y[i] {
            return false;
        }
        i += 1;
    }
    assert(x@ =~= y@);
    true
}

/// Whether the characters `s` spell the string `t`.
pub fn spells(s: &[char], t: &str) -> (r: bool)
    ensures
        r == (s@ == t@),
{
    let mut i: usize = 0;
    let mut same = true;
    for c in it: t.chars()
        invariant
            it.seq() == t@,
            same ==> i == it.index() && i <= s.len() && s@.take(i as int) == t@.take(i as int),
            !same ==> s@ != t@,
    {
        if same {
            if i < s.len() && s[i] == c {
                i += 1;
            } else {
                same = false;
            }
        }
    }
    if same && i == s.len() {
        assert(s@.take(i as int) =~= s@);
        assert(t@.take(i as int) =~= t@);
        true
    } else {
        false
    }
}

/// `s` without its leading and trailing whitespace.
pub fn trim<'a>(s: &'a [char]) -> (r: &'a [char])
    ensures
        r@ == trimmed(s@),
{
    let mut start: usize = 0;
    while start < s.len() && whitespace(s[start])
        invariant
            start <= s.len(),
            forall|i: int| 0 <= i < start ==> is_whitespace(s@[i]),
        decreases s.len() - start,
    {
        start += 1;
    }
    let mut end: usize = s.len();
    while end > start && whitespace(s[end - 1])
        invariant
            start <= end <= s.len(),
            forall|i: int| end <= i < s.len() ==> is_whitespace(s@[i]),
        decreases end,
    {
        end -= 1;
    }
    proof {
        lemma_trimmed_start(s@, start as int);
        lemma_trimmed_end(s@.skip(start as int), end - start);
    }
    slice_subrange(s, start, end)
}

/// `s` without its leading ASCII whitespace.
pub fn trim_ascii_start<'a>(s: &'a [char]) -> (r: &'a [char])
    ensures
        r@ == trimmed_ascii_start(s@),
{
    let mut start: usize = 0;
    while start < s.len() && ascii_whitespace(s[start])
        invariant
            start <= s.len(),
            forall|i: int| 0 <= i < start ==> is_ascii_whitespace(s@[i]),
        decreases s.len() - start,
    {
        start += 1;
    }
    proof {
        lemma_trimmed_ascii_start(s@, start as int);
    }
    slice_subrange(s, start, s.len())
}

/// Whether `pat` stands in `s` at index `i`.
fn stands_at(s: &[char], pat: &[char], i: usize) -> (r: bool)
    requires
        i + pat.len() <= s.len(),
    ensures
        r == occurs_at(s@, pat@, i as int),
{
    let mut k: usize = 0;
    while k < pat.len()
        invariant
            k <= pat.len(),
            i + pat.len() <= s.len(),
            forall|j: int| 0 <= j < k ==> s@[i + j] == pat@[j],
        decreases pat.len() - k,
    {
        if s[i + k] != pat[k] {
            return false;
        }
        k += 1;
    }
    assert(s@.subrange(i as int, i + pat.len()) =~= pat@);
    true
}

/// The index of the first occurrence of `pat` in `s`.
pub fn find(s: &[char], pat: &[char]) -> (r: Option<usize>)
    ensures
        match r {
            Some(i) => first_match(s@, pat@) == Some(i as int) && i + pat.len() <= s.len(),
            None => first_match(s@, pat@) is None,
        },
{
    if pat.len() > s.len() {
        return None;
    }
    let last: usize = s.len() - pat.len();
    let mut i: usize = 0;
    loop
        invariant
            i <= last,
            last + pat.len() == s.len(),
            first_match(s@, pat@) == first_match_from(s@, pat@, i as int),
        decreases last - i,
    {
        if stands_at(s, pat, i) {
            return Some(i);
        }
        if i == last {
            return None;
        }
        i += 1;
    }
}

/// The index of the first occurrence of the character `c` in `s`.
pub fn find_char(s: &[char], c: char) -> (r: Option<usize>)
    ensures
        match r {
            Some(i) => first_match(s@, seq![c]) == Some(i as int) && i < s.len(),
            None => first_match(s@, seq![c]) is None,
        },
{
    let mut i: usize = 0;
    while i < s.len()
        invariant
            i <= s.len(),
            forall|j: int| 0 <= j < i ==> s@[j] != c,
        decreases s.len() - i,
    {
        if s[i] == c {
            proof {
                assert(s@.subrange(i as int, i + 1) =~= seq![c]);
                assert forall|j: int| 0 <= j < i implies !occurs_at(s@, seq![c], j) by {
                    if occurs_at(s@, seq![c], j) {
                        assert(s@.subrange(j, j + 1)[0] == c);
                    }
                }
                lemma_first_match_is(s@, seq![c], i as int);
            }
            return Some(i);
        }
        i += 1;
    }
    proof {
        assert forall|j: int| 0 <= j && j + 1 <= s@.len() implies !occurs_at(s@, seq![c], j) by {
            if occurs_at(s@, seq![c], j) {
                assert(s@.subrange(j, j + 1)[0] == c);
            }
        }
        lemma_first_match_none(s@, seq![c]);
    }
    None
}

/// `s` cut at the first occurrence of `pat`.
pub fn split_once<'a>(s: &'a [char], pat: &[char]) -> (r: Option<(&'a [char], &'a [char])>)
    ensures
        match r {
            Some((head, tail)) => split_at_first(s@, pat@) == Some((head@, tail@)),
            None => split_at_first(s@, pat@) is None,
        },
{
    match find(s, pat) {
        Some(i) => {
            let head = slice_subrange(s, 0, i);
            let tail = slice_subrange(s, i + pat.len(), s.len());
            Some((head, tail))
        },
        None => None,
    }
}

/// `s` cut at the first occurrence of the character `c`.
pub fn split_once_char<'a>(s: &'a [char], c: char) -> (r: Option<(&'a [char], &'a [char])>)
    ensures
        match r {
            Some((head, tail)) => split_at_first(s@, seq![c]) == Some((head@, tail@)),
            None => split_at_first(s@, seq![c]) is None,
        },
{
    match find_char(s, c) {
        Some(i) => {
            let head = slice_subrange(s, 0, i);
            let tail = slice_subrange(s, i + 1, s.len());
            Some((head, tail))
        },
        None => None,
    }
}

/// The first line of a text and what follows it, or nothing where the
/// text is empty and so has no line.
pub fn next_line<'a>(s: &'a [char]) -> (r: Option<(&'a [char], &'a [char])>)
    ensures
        match r {
            Some((line, rest)) => {
                &&& s@.len() > 0
                &&& line@ == first_line(s@)
                &&& rest@ == after_first_line(s@)
                &&& rest@.len() < s@.len()
                &&& lines_of(s@) == seq![line@] + lines_of(rest@)
            },
            None => s@.len() == 0 && lines_of(s@) == Seq::<Seq<char>>::empty(),
        },
{
    if s.len() == 0 {
        return None;
    }
    match find_char(s, '\n') {
        Some(i) => {
            let end: usize = if i > 0 && s[i - 1] == '\r' {
                i - 1
            } else {
                i
            };
            let line = slice_subrange(s, 0, end);
            let rest = slice_subrange(s, i + 1, s.len());
            Some((line, rest))
        },
        None => {
            let rest = slice_subrange(s, s.len(), s.len());
            assert(rest@ =~= Seq::<char>::empty());
            Some((s, rest))
        },
    }
}

} // verus!
