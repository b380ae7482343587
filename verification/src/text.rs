//! Character-level string handling: conversion between `str` and `Vec<char>`,
//! line splitting, trimming, comparison, substring search and lower-casing.

use vstd::prelude::*;
use vstd::utf8::is_ascii_chars;

verus! {

/// Appends one character to a `String` (std's `String::push`).
#[verifier::external_body]
pub(crate) fn push_char(s: &mut String, c: char)
    ensures
        final(s)@ == old(s)@.push(c),
{
    s.push(c);
}

/// The characters of a string slice, in order.
pub fn chars_of(s: &str) -> (v: Vec<char>)
    ensures
        v@ == s@,
{
    let mut v: Vec<char> = Vec::new();
    for c in it: s.chars()
        invariant
            v@ == it.seq().take(it.index() as int),
    {
        v.push(c);
    }
    v
}

/// The string made of the given characters, in order.
pub fn string_of(v: &[char]) -> (s: String)
    ensures
        s@ == v@,
{
    let mut s = String::new();
    let mut i: usize = 0;
    while i < v.len()
        invariant
            i <= v@.len(),
            s@ == v@.take(i as int),
        decreases v@.len() - i,
    {
        push_char(&mut s, v[i]);
        assert(v@.take(i + 1) =~= v@.take(i as int).push(v@[i as int]));
        i = i + 1;
    }
    assert(v@.take(v@.len() as int) =~= v@);
    s
}


/// Whether `c` has the Unicode `White_Space` property, which is what
/// `char::is_whitespace` tests and hence what `str::trim` removes.
pub open spec fn is_white_space(c: char) -> bool {
    let u = c as u32;
    ||| 0x09 <= u <= 0x0D
    ||| u == 0x20
    ||| u == 0x85
    ||| u == 0xA0
    ||| u == 0x1680
    ||| 0x2000 <= u <= 0x200A
    ||| u == 0x2028
    ||| u == 0x2029
    ||| u == 0x202F
    ||| u == 0x205F
    ||| u == 0x3000
}

/// The character class removed at both ends by a trim: white space, or
/// slashes.
pub open spec fn trimmed_char(c: char, slashes: bool) -> bool {
    if slashes {
        c == '/'
    } else {
        is_white_space(c)
    }
}

/// `s` without the leading characters of the class.
pub open spec fn trim_start_by(s: Seq<char>, slashes: bool) -> Seq<char>
    decreases s.len(),
{
    if s.len() > 0 && trimmed_char(s[0], slashes) {
        trim_start_by(s.drop_first(), slashes)
    } else {
        s
    }
}

/// `s` without the trailing characters of the class.
pub open spec fn trim_end_by(s: Seq<char>, slashes: bool) -> Seq<char>
    decreases s.len(),
{
    if s.len() > 0 && trimmed_char(s.last(), slashes) {
        trim_end_by(s.drop_last(), slashes)
    } else {
        s
    }
}

/// `s` without leading and trailing characters of the class.
pub open spec fn trim_by(s: Seq<char>, slashes: bool) -> Seq<char> {
    trim_end_by(trim_start_by(s, slashes), slashes)
}

/// `str::trim`: `s` without leading and trailing white space.
pub open spec fn trim(s: Seq<char>) -> Seq<char> {
    trim_by(s, false)
}

/// Whether `c` has the Unicode `White_Space` property.
pub fn is_white_space_char(c: char) -> (b: bool)
    ensures
        b == is_white_space(c),
{
    let u = c as u32;
    (0x09 <= u && u <= 0x0D) || u == 0x20 || u == 0x85 || u == 0xA0 || u == 0x1680 || (0x2000
        <= u && u <= 0x200A) || u == 0x2028 || u == 0x2029 || u == 0x202F || u == 0x205F || u
        == 0x3000
}

fn is_trimmed_char(c: char, slashes: bool) -> (b: bool)
    ensures
        b == trimmed_char(c, slashes),
{
    if slashes {
        c == '/'
    } else {
        is_white_space_char(c)
    }
}

proof fn lemma_trim_start_skip(s: Seq<char>, slashes: bool, i: int)
    requires
        0 <= i <= s.len(),
        forall|k: int| 0 <= k < i ==> trimmed_char(#[trigger] s[k], slashes),
    ensures
        trim_start_by(s, slashes) == trim_start_by(s.skip(i), slashes),
    decreases i,
{
    if i > 0 {
        assert(s.drop_first().skip(i - 1) =~= s.skip(i));
        lemma_trim_start_skip(s.drop_first(), slashes, i - 1);
    } else {
        assert(s.skip(0) =~= s);
    }
}

proof fn lemma_trim_end_take(s: Seq<char>, slashes: bool, j: int)
    requires
        0 <= j <= s.len(),
        forall|k: int| j <= k < s.len() ==> trimmed_char(#[trigger] s[k], slashes),
    ensures
        trim_end_by(s, slashes) == trim_end_by(s.take(j), slashes),
    decreases s.len() - j,
{
    if j < s.len() {
        assert(s.drop_last().take(j) =~= s.take(j));
        lemma_trim_end_take(s.drop_last(), slashes, j);
    } else {
        assert(s.take(j) =~= s);
    }
}

/// The bounds of `v` once the leading and trailing characters of the class
/// are removed.
pub fn trim_range(v: &[char], slashes: bool) -> (r: (usize, usize))
    ensures
        r.0 <= r.1 <= v@.len(),
        v@.subrange(r.0 as int, r.1 as int) == trim_by(v@, slashes),
{
    let mut i: usize = 0;
    while i < v.len() && is_trimmed_char(v[i], slashes)
        invariant
            i <= v@.len(),
            forall|k: int| 0 <= k < i ==> trimmed_char(#[trigger] v@[k], slashes),
        decreases v@.len() - i,
    {
        i = i + 1;
    }
    proof {
        lemma_trim_start_skip(v@, slashes, i as int);
    }
    let ghost t = v@.skip(i as int);
    assert(trim_start_by(t, slashes) == t);
    let mut j: usize = v.len();
    while j > i && is_trimmed_char(v[j - 1], slashes)
        invariant
            i <= j <= v@.len(),
            t == v@.skip(i as int),
            forall|k: int| j <= k < v@.len() ==> trimmed_char(#[trigger] v@[k], slashes),
        decreases j,
    {
        j = j - 1;
    }
    proof {
        assert forall|k: int| j - i <= k < t.len() implies trimmed_char(#[trigger] t[k], slashes) by {
            assert(t[k] == v@[k + i]);
        }
        lemma_trim_end_take(t, slashes, j - i);
        assert(t.take(j - i) =~= v@.subrange(i as int, j as int));
        if j > i {
            assert(t.take(j - i).last() == v@[j - 1]);
        } else {
            assert(t.take(j - i).len() == 0);
        }
    }
    (i, j)
}

/// `str::trim` on a character vector.
pub fn trim_chars(v: &[char]) -> (t: Vec<char>)
    ensures
        t@ == trim(v@),
{
    let (a, b) = trim_range(v, false);
    slice_range(v, a, b)
}

/// The characters `v[from..to]`.
pub fn slice_range(v: &[char], from: usize, to: usize) -> (r: Vec<char>)
    requires
        from <= to <= v@.len(),
    ensures
        r@ == v@.subrange(from as int, to as int),
{
    let mut r: Vec<char> = Vec::new();
    let mut k: usize = from;
    while k < to
        invariant
            from <= k <= to <= v@.len(),
            r@ == v@.subrange(from as int, k as int),
        decreases to - k,
    {
        r.push(v[k]);
        assert(v@.subrange(from as int, k + 1) =~= v@.subrange(from as int, k as int).push(
            v@[k as int],
        ));
        k = k + 1;
    }
    r
}


/// A line without the carriage return that preceded its line feed.
pub open spec fn strip_cr(l: Seq<char>) -> Seq<char> {
    if l.len() > 0 && l.last() == '\r' {
        l.drop_last()
    } else {
        l
    }
}

/// Scanning `s` from the left: the lines ended by a line feed so far, and the
/// characters of the line still open.
pub open spec fn line_scan(s: Seq<char>) -> (Seq<Seq<char>>, Seq<char>)
    decreases s.len(),
{
    if s.len() == 0 {
        (seq![], seq![])
    } else {
        let (done, open) = line_scan(s.drop_last());
        if s.last() == '\n' {
            (done.push(strip_cr(open)), seq![])
        } else {
            (done, open.push(s.last()))
        }
    }
}

/// `str::lines`: the pieces of `s` between line feeds, each without its line
/// feed and the carriage return before it; a last piece that is empty (after
/// a final line feed, or in an empty text) is not a line.
pub open spec fn lines(s: Seq<char>) -> Seq<Seq<char>> {
    let (done, open) = line_scan(s);
    if open.len() > 0 {
        done.push(open)
    } else {
        done
    }
}

/// The character sequences of a sequence of strings.
pub open spec fn string_views(v: Seq<String>) -> Seq<Seq<char>> {
    v.map_values(|s: String| s@)
}

/// The character sequences of a sequence of character vectors.
pub open spec fn char_lines(ls: Seq<Vec<char>>) -> Seq<Seq<char>> {
    ls.map_values(|l: Vec<char>| l@)
}

fn strip_cr_vec(l: Vec<char>) -> (r: Vec<char>)
    ensures
        r@ == strip_cr(l@),
{
    let mut l = l;
    if l.len() > 0 && l[l.len() - 1] == '\r' {
        l.pop();
    }
    l
}

/// The lines of `v`, as `str::lines` splits them.
pub fn lines_of(v: &[char]) -> (ls: Vec<Vec<char>>)
    ensures
        char_lines(ls@) == lines(v@),
{
    let mut done: Vec<Vec<char>> = Vec::new();
    let mut open: Vec<char> = Vec::new();
    let mut i: usize = 0;
    while i < v.len()
        invariant
            i <= v@.len(),
            (char_lines(done@), open@) == line_scan(v@.take(i as int)),
        decreases v@.len() - i,
    {
        let c = v[i];
        assert(v@.take(i + 1).drop_last() =~= v@.take(i as int));
        if c == '\n' {
            let line = strip_cr_vec(open);
            let ghost before = done@;
            done.push(line);
            assert(char_lines(done@) =~= char_lines(before).push(line@));
            open = Vec::new();
        } else {
            open.push(c);
        }
        i = i + 1;
    }
    assert(v@.take(v@.len() as int) =~= v@);
    if open.len() > 0 {
        let ghost before = done@;
        let ghost o = open;
        done.push(open);
        assert(char_lines(done@) =~= char_lines(before).push(o@));
    }
    done
}


/// Whether `a` and `b` hold the same characters.
pub fn same_chars(a: &[char], b: &[char]) -> (r: bool)
    ensures
        r == (a@ == b@),
{
    if a.len() != b.len() {
        return false;
    }
    let mut i: usize = 0;
    while i < a.len()
        invariant
            a@.len() == b@.len(),
            i <= a@.len(),
            forall|k: int| 0 <= k < i ==> a@[k] == b@[k],
        decreases a@.len() - i,
    {
        if a[i] != b[i] {
            return false;
        }
        i = i + 1;
    }
    assert(a@ =~= b@);
    true
}

/// Whether `needle` occurs in `hay` as a run of consecutive characters.
pub open spec fn has_substring(hay: Seq<char>, needle: Seq<char>) -> bool {
    exists|i: int| 0 <= i <= hay.len() - needle.len() && #[trigger] hay.subrange(i, i + needle.len()) == needle
}

fn matches_at(hay: &[char], needle: &[char], i: usize) -> (r: bool)
    requires
        i + needle@.len() <= hay@.len(),
    ensures
        r == (hay@.subrange(i as int, i + needle@.len()) == needle@),
{
    let n = hay.len();
    let mut k: usize = 0;
    while k < needle.len()
        invariant
            n == hay@.len(),
            i + needle@.len() <= hay@.len(),
            k <= needle@.len(),
            forall|m: int| 0 <= m < k ==> hay@[i + m] == needle@[m],
        decreases needle@.len() - k,
    {
        assert(i + k < hay@.len());
        if hay[i + k] != needle[k] {
            assert(hay@.subrange(i as int, i + needle@.len())[k as int] != needle@[k as int]);
            return false;
        }
        k = k + 1;
    }
    assert(hay@.subrange(i as int, i + needle@.len()) =~= needle@);
    true
}

/// `str::contains` for a string pattern.
pub fn contains_chars(hay: &[char], needle: &[char]) -> (r: bool)
    ensures
        r == has_substring(hay@, needle@),
{
    if needle.len() > hay.len() {
        return false;
    }
    let last = hay.len() - needle.len();
    let mut i: usize = 0;
    loop
        invariant
            last == hay@.len() - needle@.len(),
            i <= last,
            forall|k: int| 0 <= k < i ==> #[trigger] hay@.subrange(k, k + needle@.len()) != needle@,
        decreases last - i,
    {
        if matches_at(hay, needle, i) {
            return true;
        }
        if i == last {
            return false;
        }
        i = i + 1;
    }
}


/// Trimming a trimmed text changes nothing.
pub proof fn lemma_trim_idempotent(s: Seq<char>)
    ensures
        trim(trim(s)) == trim(s),
{
    lemma_trim_by_idempotent(s, false);
}

proof fn lemma_trim_end_keeps_start(s: Seq<char>, slashes: bool)
    requires
        s.len() > 0 ==> !trimmed_char(s[0], slashes),
    ensures
        trim_end_by(s, slashes).len() > 0 ==> !trimmed_char(trim_end_by(s, slashes)[0], slashes),
        trim_end_by(s, slashes).len() > 0 ==> trim_end_by(s, slashes)[0] == s[0],
    decreases s.len(),
{
    if s.len() > 0 && trimmed_char(s.last(), slashes) {
        lemma_trim_end_keeps_start(s.drop_last(), slashes);
    }
}

proof fn lemma_trim_start_result(s: Seq<char>, slashes: bool)
    ensures
        trim_start_by(s, slashes).len() > 0 ==> !trimmed_char(trim_start_by(s, slashes)[0], slashes),
    decreases s.len(),
{
    if s.len() > 0 && trimmed_char(s[0], slashes) {
        lemma_trim_start_result(s.drop_first(), slashes);
    }
}

proof fn lemma_trim_end_result(s: Seq<char>, slashes: bool)
    ensures
        trim_end_by(s, slashes).len() > 0 ==> !trimmed_char(trim_end_by(s, slashes).last(), slashes),
    decreases s.len(),
{
    if s.len() > 0 && trimmed_char(s.last(), slashes) {
        lemma_trim_end_result(s.drop_last(), slashes);
    }
}

/// A trimmed text neither starts nor ends with a character of the class.
pub proof fn lemma_trim_by_ends(s: Seq<char>, slashes: bool)
    ensures
        trim_by(s, slashes).len() > 0 ==> !trimmed_char(trim_by(s, slashes)[0], slashes)
            && !trimmed_char(trim_by(s, slashes).last(), slashes),
{
    let a = trim_start_by(s, slashes);
    lemma_trim_start_result(s, slashes);
    lemma_trim_end_keeps_start(a, slashes);
    lemma_trim_end_result(a, slashes);
}

/// Trimming a trimmed text by the same class changes nothing.
pub proof fn lemma_trim_by_idempotent(s: Seq<char>, slashes: bool)
    ensures
        trim_by(trim_by(s, slashes), slashes) == trim_by(s, slashes),
{
    let a = trim_start_by(s, slashes);
    let t = trim_end_by(a, slashes);
    lemma_trim_start_result(s, slashes);
    lemma_trim_end_keeps_start(a, slashes);
    lemma_trim_end_result(a, slashes);
    assert(trim_start_by(t, slashes) == t);
    assert(trim_end_by(t, slashes) == t);
}


/// Whether two string slices hold the same characters.
pub fn str_eq(a: &str, b: &str) -> (r: bool)
    ensures
        r == (a@ == b@),
{
    let x = chars_of(a);
    let y = chars_of(b);
    same_chars(&x, &y)
}


/// What `str::to_lowercase` gives: the Unicode lower-case mapping of a text.
pub uninterp spec fn unicode_lowercase(s: Seq<char>) -> Seq<char>;

/// A text with its ASCII capital letters made small.
pub open spec fn ascii_lowercase(s: Seq<char>) -> Seq<char> {
    s.map_values(|c: char| if 'A' <= c <= 'Z' { ((c as u32) + 32) as char } else { c })
}

/// std's `str::to_lowercase`. The contract names its result, and states what
/// the Unicode mapping gives on ASCII text: capital letters become small and
/// every other character stays.
#[verifier::external_body]
pub(crate) fn to_lowercase(s: &str) -> (l: String)
    ensures
        l@ == unicode_lowercase(s@),
        is_ascii_chars(s@) ==> l@ == ascii_lowercase(s@),
{
    s.to_lowercase()
}


/// Whether every character of `w` is white space.
pub open spec fn all_white_space(w: Seq<char>) -> bool {
    forall|i: int| 0 <= i < w.len() ==> is_white_space(#[trigger] w[i])
}

proof fn lemma_trim_start_concat(a: Seq<char>, b: Seq<char>)
    ensures
        trim_start_by(a + b, false) == if trim_start_by(a, false).len() == 0 {
            trim_start_by(b, false)
        } else {
            trim_start_by(a, false) + b
        },
    decreases a.len(),
{
    if a.len() == 0 {
        assert(a + b =~= b);
    } else if trimmed_char(a[0], false) {
        assert((a + b)[0] == a[0]);
        assert((a + b).drop_first() =~= a.drop_first() + b);
        lemma_trim_start_concat(a.drop_first(), b);
    } else {
        assert((a + b)[0] == a[0]);
    }
}

proof fn lemma_trim_end_concat(a: Seq<char>, b: Seq<char>)
    ensures
        trim_end_by(a + b, false) == if trim_end_by(b, false).len() == 0 {
            trim_end_by(a, false)
        } else {
            a + trim_end_by(b, false)
        },
    decreases b.len(),
{
    if b.len() == 0 {
        assert(a + b =~= a);
    } else if trimmed_char(b.last(), false) {
        assert((a + b).last() == b.last());
        assert((a + b).drop_last() =~= a + b.drop_last());
        lemma_trim_end_concat(a, b.drop_last());
    } else {
        assert((a + b).last() == b.last());
    }
}

proof fn lemma_white_space_trims_away(w: Seq<char>)
    requires
        all_white_space(w),
    ensures
        trim_start_by(w, false).len() == 0,
        trim_end_by(w, false).len() == 0,
    decreases w.len(),
{
    if w.len() > 0 {
        assert(all_white_space(w.drop_first()));
        assert(all_white_space(w.drop_last()));
        lemma_white_space_trims_away(w.drop_first());
        lemma_white_space_trims_away(w.drop_last());
    }
}

/// Trailing white space does not change what trimming gives.
pub proof fn lemma_trim_append_white_space(a: Seq<char>, w: Seq<char>)
    requires
        all_white_space(w),
    ensures
        trim(a + w) == trim(a),
{
    lemma_white_space_trims_away(w);
    lemma_trim_start_concat(a, w);
    if trim_start_by(a, false).len() > 0 {
        lemma_trim_end_concat(trim_start_by(a, false), w);
    }
}

/// Leading white space does not change what trimming gives.
pub proof fn lemma_trim_prepend_white_space(w: Seq<char>, b: Seq<char>)
    requires
        all_white_space(w),
    ensures
        trim(w + b) == trim(b),
{
    lemma_white_space_trims_away(w);
    lemma_trim_start_concat(w, b);
}

/// Removing the carriage return before a line feed does not change what
/// trimming gives.
pub proof fn lemma_trim_strip_cr(l: Seq<char>)
    ensures
        trim(strip_cr(l)) == trim(l),
{
    if l.len() > 0 && l.last() == '\r' {
        let w = seq!['\r'];
        assert(all_white_space(w));
        assert(l.drop_last() + w =~= l);
        lemma_trim_append_white_space(l.drop_last(), w);
    }
}

/// A text without white space at its start: the white space that trimming
/// drops there is a prefix of `k` characters.
pub proof fn lemma_trim_start_split(s: Seq<char>) -> (k: int)
    ensures
        0 <= k <= s.len(),
        trim_start_by(s, false) == s.skip(k),
        all_white_space(s.take(k)),
    decreases s.len(),
{
    if s.len() > 0 && trimmed_char(s[0], false) {
        let k1 = lemma_trim_start_split(s.drop_first());
        assert(s.drop_first().skip(k1) =~= s.skip(k1 + 1));
        assert forall|i: int| 0 <= i < k1 + 1 implies is_white_space(#[trigger] s.take(k1 + 1)[i]) by {
            if i > 0 {
                assert(s.take(k1 + 1)[i] == s.drop_first().take(k1)[i - 1]);
            }
        }
        k1 + 1
    } else {
        assert(s.skip(0) =~= s);
        0
    }
}

/// The white space that trimming drops at the end of a text is a suffix:
/// what remains is its first `k` characters.
pub proof fn lemma_trim_end_split(s: Seq<char>) -> (k: int)
    ensures
        0 <= k <= s.len(),
        trim_end_by(s, false) == s.take(k),
        all_white_space(s.skip(k)),
    decreases s.len(),
{
    if s.len() > 0 && trimmed_char(s.last(), false) {
        let k1 = lemma_trim_end_split(s.drop_last());
        assert(s.drop_last().take(k1) =~= s.take(k1));
        assert forall|i: int| 0 <= i < s.len() - k1 implies is_white_space(#[trigger] s.skip(k1)[i]) by {
            if i < s.len() - k1 - 1 {
                assert(s.skip(k1)[i] == s.drop_last().skip(k1)[i]);
            } else {
                assert(s.skip(k1)[i] == s.last());
            }
        }
        k1
    } else {
        assert(s.take(s.len() as int) =~= s);
        assert(s.skip(s.len() as int).len() == 0);
        s.len() as int
    }
}

/// The characters that trimming by a class drops at the start form a prefix,
/// all of the class: what remains is the text after its first `k`
/// characters.
pub proof fn lemma_trim_start_split_by(s: Seq<char>, slashes: bool) -> (k: int)
    ensures
        0 <= k <= s.len(),
        trim_start_by(s, slashes) == s.skip(k),
        forall|i: int| 0 <= i < k ==> trimmed_char(#[trigger] s[i], slashes),
    decreases s.len(),
{
    if s.len() > 0 && trimmed_char(s[0], slashes) {
        let k1 = lemma_trim_start_split_by(s.drop_first(), slashes);
        assert(s.drop_first().skip(k1) =~= s.skip(k1 + 1));
        assert forall|i: int| 0 <= i < k1 + 1 implies trimmed_char(#[trigger] s[i], slashes) by {
            if i > 0 {
                assert(s[i] == s.drop_first()[i - 1]);
            }
        }
        k1 + 1
    } else {
        assert(s.skip(0) =~= s);
        0
    }
}

/// The characters that trimming by a class drops at the end form a suffix,
/// all of the class: what remains is the first `k` characters.
pub proof fn lemma_trim_end_split_by(s: Seq<char>, slashes: bool) -> (k: int)
    ensures
        0 <= k <= s.len(),
        trim_end_by(s, slashes) == s.take(k),
        forall|i: int| k <= i < s.len() ==> trimmed_char(#[trigger] s[i], slashes),
    decreases s.len(),
{
    if s.len() > 0 && trimmed_char(s.last(), slashes) {
        let k1 = lemma_trim_end_split_by(s.drop_last(), slashes);
        assert(s.drop_last().take(k1) =~= s.take(k1));
        assert forall|i: int| k1 <= i < s.len() implies trimmed_char(#[trigger] s[i], slashes) by {
            if i < s.len() - 1 {
                assert(s[i] == s.drop_last()[i]);
            }
        }
        k1
    } else {
        assert(s.take(s.len() as int) =~= s);
        s.len() as int
    }
}

/// Whether a scan has no line open: the text scanned is empty or ends with a
/// line feed.
pub proof fn lemma_scan_closed(x: Seq<char>)
    ensures
        (line_scan(x).1.len() == 0) <==> (x.len() == 0 || x.last() == '\n'),
{
}

/// Scanning a text after a text that ends its last line continues from no
/// open line.
pub proof fn lemma_scan_concat(x: Seq<char>, y: Seq<char>)
    requires
        line_scan(x).1.len() == 0,
    ensures
        line_scan(x + y) == (line_scan(x).0 + line_scan(y).0, line_scan(y).1),
    decreases y.len(),
{
    if y.len() == 0 {
        assert(x + y =~= x);
        assert(line_scan(x).0 + seq![] =~= line_scan(x).0);
        assert(line_scan(x).1 =~= seq![]);
    } else {
        assert((x + y).drop_last() =~= x + y.drop_last());
        assert((x + y).last() == y.last());
        lemma_scan_concat(x, y.drop_last());
        let (d, o) = line_scan(y.drop_last());
        if y.last() == '\n' {
            assert(line_scan(x).0 + d.push(strip_cr(o)) =~= (line_scan(x).0 + d).push(strip_cr(o)));
        }
    }
}

/// The lines of two texts, the first of which ends its last line, are the
/// lines of the first followed by those of the second.
pub proof fn lemma_lines_concat(x: Seq<char>, y: Seq<char>)
    requires
        x.len() == 0 || x.last() == '\n',
    ensures
        lines(x + y) == lines(x) + lines(y),
{
    lemma_scan_closed(x);
    lemma_scan_concat(x, y);
    let (d, o) = line_scan(y);
    if o.len() > 0 {
        assert(line_scan(x).0 + d.push(o) =~= (line_scan(x).0 + d).push(o));
    }
}

/// A text without line feeds is one open line.
pub proof fn lemma_scan_one_line(l: Seq<char>)
    requires
        !l.contains('\n'),
    ensures
        line_scan(l) == (Seq::<Seq<char>>::empty(), l),
    decreases l.len(),
{
    if l.len() > 0 {
        assert(l.last() == l[l.len() - 1]);
        assert(!l.drop_last().contains('\n')) by {
            if l.drop_last().contains('\n') {
                let i = choose|i: int| 0 <= i < l.drop_last().len() && l.drop_last()[i] == '\n';
                assert(l[i] == '\n');
            }
        }
        lemma_scan_one_line(l.drop_last());
        assert(l.drop_last().push(l.last()) =~= l);
    }
}

/// A line without line feeds, followed by one, is that single line (without
/// a carriage return before the line feed).
pub proof fn lemma_lines_of_line(l: Seq<char>)
    requires
        !l.contains('\n'),
    ensures
        lines(l.push('\n')) == seq![strip_cr(l)],
{
    lemma_scan_one_line(l);
    assert(l.push('\n').drop_last() =~= l);
}

/// No line of a text holds a line feed.
pub proof fn lemma_lines_have_no_line_feed(s: Seq<char>)
    ensures
        forall|i: int| 0 <= i < lines(s).len() ==> !(#[trigger] lines(s)[i]).contains('\n'),
{
    lemma_scan_no_line_feed(s);
}

proof fn lemma_strip_cr_no_line_feed(l: Seq<char>)
    requires
        !l.contains('\n'),
    ensures
        !strip_cr(l).contains('\n'),
{
    if strip_cr(l).contains('\n') {
        let i = choose|i: int| 0 <= i < strip_cr(l).len() && strip_cr(l)[i] == '\n';
        assert(l[i] == '\n');
    }
}

proof fn lemma_scan_no_line_feed(s: Seq<char>)
    ensures
        forall|i: int| 0 <= i < line_scan(s).0.len() ==> !(#[trigger] line_scan(s).0[i]).contains('\n'),
        !line_scan(s).1.contains('\n'),
    decreases s.len(),
{
    if s.len() > 0 {
        lemma_scan_no_line_feed(s.drop_last());
        let (d, o) = line_scan(s.drop_last());
        if s.last() == '\n' {
            lemma_strip_cr_no_line_feed(o);
            assert forall|i: int| 0 <= i < d.push(strip_cr(o)).len() implies !(#[trigger] d.push(
                strip_cr(o),
            )[i]).contains('\n') by {
                if i < d.len() {
                    assert(d.push(strip_cr(o))[i] == d[i]);
                }
            }
            assert(!Seq::<char>::empty().contains('\n'));
        } else {
            assert(!o.push(s.last()).contains('\n')) by {
                if o.push(s.last()).contains('\n') {
                    let i = choose|i: int| 0 <= i < o.push(s.last()).len() && o.push(s.last())[i] == '\n';
                    if i < o.len() {
                        assert(o[i] == '\n');
                    }
                }
            }
        }
    }
}

} // verus!
