//! Character-level text handling: the specifications of the few string
//! operations the library relies on, and verified implementations of them
//! over the characters of a string.
use vstd::prelude::*;

verus! {

/// The characters with the Unicode `White_Space` property, which is what
/// `char::is_whitespace` tests.
pub open spec fn is_white_space(c: char) -> bool {
    ||| ('\u{9}' <= c && c <= '\u{d}')
    ||| c == ' '
    ||| c == '\u{85}'
    ||| c == '\u{a0}'
    ||| c == '\u{1680}'
    ||| ('\u{2000}' <= c && c <= '\u{200a}')
    ||| c == '\u{2028}'
    ||| c == '\u{2029}'
    ||| c == '\u{202f}'
    ||| c == '\u{205f}'
    ||| c == '\u{3000}'
}

pub fn white_space(c: char) -> (b: bool)
    ensures
        b == is_white_space(c),
{
    ('\u{9}' <= c && c <= '\u{d}') || c == ' ' || c == '\u{85}' || c == '\u{a0}' || c == '\u{1680}'
        || ('\u{2000}' <= c && c <= '\u{200a}') || c == '\u{2028}' || c == '\u{2029}' || c
        == '\u{202f}' || c == '\u{205f}' || c == '\u{3000}'
}

/// The characters of `s`, in order.
pub fn chars_of(s: &str) -> (v: Vec<char>)
    ensures
        v@ == s@,
{
    let mut v: Vec<char> = Vec::new();
    for c in it: s.chars()
        invariant
            v@ == it.history(),
    {
        v.push(c);
    }
    v
}

/// `s` without its leading white space.
pub open spec fn trim_start(s: Seq<char>) -> Seq<char>
    decreases s.len(),
{
    if s.len() > 0 && is_white_space(s[0]) {
        trim_start(s.drop_first())
    } else {
        s
    }
}

/// `s` without its trailing white space.
pub open spec fn trim_end(s: Seq<char>) -> Seq<char>
    decreases s.len(),
{
    if s.len() > 0 && is_white_space(s.last()) {
        trim_end(s.drop_last())
    } else {
        s
    }
}

/// `s` without white space at either end, as `str::trim` gives it.
pub open spec fn trim(s: Seq<char>) -> Seq<char> {
    trim_end(trim_start(s))
}

/// `s` without any number of leading copies of `c`.
pub open spec fn strip_start_char(s: Seq<char>, c: char) -> Seq<char>
    decreases s.len(),
{
    if s.len() > 0 && s[0] == c {
        strip_start_char(s.drop_first(), c)
    } else {
        s
    }
}

/// `s` without any number of trailing copies of `c`.
pub open spec fn strip_end_char(s: Seq<char>, c: char) -> Seq<char>
    decreases s.len(),
{
    if s.len() > 0 && s.last() == c {
        strip_end_char(s.drop_last(), c)
    } else {
        s
    }
}

/// `pattern` occurs in `s` at position `i`.
pub open spec fn occurs_at(s: Seq<char>, pattern: Seq<char>, i: int) -> bool {
    0 <= i && i + pattern.len() <= s.len() && s.subrange(i, i + pattern.len()) == pattern
}

/// `s` starts with `prefix`.
pub open spec fn starts_with(s: Seq<char>, prefix: Seq<char>) -> bool {
    occurs_at(s, prefix, 0)
}

/// `needle` occurs somewhere in `haystack` (always so for an empty needle).
pub open spec fn contains(haystack: Seq<char>, needle: Seq<char>) -> bool {
    exists|i: int| occurs_at(haystack, needle, i)
}

/// The first position at or after `from` where `pattern` occurs, if any.
pub open spec fn find_from(s: Seq<char>, pattern: Seq<char>, from: int) -> Option<int>
    decreases s.len() + 1 - from,
{
    if from < 0 || from + pattern.len() > s.len() {
        None
    } else if occurs_at(s, pattern, from) {
        Some(from)
    } else {
        find_from(s, pattern, from + 1)
    }
}

/// A position that `find_from` finds is an occurrence at or after `from`,
/// and nothing occurs between `from` and it; when it finds nothing, nothing
/// occurs at or after `from`.
pub proof fn lemma_find_from_bounds(s: Seq<char>, pattern: Seq<char>, from: int)
    requires
        0 <= from,
    ensures
        find_from(s, pattern, from) matches Some(i) ==> {
            &&& from <= i
            &&& i + pattern.len() <= s.len()
            &&& occurs_at(s, pattern, i)
            &&& forall|j: int| from <= j < i ==> !occurs_at(s, pattern, j)
        },
        find_from(s, pattern, from) is None ==> forall|j: int| from <= j ==> !occurs_at(s, pattern, j),
    decreases s.len() + 1 - from,
{
    if from + pattern.len() > s.len() {
    } else if occurs_at(s, pattern, from) {
    } else {
        lemma_find_from_bounds(s, pattern, from + 1);
    }
}

/// The part of `s` before the first `sep`, or all of `s`: the first piece
/// that `str::split` yields.
pub open spec fn first_piece(s: Seq<char>, sep: Seq<char>) -> Seq<char> {
    match find_from(s, sep, 0) {
        Some(i) => s.take(i),
        None => s,
    }
}

/// The second piece that `str::split` yields: what lies between the first
/// and the second `sep`, or after the first when there is no second.
pub open spec fn second_piece(s: Seq<char>, sep: Seq<char>) -> Option<Seq<char>> {
    match find_from(s, sep, 0) {
        Some(i) => Some(first_piece(s.skip(i + sep.len()), sep)),
        None => None,
    }
}

/// All the pieces of `s` between the separators `sep` (a single character),
/// as `str::split` yields them.
pub open spec fn split_char(s: Seq<char>, sep: char) -> Seq<Seq<char>>
    decreases s.len(),
{
    match find_from(s, seq![sep], 0) {
        Some(i) => {
            proof {
                lemma_find_from_bounds(s, seq![sep], 0);
            }
            seq![s.take(i)] + split_char(s.skip(i + 1), sep)
        },
        None => seq![s],
    }
}

/// The number of non-overlapping occurrences of `needle` in `haystack` at or
/// after `from`, counted from the left as `str::matches` finds them.
pub open spec fn count_from(haystack: Seq<char>, needle: Seq<char>, from: int) -> nat
    decreases haystack.len() - from,
{
    if needle.len() == 0 || from < 0 || from + needle.len() > haystack.len() {
        0
    } else if occurs_at(haystack, needle, from) {
        1 + count_from(haystack, needle, from + needle.len())
    } else {
        count_from(haystack, needle, from + 1)
    }
}

/// How many times `str::matches(needle)` matches in `haystack`: an empty
/// needle matches at each of the `len + 1` character boundaries.
pub open spec fn count_matches(haystack: Seq<char>, needle: Seq<char>) -> nat {
    if needle.len() == 0 {
        haystack.len() + 1
    } else {
        count_from(haystack, needle, 0)
    }
}


/// `s` without any number of leading copies of `prefix` (when `prefix` is
/// not empty), as `str::trim_start_matches` gives it.
pub open spec fn strip_start_seq(s: Seq<char>, prefix: Seq<char>) -> Seq<char>
    decreases s.len(),
{
    if prefix.len() > 0 && starts_with(s, prefix) {
        strip_start_seq(s.skip(prefix.len() as int), prefix)
    } else {
        s
    }
}

/// The decimal digit `d` (for `d < 10`).
pub open spec fn digit_char(d: nat) -> char {
    if d == 0 { '0' }
    else if d == 1 { '1' }
    else if d == 2 { '2' }
    else if d == 3 { '3' }
    else if d == 4 { '4' }
    else if d == 5 { '5' }
    else if d == 6 { '6' }
    else if d == 7 { '7' }
    else if d == 8 { '8' }
    else { '9' }
}

/// `n` written in decimal, as `{}` formats an integer.
pub open spec fn decimal(n: nat) -> Seq<char>
    decreases n,
{
    if n < 10 {
        seq![digit_char(n)]
    } else {
        decimal(n / 10).push(digit_char(n % 10))
    }
}

/// The number of bytes that `c` takes in UTF-8.
pub open spec fn utf8_width(c: char) -> nat {
    let code = c as u32;
    if code < 0x80 {
        1
    } else if code < 0x800 {
        2
    } else if code < 0x10000 {
        3
    } else {
        4
    }
}

/// The length in bytes of the UTF-8 encoding of `s`, which is what
/// `str::len` returns.
pub open spec fn utf8_len(s: Seq<char>) -> nat
    decreases s.len(),
{
    if s.len() == 0 {
        0
    } else {
        utf8_len(s.drop_last()) + utf8_width(s.last())
    }
}

/// Whether `pattern` occurs in `s` at position `i`.
pub fn occurs_at_exec(s: &[char], pattern: &[char], i: usize) -> (b: bool)
    ensures
        b == occurs_at(s@, pattern@, i as int),
{
    if i > s.len() || pattern.len() > s.len() - i {
        return false;
    }
    let slen = s.len();
    let mut j: usize = 0;
    while j < pattern.len()
        invariant
            slen == s@.len(),
            i + pattern@.len() <= s@.len(),
            j <= pattern@.len(),
            s@.subrange(i as int, i + j) == pattern@.take(j as int),
        decreases pattern@.len() - j,
    {
        assert(i + j < s@.len());
        if s[i + j] != pattern[j] {
            assert(s@.subrange(i as int, i + pattern@.len())[j as int] != pattern@[j as int]);
            return false;
        }
        assert(s@.subrange(i as int, i + j + 1) == s@.subrange(i as int, i + j).push(s@[i + j]));
        assert(pattern@.take(j + 1) == pattern@.take(j as int).push(pattern@[j as int]));
        j = j + 1;
    }
    assert(pattern@.take(pattern@.len() as int) == pattern@);
    true
}

/// The first position at or after `from` where `pattern` occurs.
pub fn find_from_exec(s: &[char], pattern: &[char], from: usize) -> (r: Option<usize>)
    ensures
        r matches Some(i) ==> find_from(s@, pattern@, from as int) == Some(i as int),
        r is None ==> find_from(s@, pattern@, from as int) is None,
{
    if pattern.len() > s.len() || from > s.len() - pattern.len() {
        return None;
    }
    let last = s.len() - pattern.len();
    let mut i = from;
    while i <= last
        invariant
            last + pattern@.len() == s@.len(),
            from <= i,
            find_from(s@, pattern@, from as int) == find_from(s@, pattern@, i as int),
        decreases last + 1 - i,
    {
        if occurs_at_exec(s, pattern, i) {
            return Some(i);
        }
        if i == last {
            assert(find_from(s@, pattern@, i + 1) is None);
            return None;
        }
        i = i + 1;
    }
    None
}

/// Whether `needle` occurs in `haystack`.
pub fn contains_exec(haystack: &[char], needle: &[char]) -> (b: bool)
    ensures
        b == contains(haystack@, needle@),
{
    proof {
        lemma_find_from_bounds(haystack@, needle@, 0);
    }
    let found = find_from_exec(haystack, needle, 0);
    found.is_some()
}

/// The number of matches `str::matches(needle)` finds in `haystack`.
pub fn count_matches_exec(haystack: &[char], needle: &[char]) -> (n: u128)
    ensures
        n == count_matches(haystack@, needle@),
{
    if needle.len() == 0 {
        return haystack.len() as u128 + 1;
    }
    let mut count: u128 = 0;
    let mut i: usize = 0;
    while needle.len() <= haystack.len() - i
        invariant
            needle@.len() > 0,
            i <= haystack@.len(),
            count <= i,
            count + count_from(haystack@, needle@, i as int) == count_from(haystack@, needle@, 0),
        decreases haystack@.len() - i,
    {
        if occurs_at_exec(haystack, needle, i) {
            count = count + 1;
            i = i + needle.len();
        } else {
            i = i + 1;
        }
    }
    count
}

/// The positions `(a, b)` with `s[a..b]` equal to `s` trimmed of white space.
pub fn trim_bounds(s: &[char]) -> (r: (usize, usize))
    ensures
        r.0 <= r.1 <= s@.len(),
        s@.subrange(r.0 as int, r.1 as int) == trim(s@),
{
    let mut a: usize = 0;
    assert(s@.skip(0) == s@);
    while a < s.len() && white_space(s[a])
        invariant
            a <= s@.len(),
            trim_start(s@) == trim_start(s@.skip(a as int)),
        decreases s@.len() - a,
    {
        assert(s@.skip(a as int).drop_first() == s@.skip(a + 1));
        a = a + 1;
    }
    let mut b: usize = s.len();
    while b > a && white_space(s[b - 1])
        invariant
            a <= b <= s@.len(),
            trim_end(s@.skip(a as int)) == trim_end(s@.subrange(a as int, b as int)),
        decreases b,
    {
        assert(s@.subrange(a as int, b as int).drop_last() == s@.subrange(a as int, b - 1));
        b = b - 1;
    }
    assert(s@.skip(a as int) == s@.subrange(a as int, s@.len() as int));
    (a, b)
}

/// The position `a` with `s[a..]` equal to `s` without its leading copies
/// of `c`.
pub fn strip_start_char_index(s: &[char], c: char) -> (a: usize)
    ensures
        a <= s@.len(),
        s@.skip(a as int) == strip_start_char(s@, c),
{
    let mut a: usize = 0;
    assert(s@.skip(0) == s@);
    while a < s.len() && s[a] == c
        invariant
            a <= s@.len(),
            strip_start_char(s@, c) == strip_start_char(s@.skip(a as int), c),
        decreases s@.len() - a,
    {
        assert(s@.skip(a as int).drop_first() == s@.skip(a + 1));
        a = a + 1;
    }
    a
}

/// The position `b` with `s[..b]` equal to `s` without its trailing copies
/// of `c`.
pub fn strip_end_char_index(s: &[char], c: char) -> (b: usize)
    ensures
        b <= s@.len(),
        s@.take(b as int) == strip_end_char(s@, c),
{
    let mut b: usize = s.len();
    assert(s@.take(s@.len() as int) == s@);
    while b > 0 && s[b - 1] == c
        invariant
            b <= s@.len(),
            strip_end_char(s@, c) == strip_end_char(s@.take(b as int), c),
        decreases b,
    {
        assert(s@.take(b as int).drop_last() == s@.take(b - 1));
        b = b - 1;
    }
    assert(s@.take(s@.len() as int) == s@);
    b
}

/// The position `a` with `s[a..]` equal to `s` without its leading copies
/// of `prefix`.
pub fn strip_start_seq_index(s: &[char], prefix: &[char]) -> (a: usize)
    ensures
        a <= s@.len(),
        s@.skip(a as int) == strip_start_seq(s@, prefix@),
{
    let mut a: usize = 0;
    assert(s@.skip(0) == s@);
    if prefix.len() == 0 {
        return 0;
    }
    while a <= s.len() && occurs_at_exec(s, prefix, a)
        invariant
            prefix@.len() > 0,
            a <= s@.len(),
            strip_start_seq(s@, prefix@) == strip_start_seq(s@.skip(a as int), prefix@),
        decreases s@.len() - a,
    {
        assert(s@.skip(a as int).subrange(0, prefix@.len() as int) == s@.subrange(
            a as int,
            a + prefix@.len(),
        ));
        assert(s@.skip(a as int).skip(prefix@.len() as int) == s@.skip(a + prefix@.len()));
        a = a + prefix.len();
    }
    assert(!starts_with(s@.skip(a as int), prefix@)) by {
        if starts_with(s@.skip(a as int), prefix@) {
            assert(s@.skip(a as int).subrange(0, prefix@.len() as int) == s@.subrange(
                a as int,
                a + prefix@.len(),
            ));
        }
    }
    a
}

/// The decimal digit `d` as a string.
pub fn digit_str(d: u128) -> (s: &'static str)
    requires
        d < 10,
    ensures
        s@ == seq![digit_char(d as nat)],
{
    if d == 0 {
        proof { reveal_strlit("0"); }
        "0"
    } else if d == 1 {
        proof { reveal_strlit("1"); }
        "1"
    } else if d == 2 {
        proof { reveal_strlit("2"); }
        "2"
    } else if d == 3 {
        proof { reveal_strlit("3"); }
        "3"
    } else if d == 4 {
        proof { reveal_strlit("4"); }
        "4"
    } else if d == 5 {
        proof { reveal_strlit("5"); }
        "5"
    } else if d == 6 {
        proof { reveal_strlit("6"); }
        "6"
    } else if d == 7 {
        proof { reveal_strlit("7"); }
        "7"
    } else if d == 8 {
        proof { reveal_strlit("8"); }
        "8"
    } else {
        proof { reveal_strlit("9"); }
        "9"
    }
}

/// `n` written in decimal.
pub fn decimal_string(n: u128) -> (s: String)
    ensures
        s@ == decimal(n as nat),
    decreases n,
{
    if n < 10 {
        String::from_str(digit_str(n))
    } else {
        let mut s = decimal_string(n / 10);
        s.append(digit_str(n % 10));
        s
    }
}

/// The number of bytes that `c` takes in UTF-8.
pub fn utf8_width_exec(c: char) -> (w: u128)
    ensures
        w == utf8_width(c),
{
    let code = c as u32;
    if code < 0x80 {
        1
    } else if code < 0x800 {
        2
    } else if code < 0x10000 {
        3
    } else {
        4
    }
}

/// The length in bytes of the UTF-8 encoding of `s`.
pub fn utf8_len_exec(s: &[char]) -> (n: u128)
    ensures
        n == utf8_len(s@),
{
    let mut n: u128 = 0;
    let mut i: usize = 0;
    while i < s.len()
        invariant
            i <= s@.len(),
            n == utf8_len(s@.take(i as int)),
            n <= 4 * i,
        decreases s@.len() - i,
    {
        let w = utf8_width_exec(s[i]);
        assert(s@.take(i + 1).drop_last() == s@.take(i as int));
        n = n + w;
        i = i + 1;
    }
    assert(s@.take(s@.len() as int) == s@);
    n
}

} // verus!

verus! {

/// The lower-case form of a string as `str::to_lowercase` computes it, by
/// the Unicode case mapping of the standard library.
pub uninterp spec fn lowercase(s: Seq<char>) -> Seq<char>;

/// `str::to_lowercase`: its result is the lower-case form of `s`, a
/// function of `s` alone. Nothing more is claimed of it here.
#[verifier::external_body]
pub(crate) fn to_lowercase(s: &str) -> (r: String)
    ensures
        r@ == lowercase(s@),
{
    s.to_lowercase()
}

/// The first `n` characters of `s` (all of them if it is shorter), as
/// `s.chars().take(n).collect::<String>()` gives them.
pub fn take_chars(s: &str, n: usize) -> (r: String)
    ensures
        r@ == s@.take(if n < s@.len() { n as int } else { s@.len() as int }),
{
    let chars = chars_of(s);
    let end = if n < chars.len() { n } else { chars.len() };
    String::from_str(s.substring_char(0, end))
}

} // verus!

verus! {

/// The part of `cs[lo..hi]` that `trim` keeps, as positions in `cs`.
pub fn trim_range(cs: &[char], lo: usize, hi: usize) -> (r: (usize, usize))
    requires
        lo <= hi <= cs@.len(),
    ensures
        lo <= r.0 <= r.1 <= hi,
        cs@.subrange(r.0 as int, r.1 as int) == trim(cs@.subrange(lo as int, hi as int)),
{
    let part = &cs[lo..hi];
    let (x, y) = trim_bounds(part);
    assert(cs@.subrange(lo + x, lo + y) =~= part@.subrange(x as int, y as int));
    (lo + x, lo + y)
}

/// The part of `cs[lo..hi]` left once the leading copies of `open` and then
/// the trailing copies of `close` are stripped, as positions in `cs`.
pub fn strip_range(cs: &[char], lo: usize, hi: usize, open: char, close: char) -> (r: (usize, usize))
    requires
        lo <= hi <= cs@.len(),
    ensures
        lo <= r.0 <= r.1 <= hi,
        cs@.subrange(r.0 as int, r.1 as int) == strip_end_char(
            strip_start_char(cs@.subrange(lo as int, hi as int), open),
            close,
        ),
{
    let part = &cs[lo..hi];
    let a = strip_start_char_index(part, open);
    let rest = &cs[lo + a..hi];
    assert(rest@ =~= part@.skip(a as int));
    let b = strip_end_char_index(rest, close);
    assert(cs@.subrange(lo + a, lo + a + b) =~= rest@.take(b as int));
    (lo + a, lo + a + b)
}

/// The first position in `cs[lo..hi]` that holds `c`, as a position in `cs`.
pub fn find_char_in(cs: &[char], c: char, lo: usize, hi: usize) -> (r: Option<usize>)
    requires
        lo <= hi <= cs@.len(),
    ensures
        r matches Some(i) ==> lo <= i < hi && find_from(cs@.subrange(lo as int, hi as int), seq![c], 0)
            == Some(i - lo),
        r is None ==> find_from(cs@.subrange(lo as int, hi as int), seq![c], 0) is None,
{
    let part = &cs[lo..hi];
    let pat = vec![c];
    assert(pat@ =~= seq![c]);
    let found = find_from_exec(part, pat.as_slice(), 0);
    proof {
        lemma_find_from_bounds(part@, seq![c], 0);
    }
    match found {
        Some(i) => Some(lo + i),
        None => None,
    }
}

/// The characters `cs[a..b]` of `s` as a string.
pub fn string_of_range(s: &str, cs: &[char], a: usize, b: usize) -> (r: String)
    requires
        cs@ == s@,
        a <= b <= cs@.len(),
    ensures
        r@ == cs@.subrange(a as int, b as int),
{
    String::from_str(s.substring_char(a, b))
}

/// Whether `cs[lo..hi]` is exactly `word`.
pub fn range_equals(cs: &[char], lo: usize, hi: usize, word: &[char]) -> (b: bool)
    requires
        lo <= hi <= cs@.len(),
    ensures
        b == (cs@.subrange(lo as int, hi as int) == word@),
{
    if hi - lo != word.len() {
        return false;
    }
    let r = occurs_at_exec(cs, word, lo);
    r
}

} // verus!

verus! {

/// Whether `cs[lo..hi]` starts with `word`.
pub fn range_starts_with(cs: &[char], lo: usize, hi: usize, word: &[char]) -> (b: bool)
    requires
        lo <= hi <= cs@.len(),
    ensures
        b == starts_with(cs@.subrange(lo as int, hi as int), word@),
{
    if word.len() > hi - lo {
        return false;
    }
    let r = occurs_at_exec(cs, word, lo);
    assert(cs@.subrange(lo as int, hi as int).subrange(0, word@.len() as int) =~= cs@.subrange(
        lo as int,
        lo + word@.len(),
    ));
    r
}

/// Where the second piece of `cs[lo..hi]` split on `sep` lies in `cs`, if
/// there is a second piece.
pub fn second_piece_range(cs: &[char], lo: usize, hi: usize, sep: char) -> (r: Option<(usize, usize)>)
    requires
        lo <= hi <= cs@.len(),
    ensures
        r matches Some((a, b)) ==> lo <= a <= b <= hi && second_piece(
            cs@.subrange(lo as int, hi as int),
            seq![sep],
        ) == Some(cs@.subrange(a as int, b as int)),
        r is None ==> second_piece(cs@.subrange(lo as int, hi as int), seq![sep]) is None,
{
    let ghost s = cs@.subrange(lo as int, hi as int);
    match find_char_in(cs, sep, lo, hi) {
        Some(i) => {
            let end = match find_char_in(cs, sep, i + 1, hi) {
                Some(j) => j,
                None => hi,
            };
            proof {
                assert(s.skip(i - lo + 1) =~= cs@.subrange(i + 1, hi as int));
                let t = cs@.subrange(i + 1, hi as int);
                assert(t.take(end - (i + 1)) =~= cs@.subrange(i + 1, end as int));
                if end == hi {
                    assert(t =~= cs@.subrange(i + 1, end as int));
                }
            }
            Some((i + 1, end))
        },
        None => None,
    }
}

} // verus!

verus! {

/// The strings of `parts` with `sep` between each two, as `join` gives it.
pub open spec fn join(parts: Seq<Seq<char>>, sep: Seq<char>) -> Seq<char>
    decreases parts.len(),
{
    if parts.len() == 0 {
        Seq::empty()
    } else if parts.len() == 1 {
        parts[0]
    } else {
        join(parts.drop_last(), sep) + sep + parts.last()
    }
}

/// The strings of `parts` joined with `sep`.
pub fn join_strings(parts: &Vec<String>, sep: &str) -> (r: String)
    ensures
        r@ == join(parts.deep_view(), sep@),
{
    let mut r = String::new();
    let mut i: usize = 0;
    while i < parts.len()
        invariant
            i <= parts@.len(),
            r@ == join(parts.deep_view().take(i as int), sep@),
        decreases parts@.len() - i,
    {
        assert(parts.deep_view().take(i + 1).drop_last() =~= parts.deep_view().take(i as int));
        if i > 0 {
            r.append(sep);
        }
        r.append(parts[i].as_str());
        proof {
            if i == 0 {
                assert(r@ =~= parts.deep_view().take(1)[0]);
            }
        }
        i = i + 1;
    }
    assert(parts.deep_view().take(i as int) =~= parts.deep_view());
    r
}

} // verus!

verus! {

proof fn lemma_count_from(haystack: Seq<char>, needle: Seq<char>, from: int)
    requires
        needle.len() > 0,
        0 <= from <= haystack.len(),
    ensures
        count_from(haystack, needle, from) > 0 <==> exists|i: int| from <= i && occurs_at(haystack, needle, i),
        count_from(haystack, needle, from) * needle.len() <= haystack.len() - from,
    decreases haystack.len() - from,
{
    if from + needle.len() > haystack.len() {
        assert forall|i: int| from <= i implies !occurs_at(haystack, needle, i) by {}
    } else if occurs_at(haystack, needle, from) {
        lemma_count_from(haystack, needle, from + needle.len());
        assert((1 + count_from(haystack, needle, from + needle.len())) * needle.len() == needle.len()
            + count_from(haystack, needle, from + needle.len()) * needle.len()) by (nonlinear_arith);
    } else {
        lemma_count_from(haystack, needle, from + 1);
        if exists|i: int| from <= i && occurs_at(haystack, needle, i) {
            let i = choose|i: int| from <= i && occurs_at(haystack, needle, i);
            assert(i != from);
        }
    }
}

/// Counting matches agrees with finding them: a non-empty needle is counted
/// at least once exactly when it occurs, and its matches never overlap, so
/// they take no more room than the haystack; an empty needle matches at each
/// of the `len + 1` boundaries.
pub proof fn lemma_count_matches(haystack: Seq<char>, needle: Seq<char>)
    ensures
        needle.len() > 0 ==> (count_matches(haystack, needle) > 0 <==> contains(haystack, needle)),
        needle.len() > 0 ==> count_matches(haystack, needle) * needle.len() <= haystack.len(),
        needle.len() == 0 ==> count_matches(haystack, needle) == haystack.len() + 1,
{
    if needle.len() > 0 {
        lemma_count_from(haystack, needle, 0);
    }
}


/// Stripping leading copies of a prefix removes some number `k` of whole
/// copies from the front, and what is left does not start with another.
pub proof fn lemma_strip_start_seq(s: Seq<char>, prefix: Seq<char>)
    requires
        prefix.len() > 0,
    ensures
        exists|k: int| {
            &&& 0 <= k
            &&& #[trigger] (k * prefix.len()) <= s.len()
            &&& strip_start_seq(s, prefix) == s.skip(k * prefix.len())
            &&& forall|j: int| 0 <= j < k ==> occurs_at(s, prefix, #[trigger] (j * prefix.len()))
        },
        !starts_with(strip_start_seq(s, prefix), prefix),
    decreases s.len(),
{
    if starts_with(s, prefix) {
        let t = s.skip(prefix.len() as int);
        lemma_strip_start_seq(t, prefix);
        let k0 = choose|k: int| {
            &&& 0 <= k
            &&& #[trigger] (k * prefix.len()) <= t.len()
            &&& strip_start_seq(t, prefix) == t.skip(k * prefix.len())
            &&& forall|j: int| 0 <= j < k ==> occurs_at(t, prefix, #[trigger] (j * prefix.len()))
        };
        let k = k0 + 1;
        assert(k * prefix.len() == k0 * prefix.len() + prefix.len()) by (nonlinear_arith)
            requires k == k0 + 1;
        assert(t.skip(k0 * prefix.len()) =~= s.skip(k * prefix.len()));
        assert forall|j: int| 0 <= j < k implies occurs_at(s, prefix, #[trigger] (j * prefix.len())) by {
            if j > 0 {
                let j0 = j - 1;
                assert(j * prefix.len() == j0 * prefix.len() + prefix.len()) by (nonlinear_arith)
                    requires j == j0 + 1;
                assert(occurs_at(t, prefix, j0 * prefix.len()));
                assert(t.subrange(j0 * prefix.len(), j0 * prefix.len() + prefix.len()) =~= s.subrange(
                    j * prefix.len(),
                    j * prefix.len() + prefix.len(),
                ));
            } else {
                assert(j * prefix.len() == 0) by (nonlinear_arith)
                    requires j == 0;
            }
        }
    } else {
        assert(0 * prefix.len() == 0);
        assert(s.skip(0) =~= s);
    }
}


/// Stripping leading copies of `c` leaves a suffix that does not start
/// with `c`; stripping trailing copies leaves a prefix that does not end
/// with `c`.
pub proof fn lemma_strip_char(s: Seq<char>, c: char)
    ensures
        strip_start_char(s, c).len() <= s.len(),
        strip_start_char(s, c) == s.skip(s.len() - strip_start_char(s, c).len()),
        strip_start_char(s, c).len() > 0 ==> strip_start_char(s, c)[0] != c,
        strip_end_char(s, c).len() <= s.len(),
        strip_end_char(s, c) == s.take(strip_end_char(s, c).len() as int),
        strip_end_char(s, c).len() > 0 ==> strip_end_char(s, c).last() != c,
    decreases s.len(),
{
    if s.len() > 0 && s[0] == c {
        lemma_strip_char(s.drop_first(), c);
        let r = strip_start_char(s.drop_first(), c);
        assert(s.drop_first().skip(s.drop_first().len() - r.len()) =~= s.skip(s.len() - r.len()));
    } else {
        assert(s.skip(0) =~= s);
    }
    if s.len() > 0 && s.last() == c {
        lemma_strip_char(s.drop_last(), c);
        let r = strip_end_char(s.drop_last(), c);
        assert(s.drop_last().take(r.len() as int) =~= s.take(r.len() as int));
    } else {
        assert(s.take(s.len() as int) =~= s);
    }
}

} // verus!
