//! Character-level text utilities with specifications over `Seq<char>`.
use vstd::prelude::*;

verus! {

// ---------------------------------------------------------------------------
// Character classes
// ---------------------------------------------------------------------------

/// The Unicode `White_Space` property, as `char::is_whitespace` defines it.
pub open spec fn is_ws(c: char) -> bool {
    ||| c == ' '
    ||| ('\t' <= c && c <= '\r')
    ||| c == '\u{85}'
    ||| c == '\u{a0}'
    ||| c == '\u{1680}'
    ||| ('\u{2000}' <= c && c <= '\u{200a}')
    ||| c == '\u{2028}'
    ||| c == '\u{2029}'
    ||| c == '\u{202f}'
    ||| c == '\u{205f}'
    ||| c == '\u{3000}'
}

/// Executable test for [`is_ws`].
pub fn char_is_ws(c: char) -> (b: bool)
    ensures
        b == is_ws(c),
{
    c == ' ' || ('\t' <= c && c <= '\r') || c == '\u{85}' || c == '\u{a0}' || c == '\u{1680}'
        || ('\u{2000}' <= c && c <= '\u{200a}') || c == '\u{2028}' || c == '\u{2029}' || c
        == '\u{202f}' || c == '\u{205f}' || c == '\u{3000}'
}

/// The general category `Cc`, as `char::is_control` defines it.
pub open spec fn is_control(c: char) -> bool {
    c <= '\u{1f}' || ('\u{7f}' <= c && c <= '\u{9f}')
}

/// Executable test for [`is_control`].
pub fn char_is_control(c: char) -> (b: bool)
    ensures
        b == is_control(c),
{
    c <= '\u{1f}' || ('\u{7f}' <= c && c <= '\u{9f}')
}

/// An ASCII upper-case letter.
pub open spec fn is_ascii_upper(c: char) -> bool {
    'A' <= c && c <= 'Z'
}

/// An ASCII letter or digit.
pub open spec fn is_ascii_alnum(c: char) -> bool {
    ('a' <= c && c <= 'z') || ('A' <= c && c <= 'Z') || ('0' <= c && c <= '9')
}

/// Executable test for [`is_ascii_alnum`].
pub fn char_is_ascii_alnum(c: char) -> (b: bool)
    ensures
        b == is_ascii_alnum(c),
{
    ('a' <= c && c <= 'z') || ('A' <= c && c <= 'Z') || ('0' <= c && c <= '9')
}

/// The ASCII lower-case form of a character (other characters are unchanged).
pub open spec fn ascii_lower(c: char) -> char {
    if is_ascii_upper(c) {
        ((c as u32) + 32) as char
    } else {
        c
    }
}

/// Executable form of [`ascii_lower`].
pub fn char_ascii_lower(c: char) -> (r: char)
    ensures
        r == ascii_lower(c),
{
    if 'A' <= c && c <= 'Z' {
        let b: u8 = c as u8;
        let lower: u8 = b + 32;
        lower as char
    } else {
        c
    }
}

/// The ASCII lower-case form of every character of a sequence.
pub open spec fn lower_seq(s: Seq<char>) -> Seq<char> {
    Seq::new(s.len(), |i: int| ascii_lower(s[i]))
}

/// Equality that ignores ASCII case.
pub open spec fn eq_ignore_case(a: Seq<char>, b: Seq<char>) -> bool {
    lower_seq(a) == lower_seq(b)
}

// ---------------------------------------------------------------------------
// Conversions between strings and character vectors
// ---------------------------------------------------------------------------

/// Collects the characters of a string slice into a vector.
pub fn chars_of(s: &str) -> (r: Vec<char>)
    ensures
        r@ == s@,
{
    let mut r: Vec<char> = Vec::new();
    for c in it: s.chars()
        invariant
            it.seq() == s@,
            r@ == it.seq().take(it.index() as int),
    {
        r.push(c);
    }
    r
}

/// Appends one character to a string (`String::push`).
#[verifier::external_body]
fn string_push(s: &mut String, c: char)
    ensures
        final(s)@ == old(s)@.push(c),
{
    s.push(c);
}

/// Builds a string from a slice of characters.
pub fn string_of(v: &[char]) -> (s: String)
    ensures
        s@ == v@,
{
    let mut s = String::new();
    let mut i: usize = 0;
    while i < v.len()
        invariant
            i <= v@.len(),
            s@ == v@.take(i as int),
        decreases v@.len() - i,
    {
        string_push(&mut s, v[i]);
        i = i + 1;
        assert(s@ =~= v@.take(i as int));
    }
    assert(v@.take(v@.len() as int) =~= v@);
    s
}

/// Builds a string from a string slice.
pub fn owned(s: &str) -> (r: String)
    ensures
        r@ == s@,
{
    s.to_owned()
}

/// Builds a string from the sub-range `[from, to)` of a character slice.
pub fn string_of_range(v: &[char], from: usize, to: usize) -> (s: String)
    requires
        from <= to <= v@.len(),
    ensures
        s@ == v@.subrange(from as int, to as int),
{
    let mut s = String::new();
    let mut i: usize = from;
    while i < to
        invariant
            from <= i <= to <= v@.len(),
            s@ == v@.subrange(from as int, i as int),
        decreases to - i,
    {
        string_push(&mut s, v[i]);
        i = i + 1;
        assert(s@ =~= v@.subrange(from as int, i as int));
    }
    s
}

/// Appends a string slice to a character vector.
pub fn push_str(out: &mut Vec<char>, s: &str)
    ensures
        final(out)@ == old(out)@ + s@,
{
    let cs = chars_of(s);
    push_chars(out, &cs);
}

/// Appends a character slice to a character vector.
pub fn push_chars(out: &mut Vec<char>, cs: &[char])
    ensures
        final(out)@ == old(out)@ + cs@,
{
    let ghost start = out@;
    let mut i: usize = 0;
    while i < cs.len()
        invariant
            i <= cs@.len(),
            out@ == start + cs@.take(i as int),
        decreases cs@.len() - i,
    {
        out.push(cs[i]);
        i = i + 1;
        assert(out@ =~= start + cs@.take(i as int));
    }
    assert(cs@.take(cs@.len() as int) =~= cs@);
}

/// Compares two string slices character by character.
pub fn str_eq(a: &str, b: &str) -> (r: bool)
    ensures
        r == (a@ == b@),
{
    let x = chars_of(a);
    let y = chars_of(b);
    seq_eq(&x, &y)
}

/// Compares two character slices.
pub fn seq_eq(x: &[char], y: &[char]) -> (r: bool)
    ensures
        r == (x@ == y@),
{
    if x.len() != y.len() {
        return false;
    }
    let mut i: usize = 0;
    while i < x.len()
        invariant
            x@.len() == y@.len(),
            i <= x@.len(),
            forall|k: int| 0 <= k < i ==> x@[k] == y@[k],
        decreases x@.len() - i,
    {
        if x[i] != y[i] {
            return false;
        }
        i = i + 1;
    }
    assert(x@ =~= y@);
    true
}

// ---------------------------------------------------------------------------
// Matching
// ---------------------------------------------------------------------------

/// `pat` occurs in `s` starting at index `i`.
pub open spec fn match_at(s: Seq<char>, pat: Seq<char>, i: int) -> bool {
    0 <= i && i + pat.len() <= s.len() && s.subrange(i, i + pat.len()) == pat
}

/// The first index at or after `i` where `pat` occurs in `s`.
pub open spec fn find_from(s: Seq<char>, pat: Seq<char>, i: int) -> Option<int>
    decreases s.len() + 1 - i,
{
    if i < 0 || i + pat.len() > s.len() {
        None
    } else if match_at(s, pat, i) {
        Some(i)
    } else {
        find_from(s, pat, i + 1)
    }
}

/// The first index where `pat` occurs in `s` (`str::find`).
pub open spec fn find(s: Seq<char>, pat: Seq<char>) -> Option<int> {
    find_from(s, pat, 0)
}

/// `pat` occurs somewhere in `s` (`str::contains`).
pub open spec fn contains(s: Seq<char>, pat: Seq<char>) -> bool {
    find(s, pat) is Some
}

/// `s` begins with `pat` (`str::starts_with`).
pub open spec fn starts_with(s: Seq<char>, pat: Seq<char>) -> bool {
    pat.len() <= s.len() && s.take(pat.len() as int) == pat
}

/// `s` ends with `pat` (`str::ends_with`).
pub open spec fn ends_with(s: Seq<char>, pat: Seq<char>) -> bool {
    pat.len() <= s.len() && s.skip(s.len() - pat.len()) == pat
}

/// What [`find_from`] returns is a match, and no earlier match exists.
pub proof fn lemma_find_from(s: Seq<char>, pat: Seq<char>, i: int)
    requires
        0 <= i,
    ensures
        find_from(s, pat, i) matches Some(k) ==> i <= k && match_at(s, pat, k) && forall|j: int|
            i <= j < k ==> !match_at(s, pat, j),
        find_from(s, pat, i) is None ==> forall|j: int| i <= j ==> !match_at(s, pat, j),
    decreases s.len() + 1 - i,
{
    if i + pat.len() > s.len() {
    } else if match_at(s, pat, i) {
    } else {
        lemma_find_from(s, pat, i + 1);
    }
}

/// Whether `pat` occurs in `s` at index `i` (executable).
pub fn matches_at(s: &[char], pat: &[char], i: usize) -> (r: bool)
    ensures
        r == match_at(s@, pat@, i as int),
{
    if pat.len() > s.len() || i > s.len() - pat.len() {
        return false;
    }
    let n: usize = s.len();
    let mut k: usize = 0;
    while k < pat.len()
        invariant
            n == s@.len(),
            i + pat@.len() <= s@.len(),
            i <= s@.len(),
            k <= pat@.len(),
            forall|j: int| 0 <= j < k ==> s@[i + j] == pat@[j],
        decreases pat@.len() - k,
    {
        assert(i + k < n);
        if s[i + k] != pat[k] {
            assert(s@.subrange(i as int, i + pat@.len())[k as int] != pat@[k as int]);
            return false;
        }
        k = k + 1;
    }
    assert(s@.subrange(i as int, i + pat@.len()) =~= pat@);
    true
}

/// The first index at or after `from` where `pat` occurs (executable [`find_from`]).
pub fn find_chars_from(s: &[char], pat: &[char], from: usize) -> (r: Option<usize>)
    ensures
        r matches Some(k) ==> find_from(s@, pat@, from as int) == Some(k as int),
        r is None ==> find_from(s@, pat@, from as int) is None,
{
    if pat.len() > s.len() || from > s.len() - pat.len() {
        return None;
    }
    let last: usize = s.len() - pat.len();
    let mut i: usize = from;
    loop
        invariant
            pat@.len() <= s@.len(),
            last == s@.len() - pat@.len(),
            from <= i <= last,
            find_from(s@, pat@, from as int) == find_from(s@, pat@, i as int),
        decreases last - i,
    {
        if matches_at(s, pat, i) {
            return Some(i);
        }
        if i == last {
            assert(find_from(s@, pat@, i as int + 1) is None);
            return None;
        }
        i = i + 1;
    }
}

/// The first index where `pat` occurs (executable [`find`]).
pub fn find_chars(s: &[char], pat: &[char]) -> (r: Option<usize>)
    ensures
        r matches Some(k) ==> find(s@, pat@) == Some(k as int),
        r is None ==> find(s@, pat@) is None,
{
    find_chars_from(s, pat, 0)
}

/// Whether `pat` occurs in `s` (executable [`contains`] on strings).
pub fn str_contains(s: &str, pat: &str) -> (r: bool)
    ensures
        r == contains(s@, pat@),
{
    let x = chars_of(s);
    let p = chars_of(pat);
    find_chars(&x, &p).is_some()
}

/// Whether `s` begins with `pat` (executable [`starts_with`]).
pub fn chars_start_with(s: &[char], pat: &[char]) -> (r: bool)
    ensures
        r == starts_with(s@, pat@),
{
    let r = matches_at(s, pat, 0);
    proof {
        if pat@.len() <= s@.len() {
            assert(s@.subrange(0, pat@.len() as int) =~= s@.take(pat@.len() as int));
        }
    }
    r
}

/// Whether `s` begins with `pat` (executable [`starts_with`] on strings).
pub fn str_starts_with(s: &str, pat: &str) -> (r: bool)
    ensures
        r == starts_with(s@, pat@),
{
    let x = chars_of(s);
    let p = chars_of(pat);
    chars_start_with(&x, &p)
}

/// Whether `s` ends with `pat` (executable [`ends_with`]).
pub fn chars_end_with(s: &[char], pat: &[char]) -> (r: bool)
    ensures
        r == ends_with(s@, pat@),
{
    if pat.len() > s.len() {
        return false;
    }
    let r = matches_at(s, pat, s.len() - pat.len());
    proof {
        assert(s@.subrange(s@.len() - pat@.len(), s@.len() as int) =~= s@.skip(
            s@.len() - pat@.len(),
        ));
    }
    r
}

/// The first index of a character at or after `from`.
pub open spec fn find_char_from(s: Seq<char>, c: char, i: int) -> Option<int>
    decreases s.len() - i,
{
    if i < 0 || i >= s.len() {
        None
    } else if s[i] == c {
        Some(i)
    } else {
        find_char_from(s, c, i + 1)
    }
}

/// What [`find_char_from`] returns is an occurrence, and no earlier one exists.
pub proof fn lemma_find_char_from(s: Seq<char>, c: char, i: int)
    requires
        0 <= i,
    ensures
        find_char_from(s, c, i) matches Some(k) ==> i <= k < s.len() && s[k] == c && forall|j: int|
            i <= j < k ==> s[j] != c,
        find_char_from(s, c, i) is None ==> forall|j: int| i <= j < s.len() ==> s[j] != c,
    decreases s.len() - i,
{
    if i >= s.len() {
    } else if s[i] == c {
    } else {
        lemma_find_char_from(s, c, i + 1);
    }
}

/// The first index of `c` at or after `from` (executable [`find_char_from`]).
pub fn find_char(s: &[char], c: char, from: usize) -> (r: Option<usize>)
    ensures
        r matches Some(k) ==> find_char_from(s@, c, from as int) == Some(k as int),
        r is None ==> find_char_from(s@, c, from as int) is None,
{
    let mut i: usize = from;
    while i < s.len()
        invariant
            from <= i,
            find_char_from(s@, c, from as int) == find_char_from(s@, c, i as int),
        decreases s@.len() - i,
    {
        if s[i] == c {
            return Some(i);
        }
        i = i + 1;
    }
    None
}

// ---------------------------------------------------------------------------
// Trimming
// ---------------------------------------------------------------------------

/// Drops leading characters for which `p` holds.
pub open spec fn trim_front_by(s: Seq<char>, p: spec_fn(char) -> bool) -> Seq<char>
    decreases s.len(),
{
    if s.len() > 0 && p(s[0]) {
        trim_front_by(s.drop_first(), p)
    } else {
        s
    }
}

/// Drops trailing characters for which `p` holds.
pub open spec fn trim_back_by(s: Seq<char>, p: spec_fn(char) -> bool) -> Seq<char>
    decreases s.len(),
{
    if s.len() > 0 && p(s.last()) {
        trim_back_by(s.drop_last(), p)
    } else {
        s
    }
}

/// Drops leading and trailing characters for which `p` holds (`str::trim_matches`).
pub open spec fn trim_by(s: Seq<char>, p: spec_fn(char) -> bool) -> Seq<char> {
    trim_back_by(trim_front_by(s, p), p)
}

/// The whitespace predicate as a spec closure.
pub open spec fn ws_pred() -> spec_fn(char) -> bool {
    |c: char| is_ws(c)
}

/// `str::trim`: drops leading and trailing whitespace.
pub open spec fn trim(s: Seq<char>) -> Seq<char> {
    trim_by(s, ws_pred())
}

/// Trimming the front of a suffix after a dropped character.
proof fn lemma_trim_front_step(s: Seq<char>, p: spec_fn(char) -> bool, i: int)
    requires
        0 <= i < s.len(),
        p(s[i]),
    ensures
        trim_front_by(s.skip(i), p) == trim_front_by(s.skip(i + 1), p),
{
    assert(s.skip(i).drop_first() =~= s.skip(i + 1));
}

/// Trimming the back of a prefix after a dropped character.
proof fn lemma_trim_back_step(s: Seq<char>, p: spec_fn(char) -> bool, j: int)
    requires
        0 < j <= s.len(),
        p(s[j - 1]),
    ensures
        trim_back_by(s.take(j), p) == trim_back_by(s.take(j - 1), p),
{
    assert(s.take(j).drop_last() =~= s.take(j - 1));
}

/// Bounds `[start, end)` of `trim_by(s, p)` inside `s`.
proof fn lemma_trim_bounds(s: Seq<char>, p: spec_fn(char) -> bool, start: int, end: int)
    requires
        0 <= start <= end <= s.len(),
        trim_front_by(s, p) == s.skip(start),
        start < end ==> !p(s[start]),
        start == end ==> end == s.len(),
        trim_back_by(s.skip(start).take(end - start), p) == s.skip(start).take(end - start),
        trim_back_by(s.skip(start), p) == trim_back_by(s.skip(start).take(end - start), p),
    ensures
        trim_by(s, p) == s.subrange(start, end),
{
    assert(s.skip(start).take(end - start) =~= s.subrange(start, end));
}

/// A set of characters that trimming removes.
#[derive(Clone, Copy, Debug, PartialEq, Eq, Structural)]
pub enum TrimSet {
    /// Unicode whitespace (`str::trim`).
    Whitespace,
    /// Dots and spaces (`trim_matches(|c| c == '.' || c == ' ')`).
    DotSpace,
    /// Double quotes (`trim_matches('"')`).
    Quote,
}

/// Double quotes as a spec closure.
pub open spec fn quote_pred() -> spec_fn(char) -> bool {
    |c: char| c == '"'
}

/// Dots and spaces as a spec closure.
pub open spec fn dot_space_pred() -> spec_fn(char) -> bool {
    |c: char| c == '.' || c == ' '
}

/// The predicate that a [`TrimSet`] stands for.
pub open spec fn trim_set_pred(set: TrimSet) -> spec_fn(char) -> bool {
    match set {
        TrimSet::Whitespace => ws_pred(),
        TrimSet::DotSpace => dot_space_pred(),
        TrimSet::Quote => quote_pred(),
    }
}

/// Whether a character belongs to a [`TrimSet`].
fn in_trim_set(set: TrimSet, c: char) -> (b: bool)
    ensures
        b == trim_set_pred(set)(c),
{
    match set {
        TrimSet::Whitespace => char_is_ws(c),
        TrimSet::DotSpace => c == '.' || c == ' ',
        TrimSet::Quote => c == '"',
    }
}

/// Start and end indices of the trimmed part of a character slice.
pub fn trim_bounds(s: &[char], set: TrimSet) -> (r: (usize, usize))
    ensures
        r.0 <= r.1 <= s@.len(),
        trim_by(s@, trim_set_pred(set)) == s@.subrange(r.0 as int, r.1 as int),
{
    let ghost p = trim_set_pred(set);
    let mut start: usize = 0;
    assert(s@.skip(0) =~= s@);
    while start < s.len() && in_trim_set(set, s[start])
        invariant
            start <= s@.len(),
            p == trim_set_pred(set),
            trim_front_by(s@, p) == trim_front_by(s@.skip(start as int), p),
        decreases s@.len() - start,
    {
        proof {
            lemma_trim_front_step(s@, p, start as int);
        }
        start = start + 1;
    }
    let ghost t = s@.skip(start as int);
    assert(trim_front_by(t, p) == t);
    let mut end: usize = s.len();
    assert(t.take(t.len() as int) =~= t);
    while end > start && in_trim_set(set, s[end - 1])
        invariant
            start <= end <= s@.len(),
            t == s@.skip(start as int),
            p == trim_set_pred(set),
            start < s@.len() ==> !p(s@[start as int]) && start < end,
            trim_back_by(t, p) == trim_back_by(t.take(end - start), p),
        decreases end,
    {
        proof {
            assert(t[end - start - 1] == s@[end - 1]);
            lemma_trim_back_step(t, p, end - start);
        }
        end = end - 1;
    }
    proof {
        if start < end {
            assert(t.take(end - start).last() == s@[end - 1]);
        } else {
            assert(t.take(0) =~= Seq::<char>::empty());
        }
        assert(trim_back_by(t.take(end - start), p) == t.take(end - start));
        lemma_trim_bounds(s@, p, start as int, end as int);
    }
    (start, end)
}

/// Start and end indices of the whitespace-trimmed part of a character slice.
fn trim_bounds_ws(s: &[char]) -> (r: (usize, usize))
    ensures
        r.0 <= r.1 <= s@.len(),
        trim(s@) == s@.subrange(r.0 as int, r.1 as int),
{
    trim_bounds(s, TrimSet::Whitespace)
}

/// `str::trim` as an owned string.
pub fn trim_str(s: &str) -> (r: String)
    ensures
        r@ == trim(s@),
{
    let cs = chars_of(s);
    let (a, b) = trim_bounds_ws(&cs);
    string_of_range(&cs, a, b)
}

/// `str::trim` on a character slice.
pub fn trim_chars(s: &[char]) -> (r: Vec<char>)
    ensures
        r@ == trim(s@),
{
    let (a, b) = trim_bounds_ws(s);
    let mut r: Vec<char> = Vec::new();
    let mut i: usize = a;
    while i < b
        invariant
            a <= i <= b <= s@.len(),
            r@ == s@.subrange(a as int, i as int),
        decreases b - i,
    {
        r.push(s[i]);
        i = i + 1;
        assert(r@ =~= s@.subrange(a as int, i as int));
    }
    r
}

// ---------------------------------------------------------------------------
// Decimal formatting
// ---------------------------------------------------------------------------

/// The ASCII digit for a value below ten.
pub open spec fn digit_char(d: nat) -> char {
    ((48 + d) as u32) as char
}

/// The decimal representation of a natural number.
pub open spec fn decimal(n: nat) -> Seq<char>
    decreases n,
{
    if n < 10 {
        seq![digit_char(n)]
    } else {
        decimal(n / 10).push(digit_char(n % 10))
    }
}

/// Appends the decimal representation of `n`.
pub fn push_decimal(out: &mut Vec<char>, n: usize)
    ensures
        final(out)@ == old(out)@ + decimal(n as nat),
    decreases n,
{
    if n >= 10 {
        push_decimal(out, n / 10);
    }
    let d: u8 = (n % 10) as u8;
    let c: char = (48u8 + d) as char;
    out.push(c);
    proof {
        assert(c == digit_char((n % 10) as nat));
    }
}

/// The decimal representation of `n` as a string (`usize::to_string`).
pub fn decimal_string(n: usize) -> (s: String)
    ensures
        s@ == decimal(n as nat),
{
    let mut v: Vec<char> = Vec::new();
    push_decimal(&mut v, n);
    assert(v@ =~= decimal(n as nat));
    string_of(&v)
}

// ---------------------------------------------------------------------------
// Splitting on a character
// ---------------------------------------------------------------------------

/// `str::split` on a single character: the pieces between occurrences of `c`.
#[verifier::opaque]
pub open spec fn split_char(s: Seq<char>, c: char) -> Seq<Seq<char>>
    decreases s.len(),
{
    match find_char_from(s, c, 0) {
        Some(i) => {
            proof {
                lemma_find_char_from(s, c, 0);
            }
            seq![s.take(i)] + split_char(s.skip(i + 1), c)
        },
        None => seq![s],
    }
}

/// Searching a suffix finds the same occurrence, shifted.
pub proof fn lemma_find_char_shift(s: Seq<char>, c: char, start: int, i: int)
    requires
        0 <= start <= i,
        start <= s.len(),
    ensures
        find_char_from(s, c, i) == (match find_char_from(s.skip(start), c, i - start) {
            Some(k) => Some(k + start),
            None => None::<int>,
        }),
    decreases s.len() - i,
{
    assert(s.skip(start).len() == s.len() - start);
    if i >= s.len() {
    } else {
        assert(s.skip(start)[i - start] == s[i]);
        if s[i] != c {
            lemma_find_char_shift(s, c, start, i + 1);
        }
    }
}

/// The pieces named by index ranges into `s`.
pub open spec fn range_pieces(s: Seq<char>, r: Seq<(usize, usize)>) -> Seq<Seq<char>> {
    r.map_values(|p: (usize, usize)| s.subrange(p.0 as int, p.1 as int))
}

/// Index ranges of the pieces of `s` split on `c`.
pub fn split_char_ranges(s: &[char], c: char) -> (r: Vec<(usize, usize)>)
    ensures
        range_pieces(s@, r@) == split_char(s@, c),
        forall|k: int| 0 <= k < r@.len() ==> (#[trigger] r@[k]).0 <= r@[k].1 <= s@.len(),
{
    let n: usize = s.len();
    let mut r: Vec<(usize, usize)> = Vec::new();
    let mut start: usize = 0;
    assert(s@.skip(0) =~= s@);
    loop
        invariant
            n == s@.len(),
            start <= s@.len(),
            split_char(s@, c) == range_pieces(s@, r@) + split_char(s@.skip(start as int), c),
            forall|k: int| 0 <= k < r@.len() ==> (#[trigger] r@[k]).0 <= r@[k].1 <= s@.len(),
        decreases s@.len() - start,
    {
        let ghost t = s@.skip(start as int);
        proof {
            reveal(split_char);
            lemma_find_char_shift(s@, c, start as int, start as int);
            lemma_find_char_from(s@, c, start as int);
        }
        match find_char(s, c, start) {
            Some(i) => {
                let ghost old_r = r@;
                r.push((start, i));
                proof {
                    reveal(split_char);
                    assert(t.take(i - start) =~= s@.subrange(start as int, i as int));
                    assert(t.skip(i - start + 1) =~= s@.skip(i + 1));
                    assert(range_pieces(s@, r@) =~= range_pieces(s@, old_r).push(
                        s@.subrange(start as int, i as int),
                    ));
                    assert(split_char(t, c) == seq![t.take(i - start)] + split_char(
                        t.skip(i - start + 1),
                        c,
                    ));
                    assert(range_pieces(s@, r@) + split_char(s@.skip(i + 1), c) =~= range_pieces(
                        s@,
                        old_r,
                    ) + split_char(t, c));
                }
                start = i + 1;
            },
            None => {
                let ghost old_r = r@;
                r.push((start, s.len()));
                proof {
                    reveal(split_char);
                    assert(t =~= s@.subrange(start as int, s@.len() as int));
                    assert(split_char(t, c) == seq![t]);
                    assert(range_pieces(s@, r@) =~= range_pieces(s@, old_r).push(t));
                    assert(range_pieces(s@, r@) =~= range_pieces(s@, old_r) + split_char(t, c));
                }
                return r;
            },
        }
    }
}

/// `str::split_once` on a character: the parts before and after the first `c`.
pub open spec fn split_once_char(s: Seq<char>, c: char) -> Option<(Seq<char>, Seq<char>)> {
    match find_char_from(s, c, 0) {
        Some(i) => Some((s.take(i), s.skip(i + 1))),
        None => None,
    }
}

/// Executable [`split_once_char`], as vectors.
pub fn split_once_chars(s: &[char], c: char) -> (r: Option<(Vec<char>, Vec<char>)>)
    ensures
        r matches Some(p) ==> split_once_char(s@, c) == Some((p.0@, p.1@)),
        r is None ==> split_once_char(s@, c) is None,
{
    let n: usize = s.len();
    match find_char(s, c, 0) {
        Some(i) => {
            proof {
                lemma_find_char_from(s@, c, 0);
            }
            assert(i < n);
            let a = sub_vec(s, 0, i);
            let b = sub_vec(s, i + 1, s.len());
            assert(a@ =~= s@.take(i as int));
            assert(b@ =~= s@.skip(i + 1));
            Some((a, b))
        },
        None => None,
    }
}

/// Copies the sub-range `[from, to)` of a character slice.
pub fn sub_vec(s: &[char], from: usize, to: usize) -> (r: Vec<char>)
    requires
        from <= to <= s@.len(),
    ensures
        r@ == s@.subrange(from as int, to as int),
{
    let mut r: Vec<char> = Vec::new();
    let mut i: usize = from;
    while i < to
        invariant
            from <= i <= to <= s@.len(),
            r@ == s@.subrange(from as int, i as int),
        decreases to - i,
    {
        r.push(s[i]);
        i = i + 1;
        assert(r@ =~= s@.subrange(from as int, i as int));
    }
    r
}

// ---------------------------------------------------------------------------
// Case conversion
// ---------------------------------------------------------------------------

/// ASCII lower-case copy of a character slice (`str::to_ascii_lowercase`).
pub fn lower_chars(s: &[char]) -> (r: Vec<char>)
    ensures
        r@ == lower_seq(s@),
{
    let mut r: Vec<char> = Vec::new();
    let mut i: usize = 0;
    while i < s.len()
        invariant
            i <= s@.len(),
            r@ == lower_seq(s@.take(i as int)),
        decreases s@.len() - i,
    {
        let c = char_ascii_lower(s[i]);
        r.push(c);
        i = i + 1;
        assert(r@ =~= lower_seq(s@.take(i as int)));
    }
    assert(s@.take(s@.len() as int) =~= s@);
    r
}

/// Equality ignoring ASCII case (`str::eq_ignore_ascii_case`).
pub fn chars_eq_ignore_case(a: &[char], b: &[char]) -> (r: bool)
    ensures
        r == eq_ignore_case(a@, b@),
{
    let x = lower_chars(a);
    let y = lower_chars(b);
    seq_eq(&x, &y)
}

// ---------------------------------------------------------------------------
// Whitespace normalisation
// ---------------------------------------------------------------------------

/// Length of the leading run of non-whitespace characters.
pub open spec fn word_len(s: Seq<char>) -> nat
    decreases s.len(),
{
    if s.len() == 0 || is_ws(s[0]) {
        0
    } else {
        1 + word_len(s.drop_first())
    }
}

/// `trim_front_by` for whitespace removes at least nothing and keeps a suffix.
pub proof fn lemma_trim_front_suffix(s: Seq<char>, p: spec_fn(char) -> bool)
    ensures
        trim_front_by(s, p).len() <= s.len(),
        trim_front_by(s, p) == s.skip(s.len() - trim_front_by(s, p).len()),
        trim_front_by(s, p).len() > 0 ==> !p(trim_front_by(s, p)[0]),
    decreases s.len(),
{
    if s.len() > 0 && p(s[0]) {
        lemma_trim_front_suffix(s.drop_first(), p);
        assert(s.drop_first().skip(s.drop_first().len() - trim_front_by(s.drop_first(), p).len())
            =~= s.skip(s.len() - trim_front_by(s, p).len()));
    } else {
        assert(s.skip(0) =~= s);
    }
}

/// `trim_back_by` keeps a prefix whose last character, if any, is not trimmed.
pub proof fn lemma_trim_back_prefix(s: Seq<char>, p: spec_fn(char) -> bool)
    ensures
        trim_back_by(s, p).len() <= s.len(),
        trim_back_by(s, p) == s.take(trim_back_by(s, p).len() as int),
        trim_back_by(s, p).len() > 0 ==> !p(trim_back_by(s, p).last()),
    decreases s.len(),
{
    if s.len() > 0 && p(s.last()) {
        lemma_trim_back_prefix(s.drop_last(), p);
        let n = trim_back_by(s.drop_last(), p).len() as int;
        assert(s.drop_last().take(n) =~= s.take(n));
    } else {
        assert(s.take(s.len() as int) =~= s);
    }
}

/// `trim_by` keeps a contiguous part of `s`, starting at the returned index, whose first and
/// last characters are not trimmed.
pub proof fn lemma_trim_by_within(s: Seq<char>, p: spec_fn(char) -> bool) -> (a: int)
    ensures
        0 <= a,
        a + trim_by(s, p).len() <= s.len(),
        trim_by(s, p) == s.subrange(a, a + trim_by(s, p).len()),
        trim_by(s, p).len() > 0 ==> !p(trim_by(s, p)[0]) && !p(trim_by(s, p).last()),
{
    lemma_trim_front_suffix(s, p);
    let f = trim_front_by(s, p);
    let a = s.len() - f.len();
    lemma_trim_back_prefix(f, p);
    let r = trim_back_by(f, p);
    assert(r =~= s.subrange(a, a + r.len()));
    if r.len() > 0 {
        assert(r[0] == f[0]);
    }
    a
}

/// Trimming leaves alone a sequence that neither starts nor ends with a trimmed character.
pub proof fn lemma_trim_by_unchanged(s: Seq<char>, p: spec_fn(char) -> bool)
    requires
        s.len() == 0 || (!p(s[0]) && !p(s.last())),
    ensures
        trim_by(s, p) == s,
{
    assert(trim_front_by(s, p) == s);
    assert(trim_back_by(s, p) == s);
}

/// The word length is bounded by the sequence length.
pub proof fn lemma_word_len(s: Seq<char>)
    ensures
        word_len(s) <= s.len(),
        forall|k: int| 0 <= k < word_len(s) ==> !is_ws(s[k]),
        word_len(s) < s.len() ==> is_ws(s[word_len(s) as int]),
    decreases s.len(),
{
    if s.len() == 0 || is_ws(s[0]) {
    } else {
        lemma_word_len(s.drop_first());
        assert forall|k: int| 0 <= k < word_len(s) implies !is_ws(s[k]) by {
            if k > 0 {
                assert(s[k] == s.drop_first()[k - 1]);
            }
        }
    }
}

/// `split_whitespace().join(" ")`: words separated by single spaces.
pub open spec fn collapse_ws(s: Seq<char>) -> Seq<char>
    decreases s.len(),
{
    let t = trim_front_by(s, ws_pred());
    if t.len() == 0 {
        Seq::empty()
    } else {
        let w = word_len(t);
        proof {
            lemma_trim_front_suffix(s, ws_pred());
            lemma_word_len(t);
        }
        let rest = collapse_ws(t.skip(w as int));
        if rest.len() == 0 {
            t.take(w as int)
        } else {
            t.take(w as int) + seq![' '] + rest
        }
    }
}

/// Joins an output prefix with the collapsed remainder.
pub open spec fn join_collapsed(out: Seq<char>, rest: Seq<char>) -> Seq<char> {
    if out.len() == 0 {
        collapse_ws(rest)
    } else if collapse_ws(rest).len() == 0 {
        out
    } else {
        out + seq![' '] + collapse_ws(rest)
    }
}

/// `collapse_ws` ignores a leading whitespace character.
proof fn lemma_collapse_skip_ws(s: Seq<char>, i: int)
    requires
        0 <= i < s.len(),
        is_ws(s[i]),
    ensures
        collapse_ws(s.skip(i)) == collapse_ws(s.skip(i + 1)),
{
    let p = ws_pred();
    assert(p(s.skip(i)[0]));
    lemma_trim_front_step(s, p, i);
}

/// Word length measured on a suffix.
proof fn lemma_word_len_at(s: Seq<char>, i: int, k: int)
    requires
        0 <= i <= k <= s.len(),
        forall|j: int| i <= j < k ==> !is_ws(s[j]),
        k == s.len() || is_ws(s[k]),
    ensures
        word_len(s.skip(i)) == k - i,
    decreases k - i,
{
    if i == k {
    } else {
        assert(s.skip(i).drop_first() =~= s.skip(i + 1));
        lemma_word_len_at(s, i + 1, k);
    }
}

/// Collapses runs of whitespace to single spaces and trims both ends.
pub fn collapse_ws_chars(s: &[char]) -> (r: Vec<char>)
    ensures
        r@ == collapse_ws(s@),
{
    let mut out: Vec<char> = Vec::new();
    let mut i: usize = 0;
    assert(s@.skip(0) =~= s@);
    loop
        invariant
            i <= s@.len(),
            collapse_ws(s@) == join_collapsed(out@, s@.skip(i as int)),
        decreases s@.len() - i,
    {
        // skip whitespace
        let ghost i0 = i;
        while i < s.len() && char_is_ws(s[i])
            invariant
                i0 <= i <= s@.len(),
                collapse_ws(s@) == join_collapsed(out@, s@.skip(i as int)),
            decreases s@.len() - i,
        {
            proof {
                lemma_collapse_skip_ws(s@, i as int);
            }
            i = i + 1;
        }
        if i == s.len() {
            proof {
                assert(s@.skip(i as int) =~= Seq::<char>::empty());
                assert(collapse_ws(Seq::<char>::empty()) =~= Seq::<char>::empty());
            }
            return out;
        }
        let mut k: usize = i;
        while k < s.len() && !char_is_ws(s[k])
            invariant
                i <= k <= s@.len(),
                i < s@.len(),
                !is_ws(s@[i as int]),
                forall|j: int| i <= j < k ==> !is_ws(s@[j]),
            decreases s@.len() - k,
        {
            k = k + 1;
        }
        assert(k > i);
        proof {
            let t = s@.skip(i as int);
            let p = ws_pred();
            assert(!p(t[0]));
            assert(trim_front_by(t, p) == t);
            lemma_word_len_at(s@, i as int, k as int);
            assert(t.take(k - i) =~= s@.subrange(i as int, k as int));
            assert(t.skip(k - i) =~= s@.skip(k as int));
        }
        let ghost old_out = out@;
        if out.len() > 0 {
            out.push(' ');
        }
        let mut j: usize = i;
        while j < k
            invariant
                i <= j <= k <= s@.len(),
                old_out.len() > 0 ==> out@ == old_out + seq![' '] + s@.subrange(i as int, j as int),
                old_out.len() == 0 ==> out@ == s@.subrange(i as int, j as int),
            decreases k - j,
        {
            out.push(s[j]);
            j = j + 1;
            proof {
                if old_out.len() > 0 {
                    assert(out@ =~= old_out + seq![' '] + s@.subrange(i as int, j as int));
                } else {
                    assert(out@ =~= s@.subrange(i as int, j as int));
                }
            }
        }
        proof {
            let w = s@.subrange(i as int, k as int);
            let rest = collapse_ws(s@.skip(k as int));
            assert(w.len() > 0);
            if old_out.len() == 0 {
                assert(out@ == w);
            } else {
                assert(out@ == old_out + seq![' '] + w);
                if rest.len() > 0 {
                    assert(old_out + seq![' '] + (w + seq![' '] + rest) =~= (old_out + seq![' '] + w)
                        + seq![' '] + rest);
                }
            }
        }
        i = k;
    }
}

/// [`collapse_ws_chars`] on a string slice, as an owned string.
pub fn collapse_ws_str(s: &str) -> (r: String)
    ensures
        r@ == collapse_ws(s@),
{
    let cs = chars_of(s);
    let v = collapse_ws_chars(&cs);
    string_of(&v)
}

// ---------------------------------------------------------------------------
// Replacement
// ---------------------------------------------------------------------------

/// `str::replace` for a non-empty pattern: every non-overlapping occurrence, left to right.
pub open spec fn replace_all(s: Seq<char>, pat: Seq<char>, rep: Seq<char>) -> Seq<char>
    recommends
        pat.len() > 0,
    decreases s.len(),
{
    if pat.len() == 0 {
        s
    } else {
        match find(s, pat) {
            Some(i) => {
                proof {
                    lemma_find_from(s, pat, 0);
                }
                s.take(i) + rep + replace_all(s.skip(i + pat.len()), pat, rep)
            },
            None => s,
        }
    }
}

/// Searching a suffix finds the same occurrence, shifted.
pub proof fn lemma_find_shift(s: Seq<char>, pat: Seq<char>, start: int, i: int)
    requires
        0 <= start <= i,
        start <= s.len(),
    ensures
        find_from(s, pat, i) == (match find_from(s.skip(start), pat, i - start) {
            Some(k) => Some(k + start),
            None => None::<int>,
        }),
    decreases s.len() + 1 - i,
{
    assert(s.skip(start).len() == s.len() - start);
    if i + pat.len() > s.len() {
    } else {
        assert(s.skip(start).subrange(i - start, i - start + pat.len()) =~= s.subrange(
            i,
            i + pat.len(),
        ));
        if !match_at(s, pat, i) {
            lemma_find_shift(s, pat, start, i + 1);
        }
    }
}

/// Replaces every occurrence of a non-empty pattern.
pub fn replace_chars(s: &[char], pat: &[char], rep: &[char]) -> (r: Vec<char>)
    requires
        pat@.len() > 0,
    ensures
        r@ == replace_all(s@, pat@, rep@),
{
    let n: usize = s.len();
    let mut out: Vec<char> = Vec::new();
    let mut start: usize = 0;
    assert(s@.skip(0) =~= s@);
    loop
        invariant
            n == s@.len(),
            start <= s@.len(),
            pat@.len() > 0,
            replace_all(s@, pat@, rep@) == out@ + replace_all(s@.skip(start as int), pat@, rep@),
        decreases s@.len() - start,
    {
        let ghost t = s@.skip(start as int);
        proof {
            lemma_find_shift(s@, pat@, start as int, start as int);
            lemma_find_from(s@, pat@, start as int);
        }
        match find_chars_from(s, pat, start) {
            Some(i) => {
                let ghost old_out = out@;
                let mut j: usize = start;
                while j < i
                    invariant
                        start <= j <= i,
                        i + pat@.len() <= s@.len(),
                        out@ == old_out + s@.subrange(start as int, j as int),
                    decreases i - j,
                {
                    out.push(s[j]);
                    j = j + 1;
                    assert(out@ =~= old_out + s@.subrange(start as int, j as int));
                }
                push_chars(&mut out, rep);
                proof {
                    reveal(split_char);
                    assert(t.take(i - start) =~= s@.subrange(start as int, i as int));
                    assert(t.skip(i - start + pat@.len()) =~= s@.skip(i + pat@.len()));
                    assert(out@ + replace_all(s@.skip(i + pat@.len()), pat@, rep@) =~= old_out
                        + replace_all(t, pat@, rep@));
                }
                start = i + pat.len();
            },
            None => {
                let tail = sub_vec(s, start, s.len());
                push_chars(&mut out, &tail);
                proof {
                    assert(s@.subrange(start as int, s@.len() as int) =~= t);
                }
                return out;
            },
        }
    }
}

} // verus!
