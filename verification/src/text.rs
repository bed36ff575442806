//! Character-level text operations with their specifications.
//!
//! Strings are modelled by their views, sequences of `char`.  Operations that
//! only narrow a string (trimming, stripping prefixes) work on a window
//! `[a, b)` of the characters of the input and end with one `substring_char`.
use vstd::prelude::*;
use vstd::string::*;
use vstd::utf8::*;

verus! {

// ------------------------------------------------------------------
// Character classes
// ------------------------------------------------------------------
/// Unicode `White_Space`, the class that `str::trim` removes.
pub open spec fn is_whitespace(c: char) -> bool {
    ||| ('\u{9}' <= c && c <= '\u{d}')
    ||| c == ' '
    ||| c == '\u{85}'
    ||| c == '\u{a0}'
    ||| c == '\u{1680}'
    ||| ('\u{2000}' <= c && c <= '\u{200a}')
    ||| c == '\u{2028}'
    ||| c == '\u{2029}'
    ||| c == '\u{202f}'
    ||| c == '\u{205f}'
    ||| c == '\u{3000}'
}

/// A set of characters that a trim removes from both ends of a text.
#[derive(Clone, Copy, Debug, PartialEq, Eq)]
pub enum CharClass {
    Whitespace,
    Slash,
}

pub open spec fn in_class(c: char, k: CharClass) -> bool {
    match k {
        CharClass::Whitespace => is_whitespace(c),
        CharClass::Slash => c == '/',
    }
}

pub fn is_in_class(c: char, k: CharClass) -> (r: bool)
    ensures
        r == in_class(c, k),
{
    match k {
        CharClass::Whitespace => {
            ('\u{9}' <= c && c <= '\u{d}') || c == ' ' || c == '\u{85}' || c == '\u{a0}' || c
                == '\u{1680}' || ('\u{2000}' <= c && c <= '\u{200a}') || c == '\u{2028}' || c
                == '\u{2029}' || c == '\u{202f}' || c == '\u{205f}' || c == '\u{3000}'
        },
        CharClass::Slash => c == '/',
    }
}

/// ASCII lower-casing of one character; every other character is kept.
pub open spec fn ascii_lower(c: char) -> char {
    if 'A' <= c && c <= 'Z' {
        ((c as u32) + 32) as char
    } else {
        c
    }
}

pub open spec fn ascii_lower_text(s: Seq<char>) -> Seq<char> {
    s.map_values(|c: char| ascii_lower(c))
}

/// Equality up to ASCII case, as `str::eq_ignore_ascii_case`.
pub open spec fn eq_ignore_ascii_case(a: Seq<char>, b: Seq<char>) -> bool {
    ascii_lower_text(a) == ascii_lower_text(b)
}

// ------------------------------------------------------------------
// Trimming and prefix stripping
// ------------------------------------------------------------------
pub open spec fn trim_start_class(s: Seq<char>, k: CharClass) -> Seq<char>
    decreases s.len(),
{
    if s.len() > 0 && in_class(s[0], k) {
        trim_start_class(s.drop_first(), k)
    } else {
        s
    }
}

pub open spec fn trim_end_class(s: Seq<char>, k: CharClass) -> Seq<char>
    decreases s.len(),
{
    if s.len() > 0 && in_class(s.last(), k) {
        trim_end_class(s.drop_last(), k)
    } else {
        s
    }
}

/// `s` without the characters of class `k` at either end.
pub open spec fn trim_class(s: Seq<char>, k: CharClass) -> Seq<char> {
    trim_end_class(trim_start_class(s, k), k)
}

/// `str::trim`: `s` without leading and trailing white space.
pub open spec fn trim(s: Seq<char>) -> Seq<char> {
    trim_class(s, CharClass::Whitespace)
}

/// `s` is empty or blank (only white space).
pub open spec fn is_blank(s: Seq<char>) -> bool {
    trim(s).len() == 0
}

/// `str::trim_start_matches` with a text pattern: every leading copy of `p` removed.
pub open spec fn strip_repeated(s: Seq<char>, p: Seq<char>) -> Seq<char>
    decreases s.len(),
{
    if 0 < p.len() && p.len() <= s.len() && s.take(p.len() as int) == p {
        strip_repeated(s.skip(p.len() as int), p)
    } else {
        s
    }
}

pub open spec fn has_prefix(s: Seq<char>, p: Seq<char>) -> bool {
    p.len() <= s.len() && s.take(p.len() as int) == p
}

pub open spec fn has_suffix(s: Seq<char>, p: Seq<char>) -> bool {
    p.len() <= s.len() && s.subrange(s.len() - p.len(), s.len() as int) == p
}

pub open spec fn occurs_at(s: Seq<char>, p: Seq<char>, i: int) -> bool {
    0 <= i && i + p.len() <= s.len() && s.subrange(i, i + p.len()) == p
}

/// `p` occurs somewhere in `s` (the empty pattern occurs in every text).
pub open spec fn contains_text(s: Seq<char>, p: Seq<char>) -> bool {
    exists|i: int| occurs_at(s, p, i)
}

// ------------------------------------------------------------------
// Decimal numerals
// ------------------------------------------------------------------
pub open spec fn digit_char(d: nat) -> char {
    if d == 0 {
        '0'
    } else if d == 1 {
        '1'
    } else if d == 2 {
        '2'
    } else if d == 3 {
        '3'
    } else if d == 4 {
        '4'
    } else if d == 5 {
        '5'
    } else if d == 6 {
        '6'
    } else if d == 7 {
        '7'
    } else if d == 8 {
        '8'
    } else {
        '9'
    }
}

/// The decimal numeral of `n`, without sign or leading zeros.
pub open spec fn decimal(n: nat) -> Seq<char>
    decreases n,
{
    if n < 10 {
        seq![digit_char(n)]
    } else {
        decimal(n / 10) + seq![digit_char(n % 10)]
    }
}

// ------------------------------------------------------------------
// Names for results of std text functions whose definition is a Unicode table
// ------------------------------------------------------------------
/// What `str::to_uppercase` gives for a text (full Unicode case mapping).
pub uninterp spec fn unicode_upper(s: Seq<char>) -> Seq<char>;

/// What `str::to_lowercase` gives for a text (full Unicode case mapping).
pub uninterp spec fn unicode_lower(s: Seq<char>) -> Seq<char>;

/// What `String::from_utf8_lossy` gives for a byte sequence.
pub uninterp spec fn lossy_utf8(b: Seq<u8>) -> Seq<char>;

// ------------------------------------------------------------------
// Trusted calls into std
// ------------------------------------------------------------------
/// Calls `str::to_ascii_lowercase`; std documents that it maps `A`..`Z` to
/// `a`..`z` and keeps every other character.
#[verifier::external_body]
pub fn to_ascii_lowercase(s: &str) -> (r: String)
    ensures
        r@ == ascii_lower_text(s@),
{
    s.to_ascii_lowercase()
}

/// Calls `str::to_uppercase`; the result is named, not described.
#[verifier::external_body]
pub fn to_uppercase(s: &str) -> (r: String)
    ensures
        r@ == unicode_upper(s@),
{
    s.to_uppercase()
}

/// Calls `str::to_lowercase`; the result is named, not described.
#[verifier::external_body]
pub fn to_lowercase(s: &str) -> (r: String)
    ensures
        r@ == unicode_lower(s@),
{
    s.to_lowercase()
}

/// Calls `u64::to_string`, which std documents as the decimal numeral.
#[verifier::external_body]
pub fn decimal_string(n: u64) -> (r: String)
    ensures
        r@ == decimal(n as nat),
{
    n.to_string()
}

/// Calls `std::str::from_utf8` and copies the text: `Some` exactly for valid
/// UTF-8, holding the decoded characters.
#[verifier::external_body]
pub fn utf8_text(b: &[u8]) -> (r: Option<String>)
    ensures
        r is Some <==> valid_utf8(b@),
        r matches Some(s) ==> s@ == decode_utf8(b@),
{
    match std::str::from_utf8(b) {
        Ok(s) => Some(s.to_string()),
        Err(_) => None,
    }
}

/// Calls `String::from_utf8_lossy`: its result is named; on valid UTF-8 std
/// documents that the text is decoded unchanged.  What it gives for invalid
/// input (replacement characters) is left unsaid.
#[verifier::external_body]
pub fn lossy_text(b: &[u8]) -> (r: String)
    ensures
        r@ == lossy_utf8(b@),
        valid_utf8(b@) ==> r@ == decode_utf8(b@),
{
    String::from_utf8_lossy(b).into_owned()
}

// ------------------------------------------------------------------
// Verified operations
// ------------------------------------------------------------------
/// The characters of `s`, in order.
pub fn chars_of(s: &str) -> (v: Vec<char>)
    ensures
        v@ == s@,
{
    let mut v: Vec<char> = Vec::new();
    for c in it: s.chars()
        invariant
            v@ == it.seq().take(it.index() as int),
    {
        v.push(c);
    }
    v
}

/// Whether `p` occurs in `v` at position `i`.
pub fn occurs_at_exec(v: &Vec<char>, p: &Vec<char>, i: usize) -> (r: bool)
    ensures
        r == occurs_at(v@, p@, i as int),
{
    if p.len() > v.len() || i > v.len() - p.len() {
        return false;
    }
    let mut j: usize = 0;
    while j < p.len()
        invariant
            j <= p.len(),
            i + p.len() <= v.len(),
            forall|t: int| 0 <= t < j ==> v@[i + t] == p@[t],
        decreases p.len() - j,
    {
        if v[i + j] != p[j] {
            assert(v@.subrange(i as int, i + p.len())[j as int] != p@[j as int]);
            return false;
        }
        j = j + 1;
    }
    assert(v@.subrange(i as int, i + p.len()) =~= p@);
    true
}

pub fn has_suffix_exec(v: &Vec<char>, p: &Vec<char>) -> (r: bool)
    ensures
        r == has_suffix(v@, p@),
{
    if p.len() > v.len() {
        return false;
    }
    occurs_at_exec(v, p, v.len() - p.len())
}

pub fn contains_text_exec(v: &Vec<char>, p: &Vec<char>) -> (r: bool)
    ensures
        r == contains_text(v@, p@),
{
    if p.len() > v.len() {
        return false;
    }
    let last = v.len() - p.len();
    let mut i: usize = 0;
    loop
        invariant
            p.len() <= v.len(),
            last == v.len() - p.len(),
            i <= last,
            forall|t: int| 0 <= t < i ==> !occurs_at(v@, p@, t),
        decreases last - i,
    {
        if occurs_at_exec(v, p, i) {
            return true;
        }
        if i == last {
            return false;
        }
        i = i + 1;
    }
}

/// Whether `c` occurs in `v`.
pub fn contains_char_exec(v: &Vec<char>, c: char) -> (r: bool)
    ensures
        r == v@.contains(c),
{
    let mut i: usize = 0;
    while i < v.len()
        invariant
            i <= v.len(),
            forall|t: int| 0 <= t < i ==> v@[t] != c,
        decreases v.len() - i,
    {
        if v[i] == c {
            return true;
        }
        i = i + 1;
    }
    false
}

/// Narrows the window `[a, b)` of `v` by the classes `k` at both ends.
pub fn trim_window(v: &Vec<char>, a: usize, b: usize, k: CharClass) -> (r: (usize, usize))
    requires
        a <= b <= v.len(),
    ensures
        a <= r.0 <= r.1 <= b,
        v@.subrange(r.0 as int, r.1 as int) == trim_class(v@.subrange(a as int, b as int), k),
{
    let mut i = a;
    while i < b && is_in_class(v[i], k)
        invariant
            a <= i <= b <= v.len(),
            trim_start_class(v@.subrange(a as int, b as int), k) == trim_start_class(
                v@.subrange(i as int, b as int),
                k,
            ),
        decreases b - i,
    {
        assert(v@.subrange(i as int, b as int).drop_first() =~= v@.subrange(i + 1, b as int));
        i = i + 1;
    }
    let mut j = b;
    while j > i && is_in_class(v[j - 1], k)
        invariant
            a <= i <= j <= b <= v.len(),
            trim_start_class(v@.subrange(a as int, b as int), k) == v@.subrange(i as int, b as int),
            trim_end_class(v@.subrange(i as int, b as int), k) == trim_end_class(
                v@.subrange(i as int, j as int),
                k,
            ),
        decreases j - i,
    {
        assert(v@.subrange(i as int, j as int).drop_last() =~= v@.subrange(i as int, j - 1));
        j = j - 1;
    }
    (i, j)
}

/// Narrows the window `[a, b)` of `v` by every leading copy of `p`.
pub fn strip_window(v: &Vec<char>, a: usize, b: usize, p: &Vec<char>) -> (r: usize)
    requires
        a <= b <= v.len(),
    ensures
        a <= r <= b,
        v@.subrange(r as int, b as int) == strip_repeated(v@.subrange(a as int, b as int), p@),
{
    let mut i = a;
    loop
        invariant
            a <= i <= b <= v.len(),
            strip_repeated(v@.subrange(a as int, b as int), p@) == strip_repeated(
                v@.subrange(i as int, b as int),
                p@,
            ),
        decreases b - i,
    {
        let ghost w = v@.subrange(i as int, b as int);
        if p.len() == 0 || p.len() > b - i || !occurs_at_exec(v, p, i) {
            if p.len() > 0 && p.len() <= b - i {
                assert(w.take(p.len() as int) =~= v@.subrange(i as int, i + p.len()));
            }
            return i;
        }
        assert(w.take(p.len() as int) =~= v@.subrange(i as int, i + p.len()));
        assert(w.skip(p.len() as int) =~= v@.subrange(i + p.len(), b as int));
        i = i + p.len();
    }
}

/// `str::trim` followed by an owned copy.
pub fn trimmed(s: &str) -> (r: String)
    ensures
        r@ == trim(s@),
{
    let v = chars_of(s);
    let (a, b) = trim_window(&v, 0, v.len(), CharClass::Whitespace);
    assert(v@.subrange(0, v.len() as int) =~= s@);
    s.substring_char(a, b).to_owned()
}

/// Whether `s` is empty or holds only white space.
pub fn is_blank_exec(s: &str) -> (r: bool)
    ensures
        r == is_blank(s@),
{
    let v = chars_of(s);
    let (a, b) = trim_window(&v, 0, v.len(), CharClass::Whitespace);
    assert(v@.subrange(0, v.len() as int) =~= s@);
    a == b
}

/// Text equality.
pub fn same_text(a: &str, b: &str) -> (r: bool)
    ensures
        r == (a@ == b@),
{
    let x: String = a.to_owned();
    let y: String = b.to_owned();
    x == y
}

/// `str::eq_ignore_ascii_case`.
pub fn eq_ignore_ascii_case_exec(a: &str, b: &str) -> (r: bool)
    ensures
        r == eq_ignore_ascii_case(a@, b@),
{
    let x = to_ascii_lowercase(a);
    let y = to_ascii_lowercase(b);
    x == y
}


// ------------------------------------------------------------------
// Facts about trimming and case folding
// ------------------------------------------------------------------
/// No character of class `k` at either end.
pub open spec fn is_trimmed(s: Seq<char>, k: CharClass) -> bool {
    s.len() == 0 || (!in_class(s[0], k) && !in_class(s.last(), k))
}

proof fn lemma_trim_start_shape(s: Seq<char>, k: CharClass)
    ensures
        trim_start_class(s, k).len() == 0 || !in_class(trim_start_class(s, k)[0], k),
    decreases s.len(),
{
    if s.len() > 0 && in_class(s[0], k) {
        lemma_trim_start_shape(s.drop_first(), k);
    }
}

proof fn lemma_trim_end_shape(s: Seq<char>, k: CharClass)
    ensures
        trim_end_class(s, k).len() <= s.len(),
        trim_end_class(s, k) == s.take(trim_end_class(s, k).len() as int),
        trim_end_class(s, k).len() == 0 || !in_class(trim_end_class(s, k).last(), k),
    decreases s.len(),
{
    if s.len() > 0 && in_class(s.last(), k) {
        let w = trim_end_class(s.drop_last(), k);
        lemma_trim_end_shape(s.drop_last(), k);
        assert(s.drop_last().take(w.len() as int) =~= s.take(w.len() as int));
    } else {
        assert(s.take(s.len() as int) =~= s);
    }
}

/// A trimmed text has no character of the class at either end.
pub proof fn lemma_trim_is_trimmed(s: Seq<char>, k: CharClass)
    ensures
        is_trimmed(trim_class(s, k), k),
{
    let u = trim_start_class(s, k);
    lemma_trim_start_shape(s, k);
    lemma_trim_end_shape(u, k);
    let w = trim_end_class(u, k);
    if w.len() > 0 {
        assert(w[0] == u[0]);
    }
}

/// Trimming leaves an already trimmed text unchanged.
pub proof fn lemma_trimmed_unchanged(s: Seq<char>, k: CharClass)
    requires
        is_trimmed(s, k),
    ensures
        trim_class(s, k) == s,
{
}

/// Trimming twice is trimming once.
pub proof fn lemma_trim_idempotent(s: Seq<char>, k: CharClass)
    ensures
        trim_class(trim_class(s, k), k) == trim_class(s, k),
{
    lemma_trim_is_trimmed(s, k);
    lemma_trimmed_unchanged(trim_class(s, k), k);
}

proof fn lemma_lower_char(c: char)
    ensures
        is_whitespace(ascii_lower(c)) == is_whitespace(c),
        ascii_lower(ascii_lower(c)) == ascii_lower(c),
{
    if 'A' <= c && c <= 'Z' {
        let d = ((c as u32) + 32) as char;
        assert(d as u32 == (c as u32) + 32);
        assert('a' <= d && d <= 'z');
    }
}

/// ASCII lower-casing keeps a trimmed text trimmed.
pub proof fn lemma_lower_keeps_trimmed(s: Seq<char>)
    requires
        is_trimmed(s, CharClass::Whitespace),
    ensures
        is_trimmed(ascii_lower_text(s), CharClass::Whitespace),
{
    if s.len() > 0 {
        lemma_lower_char(s[0]);
        lemma_lower_char(s.last());
    }
}

/// ASCII lower-casing twice is lower-casing once.
pub proof fn lemma_lower_idempotent(s: Seq<char>)
    ensures
        ascii_lower_text(ascii_lower_text(s)) == ascii_lower_text(s),
{
    assert forall|i: int| 0 <= i < s.len() implies ascii_lower_text(ascii_lower_text(s))[i]
        == ascii_lower_text(s)[i] by {
        lemma_lower_char(s[i]);
    }
    assert(ascii_lower_text(ascii_lower_text(s)) =~= ascii_lower_text(s));
}

/// The number a string of decimal digits stands for, most significant
/// digit first.
pub open spec fn numeral_value(s: Seq<char>) -> int
    decreases s.len(),
{
    if s.len() == 0 {
        0
    } else {
        numeral_value(s.drop_last()) * 10 + (s.last() as int - '0' as int)
    }
}

/// `decimal(n)` is the decimal numeral of `n`: one or more digits `0`..`9`
/// standing for `n`, with no leading zero unless `n` is zero, which is `0`.
pub proof fn law_decimal_is_numeral(n: nat)
    ensures
        decimal(n).len() > 0,
        forall|i: int|
            0 <= i < decimal(n).len() ==> '0' as int <= #[trigger] decimal(n)[i] as int <= '9' as int,
        numeral_value(decimal(n)) == n,
        n > 0 ==> decimal(n)[0] != '0',
        n == 0 ==> decimal(n) == seq!['0'],
    decreases n,
{
    let last = digit_char(n % 10);
    assert(last as int - '0' as int == n % 10);
    if n < 10 {
        assert(decimal(n).drop_last() =~= Seq::<char>::empty());
        assert(numeral_value(decimal(n)) == numeral_value(Seq::<char>::empty()) * 10 + (last as int
            - '0' as int));
    } else {
        law_decimal_is_numeral(n / 10);
        let d = decimal(n);
        assert(d.last() == last);
        assert(d.drop_last() =~= decimal(n / 10));
        assert(numeral_value(d) == numeral_value(decimal(n / 10)) * 10 + (last as int
            - '0' as int));
        assert(d[0] == decimal(n / 10)[0]);
        assert forall|i: int| 0 <= i < d.len() implies '0' as int <= #[trigger] d[i] as int <= '9' as int by {
            if i < d.len() - 1 {
                assert(d[i] == decimal(n / 10)[i]);
            }
        }
    }
}

} // verus!
