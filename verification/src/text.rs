//! Character-level text operations with their mathematical meaning.
//!
//! Strings are modelled by their view, a `Seq<char>`.  Each executable
//! function here has a spec function beside it that states what it computes.

use vstd::prelude::*;

verus! {

/// `String::push` appends one character.
pub assume_specification[ String::push ](s: &mut String, ch: char)
    ensures
        final(s)@ == old(s)@.push(ch),
;

/// `String::push_str` appends a string slice.
pub assume_specification[ String::push_str ](s: &mut String, string: &str)
    ensures
        final(s)@ == old(s)@ + string@,
;

// ---------------------------------------------------------------------------
// Spec vocabulary
// ---------------------------------------------------------------------------

/// Unicode `White_Space`, the set that `char::is_whitespace` tests.
pub open spec fn is_space(c: char) -> bool {
    ||| c == '\t'
    ||| c == '\n'
    ||| c == '\u{0B}'
    ||| c == '\u{0C}'
    ||| c == '\r'
    ||| c == ' '
    ||| c == '\u{85}'
    ||| c == '\u{A0}'
    ||| c == '\u{1680}'
    ||| ('\u{2000}' <= c && c <= '\u{200A}')
    ||| c == '\u{2028}'
    ||| c == '\u{2029}'
    ||| c == '\u{202F}'
    ||| c == '\u{205F}'
    ||| c == '\u{3000}'
}

/// `s` without its leading white space.
pub open spec fn trim_start(s: Seq<char>) -> Seq<char>
    decreases s.len(),
{
    if s.len() > 0 && is_space(s[0]) {
        trim_start(s.drop_first())
    } else {
        s
    }
}

/// `s` without its trailing white space.
pub open spec fn trim_end(s: Seq<char>) -> Seq<char>
    decreases s.len(),
{
    if s.len() > 0 && is_space(s.last()) {
        trim_end(s.drop_last())
    } else {
        s
    }
}

/// `s` without white space at either end (`str::trim`).
pub open spec fn trim(s: Seq<char>) -> Seq<char> {
    trim_end(trim_start(s))
}

/// `s` without every trailing `c` (`str::trim_end_matches` with a char).
pub open spec fn trim_end_char(s: Seq<char>, c: char) -> Seq<char>
    decreases s.len(),
{
    if s.len() > 0 && s.last() == c {
        trim_end_char(s.drop_last(), c)
    } else {
        s
    }
}

/// `s` ends with `suf`.
pub open spec fn has_suffix(s: Seq<char>, suf: Seq<char>) -> bool {
    suf.len() <= s.len() && s.subrange(s.len() - suf.len(), s.len() as int) == suf
}

/// `s` starts with `pre`.
pub open spec fn has_prefix(s: Seq<char>, pre: Seq<char>) -> bool {
    pre.len() <= s.len() && s.subrange(0, pre.len() as int) == pre
}

/// `str::strip_suffix`.
pub open spec fn strip_suffix(s: Seq<char>, suf: Seq<char>) -> Option<Seq<char>> {
    if has_suffix(s, suf) {
        Some(s.subrange(0, s.len() - suf.len()))
    } else {
        None
    }
}

/// `str::strip_prefix`.
pub open spec fn strip_prefix(s: Seq<char>, pre: Seq<char>) -> Option<Seq<char>> {
    if has_prefix(s, pre) {
        Some(s.subrange(pre.len() as int, s.len() as int))
    } else {
        None
    }
}

/// `pat` occurs in `s` at position `i`.
pub open spec fn occurs_at(s: Seq<char>, pat: Seq<char>, i: int) -> bool {
    0 <= i && i + pat.len() <= s.len() && s.subrange(i, i + pat.len()) == pat
}

/// `pat` occurs somewhere in `s` (`str::contains`).
pub open spec fn contains(s: Seq<char>, pat: Seq<char>) -> bool {
    exists|i: int| occurs_at(s, pat, i)
}

/// Position of the first `c` in `s`.
pub open spec fn find_char(s: Seq<char>, c: char) -> Option<int>
    decreases s.len(),
{
    if s.len() == 0 {
        None
    } else if s[0] == c {
        Some(0)
    } else {
        match find_char(s.drop_first(), c) {
            Some(i) => Some(i + 1),
            None => None,
        }
    }
}

/// Position of the last `c` in `s`.
pub open spec fn rfind_char(s: Seq<char>, c: char) -> Option<int>
    decreases s.len(),
{
    if s.len() == 0 {
        None
    } else if s.last() == c {
        Some(s.len() - 1)
    } else {
        rfind_char(s.drop_last(), c)
    }
}

/// The pieces of `s` between occurrences of `c` (`str::split` with a char):
/// never empty, and one more piece than there are `c`s.
pub open spec fn split_char(s: Seq<char>, c: char) -> Seq<Seq<char>>
    decreases s.len(),
{
    match find_char(s, c) {
        None => seq![s],
        Some(i) => {
            proof {
                lemma_find_char_some(s, c);
            }
            seq![s.subrange(0, i)] + split_char(s.subrange(i + 1, s.len() as int), c)
        },
    }
}

/// `str::split_once` with a char.
pub open spec fn split_once_char(s: Seq<char>, c: char) -> Option<(Seq<char>, Seq<char>)> {
    match find_char(s, c) {
        None => None,
        Some(i) => Some((s.subrange(0, i), s.subrange(i + 1, s.len() as int))),
    }
}

/// The last piece of `s` after its last `c`, or all of `s` when it has none
/// (`s.rsplit(c).next()`).
pub open spec fn after_last_char(s: Seq<char>, c: char) -> Seq<char> {
    match rfind_char(s, c) {
        None => s,
        Some(i) => s.subrange(i + 1, s.len() as int),
    }
}

/// `line` without one trailing carriage return.
pub open spec fn drop_cr(line: Seq<char>) -> Seq<char> {
    if line.len() > 0 && line.last() == '\r' {
        line.drop_last()
    } else {
        line
    }
}

/// The lines of `s` (`str::lines`): split at `\n`, a `\r` right before the
/// `\n` removed, no empty line after a final line ending.
pub open spec fn lines(s: Seq<char>) -> Seq<Seq<char>>
    decreases s.len(),
{
    if s.len() == 0 {
        seq![]
    } else {
        match find_char(s, '\n') {
            None => seq![s],
            Some(i) => {
                proof {
                    lemma_find_char_some(s, '\n');
                }
                seq![drop_cr(s.subrange(0, i))] + lines(s.subrange(i + 1, s.len() as int))
            },
        }
    }
}

/// The decimal digit for `d < 10`.
pub open spec fn digit_char(d: nat) -> char {
    if d == 0 { '0' }
    else if d == 1 { '1' }
    else if d == 2 { '2' }
    else if d == 3 { '3' }
    else if d == 4 { '4' }
    else if d == 5 { '5' }
    else if d == 6 { '6' }
    else if d == 7 { '7' }
    else if d == 8 { '8' }
    else { '9' }
}

/// The decimal writing of `n`, with no leading zero (`Display` of an
/// unsigned integer).
pub open spec fn decimal(n: nat) -> Seq<char>
    decreases n,
{
    if n < 10 {
        seq![digit_char(n)]
    } else {
        decimal(n / 10).push(digit_char(n % 10))
    }
}

/// The decimal writing of a signed integer (`Display` of `i64`).
pub open spec fn signed_decimal(n: int) -> Seq<char> {
    if n < 0 {
        seq!['-'] + decimal((-n) as nat)
    } else {
        decimal(n as nat)
    }
}

/// `c` is an ASCII decimal digit.
pub open spec fn is_digit(c: char) -> bool {
    '0' <= c && c <= '9'
}

/// The value of a digit character.
pub open spec fn digit_value(c: char) -> nat {
    ((c as u32) - ('0' as u32)) as nat
}

/// The value of a string of decimal digits.
pub open spec fn digits_value(s: Seq<char>) -> nat
    decreases s.len(),
{
    if s.len() == 0 {
        0
    } else {
        digits_value(s.drop_last()) * 10 + digit_value(s.last())
    }
}

/// All characters of `s` are decimal digits.
pub open spec fn all_digits(s: Seq<char>) -> bool {
    forall|i: int| 0 <= i < s.len() ==> is_digit(#[trigger] s[i])
}

/// The digits that an unsigned `FromStr` reads: an optional `+`, then at
/// least one digit and nothing else.
pub open spec fn unsigned_digits(s: Seq<char>) -> Option<Seq<char>> {
    let d = if s.len() > 0 && s[0] == '+' { s.drop_first() } else { s };
    if d.len() > 0 && all_digits(d) {
        Some(d)
    } else {
        None
    }
}

/// What `u64::from_str`-like parsing gives for an unsigned type whose
/// largest value is `max`.
pub open spec fn parse_unsigned(s: Seq<char>, max: nat) -> Option<nat> {
    match unsigned_digits(s) {
        Some(d) => if digits_value(d) <= max { Some(digits_value(d)) } else { None },
        None => None,
    }
}

/// The two lower-case hex digits of a byte (`format!("{:02x}", b)`).
pub open spec fn hex_digit(d: nat) -> char {
    if d < 10 {
        digit_char(d)
    } else if d == 10 { 'a' }
    else if d == 11 { 'b' }
    else if d == 12 { 'c' }
    else if d == 13 { 'd' }
    else if d == 14 { 'e' }
    else { 'f' }
}

/// The lower-case hex writing of a byte string, two digits per byte.
pub open spec fn hex_lower(bytes: Seq<u8>) -> Seq<char>
    decreases bytes.len(),
{
    if bytes.len() == 0 {
        seq![]
    } else {
        hex_lower(bytes.drop_last()) + seq![
            hex_digit((bytes.last() / 16) as nat),
            hex_digit((bytes.last() % 16) as nat),
        ]
    }
}

// ---------------------------------------------------------------------------
// Executable operations
// ---------------------------------------------------------------------------

/// The characters of a string slice, in order.
pub fn chars_of(s: &str) -> (v: Vec<char>)
    ensures
        v@ == s@,
{
    let mut v: Vec<char> = Vec::new();
    for c in it: s.chars()
        invariant
            v@ == it.seq().take(it.index() as int),
            it.seq() == s@,
    {
        v.push(c);
    }
    v
}

/// The string made of `v[lo..hi]`.
pub fn string_of(v: &Vec<char>, lo: usize, hi: usize) -> (s: String)
    requires
        lo <= hi <= v.len(),
    ensures
        s@ == v@.subrange(lo as int, hi as int),
{
    let mut s = String::new();
    let mut i = lo;
    while i < hi
        invariant
            lo <= i <= hi <= v.len(),
            s@ == v@.subrange(lo as int, i as int),
        decreases hi - i,
    {
        s.push(v[i]);
        assert(v@.subrange(lo as int, i + 1) == v@.subrange(lo as int, i as int).push(v@[i as int]));
        i += 1;
    }
    s
}

/// A copy of a string slice as a `String`.
pub fn owned(s: &str) -> (r: String)
    ensures
        r@ == s@,
{
    let v = chars_of(s);
    string_of(&v, 0, v.len())
}

/// `a` and `b` hold the same characters.
pub fn chars_eq(a: &Vec<char>, b: &Vec<char>) -> (r: bool)
    ensures
        r == (a@ == b@),
{
    if a.len() != b.len() {
        return false;
    }
    let mut i: usize = 0;
    while i < a.len()
        invariant
            a.len() == b.len(),
            i <= a.len(),
            forall|j: int| 0 <= j < i ==> a@[j] == b@[j],
        decreases a.len() - i,
    {
        if a[i] != b[i] {
            return false;
        }
        i += 1;
    }
    assert(a@ =~= b@);
    true
}

/// `a` and `b` are equal strings.
pub fn str_eq(a: &str, b: &str) -> (r: bool)
    ensures
        r == (a@ == b@),
{
    let va = chars_of(a);
    let vb = chars_of(b);
    chars_eq(&va, &vb)
}

/// `v[lo..hi]` equals `pat`.
pub fn matches_at(v: &Vec<char>, lo: usize, pat: &Vec<char>) -> (r: bool)
    requires
        lo + pat.len() <= v.len(),
    ensures
        r == (v@.subrange(lo as int, lo + pat.len()) == pat@),
{
    let mut i: usize = 0;
    while i < pat.len()
        invariant
            lo + pat.len() <= v.len(),
            i <= pat.len(),
            forall|j: int| 0 <= j < i ==> v@[lo + j] == pat@[j],
        decreases pat.len() - i,
    {
        if v[lo + i] != pat[i] {
            assert(v@.subrange(lo as int, lo + pat.len())[i as int] != pat@[i as int]);
            return false;
        }
        i += 1;
    }
    assert(v@.subrange(lo as int, lo + pat.len()) =~= pat@);
    true
}

/// `v` ends with `suf`.
pub fn ends_with(v: &Vec<char>, suf: &Vec<char>) -> (r: bool)
    ensures
        r == has_suffix(v@, suf@),
{
    if suf.len() > v.len() {
        false
    } else {
        matches_at(v, v.len() - suf.len(), suf)
    }
}

/// `v` starts with `pre`.
pub fn starts_with(v: &Vec<char>, pre: &Vec<char>) -> (r: bool)
    ensures
        r == has_prefix(v@, pre@),
{
    if pre.len() > v.len() {
        false
    } else {
        matches_at(v, 0, pre)
    }
}

/// `pat` occurs in `v`.
pub fn contains_chars(v: &Vec<char>, pat: &Vec<char>) -> (r: bool)
    ensures
        r == contains(v@, pat@),
{
    if pat.len() > v.len() {
        assert(!contains(v@, pat@));
        return false;
    }
    let last = v.len() - pat.len();
    let mut i: usize = 0;
    loop
        invariant
            pat.len() <= v.len(),
            last == v.len() - pat.len(),
            i <= last,
            forall|j: int| 0 <= j < i ==> !occurs_at(v@, pat@, j),
        ensures
            forall|j: int| 0 <= j <= last ==> !occurs_at(v@, pat@, j),
        decreases last - i,
    {
        if matches_at(v, i, pat) {
            assert(occurs_at(v@, pat@, i as int));
            return true;
        }
        if i == last {
            assert(!occurs_at(v@, pat@, i as int));
            break;
        }
        i += 1;
    }
    assert forall|j: int| !occurs_at(v@, pat@, j) by {
        if 0 <= j && j + pat@.len() <= v@.len() {
            assert(j <= last);
        }
    }
    false
}

/// Length of `v` once every trailing `c` is removed.
pub fn trim_end_char_len(v: &Vec<char>, c: char) -> (n: usize)
    ensures
        n <= v.len(),
        v@.subrange(0, n as int) == trim_end_char(v@, c),
{
    let mut n = v.len();
    assert(v@.subrange(0, n as int) == v@);
    while n > 0 && v[n - 1] == c
        invariant
            n <= v.len(),
            trim_end_char(v@.subrange(0, n as int), c) == trim_end_char(v@, c),
        decreases n,
    {
        assert(v@.subrange(0, n - 1) == v@.subrange(0, n as int).drop_last());
        n -= 1;
    }
    assert(v@.subrange(0, n as int) == trim_end_char(v@.subrange(0, n as int), c));
    n
}

/// `c` is white space.
pub fn is_space_char(c: char) -> (r: bool)
    ensures
        r == is_space(c),
{
    c == '\t' || c == '\n' || c == '\u{0B}' || c == '\u{0C}' || c == '\r' || c == ' '
        || c == '\u{85}' || c == '\u{A0}' || c == '\u{1680}' || ('\u{2000}' <= c && c <= '\u{200A}')
        || c == '\u{2028}' || c == '\u{2029}' || c == '\u{202F}' || c == '\u{205F}'
        || c == '\u{3000}'
}

proof fn lemma_trim_start_skip(s: Seq<char>, k: int)
    requires
        0 <= k <= s.len(),
        forall|j: int| 0 <= j < k ==> is_space(#[trigger] s[j]),
    ensures
        trim_start(s) == trim_start(s.subrange(k, s.len() as int)),
    decreases k,
{
    if k > 0 {
        let t = s.drop_first();
        assert(is_space(s[0]));
        assert forall|j: int| 0 <= j < k - 1 implies is_space(#[trigger] t[j]) by {
            assert(t[j] == s[j + 1]);
        }
        lemma_trim_start_skip(t, k - 1);
        assert(t.subrange(k - 1, t.len() as int) == s.subrange(k, s.len() as int));
    } else {
        assert(s.subrange(0, s.len() as int) == s);
    }
}

/// The bounds of `v[lo..hi]` with white space trimmed from both ends.
pub fn trim_range(v: &Vec<char>, lo: usize, hi: usize) -> (r: (usize, usize))
    requires
        lo <= hi <= v.len(),
    ensures
        lo <= r.0 <= r.1 <= hi,
        v@.subrange(r.0 as int, r.1 as int) == trim(v@.subrange(lo as int, hi as int)),
{
    let ghost s = v@.subrange(lo as int, hi as int);
    let mut a: usize = lo;
    while a < hi && is_space_char(v[a])
        invariant
            lo <= a <= hi <= v.len(),
            s == v@.subrange(lo as int, hi as int),
            forall|j: int| 0 <= j < a - lo ==> is_space(#[trigger] s[j]),
        decreases hi - a,
    {
        assert(s[a - lo] == v@[a as int]);
        a += 1;
    }
    proof {
        lemma_trim_start_skip(s, a - lo);
        let t = s.subrange(a - lo, s.len() as int);
        assert(t == v@.subrange(a as int, hi as int));
        if t.len() > 0 {
            assert(t[0] == v@[a as int]);
        }
        assert(trim_start(t) == t);
    }
    let mut b: usize = hi;
    while b > a && is_space_char(v[b - 1])
        invariant
            lo <= a <= b <= hi <= v.len(),
            s == v@.subrange(lo as int, hi as int),
            trim_end(v@.subrange(a as int, b as int)) == trim(s),
        decreases b,
    {
        assert(v@.subrange(a as int, b - 1) == v@.subrange(a as int, b as int).drop_last());
        b -= 1;
    }
    (a, b)
}

/// `str::trim`, as a new `String`.
pub fn trimmed(s: &str) -> (r: String)
    ensures
        r@ == trim(s@),
{
    let v = chars_of(s);
    assert(v@.subrange(0, v.len() as int) == v@);
    let (lo, hi) = trim_range(&v, 0, v.len());
    string_of(&v, lo, hi)
}

/// The first `c` in `s` is at `i` when `s[i] == c` and none comes before.
pub proof fn lemma_find_char_first(s: Seq<char>, c: char, i: int)
    requires
        0 <= i < s.len(),
        s[i] == c,
        forall|j: int| 0 <= j < i ==> s[j] != c,
    ensures
        find_char(s, c) == Some(i),
    decreases i,
{
    if i > 0 {
        lemma_find_char_first(s.drop_first(), c, i - 1);
    }
}

/// `find_char` finds nothing in a string without `c`.
pub proof fn lemma_find_char_none(s: Seq<char>, c: char)
    requires
        forall|j: int| 0 <= j < s.len() ==> s[j] != c,
    ensures
        find_char(s, c) == None::<int>,
    decreases s.len(),
{
    if s.len() > 0 {
        lemma_find_char_none(s.drop_first(), c);
    }
}

/// What `find_char` returns is a position of `c`, with none before it.
pub proof fn lemma_find_char_some(s: Seq<char>, c: char)
    ensures
        match find_char(s, c) {
            Some(i) => 0 <= i < s.len() && s[i] == c && forall|j: int| 0 <= j < i ==> s[j] != c,
            None => forall|j: int| 0 <= j < s.len() ==> s[j] != c,
        },
    decreases s.len(),
{
    if s.len() > 0 {
        lemma_find_char_some(s.drop_first(), c);
        if s[0] != c {
            assert forall|j: int| 1 <= j < s.len() implies s[j] == s.drop_first()[j - 1] by {}
        }
    }
}

/// Position of the first `c` in `v[lo..hi]`, as an index into `v`.
pub fn find_char_range(v: &Vec<char>, c: char, lo: usize, hi: usize) -> (r: Option<usize>)
    requires
        lo <= hi <= v.len(),
    ensures
        r == (match find_char(v@.subrange(lo as int, hi as int), c) {
            Some(i) => Some((i + lo) as usize),
            None => None::<usize>,
        }),
        r matches Some(i) ==> lo <= i < hi && v@[i as int] == c,
{
    let ghost s = v@.subrange(lo as int, hi as int);
    let mut i: usize = lo;
    while i < hi
        invariant
            lo <= i <= hi <= v.len(),
            s == v@.subrange(lo as int, hi as int),
            forall|j: int| 0 <= j < i - lo ==> s[j] != c,
        decreases hi - i,
    {
        if v[i] == c {
            proof {
                assert(s[i - lo] == c);
                lemma_find_char_first(s, c, i - lo);
            }
            return Some(i);
        }
        assert(s[i - lo] == v@[i as int]);
        i += 1;
    }
    proof { lemma_find_char_none(s, c); }
    None
}

/// `v[lo..hi]` equals `w`.
pub fn range_eq(v: &Vec<char>, lo: usize, hi: usize, w: &Vec<char>) -> (r: bool)
    requires
        lo <= hi <= v.len(),
    ensures
        r == (v@.subrange(lo as int, hi as int) == w@),
{
    if hi - lo != w.len() {
        return false;
    }
    matches_at(v, lo, w)
}

/// Position of the last `c` in `v`.
pub fn rfind_char_in(v: &Vec<char>, c: char) -> (r: Option<usize>)
    ensures
        r == (match rfind_char(v@, c) {
            Some(i) => Some(i as usize),
            None => None::<usize>,
        }),
        r matches Some(i) ==> i < v.len(),
{
    proof { lemma_rfind_char_bound(v@, c); }
    let mut n: usize = v.len();
    assert(v@.subrange(0, n as int) == v@);
    while n > 0
        invariant
            n <= v.len(),
            rfind_char(v@.subrange(0, n as int), c) == rfind_char(v@, c),
        decreases n,
    {
        if v[n - 1] == c {
            return Some(n - 1);
        }
        assert(v@.subrange(0, n - 1) == v@.subrange(0, n as int).drop_last());
        n -= 1;
    }
    None
}

/// `rfind_char` returns an index inside the string.
pub proof fn lemma_rfind_char_bound(s: Seq<char>, c: char)
    ensures
        rfind_char(s, c) matches Some(i) ==> 0 <= i < s.len(),
    decreases s.len(),
{
    if s.len() > 0 && s.last() != c {
        lemma_rfind_char_bound(s.drop_last(), c);
    }
}

/// Writes the decimal form of `n` after `out`.
pub fn push_decimal(out: &mut String, n: u64)
    ensures
        final(out)@ == old(out)@ + decimal(n as nat),
{
    let mut digits: Vec<char> = Vec::new();
    let mut m = n;
    // digits are collected least significant first
    while m >= 10
        invariant
            decimal(n as nat) == decimal(m as nat) + digits@.reverse(),
        decreases m,
    {
        let d = m % 10;
        let ch = digit_of(d);
        proof {
            assert(decimal(m as nat) == decimal((m / 10) as nat).push(digit_char((m % 10) as nat)));
            assert(decimal(m as nat) + digits@.reverse()
                =~= decimal((m / 10) as nat) + digits@.push(ch).reverse());
        }
        digits.push(ch);
        m = m / 10;
    }
    let ch = digit_of(m);
    proof {
        assert(decimal(m as nat) == seq![ch]);
        assert(seq![ch] + digits@.reverse() =~= digits@.push(ch).reverse());
    }
    digits.push(ch);
    let mut k = digits.len();
    let ghost start = out@;
    while k > 0
        invariant
            k <= digits.len(),
            out@ == start + digits@.reverse().subrange(0, (digits.len() - k) as int),
        decreases k,
    {
        out.push(digits[k - 1]);
        proof {
            let r = digits@.reverse();
            assert(r.subrange(0, (digits.len() - k + 1) as int)
                =~= r.subrange(0, (digits.len() - k) as int).push(digits@[k - 1]));
        }
        k -= 1;
    }
    assert(digits@.reverse().subrange(0, digits.len() as int) =~= digits@.reverse());
}

/// The digit character for `d < 10`.
pub fn digit_of(d: u64) -> (c: char)
    requires
        d < 10,
    ensures
        c == digit_char(d as nat),
        is_digit(c),
        digit_value(c) == d,
{
    if d == 0 { '0' }
    else if d == 1 { '1' }
    else if d == 2 { '2' }
    else if d == 3 { '3' }
    else if d == 4 { '4' }
    else if d == 5 { '5' }
    else if d == 6 { '6' }
    else if d == 7 { '7' }
    else if d == 8 { '8' }
    else { '9' }
}

/// The decimal form of `n` as a `String`.
pub fn u64_to_decimal(n: u64) -> (s: String)
    ensures
        s@ == decimal(n as nat),
{
    let mut s = String::new();
    push_decimal(&mut s, n);
    assert(s@ =~= decimal(n as nat));
    s
}

/// Writes the decimal form of a signed `n` after `out`.
pub fn push_signed_decimal(out: &mut String, n: i64)
    ensures
        final(out)@ == old(out)@ + signed_decimal(n as int),
{
    if n < 0 {
        out.push('-');
        let m: u64 = if n == i64::MIN { 9223372036854775808u64 } else { (-n) as u64 };
        let ghost mid = out@;
        push_decimal(out, m);
        assert(mid + decimal(m as nat) =~= old(out)@ + (seq!['-'] + decimal((-n) as nat)));
    } else {
        push_decimal(out, n as u64);
    }
}

/// The value of the decimal digits `v[lo..hi]`, or `None` when it is above
/// `max`.
pub fn digits_value_upto(v: &Vec<char>, lo: usize, hi: usize, max: u64) -> (r: Option<u64>)
    requires
        lo <= hi <= v.len(),
        all_digits(v@.subrange(lo as int, hi as int)),
    ensures
        match r {
            Some(x) => x == digits_value(v@.subrange(lo as int, hi as int)) && x <= max,
            None => digits_value(v@.subrange(lo as int, hi as int)) > max,
        },
{
    let mut acc: u64 = 0;
    let mut i = lo;
    while i < hi
        invariant
            lo <= i <= hi <= v.len(),
            all_digits(v@.subrange(lo as int, hi as int)),
            acc == digits_value(v@.subrange(lo as int, i as int)),
            acc <= max,
        decreases hi - i,
    {
        let c = v[i];
        assert(v@.subrange(lo as int, hi as int)[i - lo] == c);
        assert(is_digit(c));
        let d = (c as u32 - '0' as u32) as u64;
        let ghost pre = v@.subrange(lo as int, i as int);
        let ghost next = v@.subrange(lo as int, i + 1);
        assert(next.drop_last() == pre);
        assert(next.last() == c);
        assert(digits_value(next) == digits_value(pre) * 10 + digit_value(c));
        if d > max || acc > (max - d) / 10 {
            assert(acc * 10 + d > max) by (nonlinear_arith)
                requires
                    d > max || acc > (max - d) / 10,
                    d <= 9;
            proof { lemma_digits_monotone(v@.subrange(lo as int, hi as int), (i + 1 - lo) as int); }
            assert(v@.subrange(lo as int, hi as int).subrange(0, (i + 1 - lo) as int) == next);
            return None;
        }
        acc = acc * 10 + d;
        i += 1;
    }
    Some(acc)
}

/// The value of a prefix of digits is at most the value of the whole.
pub proof fn lemma_digits_monotone(s: Seq<char>, k: int)
    requires
        0 <= k <= s.len(),
        all_digits(s),
    ensures
        digits_value(s.subrange(0, k)) <= digits_value(s),
    decreases s.len() - k,
{
    if k < s.len() {
        lemma_digits_monotone(s, k + 1);
        let p = s.subrange(0, k + 1);
        assert(p.drop_last() == s.subrange(0, k));
    } else {
        assert(s.subrange(0, k) == s);
    }
}

/// Parses an unsigned decimal number no larger than `max`, as the
/// `FromStr` impls of the unsigned integer types do.
pub fn parse_unsigned_upto(s: &str, max: u64) -> (r: Option<u64>)
    ensures
        match r {
            Some(x) => parse_unsigned(s@, max as nat) == Some(x as nat),
            None => parse_unsigned(s@, max as nat) == None::<nat>,
        },
{
    let v = chars_of(s);
    let lo: usize = if v.len() > 0 && v[0] == '+' { 1 } else { 0 };
    proof {
        let d = if v@.len() > 0 && v@[0] == '+' { v@.drop_first() } else { v@ };
        assert(d == v@.subrange(lo as int, v.len() as int));
    }
    if lo >= v.len() {
        return None;
    }
    let mut i = lo;
    while i < v.len()
        invariant
            lo <= i <= v.len(),
            lo < v.len(),
            v@ == s@,
            lo == (if v@.len() > 0 && v@[0] == '+' { 1int } else { 0int }),
            forall|j: int| lo <= j < i ==> is_digit(#[trigger] v@[j]),
        decreases v.len() - i,
    {
        if !('0' <= v[i] && v[i] <= '9') {
            let ghost d = if v@.len() > 0 && v@[0] == '+' { v@.drop_first() } else { v@ };
            assert(d == v@.subrange(lo as int, v.len() as int));
            assert(v@.subrange(lo as int, v.len() as int)[i - lo] == v@[i as int]);
            assert(!is_digit(v@[i as int]));
            assert(!all_digits(v@.subrange(lo as int, v.len() as int)));
            return None;
        }
        i += 1;
    }
    assert(all_digits(v@.subrange(lo as int, v.len() as int)));
    digits_value_upto(&v, lo, v.len(), max)
}

/// Writes the lower-case hex digits of `bytes`, two per byte.
pub fn hex_encode(bytes: &[u8]) -> (s: String)
    ensures
        s@ == hex_lower(bytes@),
{
    let mut s = String::new();
    let mut i: usize = 0;
    while i < bytes.len()
        invariant
            i <= bytes.len(),
            s@ == hex_lower(bytes@.subrange(0, i as int)),
        decreases bytes.len() - i,
    {
        let b = bytes[i];
        s.push(hex_of(b / 16));
        s.push(hex_of(b % 16));
        proof {
            let p = bytes@.subrange(0, i + 1);
            assert(p.drop_last() == bytes@.subrange(0, i as int));
            assert(p.last() == b);
        }
        i += 1;
    }
    assert(bytes@.subrange(0, bytes.len() as int) == bytes@);
    s
}

/// The lower-case hex digit for `d < 16`.
pub fn hex_of(d: u8) -> (c: char)
    requires
        d < 16,
    ensures
        c == hex_digit(d as nat),
{
    if d < 10 {
        digit_of(d as u64)
    } else if d == 10 { 'a' }
    else if d == 11 { 'b' }
    else if d == 12 { 'c' }
    else if d == 13 { 'd' }
    else if d == 14 { 'e' }
    else { 'f' }
}

/// The texts of a sequence of strings.
pub open spec fn texts_of(v: Seq<String>) -> Seq<Seq<char>> {
    v.map_values(|s: String| s@)
}

/// Lines joined with `\n` between them (`join("\n")`).
pub open spec fn join_lines(ls: Seq<Seq<char>>) -> Seq<char>
    decreases ls.len(),
{
    if ls.len() == 0 {
        Seq::empty()
    } else if ls.len() == 1 {
        ls[0]
    } else {
        join_lines(ls.drop_last()) + seq!['\n'] + ls.last()
    }
}

/// `lines(s[lo..])` in pieces: the first line, then the rest.
proof fn lemma_lines_step(s: Seq<char>, i: int)
    requires
        0 <= i < s.len(),
        s[i] == '\n',
        forall|j: int| 0 <= j < i ==> s[j] != '\n',
    ensures
        lines(s) == seq![drop_cr(s.subrange(0, i))] + lines(s.subrange(i + 1, s.len() as int)),
{
    lemma_find_char_first(s, '\n', i);
}

/// The lines of a text (`str::lines`).
pub fn lines_of(text: &str) -> (r: Vec<String>)
    ensures
        texts_of(r@) == lines(text@),
{
    let v = chars_of(text);
    let mut out: Vec<String> = Vec::new();
    let mut start: usize = 0;
    assert(v@.subrange(0, v.len() as int) == v@);
    while start < v.len()
        invariant
            start <= v.len(),
            v@ == text@,
            texts_of(out@) + lines(v@.subrange(start as int, v.len() as int)) == lines(text@),
        decreases v.len() - start,
    {
        let ghost rest = v@.subrange(start as int, v.len() as int);
        let ghost before = texts_of(out@);
        match find_char_range(&v, '\n', start, v.len()) {
            Some(e) => {
                let mut end = e;
                if end > start && v[end - 1] == '\r' {
                    end = end - 1;
                }
                proof {
                    lemma_find_char_some(rest, '\n');
                    let i = e - start;
                    lemma_lines_step(rest, i);
                    assert(rest.subrange(0, i) == v@.subrange(start as int, e as int));
                    assert(drop_cr(v@.subrange(start as int, e as int)) == v@.subrange(start as int, end as int));
                    assert(rest.subrange(i + 1, rest.len() as int) == v@.subrange(e + 1, v.len() as int));
                }
                let line = string_of(&v, start, end);
                out.push(line);
                assert(texts_of(out@) =~= before.push(v@.subrange(start as int, end as int)));
                start = e + 1;
            },
            None => {
                proof {
                    assert(rest.len() > 0);
                    assert(lines(rest) == seq![rest]);
                }
                let line = string_of(&v, start, v.len());
                out.push(line);
                assert(texts_of(out@) =~= before.push(rest));
                start = v.len();
                assert(v@.subrange(start as int, v.len() as int).len() == 0);
            },
        }
    }
    assert(v@.subrange(start as int, v.len() as int).len() == 0);
    assert(texts_of(out@) + Seq::<Seq<char>>::empty() == texts_of(out@));
    out
}

/// The first `n` lines of a text, joined with `\n`.
pub open spec fn head_lines(text: Seq<char>, n: nat) -> Seq<char> {
    let ls = lines(text);
    join_lines(if ls.len() <= n { ls } else { ls.take(n as int) })
}

/// The first `n` lines of a text, joined with `\n`
/// (`lines().take(n).collect::<Vec<_>>().join("\n")`).
pub fn first_lines(text: &str, n: usize) -> (r: String)
    ensures
        r@ == head_lines(text@, n as nat),
{
    let ls = lines_of(text);
    let k = if ls.len() <= n { ls.len() } else { n };
    let ghost chosen = if texts_of(ls@).len() <= n { texts_of(ls@) } else { texts_of(ls@).take(n as int) };
    assert(chosen == texts_of(ls@).take(k as int));
    let mut r = String::new();
    let mut i: usize = 0;
    assert(join_lines(chosen.take(0)) == Seq::<char>::empty());
    while i < k
        invariant
            i <= k <= ls.len(),
            chosen == texts_of(ls@).take(k as int),
            r@ == join_lines(chosen.take(i as int)),
        decreases k - i,
    {
        if i > 0 {
            r.push('\n');
        }
        r.push_str(ls[i].as_str());
        proof {
            let t = chosen.take(i + 1);
            assert(t.drop_last() == chosen.take(i as int));
            assert(t.last() == ls@[i as int]@);
            if i == 0 {
                assert(t.len() == 1);
            }
        }
        assert(r@ =~= join_lines(chosen.take(i + 1)));
        i += 1;
    }
    assert(chosen.take(k as int) == chosen);
    r
}

// ---------------------------------------------------------------------------
// Splitting by classes of characters
// ---------------------------------------------------------------------------

/// `c` can be part of a decimal number: an ASCII digit or `.`.
pub open spec fn is_num_char(c: char) -> bool {
    is_digit(c) || c == '.'
}

/// The character classes that text is split or trimmed by.
#[derive(Debug, Clone, Copy)]
pub enum CharClass {
    /// white space (`char::is_whitespace`)
    Space,
    /// anything but a digit or `.`
    NonNumeric,
    /// `:`, `=` or `,`
    FieldSep,
}

/// Membership in a class.
pub open spec fn in_class(k: CharClass, c: char) -> bool {
    match k {
        CharClass::Space => is_space(c),
        CharClass::NonNumeric => !is_num_char(c),
        CharClass::FieldSep => c == ':' || c == '=' || c == ',',
    }
}

/// Tests membership in a class.
pub fn class_has(k: CharClass, c: char) -> (r: bool)
    ensures
        r == in_class(k, c),
{
    match k {
        CharClass::Space => is_space_char(c),
        CharClass::NonNumeric => !(('0' <= c && c <= '9') || c == '.'),
        CharClass::FieldSep => c == ':' || c == '=' || c == ',',
    }
}

/// The first position of a character of class `k`.
pub open spec fn first_in_class(s: Seq<char>, k: CharClass) -> Option<int>
    decreases s.len(),
{
    if s.len() == 0 {
        None
    } else if in_class(k, s[0]) {
        Some(0)
    } else {
        match first_in_class(s.drop_first(), k) {
            Some(i) => Some(i + 1),
            None => None,
        }
    }
}

/// What `first_in_class` returns is the first position of a class member.
pub proof fn lemma_first_in_class(s: Seq<char>, k: CharClass)
    ensures
        match first_in_class(s, k) {
            Some(i) => 0 <= i < s.len() && in_class(k, s[i]) && forall|j: int| 0 <= j < i ==> !in_class(k, #[trigger] s[j]),
            None => forall|j: int| 0 <= j < s.len() ==> !in_class(k, #[trigger] s[j]),
        },
    decreases s.len(),
{
    if s.len() > 0 {
        lemma_first_in_class(s.drop_first(), k);
        assert forall|j: int| 1 <= j < s.len() implies s[j] == s.drop_first()[j - 1] by {}
    }
}

/// The first position is `i` when `s[i]` is a member and none comes before.
pub proof fn lemma_first_in_class_at(s: Seq<char>, k: CharClass, i: int)
    requires
        0 <= i <= s.len(),
        i < s.len() ==> in_class(k, s[i]),
        forall|j: int| 0 <= j < i ==> !in_class(k, #[trigger] s[j]),
    ensures
        first_in_class(s, k) == (if i < s.len() { Some(i) } else { None::<int> }),
    decreases i,
{
    if i > 0 {
        assert forall|j: int| 0 <= j < i - 1 implies !in_class(k, #[trigger] s.drop_first()[j]) by {
            assert(s.drop_first()[j] == s[j + 1]);
        }
        lemma_first_in_class_at(s.drop_first(), k, i - 1);
    }
}

/// The end of the run of non-members that starts `s`.
pub open spec fn run_end(s: Seq<char>, k: CharClass) -> int {
    match first_in_class(s, k) {
        Some(i) => i,
        None => s.len() as int,
    }
}

/// The pieces of `s` between members of class `k` (`str::split` with a
/// predicate).
pub open spec fn split_by(s: Seq<char>, k: CharClass) -> Seq<Seq<char>>
    decreases s.len(),
{
    match first_in_class(s, k) {
        None => seq![s],
        Some(i) => {
            proof {
                lemma_first_in_class(s, k);
            }
            seq![s.subrange(0, i)] + split_by(s.subrange(i + 1, s.len() as int), k)
        },
    }
}

/// The maximal runs of non-members of class `k`, empty pieces left out
/// (`split_whitespace` for white space).
pub open spec fn runs(s: Seq<char>, k: CharClass) -> Seq<Seq<char>>
    decreases s.len(),
{
    if s.len() == 0 {
        seq![]
    } else if in_class(k, s[0]) {
        runs(s.drop_first(), k)
    } else {
        proof {
            lemma_first_in_class(s, k);
        }
        let j = run_end(s, k);
        seq![s.subrange(0, j)] + runs(s.subrange(j, s.len() as int), k)
    }
}

/// The words of `s` (`str::split_whitespace`).
pub open spec fn words(s: Seq<char>) -> Seq<Seq<char>> {
    runs(s, CharClass::Space)
}

/// `s` without leading and trailing members of class `k`
/// (`str::trim_matches` with a predicate).
pub open spec fn trim_class(s: Seq<char>, k: CharClass) -> Seq<char>
    decreases s.len(),
{
    if s.len() > 0 && in_class(k, s[0]) {
        trim_class(s.drop_first(), k)
    } else if s.len() > 0 && in_class(k, s.last()) {
        trim_class(s.drop_last(), k)
    } else {
        s
    }
}

/// The end of the run of non-members of `k` starting at `lo`, as an index.
fn run_end_from(v: &Vec<char>, k: CharClass, lo: usize, hi: usize) -> (j: usize)
    requires
        lo <= hi <= v.len(),
    ensures
        lo <= j <= hi,
        j - lo == run_end(v@.subrange(lo as int, hi as int), k),
        forall|m: int| lo <= m < j ==> !in_class(k, #[trigger] v@[m]),
{
    let ghost s = v@.subrange(lo as int, hi as int);
    let mut j = lo;
    while j < hi && !class_has(k, v[j])
        invariant
            lo <= j <= hi <= v.len(),
            s == v@.subrange(lo as int, hi as int),
            forall|m: int| lo <= m < j ==> !in_class(k, #[trigger] v@[m]),
        decreases hi - j,
    {
        j += 1;
    }
    proof {
        assert forall|m: int| 0 <= m < j - lo implies !in_class(k, #[trigger] s[m]) by {
            assert(s[m] == v@[lo + m]);
        }
        if j < hi {
            assert(s[j - lo] == v@[j as int]);
        }
        lemma_first_in_class_at(s, k, j - lo);
    }
    j
}

/// The runs of non-members of `k` in `text`.
pub fn runs_of(text: &str, k: CharClass) -> (r: Vec<String>)
    ensures
        texts_of(r@) == runs(text@, k),
{
    let v = chars_of(text);
    let n = v.len();
    let mut out: Vec<String> = Vec::new();
    let mut i: usize = 0;
    assert(v@.subrange(0, n as int) == v@);
    while i < n
        invariant
            i <= n == v.len(),
            v@ == text@,
            texts_of(out@) + runs(v@.subrange(i as int, n as int), k) == runs(text@, k),
        decreases n - i,
    {
        let ghost rest = v@.subrange(i as int, n as int);
        let ghost before = texts_of(out@);
        if class_has(k, v[i]) {
            assert(rest[0] == v@[i as int]);
            assert(rest.drop_first() == v@.subrange(i + 1, n as int));
            i += 1;
        } else {
            assert(rest[0] == v@[i as int]);
            let j = run_end_from(&v, k, i, n);
            proof {
                lemma_first_in_class(rest, k);
                assert(rest.subrange(0, j - i) == v@.subrange(i as int, j as int));
                assert(rest.subrange(j - i, rest.len() as int) == v@.subrange(j as int, n as int));
            }
            out.push(string_of(&v, i, j));
            assert(texts_of(out@) =~= before.push(v@.subrange(i as int, j as int)));
            i = j;
        }
    }
    assert(runs(v@.subrange(n as int, n as int), k) == Seq::<Seq<char>>::empty());
    assert(texts_of(out@) + Seq::<Seq<char>>::empty() == texts_of(out@));
    out
}

/// The pieces of `text` between members of `k`.
pub fn split_by_class(text: &str, k: CharClass) -> (r: Vec<String>)
    ensures
        texts_of(r@) == split_by(text@, k),
{
    let v = chars_of(text);
    let n = v.len();
    let mut out: Vec<String> = Vec::new();
    let mut i: usize = 0;
    assert(v@.subrange(0, n as int) == v@);
    loop
        invariant
            i <= n == v.len(),
            v@ == text@,
            texts_of(out@) + split_by(v@.subrange(i as int, n as int), k) == split_by(text@, k),
        decreases n - i,
    {
        let ghost rest = v@.subrange(i as int, n as int);
        let ghost before = texts_of(out@);
        let j = run_end_from(&v, k, i, n);
        proof {
            lemma_first_in_class(rest, k);
            assert(rest.subrange(0, j - i) == v@.subrange(i as int, j as int));
        }
        out.push(string_of(&v, i, j));
        if j == n {
            assert(split_by(rest, k) == seq![rest]);
            assert(rest == v@.subrange(i as int, j as int));
            assert(texts_of(out@) =~= before.push(rest));
            assert(texts_of(out@) =~= before + seq![rest]);
            return out;
        }
        assert(rest.subrange(j - i + 1, rest.len() as int) == v@.subrange(j + 1, n as int));
        assert(texts_of(out@) =~= before.push(v@.subrange(i as int, j as int)));
        i = j + 1;
    }
}

/// The bounds of `v[lo..hi]` without leading and trailing members of `k`.
pub fn trim_class_range(v: &Vec<char>, k: CharClass, lo: usize, hi: usize) -> (r: (usize, usize))
    requires
        lo <= hi <= v.len(),
    ensures
        lo <= r.0 <= r.1 <= hi,
        v@.subrange(r.0 as int, r.1 as int) == trim_class(v@.subrange(lo as int, hi as int), k),
{
    let mut a = lo;
    let mut b = hi;
    while a < b && (class_has(k, v[a]) || class_has(k, v[b - 1]))
        invariant
            lo <= a <= b <= hi <= v.len(),
            trim_class(v@.subrange(a as int, b as int), k) == trim_class(v@.subrange(lo as int, hi as int), k),
        decreases b - a,
    {
        let ghost s = v@.subrange(a as int, b as int);
        assert(s[0] == v@[a as int]);
        assert(s.last() == v@[b - 1]);
        if class_has(k, v[a]) {
            assert(s.drop_first() == v@.subrange(a + 1, b as int));
            a += 1;
        } else {
            assert(s.drop_last() == v@.subrange(a as int, b - 1));
            b -= 1;
        }
    }
    proof {
        let s = v@.subrange(a as int, b as int);
        if s.len() > 0 {
            assert(s[0] == v@[a as int]);
            assert(s.last() == v@[b - 1]);
        }
    }
    (a, b)
}

/// `text` without leading and trailing members of `k`.
pub fn trimmed_class(text: &str, k: CharClass) -> (r: String)
    ensures
        r@ == trim_class(text@, k),
{
    let v = chars_of(text);
    assert(v@.subrange(0, v.len() as int) == v@);
    let (a, b) = trim_class_range(&v, k, 0, v.len());
    string_of(&v, a, b)
}

/// The first position at which `pat` occurs in `s` (`str::find`).
#[verifier::opaque]
pub open spec fn find_str(s: Seq<char>, pat: Seq<char>) -> Option<int> {
    if contains(s, pat) {
        Some(choose|i: int| occurs_at(s, pat, i) && forall|j: int| 0 <= j < i ==> !occurs_at(s, pat, j))
    } else {
        None
    }
}

/// The first occurrence of `pat` in `v[lo..]`, as an index into `v`.
pub fn find_chars_from(v: &Vec<char>, pat: &Vec<char>, lo: usize) -> (r: Option<usize>)
    requires
        lo <= v.len(),
    ensures
        match r {
            Some(i) => lo <= i && i + pat.len() <= v.len()
                && find_str(v@.subrange(lo as int, v.len() as int), pat@) == Some(i - lo),
            None => find_str(v@.subrange(lo as int, v.len() as int), pat@) is None,
        },
{
    reveal(find_str);
    let ghost s = v@.subrange(lo as int, v.len() as int);
    if pat.len() > v.len() - lo {
        assert forall|i: int| !occurs_at(s, pat@, i) by {}
        return None;
    }
    let last = v.len() - pat.len();
    let mut i = lo;
    loop
        invariant
            lo <= i <= last,
            last == v.len() - pat.len(),
            s == v@.subrange(lo as int, v.len() as int),
            forall|j: int| 0 <= j < i - lo ==> !occurs_at(s, pat@, j),
        decreases last - i,
    {
        reveal(find_str);
        if matches_at(v, i, pat) {
            proof {
                let w = i - lo;
                assert(s.subrange(w, w + pat@.len()) == v@.subrange(i as int, i + pat@.len()));
                assert(occurs_at(s, pat@, w));
                let c = choose|c: int| occurs_at(s, pat@, c) && forall|j: int| 0 <= j < c ==> !occurs_at(s, pat@, j);
                if c < w {
                    assert(!occurs_at(s, pat@, c));
                }
                if c > w {
                    assert(!occurs_at(s, pat@, w));
                }
            }
            return Some(i);
        }
        assert(!occurs_at(s, pat@, i - lo)) by {
            assert(s.subrange(i - lo, i - lo + pat@.len()) == v@.subrange(i as int, i + pat@.len()));
        }
        if i == last {
            assert forall|j: int| !occurs_at(s, pat@, j) by {
                if 0 <= j && j + pat@.len() <= s.len() {
                    assert(j <= i - lo);
                }
            }
            return None;
        }
        i += 1;
    }
}

/// `c` is `lower` or `upper`.
pub open spec fn either_case(c: char, lower: char, upper: char) -> bool {
    c == lower || c == upper
}

/// `pat` occurs in `s` at `i`, each letter in either case (`upper` holds
/// the capitals of `lower`).
pub open spec fn occurs_any_case_at(s: Seq<char>, lower: Seq<char>, upper: Seq<char>, i: int) -> bool {
    0 <= i && i + lower.len() <= s.len() && forall|j: int|
        0 <= j < lower.len() ==> either_case(#[trigger] s[i + j], lower[j], upper[j])
}

/// `lower` occurs in `s` whatever the case of its letters.
pub open spec fn contains_any_case(s: Seq<char>, lower: Seq<char>, upper: Seq<char>) -> bool {
    exists|i: int| occurs_any_case_at(s, lower, upper, i)
}

/// Whether `lower` occurs in `v`, each letter in either case.
pub fn contains_ignoring_case(v: &Vec<char>, lower: &Vec<char>, upper: &Vec<char>) -> (r: bool)
    requires
        lower.len() == upper.len(),
    ensures
        r == contains_any_case(v@, lower@, upper@),
{
    if lower.len() > v.len() {
        return false;
    }
    let last = v.len() - lower.len();
    let mut i: usize = 0;
    loop
        invariant
            i <= last,
            last == v.len() - lower.len(),
            lower.len() == upper.len(),
            forall|j: int| 0 <= j < i ==> !occurs_any_case_at(v@, lower@, upper@, j),
        decreases last - i,
    {
        let mut k: usize = 0;
        let mut same = true;
        while k < lower.len()
            invariant
                i + lower.len() <= v.len(),
                lower.len() == upper.len(),
                k <= lower.len(),
                same == (forall|m: int| 0 <= m < k ==> either_case(#[trigger] v@[i + m], lower@[m], upper@[m])),
            decreases lower.len() - k,
        {
            if !(v[i + k] == lower[k] || v[i + k] == upper[k]) {
                same = false;
            }
            k += 1;
        }
        if same {
            assert(occurs_any_case_at(v@, lower@, upper@, i as int));
            return true;
        }
        if i == last {
            assert forall|j: int| !occurs_any_case_at(v@, lower@, upper@, j) by {
                if 0 <= j && j + lower@.len() <= v@.len() {
                    assert(j <= i);
                }
            }
            return false;
        }
        i += 1;
    }
}

} // verus!
