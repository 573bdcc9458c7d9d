//! Character-level text handling shared by the whole library.
//!
//! Strings are modelled by their view, a `Seq<char>`.  The spec functions
//! here give the meaning of the usual text operations (trimming, searching,
//! splitting, case folding, decimal numbers) and the executable functions
//! implement them on `&str`, `String` and `Vec<char>`.

use vstd::prelude::*;

verus! {

/// `String::push` appends one character.
pub assume_specification[ String::push ](s: &mut String, ch: char)
    ensures
        final(s)@ == old(s)@.push(ch),
;

// ---------------------------------------------------------------------------
// Character classes

/// The Unicode `White_Space` property, which `char::is_whitespace` and
/// `str::trim` use.
pub open spec fn is_ws(c: char) -> bool {
    ||| ('\u{9}' <= c && c <= '\u{d}')
    ||| c == ' '
    ||| c == '\u{85}'
    ||| c == '\u{a0}'
    ||| c == '\u{1680}'
    ||| ('\u{2000}' <= c && c <= '\u{200a}')
    ||| c == '\u{2028}'
    ||| c == '\u{2029}'
    ||| c == '\u{202f}'
    ||| c == '\u{205f}'
    ||| c == '\u{3000}'
}

pub fn char_is_ws(c: char) -> (r: bool)
    ensures
        r == is_ws(c),
{
    ('\u{9}' <= c && c <= '\u{d}') || c == ' ' || c == '\u{85}' || c == '\u{a0}' || c == '\u{1680}'
        || ('\u{2000}' <= c && c <= '\u{200a}') || c == '\u{2028}' || c == '\u{2029}' || c
        == '\u{202f}' || c == '\u{205f}' || c == '\u{3000}'
}

pub open spec fn is_digit(c: char) -> bool {
    '0' <= c && c <= '9'
}

pub open spec fn digit_val(c: char) -> int {
    c as int - '0' as int
}

pub open spec fn is_ascii_upper(c: char) -> bool {
    'A' <= c && c <= 'Z'
}

pub open spec fn is_ascii_lower(c: char) -> bool {
    'a' <= c && c <= 'z'
}

pub open spec fn is_ascii_alpha(c: char) -> bool {
    is_ascii_upper(c) || is_ascii_lower(c)
}

pub open spec fn is_ascii_alnum(c: char) -> bool {
    is_ascii_alpha(c) || is_digit(c)
}

/// `char::to_ascii_lowercase`.
pub open spec fn lower_char(c: char) -> char {
    if is_ascii_upper(c) {
        ((c as u32) + 32) as char
    } else {
        c
    }
}

/// `char::to_ascii_uppercase`.
pub open spec fn upper_char(c: char) -> char {
    if is_ascii_lower(c) {
        ((c as u32) - 32) as char
    } else {
        c
    }
}

pub fn to_lower_char(c: char) -> (r: char)
    ensures
        r == lower_char(c),
{
    if 'A' <= c && c <= 'Z' {
        let b = c as u8;
        (b + 32) as char
    } else {
        c
    }
}

pub fn to_upper_char(c: char) -> (r: char)
    ensures
        r == upper_char(c),
{
    if 'a' <= c && c <= 'z' {
        let b = c as u8;
        (b - 32) as char
    } else {
        c
    }
}

/// ASCII case folding of a whole text.
pub open spec fn lower(s: Seq<char>) -> Seq<char> {
    s.map_values(|c: char| lower_char(c))
}

pub open spec fn upper(s: Seq<char>) -> Seq<char> {
    s.map_values(|c: char| upper_char(c))
}

/// `str::eq_ignore_ascii_case`.
pub open spec fn eq_ic(a: Seq<char>, b: Seq<char>) -> bool {
    lower(a) == lower(b)
}

pub open spec fn is_ascii_text(s: Seq<char>) -> bool {
    forall|i: int| 0 <= i < s.len() ==> (s[i] as u32) < 128
}

// ---------------------------------------------------------------------------
// Prefixes, suffixes, occurrences

pub open spec fn starts_with(s: Seq<char>, p: Seq<char>) -> bool {
    p.len() <= s.len() && s.subrange(0, p.len() as int) == p
}

pub open spec fn ends_with(s: Seq<char>, p: Seq<char>) -> bool {
    p.len() <= s.len() && s.subrange(s.len() - p.len(), s.len() as int) == p
}

pub open spec fn occurs_at(s: Seq<char>, p: Seq<char>, i: int) -> bool {
    0 <= i && i + p.len() <= s.len() && s.subrange(i, i + p.len()) == p
}

pub open spec fn contains(s: Seq<char>, p: Seq<char>) -> bool {
    exists|i: int| occurs_at(s, p, i)
}

/// Index of the first occurrence of `p` in `s` at or after `i`.
pub open spec fn find_from(s: Seq<char>, p: Seq<char>, i: int) -> Option<int>
    decreases s.len() + 1 - i,
{
    if i < 0 || i + p.len() > s.len() {
        None
    } else if occurs_at(s, p, i) {
        Some(i)
    } else {
        find_from(s, p, i + 1)
    }
}

/// `str::find` with a string pattern.
pub open spec fn find(s: Seq<char>, p: Seq<char>) -> Option<int> {
    find_from(s, p, 0)
}

/// `str::find` with a character pattern.
pub open spec fn find_char(s: Seq<char>, c: char) -> Option<int> {
    find(s, seq![c])
}

/// `str::rfind` with a character pattern: the last index holding `c`.
pub open spec fn rfind_char_upto(s: Seq<char>, c: char, n: int) -> Option<int>
    decreases n,
{
    if n <= 0 {
        None
    } else if s[n - 1] == c {
        Some(n - 1)
    } else {
        rfind_char_upto(s, c, n - 1)
    }
}

pub open spec fn rfind_char(s: Seq<char>, c: char) -> Option<int> {
    rfind_char_upto(s, c, s.len() as int)
}

pub open spec fn has_char(s: Seq<char>, c: char) -> bool {
    s.contains(c)
}

// ---------------------------------------------------------------------------
// Trimming

pub open spec fn trim_start(s: Seq<char>) -> Seq<char>
    decreases s.len(),
{
    if s.len() > 0 && is_ws(s[0]) {
        trim_start(s.drop_first())
    } else {
        s
    }
}

pub open spec fn trim_end(s: Seq<char>) -> Seq<char>
    decreases s.len(),
{
    if s.len() > 0 && is_ws(s.last()) {
        trim_end(s.drop_last())
    } else {
        s
    }
}

/// `str::trim`.
pub open spec fn trim(s: Seq<char>) -> Seq<char> {
    trim_end(trim_start(s))
}

/// `str::trim_start_matches` / `trim_end_matches` with a single character.
pub open spec fn strip_leading(s: Seq<char>, c: char) -> Seq<char>
    decreases s.len(),
{
    if s.len() > 0 && s[0] == c {
        strip_leading(s.drop_first(), c)
    } else {
        s
    }
}

pub open spec fn strip_trailing(s: Seq<char>, c: char) -> Seq<char>
    decreases s.len(),
{
    if s.len() > 0 && s.last() == c {
        strip_trailing(s.drop_last(), c)
    } else {
        s
    }
}

// ---------------------------------------------------------------------------
// Splitting

/// `str::split` with a character separator: always at least one piece.
pub open spec fn split_char(s: Seq<char>, c: char) -> Seq<Seq<char>>
    decreases s.len(),
{
    match find_char(s, c) {
        None => seq![s],
        Some(i) => {
            if 0 <= i < s.len() {
                seq![s.subrange(0, i)] + split_char(s.subrange(i + 1, s.len() as int), c)
            } else {
                seq![s]
            }
        },
    }
}

/// The maximal runs of characters that are not separators, in order; this
/// is `str::split(..)` with the empty pieces left out.
pub open spec fn tokens(s: Seq<char>, sep: spec_fn(char) -> bool) -> Seq<Seq<char>>
    decreases s.len(),
{
    if s.len() == 0 {
        seq![]
    } else if sep(s[0]) {
        tokens(s.drop_first(), sep)
    } else {
        let k = token_len(s, sep);
        proof {
            lemma_token_len(s, sep);
        }
        seq![s.subrange(0, k as int)] + tokens(s.subrange(k as int, s.len() as int), sep)
    }
}

/// Length of the run of non-separator characters at the start of `s`.
pub open spec fn token_len(s: Seq<char>, sep: spec_fn(char) -> bool) -> nat
    decreases s.len(),
{
    if s.len() == 0 || sep(s[0]) {
        0
    } else {
        1 + token_len(s.drop_first(), sep)
    }
}

pub open spec fn ws_sep() -> spec_fn(char) -> bool {
    |c: char| is_ws(c)
}

/// `str::split_whitespace`.
pub open spec fn words(s: Seq<char>) -> Seq<Seq<char>> {
    tokens(s, ws_sep())
}

pub proof fn lemma_token_len(s: Seq<char>, sep: spec_fn(char) -> bool)
    ensures
        token_len(s, sep) <= s.len(),
        s.len() > 0 && !sep(s[0]) ==> token_len(s, sep) >= 1,
        forall|j: int| 0 <= j < token_len(s, sep) ==> !sep(#[trigger] s[j]),
        token_len(s, sep) < s.len() ==> sep(s[token_len(s, sep) as int]),
    decreases s.len(),
{
    if s.len() > 0 && !sep(s[0]) {
        let t = s.drop_first();
        lemma_token_len(t, sep);
        assert forall|j: int| 0 <= j < token_len(s, sep) implies !sep(#[trigger] s[j]) by {
            if j > 0 {
                assert(s[j] == t[j - 1]);
            }
        }
        if token_len(s, sep) < s.len() {
            assert(s[token_len(s, sep) as int] == t[token_len(t, sep) as int]);
        }
    }
}

/// The run length is the only `k` with a separator-free prefix ending at a
/// separator or at the end.
pub proof fn lemma_token_len_unique(s: Seq<char>, sep: spec_fn(char) -> bool, k: int)
    requires
        0 <= k <= s.len(),
        forall|j: int| 0 <= j < k ==> !sep(#[trigger] s[j]),
        k < s.len() ==> sep(s[k]),
    ensures
        token_len(s, sep) == k,
{
    lemma_token_len(s, sep);
    let w = token_len(s, sep) as int;
    if w < k {
        assert(!sep(s[w]));
    } else if k < w {
        assert(!sep(s[k]));
    }
}

// ---------------------------------------------------------------------------
// Decimal numbers

pub open spec fn all_digits(s: Seq<char>) -> bool {
    forall|i: int| 0 <= i < s.len() ==> is_digit(#[trigger] s[i])
}

pub open spec fn digits_value(s: Seq<char>) -> nat
    decreases s.len(),
{
    if s.len() == 0 {
        0
    } else {
        (digits_value(s.drop_last()) * 10 + digit_val(s.last())) as nat
    }
}

/// The digits of an unsigned decimal as `FromStr` for the unsigned
/// integer types reads them: an optional `+`, then one or more digits.
pub open spec fn unsigned_digits(s: Seq<char>) -> Seq<char> {
    if s.len() > 0 && s[0] == '+' {
        s.drop_first()
    } else {
        s
    }
}

/// `FromStr` of an unsigned integer type whose largest value is `max`.
pub open spec fn parse_unsigned(s: Seq<char>, max: int) -> Option<nat> {
    let d = unsigned_digits(s);
    if d.len() > 0 && all_digits(d) && digits_value(d) <= max {
        Some(digits_value(d))
    } else {
        None
    }
}

/// `FromStr` of a signed integer type with range `-max - 1 ..= max`.
pub open spec fn parse_signed(s: Seq<char>, max: int) -> Option<int> {
    if s.len() > 0 && s[0] == '-' {
        let d = s.drop_first();
        if d.len() > 0 && all_digits(d) && digits_value(d) <= max + 1 {
            Some(-(digits_value(d) as int))
        } else {
            None
        }
    } else {
        match parse_unsigned(s, max) {
            Some(v) => Some(v as int),
            None => None,
        }
    }
}

/// The shortest decimal rendering of `n` (`u64::to_string`).
pub open spec fn decimal(n: nat) -> Seq<char>
    decreases n,
{
    if n < 10 {
        seq![digit_char(n)]
    } else {
        decimal(n / 10).push(digit_char(n % 10))
    }
}

pub open spec fn digit_char(d: nat) -> char {
    (('0' as u32) + d) as char
}

// ---------------------------------------------------------------------------
// Replacing

/// `str::replace` with a non-empty pattern: the occurrences of `p`, taken
/// from the left and without overlap, are replaced by `r`.
pub open spec fn replace(s: Seq<char>, p: Seq<char>, r: Seq<char>) -> Seq<char>
    recommends
        p.len() > 0,
    decreases s.len(),
{
    if p.len() == 0 || s.len() == 0 {
        s
    } else if starts_with(s, p) {
        r + replace(s.subrange(p.len() as int, s.len() as int), p, r)
    } else {
        seq![s[0]] + replace(s.drop_first(), p, r)
    }
}

/// Remove every occurrence of the character `c`.
pub open spec fn remove_char(s: Seq<char>, c: char) -> Seq<char> {
    s.filter(|x: char| x != c)
}

// ---------------------------------------------------------------------------
// Lemmas

pub proof fn lemma_trim_start_skip(s: Seq<char>, i: int)
    requires
        0 <= i <= s.len(),
        forall|j: int| 0 <= j < i ==> is_ws(#[trigger] s[j]),
    ensures
        trim_start(s) == trim_start(s.subrange(i, s.len() as int)),
    decreases i,
{
    if i > 0 {
        assert(is_ws(s[0]));
        let t = s.drop_first();
        assert forall|j: int| 0 <= j < i - 1 implies is_ws(#[trigger] t[j]) by {
            assert(t[j] == s[j + 1]);
        }
        lemma_trim_start_skip(t, i - 1);
        assert(t.subrange(i - 1, t.len() as int) =~= s.subrange(i, s.len() as int));
    } else {
        assert(s.subrange(0, s.len() as int) =~= s);
    }
}

pub proof fn lemma_trim_end_skip(s: Seq<char>, n: int)
    requires
        0 <= n <= s.len(),
        forall|j: int| n <= j < s.len() ==> is_ws(#[trigger] s[j]),
    ensures
        trim_end(s) == trim_end(s.subrange(0, n)),
    decreases s.len() - n,
{
    if n < s.len() {
        assert(is_ws(s.last()));
        let t = s.drop_last();
        assert forall|j: int| n <= j < t.len() implies is_ws(#[trigger] t[j]) by {
            assert(t[j] == s[j]);
        }
        lemma_trim_end_skip(t, n);
        assert(t.subrange(0, n) =~= s.subrange(0, n));
    } else {
        assert(s.subrange(0, n) =~= s);
    }
}

pub proof fn lemma_find_from_skip(s: Seq<char>, p: Seq<char>, i: int, k: int)
    requires
        0 <= i <= k,
        forall|j: int| i <= j < k ==> !occurs_at(s, p, j),
    ensures
        find_from(s, p, i) == find_from(s, p, k),
    decreases k - i,
{
    if i < k {
        if i + p.len() > s.len() {
            lemma_find_from_none_beyond(s, p, k);
        } else {
            lemma_find_from_skip(s, p, i + 1, k);
        }
    }
}

pub proof fn lemma_find_from_none_beyond(s: Seq<char>, p: Seq<char>, k: int)
    requires
        k + p.len() > s.len(),
    ensures
        find_from(s, p, k) is None,
    decreases s.len() + 1 - k,
{
}

pub proof fn lemma_find_from_result(s: Seq<char>, p: Seq<char>, i: int)
    requires
        0 <= i,
    ensures
        find_from(s, p, i) matches Some(k) ==> (i <= k && occurs_at(s, p, k) && forall|j: int|
            i <= j < k ==> !occurs_at(s, p, j)),
        find_from(s, p, i) is None ==> forall|j: int| i <= j ==> !occurs_at(s, p, j),
    decreases s.len() + 1 - i,
{
    if i + p.len() <= s.len() && !occurs_at(s, p, i) {
        lemma_find_from_result(s, p, i + 1);
    }
}

pub proof fn lemma_rfind_result(s: Seq<char>, c: char, n: int)
    requires
        0 <= n <= s.len(),
    ensures
        rfind_char_upto(s, c, n) matches Some(k) ==> (0 <= k < n && s[k] == c && forall|j: int|
            k < j < n ==> s[j] != c),
        rfind_char_upto(s, c, n) is None ==> forall|j: int| 0 <= j < n ==> s[j] != c,
    decreases n,
{
    if n > 0 && s[n - 1] != c {
        lemma_rfind_result(s, c, n - 1);
    }
}

pub proof fn lemma_digits_value_bound(s: Seq<char>)
    requires
        all_digits(s),
    ensures
        digits_value(s) < pow10(s.len()),
    decreases s.len(),
{
    if s.len() > 0 {
        lemma_digits_value_bound(s.drop_last());
        assert(is_digit(s[s.len() - 1]));
    }
}

/// The decimal rendering of a number is a run of digits that reads back
/// as that number.
pub proof fn lemma_decimal_digits(n: nat)
    ensures
        decimal(n).len() > 0,
        all_digits(decimal(n)),
        digits_value(decimal(n)) == n,
    decreases n,
{
    let d = digit_char(n % 10);
    assert(d as int == '0' as int + n % 10);
    if n >= 10 {
        lemma_decimal_digits(n / 10);
        let s = decimal(n);
        assert(s.drop_last() =~= decimal(n / 10));
        assert(s.last() == d);
        assert forall|i: int| 0 <= i < s.len() implies is_digit(#[trigger] s[i]) by {
            if i < s.len() - 1 {
                assert(s[i] == decimal(n / 10)[i]);
            }
        }
        assert(digit_val(d) == n % 10);
        assert((n / 10) * 10 + n % 10 == n) by (nonlinear_arith);
        assert(digits_value(s) == digits_value(decimal(n / 10)) * 10 + digit_val(s.last()));
    } else {
        assert(decimal(n) =~= seq![d]);
        assert(seq![d].drop_last() =~= Seq::<char>::empty());
        assert(digits_value(Seq::<char>::empty()) == 0);
        assert(digit_val(d) == n);
        assert(digits_value(seq![d]) == n);
        assert(is_digit(seq![d][0]));
    }
}

/// `FromStr` reads the decimal rendering of a number in range back as
/// that number.
pub proof fn lemma_parse_decimal(n: nat, max: int)
    requires
        n <= max,
    ensures
        parse_unsigned(decimal(n), max) == Some(n),
{
    lemma_decimal_digits(n);
    assert(is_digit(decimal(n)[0]));
}

pub open spec fn pow10(n: nat) -> nat
    decreases n,
{
    if n == 0 {
        1
    } else {
        10 * pow10((n - 1) as nat)
    }
}

/// A digit string's value is at least the value of any prefix of it.
pub proof fn lemma_digits_value_prefix(s: Seq<char>, k: int)
    requires
        0 <= k <= s.len(),
        all_digits(s),
    ensures
        digits_value(s.subrange(0, k)) <= digits_value(s),
    decreases s.len() - k,
{
    if k < s.len() {
        let t = s.drop_last();
        assert(t.subrange(0, k) =~= s.subrange(0, k));
        assert(all_digits(t));
        lemma_digits_value_prefix(t, k);
        assert(is_digit(s[s.len() - 1]));
    } else {
        assert(s.subrange(0, k) =~= s);
    }
}

pub proof fn lemma_lower_len(s: Seq<char>)
    ensures
        lower(s).len() == s.len(),
{
}


// ---------------------------------------------------------------------------
// Executable text operations

pub fn chars_of(s: &str) -> (v: Vec<char>)
    ensures
        v@ == s@,
{
    let mut v: Vec<char> = Vec::new();
    for c in it: s.chars()
        invariant
            v@ == it.seq().subrange(0, it.index() as int),
            it.seq() == s@,
    {
        v.push(c);
    }
    v
}

pub fn from_chars(v: &[char]) -> (s: String)
    ensures
        s@ == v@,
{
    let mut s = String::new();
    let mut i: usize = 0;
    while i < v.len()
        invariant
            i <= v.len(),
            s@ == v@.subrange(0, i as int),
        decreases v.len() - i,
    {
        s.push(v[i]);
        i += 1;
    }
    s
}

/// Append the characters of `v` to `s`.
pub fn push_chars(s: &mut String, v: &[char])
    ensures
        final(s)@ == old(s)@ + v@,
{
    let mut i: usize = 0;
    while i < v.len()
        invariant
            i <= v.len(),
            s@ == old(s)@ + v@.subrange(0, i as int),
        decreases v.len() - i,
    {
        s.push(v[i]);
        i += 1;
    }
}

pub fn push_str(s: &mut String, t: &str)
    ensures
        final(s)@ == old(s)@ + t@,
{
    let v = chars_of(t);
    push_chars(s, &v);
}

pub fn own(s: &str) -> (r: String)
    ensures
        r@ == s@,
{
    s.to_owned()
}

/// Copy of `v[a..b]`.
pub fn slice_chars(v: &[char], a: usize, b: usize) -> (r: Vec<char>)
    requires
        a <= b <= v.len(),
    ensures
        r@ == v@.subrange(a as int, b as int),
{
    let mut r: Vec<char> = Vec::new();
    let mut i = a;
    while i < b
        invariant
            a <= i <= b,
            b <= v.len(),
            r@ == v@.subrange(a as int, i as int),
        decreases b - i,
    {
        r.push(v[i]);
        i += 1;
    }
    r
}

pub fn sub_string(v: &[char], a: usize, b: usize) -> (r: String)
    requires
        a <= b <= v.len(),
    ensures
        r@ == v@.subrange(a as int, b as int),
{
    let w = slice_chars(v, a, b);
    from_chars(&w)
}

pub fn seq_eq(a: &[char], b: &[char]) -> (r: bool)
    ensures
        r == (a@ == b@),
{
    if a.len() != b.len() {
        return false;
    }
    let mut i: usize = 0;
    while i < a.len()
        invariant
            a.len() == b.len(),
            i <= a.len(),
            a@.subrange(0, i as int) == b@.subrange(0, i as int),
        decreases a.len() - i,
    {
        if a[i] != b[i] {
            assert(a@[i as int] != b@[i as int]);
            return false;
        }
        i += 1;
        assert(a@.subrange(0, i as int) =~= b@.subrange(0, i as int));
    }
    assert(a@ =~= a@.subrange(0, a.len() as int));
    assert(b@ =~= b@.subrange(0, b.len() as int));
    true
}

pub fn str_eq(a: &str, b: &str) -> (r: bool)
    ensures
        r == (a@ == b@),
{
    let va = chars_of(a);
    let vb = chars_of(b);
    seq_eq(&va, &vb)
}

/// `eq_ignore_ascii_case`.
pub fn seq_eq_ic(a: &[char], b: &[char]) -> (r: bool)
    ensures
        r == eq_ic(a@, b@),
{
    if a.len() != b.len() {
        assert(lower(a@).len() != lower(b@).len());
        return false;
    }
    let mut i: usize = 0;
    while i < a.len()
        invariant
            a.len() == b.len(),
            i <= a.len(),
            forall|j: int| 0 <= j < i ==> lower_char(#[trigger] a@[j]) == lower_char(b@[j]),
        decreases a.len() - i,
    {
        if to_lower_char(a[i]) != to_lower_char(b[i]) {
            assert(lower(a@)[i as int] != lower(b@)[i as int]);
            return false;
        }
        i += 1;
    }
    assert(lower(a@) =~= lower(b@));
    true
}

pub fn str_eq_ic(a: &str, b: &str) -> (r: bool)
    ensures
        r == eq_ic(a@, b@),
{
    let va = chars_of(a);
    let vb = chars_of(b);
    seq_eq_ic(&va, &vb)
}

pub fn lower_vec(v: &[char]) -> (r: Vec<char>)
    ensures
        r@ == lower(v@),
{
    let mut r: Vec<char> = Vec::new();
    let mut i: usize = 0;
    while i < v.len()
        invariant
            i <= v.len(),
            r@ == lower(v@.subrange(0, i as int)),
        decreases v.len() - i,
    {
        r.push(to_lower_char(v[i]));
        i += 1;
        assert(lower(v@.subrange(0, i as int)) =~= lower(v@.subrange(0, i - 1)).push(
            lower_char(v@[i - 1]),
        ));
    }
    assert(v@.subrange(0, v.len() as int) =~= v@);
    r
}

pub fn upper_vec(v: &[char]) -> (r: Vec<char>)
    ensures
        r@ == upper(v@),
{
    let mut r: Vec<char> = Vec::new();
    let mut i: usize = 0;
    while i < v.len()
        invariant
            i <= v.len(),
            r@ == upper(v@.subrange(0, i as int)),
        decreases v.len() - i,
    {
        r.push(to_upper_char(v[i]));
        i += 1;
        assert(upper(v@.subrange(0, i as int)) =~= upper(v@.subrange(0, i - 1)).push(
            upper_char(v@[i - 1]),
        ));
    }
    assert(v@.subrange(0, v.len() as int) =~= v@);
    r
}

/// Whether `p` occurs in `v` at position `i`.
pub fn occurs_at_exec(v: &[char], p: &[char], i: usize) -> (r: bool)
    ensures
        r == occurs_at(v@, p@, i as int),
{
    if i > v.len() || p.len() > v.len() - i {
        return false;
    }
    let mut k: usize = 0;
    while k < p.len()
        invariant
            i + p.len() <= v.len(),
            k <= p.len(),
            forall|j: int| 0 <= j < k ==> v@[i + j] == #[trigger] p@[j],
        decreases p.len() - k,
    {
        if v[i + k] != p[k] {
            assert(v@.subrange(i as int, i + p.len())[k as int] != p@[k as int]);
            return false;
        }
        k += 1;
    }
    assert(v@.subrange(i as int, i + p.len()) =~= p@);
    true
}

pub fn starts_with_exec(v: &[char], p: &[char]) -> (r: bool)
    ensures
        r == starts_with(v@, p@),
{
    occurs_at_exec(v, p, 0)
}

pub fn ends_with_exec(v: &[char], p: &[char]) -> (r: bool)
    ensures
        r == ends_with(v@, p@),
{
    if p.len() > v.len() {
        return false;
    }
    occurs_at_exec(v, p, v.len() - p.len())
}

pub fn str_starts_with(s: &str, p: &str) -> (r: bool)
    ensures
        r == starts_with(s@, p@),
{
    let v = chars_of(s);
    let w = chars_of(p);
    starts_with_exec(&v, &w)
}

pub fn str_ends_with(s: &str, p: &str) -> (r: bool)
    ensures
        r == ends_with(s@, p@),
{
    let v = chars_of(s);
    let w = chars_of(p);
    ends_with_exec(&v, &w)
}

/// First occurrence of `p` in `v` at or after `from`.
pub fn find_from_exec(v: &[char], p: &[char], from: usize) -> (r: Option<usize>)
    ensures
        r matches Some(k) ==> find_from(v@, p@, from as int) == Some(k as int),
        r matches Some(k) ==> from <= k && k + p.len() <= v.len(),
        r is None ==> find_from(v@, p@, from as int) is None,
{
    let mut i = from;
    while i <= v.len() && p.len() <= v.len() - i
        invariant
            from <= i,
            find_from(v@, p@, from as int) == find_from(v@, p@, i as int),
        decreases v.len() + 1 - i,
    {
        if occurs_at_exec(v, p, i) {
            return Some(i);
        }
        if i == v.len() {
            assert(v@.subrange(i as int, i as int) =~= p@);
        }
        proof {
            lemma_find_from_skip(v@, p@, i as int, i + 1);
        }
        i += 1;
    }
    None
}

pub fn find_exec(v: &[char], p: &[char]) -> (r: Option<usize>)
    ensures
        r matches Some(k) ==> find(v@, p@) == Some(k as int),
        r matches Some(k) ==> k + p.len() <= v.len(),
        r is None ==> find(v@, p@) is None,
{
    find_from_exec(v, p, 0)
}

pub fn find_char_exec(v: &[char], c: char) -> (r: Option<usize>)
    ensures
        r matches Some(k) ==> find_char(v@, c) == Some(k as int),
        r matches Some(k) ==> k < v.len(),
        r is None ==> find_char(v@, c) is None,
{
    let p = vec![c];
    proof {
        assert(p@ =~= seq![c]);
    }
    find_exec(v, &p)
}

pub fn contains_exec(v: &[char], p: &[char]) -> (r: bool)
    ensures
        r == contains(v@, p@),
{
    let f = find_exec(v, p);
    proof {
        lemma_find_from_result(v@, p@, 0);
    }
    f.is_some()
}

pub fn str_contains(s: &str, p: &str) -> (r: bool)
    ensures
        r == contains(s@, p@),
{
    let v = chars_of(s);
    let w = chars_of(p);
    contains_exec(&v, &w)
}

pub fn has_char_exec(v: &[char], c: char) -> (r: bool)
    ensures
        r == has_char(v@, c),
{
    let mut i: usize = 0;
    while i < v.len()
        invariant
            i <= v.len(),
            forall|j: int| 0 <= j < i ==> v@[j] != c,
        decreases v.len() - i,
    {
        if v[i] == c {
            assert(v@[i as int] == c);
            return true;
        }
        i += 1;
    }
    false
}

pub fn rfind_char_exec(v: &[char], c: char) -> (r: Option<usize>)
    ensures
        r matches Some(k) ==> rfind_char(v@, c) == Some(k as int),
        r matches Some(k) ==> k < v.len(),
        r is None ==> rfind_char(v@, c) is None,
{
    let mut n = v.len();
    while n > 0
        invariant
            n <= v.len(),
            rfind_char(v@, c) == rfind_char_upto(v@, c, n as int),
        decreases n,
    {
        if v[n - 1] == c {
            return Some(n - 1);
        }
        n -= 1;
    }
    None
}

/// Bounds `(a, b)` such that `v[a..b]` is `trim(v)`.
pub fn trim_bounds(v: &[char]) -> (r: (usize, usize))
    ensures
        r.0 <= r.1 <= v.len(),
        v@.subrange(r.0 as int, r.1 as int) == trim(v@),
{
    let mut a: usize = 0;
    while a < v.len() && char_is_ws(v[a])
        invariant
            a <= v.len(),
            forall|j: int| 0 <= j < a ==> is_ws(#[trigger] v@[j]),
        decreases v.len() - a,
    {
        a += 1;
    }
    proof {
        lemma_trim_start_skip(v@, a as int);
    }
    let ghost t = v@.subrange(a as int, v.len() as int);
    assert(trim_start(t) == t);
    let mut b: usize = v.len();
    while b > a && char_is_ws(v[b - 1])
        invariant
            a <= b <= v.len(),
            forall|j: int| b <= j < v.len() ==> is_ws(#[trigger] v@[j]),
        decreases b,
    {
        b -= 1;
    }
    proof {
        assert forall|j: int| b - a <= j < t.len() implies is_ws(#[trigger] t[j]) by {
            assert(t[j] == v@[a + j]);
        }
        lemma_trim_end_skip(t, b - a);
        assert(t.subrange(0, b - a) =~= v@.subrange(a as int, b as int));
    }
    (a, b)
}

pub fn trim_vec(v: &[char]) -> (r: Vec<char>)
    ensures
        r@ == trim(v@),
{
    let (a, b) = trim_bounds(v);
    slice_chars(v, a, b)
}

pub fn trim_str(s: &str) -> (r: String)
    ensures
        r@ == trim(s@),
{
    let v = chars_of(s);
    let (a, b) = trim_bounds(&v);
    sub_string(&v, a, b)
}

/// Decimal digits to a number, refusing values above `max`.
pub fn parse_digits(v: &[char], max: u64) -> (r: Option<u64>)
    ensures
        r matches Some(n) ==> (v@.len() > 0 && all_digits(v@) && digits_value(v@) <= max
            && n == digits_value(v@)),
        r is None ==> !(v@.len() > 0 && all_digits(v@) && digits_value(v@) <= max),
{
    if v.len() == 0 {
        return None;
    }
    let mut acc: u64 = 0;
    let mut i: usize = 0;
    while i < v.len()
        invariant
            i <= v.len(),
            all_digits(v@.subrange(0, i as int)),
            acc == digits_value(v@.subrange(0, i as int)),
            acc <= max,
        decreases v.len() - i,
    {
        let c = v[i];
        if !('0' <= c && c <= '9') {
            assert(!is_digit(v@[i as int]));
            return None;
        }
        let d = (c as u32 - '0' as u32) as u64;
        assert(v@.subrange(0, i + 1).drop_last() =~= v@.subrange(0, i as int));
        if d > max || acc > (max - d) / 10 {
            proof {
                assert(acc * 10 + d > max) by (nonlinear_arith)
                    requires
                        d > max || acc > (max - d) / 10,
                        d <= 9,
                ;
                if all_digits(v@) {
                    lemma_digits_value_prefix(v@, i + 1);
                }
            }
            return None;
        }
        proof {
            assert(acc * 10 + d <= max) by (nonlinear_arith)
                requires
                    acc <= (max - d) / 10,
                    d <= max,
            ;
        }
        acc = acc * 10 + d;
        i += 1;
    }
    assert(v@.subrange(0, v.len() as int) =~= v@);
    Some(acc)
}

/// `FromStr` for an unsigned type whose largest value is `max`.
pub fn parse_unsigned_exec(v: &[char], max: u64) -> (r: Option<u64>)
    ensures
        r matches Some(n) ==> parse_unsigned(v@, max as int) == Some(n as nat),
        r is None ==> parse_unsigned(v@, max as int) is None,
{
    if v.len() > 0 && v[0] == '+' {
        let d = slice_chars(v, 1, v.len());
        assert(d@ =~= v@.drop_first());
        parse_digits(&d, max)
    } else {
        parse_digits(v, max)
    }
}

pub fn parse_u16(v: &[char]) -> (r: Option<u16>)
    ensures
        r matches Some(n) ==> parse_unsigned(v@, 0xffff) == Some(n as nat),
        r is None ==> parse_unsigned(v@, 0xffff) is None,
{
    match parse_unsigned_exec(v, 0xffff) {
        Some(n) => Some(n as u16),
        None => None,
    }
}

pub fn parse_u32(v: &[char]) -> (r: Option<u32>)
    ensures
        r matches Some(n) ==> parse_unsigned(v@, 0xffff_ffff) == Some(n as nat),
        r is None ==> parse_unsigned(v@, 0xffff_ffff) is None,
{
    match parse_unsigned_exec(v, 0xffff_ffff) {
        Some(n) => Some(n as u32),
        None => None,
    }
}

pub fn parse_u8(v: &[char]) -> (r: Option<u8>)
    ensures
        r matches Some(n) ==> parse_unsigned(v@, 0xff) == Some(n as nat),
        r is None ==> parse_unsigned(v@, 0xff) is None,
{
    match parse_unsigned_exec(v, 0xff) {
        Some(n) => Some(n as u8),
        None => None,
    }
}

pub fn parse_u64(v: &[char]) -> (r: Option<u64>)
    ensures
        r matches Some(n) ==> parse_unsigned(v@, u64::MAX as int) == Some(n as nat),
        r is None ==> parse_unsigned(v@, u64::MAX as int) is None,
{
    parse_unsigned_exec(v, u64::MAX)
}

pub fn parse_usize(v: &[char]) -> (r: Option<usize>)
    ensures
        r matches Some(n) ==> parse_unsigned(v@, usize::MAX as int) == Some(n as nat),
        r is None ==> parse_unsigned(v@, usize::MAX as int) is None,
{
    match parse_unsigned_exec(v, usize::MAX as u64) {
        Some(n) => Some(n as usize),
        None => None,
    }
}

pub fn parse_i64(v: &[char]) -> (r: Option<i64>)
    ensures
        r matches Some(n) ==> parse_signed(v@, i64::MAX as int) == Some(n as int),
        r is None ==> parse_signed(v@, i64::MAX as int) is None,
{
    if v.len() > 0 && v[0] == '-' {
        let d = slice_chars(v, 1, v.len());
        assert(d@ =~= v@.drop_first());
        match parse_digits(&d, 0x8000_0000_0000_0000u64) {
            Some(n) => {
                if n == 0x8000_0000_0000_0000u64 {
                    Some(i64::MIN)
                } else {
                    Some(-(n as i64))
                }
            },
            None => None,
        }
    } else {
        match parse_unsigned_exec(v, i64::MAX as u64) {
            Some(n) => Some(n as i64),
            None => None,
        }
    }
}

/// Whether reading the digits of `d` from the left overflows `max` before
/// reaching a character that is not a digit.
pub open spec fn overflows_first(d: Seq<char>, max: int) -> bool {
    exists|k: int|
        0 < k <= d.len() && all_digits(#[trigger] d.take(k)) && digits_value(d.take(k)) > max
}

/// The text of the error that `FromStr` of an unsigned integer type with
/// largest value `max` reports on `s` where it fails.
pub open spec fn int_error_text(s: Seq<char>, max: int) -> Seq<char> {
    if s.len() == 0 {
        "cannot parse integer from empty string"@
    } else if overflows_first(unsigned_digits(s), max) {
        "number too large to fit in target type"@
    } else {
        "invalid digit found in string"@
    }
}

/// The error text for `v`, as `int_error_text` states it.
pub fn int_error_message(v: &[char], max: u64) -> (r: String)
    ensures
        r@ == int_error_text(v@, max as int),
{
    if v.len() == 0 {
        return "cannot parse integer from empty string".to_string();
    }
    let d = if v[0] == '+' {
        slice_chars(v, 1, v.len())
    } else {
        slice_chars(v, 0, v.len())
    };
    assert(d@ =~= unsigned_digits(v@));
    let mut j: usize = 0;
    while j < d.len() && '0' <= d[j] && d[j] <= '9'
        invariant
            j <= d.len(),
            all_digits(d@.take(j as int)),
        decreases d.len() - j,
    {
        assert(d@.take(j as int + 1).drop_last() =~= d@.take(j as int));
        j += 1;
    }
    let over = j > 0 && parse_digits(&slice_chars(&d, 0, j), max).is_none();
    proof {
        let ds = d@;
        assert(ds.subrange(0, j as int) =~= ds.take(j as int));
        if over {
            assert(0 < j <= ds.len() && all_digits(ds.take(j as int)) && digits_value(ds.take(j as int)) > max);
        } else {
            assert forall|k: int| 0 < k <= ds.len() && all_digits(#[trigger] ds.take(k)) implies digits_value(ds.take(k)) <= max by {
                if k <= j {
                    assert(ds.take(j as int).subrange(0, k) =~= ds.take(k));
                    lemma_digits_value_prefix(ds.take(j as int), k);
                } else {
                    assert(ds.take(k)[j as int] == ds[j as int]);
                    assert(is_digit(ds.take(k)[j as int]));
                }
            }
        }
    }
    if over {
        "number too large to fit in target type".to_string()
    } else {
        "invalid digit found in string".to_string()
    }
}

pub fn str_parse_u16(s: &str) -> (r: Option<u16>)
    ensures
        r matches Some(n) ==> parse_unsigned(s@, 0xffff) == Some(n as nat),
        r is None ==> parse_unsigned(s@, 0xffff) is None,
{
    let v = chars_of(s);
    parse_u16(&v)
}

/// `u64::to_string`.
pub fn decimal_string(n: u64) -> (r: String)
    ensures
        r@ == decimal(n as nat),
    decreases n,
{
    if n < 10 {
        let mut s = String::new();
        s.push(((('0' as u32) + (n as u32)) as u8) as char);
        assert(s@ =~= seq![digit_char(n as nat)]);
        s
    } else {
        let mut s = decimal_string(n / 10);
        let d = n % 10;
        s.push(((('0' as u32) + (d as u32)) as u8) as char);
        s
    }
}

pub fn push_decimal(s: &mut String, n: u64)
    ensures
        final(s)@ == old(s)@ + decimal(n as nat),
{
    let d = decimal_string(n);
    let v = chars_of(d.as_str());
    push_chars(s, &v);
}


pub open spec fn views(v: Seq<Vec<char>>) -> Seq<Seq<char>> {
    v.map_values(|w: Vec<char>| w@)
}

pub open spec fn str_views(v: Seq<String>) -> Seq<Seq<char>> {
    v.map_values(|w: String| w@)
}

pub proof fn lemma_find_from_shift(s: Seq<char>, p: Seq<char>, a: int, i: int)
    requires
        0 <= a <= s.len(),
        0 <= i,
    ensures
        find_from(s.subrange(a, s.len() as int), p, i) == (match find_from(s, p, a + i) {
            Some(k) => Some(k - a),
            None => None,
        }),
    decreases s.len() + 1 - a - i,
{
    let t = s.subrange(a, s.len() as int);
    if i + p.len() > t.len() {
    } else {
        if occurs_at(t, p, i) {
            assert(t.subrange(i, i + p.len()) =~= s.subrange(a + i, a + i + p.len()));
        } else {
            assert(t.subrange(i, i + p.len()) =~= s.subrange(a + i, a + i + p.len()));
            lemma_find_from_shift(s, p, a, i + 1);
        }
    }
}

/// Pieces of `v` between occurrences of `c`, as in `str::split`.
pub fn split_char_exec(v: &[char], c: char) -> (r: Vec<Vec<char>>)
    ensures
        views(r@) == split_char(v@, c),
{
    let mut r: Vec<Vec<char>> = Vec::new();
    let mut start: usize = 0;
    let pat = vec![c];
    assert(pat@ =~= seq![c]);
    assert(v@.subrange(0, v.len() as int) =~= v@);
    assert(views(r@) + split_char(v@, c) =~= split_char(v@, c));
    loop
        invariant
            start <= v.len(),
            pat@ == seq![c],
            split_char(v@, c) == views(r@) + split_char(v@.subrange(start as int, v.len() as int), c),
        decreases v.len() - start,
    {
        let ghost rest = v@.subrange(start as int, v.len() as int);
        proof {
            lemma_find_from_shift(v@, pat@, start as int, 0);
        }
        match find_from_exec(v, &pat, start) {
            Some(j) => {
                proof {
                    lemma_find_from_result(v@, pat@, start as int);
                }
                let piece = slice_chars(v, start, j);
                assert(rest.subrange(0, j - start) =~= piece@);
                assert(rest.subrange(j - start + 1, rest.len() as int) =~= v@.subrange(
                    j + 1,
                    v.len() as int,
                ));
                let ghost before = r@;
                r.push(piece);
                assert(views(r@) =~= views(before).push(piece@));
                start = j + 1;
            },
            None => {
                let piece = slice_chars(v, start, v.len());
                let ghost before = r@;
                r.push(piece);
                assert(views(r@) =~= views(before).push(piece@));
                return r;
            },
        }
    }
}


/// The separators of a token split.
pub enum Separators {
    /// Unicode white space.
    Whitespace,
    /// Any of the listed characters.
    Chars(Vec<char>),
}

pub open spec fn sep_fn(d: Separators) -> spec_fn(char) -> bool {
    match d {
        Separators::Whitespace => ws_sep(),
        Separators::Chars(v) => |c: char| v@.contains(c),
    }
}

pub fn is_sep(d: &Separators, c: char) -> (r: bool)
    ensures
        r == sep_fn(*d)(c),
{
    match d {
        Separators::Whitespace => char_is_ws(c),
        Separators::Chars(v) => has_char_exec(v, c),
    }
}

pub open spec fn pieces(v: Seq<char>, b: Seq<(usize, usize)>) -> Seq<Seq<char>> {
    b.map_values(|p: (usize, usize)| v.subrange(p.0 as int, p.1 as int))
}

pub open spec fn bounds_ok(v: Seq<char>, b: Seq<(usize, usize)>) -> bool {
    forall|i: int| 0 <= i < b.len() ==> #[trigger] b[i].0 <= b[i].1 <= v.len()
}

/// Bounds of the tokens of `v`.
pub fn token_bounds(v: &[char], d: &Separators) -> (r: Vec<(usize, usize)>)
    ensures
        bounds_ok(v@, r@),
        pieces(v@, r@) == tokens(v@, sep_fn(*d)),
{
    let ghost sep = sep_fn(*d);
    let mut r: Vec<(usize, usize)> = Vec::new();
    let mut i: usize = 0;
    assert(v@.subrange(0, v.len() as int) =~= v@);
    assert(pieces(v@, r@) + tokens(v@, sep) =~= tokens(v@, sep));
    while i < v.len()
        invariant
            i <= v.len(),
            sep == sep_fn(*d),
            bounds_ok(v@, r@),
            tokens(v@, sep) == pieces(v@, r@) + tokens(v@.subrange(i as int, v.len() as int), sep),
        decreases v.len() - i,
    {
        let ghost rest = v@.subrange(i as int, v.len() as int);
        if is_sep(d, v[i]) {
            assert(rest.drop_first() =~= v@.subrange(i + 1, v.len() as int));
            i += 1;
        } else {
            let mut j = i + 1;
            while j < v.len() && !is_sep(d, v[j])
                invariant
                    i < j <= v.len(),
                    sep == sep_fn(*d),
                    forall|k: int| i <= k < j ==> !sep(#[trigger] v@[k]),
                decreases v.len() - j,
            {
                j += 1;
            }
            proof {
                assert forall|k: int| 0 <= k < j - i implies !sep(#[trigger] rest[k]) by {
                    assert(rest[k] == v@[i + k]);
                }
                if j < v.len() {
                    assert(rest[j - i] == v@[j as int]);
                }
                lemma_token_len_unique(rest, sep, j - i);
                assert(rest.subrange(0, j - i) =~= v@.subrange(i as int, j as int));
                assert(rest.subrange(j - i, rest.len() as int) =~= v@.subrange(
                    j as int,
                    v.len() as int,
                ));
            }
            let ghost before = r@;
            r.push((i, j));
            assert(pieces(v@, r@) =~= pieces(v@, before).push(v@.subrange(i as int, j as int)));
            i = j;
        }
    }
    assert(tokens(v@.subrange(i as int, v.len() as int), sep) =~= Seq::<Seq<char>>::empty());
    assert(pieces(v@, r@) + Seq::<Seq<char>>::empty() =~= pieces(v@, r@));
    r
}

/// The tokens of `v` as vectors of characters.
pub fn tokens_exec(v: &[char], d: &Separators) -> (r: Vec<Vec<char>>)
    ensures
        views(r@) == tokens(v@, sep_fn(*d)),
{
    let b = token_bounds(v, d);
    let mut r: Vec<Vec<char>> = Vec::new();
    let mut k: usize = 0;
    while k < b.len()
        invariant
            k <= b.len(),
            bounds_ok(v@, b@),
            views(r@) == pieces(v@, b@).subrange(0, k as int),
        decreases b.len() - k,
    {
        let (x, y) = b[k];
        assert(b@[k as int].0 <= b@[k as int].1 <= v.len());
        let w = slice_chars(v, x, y);
        let ghost before = r@;
        r.push(w);
        assert(views(r@) =~= views(before).push(w@));
        assert(pieces(v@, b@)[k as int] == v@.subrange(x as int, y as int));
        assert(pieces(v@, b@).subrange(0, k + 1) =~= pieces(v@, b@).subrange(0, k as int).push(
            pieces(v@, b@)[k as int],
        ));
        k += 1;
    }
    assert(pieces(v@, b@).subrange(0, b.len() as int) =~= pieces(v@, b@));
    r
}

/// `str::split_whitespace`, each piece copied out.
pub fn words_exec(v: &[char]) -> (r: Vec<Vec<char>>)
    ensures
        views(r@) == words(v@),
{
    tokens_exec(v, &Separators::Whitespace)
}

/// `str::replace` with a non-empty pattern.
pub fn replace_exec(v: &[char], p: &[char], r: &[char]) -> (out: Vec<char>)
    requires
        p@.len() > 0,
    ensures
        out@ == replace(v@, p@, r@),
{
    let mut out: Vec<char> = Vec::new();
    let mut i: usize = 0;
    assert(v@.subrange(0, v.len() as int) =~= v@);
    while i < v.len()
        invariant
            i <= v.len(),
            p@.len() > 0,
            replace(v@, p@, r@) == out@ + replace(v@.subrange(i as int, v.len() as int), p@, r@),
        decreases v.len() - i,
    {
        let ghost rest = v@.subrange(i as int, v.len() as int);
        if occurs_at_exec(v, p, i) {
            assert(rest.subrange(0, p@.len() as int) =~= v@.subrange(i as int, i + p@.len()));
            assert(rest.subrange(p@.len() as int, rest.len() as int) =~= v@.subrange(
                i + p@.len(),
                v.len() as int,
            ));
            let ghost before = out@;
            let mut k: usize = 0;
            while k < r.len()
                invariant
                    k <= r.len(),
                    out@ == before + r@.subrange(0, k as int),
                decreases r.len() - k,
            {
                out.push(r[k]);
                k += 1;
            }
            assert(r@.subrange(0, r.len() as int) =~= r@);
            assert(out@ + replace(v@.subrange(i + p@.len(), v.len() as int), p@, r@) =~= before + (
            r@ + replace(v@.subrange(i + p@.len(), v.len() as int), p@, r@)));
            i = i + p.len();
        } else {
            assert(!starts_with(rest, p@)) by {
                if p@.len() <= rest.len() {
                    assert(rest.subrange(0, p@.len() as int) =~= v@.subrange(
                        i as int,
                        i + p@.len(),
                    ));
                }
            }
            assert(rest.drop_first() =~= v@.subrange(i + 1, v.len() as int));
            let ghost before = out@;
            out.push(v[i]);
            assert(out@ + replace(v@.subrange(i + 1, v.len() as int), p@, r@) =~= before + (seq![
                v@[i as int],
            ] + replace(v@.subrange(i + 1, v.len() as int), p@, r@)));
            i += 1;
        }
    }
    assert(out@ + Seq::<char>::empty() =~= out@);
    out
}

} // verus!
