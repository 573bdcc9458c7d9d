//! Regular-expression filters: filter files, substitution jobs, URL
//! patterns and the engine that applies filters by name.
//!
//! A compiled expression is not kept: a job or pattern keeps its source,
//! which was checked to compile when it was made, and each use compiles it.

use vstd::prelude::*;
use crate::text::{
    trim, chars_of, trim_vec, from_chars, push_str, push_chars, slice_chars, str_eq, own,
    replace, replace_exec, token_len, ws_sep, char_is_ws, lemma_token_len, split_char,
    split_char_exec, views, starts_with, ends_with, find, starts_with_exec, ends_with_exec,
    find_exec, eq_ic, str_views, lower, seq_eq,
};
use crate::http::{opt_view, HttpRequest, HttpResponse, first_named, header_view, ResponseModel, without_named};
use crate::text::{contains, decimal, str_starts_with, str_contains, find_char};
use crate::error::{PrivoxyError, PrivoxyResult};
use crate::filter::{FilterType, FilterVariables, filter_error};
use crate::bindings::{
    regex_error, regex_matches, regex_replaced, regex_check, regex_is_match, regex_replace_all,
};

verus! {

// ---------------------------------------------------------------------------
// Pattern text

/// The pattern with every quantifier `*`, `+` and `?` made lazy.
pub open spec fn ungreedy(s: Seq<char>) -> Seq<char>
    decreases s.len(),
{
    if s.len() == 0 {
        Seq::empty()
    } else {
        let c = s[0];
        if c == '*' || c == '+' {
            if s.len() > 1 && s[1] == '?' {
                seq![c, '?'] + ungreedy(s.subrange(2, s.len() as int))
            } else {
                seq![c, '?'] + ungreedy(s.drop_first())
            }
        } else if c == '?' && s.len() > 1 && s[1] != '*' && s[1] != '+' && s[1] != '?' {
            seq![c, '?'] + ungreedy(s.drop_first())
        } else {
            seq![c] + ungreedy(s.drop_first())
        }
    }
}

/// Makes every quantifier of a pattern lazy (the `U` flag).
pub fn make_ungreedy(pattern: &str) -> (r: String)
    ensures
        r@ == ungreedy(pattern@),
{
    let v = chars_of(pattern);
    let mut result: Vec<char> = Vec::new();
    let mut i: usize = 0;
    assert(v@.subrange(0, v@.len() as int) =~= v@);
    assert(result@ + ungreedy(v@) =~= ungreedy(v@));
    while i < v.len()
        invariant
            i <= v.len(),
            result@ + ungreedy(v@.subrange(i as int, v@.len() as int)) == ungreedy(v@),
        decreases v.len() - i,
    {
        let ghost rest = v@.subrange(i as int, v@.len() as int);
        assert(rest.drop_first() =~= v@.subrange(i + 1, v@.len() as int));
        let c = v[i];
        if c == '*' || c == '+' {
            result.push(c);
            result.push('?');
            if i + 1 < v.len() && v[i + 1] == '?' {
                assert(rest.subrange(2, rest.len() as int) =~= v@.subrange(i + 2, v@.len() as int));
                assert(result@ + ungreedy(v@.subrange(i + 2, v@.len() as int)) =~= (result@.drop_last().drop_last() + ungreedy(rest)));
                i += 2;
            } else {
                assert(result@ + ungreedy(v@.subrange(i + 1, v@.len() as int)) =~= (result@.drop_last().drop_last() + ungreedy(rest)));
                i += 1;
            }
        } else {
            let lazy = c == '?' && i + 1 < v.len() && v[i + 1] != '*' && v[i + 1] != '+' && v[i + 1] != '?';
            result.push(c);
            if lazy {
                result.push('?');
                assert(result@ + ungreedy(v@.subrange(i + 1, v@.len() as int)) =~= (result@.drop_last().drop_last() + ungreedy(rest)));
            } else {
                assert(result@ + ungreedy(v@.subrange(i + 1, v@.len() as int)) =~= (result@.drop_last() + ungreedy(rest)));
            }
            i += 1;
        }
    }
    assert(v@.subrange(i as int, v@.len() as int) =~= Seq::<char>::empty());
    assert(result@ + Seq::<char>::empty() =~= result@);
    from_chars(&result)
}

/// The pattern with `\d` (for the delimiter `d`) read as `d`.
pub open spec fn unescaped_pattern(s: Seq<char>, d: char) -> Seq<char>
    decreases s.len(),
{
    if s.len() == 0 {
        Seq::empty()
    } else if s[0] == '\\' && s.len() > 1 && s[1] == d {
        seq![d] + unescaped_pattern(s.subrange(2, s.len() as int), d)
    } else {
        seq![s[0]] + unescaped_pattern(s.drop_first(), d)
    }
}

/// The replacement text with `\d` read as the delimiter `d`, and `\n`,
/// `\t`, `\r` as newline, tab and carriage return.
pub open spec fn unescaped_replacement(s: Seq<char>, d: char) -> Seq<char>
    decreases s.len(),
{
    if s.len() == 0 {
        Seq::empty()
    } else if s[0] == '\\' && s.len() > 1 && s[1] == d {
        seq![d] + unescaped_replacement(s.subrange(2, s.len() as int), d)
    } else if s[0] == '\\' && s.len() > 1 && s[1] == 'n' {
        seq!['\n'] + unescaped_replacement(s.subrange(2, s.len() as int), d)
    } else if s[0] == '\\' && s.len() > 1 && s[1] == 't' {
        seq!['\t'] + unescaped_replacement(s.subrange(2, s.len() as int), d)
    } else if s[0] == '\\' && s.len() > 1 && s[1] == 'r' {
        seq!['\r'] + unescaped_replacement(s.subrange(2, s.len() as int), d)
    } else {
        seq![s[0]] + unescaped_replacement(s.drop_first(), d)
    }
}

/// Reads the escaped delimiter in a job's pattern.
pub fn unescape_pattern(s: &str, delimiter: char) -> (r: String)
    ensures
        r@ == unescaped_pattern(s@, delimiter),
{
    let v = chars_of(s);
    let mut result: Vec<char> = Vec::new();
    let mut i: usize = 0;
    assert(v@.subrange(0, v@.len() as int) =~= v@);
    assert(result@ + unescaped_pattern(v@, delimiter) =~= unescaped_pattern(v@, delimiter));
    while i < v.len()
        invariant
            i <= v.len(),
            result@ + unescaped_pattern(v@.subrange(i as int, v@.len() as int), delimiter)
                == unescaped_pattern(v@, delimiter),
        decreases v.len() - i,
    {
        let ghost rest = v@.subrange(i as int, v@.len() as int);
        let ghost before = result@;
        if v[i] == '\\' && i + 1 < v.len() && v[i + 1] == delimiter {
            result.push(delimiter);
            assert(rest.subrange(2, rest.len() as int) =~= v@.subrange(i + 2, v@.len() as int));
            assert(result@ + unescaped_pattern(v@.subrange(i + 2, v@.len() as int), delimiter) =~= before + unescaped_pattern(rest, delimiter));
            i += 2;
        } else {
            result.push(v[i]);
            assert(rest.drop_first() =~= v@.subrange(i + 1, v@.len() as int));
            assert(result@ + unescaped_pattern(v@.subrange(i + 1, v@.len() as int), delimiter) =~= before + unescaped_pattern(rest, delimiter));
            i += 1;
        }
    }
    assert(v@.subrange(i as int, v@.len() as int) =~= Seq::<char>::empty());
    assert(result@ + Seq::<char>::empty() =~= result@);
    from_chars(&result)
}

/// Reads the escapes in a job's replacement text.
pub fn unescape_replacement(s: &str, delimiter: char) -> (r: String)
    ensures
        r@ == unescaped_replacement(s@, delimiter),
{
    let v = chars_of(s);
    let mut result: Vec<char> = Vec::new();
    let mut i: usize = 0;
    assert(v@.subrange(0, v@.len() as int) =~= v@);
    assert(result@ + unescaped_replacement(v@, delimiter) =~= unescaped_replacement(v@, delimiter));
    while i < v.len()
        invariant
            i <= v.len(),
            result@ + unescaped_replacement(v@.subrange(i as int, v@.len() as int), delimiter)
                == unescaped_replacement(v@, delimiter),
        decreases v.len() - i,
    {
        let ghost rest = v@.subrange(i as int, v@.len() as int);
        let ghost before = result@;
        let two = i + 1 < v.len() && v[i] == '\\';
        if two && (v[i + 1] == delimiter || v[i + 1] == 'n' || v[i + 1] == 't' || v[i + 1] == 'r') {
            let n = v[i + 1];
            let out = if n == delimiter {
                delimiter
            } else if n == 'n' {
                '\n'
            } else if n == 't' {
                '\t'
            } else {
                '\r'
            };
            result.push(out);
            assert(rest.subrange(2, rest.len() as int) =~= v@.subrange(i + 2, v@.len() as int));
            assert(result@ + unescaped_replacement(v@.subrange(i + 2, v@.len() as int), delimiter) =~= before + unescaped_replacement(rest, delimiter));
            i += 2;
        } else {
            result.push(v[i]);
            assert(rest.drop_first() =~= v@.subrange(i + 1, v@.len() as int));
            assert(result@ + unescaped_replacement(v@.subrange(i + 1, v@.len() as int), delimiter) =~= before + unescaped_replacement(rest, delimiter));
            i += 1;
        }
    }
    assert(v@.subrange(i as int, v@.len() as int) =~= Seq::<char>::empty());
    assert(result@ + Seq::<char>::empty() =~= result@);
    from_chars(&result)
}

/// A filter header's name (up to the first whitespace) and its trimmed
/// description.
pub open spec fn name_description(s: Seq<char>) -> (Seq<char>, Seq<char>) {
    let k = token_len(s, ws_sep());
    if k < s.len() {
        (s.subrange(0, k as int), trim(s.subrange(k as int, s.len() as int)))
    } else {
        (s, Seq::empty())
    }
}

/// Splits `name description…` at the first whitespace.
pub fn split_name_description(s: &str) -> (r: (String, String))
    ensures
        (r.0@, r.1@) == name_description(s@),
{
    let v = chars_of(s);
    let mut k: usize = 0;
    proof {
        lemma_token_len(v@, ws_sep());
    }
    while k < v.len() && !char_is_ws(v[k])
        invariant
            k <= v.len(),
            k <= token_len(v@, ws_sep()),
            token_len(v@, ws_sep()) <= v@.len(),
            forall|j: int| 0 <= j < k ==> !crate::text::is_ws(#[trigger] v@[j]),
        decreases v.len() - k,
    {
        proof {
            lemma_token_len_step(v@, k as int);
        }
        k += 1;
    }
    proof {
        lemma_token_len_at(v@, k as int);
    }
    if k < v.len() {
        (sub_chars(&v, 0, k), from_chars(&trim_vec(&slice_chars(&v, k, v.len()))))
    } else {
        (from_chars(&v), String::new())
    }
}

proof fn lemma_token_len_step(s: Seq<char>, k: int)
    requires
        0 <= k < s.len(),
        k <= token_len(s, ws_sep()),
        forall|j: int| 0 <= j < k ==> !crate::text::is_ws(#[trigger] s[j]),
        !crate::text::is_ws(s[k]),
    ensures
        k + 1 <= token_len(s, ws_sep()),
    decreases k,
{
    if k > 0 {
        assert(!crate::text::is_ws(s[0]));
        let t = s.drop_first();
        assert forall|j: int| 0 <= j < k - 1 implies !crate::text::is_ws(#[trigger] t[j]) by {
            assert(t[j] == s[j + 1]);
        }
        lemma_token_len(t, ws_sep());
        lemma_token_len_step(t, k - 1);
    } else {
        assert((ws_sep())(s[0]) == crate::text::is_ws(s[0]));
    }
}

proof fn lemma_token_len_at(s: Seq<char>, k: int)
    requires
        0 <= k <= s.len(),
        forall|j: int| 0 <= j < k ==> !crate::text::is_ws(#[trigger] s[j]),
        k == s.len() || crate::text::is_ws(s[k]),
    ensures
        token_len(s, ws_sep()) == k,
    decreases k,
{
    if k > 0 {
        assert(!crate::text::is_ws(s[0]));
        let t = s.drop_first();
        assert forall|j: int| 0 <= j < k - 1 implies !crate::text::is_ws(#[trigger] t[j]) by {
            assert(t[j] == s[j + 1]);
        }
        if k < s.len() {
            assert(t[k - 1] == s[k]);
        }
        lemma_token_len_at(t, k - 1);
    } else if s.len() > 0 {
        assert((ws_sep())(s[0]) == crate::text::is_ws(s[0]));
    }
}

fn sub_chars(v: &Vec<char>, a: usize, b: usize) -> (r: String)
    requires
        a <= b <= v.len(),
    ensures
        r@ == v@.subrange(a as int, b as int),
{
    from_chars(&slice_chars(v, a, b))
}

// ---------------------------------------------------------------------------
// Substitution jobs

/// One substitution `s/pattern/replacement/flags` of a filter.
#[derive(Debug, Clone)]
pub struct FilterJob {
    /// The expression's source, flags included.
    pub pattern: String,
    pub replacement: String,
    pub dynamic: bool,
    pub trivial: bool,
    pub raw_replacement: String,
}

pub struct JobModel {
    pub pattern: Seq<char>,
    pub replacement: Seq<char>,
    pub dynamic: bool,
    pub trivial: bool,
    pub raw_replacement: Seq<char>,
}

impl View for FilterJob {
    type V = JobModel;

    open spec fn view(&self) -> JobModel {
        JobModel {
            pattern: self.pattern@,
            replacement: self.replacement@,
            dynamic: self.dynamic,
            trivial: self.trivial,
            raw_replacement: self.raw_replacement@,
        }
    }
}

/// Reading a job's flags: the inline flags gathered, the pattern (made
/// lazy by `U`), and whether `D` or `T` was given.
pub struct FlagState {
    pub flags: Seq<char>,
    pub pattern: Seq<char>,
    pub dynamic: bool,
    pub trivial: bool,
}

pub open spec fn flag_step(st: FlagState, c: char) -> FlagState {
    if c == 'i' || c == 'm' || c == 's' || c == 'x' {
        FlagState { flags: st.flags.push(c), ..st }
    } else if c == 'U' {
        FlagState { pattern: ungreedy(st.pattern), ..st }
    } else if c == 'D' {
        FlagState { dynamic: true, ..st }
    } else if c == 'T' {
        FlagState { trivial: true, ..st }
    } else {
        st
    }
}

pub open spec fn flag_state(flags: Seq<char>, pattern: Seq<char>) -> FlagState
    decreases flags.len(),
{
    if flags.len() == 0 {
        FlagState { flags: Seq::empty(), pattern, dynamic: false, trivial: false }
    } else {
        flag_step(flag_state(flags.drop_last(), pattern), flags.last())
    }
}

/// The expression a job compiles: the pattern, after `(?flags)` where any
/// of `i`, `m`, `s`, `x` were given.
pub open spec fn job_pattern(pattern: Seq<char>, flags: Seq<char>) -> Seq<char> {
    let st = flag_state(flags, pattern);
    if st.flags.len() == 0 {
        st.pattern
    } else {
        "(?"@ + st.flags + ")"@ + st.pattern
    }
}

/// The job that a pattern, replacement and flags make.
pub open spec fn new_job(pattern: Seq<char>, replacement: Seq<char>, flags: Seq<char>) -> JobModel {
    let st = flag_state(flags, pattern);
    JobModel {
        pattern: job_pattern(pattern, flags),
        replacement,
        dynamic: st.dynamic,
        trivial: st.trivial,
        raw_replacement: replacement,
    }
}

/// Flags that name none of `i`, `m`, `s`, `x` gather no inline flag.
pub proof fn lemma_flag_state_no_inline(flags: Seq<char>, pattern: Seq<char>)
    requires
        !flags.contains('i'),
        !flags.contains('m'),
        !flags.contains('s'),
        !flags.contains('x'),
    ensures
        flag_state(flags, pattern).flags.len() == 0,
    decreases flags.len(),
{
    if flags.len() > 0 {
        let f = flags.drop_last();
        assert(flags.last() == flags[flags.len() - 1]);
        assert forall|c: char| f.contains(c) implies flags.contains(c) by {
            let k = choose|k: int| 0 <= k < f.len() && f[k] == c;
            assert(flags[k] == c);
        }
        lemma_flag_state_no_inline(f, pattern);
    }
}

/// Adding `U` to flags that name no inline flag makes the job's expression
/// the lazy form of what it was, and changes nothing else of the job.
pub proof fn law_u_flag_makes_pattern_lazy(pattern: Seq<char>, replacement: Seq<char>, flags: Seq<char>)
    requires
        !flags.contains('i'),
        !flags.contains('m'),
        !flags.contains('s'),
        !flags.contains('x'),
    ensures
        new_job(pattern, replacement, flags.push('U')).pattern == ungreedy(new_job(pattern, replacement, flags).pattern),
        new_job(pattern, replacement, flags.push('U')).dynamic == new_job(pattern, replacement, flags).dynamic,
        new_job(pattern, replacement, flags.push('U')).trivial == new_job(pattern, replacement, flags).trivial,
        new_job(pattern, replacement, flags.push('U')).replacement == replacement,
{
    assert(flags.push('U').drop_last() =~= flags);
    lemma_flag_state_no_inline(flags, pattern);
}

/// A job built with the single flag `U` compiles the lazy form of its
/// pattern, as `make_ungreedy` gives it.
pub proof fn law_u_flag_alone(pattern: Seq<char>, replacement: Seq<char>)
    ensures
        new_job(pattern, replacement, "U"@).pattern == ungreedy(pattern),
{
    reveal_strlit("U");
    let none = Seq::<char>::empty();
    assert("U"@ =~= none.push('U'));
    law_u_flag_makes_pattern_lazy(pattern, replacement, none);
}

/// The error of a job whose expression does not compile.
pub open spec fn job_error(pattern: Seq<char>, flags: Seq<char>) -> Option<Seq<char>> {
    match regex_error(job_pattern(pattern, flags)) {
        Some(e) => Some("Invalid regex '"@ + job_pattern(pattern, flags) + "': "@ + e),
        None => None,
    }
}

/// The values a dynamic job's replacement may name.
pub open spec fn vars_view(v: FilterVariables) -> (Seq<char>, Seq<char>, Seq<char>, Seq<char>, Seq<char>) {
    (v.host@, v.url@, v.path@, v.origin@, v.listen_address@)
}

/// `$host`, `$url`, `$path`, `$origin` and `$listen-address` replaced in turn.
pub open spec fn substituted(t: Seq<char>, v: (Seq<char>, Seq<char>, Seq<char>, Seq<char>, Seq<char>)) -> Seq<char> {
    replace(
        replace(replace(replace(replace(t, "$host"@, v.0), "$url"@, v.1), "$path"@, v.2), "$origin"@, v.3),
        "$listen-address"@,
        v.4,
    )
}

/// Replaces every match of an expression that compiles; one that does not
/// leaves the text as it is.
pub open spec fn replaced_or_kept(p: Seq<char>, t: Seq<char>, r: Seq<char>) -> Seq<char> {
    if regex_error(p) is None {
        regex_replaced(p, t, r)
    } else {
        t
    }
}

/// What a job does to a text.
pub open spec fn job_output(j: JobModel, t: Seq<char>) -> Seq<char> {
    replaced_or_kept(j.pattern, t, j.replacement)
}

/// What a job does to a text with the dynamic values filled in.
pub open spec fn job_output_vars(
    j: JobModel,
    t: Seq<char>,
    v: (Seq<char>, Seq<char>, Seq<char>, Seq<char>, Seq<char>),
) -> Seq<char> {
    let r = if j.trivial {
        j.replacement
    } else {
        substituted(j.raw_replacement, v)
    };
    replaced_or_kept(j.pattern, t, r)
}

fn replace_str(t: &str, p: &str, r: &str) -> (out: String)
    requires
        p@.len() > 0,
    ensures
        out@ == replace(t@, p@, r@),
{
    let tv = chars_of(t);
    let pv = chars_of(p);
    let rv = chars_of(r);
    from_chars(&replace_exec(&tv, &pv, &rv))
}

fn replace_or_keep(p: &str, t: &str, r: &str) -> (out: String)
    ensures
        out@ == replaced_or_kept(p@, t@, r@),
{
    match regex_check(p) {
        None => regex_replace_all(p, t, r),
        Some(_) => own(t),
    }
}

impl FilterJob {
    /// A job from its pattern, replacement and flags (`i`, `m`, `s`, `x`
    /// inline, `U` lazy, `D` dynamic, `T` trivial; others ignored).
    pub fn new(pattern: &str, replacement: &str, flags: &str) -> (r: PrivoxyResult<Self>)
        ensures
            match job_error(pattern@, flags@) {
                None => r matches Ok(j) && j@ == new_job(pattern@, replacement@, flags@),
                Some(m) => filter_error(r, m),
            },
    {
        let fv = chars_of(flags);
        let mut regex_pattern = own(pattern);
        let mut regex_flags: Vec<char> = Vec::new();
        let mut dynamic = false;
        let mut trivial = false;
        let mut i: usize = 0;
        while i < fv.len()
            invariant
                i <= fv.len(),
                fv@ == flags@,
                flag_state(fv@.take(i as int), pattern@) == (FlagState {
                    flags: regex_flags@,
                    pattern: regex_pattern@,
                    dynamic,
                    trivial,
                }),
            decreases fv.len() - i,
        {
            proof {
                assert(fv@.take(i as int + 1).drop_last() =~= fv@.take(i as int));
                assert(fv@.take(i as int + 1).last() == fv@[i as int]);
            }
            let c = fv[i];
            if c == 'i' || c == 'm' || c == 's' || c == 'x' {
                regex_flags.push(c);
            } else if c == 'U' {
                regex_pattern = make_ungreedy(regex_pattern.as_str());
            } else if c == 'D' {
                dynamic = true;
            } else if c == 'T' {
                trivial = true;
            }
            i += 1;
        }
        assert(fv@.take(i as int) =~= flags@);
        let full = if regex_flags.len() == 0 {
            regex_pattern
        } else {
            let mut f = String::new();
            push_str(&mut f, "(?");
            push_chars(&mut f, &regex_flags);
            push_str(&mut f, ")");
            push_str(&mut f, regex_pattern.as_str());
            f
        };
        assert(full@ == job_pattern(pattern@, flags@));
        match regex_check(full.as_str()) {
            Some(e) => {
                let mut m = String::new();
                push_str(&mut m, "Invalid regex '");
                push_str(&mut m, full.as_str());
                push_str(&mut m, "': ");
                push_str(&mut m, e.as_str());
                Err(PrivoxyError::Filter(m))
            },
            None => Ok(FilterJob {
                pattern: full,
                replacement: own(replacement),
                dynamic,
                trivial,
                raw_replacement: own(replacement),
            }),
        }
    }

    /// Replaces every match in `content`.
    pub fn apply(&self, content: &str) -> (r: String)
        ensures
            r@ == job_output(self@, content@),
    {
        replace_or_keep(self.pattern.as_str(), content, self.replacement.as_str())
    }

    /// Replaces every match, with the dynamic values filled into the
    /// replacement unless the job is trivial.
    pub fn apply_with_variables(&self, content: &str, variables: &FilterVariables) -> (r: String)
        ensures
            r@ == job_output_vars(self@, content@, vars_view(*variables)),
    {
        let replacement = if self.trivial {
            self.replacement.clone()
        } else {
            self.substitute_variables(self.raw_replacement.as_str(), variables)
        };
        replace_or_keep(self.pattern.as_str(), content, replacement.as_str())
    }

    fn substitute_variables(&self, text: &str, variables: &FilterVariables) -> (r: String)
        ensures
            r@ == substituted(text@, vars_view(*variables)),
    {
        proof {
            reveal_strlit("$host");
            reveal_strlit("$url");
            reveal_strlit("$path");
            reveal_strlit("$origin");
            reveal_strlit("$listen-address");
        }
        let r1 = replace_str(text, "$host", variables.host.as_str());
        let r2 = replace_str(r1.as_str(), "$url", variables.url.as_str());
        let r3 = replace_str(r2.as_str(), "$path", variables.path.as_str());
        let r4 = replace_str(r3.as_str(), "$origin", variables.origin.as_str());
        replace_str(r4.as_str(), "$listen-address", variables.listen_address.as_str())
    }
}

// ---------------------------------------------------------------------------
// Filters

/// A named list of jobs of one kind.
#[derive(Debug, Clone)]
pub struct Filter {
    pub name: String,
    pub description: String,
    pub filter_type: FilterType,
    pub jobs: Vec<FilterJob>,
    pub enabled: bool,
    pub dynamic: bool,
}

pub struct FilterModel {
    pub name: Seq<char>,
    pub description: Seq<char>,
    pub filter_type: FilterType,
    pub jobs: Seq<JobModel>,
    pub enabled: bool,
    pub dynamic: bool,
}

pub open spec fn jobs_view(j: Seq<FilterJob>) -> Seq<JobModel> {
    j.map_values(|x: FilterJob| x@)
}

impl View for Filter {
    type V = FilterModel;

    open spec fn view(&self) -> FilterModel {
        FilterModel {
            name: self.name@,
            description: self.description@,
            filter_type: self.filter_type,
            jobs: jobs_view(self.jobs@),
            enabled: self.enabled,
            dynamic: self.dynamic,
        }
    }
}

/// The text after a filter's jobs ran in order; dynamic jobs use the
/// values where there are any.
pub open spec fn jobs_output(
    jobs: Seq<JobModel>,
    t: Seq<char>,
    v: Option<(Seq<char>, Seq<char>, Seq<char>, Seq<char>, Seq<char>)>,
) -> Seq<char>
    decreases jobs.len(),
{
    if jobs.len() == 0 {
        t
    } else {
        let prev = jobs_output(jobs.drop_last(), t, v);
        let j = jobs.last();
        match v {
            Some(vals) => if j.dynamic {
                job_output_vars(j, prev, vals)
            } else {
                job_output(j, prev)
            },
            None => job_output(j, prev),
        }
    }
}

/// What a filter does to a text: nothing when it is disabled.
pub open spec fn filter_output(
    f: FilterModel,
    t: Seq<char>,
    v: Option<(Seq<char>, Seq<char>, Seq<char>, Seq<char>, Seq<char>)>,
) -> Seq<char> {
    if f.enabled {
        jobs_output(f.jobs, t, v)
    } else {
        t
    }
}

pub open spec fn opt_vars(v: Option<&FilterVariables>) -> Option<(Seq<char>, Seq<char>, Seq<char>, Seq<char>, Seq<char>)> {
    match v {
        Some(x) => Some(vars_view(*x)),
        None => None,
    }
}

impl Filter {
    pub fn new(name: &str, description: &str, filter_type: FilterType) -> (r: Self)
        ensures
            r@ == (FilterModel {
                name: name@,
                description: description@,
                filter_type,
                jobs: Seq::empty(),
                enabled: true,
                dynamic: false,
            }),
    {
        let r = Filter {
            name: own(name),
            description: own(description),
            filter_type,
            jobs: Vec::new(),
            enabled: true,
            dynamic: false,
        };
        assert(jobs_view(r.jobs@) =~= Seq::<JobModel>::empty());
        r
    }

    /// Appends a job; a dynamic job makes the filter dynamic.
    pub fn add_job(&mut self, job: FilterJob)
        ensures
            final(self)@ == (FilterModel {
                jobs: old(self)@.jobs.push(job@),
                dynamic: old(self)@.dynamic || job@.dynamic,
                ..old(self)@
            }),
    {
        if job.dynamic {
            self.dynamic = true;
        }
        let ghost before = self.jobs@;
        let ghost jv = job@;
        self.jobs.push(job);
        assert(jobs_view(self.jobs@) =~= jobs_view(before).push(jv));
    }

    pub fn apply(&self, content: &str) -> (r: String)
        ensures
            r@ == filter_output(self@, content@, None),
    {
        self.apply_with_variables(content, None)
    }

    /// Runs the jobs in order on `content`.
    pub fn apply_with_variables(&self, content: &str, variables: Option<&FilterVariables>) -> (r: String)
        ensures
            r@ == filter_output(self@, content@, opt_vars(variables)),
    {
        if !self.enabled {
            return own(content);
        }
        let ghost jv = jobs_view(self.jobs@);
        let mut result = own(content);
        let mut i: usize = 0;
        while i < self.jobs.len()
            invariant
                i <= self.jobs.len(),
                jv == jobs_view(self.jobs@),
                result@ == jobs_output(jv.take(i as int), content@, opt_vars(variables)),
            decreases self.jobs.len() - i,
        {
            proof {
                assert(jv.take(i as int + 1).drop_last() =~= jv.take(i as int));
                assert(jv.take(i as int + 1).last() == self.jobs@[i as int]@);
            }
            let job = &self.jobs[i];
            result = match variables {
                Some(vars) => if job.dynamic {
                    job.apply_with_variables(result.as_str(), vars)
                } else {
                    job.apply(result.as_str())
                },
                None => job.apply(result.as_str()),
            };
            i += 1;
        }
        assert(jv.take(i as int) =~= jv);
        result
    }
}

// ---------------------------------------------------------------------------
// Filter files

/// Index of the first unescaped `d` in `s` at or after `i`, where `esc`
/// says whether the character at `i` is escaped.
pub open spec fn delim_scan(s: Seq<char>, d: char, i: int, esc: bool) -> Option<int>
    decreases s.len() - i,
{
    if i < 0 || i >= s.len() {
        None
    } else if esc {
        delim_scan(s, d, i + 1, false)
    } else if s[i] == '\\' {
        delim_scan(s, d, i + 1, true)
    } else if s[i] == d {
        Some(i)
    } else {
        delim_scan(s, d, i + 1, false)
    }
}

fn delim_scan_exec(s: &Vec<char>, d: char) -> (r: Option<usize>)
    ensures
        r matches Some(p) ==> delim_scan(s@, d, 0, false) == Some(p as int) && p < s.len(),
        r is None ==> delim_scan(s@, d, 0, false) is None,
{
    let mut i: usize = 0;
    let mut esc = false;
    while i < s.len()
        invariant
            i <= s.len(),
            delim_scan(s@, d, 0, false) == delim_scan(s@, d, i as int, esc),
        decreases s.len() - i,
    {
        if esc {
            esc = false;
        } else if s[i] == '\\' {
            esc = true;
        } else if s[i] == d {
            return Some(i);
        }
        i += 1;
    }
    None
}

/// The parts of a job line `s<d>pattern<d>replacement<d>flags`: the
/// delimiter, the raw pattern, replacement and flags.  `None` for a line
/// that is no job.
pub open spec fn job_parts(line: Seq<char>) -> Option<Result<(char, Seq<char>, Seq<char>, Seq<char>), Seq<char>>> {
    if line.len() == 0 || line[0] == '#' || (line[0] != 's' && line[0] != 'S') || line.len() < 2 {
        None
    } else {
        let d = line[1];
        let rest = line.subrange(2, line.len() as int);
        match delim_scan(rest, d, 0, false) {
            None => Some(Err("Unterminated pattern in: s"@ + seq![d] + "..."@)),
            Some(pe) => {
                let pat = rest.subrange(0, pe);
                let rest2 = rest.subrange(pe + 1, rest.len() as int);
                match delim_scan(rest2, d, 0, false) {
                    Some(re) => Some(
                        Ok((d, pat, rest2.subrange(0, re), rest2.subrange(re + 1, rest2.len() as int))),
                    ),
                    None => Some(Ok((d, pat, rest2, Seq::empty()))),
                }
            },
        }
    }
}

/// What a job line gives: nothing, an error, or a job.
pub open spec fn job_line_result(line: Seq<char>) -> Option<Result<JobModel, Seq<char>>> {
    match job_parts(line) {
        None => None,
        Some(Err(m)) => Some(Err(m)),
        Some(Ok(p)) => {
            let pat = unescaped_pattern(p.1, p.0);
            let rep = unescaped_replacement(p.2, p.0);
            match job_error(pat, p.3) {
                Some(m) => Some(Err(m)),
                None => Some(Ok(new_job(pat, rep, p.3))),
            }
        },
    }
}

/// Reads a job line `s/pattern/replacement/flags` (any delimiter).
pub fn parse_filter_job(line: &str) -> (r: Option<PrivoxyResult<FilterJob>>)
    ensures
        match job_line_result(line@) {
            None => r is None,
            Some(Ok(j)) => r matches Some(Ok(x)) && x@ == j,
            Some(Err(m)) => r matches Some(e) && filter_error(e, m),
        },
{
    let v = chars_of(line);
    if v.len() == 0 || v[0] == '#' || (v[0] != 's' && v[0] != 'S') || v.len() < 2 {
        return None;
    }
    let d = v[1];
    let rest = slice_chars(&v, 2, v.len());
    assert(v@ == line@);
    assert(rest@ == line@.subrange(2, line@.len() as int));
    let pe = match delim_scan_exec(&rest, d) {
        Some(pe) => pe,
        None => {
            let mut m = String::new();
            push_str(&mut m, "Unterminated pattern in: s");
            m.push(d);
            push_str(&mut m, "...");
            assert(m@ =~= "Unterminated pattern in: s"@ + seq![d] + "..."@);
            return Some(Err(PrivoxyError::Filter(m)));
        },
    };
    let pat = slice_chars(&rest, 0, pe);
    let rest2 = slice_chars(&rest, pe + 1, rest.len());
    let (rep, flags) = match delim_scan_exec(&rest2, d) {
        Some(re) => (slice_chars(&rest2, 0, re), slice_chars(&rest2, re + 1, rest2.len())),
        None => (rest2, Vec::new()),
    };
    let pat_s = unescape_pattern(from_chars(&pat).as_str(), d);
    let rep_s = unescape_replacement(from_chars(&rep).as_str(), d);
    let flags_s = from_chars(&flags);
    assert(flags@ == job_parts(line@)->Some_0->Ok_0.3);
    Some(FilterJob::new(pat_s.as_str(), rep_s.as_str(), flags_s.as_str()))
}

/// Whether `s` starts with `p`, ASCII case ignored.
pub open spec fn starts_with_ic(s: Seq<char>, p: Seq<char>) -> bool {
    p.len() <= s.len() && eq_ic(s.subrange(0, p.len() as int), p)
}

fn starts_with_ic_exec(s: &Vec<char>, p: &str) -> (r: bool)
    ensures
        r == starts_with_ic(s@, p@),
{
    let pv = chars_of(p);
    if pv.len() > s.len() {
        return false;
    }
    let head = slice_chars(s, 0, pv.len());
    crate::text::seq_eq_ic(&head, &pv)
}

/// The keyword that opens a filter of each kind.
pub open spec fn header_keyword(t: FilterType) -> Seq<char> {
    match t {
        FilterType::Content => "FILTER:"@,
        FilterType::ClientHeader => "CLIENT-HEADER-FILTER:"@,
        FilterType::ClientHeaderTagger => "CLIENT-HEADER-TAGGER:"@,
        FilterType::ServerHeader => "SERVER-HEADER-FILTER:"@,
        FilterType::ServerHeaderTagger => "SERVER-HEADER-TAGGER:"@,
        FilterType::ClientBody => "CLIENT-BODY-FILTER:"@,
        FilterType::ClientBodyTagger => "CLIENT-BODY-TAGGER:"@,
    }
}

/// The kind of filter a line opens, tried in the order the file format
/// lists them.
pub open spec fn header_kind(line: Seq<char>) -> Option<FilterType> {
    if starts_with_ic(line, "FILTER:"@) {
        Some(FilterType::Content)
    } else if starts_with_ic(line, "CLIENT-HEADER-FILTER:"@) {
        Some(FilterType::ClientHeader)
    } else if starts_with_ic(line, "CLIENT-HEADER-TAGGER:"@) {
        Some(FilterType::ClientHeaderTagger)
    } else if starts_with_ic(line, "SERVER-HEADER-FILTER:"@) {
        Some(FilterType::ServerHeader)
    } else if starts_with_ic(line, "SERVER-HEADER-TAGGER:"@) {
        Some(FilterType::ServerHeaderTagger)
    } else if starts_with_ic(line, "CLIENT-BODY-FILTER:"@) {
        Some(FilterType::ClientBody)
    } else if starts_with_ic(line, "CLIENT-BODY-TAGGER:"@) {
        Some(FilterType::ClientBodyTagger)
    } else {
        None
    }
}

/// The new, empty filter a header line opens.
pub open spec fn header_filter(line: Seq<char>) -> Option<FilterModel> {
    match header_kind(line) {
        None => None,
        Some(t) => {
            let k = header_keyword(t);
            let nd = name_description(trim(line.subrange(k.len() as int, line.len() as int)));
            Some(FilterModel {
                name: nd.0,
                description: nd.1,
                filter_type: t,
                jobs: Seq::empty(),
                enabled: true,
                dynamic: false,
            })
        },
    }
}

fn header_kind_exec(v: &Vec<char>) -> (r: Option<(FilterType, &'static str)>)
    ensures
        r matches Some(x) ==> header_kind(v@) == Some(x.0) && x.1@ == header_keyword(x.0),
        r is None ==> header_kind(v@) is None,
{
    if starts_with_ic_exec(v, "FILTER:") {
        Some((FilterType::Content, "FILTER:"))
    } else if starts_with_ic_exec(v, "CLIENT-HEADER-FILTER:") {
        Some((FilterType::ClientHeader, "CLIENT-HEADER-FILTER:"))
    } else if starts_with_ic_exec(v, "CLIENT-HEADER-TAGGER:") {
        Some((FilterType::ClientHeaderTagger, "CLIENT-HEADER-TAGGER:"))
    } else if starts_with_ic_exec(v, "SERVER-HEADER-FILTER:") {
        Some((FilterType::ServerHeader, "SERVER-HEADER-FILTER:"))
    } else if starts_with_ic_exec(v, "SERVER-HEADER-TAGGER:") {
        Some((FilterType::ServerHeaderTagger, "SERVER-HEADER-TAGGER:"))
    } else if starts_with_ic_exec(v, "CLIENT-BODY-FILTER:") {
        Some((FilterType::ClientBody, "CLIENT-BODY-FILTER:"))
    } else if starts_with_ic_exec(v, "CLIENT-BODY-TAGGER:") {
        Some((FilterType::ClientBodyTagger, "CLIENT-BODY-TAGGER:"))
    } else {
        None
    }
}

/// Reads a filter header line such as `FILTER: name description`.
pub fn parse_filter_header(line: &str) -> (r: Option<Filter>)
    ensures
        match header_filter(line@) {
            Some(m) => r matches Some(f) && f@ == m,
            None => r is None,
        },
{
    let v = chars_of(line);
    match header_kind_exec(&v) {
        None => None,
        Some((t, keyword)) => {
            let kl = keyword.as_bytes().len();
            let kv = chars_of(keyword);
            proof {
                reveal_strlit("FILTER:");
                reveal_strlit("CLIENT-HEADER-FILTER:");
                reveal_strlit("CLIENT-HEADER-TAGGER:");
                reveal_strlit("SERVER-HEADER-FILTER:");
                reveal_strlit("SERVER-HEADER-TAGGER:");
                reveal_strlit("CLIENT-BODY-FILTER:");
                reveal_strlit("CLIENT-BODY-TAGGER:");
            }
            let rest = trim_vec(&slice_chars(&v, kv.len(), v.len()));
            let (name, description) = split_name_description(from_chars(&rest).as_str());
            Some(Filter::new(name.as_str(), description.as_str(), t))
        },
    }
}

/// Reading a filter file: the filters finished so far and the one being
/// read.
pub struct FilterFileState {
    pub filters: Seq<FilterModel>,
    pub current: Option<FilterModel>,
}

/// What one line of a filter file does: a header starts a new filter, a
/// job line adds a job to the current filter, and anything else (blank
/// lines, comments, bad jobs, jobs before any header) does nothing.
pub open spec fn filter_file_line(st: FilterFileState, line: Seq<char>) -> FilterFileState {
    let t = trim(line);
    if t.len() == 0 {
        st
    } else {
        match header_filter(t) {
            Some(f) => FilterFileState {
                filters: match st.current {
                    Some(c) => st.filters.push(c),
                    None => st.filters,
                },
                current: Some(f),
            },
            None => match st.current {
                Some(c) => match job_line_result(t) {
                    Some(Ok(j)) => FilterFileState {
                        current: Some(FilterModel { jobs: c.jobs.push(j), dynamic: c.dynamic || j.dynamic, ..c }),
                        ..st
                    },
                    _ => st,
                },
                None => st,
            },
        }
    }
}

pub open spec fn filter_file_lines(lines: Seq<Seq<char>>) -> FilterFileState
    decreases lines.len(),
{
    if lines.len() == 0 {
        FilterFileState { filters: Seq::empty(), current: None }
    } else {
        filter_file_line(filter_file_lines(lines.drop_last()), lines.last())
    }
}

/// The filters that the lines of a filter file declare, in order.
pub open spec fn filters_of(lines: Seq<Seq<char>>) -> Seq<FilterModel> {
    let st = filter_file_lines(lines);
    match st.current {
        Some(c) => st.filters.push(c),
        None => st.filters,
    }
}

pub open spec fn filters_view(f: Seq<Filter>) -> Seq<FilterModel> {
    f.map_values(|x: Filter| x@)
}

/// Reads the lines of a filter file.  Bad jobs are skipped, so this never
/// fails.
pub fn parse_filter_lines(lines: Vec<String>) -> (r: PrivoxyResult<Vec<Filter>>)
    ensures
        r matches Ok(v) && filters_view(v@) == filters_of(str_views(lines@)),
{
    let ghost ls = str_views(lines@);
    let mut filters: Vec<Filter> = Vec::new();
    let mut current: Option<Filter> = None;
    let mut i: usize = 0;
    assert(filters_view(filters@) =~= Seq::<FilterModel>::empty());
    while i < lines.len()
        invariant
            i <= lines.len(),
            ls == str_views(lines@),
            filter_file_lines(ls.take(i as int)) == (FilterFileState {
                filters: filters_view(filters@),
                current: match current {
                    Some(c) => Some(c@),
                    None => None,
                },
            }),
        decreases lines.len() - i,
    {
        proof {
            assert(ls.take(i as int + 1).drop_last() =~= ls.take(i as int));
            assert(ls.take(i as int + 1).last() == lines@[i as int]@);
        }
        let tv = trim_vec(&chars_of(lines[i].as_str()));
        if tv.len() > 0 {
            let t = from_chars(&tv);
            match parse_filter_header(t.as_str()) {
                Some(f) => {
                    match current {
                        Some(c) => {
                            let ghost before = filters@;
                            let ghost cv = c@;
                            filters.push(c);
                            assert(filters_view(filters@) =~= filters_view(before).push(cv));
                        },
                        None => {},
                    }
                    current = Some(f);
                },
                None => {
                    current = match current {
                        Some(mut c) => {
                            match parse_filter_job(t.as_str()) {
                                Some(Ok(j)) => {
                                    c.add_job(j);
                                },
                                _ => {},
                            }
                            Some(c)
                        },
                        None => None,
                    };
                },
            }
        }
        i += 1;
    }
    assert(ls.take(i as int) =~= ls);
    match current {
        Some(c) => {
            let ghost before = filters@;
            let ghost cv = c@;
            filters.push(c);
            assert(filters_view(filters@) =~= filters_view(before).push(cv));
        },
        None => {},
    }
    Ok(filters)
}

/// Reads a filter file's text.
pub fn parse_filter_file(content: &str) -> (r: PrivoxyResult<Vec<Filter>>)
    ensures
        r matches Ok(v) && filters_view(v@) == filters_of(split_char(content@, '\n')),
{
    let vc = chars_of(content);
    let parts = split_char_exec(&vc, '\n');
    let mut lines: Vec<String> = Vec::new();
    let mut i: usize = 0;
    while i < parts.len()
        invariant
            i <= parts.len(),
            str_views(lines@) == views(parts@).take(i as int),
        decreases parts.len() - i,
    {
        let ghost before = lines@;
        lines.push(from_chars(&parts[i]));
        assert(str_views(lines@) =~= str_views(before).push(parts@[i as int]@));
        assert(views(parts@).take(i as int + 1) =~= views(parts@).take(i as int).push(parts@[i as int]@));
        i += 1;
    }
    assert(views(parts@).take(i as int) =~= views(parts@));
    parse_filter_lines(lines)
}

// ---------------------------------------------------------------------------
// Single rules

/// A named substitution of one expression.
#[derive(Debug, Clone)]
pub struct FilterRule {
    pub name: String,
    pub description: String,
    pub filter_type: FilterType,
    /// The expression's source.
    pub pattern: String,
    pub replacement: String,
    pub enabled: bool,
}

impl FilterRule {
    /// A content rule; the expression must compile.
    pub fn new(name: &str, pattern: &str, replacement: &str) -> (r: PrivoxyResult<Self>)
        ensures
            match regex_error(pattern@) {
                None => r matches Ok(x) && x.name@ == name@ && x.description@.len() == 0
                    && x.filter_type == FilterType::Content && x.pattern@ == pattern@
                    && x.replacement@ == replacement@ && x.enabled,
                Some(e) => filter_error(r, "Invalid regex '"@ + pattern@ + "': "@ + e),
            },
    {
        match regex_check(pattern) {
            Some(e) => {
                let mut m = String::new();
                push_str(&mut m, "Invalid regex '");
                push_str(&mut m, pattern);
                push_str(&mut m, "': ");
                push_str(&mut m, e.as_str());
                Err(PrivoxyError::Filter(m))
            },
            None => Ok(FilterRule {
                name: own(name),
                description: String::new(),
                filter_type: FilterType::Content,
                pattern: own(pattern),
                replacement: own(replacement),
                enabled: true,
            }),
        }
    }

    /// Replaces every match; a disabled rule changes nothing.
    pub fn apply(&self, content: &str) -> (r: String)
        ensures
            r@ == if self.enabled {
                replaced_or_kept(self.pattern@, content@, self.replacement@)
            } else {
                content@
            },
    {
        if !self.enabled {
            return own(content);
        }
        replace_or_keep(self.pattern.as_str(), content, self.replacement.as_str())
    }

    /// Whether the expression matches; a disabled rule matches nothing.
    pub fn matches(&self, content: &str) -> (r: bool)
        ensures
            r == (self.enabled && regex_error(self.pattern@) is None && regex_matches(
                self.pattern@,
                content@,
            )),
    {
        if !self.enabled {
            return false;
        }
        match regex_check(self.pattern.as_str()) {
            None => regex_is_match(self.pattern.as_str(), content),
            Some(_) => false,
        }
    }
}

// ---------------------------------------------------------------------------
// URL patterns

/// A URL pattern: an expression, or text with `*` wildcards.
#[derive(Debug, Clone)]
pub struct UrlPattern {
    pub pattern: String,
    pub is_regex: bool,
    pub anchor_left: bool,
    pub anchor_right: bool,
}

pub struct UrlPatternModel {
    pub pattern: Seq<char>,
    pub is_regex: bool,
    pub anchor_left: bool,
    pub anchor_right: bool,
}

impl View for UrlPattern {
    type V = UrlPatternModel;

    open spec fn view(&self) -> UrlPatternModel {
        UrlPatternModel {
            pattern: self.pattern@,
            is_regex: self.is_regex,
            anchor_left: self.anchor_left,
            anchor_right: self.anchor_right,
        }
    }
}

/// Matching the wildcard pieces in order: each piece found after the
/// previous one; with anchors, the first piece at the start and the last
/// at the end.  The state is the position reached, `None` on failure.
pub open spec fn pm_step(
    parts: Seq<Seq<char>>,
    i: int,
    pos: Option<int>,
    left: bool,
    right: bool,
    text: Seq<char>,
) -> Option<int> {
    match pos {
        None => None,
        Some(p) => {
            let part = parts[i];
            if part.len() == 0 {
                Some(p)
            } else if i == 0 && left {
                if starts_with(text, part) {
                    Some(part.len() as int)
                } else {
                    None
                }
            } else if i == parts.len() - 1 && right && parts[i - 1].len() > 0 {
                if ends_with(text.subrange(p, text.len() as int), part) {
                    Some(p)
                } else {
                    None
                }
            } else {
                match find(text.subrange(p, text.len() as int), part) {
                    Some(q) => Some(p + q + part.len()),
                    None => None,
                }
            }
        },
    }
}

pub open spec fn pm_state(parts: Seq<Seq<char>>, k: int, left: bool, right: bool, text: Seq<char>) -> Option<int>
    decreases k,
{
    if k <= 0 {
        Some(0)
    } else {
        pm_step(parts, k - 1, pm_state(parts, k - 1, left, right, text), left, right, text)
    }
}

/// Whether a wildcard pattern matches a text: `*` alone matches anything,
/// a pattern without `*` only itself.
pub open spec fn wildcard_pattern_match(pattern: Seq<char>, text: Seq<char>, left: bool, right: bool) -> bool {
    if pattern == "*"@ {
        true
    } else {
        let parts = split_char(pattern, '*');
        if parts.len() == 1 {
            pattern == text
        } else {
            pm_state(parts, parts.len() as int, left, right, text) is Some
        }
    }
}

/// Whether a URL pattern matches a URL.
pub open spec fn url_pattern_matches(p: UrlPatternModel, url: Seq<char>) -> bool {
    if p.is_regex {
        regex_error(p.pattern) is None && regex_matches(p.pattern, url)
    } else {
        wildcard_pattern_match(p.pattern, url, p.anchor_left, p.anchor_right)
    }
}

impl UrlPattern {
    /// A pattern without anchors; an expression pattern must compile.
    pub fn new(pattern: &str, is_regex: bool) -> (r: PrivoxyResult<Self>)
        ensures
            match (is_regex, regex_error(pattern@)) {
                (true, Some(e)) => filter_error(r, "Invalid regex '"@ + pattern@ + "': "@ + e),
                _ => r matches Ok(x) && x@ == (UrlPatternModel {
                    pattern: pattern@,
                    is_regex,
                    anchor_left: false,
                    anchor_right: false,
                }),
            },
    {
        if is_regex {
            match regex_check(pattern) {
                Some(e) => {
                    let mut m = String::new();
                    push_str(&mut m, "Invalid regex '");
                    push_str(&mut m, pattern);
                    push_str(&mut m, "': ");
                    push_str(&mut m, e.as_str());
                    return Err(PrivoxyError::Filter(m));
                },
                None => {},
            }
        }
        Ok(UrlPattern { pattern: own(pattern), is_regex, anchor_left: false, anchor_right: false })
    }

    pub fn matches(&self, url: &str) -> (r: bool)
        ensures
            r == url_pattern_matches(self@, url@),
    {
        if self.is_regex {
            match regex_check(self.pattern.as_str()) {
                None => regex_is_match(self.pattern.as_str(), url),
                Some(_) => false,
            }
        } else {
            self.pattern_match(self.pattern.as_str(), url)
        }
    }

    fn pattern_match(&self, pattern: &str, text: &str) -> (r: bool)
        ensures
            r == wildcard_pattern_match(pattern@, text@, self.anchor_left, self.anchor_right),
    {
        if str_eq(pattern, "*") {
            return true;
        }
        let pv = chars_of(pattern);
        let parts = split_char_exec(&pv, '*');
        let ghost ps = views(parts@);
        if parts.len() == 1 {
            return str_eq(pattern, text);
        }
        let tv = chars_of(text);
        let mut pos: usize = 0;
        let mut i: usize = 0;
        while i < parts.len()
            invariant
                i <= parts.len(),
                ps == views(parts@),
                ps == split_char(pattern@, '*'),
                pattern@ != "*"@,
                ps.len() != 1,
                tv@ == text@,
                pos <= tv.len(),
                pm_state(ps, i as int, self.anchor_left, self.anchor_right, text@) == Some(pos as int),
            decreases parts.len() - i,
        {
            let part = &parts[i];
            assert(part@ == ps[i as int]);
            if part.len() == 0 {
            } else if i == 0 && self.anchor_left {
                if !starts_with_exec(&tv, part) {
                    proof {
                        lemma_pm_none(ps, i as int + 1, self.anchor_left, self.anchor_right, text@);
                    }
                    return false;
                }
                pos = part.len();
            } else if i == parts.len() - 1 && self.anchor_right && parts[i - 1].len() > 0 {
                assert(parts@[i - 1]@ == ps[i - 1]);
                let tail = slice_chars(&tv, pos, tv.len());
                if !ends_with_exec(&tail, part) {
                    proof {
                        lemma_pm_none(ps, i as int + 1, self.anchor_left, self.anchor_right, text@);
                    }
                    return false;
                }
            } else {
                let tail = slice_chars(&tv, pos, tv.len());
                match find_exec(&tail, part) {
                    Some(q) => {
                        pos = pos + q + part.len();
                    },
                    None => {
                        proof {
                            lemma_pm_none(ps, i as int + 1, self.anchor_left, self.anchor_right, text@);
                        }
                        return false;
                    },
                }
            }
            i += 1;
        }
        true
    }
}

proof fn lemma_pm_none(ps: Seq<Seq<char>>, k: int, left: bool, right: bool, text: Seq<char>)
    requires
        0 <= k <= ps.len(),
        pm_state(ps, k, left, right, text) is None,
    ensures
        pm_state(ps, ps.len() as int, left, right, text) is None,
    decreases ps.len() - k,
{
    if k < ps.len() {
        lemma_pm_none(ps, k + 1, left, right, text);
    }
}

pub open spec fn patterns_view(p: Seq<UrlPattern>) -> Seq<UrlPatternModel> {
    p.map_values(|x: UrlPattern| x@)
}

/// Whether any of the patterns matches the URL.
pub open spec fn any_pattern_matches(p: Seq<UrlPatternModel>, url: Seq<char>) -> bool {
    exists|i: int| 0 <= i < p.len() && url_pattern_matches(#[trigger] p[i], url)
}

fn any_matches(patterns: &Vec<UrlPattern>, url: &str) -> (r: bool)
    ensures
        r == any_pattern_matches(patterns_view(patterns@), url@),
{
    let mut i: usize = 0;
    while i < patterns.len()
        invariant
            i <= patterns.len(),
            forall|j: int| 0 <= j < i ==> !url_pattern_matches(#[trigger] patterns_view(patterns@)[j], url@),
        decreases patterns.len() - i,
    {
        if patterns[i].matches(url) {
            assert(url_pattern_matches(patterns_view(patterns@)[i as int], url@));
            return true;
        }
        i += 1;
    }
    false
}

fn copy_pattern(p: &UrlPattern) -> (r: UrlPattern)
    ensures
        r@ == p@,
{
    UrlPattern {
        pattern: p.pattern.clone(),
        is_regex: p.is_regex,
        anchor_left: p.anchor_left,
        anchor_right: p.anchor_right,
    }
}

fn copy_patterns(v: &Vec<UrlPattern>) -> (r: Vec<UrlPattern>)
    ensures
        patterns_view(r@) == patterns_view(v@),
{
    let mut r: Vec<UrlPattern> = Vec::new();
    let mut i: usize = 0;
    while i < v.len()
        invariant
            i <= v.len(),
            patterns_view(r@) == patterns_view(v@).take(i as int),
        decreases v.len() - i,
    {
        let ghost before = r@;
        r.push(copy_pattern(&v[i]));
        assert(patterns_view(r@) =~= patterns_view(before).push(v@[i as int]@));
        assert(patterns_view(v@).take(i as int + 1) =~= patterns_view(v@).take(i as int).push(v@[i as int]@));
        i += 1;
    }
    assert(patterns_view(v@).take(i as int) =~= patterns_view(v@));
    r
}

/// A named set of URL patterns and what to do with matching requests.
#[derive(Debug, Clone)]
pub struct Action {
    pub name: String,
    pub patterns: Vec<UrlPattern>,
    pub block: bool,
    pub redirect: Option<String>,
    pub filter: bool,
}

pub struct FilterActionModel {
    pub name: Seq<char>,
    pub patterns: Seq<UrlPatternModel>,
    pub block: bool,
    pub redirect: Option<Seq<char>>,
    pub filter: bool,
}

impl View for Action {
    type V = FilterActionModel;

    open spec fn view(&self) -> FilterActionModel {
        FilterActionModel {
            name: self.name@,
            patterns: patterns_view(self.patterns@),
            block: self.block,
            redirect: opt_view(self.redirect),
            filter: self.filter,
        }
    }
}

impl Action {
    pub fn new(name: &str) -> (r: Self)
        ensures
            r@ == (FilterActionModel {
                name: name@,
                patterns: Seq::empty(),
                block: false,
                redirect: None,
                filter: false,
            }),
    {
        let r = Action { name: own(name), patterns: Vec::new(), block: false, redirect: None, filter: false };
        assert(patterns_view(r.patterns@) =~= Seq::<UrlPatternModel>::empty());
        r
    }

    pub fn add_pattern(&mut self, pattern: UrlPattern)
        ensures
            final(self)@ == (FilterActionModel { patterns: old(self)@.patterns.push(pattern@), ..old(self)@ }),
    {
        let ghost before = self.patterns@;
        let ghost pv = pattern@;
        self.patterns.push(pattern);
        assert(patterns_view(self.patterns@) =~= patterns_view(before).push(pv));
    }

    /// Whether any of the action's patterns matches the URL.
    pub fn matches(&self, url: &str) -> (r: bool)
        ensures
            r == any_pattern_matches(self@.patterns, url@),
    {
        any_matches(&self.patterns, url)
    }
}

fn copy_filter_action(a: &Action) -> (r: Action)
    ensures
        r@ == a@,
{
    Action {
        name: a.name.clone(),
        patterns: copy_patterns(&a.patterns),
        block: a.block,
        redirect: match &a.redirect {
            Some(s) => Some(s.clone()),
            None => None,
        },
        filter: a.filter,
    }
}

/// URL patterns whose matches are blocked.
#[derive(Debug, Clone)]
pub struct BlockList {
    pub patterns: Vec<UrlPattern>,
}

impl BlockList {
    pub fn new() -> (r: Self)
        ensures
            r.patterns@.len() == 0,
    {
        BlockList { patterns: Vec::new() }
    }

    pub fn add_pattern(&mut self, pattern: UrlPattern)
        ensures
            final(self).patterns@ == old(self).patterns@.push(pattern),
    {
        self.patterns.push(pattern);
    }

    /// Whether any pattern matches the URL.
    pub fn is_blocked(&self, url: &str) -> (r: bool)
        ensures
            r == any_pattern_matches(patterns_view(self.patterns@), url@),
    {
        any_matches(&self.patterns, url)
    }

    /// Block lists are not read from files; this does nothing.
    pub fn load_from_file(&mut self, _path: &str) -> (r: PrivoxyResult<()>)
        ensures
            r is Ok,
            final(self).patterns@ == old(self).patterns@,
    {
        Ok(())
    }
}

// ---------------------------------------------------------------------------
// The filter engine

/// Filters by name, content rules, URL actions and the block list.
pub struct FilterEngine {
    rules: Vec<FilterRule>,
    filters: Vec<Filter>,
    actions: Vec<Action>,
    pub block_list: BlockList,
}

/// The first filter named `name`.
pub open spec fn filter_named(fs: Seq<FilterModel>, name: Seq<char>) -> Option<FilterModel>
    decreases fs.len(),
{
    if fs.len() == 0 {
        None
    } else if fs[0].name == name {
        Some(fs[0])
    } else {
        filter_named(fs.drop_first(), name)
    }
}

/// The text after the named filters of kind `t` ran in order; names of
/// no filter, or of one of another kind, are skipped.
pub open spec fn filters_run(fs: Seq<FilterModel>, names: Seq<Seq<char>>, t: FilterType, content: Seq<char>) -> Seq<char>
    decreases names.len(),
{
    if names.len() == 0 {
        content
    } else {
        let prev = filters_run(fs, names.drop_last(), t, content);
        match filter_named(fs, names.last()) {
            Some(f) => if f.filter_type == t {
                filter_output(f, prev, None)
            } else {
                prev
            },
            None => prev,
        }
    }
}

/// The tags the named taggers of kind `t` give for a text: each tagger's
/// output where it changed the text and is not empty.
pub open spec fn tags_of(fs: Seq<FilterModel>, names: Seq<Seq<char>>, t: FilterType, text: Seq<char>) -> Seq<Seq<char>>
    decreases names.len(),
{
    if names.len() == 0 {
        Seq::empty()
    } else {
        let prev = tags_of(fs, names.drop_last(), t, text);
        match filter_named(fs, names.last()) {
            Some(f) => {
                let out = filter_output(f, text, None);
                if f.filter_type == t && out != text && out.len() > 0 {
                    prev.push(out)
                } else {
                    prev
                }
            },
            None => prev,
        }
    }
}

/// The URL a request is filed under: its first `Host` header, then its path.
pub open spec fn request_url(r: crate::http::RequestModel) -> Seq<char> {
    match first_named(r.headers, "Host"@) {
        Some(h) => h + r.path,
        None => r.path,
    }
}

impl FilterEngine {
    pub fn new() -> (r: Self)
        ensures
            r.filters_model().len() == 0 && r.rules_seq().len() == 0 && r.actions_seq().len() == 0,
            r.block_patterns().len() == 0,
    {
        FilterEngine { rules: Vec::new(), filters: Vec::new(), actions: Vec::new(), block_list: BlockList::new() }
    }

    /// The engine's filters.
    pub closed spec fn filters_model(&self) -> Seq<FilterModel> {
        filters_view(self.filters@)
    }

    /// The engine's URL actions.
    pub closed spec fn actions_seq(&self) -> Seq<Action> {
        self.actions@
    }

    pub closed spec fn actions_model(&self) -> Seq<FilterActionModel> {
        self.actions@.map_values(|a: Action| a@)
    }

    /// The engine's block patterns.
    pub closed spec fn block_patterns(&self) -> Seq<UrlPattern> {
        self.block_list.patterns@
    }

    /// The engine's content rules.
    pub closed spec fn rules_seq(&self) -> Seq<FilterRule> {
        self.rules@
    }

    pub fn add_rule(&mut self, rule: FilterRule)
        ensures
            final(self).rules_seq() == old(self).rules_seq().push(rule),
            final(self).filters_model() == old(self).filters_model(),
            final(self).actions_seq() == old(self).actions_seq(),
    {
        self.rules.push(rule);
    }

    pub fn add_filter(&mut self, filter: Filter)
        ensures
            final(self).filters_model() == old(self).filters_model().push(filter@),
            final(self).rules_seq() == old(self).rules_seq(),
            final(self).actions_seq() == old(self).actions_seq(),
    {
        let ghost before = self.filters@;
        let ghost fv = filter@;
        self.filters.push(filter);
        assert(filters_view(self.filters@) =~= filters_view(before).push(fv));
    }

    pub fn add_action(&mut self, action: Action)
        ensures
            final(self).actions_seq() == old(self).actions_seq().push(action),
            final(self).filters_model() == old(self).filters_model(),
            final(self).rules_seq() == old(self).rules_seq(),
    {
        self.actions.push(action);
    }

    /// The first filter named `name`.
    pub fn get_filter(&self, name: &str) -> (r: Option<&Filter>)
        ensures
            match filter_named(self.filters_model(), name@) {
                Some(f) => r matches Some(x) && x@ == f,
                None => r is None,
            },
    {
        let ghost fs = filters_view(self.filters@);
        let mut i: usize = 0;
        assert(fs.skip(0) =~= fs);
        while i < self.filters.len()
            invariant
                i <= self.filters.len(),
                fs == filters_view(self.filters@),
                filter_named(fs, name@) == filter_named(fs.skip(i as int), name@),
            decreases self.filters.len() - i,
        {
            assert(fs.skip(i as int)[0] == self.filters@[i as int]@);
            assert(fs.skip(i as int).drop_first() =~= fs.skip(i as int + 1));
            if str_eq(self.filters[i].name.as_str(), name) {
                return Some(&self.filters[i]);
            }
            i += 1;
        }
        None
    }

    /// The named filter applied to `content`; an unknown name changes nothing.
    pub fn apply_filter(&self, filter_name: &str, content: &str) -> (r: String)
        ensures
            r@ == match filter_named(self.filters_model(), filter_name@) {
                Some(f) => filter_output(f, content@, None),
                None => content@,
            },
    {
        match self.get_filter(filter_name) {
            Some(f) => f.apply(content),
            None => own(content),
        }
    }

    fn run_filters(&self, content: &str, names: &[String], t: FilterType) -> (r: String)
        ensures
            r@ == filters_run(self.filters_model(), str_views(names@), t, content@),
    {
        let ghost ns = str_views(names@);
        let mut result = own(content);
        let mut i: usize = 0;
        while i < names.len()
            invariant
                i <= names.len(),
                ns == str_views(names@),
                result@ == filters_run(self.filters_model(), ns.take(i as int), t, content@),
            decreases names.len() - i,
        {
            proof {
                assert(ns.take(i as int + 1).drop_last() =~= ns.take(i as int));
                assert(ns.take(i as int + 1).last() == names@[i as int]@);
            }
            match self.get_filter(names[i].as_str()) {
                Some(f) => {
                    if f.filter_type == t {
                        result = f.apply(result.as_str());
                    }
                },
                None => {},
            }
            i += 1;
        }
        assert(ns.take(i as int) =~= ns);
        result
    }

    /// Runs the named content filters in order.
    pub fn execute_content_filters(&self, content: &str, filter_names: &[String]) -> (r: String)
        ensures
            r@ == filters_run(self.filters_model(), str_views(filter_names@), FilterType::Content, content@),
    {
        self.run_filters(content, filter_names, FilterType::Content)
    }

    /// Runs the named client body filters in order.
    pub fn execute_client_body_filters(&self, body: &str, filter_names: &[String]) -> (r: String)
        ensures
            r@ == filters_run(self.filters_model(), str_views(filter_names@), FilterType::ClientBody, body@),
    {
        self.run_filters(body, filter_names, FilterType::ClientBody)
    }

    /// Runs the named client header filters in order.
    pub fn filter_client_header(&self, header: &str, filter_names: &[String]) -> (r: String)
        ensures
            r@ == filters_run(self.filters_model(), str_views(filter_names@), FilterType::ClientHeader, header@),
    {
        self.run_filters(header, filter_names, FilterType::ClientHeader)
    }

    /// Runs the named server header filters in order.
    pub fn filter_server_header(&self, header: &str, filter_names: &[String]) -> (r: String)
        ensures
            r@ == filters_run(self.filters_model(), str_views(filter_names@), FilterType::ServerHeader, header@),
    {
        self.run_filters(header, filter_names, FilterType::ServerHeader)
    }

    /// The tags the named taggers of kind `t` give for `text`.
    pub fn execute_header_taggers(&self, header: &str, tagger_names: &[String], tagger_type: FilterType) -> (r: Vec<String>)
        ensures
            str_views(r@) == tags_of(self.filters_model(), str_views(tagger_names@), tagger_type, header@),
    {
        let ghost ns = str_views(tagger_names@);
        let mut tags: Vec<String> = Vec::new();
        let mut i: usize = 0;
        assert(str_views(tags@) =~= Seq::<Seq<char>>::empty());
        while i < tagger_names.len()
            invariant
                i <= tagger_names.len(),
                ns == str_views(tagger_names@),
                str_views(tags@) == tags_of(self.filters_model(), ns.take(i as int), tagger_type, header@),
            decreases tagger_names.len() - i,
        {
            proof {
                assert(ns.take(i as int + 1).drop_last() =~= ns.take(i as int));
                assert(ns.take(i as int + 1).last() == tagger_names@[i as int]@);
            }
            match self.get_filter(tagger_names[i].as_str()) {
                Some(tagger) => {
                    let out = tagger.apply(header);
                    if tagger.filter_type == tagger_type && !str_eq(out.as_str(), header) && chars_of(out.as_str()).len() > 0 {
                        let ghost before = tags@;
                        let ghost ov = out@;
                        tags.push(out);
                        assert(str_views(tags@) =~= str_views(before).push(ov));
                    }
                },
                None => {},
            }
            i += 1;
        }
        assert(ns.take(i as int) =~= ns);
        tags
    }

    /// The tags the named client body taggers give for `body`.
    pub fn execute_client_body_taggers(&self, body: &str, tagger_names: &[String]) -> (r: Vec<String>)
        ensures
            str_views(r@) == tags_of(self.filters_model(), str_views(tagger_names@), FilterType::ClientBodyTagger, body@),
    {
        self.execute_header_taggers(body, tagger_names, FilterType::ClientBodyTagger)
    }

    /// Stops a GIF's animation (see `deanimate_gif`).
    pub fn deanimate_gif(&self, data: &[u8], mode: &str) -> (r: Option<Vec<u8>>)
        requires
            data@.len() <= usize::MAX / 4,
        ensures
            match (r, crate::deanimate::deanimated(data@, mode@ == "first"@)) {
                (Some(v), Some(w)) => v@ == w,
                (None, None) => true,
                _ => false,
            },
    {
        crate::deanimate::deanimate_gif(data, mode)
    }

    pub fn is_blocked(&self, url: &str) -> (r: bool)
        ensures
            r == any_pattern_matches(patterns_view(self.block_patterns()), url@),
    {
        self.block_list.is_blocked(url)
    }

    pub fn is_url_blocked(&self, url: &str) -> (r: bool)
        ensures
            r == any_pattern_matches(patterns_view(self.block_patterns()), url@),
    {
        self.block_list.is_blocked(url)
    }

    /// The text of the first block pattern that matches the URL.
    pub fn get_block_reason(&self, url: &str) -> (r: Option<&str>)
        ensures
            match r {
                Some(p) => exists|i: int|
                    0 <= i < self.block_patterns().len() && self.block_patterns()[i].pattern@
                        == p@ && url_pattern_matches(self.block_patterns()[i]@, url@)
                        && forall|j: int|
                        0 <= j < i ==> !url_pattern_matches(
                            #[trigger] self.block_patterns()[j]@,
                            url@,
                        ),
                None => forall|j: int|
                    0 <= j < self.block_patterns().len() ==> !url_pattern_matches(
                        #[trigger] self.block_patterns()[j]@,
                        url@,
                    ),
            },
    {
        let mut i: usize = 0;
        while i < self.block_list.patterns.len()
            invariant
                i <= self.block_list.patterns.len(),
                forall|j: int| 0 <= j < i ==> !url_pattern_matches(#[trigger] self.block_list.patterns@[j]@, url@),
            decreases self.block_list.patterns.len() - i,
        {
            if self.block_list.patterns[i].matches(url) {
                let r = self.block_list.patterns[i].pattern.as_str();
                assert(self.block_patterns() == self.block_list.patterns@);
                assert(self.block_patterns()[i as int].pattern@ == r@ && url_pattern_matches(self.block_patterns()[i as int]@, url@));
                return Some(r);
            }
            i += 1;
        }
        None
    }

    /// A copy of the first action whose patterns match the request's URL.
    pub fn filter_request(&self, request: &HttpRequest) -> (r: Option<Action>)
        ensures
            match r {
                Some(a) => exists|i: int|
                    0 <= i < self.actions_seq().len() && a@ == self.actions_seq()[i]@ && any_pattern_matches(
                        self.actions_seq()[i]@.patterns,
                        request_url(request@),
                    ) && forall|j: int|
                        0 <= j < i ==> !any_pattern_matches(
                            (#[trigger] self.actions_seq()[j])@.patterns,
                            request_url(request@),
                        ),
                None => forall|j: int|
                    0 <= j < self.actions_seq().len() ==> !any_pattern_matches(
                        (#[trigger] self.actions_seq()[j])@.patterns,
                        request_url(request@),
                    ),
            },
    {
        let url = request_url_exec(request);
        let mut i: usize = 0;
        while i < self.actions.len()
            invariant
                i <= self.actions.len(),
                url@ == request_url(request@),
                forall|j: int| 0 <= j < i ==> !any_pattern_matches((#[trigger] self.actions@[j])@.patterns, url@),
            decreases self.actions.len() - i,
        {
            if self.actions[i].matches(url.as_str()) {
                return Some(copy_filter_action(&self.actions[i]));
            }
            i += 1;
        }
        None
    }

    /// The actions whose patterns match the request's URL, in order.
    pub fn apply_url_actions(&self, request: &HttpRequest) -> (r: Vec<&Action>)
        ensures
            r@.map_values(|a: &Action| a@) == self.actions_model().filter(
                |a: FilterActionModel| any_pattern_matches(a.patterns, request_url(request@)),
            ),
    {
        let url = request_url_exec(request);
        let ghost am = self.actions_model();
        let ghost f = |a: FilterActionModel| any_pattern_matches(a.patterns, request_url(request@));
        let mut r: Vec<&Action> = Vec::new();
        let mut i: usize = 0;
        assert(am.take(0) =~= Seq::<FilterActionModel>::empty());
        assert(r@.map_values(|a: &Action| a@) =~= Seq::<FilterActionModel>::empty());
        while i < self.actions.len()
            invariant
                i <= self.actions.len(),
                am == self.actions_model(),
                url@ == request_url(request@),
                f == (|a: FilterActionModel| any_pattern_matches(a.patterns, request_url(request@))),
                r@.map_values(|a: &Action| a@) == am.take(i as int).filter(f),
            decreases self.actions.len() - i,
        {
            proof {
                assert(am.take(i as int + 1).drop_last() =~= am.take(i as int));
                assert(am.take(i as int + 1).last() == self.actions@[i as int]@);
                am.take(i as int).lemma_filter_push(am[i as int], f);
                assert(am.take(i as int).push(am[i as int]) =~= am.take(i as int + 1));
            }
            let ghost before = r@;
            if self.actions[i].matches(url.as_str()) {
                r.push(&self.actions[i]);
                assert(r@.map_values(|a: &Action| a@) =~= before.map_values(|a: &Action| a@).push(self.actions@[i as int]@));
            }
            i += 1;
        }
        assert(am.take(i as int) =~= am);
        r
    }

    /// Runs the enabled content rules in order over a text response body
    /// that is UTF-8, and sets `Content-Length`; other bodies are left.
    pub fn filter_response(&self, response: &mut HttpResponse)
        ensures
            ({
                let is_text = match first_named(old(response)@.headers, "Content-Type"@) {
                    Some(ct) => starts_with(ct, "text/"@),
                    None => false,
                };
                if is_text && vstd::utf8::valid_utf8(old(response)@.body) {
                    let out = vstd::utf8::encode_utf8(
                        rules_output(self.rules_seq(), vstd::utf8::decode_utf8(old(response)@.body)),
                    );
                    final(response)@ == (ResponseModel {
                        body: out,
                        headers: without_named(old(response)@.headers, "Content-Length"@).push(
                            ("Content-Length"@, decimal(out.len())),
                        ),
                        ..old(response)@
                    })
                } else {
                    final(response)@ == old(response)@
                }
            }),
    {
        let is_text = match response.get_header("Content-Type") {
            Some(ct) => str_starts_with(ct.as_str(), "text/"),
            None => false,
        };
        if !is_text {
            return;
        }
        let decoded = crate::bindings::string_from_utf8(response.body.clone());
        match decoded {
            None => {},
            Some(body_str) => {
                let filtered = self.run_rules(body_str.as_str());
                let bytes = vstd::slice::slice_to_vec(filtered.as_str().as_bytes());
                response.set_body(bytes);
            },
        }
    }

    fn run_rules(&self, content: &str) -> (r: String)
        ensures
            r@ == rules_output(self.rules_seq(), content@),
    {
        let mut result = own(content);
        let mut i: usize = 0;
        while i < self.rules.len()
            invariant
                i <= self.rules.len(),
                result@ == rules_output(self.rules@.take(i as int), content@),
            decreases self.rules.len() - i,
        {
            proof {
                assert(self.rules@.take(i as int + 1).drop_last() =~= self.rules@.take(i as int));
            }
            if self.rules[i].enabled {
                result = self.rules[i].apply(result.as_str());
            }
            i += 1;
        }
        assert(self.rules@.take(i as int) =~= self.rules@);
        result
    }

    /// Whether a content type is one whose bodies are filtered: text, or
    /// anything naming HTML, JavaScript or JSON.
    pub fn content_requires_filtering(&self, content_type: Option<&str>) -> (r: bool)
        ensures
            r == match content_type {
                Some(ct) => starts_with(ct@, "text/"@) || contains(ct@, "html"@) || contains(
                    ct@,
                    "javascript"@,
                ) || contains(ct@, "json"@),
                None => false,
            },
    {
        match content_type {
            Some(ct) => str_starts_with(ct, "text/") || str_contains(ct, "html") || str_contains(ct, "javascript")
                || str_contains(ct, "json"),
            None => false,
        }
    }

    pub fn content_filters_enabled(&self, action: &Action) -> (r: bool)
        ensures
            r == action.filter,
    {
        action.filter
    }

    pub fn client_body_filters_enabled(&self, action: &Action) -> (r: bool)
        ensures
            r == action.filter,
    {
        action.filter
    }

    pub fn client_body_taggers_enabled(&self, action: &Action) -> (r: bool)
        ensures
            r == action.filter,
    {
        action.filter
    }
}

/// The text after the enabled rules ran in order.
pub open spec fn rules_output(rules: Seq<FilterRule>, t: Seq<char>) -> Seq<char>
    decreases rules.len(),
{
    if rules.len() == 0 {
        t
    } else {
        let prev = rules_output(rules.drop_last(), t);
        let r = rules.last();
        if r.enabled {
            replaced_or_kept(r.pattern@, prev, r.replacement@)
        } else {
            prev
        }
    }
}

fn request_url_exec(request: &HttpRequest) -> (r: String)
    ensures
        r@ == request_url(request@),
{
    let mut url = String::new();
    match request.get_header("Host") {
        Some(h) => push_str(&mut url, h.as_str()),
        None => {},
    }
    push_str(&mut url, request.path.as_str());
    url
}

} // verus!
