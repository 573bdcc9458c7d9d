//! The page templates of the web interface: `@name@` placeholders,
//! `@if-name-then@…@else-not-name@…@endif-name@` choices and
//! `@if-namestart@…@if-name-end@` blocks.

use vstd::prelude::*;
use crate::text::{
    chars_of, from_chars, slice_chars, occurs_at, occurs_at_exec, find_from, find_from_exec, replace,
    replace_exec, push_chars, split_char, split_char_exec, views, starts_with, starts_with_exec, trim, trim_vec,
};

verus! {

// ---------------------------------------------------------------------------
// Symbols

/// The symbols of a page: names and their values, looked up by the first
/// entry with the name.
pub open spec fn symbols_view(s: Seq<(String, String)>) -> Seq<(Seq<char>, Seq<char>)> {
    s.map_values(|e: (String, String)| (e.0@, e.1@))
}

/// The value of the first symbol named `name`.
pub open spec fn symbol_value(syms: Seq<(Seq<char>, Seq<char>)>, name: Seq<char>) -> Option<Seq<char>>
    decreases syms.len(),
{
    if syms.len() == 0 {
        None
    } else if syms[0].0 == name {
        Some(syms[0].1)
    } else {
        symbol_value(syms.drop_first(), name)
    }
}

/// A condition holds where its symbol is set to a non-empty value.
pub open spec fn symbol_set(syms: Seq<(Seq<char>, Seq<char>)>, name: Seq<char>) -> bool {
    symbol_value(syms, name) matches Some(v) && v.len() > 0
}

fn symbol_set_exec(syms: &Vec<(String, String)>, name: &[char]) -> (r: bool)
    ensures
        r == symbol_set(symbols_view(syms@), name@),
{
    let ghost sv = symbols_view(syms@);
    let mut i: usize = 0;
    assert(sv.subrange(0, sv.len() as int) =~= sv);
    while i < syms.len()
        invariant
            i <= syms@.len(),
            sv == symbols_view(syms@),
            sv.len() == syms@.len(),
            symbol_value(sv, name@) == symbol_value(sv.subrange(i as int, sv.len() as int), name@),
        decreases syms.len() - i,
    {
        let ghost rest = sv.subrange(i as int, sv.len() as int);
        assert(rest[0] == (syms@[i as int].0@, syms@[i as int].1@));
        let k = chars_of(syms[i].0.as_str());
        if crate::text::seq_eq(k.as_slice(), name) {
            let v = chars_of(syms[i].1.as_str());
            return v.len() > 0;
        }
        assert(rest.drop_first() =~= sv.subrange(i + 1, sv.len() as int));
        i += 1;
    }
    false
}

// ---------------------------------------------------------------------------
// Markers

/// The end of the shortest non-empty stretch from the position before `e`
/// that holds no line break and is followed by `suf` (a lazy `.+?`).
pub open spec fn lazy_end(t: Seq<char>, e: int, suf: Seq<char>) -> Option<int>
    decreases t.len() + 1 - e,
{
    if e < 1 || e > t.len() {
        None
    } else if t[e - 1] == '\n' {
        None
    } else if occurs_at(t, suf, e) {
        Some(e)
    } else {
        lazy_end(t, e + 1, suf)
    }
}

/// The leftmost marker `pre` + name + `suf` at or after `s`, the name being
/// non-empty, on one line and as short as possible: its start and the end
/// of its name.
pub open spec fn marker_from(t: Seq<char>, pre: Seq<char>, suf: Seq<char>, s: int) -> Option<(int, int)>
    decreases t.len() + 1 - s,
{
    if s < 0 || s > t.len() {
        None
    } else if occurs_at(t, pre, s) && lazy_end(t, s + pre.len() + 1, suf) is Some {
        Some((s, lazy_end(t, s + pre.len() + 1, suf)->0))
    } else {
        marker_from(t, pre, suf, s + 1)
    }
}

fn lazy_end_exec(v: &Vec<char>, e0: usize, suf: &Vec<char>) -> (r: Option<usize>)
    requires
        e0 >= 1,
    ensures
        match lazy_end(v@, e0 as int, suf@) {
            Some(x) => (r matches Some(y) && y == x && e0 <= x && x + suf@.len() <= v@.len()),
            None => r is None,
        },
{
    let mut e = e0;
    while e <= v.len()
        invariant
            e0 <= e,
            e >= 1,
            lazy_end(v@, e0 as int, suf@) == lazy_end(v@, e as int, suf@),
        decreases v.len() + 1 - e,
    {
        if v[e - 1] == '\n' {
            return None;
        }
        if occurs_at_exec(v.as_slice(), suf.as_slice(), e) {
            return Some(e);
        }
        if e == v.len() {
            assert(lazy_end(v@, e + 1, suf@) is None);
            return None;
        }
        e += 1;
    }
    None
}

fn marker_from_exec(v: &Vec<char>, pre: &Vec<char>, suf: &Vec<char>, s0: usize) -> (r: Option<(usize, usize)>)
    ensures
        match marker_from(v@, pre@, suf@, s0 as int) {
            Some(m) => (r matches Some(y) && y.0 == m.0 && y.1 == m.1 && s0 <= m.0 && m.0 + pre@.len() < m.1
                && m.1 + suf@.len() <= v@.len()),
            None => r is None,
        },
{
    let mut s = s0;
    while s <= v.len()
        invariant
            s0 <= s,
            marker_from(v@, pre@, suf@, s0 as int) == marker_from(v@, pre@, suf@, s as int),
        decreases v.len() + 1 - s,
    {
        if occurs_at_exec(v.as_slice(), pre.as_slice(), s) && s + pre.len() < v.len() {
            let e = lazy_end_exec(v, s + pre.len() + 1, suf);
            match e {
                Some(g) => {
                    return Some((s, g));
                },
                None => {},
            }
        }
        if s == v.len() {
            assert(marker_from(v@, pre@, suf@, s + 1) is None);
            return None;
        }
        s += 1;
    }
    None
}

/// The text with every marker `pre` + name + `suf` removed, taken from
/// the left without overlap.
pub open spec fn stripped(t: Seq<char>, pre: Seq<char>, suf: Seq<char>) -> Seq<char>
    decreases t.len(),
{
    match marker_from(t, pre, suf, 0) {
        Some(m) => if 0 <= m.0 <= m.1 && 0 < m.1 + suf.len() <= t.len() {
            t.subrange(0, m.0) + stripped(t.subrange(m.1 + suf.len(), t.len() as int), pre, suf)
        } else {
            t
        },
        None => t,
    }
}

fn stripped_exec(t: &Vec<char>, pre: &Vec<char>, suf: &Vec<char>) -> (r: Vec<char>)
    ensures
        r@ == stripped(t@, pre@, suf@),
{
    let mut out: Vec<char> = Vec::new();
    let mut rest: Vec<char> = t.clone();
    assert(rest@ == t@);
    while rest.len() > 0
        invariant
            out@ + stripped(rest@, pre@, suf@) == stripped(t@, pre@, suf@),
        decreases rest.len(),
    {
        match marker_from_exec(&rest, pre, suf, 0) {
            Some((a, g)) => {
                let head = slice_chars(rest.as_slice(), 0, a);
                let tail = slice_chars(rest.as_slice(), g + suf.len(), rest.len());
                let mut k: usize = 0;
                let ghost out0 = out@;
                while k < head.len()
                    invariant
                        k <= head@.len(),
                        out@ == out0 + head@.subrange(0, k as int),
                    decreases head.len() - k,
                {
                    out.push(head[k]);
                    assert(out@ =~= out0 + head@.subrange(0, k + 1));
                    k += 1;
                }
                assert(head@.subrange(0, head@.len() as int) =~= head@);
                assert(out0 + stripped(rest@, pre@, suf@) =~= out@ + stripped(tail@, pre@, suf@));
                rest = tail;
            },
            None => {
                let mut k: usize = 0;
                let ghost out0 = out@;
                while k < rest.len()
                    invariant
                        k <= rest@.len(),
                        out@ == out0 + rest@.subrange(0, k as int),
                    decreases rest.len() - k,
                {
                    out.push(rest[k]);
                    assert(out@ =~= out0 + rest@.subrange(0, k + 1));
                    k += 1;
                }
                assert(rest@.subrange(0, rest@.len() as int) =~= rest@);
                return out;
            },
        }
    }
    assert(stripped(rest@, pre@, suf@) == rest@) by {
        assert(marker_from(rest@, pre@, suf@, 0) == marker_from(rest@, pre@, suf@, 1));
        assert(marker_from(rest@, pre@, suf@, 1) is None);
    }
    assert(out@ + rest@ =~= out@);
    out
}

// ---------------------------------------------------------------------------
// Choices and blocks

/// One `@if-name-then@A@else-not-name@B@endif-name@` choice, the first
/// that has both closing markers, replaced by `A` where `name` is set and
/// by `B` otherwise.  `None` where the first `@if-…-then@` lacks them.
pub open spec fn choice_step(t: Seq<char>, syms: Seq<(Seq<char>, Seq<char>)>) -> Option<Seq<char>> {
    match marker_from(t, "@if-"@, "-then@"@, 0) {
        None => None,
        Some(m) => {
            let name = t.subrange(m.0 + 4, m.1);
            let then_end = m.1 + 6;
            let else_marker = "@else-not-"@ + name + "@"@;
            match find_from(t, else_marker, then_end) {
                None => None,
                Some(else_at) => {
                    let else_end = else_at + else_marker.len();
                    let endif_marker = "@endif-"@ + name + "@"@;
                    match find_from(t, endif_marker, else_end) {
                        None => None,
                        Some(endif_at) => {
                            let chosen = if symbol_set(syms, name) {
                                t.subrange(then_end, else_at)
                            } else {
                                t.subrange(else_end, endif_at)
                            };
                            Some(t.subrange(0, m.0) + chosen + t.subrange(
                                endif_at + endif_marker.len(),
                                t.len() as int,
                            ))
                        },
                    }
                },
            }
        },
    }
}

/// All choices resolved, one after the other.
pub open spec fn choices_resolved(t: Seq<char>, syms: Seq<(Seq<char>, Seq<char>)>) -> Seq<char>
    decreases t.len(),
{
    match choice_step(t, syms) {
        Some(n) => if n.len() < t.len() {
            choices_resolved(n, syms)
        } else {
            t
        },
        None => t,
    }
}

/// One `@if-namestart@A@if-name-end@` block, the first whose end marker
/// follows it, replaced by `A` where `name` is set and removed otherwise.
pub open spec fn block_step(t: Seq<char>, syms: Seq<(Seq<char>, Seq<char>)>) -> Option<Seq<char>> {
    match marker_from(t, "@if-"@, "start@"@, 0) {
        None => None,
        Some(m) => {
            let name = t.subrange(m.0 + 4, m.1);
            let start_end = m.1 + 6;
            let end_marker = "@if-"@ + name + "-end@"@;
            match find_from(t, end_marker, start_end) {
                None => None,
                Some(end_at) => {
                    let kept = if symbol_set(syms, name) {
                        t.subrange(start_end, end_at)
                    } else {
                        Seq::empty()
                    };
                    Some(t.subrange(0, m.0) + kept + t.subrange(end_at + end_marker.len(), t.len() as int))
                },
            }
        },
    }
}

/// All blocks resolved, one after the other.
pub open spec fn blocks_resolved(t: Seq<char>, syms: Seq<(Seq<char>, Seq<char>)>) -> Seq<char>
    decreases t.len(),
{
    match block_step(t, syms) {
        Some(n) => if n.len() < t.len() {
            blocks_resolved(n, syms)
        } else {
            t
        },
        None => t,
    }
}

fn literal(s: &str) -> (r: Vec<char>)
    ensures
        r@ == s@,
{
    chars_of(s)
}

fn concat3(a: &[char], b: &[char], c: &[char]) -> (r: Vec<char>)
    ensures
        r@ == a@ + b@ + c@,
{
    let mut s = from_chars(a);
    push_chars(&mut s, b);
    push_chars(&mut s, c);
    chars_of(s.as_str())
}

fn choice_step_exec(t: &Vec<char>, syms: &Vec<(String, String)>) -> (r: Option<Vec<char>>)
    ensures
        match choice_step(t@, symbols_view(syms@)) {
            Some(n) => r matches Some(x) && x@ == n && n.len() < t@.len(),
            None => r is None,
        },
{
    let pre = literal("@if-");
    let suf = literal("-then@");
    proof {
        reveal_strlit("@if-");
        reveal_strlit("-then@");
    }
    assert(pre@.len() == 4);
    assert(suf@.len() == 6);
    match marker_from_exec(t, &pre, &suf, 0) {
        None => None,
        Some((s, g)) => {
            let name = slice_chars(t.as_slice(), s + 4, g);
            let _len = t.len();
            let then_end = g + suf.len();
            let else_marker = concat3(literal("@else-not-").as_slice(), name.as_slice(), literal("@").as_slice());
            match find_from_exec(t.as_slice(), else_marker.as_slice(), then_end) {
                None => None,
                Some(else_at) => {
                    let else_end = else_at + else_marker.len();
                    let endif_marker = concat3(literal("@endif-").as_slice(), name.as_slice(), literal("@").as_slice());
                    match find_from_exec(t.as_slice(), endif_marker.as_slice(), else_end) {
                        None => None,
                        Some(endif_at) => {
                            let chosen = if symbol_set_exec(syms, name.as_slice()) {
                                slice_chars(t.as_slice(), then_end, else_at)
                            } else {
                                slice_chars(t.as_slice(), else_end, endif_at)
                            };
                            let head = slice_chars(t.as_slice(), 0, s);
                            let tail = slice_chars(t.as_slice(), endif_at + endif_marker.len(), t.len());
                            let n = concat3(head.as_slice(), chosen.as_slice(), tail.as_slice());
                            Some(n)
                        },
                    }
                },
            }
        },
    }
}

fn block_step_exec(t: &Vec<char>, syms: &Vec<(String, String)>) -> (r: Option<Vec<char>>)
    ensures
        match block_step(t@, symbols_view(syms@)) {
            Some(n) => r matches Some(x) && x@ == n && n.len() < t@.len(),
            None => r is None,
        },
{
    let pre = literal("@if-");
    let suf = literal("start@");
    proof {
        reveal_strlit("@if-");
        reveal_strlit("start@");
    }
    assert(pre@.len() == 4);
    assert(suf@.len() == 6);
    match marker_from_exec(t, &pre, &suf, 0) {
        None => None,
        Some((s, g)) => {
            let name = slice_chars(t.as_slice(), s + 4, g);
            let _len = t.len();
            let start_end = g + suf.len();
            let end_marker = concat3(literal("@if-").as_slice(), name.as_slice(), literal("-end@").as_slice());
            match find_from_exec(t.as_slice(), end_marker.as_slice(), start_end) {
                None => None,
                Some(end_at) => {
                    let kept = if symbol_set_exec(syms, name.as_slice()) {
                        slice_chars(t.as_slice(), start_end, end_at)
                    } else {
                        Vec::new()
                    };
                    let head = slice_chars(t.as_slice(), 0, s);
                    let tail = slice_chars(t.as_slice(), end_at + end_marker.len(), t.len());
                    let n = concat3(head.as_slice(), kept.as_slice(), tail.as_slice());
                    Some(n)
                },
            }
        },
    }
}

fn choices_exec(t: &Vec<char>, syms: &Vec<(String, String)>) -> (r: Vec<char>)
    ensures
        r@ == choices_resolved(t@, symbols_view(syms@)),
{
    let mut cur = t.clone();
    assert(cur@ == t@);
    loop
        invariant
            choices_resolved(cur@, symbols_view(syms@)) == choices_resolved(t@, symbols_view(syms@)),
        decreases cur.len(),
    {
        match choice_step_exec(&cur, syms) {
            Some(n) => {
                cur = n;
            },
            None => {
                assert(choices_resolved(cur@, symbols_view(syms@)) == cur@);
                return cur;
            },
        }
    }
}

fn blocks_exec(t: &Vec<char>, syms: &Vec<(String, String)>) -> (r: Vec<char>)
    ensures
        r@ == blocks_resolved(t@, symbols_view(syms@)),
{
    let mut cur = t.clone();
    assert(cur@ == t@);
    loop
        invariant
            blocks_resolved(cur@, symbols_view(syms@)) == blocks_resolved(t@, symbols_view(syms@)),
        decreases cur.len(),
    {
        match block_step_exec(&cur, syms) {
            Some(n) => {
                cur = n;
            },
            None => {
                assert(blocks_resolved(cur@, symbols_view(syms@)) == cur@);
                return cur;
            },
        }
    }
}

// ---------------------------------------------------------------------------
// Rendering

/// Every `@name@` replaced by its value, one symbol after the other.
pub open spec fn substituted(t: Seq<char>, syms: Seq<(Seq<char>, Seq<char>)>) -> Seq<char>
    decreases syms.len(),
{
    if syms.len() == 0 {
        t
    } else {
        substituted(replace(t, "@"@ + syms[0].0 + "@"@, syms[0].1), syms.drop_first())
    }
}

/// The markers that are left once choices and blocks are resolved are
/// removed: `@if-…-then@`, `@else-not-…@`, `@endif-…@`, `@if-…-start@`
/// and `@if-…-end@`.
pub open spec fn markers_removed(t: Seq<char>) -> Seq<char> {
    let a = stripped(t, "@if-"@, "-then@"@);
    let b = stripped(a, "@else-not-"@, "@"@);
    let c = stripped(b, "@endif-"@, "@"@);
    let d = stripped(c, "@if-"@, "-start@"@);
    stripped(d, "@if-"@, "-end@"@)
}

/// A rendered page: choices, then blocks, then placeholders, then the
/// cleanup of leftover markers.
pub open spec fn rendered(t: Seq<char>, syms: Seq<(Seq<char>, Seq<char>)>) -> Seq<char> {
    markers_removed(substituted(blocks_resolved(choices_resolved(t, syms), syms), syms))
}

/// Resolves the `@if-name-then@…@else-not-name@…@endif-name@` choices.
pub fn handle_if_then_else(template: &str, symbols: &Vec<(String, String)>) -> (r: String)
    ensures
        r@ == choices_resolved(template@, symbols_view(symbols@)),
{
    let t = chars_of(template);
    let out = choices_exec(&t, symbols);
    from_chars(out.as_slice())
}

/// Resolves the `@if-namestart@…@if-name-end@` blocks.
pub fn handle_conditional_blocks(template: &str, symbols: &Vec<(String, String)>) -> (r: String)
    ensures
        r@ == blocks_resolved(template@, symbols_view(symbols@)),
{
    let t = chars_of(template);
    let out = blocks_exec(&t, symbols);
    from_chars(out.as_slice())
}

/// Removes the choice and block markers that are left.
pub fn remove_remaining_conditional_markers(template: &str) -> (r: String)
    ensures
        r@ == markers_removed(template@),
{
    let t = chars_of(template);
    let a = stripped_exec(&t, &literal("@if-"), &literal("-then@"));
    let b = stripped_exec(&a, &literal("@else-not-"), &literal("@"));
    let c = stripped_exec(&b, &literal("@endif-"), &literal("@"));
    let d = stripped_exec(&c, &literal("@if-"), &literal("-start@"));
    let e = stripped_exec(&d, &literal("@if-"), &literal("-end@"));
    from_chars(e.as_slice())
}

fn substitute_exec(t: Vec<char>, syms: &Vec<(String, String)>) -> (r: Vec<char>)
    ensures
        r@ == substituted(t@, symbols_view(syms@)),
{
    let ghost sv = symbols_view(syms@);
    let mut cur = t;
    let mut i: usize = 0;
    assert(sv.subrange(0, sv.len() as int) =~= sv);
    while i < syms.len()
        invariant
            i <= syms@.len(),
            sv == symbols_view(syms@),
            sv.len() == syms@.len(),
            substituted(t@, sv) == substituted(cur@, sv.subrange(i as int, sv.len() as int)),
        decreases syms.len() - i,
    {
        let ghost rest = sv.subrange(i as int, sv.len() as int);
        assert(rest[0] == (syms@[i as int].0@, syms@[i as int].1@));
        let name = chars_of(syms[i].0.as_str());
        let value = chars_of(syms[i].1.as_str());
        let at = literal("@");
        proof {
            reveal_strlit("@");
        }
        let placeholder = concat3(at.as_slice(), name.as_slice(), at.as_slice());
        cur = replace_exec(cur.as_slice(), placeholder.as_slice(), value.as_slice());
        assert(rest.drop_first() =~= sv.subrange(i + 1, sv.len() as int));
        i += 1;
    }
    cur
}

/// Fills in a template: choices, blocks, `@name@` placeholders, then the
/// removal of leftover markers.
pub fn render_template(template: &str, symbols: &Vec<(String, String)>) -> (r: String)
    ensures
        r@ == rendered(template@, symbols_view(symbols@)),
{
    let t = chars_of(template);
    let a = choices_exec(&t, symbols);
    let b = blocks_exec(&a, symbols);
    let c = substitute_exec(b, symbols);
    let s = from_chars(c.as_slice());
    remove_remaining_conditional_markers(s.as_str())
}


// ---------------------------------------------------------------------------
// Template files

/// A line of a text with a `\r` before its line end taken off.
pub open spec fn without_cr(l: Seq<char>) -> Seq<char> {
    if l.len() > 0 && l.last() == '\r' {
        l.drop_last()
    } else {
        l
    }
}

/// The lines of a text as `str::lines` gives them: split at `\n`, a `\r`
/// before a `\n` taken off, and no empty line after a final line end.
pub open spec fn text_lines(s: Seq<char>) -> Seq<Seq<char>> {
    let parts = split_char(s, '\n');
    let n = parts.len();
    let ended = Seq::new((n - 1) as nat, |i: int| without_cr(parts[i]));
    if parts[n - 1].len() == 0 {
        ended
    } else {
        ended.push(parts[n - 1])
    }
}

/// A piece of a template file as read.
pub enum TemplatePart {
    /// Text that goes into the template as it is.
    Text(String),
    /// A file whose template goes in this place.
    Include(String),
}

/// A [`TemplatePart`] with its text as characters: `(true, name)` for an
/// included file, `(false, text)` for text.
pub open spec fn part_view(p: TemplatePart) -> (bool, Seq<char>) {
    match p {
        TemplatePart::Text(t) => (false, t@),
        TemplatePart::Include(n) => (true, n@),
    }
}

/// What a line of a template file gives: at the top level, a line
/// `#include NAME` names a file to include (the name trimmed); other lines
/// that start with `#` are comments; every other line is text with a line
/// end.
pub open spec fn line_part(line: Seq<char>, nested: bool) -> Option<(bool, Seq<char>)> {
    if !nested && starts_with(line, "#include "@) {
        Some((true, trim(line.subrange(9, line.len() as int))))
    } else if line.len() > 0 && line[0] == '#' {
        None
    } else {
        Some((false, line.push('\n')))
    }
}

/// The parts of a template file made of `lines`.
pub open spec fn lines_parts(lines: Seq<Seq<char>>, nested: bool) -> Seq<(bool, Seq<char>)>
    decreases lines.len(),
{
    if lines.len() == 0 {
        seq![]
    } else {
        let prev = lines_parts(lines.drop_last(), nested);
        match line_part(lines.last(), nested) {
            Some(p) => prev.push(p),
            None => prev,
        }
    }
}

fn text_lines_exec(s: &str) -> (r: Vec<Vec<char>>)
    ensures
        views(r@) == text_lines(s@),
{
    let v = chars_of(s);
    let parts = split_char_exec(v.as_slice(), '\n');
    let ghost ps = views(parts@);
    proof {
        crate::util::lemma_split_char_nonempty(s@, '\n');
    }
    let n = parts.len();
    let mut r: Vec<Vec<char>> = Vec::new();
    let mut i: usize = 0;
    while i + 1 < n
        invariant
            n == parts@.len(),
            n >= 1,
            ps == views(parts@),
            ps.len() == n,
            i + 1 <= n,
            views(r@) == Seq::new(i as nat, |k: int| without_cr(ps[k])),
        decreases n - i,
    {
        let part = &parts[i];
        assert(part@ == ps[i as int]);
        let end = if part.len() > 0 && part[part.len() - 1] == '\r' {
            part.len() - 1
        } else {
            part.len()
        };
        let line = slice_chars(part.as_slice(), 0, end);
        assert(line@ =~= without_cr(ps[i as int]));
        let ghost before = r@;
        r.push(line);
        assert(views(r@) =~= views(before).push(without_cr(ps[i as int])));
        assert(views(r@) =~= Seq::new((i + 1) as nat, |k: int| without_cr(ps[k])));
        i += 1;
    }
    let last = &parts[n - 1];
    if last.len() > 0 {
        let ghost before = r@;
        let copy = slice_chars(last.as_slice(), 0, last.len());
        assert(copy@ =~= last@);
        r.push(copy);
        assert(views(r@) =~= views(before).push(ps[n - 1]));
    }
    r
}

/// The parts of a template file with `content`; `nested` for a file that
/// was itself included, where `#include` lines are comments.
pub fn template_parts(content: &str, nested: bool) -> (r: Vec<TemplatePart>)
    ensures
        r@.map_values(|p: TemplatePart| part_view(p)) == lines_parts(text_lines(content@), nested),
{
    let lines = text_lines_exec(content);
    let ghost ls = views(lines@);
    let mut r: Vec<TemplatePart> = Vec::new();
    let mut i: usize = 0;
    while i < lines.len()
        invariant
            i <= lines@.len(),
            ls == views(lines@),
            ls.len() == lines@.len(),
            ls == text_lines(content@),
            r@.map_values(|p: TemplatePart| part_view(p)) == lines_parts(ls.take(i as int), nested),
        decreases lines.len() - i,
    {
        assert(ls.take(i + 1).drop_last() =~= ls.take(i as int));
        assert(ls.take(i + 1).last() == lines@[i as int]@);
        let line = &lines[i];
        let ghost before = r@;
        let incl: Vec<char> = vec!['#', 'i', 'n', 'c', 'l', 'u', 'd', 'e', ' '];
        proof {
            reveal_strlit("#include ");
        }
        assert(incl@ =~= "#include "@);
        if !nested && starts_with_exec(line.as_slice(), incl.as_slice()) {
            let name = trim_vec(slice_chars(line.as_slice(), 9, line.len()).as_slice());
            r.push(TemplatePart::Include(from_chars(name.as_slice())));
            assert(r@.map_values(|p: TemplatePart| part_view(p)) =~= before.map_values(|p: TemplatePart| part_view(p)).push(
                (true, trim(line@.subrange(9, line@.len() as int))),
            ));
        } else if line.len() > 0 && line[0] == '#' {
        } else {
            let mut t = from_chars(line.as_slice());
            t.push('\n');
            r.push(TemplatePart::Text(t));
            assert(r@.map_values(|p: TemplatePart| part_view(p)) =~= before.map_values(|p: TemplatePart| part_view(p)).push(
                (false, line@.push('\n')),
            ));
        }
        i += 1;
    }
    assert(ls.take(ls.len() as int) =~= ls);
    r
}

} // verus!
