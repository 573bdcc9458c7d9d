//! Editing actions files through the web interface: the file is held as
//! classified lines that can be inspected, changed and written back.

use vstd::prelude::*;
use crate::text::{
    chars_of, from_chars, own, push_chars, push_str, slice_chars, sub_string, str_eq, trim, trim_start,
    trim_end, trim_str, is_ws, char_is_ws, starts_with, ends_with, find_char, find_char_exec, parse_i64,
    parse_signed, lemma_trim_start_skip, lemma_trim_end_skip, str_views, push_decimal, decimal,
};
use crate::error::{PrivoxyError, PrivoxyResult};

verus! {

/// What a line of an actions file is.
#[derive(Debug, Clone, Copy, PartialEq, Eq, Structural)]
pub enum LineType {
    /// Not classified yet.
    Unprocessed,
    /// Blank or comment only.
    Blank,
    /// The `{{alias}}` header.
    AliasHeader,
    /// An alias definition `name=actions`.
    AliasEntry,
    /// An `{actions}` header.
    Action,
    /// A URL pattern.
    Url,
    /// The `{{settings}}` header.
    SettingsHeader,
    /// A setting `name=value`.
    SettingsEntry,
    /// The `{{description}}` header.
    DescriptionHeader,
    /// A line of the description.
    DescriptionEntry,
}

/// What was read from a line.
#[derive(Debug, Clone)]
pub enum LineData {
    /// Nothing read.
    Empty,
    /// The text between the braces of an action header.
    Action(String),
    /// A setting, with its value read as an integer where it is one.
    Setting { name: String, string_value: String, int_value: Option<i64> },
    /// An alias definition.
    Alias { name: String, actions: String },
}

/// The model of [`LineData`].
pub enum DataModel {
    Empty,
    Action(Seq<char>),
    Setting(Seq<char>, Seq<char>, Option<int>),
    Alias(Seq<char>, Seq<char>),
}

impl View for LineData {
    type V = DataModel;

    open spec fn view(&self) -> DataModel {
        match self {
            LineData::Empty => DataModel::Empty,
            LineData::Action(s) => DataModel::Action(s@),
            LineData::Setting { name, string_value, int_value } => DataModel::Setting(
                name@,
                string_value@,
                match int_value {
                    Some(n) => Some(*n as int),
                    None => None,
                },
            ),
            LineData::Alias { name, actions } => DataModel::Alias(name@, actions@),
        }
    }
}

impl LineData {
    /// An identical copy.
    pub fn copy(&self) -> (r: Self)
        ensures
            r == *self,
    {
        match self {
            LineData::Empty => LineData::Empty,
            LineData::Action(s) => LineData::Action(s.clone()),
            LineData::Setting { name, string_value, int_value } => LineData::Setting {
                name: name.clone(),
                string_value: string_value.clone(),
                int_value: *int_value,
            },
            LineData::Alias { name, actions } => LineData::Alias { name: name.clone(), actions: actions.clone() },
        }
    }
}

/// A line of an editable actions file.
#[derive(Debug, Clone)]
pub struct FileLine {
    pub line_type: LineType,
    /// The text as read (continuations joined).
    pub raw: String,
    /// Text written before the line.
    pub prefix: String,
    /// The line without its comment, trimmed.
    pub unprocessed: String,
    pub data: LineData,
}

/// The model of a [`FileLine`].
pub struct LineModel {
    pub line_type: LineType,
    pub raw: Seq<char>,
    pub prefix: Seq<char>,
    pub unprocessed: Seq<char>,
    pub data: DataModel,
}

impl View for FileLine {
    type V = LineModel;

    open spec fn view(&self) -> LineModel {
        LineModel {
            line_type: self.line_type,
            raw: self.raw@,
            prefix: self.prefix@,
            unprocessed: self.unprocessed@,
            data: self.data@,
        }
    }
}

pub open spec fn lines_view(v: Seq<FileLine>) -> Seq<LineModel> {
    v.map_values(|l: FileLine| l@)
}

/// A fresh, unclassified line holding `raw`.
pub open spec fn fresh_line(raw: Seq<char>) -> LineModel {
    LineModel {
        line_type: LineType::Unprocessed,
        raw,
        prefix: Seq::empty(),
        unprocessed: Seq::empty(),
        data: DataModel::Empty,
    }
}

impl FileLine {
    /// An unclassified line holding `raw`.
    pub fn new(raw: String) -> (r: Self)
        ensures
            r@ == fresh_line(raw@),
    {
        FileLine {
            line_type: LineType::Unprocessed,
            raw,
            prefix: String::new(),
            unprocessed: String::new(),
            data: LineData::Empty,
        }
    }

    /// An identical copy.
    pub fn copy(&self) -> (r: Self)
        ensures
            r == *self,
    {
        FileLine {
            line_type: self.line_type,
            raw: self.raw.clone(),
            prefix: self.prefix.clone(),
            unprocessed: self.unprocessed.clone(),
            data: self.data.copy(),
        }
    }
}

// ---------------------------------------------------------------------------
// Comments

/// The characters of `s` kept before a comment starts, reading from `i`
/// with the quote state `in_quote` (quoted by `q`): a `#` outside quotes
/// ends the line, and quotes are kept.
pub open spec fn uncommented(s: Seq<char>, i: int, in_quote: bool, q: char) -> Seq<char>
    decreases s.len() - i,
{
    if i >= s.len() || i < 0 {
        Seq::empty()
    } else {
        let c = s[i];
        if !in_quote && (c == '"' || c == '\'') {
            seq![c] + uncommented(s, i + 1, true, c)
        } else if in_quote && c == q {
            seq![c] + uncommented(s, i + 1, false, q)
        } else if !in_quote && c == '#' {
            Seq::empty()
        } else {
            seq![c] + uncommented(s, i + 1, in_quote, q)
        }
    }
}

/// A line without its comment, trimmed.
pub open spec fn without_comment(s: Seq<char>) -> Seq<char> {
    trim(uncommented(s, 0, false, '"'))
}

fn uncommented_exec(v: &Vec<char>) -> (r: Vec<char>)
    ensures
        r@ == uncommented(v@, 0, false, '"'),
{
    let mut out: Vec<char> = Vec::new();
    let mut in_quote = false;
    let mut q = '"';
    let mut i: usize = 0;
    while i < v.len()
        invariant
            i <= v.len(),
            out@ + uncommented(v@, i as int, in_quote, q) == uncommented(v@, 0, false, '"'),
        decreases v.len() - i,
    {
        let c = v[i];
        if !in_quote && (c == '"' || c == '\'') {
            in_quote = true;
            q = c;
            out.push(c);
        } else if in_quote && c == q {
            in_quote = false;
            out.push(c);
        } else if !in_quote && c == '#' {
            assert(uncommented(v@, i as int, in_quote, q) == Seq::<char>::empty());
            assert(out@ + Seq::<char>::empty() =~= out@);
            return out;
        } else {
            out.push(c);
        }
        assert(out@ + uncommented(v@, i + 1, in_quote, q) =~= (out@.drop_last() + seq![c])
            + uncommented(v@, i + 1, in_quote, q));
        i += 1;
    }
    assert(uncommented(v@, i as int, in_quote, q) == Seq::<char>::empty());
    assert(out@ + Seq::<char>::empty() =~= out@);
    out
}

// ---------------------------------------------------------------------------
// Reading raw lines

/// Joining raw lines: the lines made so far, the continued text, and
/// whether the last raw line ended in `\`.
pub struct JoinState {
    pub lines: Seq<LineModel>,
    pub current: Seq<char>,
    pub continued: bool,
}

/// What one raw line does.  A line ending in `\` continues on the next; a
/// blank or `#` line stands as a blank line; others become lines whose
/// comment is removed.  The text of a continuation is trimmed at its end.
pub open spec fn join_step(st: JoinState, raw: Seq<char>) -> JoinState {
    if st.continued {
        let t = trim_end(raw);
        if t.len() > 0 && t.last() == '\\' {
            JoinState { current: st.current + t.drop_last(), ..st }
        } else {
            let cur = st.current + t;
            JoinState {
                lines: st.lines.push(LineModel { unprocessed: without_comment(cur), ..fresh_line(cur) }),
                current: Seq::empty(),
                continued: false,
            }
        }
    } else {
        let t = trim_start(raw);
        if t.len() == 0 || t[0] == '#' {
            JoinState {
                lines: st.lines.push(LineModel { line_type: LineType::Blank, ..fresh_line(raw) }),
                ..st
            }
        } else if t.last() == '\\' {
            JoinState { current: t.drop_last(), continued: true, ..st }
        } else {
            JoinState {
                lines: st.lines.push(LineModel { unprocessed: without_comment(t), ..fresh_line(raw) }),
                ..st
            }
        }
    }
}

pub open spec fn join_lines(raws: Seq<Seq<char>>) -> JoinState
    decreases raws.len(),
{
    if raws.len() == 0 {
        JoinState { lines: Seq::empty(), current: Seq::empty(), continued: false }
    } else {
        join_step(join_lines(raws.drop_last()), raws.last())
    }
}

fn trim_start_vec(v: &Vec<char>) -> (r: Vec<char>)
    ensures
        r@ == trim_start(v@),
{
    let mut a: usize = 0;
    while a < v.len() && char_is_ws(v[a])
        invariant
            a <= v.len(),
            forall|j: int| 0 <= j < a ==> is_ws(#[trigger] v@[j]),
        decreases v.len() - a,
    {
        a += 1;
    }
    proof {
        lemma_trim_start_skip(v@, a as int);
    }
    slice_chars(v.as_slice(), a, v.len())
}

fn trim_end_vec(v: &Vec<char>) -> (r: Vec<char>)
    ensures
        r@ == trim_end(v@),
{
    let mut b: usize = v.len();
    while b > 0 && char_is_ws(v[b - 1])
        invariant
            b <= v.len(),
            forall|j: int| b <= j < v.len() ==> is_ws(#[trigger] v@[j]),
        decreases b,
    {
        b -= 1;
    }
    proof {
        lemma_trim_end_skip(v@, b as int);
    }
    slice_chars(v.as_slice(), 0, b)
}

fn without_comment_exec(v: &Vec<char>) -> (r: String)
    ensures
        r@ == without_comment(v@),
{
    let u = uncommented_exec(v);
    let s = from_chars(u.as_slice());
    trim_str(s.as_str())
}

// ---------------------------------------------------------------------------
// Classifying lines

/// Where the reading of an actions file stands: before the first header,
/// or in the body of a settings, description, alias or action section.
#[derive(Debug, Clone, Copy, PartialEq, Eq, Structural)]
pub enum Phase {
    Start,
    Settings,
    Description,
    Alias,
    Main,
}

pub open spec fn phase_rank(p: Phase) -> int {
    match p {
        Phase::Start => 0,
        Phase::Settings => 1,
        Phase::Description => 2,
        Phase::Alias => 3,
        Phase::Main => 4,
    }
}

/// What reading one line does: the type it gets (if any), what is read
/// from it (if anything), the phase after it, and an error (the text stored
/// with the file, and the message returned).
pub struct Step {
    pub ty: Option<LineType>,
    pub data: Option<DataModel>,
    pub next: Phase,
    pub err: Option<(Seq<char>, Seq<char>)>,
}

/// Whether `u`, trimmed, is the special header `{{name}}`.
pub open spec fn is_header(u: Seq<char>, name: Seq<char>) -> bool {
    trim(u) == "{{"@ + name + "}}"@
}

/// A line starting with `{` in phase `p`: the special sections come in the
/// order settings, description, alias, each at most once; anything else is
/// an action header.
pub open spec fn header_step(p: Phase, u: Seq<char>) -> Step {
    if phase_rank(p) < 1 && is_header(u, "settings"@) {
        Step { ty: Some(LineType::SettingsHeader), data: None, next: Phase::Settings, err: None }
    } else if phase_rank(p) < 2 && is_header(u, "description"@) {
        Step { ty: Some(LineType::DescriptionHeader), data: None, next: Phase::Description, err: None }
    } else if phase_rank(p) < 3 && is_header(u, "alias"@) {
        Step { ty: Some(LineType::AliasHeader), data: None, next: Phase::Alias, err: None }
    } else if starts_with(u, "{"@) && ends_with(u, "}"@) && u.len() >= 2 {
        Step {
            ty: Some(LineType::Action),
            data: Some(DataModel::Action(u.subrange(1, u.len() - 1))),
            next: Phase::Main,
            err: None,
        }
    } else {
        Step {
            ty: Some(LineType::Action),
            data: None,
            next: Phase::Main,
            err: Some(("Action must be enclosed in {}"@, "Invalid action"@)),
        }
    }
}

/// A `name=value` line: both sides trimmed, split at the first `=`.
pub open spec fn pair_of(u: Seq<char>) -> Option<(Seq<char>, Seq<char>)> {
    match find_char(u, '=') {
        Some(e) => Some((trim(u.subrange(0, e)), trim(u.subrange(e + 1, u.len() as int)))),
        None => None,
    }
}

/// What reading the line `u` in phase `p` does.
pub open spec fn line_step(p: Phase, u: Seq<char>) -> Step {
    if p == Phase::Start && u.len() == 0 {
        Step { ty: Some(LineType::Blank), data: None, next: p, err: None }
    } else if p == Phase::Start && !starts_with(u, "{"@) {
        Step {
            ty: None,
            data: None,
            next: p,
            err: Some(("First (non-comment) line must contain a header"@, "Invalid actions file format"@)),
        }
    } else if starts_with(u, "{"@) {
        header_step(p, u)
    } else if u.len() == 0 {
        Step { ty: Some(LineType::Blank), data: None, next: p, err: None }
    } else {
        match p {
            Phase::Settings => match pair_of(u) {
                Some(nv) => Step {
                    ty: Some(LineType::SettingsEntry),
                    data: Some(DataModel::Setting(nv.0, nv.1, parse_signed(nv.1, i64::MAX as int))),
                    next: p,
                    err: None,
                },
                None => Step {
                    ty: Some(LineType::SettingsEntry),
                    data: None,
                    next: p,
                    err: Some(("Expected name=value pair"@, "Invalid setting"@)),
                },
            },
            Phase::Description => Step { ty: Some(LineType::DescriptionEntry), data: None, next: p, err: None },
            Phase::Alias => match pair_of(u) {
                Some(nv) => Step {
                    ty: Some(LineType::AliasEntry),
                    data: Some(DataModel::Alias(nv.0, nv.1)),
                    next: p,
                    err: None,
                },
                None => Step {
                    ty: Some(LineType::AliasEntry),
                    data: None,
                    next: p,
                    err: Some(("Expected name=actions pair"@, "Invalid alias"@)),
                },
            },
            _ => Step { ty: Some(LineType::Url), data: None, next: p, err: None },
        }
    }
}

/// The phase after reading the first `k` lines, and the first error among
/// them with its line index.
pub open spec fn parse_state(us: Seq<Seq<char>>, k: int) -> (Phase, Option<(int, Seq<char>, Seq<char>)>)
    decreases k,
{
    if k <= 0 {
        (Phase::Start, None)
    } else {
        let prev = parse_state(us, k - 1);
        if prev.1 is Some {
            prev
        } else {
            let s = line_step(prev.0, us[k - 1]);
            (
                s.next,
                match s.err {
                    Some(e) => Some((k - 1, e.0, e.1)),
                    None => None,
                },
            )
        }
    }
}

/// A line after a step: the step's type and data where it gives them.
pub open spec fn stepped(l: LineModel, s: Step) -> LineModel {
    LineModel {
        line_type: match s.ty {
            Some(t) => t,
            None => l.line_type,
        },
        data: match s.data {
            Some(d) => d,
            None => l.data,
        },
        ..l
    }
}

/// The lines after classification: each line read before the first error
/// (and the erring line itself) is stepped; the others stay as they were.
pub open spec fn classified(ls: Seq<LineModel>, i: int) -> LineModel {
    let us = ls.map_values(|l: LineModel| l.unprocessed);
    let st = parse_state(us, i);
    if st.1 is None {
        stepped(ls[i], line_step(st.0, ls[i].unprocessed))
    } else {
        ls[i]
    }
}

pub open spec fn unprocessed_of(ls: Seq<LineModel>) -> Seq<Seq<char>> {
    ls.map_values(|l: LineModel| l.unprocessed)
}

fn header_is_exec(u: &str, name: &str) -> (r: bool)
    ensures
        r == is_header(u@, name@),
{
    let t = trim_str(u);
    let mut h = String::new();
    push_str(&mut h, "{{");
    push_str(&mut h, name);
    push_str(&mut h, "}}");
    proof {
        reveal_strlit("{{");
        reveal_strlit("}}");
    }
    str_eq(t.as_str(), h.as_str())
}

fn pair_exec(u: &str) -> (r: Option<(String, String)>)
    ensures
        match pair_of(u@) {
            Some(nv) => r matches Some(x) && x.0@ == nv.0 && x.1@ == nv.1,
            None => r is None,
        },
{
    let v = chars_of(u);
    match find_char_exec(v.as_slice(), '=') {
        Some(e) => {
            let a = slice_chars(v.as_slice(), 0, e);
            let b = slice_chars(v.as_slice(), e + 1, v.len());
            let n = from_chars(a.as_slice());
            let w = from_chars(b.as_slice());
            Some((trim_str(n.as_str()), trim_str(w.as_str())))
        },
        None => None,
    }
}

fn starts_with_brace(u: &str) -> (r: bool)
    ensures
        r == starts_with(u@, "{"@),
{
    let v = chars_of(u);
    let r = v.len() > 0 && v[0] == '{';
    proof {
        reveal_strlit("{");
        assert("{"@.len() == 1);
        assert("{"@[0] == '{');
        if v.len() > 0 {
            assert(u@.subrange(0, 1)[0] == v@[0]);
            if r {
                assert(u@.subrange(0, 1) =~= "{"@);
            }
        }
    }
    r
}

fn header_step_exec(p: Phase, u: &str) -> (r: (Option<LineType>, Option<LineData>, Phase, Option<(String, String)>))
    ensures
        ({
            let s = header_step(p, u@);
            &&& r.0 == s.ty
            &&& match s.data {
                Some(d) => r.1 matches Some(x) && x@ == d,
                None => r.1 is None,
            }
            &&& r.2 == s.next
            &&& match s.err {
                Some(e) => r.3 matches Some(x) && x.0@ == e.0 && x.1@ == e.1,
                None => r.3 is None,
            }
        }),
{
    let rank: u8 = match p {
        Phase::Start => 0,
        Phase::Settings => 1,
        Phase::Description => 2,
        Phase::Alias => 3,
        Phase::Main => 4,
    };
    assert(rank as int == phase_rank(p));
    if rank < 1 && header_is_exec(u, "settings") {
        return (Some(LineType::SettingsHeader), None, Phase::Settings, None);
    }
    if rank < 2 && header_is_exec(u, "description") {
        return (Some(LineType::DescriptionHeader), None, Phase::Description, None);
    }
    if rank < 3 && header_is_exec(u, "alias") {
        return (Some(LineType::AliasHeader), None, Phase::Alias, None);
    }
    let v = chars_of(u);
    proof {
        reveal_strlit("{");
        reveal_strlit("}");
    }
    if v.len() >= 2 && v[0] == '{' && v[v.len() - 1] == '}' {
        let inner = sub_string(v.as_slice(), 1, v.len() - 1);
        assert(u@.subrange(0, 1) =~= "{"@);
        assert(u@.subrange(u@.len() - 1, u@.len() as int) =~= "}"@);
        (Some(LineType::Action), Some(LineData::Action(inner)), Phase::Main, None)
    } else {
        proof {
            assert(!(starts_with(u@, "{"@) && ends_with(u@, "}"@) && u@.len() >= 2)) by {
                if starts_with(u@, "{"@) && ends_with(u@, "}"@) && u@.len() >= 2 {
                    assert(u@.subrange(0, 1)[0] == u@[0]);
                    assert(u@.subrange(u@.len() - 1, u@.len() as int)[0] == u@[u@.len() - 1]);
                }
            }
        }
        (
            Some(LineType::Action),
            None,
            Phase::Main,
            Some(("Action must be enclosed in {}".to_string(), "Invalid action".to_string())),
        )
    }
}

fn line_step_exec(p: Phase, u: &str) -> (r: (Option<LineType>, Option<LineData>, Phase, Option<(String, String)>))
    ensures
        ({
            let s = line_step(p, u@);
            &&& r.0 == s.ty
            &&& match s.data {
                Some(d) => r.1 matches Some(x) && x@ == d,
                None => r.1 is None,
            }
            &&& r.2 == s.next
            &&& match s.err {
                Some(e) => r.3 matches Some(x) && x.0@ == e.0 && x.1@ == e.1,
                None => r.3 is None,
            }
        }),
{
    let empty = chars_of(u).len() == 0;
    let brace = starts_with_brace(u);
    if p == Phase::Start && empty {
        return (Some(LineType::Blank), None, p, None);
    }
    if p == Phase::Start && !brace {
        return (
            None,
            None,
            p,
            Some(
                (
                    "First (non-comment) line must contain a header".to_string(),
                    "Invalid actions file format".to_string(),
                ),
            ),
        );
    }
    if brace {
        return header_step_exec(p, u);
    }
    if empty {
        return (Some(LineType::Blank), None, p, None);
    }
    match p {
        Phase::Settings => match pair_exec(u) {
            Some((n, w)) => {
                let wv = chars_of(w.as_str());
                let iv = parse_i64(wv.as_slice());
                (Some(LineType::SettingsEntry), Some(LineData::Setting { name: n, string_value: w, int_value: iv }), p, None)
            },
            None => (
                Some(LineType::SettingsEntry),
                None,
                p,
                Some(("Expected name=value pair".to_string(), "Invalid setting".to_string())),
            ),
        },
        Phase::Description => (Some(LineType::DescriptionEntry), None, p, None),
        Phase::Alias => match pair_exec(u) {
            Some((n, a)) => (Some(LineType::AliasEntry), Some(LineData::Alias { name: n, actions: a }), p, None),
            None => (
                Some(LineType::AliasEntry),
                None,
                p,
                Some(("Expected name=actions pair".to_string(), "Invalid alias".to_string())),
            ),
        },
        _ => (Some(LineType::Url), None, p, None),
    }
}


/// How a line is written back: its prefix, then its text, then a newline.
/// Lines that were read are written from what was read from them.
pub open spec fn line_text(l: LineModel) -> Seq<char> {
    let body = match l.line_type {
        LineType::Blank => Seq::empty(),
        LineType::SettingsEntry => match l.data {
            DataModel::Setting(n, v, _) => n + "="@ + v,
            _ => l.raw,
        },
        LineType::AliasEntry => match l.data {
            DataModel::Alias(n, a) => n + "="@ + a,
            _ => l.raw,
        },
        LineType::Action => match l.data {
            DataModel::Action(a) => "{"@ + a + "}"@,
            _ => l.raw,
        },
        LineType::Url => if l.unprocessed.len() == 0 {
            l.raw
        } else {
            l.unprocessed
        },
        LineType::SettingsHeader => "{{settings}}"@,
        LineType::DescriptionHeader => "{{description}}"@,
        LineType::AliasHeader => "{{alias}}"@,
        _ => l.raw,
    };
    l.prefix + body + "\n"@
}

/// The text of a whole file.
pub open spec fn file_text(ls: Seq<LineModel>) -> Seq<char>
    decreases ls.len(),
{
    if ls.len() == 0 {
        Seq::empty()
    } else {
        file_text(ls.drop_last()) + line_text(ls.last())
    }
}

fn push_line_text(out: &mut String, l: &FileLine)
    ensures
        final(out)@ == old(out)@ + line_text(l@),
{
    push_str(out, l.prefix.as_str());
    match l.line_type {
        LineType::Blank => {},
        LineType::SettingsEntry => match &l.data {
            LineData::Setting { name, string_value, .. } => {
                push_str(out, name.as_str());
                push_str(out, "=");
                push_str(out, string_value.as_str());
            },
            _ => push_str(out, l.raw.as_str()),
        },
        LineType::AliasEntry => match &l.data {
            LineData::Alias { name, actions } => {
                push_str(out, name.as_str());
                push_str(out, "=");
                push_str(out, actions.as_str());
            },
            _ => push_str(out, l.raw.as_str()),
        },
        LineType::Action => match &l.data {
            LineData::Action(a) => {
                push_str(out, "{");
                push_str(out, a.as_str());
                push_str(out, "}");
            },
            _ => push_str(out, l.raw.as_str()),
        },
        LineType::Url => {
            if l.unprocessed.as_str().unicode_len() == 0 {
                push_str(out, l.raw.as_str());
            } else {
                push_str(out, l.unprocessed.as_str());
            }
        },
        LineType::SettingsHeader => push_str(out, "{{settings}}"),
        LineType::DescriptionHeader => push_str(out, "{{description}}"),
        LineType::AliasHeader => push_str(out, "{{alias}}"),
        _ => push_str(out, l.raw.as_str()),
    }
    push_str(out, "\n");
    proof {
        assert(final(out)@ =~= old(out)@ + line_text(l@));
    }
}

// ---------------------------------------------------------------------------
// The editable file

/// An actions file held for editing.
#[derive(Debug)]
pub struct EditableFile {
    pub lines: Vec<FileLine>,
    pub filename: String,
    /// Which actions file of the configuration this is.
    pub identifier: usize,
    /// Modification time in seconds since the epoch.
    pub version: u64,
    pub version_str: String,
    /// Newline convention: 0 for LF, 1 for CRLF.
    pub newline: u8,
    /// The line that failed to parse, if any.
    pub parse_error_index: Option<usize>,
    pub parse_error_text: Option<String>,
}

/// The error for a line index past the end.
pub open spec fn out_of_range(r: PrivoxyResult<()>, index: usize) -> bool {
    r matches Err(PrivoxyError::Other(m)) && m@ == "Line index "@ + decimal(index as nat) + " out of range"@
}

fn out_of_range_error(index: usize) -> (r: PrivoxyError)
    ensures
        out_of_range(Err(r), index),
{
    let mut m = String::new();
    push_str(&mut m, "Line index ");
    push_decimal(&mut m, index as u64);
    push_str(&mut m, " out of range");
    PrivoxyError::Other(m)
}

/// Whether `b` has the fields of `a` but for its lines: the file's name,
/// identifier, version, newline convention and parse error.
pub open spec fn fields_but_lines_kept(a: EditableFile, b: EditableFile) -> bool {
    &&& b.filename == a.filename
    &&& b.identifier == a.identifier
    &&& b.version == a.version
    &&& b.version_str == a.version_str
    &&& b.newline == a.newline
    &&& b.parse_error_index == a.parse_error_index
    &&& b.parse_error_text == a.parse_error_text
}

impl EditableFile {
    /// An empty file named `filename`.
    pub fn new(filename: &str, identifier: usize) -> (r: Self)
        ensures
            r.lines@.len() == 0,
            r.filename@ == filename@,
            r.identifier == identifier,
            r.version == 0,
            r.version_str@.len() == 0,
            r.newline == 0,
            r.parse_error_index is None,
            r.parse_error_text is None,
    {
        EditableFile {
            lines: Vec::new(),
            filename: own(filename),
            identifier,
            version: 0,
            version_str: String::new(),
            newline: 0,
            parse_error_index: None,
            parse_error_text: None,
        }
    }

    /// `line` without its comment: the text before the first `#` that is
    /// not inside quotes, trimmed.
    pub fn remove_comments(&self, line: &str) -> (r: String)
        ensures
            r@ == without_comment(line@),
    {
        let v = chars_of(line);
        without_comment_exec(&v)
    }

    /// Joins continued lines, marks blank and comment lines, and removes
    /// the comments of the others.  A continuation still open at the end is
    /// dropped.
    pub fn process_raw_lines(&self, raw_lines: Vec<String>) -> (r: Vec<FileLine>)
        ensures
            lines_view(r@) == join_lines(str_views(raw_lines@)).lines,
    {
        let ghost raws = str_views(raw_lines@);
        let mut lines: Vec<FileLine> = Vec::new();
        let mut current: Vec<char> = Vec::new();
        let mut continued = false;
        let mut i: usize = 0;
        assert(raws.take(0) =~= Seq::<Seq<char>>::empty());
        assert(lines_view(lines@) =~= Seq::<LineModel>::empty());
        while i < raw_lines.len()
            invariant
                i <= raw_lines@.len(),
                raws == str_views(raw_lines@),
                raws.len() == raw_lines@.len(),
                ({
                    let st = join_lines(raws.take(i as int));
                    &&& lines_view(lines@) == st.lines
                    &&& current@ == st.current
                    &&& continued == st.continued
                }),
            decreases raw_lines.len() - i,
        {
            let ghost before = join_lines(raws.take(i as int));
            assert(raws.take(i + 1).drop_last() =~= raws.take(i as int));
            assert(raws[i as int] == raw_lines@[i as int]@);
            let rv = chars_of(raw_lines[i].as_str());
            if continued {
                let t = trim_end_vec(&rv);
                if t.len() > 0 && t[t.len() - 1] == '\\' {
                    let head = slice_chars(t.as_slice(), 0, t.len() - 1);
                    assert(head@ =~= t@.drop_last());
                    let mut nc = current.clone();
                    let mut k: usize = 0;
                    while k < head.len()
                        invariant
                            k <= head@.len(),
                            nc@ == current@ + head@.subrange(0, k as int),
                        decreases head.len() - k,
                    {
                        nc.push(head[k]);
                        assert(nc@ =~= current@ + head@.subrange(0, k + 1));
                        k += 1;
                    }
                    assert(head@.subrange(0, head@.len() as int) =~= head@);
                    current = nc;
                } else {
                    let mut nc = current.clone();
                    let mut k: usize = 0;
                    while k < t.len()
                        invariant
                            k <= t@.len(),
                            nc@ == current@ + t@.subrange(0, k as int),
                        decreases t.len() - k,
                    {
                        nc.push(t[k]);
                        assert(nc@ =~= current@ + t@.subrange(0, k + 1));
                        k += 1;
                    }
                    assert(t@.subrange(0, t@.len() as int) =~= t@);
                    let text = from_chars(nc.as_slice());
                    let mut fl = FileLine::new(text);
                    fl.unprocessed = without_comment_exec(&nc);
                    lines.push(fl);
                    current = Vec::new();
                    continued = false;
                }
            } else {
                let t = trim_start_vec(&rv);
                if t.len() == 0 || t[0] == '#' {
                    let mut fl = FileLine::new(raw_lines[i].clone());
                    fl.line_type = LineType::Blank;
                    lines.push(fl);
                } else if t[t.len() - 1] == '\\' {
                    current = slice_chars(t.as_slice(), 0, t.len() - 1);
                    assert(current@ =~= t@.drop_last());
                    continued = true;
                } else {
                    let mut fl = FileLine::new(raw_lines[i].clone());
                    fl.unprocessed = without_comment_exec(&t);
                    lines.push(fl);
                }
            }
            proof {
                let after = join_step(before, raws[i as int]);
                assert(join_lines(raws.take(i + 1)) == after);
                assert(lines_view(lines@) =~= after.lines);
            }
            i += 1;
        }
        assert(raws.take(raw_lines@.len() as int) =~= raws);
        lines
    }

    /// Classifies the lines: an optional `{{settings}}` section, then an
    /// optional `{{description}}` and `{{alias}}` section, then action
    /// headers each followed by URL patterns.  On the first error the line
    /// and its message are recorded and the reading stops.
    #[verifier::rlimit(40)]
    pub fn parse(&mut self) -> (r: PrivoxyResult<()>)
        ensures
            ({
                let ls = lines_view(old(self).lines@);
                let st = parse_state(unprocessed_of(ls), ls.len() as int);
                &&& final(self).lines@.len() == old(self).lines@.len()
                &&& forall|i: int| 0 <= i < ls.len() ==> #[trigger] final(self).lines@[i]@ == classified(ls, i)
                &&& final(self).filename == old(self).filename
                &&& final(self).identifier == old(self).identifier
                &&& final(self).version == old(self).version
                &&& final(self).version_str == old(self).version_str
                &&& final(self).newline == old(self).newline
                &&& match st.1 {
                    None => r is Ok && final(self).parse_error_index == old(self).parse_error_index
                        && final(self).parse_error_text == old(self).parse_error_text,
                    Some(e) => (r matches Err(PrivoxyError::Parse(m)) && m@ == e.2
                        && final(self).parse_error_index == Some(e.0 as usize)
                        && (final(self).parse_error_text matches Some(t) && t@ == e.1)),
                }
            }),
    {
        let ghost ls = lines_view(self.lines@);
        let ghost us = unprocessed_of(ls);
        let n = self.lines.len();
        let mut p = Phase::Start;
        let mut i: usize = 0;
        while i < n
            invariant
                n == self.lines@.len(),
                ls == lines_view(old(self).lines@),
                ls.len() == n,
                us == unprocessed_of(ls),
                i <= n,
                parse_state(us, i as int) == (p, None::<(int, Seq<char>, Seq<char>)>),
                forall|j: int| 0 <= j < i ==> #[trigger] self.lines@[j]@ == classified(ls, j),
                forall|j: int| i <= j < n ==> #[trigger] self.lines@[j]@ == ls[j],
                self.filename == old(self).filename,
                self.identifier == old(self).identifier,
                self.version == old(self).version,
                self.version_str == old(self).version_str,
                self.newline == old(self).newline,
                self.parse_error_index == old(self).parse_error_index,
                self.parse_error_text == old(self).parse_error_text,
            decreases n - i,
        {
            assert(self.lines@[i as int]@ == ls[i as int]);
            assert(us[i as int] == ls[i as int].unprocessed);
            let (ty, data, next, err) = line_step_exec(p, self.lines[i].unprocessed.as_str());
            let mut line = self.lines[i].copy();
            match ty {
                Some(t) => {
                    line.line_type = t;
                },
                None => {},
            }
            match data {
                Some(d) => {
                    line.data = d;
                },
                None => {},
            }
            self.lines.set(i, line);
            proof {
                assert(self.lines@[i as int]@ == classified(ls, i as int));
            }
            match err {
                Some((text, msg)) => {
                    proof {
                        assert(parse_state(us, i + 1) == (next, Some((i as int, text@, msg@))));
                        lemma_error_stays(us, i + 1, n as int);
                        assert forall|j: int| i < j < n implies #[trigger] self.lines@[j]@ == classified(ls, j) by {
                            lemma_error_stays(us, i + 1, j);
                        }
                    }
                    self.parse_error_index = Some(i);
                    self.parse_error_text = Some(text);
                    return Err(PrivoxyError::Parse(msg));
                },
                None => {},
            }
            p = next;
            i += 1;
        }
        Ok(())
    }

    /// The text to write back to the file.
    pub fn to_text(&self) -> (r: String)
        ensures
            r@ == file_text(lines_view(self.lines@)),
    {
        let mut out = String::new();
        let mut i: usize = 0;
        while i < self.lines.len()
            invariant
                i <= self.lines@.len(),
                out@ == file_text(lines_view(self.lines@).take(i as int)),
            decreases self.lines.len() - i,
        {
            assert(lines_view(self.lines@).take(i + 1).drop_last() =~= lines_view(self.lines@).take(i as int));
            push_line_text(&mut out, &self.lines[i]);
            i += 1;
        }
        assert(lines_view(self.lines@).take(self.lines@.len() as int) =~= lines_view(self.lines@));
        out
    }

    /// The line at `index`, if there is one.
    pub fn get_line(&self, index: usize) -> (r: Option<&FileLine>)
        ensures
            index < self.lines@.len() ==> r == Some(&self.lines@[index as int]),
            index >= self.lines@.len() ==> r is None,
    {
        if index < self.lines.len() {
            Some(&self.lines[index])
        } else {
            None
        }
    }

    /// The line at `index` for changing in place, if there is one.
    pub fn get_line_mut(&mut self, index: usize) -> (r: Option<&mut FileLine>)
        ensures
            index < old(self).lines@.len() ==> (r matches Some(l) && *l == old(self).lines@[index as int]
                && final(self).lines@ == old(self).lines@.update(index as int, *final(l))),
            index >= old(self).lines@.len() ==> r is None && final(self).lines@ == old(self).lines@,
            fields_but_lines_kept(*old(self), *final(self)),
    {
        if index < self.lines.len() {
            Some(&mut self.lines[index])
        } else {
            None
        }
    }

    /// Removes the line at `index`.
    pub fn delete_line(&mut self, index: usize) -> (r: PrivoxyResult<()>)
        ensures
            index < old(self).lines@.len() ==> r is Ok && final(self).lines@ == old(self).lines@.remove(
                index as int,
            ),
            index >= old(self).lines@.len() ==> out_of_range(r, index) && final(self).lines@
                == old(self).lines@,
            fields_but_lines_kept(*old(self), *final(self)),
    {
        if index >= self.lines.len() {
            return Err(out_of_range_error(index));
        }
        self.lines.remove(index);
        Ok(())
    }

    /// Inserts the URL pattern `url_pattern` right after the action header
    /// at `after_line_index`.
    pub fn insert_url_pattern(&mut self, after_line_index: usize, url_pattern: &str) -> (r: PrivoxyResult<()>)
        ensures
            after_line_index >= old(self).lines@.len() ==> out_of_range(r, after_line_index)
                && final(self).lines@ == old(self).lines@,
            after_line_index < old(self).lines@.len() && old(self).lines@[after_line_index as int].line_type
                != LineType::Action ==> (r matches Err(PrivoxyError::Other(m)) && m@
                == "Can only insert URL pattern after an action header"@ && final(self).lines@
                == old(self).lines@),
            after_line_index < old(self).lines@.len() && old(self).lines@[after_line_index as int].line_type
                == LineType::Action ==> r is Ok && final(self).lines@.len() == old(self).lines@.len() + 1
                && lines_view(final(self).lines@) == lines_view(old(self).lines@).insert(
                after_line_index + 1,
                LineModel {
                    line_type: LineType::Url,
                    raw: url_pattern@,
                    prefix: Seq::empty(),
                    unprocessed: url_pattern@,
                    data: DataModel::Empty,
                },
            ),
            fields_but_lines_kept(*old(self), *final(self)),
    {
        if after_line_index >= self.lines.len() {
            return Err(out_of_range_error(after_line_index));
        }
        if self.lines[after_line_index].line_type != LineType::Action {
            return Err(PrivoxyError::Other("Can only insert URL pattern after an action header".to_string()));
        }
        let new_line = FileLine {
            line_type: LineType::Url,
            raw: own(url_pattern),
            prefix: String::new(),
            unprocessed: own(url_pattern),
            data: LineData::Empty,
        };
        let ghost before = self.lines@;
        self.lines.insert(after_line_index + 1, new_line);
        assert(lines_view(self.lines@) =~= lines_view(before).insert(
            after_line_index + 1,
            LineModel {
                line_type: LineType::Url,
                raw: url_pattern@,
                prefix: Seq::empty(),
                unprocessed: url_pattern@,
                data: DataModel::Empty,
            },
        ));
        Ok(())
    }

    /// Replaces the actions of the action header at `line_index`.
    pub fn update_action(&mut self, line_index: usize, new_action: &str) -> (r: PrivoxyResult<()>)
        ensures
            line_index >= old(self).lines@.len() ==> out_of_range(r, line_index) && final(self).lines@
                == old(self).lines@,
            line_index < old(self).lines@.len() && old(self).lines@[line_index as int].line_type
                != LineType::Action ==> (r matches Err(PrivoxyError::Other(m)) && m@
                == "Can only update action lines"@ && final(self).lines@ == old(self).lines@),
            line_index < old(self).lines@.len() && old(self).lines@[line_index as int].line_type
                == LineType::Action ==> r is Ok && lines_view(final(self).lines@) == lines_view(
                old(self).lines@,
            ).update(
                line_index as int,
                LineModel {
                    data: DataModel::Action(new_action@),
                    ..old(self).lines@[line_index as int]@
                },
            ),
            fields_but_lines_kept(*old(self), *final(self)),
    {
        if line_index >= self.lines.len() {
            return Err(out_of_range_error(line_index));
        }
        if self.lines[line_index].line_type != LineType::Action {
            return Err(PrivoxyError::Other("Can only update action lines".to_string()));
        }
        let mut line = self.lines[line_index].copy();
        line.data = LineData::Action(own(new_action));
        let ghost before = self.lines@;
        self.lines.set(line_index, line);
        assert(lines_view(self.lines@) =~= lines_view(before).update(
            line_index as int,
            LineModel { data: DataModel::Action(new_action@), ..before[line_index as int]@ },
        ));
        Ok(())
    }

    /// Replaces the URL pattern at `line_index`.
    pub fn update_url_pattern(&mut self, line_index: usize, new_pattern: &str) -> (r: PrivoxyResult<()>)
        ensures
            line_index >= old(self).lines@.len() ==> out_of_range(r, line_index) && final(self).lines@
                == old(self).lines@,
            line_index < old(self).lines@.len() && old(self).lines@[line_index as int].line_type
                != LineType::Url ==> (r matches Err(PrivoxyError::Other(m)) && m@
                == "Can only update URL pattern lines"@ && final(self).lines@ == old(self).lines@),
            line_index < old(self).lines@.len() && old(self).lines@[line_index as int].line_type
                == LineType::Url ==> r is Ok && lines_view(final(self).lines@) == lines_view(
                old(self).lines@,
            ).update(
                line_index as int,
                LineModel {
                    raw: new_pattern@,
                    unprocessed: new_pattern@,
                    ..old(self).lines@[line_index as int]@
                },
            ),
            fields_but_lines_kept(*old(self), *final(self)),
    {
        if line_index >= self.lines.len() {
            return Err(out_of_range_error(line_index));
        }
        if self.lines[line_index].line_type != LineType::Url {
            return Err(PrivoxyError::Other("Can only update URL pattern lines".to_string()));
        }
        let mut line = self.lines[line_index].copy();
        line.raw = own(new_pattern);
        line.unprocessed = own(new_pattern);
        let ghost before = self.lines@;
        self.lines.set(line_index, line);
        assert(lines_view(self.lines@) =~= lines_view(before).update(
            line_index as int,
            LineModel { raw: new_pattern@, unprocessed: new_pattern@, ..before[line_index as int]@ },
        ));
        Ok(())
    }
}

/// Once an error is found, later lines change nothing.
proof fn lemma_error_stays(us: Seq<Seq<char>>, k: int, j: int)
    requires
        1 <= k <= j,
        parse_state(us, k).1 is Some,
    ensures
        parse_state(us, j) == parse_state(us, k),
    decreases j - k,
{
    if j > k {
        lemma_error_stays(us, k, j - 1);
    }
}

} // verus!
