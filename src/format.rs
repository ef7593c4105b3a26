//! The format mini-language: a format string compiled into an ordered
//! sequence of literal runs and field directives.

use vstd::prelude::*;

use crate::text::{chars_of, push_char, string_of};

verus! {

/// What an element of a compiled format stands for.
#[derive(Clone, Copy, PartialEq, Eq, Structural, Debug)]
pub enum TextKind {
    Literal,
    Percent,
    RequestLine,
    RequestTime,
    ResponseStatus,
    ResponseSize,
    ElapsedSeconds,
    ElapsedMillis,
    RemoteAddr,
    RealRemoteAddr,
    Method,
    Version,
    UrlPath,
    Query,
    RequestHeader,
    ResponseHeader,
    EnvVar,
    CustomRequest,
    CustomResponse,
}

/// One element of a compiled format. `arg` holds the text of a literal, the
/// (lower-case) name of a header, the name of an environment variable or the
/// label of a custom field, and is empty otherwise; `slot` is the resolver
/// bound to a custom field, if any.
#[derive(Debug)]
pub struct FormatText {
    pub kind: TextKind,
    pub arg: String,
    pub slot: Option<usize>,
}

/// The mathematical value of a `FormatText`.
pub struct TextModel {
    pub kind: TextKind,
    pub arg: Seq<char>,
    pub slot: Option<usize>,
}

impl View for FormatText {
    type V = TextModel;

    open spec fn view(&self) -> TextModel {
        TextModel { kind: self.kind, arg: self.arg@, slot: self.slot }
    }
}

/// The values of a sequence of elements.
pub open spec fn models(v: Seq<FormatText>) -> Seq<TextModel> {
    v.map_values(|t: FormatText| t@)
}

pub open spec fn mk(kind: TextKind, arg: Seq<char>) -> TextModel {
    TextModel { kind, arg, slot: None }
}

/// Characters allowed in the name of a braced directive.
pub open spec fn is_name_char(c: char) -> bool {
    ('A' <= c && c <= 'Z') || ('a' <= c && c <= 'z') || ('0' <= c && c <= '9') || c == '-' || c
        == '_'
}

/// The first index at or after `k` that does not hold a name character.
pub open spec fn name_end(s: Seq<char>, k: int) -> int
    decreases s.len() - k,
{
    if 0 <= k < s.len() && is_name_char(s[k]) {
        name_end(s, k + 1)
    } else {
        k
    }
}

/// ASCII lower case of one character.
pub open spec fn lower_char(c: char) -> char {
    if 'A' <= c && c <= 'Z' {
        (((c as u32) + 32) as u8) as char
    } else {
        c
    }
}

/// Header names are matched in ASCII lower case.
pub open spec fn lower_name(s: Seq<char>) -> Seq<char> {
    s.map_values(|c: char| lower_char(c))
}

/// The field of a directive written `%` and one letter.
pub open spec fn bare_kind(c: char) -> Option<TextKind> {
    if c == '%' {
        Some(TextKind::Percent)
    } else if c == 'a' {
        Some(TextKind::RemoteAddr)
    } else if c == 't' {
        Some(TextKind::RequestTime)
    } else if c == 'r' {
        Some(TextKind::RequestLine)
    } else if c == 's' {
        Some(TextKind::ResponseStatus)
    } else if c == 'b' {
        Some(TextKind::ResponseSize)
    } else if c == 'T' {
        Some(TextKind::ElapsedSeconds)
    } else if c == 'D' {
        Some(TextKind::ElapsedMillis)
    } else if c == 'M' {
        Some(TextKind::Method)
    } else if c == 'V' {
        Some(TextKind::Version)
    } else if c == 'Q' {
        Some(TextKind::Query)
    } else if c == 'U' {
        Some(TextKind::UrlPath)
    } else {
        None
    }
}

/// A directive of the form `%{NAME}...` at `i`: the element and the index
/// just past the directive.
pub open spec fn braced_at(s: Seq<char>, i: int) -> Option<(TextModel, int)> {
    let j = name_end(s, i + 2);
    let name = s.subrange(i + 2, j);
    if j == i + 2 || j + 1 >= s.len() || s[j] != '}' {
        None
    } else {
        let c = s[j + 1];
        if c == 'i' {
            Some((mk(TextKind::RequestHeader, lower_name(name)), j + 2))
        } else if c == 'o' {
            Some((mk(TextKind::ResponseHeader, lower_name(name)), j + 2))
        } else if c == 'e' {
            Some((mk(TextKind::EnvVar, name), j + 2))
        } else if c == 'a' && name == seq!['r'] {
            Some((mk(TextKind::RealRemoteAddr, seq![]), j + 2))
        } else if c == 'x' && j + 2 < s.len() && s[j + 2] == 'i' {
            Some((mk(TextKind::CustomRequest, name), j + 3))
        } else if c == 'x' && j + 2 < s.len() && s[j + 2] == 'o' {
            Some((mk(TextKind::CustomResponse, name), j + 3))
        } else {
            None
        }
    }
}

/// The directive that starts at `i`, if one does: the element and the index
/// just past it. Anything else is literal text.
pub open spec fn directive_at(s: Seq<char>, i: int) -> Option<(TextModel, int)> {
    if !(0 <= i && i + 1 < s.len() && s[i] == '%') {
        None
    } else if s[i + 1] == '{' {
        braced_at(s, i)
    } else {
        match bare_kind(s[i + 1]) {
            Some(k) => Some((mk(k, seq![]), i + 2)),
            None => None,
        }
    }
}

/// A pending literal run as elements: none when it is empty.
pub open spec fn flush(lit: Seq<char>) -> Seq<TextModel> {
    if lit.len() == 0 {
        seq![]
    } else {
        seq![mk(TextKind::Literal, lit)]
    }
}

/// The elements of `s` from index `i` on, with `lit` the literal run read
/// just before `i`.
pub open spec fn compile_from(s: Seq<char>, i: int, lit: Seq<char>) -> Seq<TextModel>
    decreases s.len() - i,
{
    if i < 0 || i >= s.len() {
        flush(lit)
    } else {
        match directive_at(s, i) {
            Some((t, e)) => if e > i {
                flush(lit) + seq![t] + compile_from(s, e, seq![])
            } else {
                seq![]
            },
            None => compile_from(s, i + 1, lit.push(s[i])),
        }
    }
}

/// The compiled form of a format string: maximal literal runs and the
/// directives between them, in source order.
pub open spec fn compile_spec(s: Seq<char>) -> Seq<TextModel> {
    compile_from(s, 0, seq![])
}

fn name_end_exec(s: &Vec<char>, k: usize) -> (r: usize)
    requires
        k <= s.len(),
    ensures
        r as int == name_end(s@, k as int),
        k <= r <= s.len(),
{
    let mut j: usize = k;
    while j < s.len() && is_name_char_exec(s[j])
        invariant
            k <= j <= s.len(),
            name_end(s@, k as int) == name_end(s@, j as int),
        decreases s.len() - j,
    {
        j = j + 1;
    }
    j
}

fn is_name_char_exec(c: char) -> (r: bool)
    ensures
        r == is_name_char(c),
{
    ('A' <= c && c <= 'Z') || ('a' <= c && c <= 'z') || ('0' <= c && c <= '9') || c == '-' || c
        == '_'
}

fn lower_string_of(s: &Vec<char>, from: usize, to: usize) -> (r: String)
    requires
        from <= to <= s.len(),
    ensures
        r@ == lower_name(s@.subrange(from as int, to as int)),
{
    let mut r: String = String::new();
    let mut i: usize = from;
    while i < to
        invariant
            from <= i <= to <= s.len(),
            r@ == lower_name(s@.subrange(from as int, i as int)),
        decreases to - i,
    {
        let c: char = s[i];
        let l: char = if 'A' <= c && c <= 'Z' {
            (((c as u32) + 32) as u8) as char
        } else {
            c
        };
        push_char(&mut r, l);
        i = i + 1;
        assert(r@ =~= lower_name(s@.subrange(from as int, i as int)));
    }
    r
}

fn element(kind: TextKind, arg: String) -> (r: FormatText)
    ensures
        r@ == mk(kind, arg@),
{
    FormatText { kind, arg, slot: None }
}

fn bare_kind_exec(c: char) -> (r: Option<TextKind>)
    ensures
        r == bare_kind(c),
{
    if c == '%' {
        Some(TextKind::Percent)
    } else if c == 'a' {
        Some(TextKind::RemoteAddr)
    } else if c == 't' {
        Some(TextKind::RequestTime)
    } else if c == 'r' {
        Some(TextKind::RequestLine)
    } else if c == 's' {
        Some(TextKind::ResponseStatus)
    } else if c == 'b' {
        Some(TextKind::ResponseSize)
    } else if c == 'T' {
        Some(TextKind::ElapsedSeconds)
    } else if c == 'D' {
        Some(TextKind::ElapsedMillis)
    } else if c == 'M' {
        Some(TextKind::Method)
    } else if c == 'V' {
        Some(TextKind::Version)
    } else if c == 'Q' {
        Some(TextKind::Query)
    } else if c == 'U' {
        Some(TextKind::UrlPath)
    } else {
        None
    }
}

/// The directive that starts at `i`, as `directive_at` describes it.
fn directive_exec(s: &Vec<char>, i: usize) -> (r: Option<(FormatText, usize)>)
    requires
        i < s.len(),
    ensures
        match r {
            None => directive_at(s@, i as int) is None,
            Some((t, e)) => directive_at(s@, i as int) == Some((t@, e as int)) && i < e <= s.len(),
        },
{
    if i + 1 >= s.len() || s[i] != '%' {
        return None;
    }
    if s[i + 1] != '{' {
        return match bare_kind_exec(s[i + 1]) {
            Some(k) => Some((element(k, String::new()), i + 2)),
            None => None,
        };
    }
    let j: usize = name_end_exec(s, i + 2);
    if j == i + 2 || j >= s.len() - 1 || s[j] != '}' {
        return None;
    }
    let c: char = s[j + 1];
    if c == 'i' {
        Some((element(TextKind::RequestHeader, lower_string_of(s, i + 2, j)), j + 2))
    } else if c == 'o' {
        Some((element(TextKind::ResponseHeader, lower_string_of(s, i + 2, j)), j + 2))
    } else if c == 'e' {
        Some((element(TextKind::EnvVar, string_of(s, i + 2, j)), j + 2))
    } else if c == 'a' && j == i + 3 && s[i + 2] == 'r' {
        assert(s@.subrange(i + 2, j as int) =~= seq!['r']);
        Some((element(TextKind::RealRemoteAddr, String::new()), j + 2))
    } else if c == 'x' && j + 2 < s.len() && s[j + 2] == 'i' {
        Some((element(TextKind::CustomRequest, string_of(s, i + 2, j)), j + 3))
    } else if c == 'x' && j + 2 < s.len() && s[j + 2] == 'o' {
        Some((element(TextKind::CustomResponse, string_of(s, i + 2, j)), j + 3))
    } else {
        proof {
            if c == 'a' {
                let name = s@.subrange(i + 2, j as int);
                if name == seq!['r'] {
                    assert(name.len() == 1);
                    assert(name[0] == s@[i + 2]);
                }
            }
        }
        None
    }
}

/// Compiles a format string. Text that is not a recognised directive,
/// including `%` before an unknown letter, is kept as literal text.
pub fn compile(fmt: &str) -> (r: Vec<FormatText>)
    ensures
        models(r@) == compile_spec(fmt@),
        forall|k: int| 0 <= k < r.len() ==> (#[trigger] r@[k]).slot is None,
{
    let s: Vec<char> = chars_of(fmt);
    let mut out: Vec<FormatText> = Vec::new();
    let mut lit: String = String::new();
    let mut i: usize = 0;
    while i < s.len()
        invariant
            i <= s.len(),
            s@ == fmt@,
            forall|k: int| 0 <= k < out.len() ==> (#[trigger] out@[k]).slot is None,
            models(out@) + compile_from(s@, i as int, lit@) == compile_spec(s@),
        decreases s.len() - i,
    {
        match directive_exec(&s, i) {
            Some((t, e)) => {
                let ghost before = models(out@);
                let ghost tm = t@;
                let ghost pending = lit@;
                assert(compile_from(s@, i as int, pending) == flush(pending) + seq![tm]
                    + compile_from(s@, e as int, seq![]));
                if !lit.as_str().is_empty() {
                    out.push(element(TextKind::Literal, lit));
                    lit = String::new();
                }
                assert(lit@ =~= seq![]);
                out.push(t);
                assert(models(out@) =~= before + flush(pending) + seq![tm]);
                assert(models(out@) + compile_from(s@, e as int, lit@) =~= before + compile_from(
                    s@,
                    i as int,
                    pending,
                ));
                i = e;
            },
            None => {
                push_char(&mut lit, s[i]);
                i = i + 1;
            },
        }
    }
    let ghost before = models(out@);
    let ghost pending = lit@;
    if !lit.as_str().is_empty() {
        out.push(element(TextKind::Literal, lit));
    }
    assert(models(out@) =~= before + flush(pending));
    out
}

} // verus!
