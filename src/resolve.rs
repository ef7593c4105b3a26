//! The two resolution phases: fields known from the request, resolved before
//! the handler runs, and fields known from the response, resolved after it.

use vstd::prelude::*;

use crate::format::{mk, models, FormatText, TextKind, TextModel};
use crate::text::{decimal, padded, push_char, push_padded};

verus! {

/// A header as the host framework reports it: its lower-case name and its
/// values in order.
pub struct HeaderEntry {
    pub name: String,
    pub values: Vec<String>,
}

/// A calendar time in UTC, to the second.
#[derive(Clone, Copy, Debug, PartialEq, Eq, Structural)]
pub struct Timestamp {
    pub year: u16,
    pub month: u8,
    pub day: u8,
    pub hour: u8,
    pub minute: u8,
    pub second: u8,
}

/// What the resolution of request fields reads from a request.
pub struct RequestInfo {
    pub method: String,
    pub path: String,
    pub query: Option<String>,
    pub version: Option<String>,
    pub headers: Vec<HeaderEntry>,
    /// The address that the transport reports.
    pub peer_addr: Option<String>,
    /// The address of the client as forwarding headers give it.
    pub remote: Option<String>,
    /// When handling of the request began.
    pub started: Timestamp,
}

/// What the resolution of response fields reads from a response.
pub struct ResponseInfo {
    pub status: u16,
    pub headers: Vec<HeaderEntry>,
}

/// The sentinel for a value that is absent.
pub open spec fn dash() -> Seq<char> {
    seq!['-']
}

/// The sentinel for a header that is present with no value.
pub open spec fn underscore() -> Seq<char> {
    seq!['_']
}

/// The text of header `name`: the first value of the first entry of that
/// name, `_` when that entry has no value, `-` when there is no such entry.
pub open spec fn header_text(hs: Seq<HeaderEntry>, name: Seq<char>) -> Seq<char>
    decreases hs.len(),
{
    if hs.len() == 0 {
        dash()
    } else if hs[0].name@ == name {
        if hs[0].values@.len() == 0 {
            underscore()
        } else {
            hs[0].values@[0]@
        }
    } else {
        header_text(hs.drop_first(), name)
    }
}

/// A value that may be absent, `-` when it is.
pub open spec fn or_dash(v: Option<String>) -> Seq<char> {
    match v {
        Some(s) => s@,
        None => dash(),
    }
}

/// A protocol version that may be unknown, `?` when it is.
pub open spec fn or_question(v: Option<String>) -> Seq<char> {
    match v {
        Some(s) => s@,
        None => seq!['?'],
    }
}

/// `METHOD PATH[?QUERY] VERSION`.
pub open spec fn request_line(r: RequestInfo) -> Seq<char> {
    r.method@ + seq![' '] + r.path@ + match r.query {
        Some(q) => seq!['?'] + q@,
        None => seq![],
    } + seq![' '] + or_question(r.version)
}

/// `YYYY-MM-DDTHH:MM:SS`.
pub open spec fn timestamp_text(t: Timestamp) -> Seq<char> {
    padded(t.year as nat, 4) + seq!['-'] + padded(t.month as nat, 2) + seq!['-'] + padded(
        t.day as nat,
        2,
    ) + seq!['T'] + padded(t.hour as nat, 2) + seq![':'] + padded(t.minute as nat, 2) + seq![':']
        + padded(t.second as nat, 2)
}

/// The output of the resolver in `slot`, `-` when none is bound.
pub open spec fn custom_value(slot: Option<usize>, outs: Seq<String>) -> Seq<char> {
    match slot {
        Some(k) => if k < outs.len() {
            outs[k as int]@
        } else {
            dash()
        },
        None => dash(),
    }
}

/// The text of an element that the request determines, if it is one.
pub open spec fn request_value(t: TextModel, r: RequestInfo, outs: Seq<String>) -> Option<
    Seq<char>,
> {
    match t.kind {
        TextKind::RequestLine => Some(request_line(r)),
        TextKind::Method => Some(r.method@),
        TextKind::Version => Some(or_question(r.version)),
        TextKind::Query => Some(or_dash(r.query)),
        TextKind::UrlPath => Some(r.path@),
        TextKind::RequestTime => Some(timestamp_text(r.started)),
        TextKind::RequestHeader => Some(header_text(r.headers@, t.arg)),
        TextKind::RemoteAddr => Some(or_dash(r.peer_addr)),
        TextKind::RealRemoteAddr => Some(or_dash(r.remote)),
        TextKind::CustomRequest => Some(custom_value(t.slot, outs)),
        _ => None,
    }
}

/// The text of an element that the response determines, if it is one.
pub open spec fn response_value(t: TextModel, r: ResponseInfo, outs: Seq<String>) -> Option<
    Seq<char>,
> {
    match t.kind {
        TextKind::ResponseStatus => Some(decimal(r.status as nat)),
        TextKind::ResponseHeader => Some(header_text(r.headers@, t.arg)),
        TextKind::CustomResponse => Some(custom_value(t.slot, outs)),
        _ => None,
    }
}

/// An element after the request phase: a literal if the request determines
/// it, else unchanged.
pub open spec fn request_resolved(t: TextModel, r: RequestInfo, outs: Seq<String>) -> TextModel {
    match request_value(t, r, outs) {
        Some(v) => mk(TextKind::Literal, v),
        None => t,
    }
}

/// An element after the response phase.
pub open spec fn response_resolved(t: TextModel, r: ResponseInfo, outs: Seq<String>) -> TextModel {
    match response_value(t, r, outs) {
        Some(v) => mk(TextKind::Literal, v),
        None => t,
    }
}

pub open spec fn request_phase(ts: Seq<TextModel>, r: RequestInfo, outs: Seq<String>) -> Seq<
    TextModel,
> {
    ts.map_values(|t: TextModel| request_resolved(t, r, outs))
}

pub open spec fn response_phase(ts: Seq<TextModel>, r: ResponseInfo, outs: Seq<String>) -> Seq<
    TextModel,
> {
    ts.map_values(|t: TextModel| response_resolved(t, r, outs))
}

pub(crate) fn one_char(c: char) -> (r: String)
    ensures
        r@ == seq![c],
{
    let mut r: String = String::new();
    push_char(&mut r, c);
    assert(r@ =~= seq![c]);
    r
}

/// The text of header `name` among `headers`.
pub fn header_value(headers: &Vec<HeaderEntry>, name: &String) -> (r: String)
    ensures
        r@ == header_text(headers@, name@),
{
    let mut i: usize = 0;
    assert(headers@.skip(0) =~= headers@);
    while i < headers.len()
        invariant
            i <= headers.len(),
            header_text(headers@, name@) == header_text(headers@.skip(i as int), name@),
        decreases headers.len() - i,
    {
        let e: &HeaderEntry = &headers[i];
        assert(headers@.skip(i as int)[0] == e);
        if e.name == *name {
            if e.values.len() == 0 {
                return one_char('_');
            } else {
                return e.values[0].clone();
            }
        }
        assert(headers@.skip(i as int).drop_first() =~= headers@.skip(i + 1));
        i = i + 1;
    }
    assert(headers@.skip(i as int).len() == 0);
    one_char('-')
}

/// Header lookups: with no entry of the name the text is `-`; when the
/// first entry of the name has no value it is `_`; otherwise it is that
/// entry's first value.
pub proof fn lemma_header_sentinels(hs: Seq<HeaderEntry>, name: Seq<char>)
    ensures
        (forall|i: int| 0 <= i < hs.len() ==> (#[trigger] hs[i]).name@ != name) ==> header_text(
            hs,
            name,
        ) == dash(),
        forall|i: int|
            0 <= i < hs.len() && (#[trigger] hs[i]).name@ == name && (forall|j: int|
                0 <= j < i ==> hs[j].name@ != name) ==> header_text(hs, name) == if hs[i].values@.len()
                == 0 {
                underscore()
            } else {
                hs[i].values@[0]@
            },
    decreases hs.len(),
{
    if hs.len() > 0 {
        let rest = hs.drop_first();
        lemma_header_sentinels(rest, name);
        assert forall|i: int|
            0 <= i < hs.len() && (#[trigger] hs[i]).name@ == name && (forall|j: int|
                0 <= j < i ==> hs[j].name@ != name) implies header_text(hs, name) == if hs[i].values@.len()
            == 0 {
            underscore()
        } else {
            hs[i].values@[0]@
        } by {
            if i > 0 {
                assert(hs[0].name@ != name);
                assert(rest[i - 1] == hs[i]);
                assert forall|j: int| 0 <= j < i - 1 implies rest[j].name@ != name by {
                    assert(rest[j] == hs[j + 1]);
                }
            }
        }
        if forall|i: int| 0 <= i < hs.len() ==> (#[trigger] hs[i]).name@ != name {
            assert(hs[0].name@ != name);
            assert forall|i: int| 0 <= i < rest.len() implies (#[trigger] rest[i]).name@ != name by {
                assert(rest[i] == hs[i + 1]);
            }
        }
    }
}

/// Resolving the request phase a second time changes nothing.
pub proof fn lemma_request_phase_idempotent(ts: Seq<TextModel>, r: RequestInfo, outs: Seq<String>)
    ensures
        request_phase(request_phase(ts, r, outs), r, outs) == request_phase(ts, r, outs),
{
    assert(request_phase(request_phase(ts, r, outs), r, outs) =~= request_phase(ts, r, outs));
}

fn copy_text(t: &FormatText) -> (r: FormatText)
    ensures
        r@ == t@,
{
    FormatText { kind: t.kind, arg: t.arg.clone(), slot: t.slot }
}

fn literal(v: String) -> (r: FormatText)
    ensures
        r@ == mk(TextKind::Literal, v@),
{
    FormatText { kind: TextKind::Literal, arg: v, slot: None }
}

fn or_dash_exec(v: &Option<String>) -> (r: String)
    ensures
        r@ == or_dash(*v),
{
    match v {
        Some(s) => s.clone(),
        None => one_char('-'),
    }
}

fn or_question_exec(v: &Option<String>) -> (r: String)
    ensures
        r@ == or_question(*v),
{
    match v {
        Some(s) => s.clone(),
        None => one_char('?'),
    }
}

fn custom_value_exec(slot: Option<usize>, outs: &Vec<String>) -> (r: String)
    ensures
        r@ == custom_value(slot, outs@),
{
    match slot {
        Some(k) => if k < outs.len() {
            outs[k].clone()
        } else {
            one_char('-')
        },
        None => one_char('-'),
    }
}

fn request_line_exec(r: &RequestInfo) -> (s: String)
    ensures
        s@ == request_line(*r),
{
    let mut s: String = r.method.clone();
    push_char(&mut s, ' ');
    s.append(r.path.as_str());
    match &r.query {
        Some(q) => {
            push_char(&mut s, '?');
            s.append(q.as_str());
        },
        None => {},
    }
    push_char(&mut s, ' ');
    let v: String = or_question_exec(&r.version);
    s.append(v.as_str());
    assert(s@ =~= request_line(*r));
    s
}

/// `YYYY-MM-DDTHH:MM:SS` for `t`.
pub fn timestamp_string(t: Timestamp) -> (s: String)
    ensures
        s@ == timestamp_text(t),
{
    let mut s: String = String::new();
    push_padded(&mut s, t.year as u128, 4);
    push_char(&mut s, '-');
    push_padded(&mut s, t.month as u128, 2);
    push_char(&mut s, '-');
    push_padded(&mut s, t.day as u128, 2);
    push_char(&mut s, 'T');
    push_padded(&mut s, t.hour as u128, 2);
    push_char(&mut s, ':');
    push_padded(&mut s, t.minute as u128, 2);
    push_char(&mut s, ':');
    push_padded(&mut s, t.second as u128, 2);
    assert(s@ =~= timestamp_text(t));
    s
}

fn request_value_exec(t: &FormatText, r: &RequestInfo, outs: &Vec<String>) -> (v: Option<String>)
    ensures
        match v {
            Some(s) => request_value(t@, *r, outs@) == Some(s@),
            None => request_value(t@, *r, outs@) is None,
        },
{
    match t.kind {
        TextKind::RequestLine => Some(request_line_exec(r)),
        TextKind::Method => Some(r.method.clone()),
        TextKind::Version => Some(or_question_exec(&r.version)),
        TextKind::Query => Some(or_dash_exec(&r.query)),
        TextKind::UrlPath => Some(r.path.clone()),
        TextKind::RequestTime => Some(timestamp_string(r.started)),
        TextKind::RequestHeader => Some(header_value(&r.headers, &t.arg)),
        TextKind::RemoteAddr => Some(or_dash_exec(&r.peer_addr)),
        TextKind::RealRemoteAddr => Some(or_dash_exec(&r.remote)),
        TextKind::CustomRequest => Some(custom_value_exec(t.slot, outs)),
        _ => None,
    }
}

fn response_value_exec(t: &FormatText, r: &ResponseInfo, outs: &Vec<String>) -> (v: Option<
    String,
>)
    ensures
        match v {
            Some(s) => response_value(t@, *r, outs@) == Some(s@),
            None => response_value(t@, *r, outs@) is None,
        },
{
    match t.kind {
        TextKind::ResponseStatus => {
            let mut s: String = String::new();
            push_padded(&mut s, r.status as u128, 1);
            assert(s@ =~= decimal(r.status as nat));
            Some(s)
        },
        TextKind::ResponseHeader => Some(header_value(&r.headers, &t.arg)),
        TextKind::CustomResponse => Some(custom_value_exec(t.slot, outs)),
        _ => None,
    }
}

/// The request phase: a copy of `format` in which every element that the
/// request determines is a literal. `outs[k]` is what the request resolver
/// bound in slot `k` returned for this request.
pub fn resolve_request(format: &Vec<FormatText>, req: &RequestInfo, outs: &Vec<String>) -> (r: Vec<
    FormatText,
>)
    ensures
        models(r@) == request_phase(models(format@), *req, outs@),
{
    let mut r: Vec<FormatText> = Vec::new();
    let mut i: usize = 0;
    while i < format.len()
        invariant
            i <= format.len(),
            models(r@) == request_phase(models(format@.subrange(0, i as int)), *req, outs@),
        decreases format.len() - i,
    {
        let t: &FormatText = &format[i];
        let n: FormatText = match request_value_exec(t, req, outs) {
            Some(v) => literal(v),
            None => copy_text(t),
        };
        assert(n@ == request_resolved(t@, *req, outs@));
        let ghost prev = r@;
        r.push(n);
        assert(models(r@) =~= models(prev).push(n@));
        assert(format@.subrange(0, i + 1) =~= format@.subrange(0, i as int).push(*t));
        i = i + 1;
        assert(models(r@) =~= request_phase(models(format@.subrange(0, i as int)), *req, outs@));
    }
    assert(format@.subrange(0, i as int) =~= format@);
    r
}

/// The response phase: a copy of `format` in which every element that the
/// response determines is a literal. `outs[k]` is what the response resolver
/// bound in slot `k` returned for this response.
pub fn resolve_response(format: &Vec<FormatText>, resp: &ResponseInfo, outs: &Vec<String>) -> (r:
    Vec<FormatText>)
    ensures
        models(r@) == response_phase(models(format@), *resp, outs@),
{
    let mut r: Vec<FormatText> = Vec::new();
    let mut i: usize = 0;
    while i < format.len()
        invariant
            i <= format.len(),
            models(r@) == response_phase(models(format@.subrange(0, i as int)), *resp, outs@),
        decreases format.len() - i,
    {
        let t: &FormatText = &format[i];
        let n: FormatText = match response_value_exec(t, resp, outs) {
            Some(v) => literal(v),
            None => copy_text(t),
        };
        assert(n@ == response_resolved(t@, *resp, outs@));
        let ghost prev = r@;
        r.push(n);
        assert(models(r@) =~= models(prev).push(n@));
        assert(format@.subrange(0, i + 1) =~= format@.subrange(0, i as int).push(*t));
        i = i + 1;
        assert(models(r@) =~= response_phase(models(format@.subrange(0, i as int)), *resp, outs@));
    }
    assert(format@.subrange(0, i as int) =~= format@);
    r
}

} // verus!
