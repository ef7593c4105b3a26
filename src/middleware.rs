//! The configuration shared by all requests: the compiled format, the paths
//! and patterns excluded from logging, the custom field resolvers bound to
//! the format, and the optional span generator.

use vstd::prelude::*;

use regex::RegexSet;

use crate::format::{compile, compile_spec, mk, models, FormatText, TextKind, TextModel};
use crate::resolve::{resolve_request, resolve_response, request_phase, response_phase, RequestInfo, ResponseInfo};

verus! {

#[verifier::external_type_specification]
#[verifier::external_body]
pub struct ExRegexSet(regex::RegexSet);

#[verifier::external_type_specification]
#[verifier::external_body]
pub struct ExRegexError(regex::Error);

/// The patterns that a `RegexSet` holds, in order.
pub uninterp spec fn set_patterns(s: RegexSet) -> Seq<Seq<char>>;

/// Whether pattern `p` matches somewhere in `text`, as the `regex` crate
/// decides it.
pub uninterp spec fn pattern_matches(p: Seq<char>, text: Seq<char>) -> bool;

/// Whether one of `patterns` matches somewhere in `text`.
pub open spec fn any_matches(patterns: Seq<Seq<char>>, text: Seq<char>) -> bool {
    exists|j: int| 0 <= j < patterns.len() && #[trigger] pattern_matches(patterns[j], text)
}

/// Relies on `regex::RegexSet::empty`: a set of no patterns.
pub assume_specification[ regex::RegexSet::empty ]() -> (r: RegexSet)
    ensures
        set_patterns(r) == Seq::<Seq<char>>::empty(),
;

/// Relies on `regex::RegexSet::is_match`: true if and only if one of the
/// patterns of the set matches the haystack.
pub assume_specification[ regex::RegexSet::is_match ](s: &RegexSet, haystack: &str) -> (r: bool)
    ensures
        r == (exists|j: int| 0 <= j < set_patterns(*s).len() && #[trigger] pattern_matches(set_patterns(*s)[j], haystack@)),
;

/// Whether every one of `ps` is a regular expression that the `regex` crate
/// accepts and the set of them builds.
pub uninterp spec fn patterns_compile(ps: Seq<Seq<char>>) -> bool;

/// Relies on `regex::RegexSet::new`: it succeeds or fails on the patterns
/// alone, and on success the set holds the given patterns in order.
#[verifier::external_body]
fn regex_set_new(patterns: &Vec<String>) -> (r: Result<RegexSet, regex::Error>)
    ensures
        (r is Ok) == patterns_compile(patterns@.map_values(|p: String| p@)),
        r is Ok ==> set_patterns(r->Ok_0) == patterns@.map_values(|p: String| p@),
{
    RegexSet::new(patterns)
}

/// The format used by `TracingMiddleware::default`.
pub const DEFAULT_FORMAT: &'static str = "%a \"%r\" %s %b \"%{Referer}i\" \"%{User-Agent}i\" %T";

/// An error in the configuration.
#[derive(Debug, Clone, Copy, PartialEq, Eq, Structural)]
pub enum ConfigError {
    /// An exclusion pattern is not a valid regular expression.
    InvalidPattern,
}

/// The strings of a vector, as sequences of characters.
pub open spec fn texts(v: Seq<String>) -> Seq<Seq<char>> {
    v.map_values(|s: String| s@)
}

/// What a `TracingMiddleware` holds.
pub struct MiddlewareModel<Q, P, S> {
    pub format: Seq<TextModel>,
    pub exclude: Seq<Seq<char>>,
    pub patterns: Seq<Seq<char>>,
    pub request_fns: Seq<Q>,
    pub response_fns: Seq<P>,
    pub span: Option<S>,
}

/// Whether `path` is excluded from logging: equal to an excluded path, or
/// matched by an excluded pattern.
pub open spec fn excluded(exclude: Seq<Seq<char>>, patterns: Seq<Seq<char>>, path: Seq<char>) -> bool {
    (exists|i: int| 0 <= i < exclude.len() && exclude[i] == path) || any_matches(patterns, path)
}

/// The first element of kind `kind` whose label is `label`.
pub open spec fn first_labelled(ts: Seq<TextModel>, kind: TextKind, label: Seq<char>) -> Option<int> {
    if exists|k: int| 0 <= k < ts.len() && ts[k].kind == kind && ts[k].arg == label {
        Some(
            choose|k: int|
                0 <= k < ts.len() && ts[k].kind == kind && ts[k].arg == label && forall|m: int|
                    0 <= m < k ==> !(ts[m].kind == kind && ts[m].arg == label),
        )
    } else {
        None
    }
}

/// The resolver bound to element `k`, if any.
pub open spec fn bound_fn<F>(ts: Seq<TextModel>, fns: Seq<F>, k: int) -> Option<F> {
    match ts[k].slot {
        Some(j) => if j < fns.len() {
            Some(fns[j as int])
        } else {
            None
        },
        None => None,
    }
}

/// The slots of elements of `kind` index `fns` and no two share one.
pub open spec fn slots_ok(ts: Seq<TextModel>, kind: TextKind, n: nat) -> bool {
    &&& forall|k: int|
        0 <= k < ts.len() && ts[k].kind == kind && #[trigger] ts[k].slot is Some ==> (
        ts[k].slot->0 as nat) < n
    &&& forall|k: int, m: int|
        0 <= k < ts.len() && 0 <= m < ts.len() && k != m && ts[k].kind == kind && ts[m].kind
            == kind && #[trigger] ts[k].slot is Some && #[trigger] ts[m].slot is Some ==> ts[k].slot
            != ts[m].slot
}

/// The first element of `kind` labelled `label`.
fn find_labelled(ts: &Vec<FormatText>, kind: TextKind, label: &String) -> (r: Option<usize>)
    ensures
        match r {
            Some(k) => first_labelled(models(ts@), kind, label@) == Some(k as int) && k < ts.len()
                && ts@[k as int].kind == kind,
            None => first_labelled(models(ts@), kind, label@) is None,
        },
{
    let ghost m = models(ts@);
    let mut i: usize = 0;
    while i < ts.len()
        invariant
            i <= ts.len(),
            m == models(ts@),
            forall|q: int| 0 <= q < i ==> !(m[q].kind == kind && m[q].arg == label@),
        decreases ts.len() - i,
    {
        if ts[i].kind == kind && ts[i].arg == *label {
            assert(m[i as int].kind == kind && m[i as int].arg == label@);
            let ghost c = choose|c: int|
                0 <= c < m.len() && m[c].kind == kind && m[c].arg == label@ && forall|q: int|
                    0 <= q < c ==> !(m[q].kind == kind && m[q].arg == label@);
            assert(0 <= c < m.len() && m[c].kind == kind && m[c].arg == label@ && forall|q: int|
                0 <= q < c ==> !(m[q].kind == kind && m[q].arg == label@));
            assert(c == i);
            return Some(i);
        }
        i = i + 1;
    }
    None
}

/// Elements of another kind than the rebound one keep their slots.
proof fn lemma_slots_kept(
    before: Seq<TextModel>,
    after: Seq<TextModel>,
    kind: TextKind,
    rebound: TextKind,
    n: nat,
)
    requires
        kind != rebound,
        slots_ok(before, kind, n),
        after.len() == before.len(),
        forall|m: int| 0 <= m < after.len() ==> (#[trigger] after[m]).kind == before[m].kind,
        forall|m: int|
            0 <= m < after.len() && #[trigger] before[m].kind != rebound ==> after[m] == before[m],
    ensures
        slots_ok(after, kind, n),
{
    assert forall|m: int| 0 <= m < after.len() && after[m].kind == kind implies after[m]
        == before[m] by {
        assert(before[m].kind != rebound);
    }
}

/// Binds `f` to element `k`: in the slot the element already has, or in a
/// new one.
fn bind_slot<F>(format: &mut Vec<FormatText>, fns: &mut Vec<F>, k: usize, kind: TextKind, f: F)
    requires
        k < old(format).len(),
        old(format)@[k as int].kind == kind,
        slots_ok(models(old(format)@), kind, old(fns).len() as nat),
    ensures
        final(format).len() == old(format).len(),
        forall|m: int|
            0 <= m < final(format).len() ==> (#[trigger] models(final(format)@)[m]).kind == models(
                old(format)@,
            )[m].kind && models(final(format)@)[m].arg == models(old(format)@)[m].arg,
        forall|m: int|
            0 <= m < final(format).len() && m != k && #[trigger] models(old(format)@)[m].kind
                != kind ==> models(final(format)@)[m] == models(old(format)@)[m],
        slots_ok(models(final(format)@), kind, final(fns).len() as nat),
        bound_fn(models(final(format)@), final(fns)@, k as int) == Some(f),
        forall|m: int|
            0 <= m < final(format).len() && m != k && #[trigger] models(old(format)@)[m].kind == kind
                ==> bound_fn(models(final(format)@), final(fns)@, m) == bound_fn(
                models(old(format)@),
                old(fns)@,
                m,
            ),
{
    let ghost m0 = models(format@);
    match format[k].slot {
        Some(j) => {
            assert(m0[k as int].slot == Some(j));
            fns[j] = f;
            assert(models(format@) == m0);
            assert forall|m: int|
                0 <= m < format.len() && m != k && #[trigger] m0[m].kind == kind implies bound_fn(
                models(format@),
                fns@,
                m,
            ) == bound_fn(m0, old(fns)@, m) by {
                if m0[m].slot is Some {
                    assert(m0[m].slot != m0[k as int].slot);
                }
            }
        },
        None => {
            let j: usize = fns.len();
            fns.push(f);
            let arg: String = format[k].arg.clone();
            format[k] = FormatText { kind, arg, slot: Some(j) };
            assert(models(format@) =~= m0.update(
                k as int,
                TextModel { kind, arg: m0[k as int].arg, slot: Some(j) },
            ));
        },
    }
}

/// Access-log configuration: a compiled format, exclusions, custom field
/// resolvers of types `Q` (request) and `P` (response), and an optional span
/// generator of type `S`. It is built once and then only read.
pub struct TracingMiddleware<Q, P, S> {
    format: Vec<FormatText>,
    exclude: Vec<String>,
    exclude_patterns: Vec<String>,
    exclude_regex: RegexSet,
    request_fns: Vec<Q>,
    response_fns: Vec<P>,
    gen_tracing_span: Option<S>,
}

impl<Q, P, S> View for TracingMiddleware<Q, P, S> {
    type V = MiddlewareModel<Q, P, S>;

    closed spec fn view(&self) -> MiddlewareModel<Q, P, S> {
        MiddlewareModel {
            format: models(self.format@),
            exclude: texts(self.exclude@),
            patterns: texts(self.exclude_patterns@),
            request_fns: self.request_fns@,
            response_fns: self.response_fns@,
            span: self.gen_tracing_span,
        }
    }
}

impl<Q, P, S> TracingMiddleware<Q, P, S> {
    /// The internal invariant: excluded paths are listed once, the pattern
    /// set holds the excluded patterns, and each bound custom field has a
    /// resolver of its own.
    pub closed spec fn well_formed(&self) -> bool {
        &&& texts(self.exclude@).no_duplicates()
        &&& set_patterns(self.exclude_regex) == texts(self.exclude_patterns@)
        &&& slots_ok(self@.format, TextKind::CustomRequest, self.request_fns.len() as nat)
        &&& slots_ok(self@.format, TextKind::CustomResponse, self.response_fns.len() as nat)
    }

    /// A custom request field with a bound resolver resolves, in the request
    /// phase, to exactly what that resolver returned: `outs[j]` for the
    /// resolver in slot `j`, given one output per resolver.
    pub proof fn lemma_bound_request_field(&self, r: RequestInfo, outs: Seq<String>, k: int)
        requires
            self.well_formed(),
            0 <= k < self@.format.len(),
            self@.format[k].kind == TextKind::CustomRequest,
            self@.format[k].slot is Some,
            outs.len() == self@.request_fns.len(),
        ensures
            bound_fn(self@.format, self@.request_fns, k) == Some(
                self@.request_fns[self@.format[k].slot->0 as int],
            ),
            request_phase(self@.format, r, outs)[k] == mk(
                TextKind::Literal,
                outs[self@.format[k].slot->0 as int]@,
            ),
    {
        assert(self@.format[k].slot is Some);
    }

    /// A custom response field with a bound resolver resolves, in the
    /// response phase, to exactly what that resolver returned.
    pub proof fn lemma_bound_response_field(&self, r: ResponseInfo, outs: Seq<String>, k: int)
        requires
            self.well_formed(),
            0 <= k < self@.format.len(),
            self@.format[k].kind == TextKind::CustomResponse,
            self@.format[k].slot is Some,
            outs.len() == self@.response_fns.len(),
        ensures
            bound_fn(self@.format, self@.response_fns, k) == Some(
                self@.response_fns[self@.format[k].slot->0 as int],
            ),
            response_phase(self@.format, r, outs)[k] == mk(
                TextKind::Literal,
                outs[self@.format[k].slot->0 as int]@,
            ),
    {
        assert(self@.format[k].slot is Some);
    }

    /// A configuration that logs with format `s` and excludes nothing.
    pub fn new(s: &str) -> (r: Self)
        ensures
            r.well_formed(),
            r@.format == compile_spec(s@),
            r@.exclude.len() == 0,
            r@.patterns.len() == 0,
            r@.request_fns.len() == 0,
            r@.response_fns.len() == 0,
            r@.span is None,
    {
        let format: Vec<FormatText> = compile(s);
        let r = TracingMiddleware {
            format,
            exclude: Vec::new(),
            exclude_patterns: Vec::new(),
            exclude_regex: RegexSet::empty(),
            request_fns: Vec::new(),
            response_fns: Vec::new(),
            gen_tracing_span: None,
        };
        assert(r.exclude_patterns@.len() == 0);
        assert(texts(r.exclude@).len() == 0);
        assert(texts(r.exclude_patterns@) =~= Seq::<Seq<char>>::empty());
        r
    }

    /// Excludes requests whose path equals `path` from logging.
    pub fn exclude(self, path: &str) -> (r: Self)
        requires
            self.well_formed(),
        ensures
            r.well_formed(),
            r@ == (MiddlewareModel {
                exclude: if self@.exclude.contains(path@) {
                    self@.exclude
                } else {
                    self@.exclude.push(path@)
                },
                ..self@
            }),
    {
        let mut this = self;
        let p: String = path.to_owned();
        let mut i: usize = 0;
        while i < this.exclude.len()
            invariant
                i <= this.exclude.len(),
                this@ == self@,
                this.well_formed(),
                p@ == path@,
                forall|q: int| 0 <= q < i ==> texts(this.exclude@)[q] != path@,
            decreases this.exclude.len() - i,
        {
            if this.exclude[i] == p {
                assert(texts(this.exclude@)[i as int] == path@);
                assert(this@.exclude.contains(path@));
                return this;
            }
            i = i + 1;
        }
        assert(!this@.exclude.contains(path@));
        let ghost before = this@;
        this.exclude.push(p);
        assert(texts(this.exclude@) =~= before.exclude.push(path@));
        assert(texts(this.exclude@).no_duplicates()) by {
            let t = texts(this.exclude@);
            assert forall|a: int, b: int| 0 <= a < t.len() && 0 <= b < t.len() && a != b implies t[a]
                != t[b] by {
                if a == t.len() - 1 {
                    assert(before.exclude[b] == t[b]);
                } else if b == t.len() - 1 {
                    assert(before.exclude[a] == t[a]);
                } else {
                    assert(before.exclude[a] == t[a] && before.exclude[b] == t[b]);
                }
            }
        }
        assert(this@ == (MiddlewareModel { exclude: before.exclude.push(path@), ..before }));
        this
    }

    /// Excludes requests whose path matches the regular expression
    /// `pattern` from logging. The call succeeds exactly when the excluded
    /// patterns with `pattern` added compile; otherwise it is an error.
    pub fn exclude_regex(self, pattern: &str) -> (r: Result<Self, ConfigError>)
        requires
            self.well_formed(),
        ensures
            r is Ok ==> r->Ok_0.well_formed() && r->Ok_0@ == (MiddlewareModel {
                patterns: self@.patterns.push(pattern@),
                ..self@
            }),
            (r is Ok) == patterns_compile(self@.patterns.push(pattern@)),
            r is Err ==> r->Err_0 == ConfigError::InvalidPattern,
    {
        let mut this = self;
        let mut patterns: Vec<String> = Vec::new();
        let mut i: usize = 0;
        while i < this.exclude_patterns.len()
            invariant
                i <= this.exclude_patterns.len(),
                this@ == self@,
                this.well_formed(),
                texts(patterns@) == texts(this.exclude_patterns@).subrange(0, i as int),
            decreases this.exclude_patterns.len() - i,
        {
            let ghost prev = patterns@;
            let c: String = this.exclude_patterns[i].clone();
            patterns.push(c);
            assert(texts(patterns@) =~= texts(prev).push(c@));
            i = i + 1;
            assert(texts(patterns@) =~= texts(this.exclude_patterns@).subrange(0, i as int));
        }
        assert(texts(this.exclude_patterns@).subrange(0, i as int) =~= texts(this.exclude_patterns@));
        let ghost prev = patterns@;
        let c: String = pattern.to_owned();
        patterns.push(c);
        assert(texts(patterns@) =~= texts(prev).push(c@));
        match regex_set_new(&patterns) {
            Ok(set) => {
                let ghost before = this@;
                this.exclude_regex = set;
                this.exclude_patterns = patterns;
                assert(this@ == (MiddlewareModel { patterns: before.patterns.push(pattern@), ..before }));
                Ok(this)
            },
            Err(_) => Err(ConfigError::InvalidPattern),
        }
    }

    /// Binds `f` as the request resolver of the first `%{label}xi` field of
    /// the format, replacing any earlier binding. Without such a field the
    /// configuration is returned unchanged.
    #[verifier::rlimit(50)]
    pub fn custom_request_replace(self, label: &str, f: Q) -> (r: Self)
        requires
            self.well_formed(),
        ensures
            r.well_formed(),
            r@.exclude == self@.exclude,
            r@.patterns == self@.patterns,
            r@.response_fns == self@.response_fns,
            r@.span == self@.span,
            r@.format.len() == self@.format.len(),
            forall|m: int|
                0 <= m < r@.format.len() ==> (#[trigger] r@.format[m]).kind == self@.format[m].kind
                    && r@.format[m].arg == self@.format[m].arg,
            forall|m: int|
                0 <= m < r@.format.len() && #[trigger] self@.format[m].kind != TextKind::CustomRequest
                    ==> r@.format[m] == self@.format[m],
            match first_labelled(self@.format, TextKind::CustomRequest, label@) {
                None => r@ == self@,
                Some(k) => bound_fn(r@.format, r@.request_fns, k) == Some(f) && forall|m: int|
                    0 <= m < r@.format.len() && m != k && #[trigger] self@.format[m].kind
                        == TextKind::CustomRequest ==> bound_fn(r@.format, r@.request_fns, m)
                        == bound_fn(self@.format, self@.request_fns, m),
            },
    {
        let mut this = self;
        let l: String = label.to_owned();
        match find_labelled(&this.format, TextKind::CustomRequest, &l) {
            None => this,
            Some(k) => {
                let ghost before = models(this.format@);
                bind_slot(&mut this.format, &mut this.request_fns, k, TextKind::CustomRequest, f);
                proof {
                    lemma_slots_kept(
                        before,
                        models(this.format@),
                        TextKind::CustomResponse,
                        TextKind::CustomRequest,
                        this.response_fns.len() as nat,
                    );
                }
                this
            },
        }
    }
    /// Binds `f` as the response resolver of the first `%{label}xo` field of
    /// the format, replacing any earlier binding. Without such a field the
    /// configuration is returned unchanged.
    #[verifier::rlimit(50)]
    pub fn custom_response_replace(self, label: &str, f: P) -> (r: Self)
        requires
            self.well_formed(),
        ensures
            r.well_formed(),
            r@.exclude == self@.exclude,
            r@.patterns == self@.patterns,
            r@.request_fns == self@.request_fns,
            r@.span == self@.span,
            r@.format.len() == self@.format.len(),
            forall|m: int|
                0 <= m < r@.format.len() ==> (#[trigger] r@.format[m]).kind == self@.format[m].kind
                    && r@.format[m].arg == self@.format[m].arg,
            forall|m: int|
                0 <= m < r@.format.len() && #[trigger] self@.format[m].kind != TextKind::CustomResponse
                    ==> r@.format[m] == self@.format[m],
            match first_labelled(self@.format, TextKind::CustomResponse, label@) {
                None => r@ == self@,
                Some(k) => bound_fn(r@.format, r@.response_fns, k) == Some(f) && forall|m: int|
                    0 <= m < r@.format.len() && m != k && #[trigger] self@.format[m].kind
                        == TextKind::CustomResponse ==> bound_fn(r@.format, r@.response_fns, m)
                        == bound_fn(self@.format, self@.response_fns, m),
            },
    {
        let mut this = self;
        let l: String = label.to_owned();
        match find_labelled(&this.format, TextKind::CustomResponse, &l) {
            None => this,
            Some(k) => {
                let ghost before = models(this.format@);
                bind_slot(&mut this.format, &mut this.response_fns, k, TextKind::CustomResponse, f);
                proof {
                    lemma_slots_kept(
                        before,
                        models(this.format@),
                        TextKind::CustomRequest,
                        TextKind::CustomResponse,
                        this.request_fns.len() as nat,
                    );
                }
                this
            },
        }
    }
    /// Sets the function that gives each logged request its trace span.
    pub fn gen_tracing_span(self, f: S) -> (r: Self)
        requires
            self.well_formed(),
        ensures
            r.well_formed(),
            r@ == (MiddlewareModel { span: Some(f), ..self@ }),
    {
        let mut this = self;
        this.gen_tracing_span = Some(f);
        this
    }

    /// Whether requests for `path` are left out of the log: `path` equals an
    /// excluded path or an excluded pattern matches it.
    pub fn is_excluded(&self, path: &str) -> (r: bool)
        requires
            self.well_formed(),
        ensures
            r == excluded(self@.exclude, self@.patterns, path@),
    {
        let p: String = path.to_owned();
        let mut i: usize = 0;
        while i < self.exclude.len()
            invariant
                i <= self.exclude.len(),
                p@ == path@,
                forall|q: int| 0 <= q < i ==> texts(self.exclude@)[q] != path@,
            decreases self.exclude.len() - i,
        {
            if self.exclude[i] == p {
                assert(texts(self.exclude@)[i as int] == path@);
                return true;
            }
            i = i + 1;
        }
        self.exclude_regex.is_match(path)
    }

    /// The request phase for one request: a private copy of the format with
    /// every field that the request determines resolved. `outs[k]` is what
    /// the request resolver in slot `k` returned for this request.
    pub fn resolve_request(&self, req: &RequestInfo, outs: &Vec<String>) -> (r: Vec<FormatText>)
        ensures
            models(r@) == request_phase(self@.format, *req, outs@),
    {
        resolve_request(&self.format, req, outs)
    }

    /// The response phase, on the format after the request phase. `outs[k]`
    /// is what the response resolver in slot `k` returned for this response.
    pub fn resolve_response(&self, format: &Vec<FormatText>, resp: &ResponseInfo, outs: &Vec<String>) -> (r: Vec<FormatText>)
        ensures
            models(r@) == response_phase(models(format@), *resp, outs@),
    {
        resolve_response(format, resp, outs)
    }

    /// Whether the format has a field of `kind` labelled `label`, that is
    /// whether binding a resolver to `label` takes effect.
    pub fn has_label(&self, kind: TextKind, label: &str) -> (r: bool)
        ensures
            r == first_labelled(self@.format, kind, label@) is Some,
    {
        let l: String = label.to_owned();
        find_labelled(&self.format, kind, &l).is_some()
    }

    /// The request resolvers, by slot.
    pub fn request_fns(&self) -> (r: &Vec<Q>)
        ensures
            r@ == self@.request_fns,
    {
        &self.request_fns
    }

    /// The response resolvers, by slot.
    pub fn response_fns(&self) -> (r: &Vec<P>)
        ensures
            r@ == self@.response_fns,
    {
        &self.response_fns
    }

    /// The span generator, if one is set.
    pub fn span_generator(&self) -> (r: &Option<S>)
        ensures
            *r == self@.span,
    {
        &self.gen_tracing_span
    }

}

impl<Q, P, S> Default for TracingMiddleware<Q, P, S> {
    /// A configuration with `DEFAULT_FORMAT` that excludes nothing.
    fn default() -> (r: Self)
        ensures
            r.well_formed(),
            r@.format == compile_spec(DEFAULT_FORMAT@),
            r@.exclude.len() == 0,
            r@.patterns.len() == 0,
            r@.request_fns.len() == 0,
            r@.response_fns.len() == 0,
            r@.span is None,
    {
        TracingMiddleware::new(DEFAULT_FORMAT)
    }
}

} // verus!
