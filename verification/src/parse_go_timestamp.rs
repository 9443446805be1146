//! The timestamp-parsing built-in: a dynamic value is parsed against a fixed,
//! ordered list of Go reference layouts in a timezone resolved once at compile
//! time; the first matching layout wins.

use vstd::prelude::*;
use crate::expression::{
    dec_string, has_call, spec_constant, spec_dec, spec_resolve, spec_type_def, Context, Expr,
    ResolveError,
};
use crate::function::{
    param_with_from, spec_args_valid, ArgumentList, CompileError, Example, FunctionCompileContext,
    Parameter,
};
use crate::go_time::{
    bytes_to_string_lossy, has_triple, layout_safe, load_location, lossy_utf8, parse_in_location,
    ten_digits_from, ten_zero_nines_from, time_nanosecond, time_unix, value_safe,
};
use crate::kind;
use crate::types::{TypeDef, TypeState};
use crate::value::{Timestamp, Value, ValueView};

verus! {

/// A compiled call site: the still-dynamic input expression, the layouts
/// folded to strings at compile time, and the timezone parsed once so every
/// per-record resolution reuses it.
#[derive(Debug)]
pub struct ParseGoTimestampFn {
    pub value: Box<Expr>,
    pub formats: Vec<String>,
    pub loc: gostd_time::Location,
}

impl ParseGoTimestampFn {
    /// Resolve the dynamic input, then convert it as the built-in's logic
    /// dictates. For a call-free input expression the child's value is
    /// pinned, so identity passthrough, error propagation and the wrong-kind
    /// failure are stated exactly; only the text-parsing outcome is left to
    /// the outside parser.
    pub fn resolve(&self, ctx: &Context) -> (r: Result<Value, ResolveError>)
        ensures
            r matches Ok(v) ==> v matches Value::Timestamp(_),
            r matches Err(err) ==> err == ResolveError::UnableToConvert,
            !has_call(*self.value) ==> (match spec_resolve(*self.value, *ctx) {
                Ok(cv) => ((cv matches ValueView::Timestamp(_) ==> (r matches Ok(rv) && rv@ == cv))
                    && ((!(cv matches ValueView::Timestamp(_)) && !(cv matches ValueView::Bytes(
                    _,
                ))) ==> r == Err::<Value, ResolveError>(ResolveError::UnableToConvert))),
                Err(e) => r == Err::<Value, ResolveError>(e),
            }),
        decreases self,
    {
        match self.value.resolve(ctx) {
            Ok(value) => {
                let ghost child = value;
                let r = parse_go_timestamp(value, &self.formats, &self.loc);
                proof {
                    crate::value::lemma_view_variant(child);
                }
                r
            },
            Err(err) => Err(err),
        }
    }

    /// The static descriptor: always a timestamp, always fallible, because the
    /// layouts must match arbitrary runtime text.
    pub fn type_def(&self, _state: &TypeState) -> (r: TypeDef)
        ensures
            r == (TypeDef { kinds: kind::TIMESTAMP, fallible: true }),
    {
        TypeDef { kinds: kind::TIMESTAMP, fallible: true }
    }
}

/// The first successful parse, in declared order.
pub open spec fn first_success_from(outs: Seq<Option<Timestamp>>, i: int) -> Option<Timestamp>
    decreases outs.len() - i,
{
    if i < 0 || i >= outs.len() {
        None
    } else if outs[i] is Some {
        outs[i]
    } else {
        first_success_from(outs, i + 1)
    }
}

pub open spec fn spec_first_success(outs: Seq<Option<Timestamp>>) -> Option<Timestamp> {
    first_success_from(outs, 0)
}

/// Format precedence: where an earlier and a later layout both match, the
/// earlier one's result is returned; declared order is the tie-break.
pub proof fn lemma_format_precedence(outs: Seq<Option<Timestamp>>, i: int)
    requires
        0 <= i < outs.len(),
        outs[i] is Some,
        forall|j: int| 0 <= j < i ==> outs[j] is None,
    ensures
        spec_first_success(outs) == outs[i],
{
    lemma_first_success_skip(outs, 0, i);
}

proof fn lemma_first_success_skip(outs: Seq<Option<Timestamp>>, k: int, i: int)
    requires
        0 <= k <= i < outs.len(),
        outs[i] is Some,
        forall|j: int| 0 <= j < i ==> outs[j] is None,
    ensures
        first_success_from(outs, k) == outs[i],
    decreases i - k,
{
    if k < i {
        lemma_first_success_skip(outs, k + 1, i);
    }
}

/// Exhaustive mismatch: where no layout matches, nothing is returned.
pub proof fn lemma_exhaustive_mismatch(outs: Seq<Option<Timestamp>>)
    requires
        forall|j: int| 0 <= j < outs.len() ==> outs[j] is None,
    ensures
        spec_first_success(outs) is None,
{
    lemma_no_success_from(outs, 0);
}

proof fn lemma_no_success_from(outs: Seq<Option<Timestamp>>, k: int)
    requires
        0 <= k <= outs.len(),
        forall|j: int| 0 <= j < outs.len() ==> outs[j] is None,
    ensures
        first_success_from(outs, k) is None,
    decreases outs.len() - k,
{
    if k < outs.len() {
        lemma_no_success_from(outs, k + 1);
    }
}

/// The decision half of resolution, verified for every possible set of parse
/// outcomes: the first success in declared order, if any.
pub fn first_success(outs: &Vec<Option<Timestamp>>) -> (r: Option<Timestamp>)
    ensures
        r == spec_first_success(outs@),
{
    let mut i: usize = 0;
    while i < outs.len()
        invariant
            i <= outs@.len(),
            first_success_from(outs@, 0) == first_success_from(outs@, i as int),
        decreases outs@.len() - i,
    {
        match outs[i] {
            Some(t) => {
                return Some(t);
            },
            None => {
                i = i + 1;
            },
        }
    }
    None
}

/// Whether the characters `a`, `b`, `c` occur consecutively in `s`.
fn scan_triple(s: &str, a: char, b: char, c: char) -> (r: bool)
    ensures
        r == has_triple(s@, a, b, c),
{
    let n = s.unicode_len();
    if n < 3 {
        return false;
    }
    let mut i: usize = 0;
    while i < n - 2
        invariant
            n == s@.len(),
            3 <= n,
            i <= n - 2,
            forall|j: int| #![trigger s@[j]] 0 <= j < i ==> !(s@[j] == a && s@[j + 1] == b && s@[j + 2] == c),
        decreases n - i,
    {
        if s.get_char(i) == a && s.get_char(i + 1) == b && s.get_char(i + 2) == c {
            return true;
        }
        i = i + 1;
    }
    false
}

fn ten_zero_nines_at(s: &str, j: usize) -> (r: bool)
    ensures
        r == ten_zero_nines_from(s@, j as int),
{
    let n = s.unicode_len();
    if n < 10 || j > n - 10 {
        return false;
    }
    let mut k: usize = 0;
    while k < 10
        invariant
            n == s@.len(),
            j + 10 <= n,
            k <= 10,
            forall|m: int| #![trigger s@[m]] j <= m < j + k ==> (s@[m] == '0' || s@[m] == '9'),
        decreases 10 - k,
    {
        let ch = s.get_char(j + k);
        if !(ch == '0' || ch == '9') {
            return false;
        }
        k = k + 1;
    }
    true
}

fn ten_digits_at(s: &str, j: usize) -> (r: bool)
    ensures
        r == ten_digits_from(s@, j as int),
{
    let n = s.unicode_len();
    if n < 10 || j > n - 10 {
        return false;
    }
    let mut k: usize = 0;
    while k < 10
        invariant
            n == s@.len(),
            j + 10 <= n,
            k <= 10,
            forall|m: int| #![trigger s@[m]] j <= m < j + k ==> ('0' <= s@[m] && s@[m] <= '9'),
        decreases 10 - k,
    {
        let ch = s.get_char(j + k);
        if !('0' <= ch && ch <= '9') {
            return false;
        }
        k = k + 1;
    }
    true
}

/// Screens a layout for the patterns `parse_in_location` must not see.
fn layout_is_safe(s: &str) -> (r: bool)
    ensures
        r == layout_safe(s@),
{
    if scan_triple(s, '0', '0', '2') || scan_triple(s, '_', '_', '2') {
        return false;
    }
    let n = s.unicode_len();
    let mut i: usize = 0;
    while i < n
        invariant
            n == s@.len(),
            i <= n,
            !has_triple(s@, '0', '0', '2'),
            !has_triple(s@, '_', '_', '2'),
            forall|j: int|
                #![trigger s@[j]]
                0 <= j < i ==> !((s@[j] == '.' || s@[j] == ',') && ten_zero_nines_from(s@, j + 1)),
        decreases n - i,
    {
        let ch = s.get_char(i);
        if (ch == '.' || ch == ',') && ten_zero_nines_at(s, i + 1) {
            return false;
        }
        i = i + 1;
    }
    true
}

/// Screens a value text for the fractional-second runs `parse_in_location`
/// must not see.
fn value_is_safe(s: &str) -> (r: bool)
    ensures
        r == value_safe(s@),
{
    let n = s.unicode_len();
    let mut i: usize = 0;
    while i < n
        invariant
            n == s@.len(),
            i <= n,
            forall|j: int|
                #![trigger s@[j]]
                0 <= j < i ==> !((s@[j] == '.' || s@[j] == ',') && ten_digits_from(s@, j + 1)),
        decreases n - i,
    {
        let ch = s.get_char(i);
        if (ch == '.' || ch == ',') && ten_digits_at(s, i + 1) {
            return false;
        }
        i = i + 1;
    }
    true
}

/// One parse attempt per declared layout, in order. Each outcome comes from
/// the trusted parser; a success is turned into a well-formed instant. The
/// parser is only safe on ASCII strings that pass the layout and value
/// screens, so any other pairing counts as a failed attempt instead of being
/// handed to it.
fn parse_outcomes(formats: &Vec<String>, text: &String, loc: &gostd_time::Location) -> (outs: Vec<
    Option<Timestamp>,
>)
    ensures
        outs@.len() == formats@.len(),
        forall|j: int| 0 <= j < outs@.len() ==> (#[trigger] outs@[j] matches Some(t) ==> t.wf()),
{
    let text_ok = text.as_str().is_ascii() && value_is_safe(text.as_str());
    let mut outs: Vec<Option<Timestamp>> = Vec::new();
    let mut i: usize = 0;
    while i < formats.len()
        invariant
            i <= formats@.len(),
            outs@.len() == i,
            text_ok == (vstd::utf8::is_ascii_chars(text@) && value_safe(text@)),
            forall|j: int| 0 <= j < i ==> (#[trigger] outs@[j] matches Some(t) ==> t.wf()),
        decreases formats@.len() - i,
    {
        let layout = formats[i].as_str();
        if text_ok && layout.is_ascii() && layout_is_safe(layout) {
            match parse_in_location(layout, text.as_str(), loc) {
                Some(time) => {
                    let secs = time_unix(&time);
                    let ns = time_nanosecond(&time);
                    outs.push(Some(Timestamp { secs, nanos: ns as u32 }));
                },
                None => {
                    outs.push(None);
                },
            }
        } else {
            outs.push(None);
        }
        i = i + 1;
    }
    outs
}

/// Convert a value to a timestamp. A value already of the target kind passes
/// through unchanged; text is parsed against the layouts in declared order and
/// the first match wins; everything else fails with the uniform conversion
/// error, which deliberately collapses all mismatch causes into one reason.
/// An empty layout list can match nothing, so text then always fails.
pub fn parse_go_timestamp(value: Value, formats: &Vec<String>, timezone: &gostd_time::Location) -> (r:
    Result<Value, ResolveError>)
    ensures
        value matches Value::Timestamp(_) ==> r == Ok::<Value, ResolveError>(value),
        value matches Value::Bytes(_) ==> match r {
            Ok(v) => v matches Value::Timestamp(t) && t.wf(),
            Err(err) => err == ResolveError::UnableToConvert,
        },
        value matches Value::Bytes(_) && formats@.len() == 0 ==> r == Err::<Value, ResolveError>(
            ResolveError::UnableToConvert,
        ),
        !(value matches Value::Timestamp(_)) && !(value matches Value::Bytes(_)) ==> r == Err::<
            Value,
            ResolveError,
        >(ResolveError::UnableToConvert),
{
    match &value {
        Value::Bytes(b) => {
            let text = bytes_to_string_lossy(b);
            let outcomes = parse_outcomes(formats, &text, timezone);
            match first_success(&outcomes) {
                Some(t) => {
                    proof {
                        lemma_first_success_wf(outcomes@, 0);
                    }
                    Ok(Value::Timestamp(t))
                },
                None => Err(ResolveError::UnableToConvert),
            }
        },
        Value::Timestamp(_) => Ok(value),
        _ => Err(ResolveError::UnableToConvert),
    }
}

/// Outcome of folding the declared layout list at compile time: every element
/// folded to a string, or the index of the first offender.
pub enum FormatsFold {
    Folded(Seq<Seq<char>>),
    NotStatic(int),
    NotString(int),
}

/// Fold the layout elements from index `i` on: each must be a compile-time
/// constant byte-string, decoded like the runtime path decodes text.
pub open spec fn spec_fold_from(es: Seq<Expr>, i: int) -> FormatsFold
    decreases es.len() - i,
{
    if i < 0 || i >= es.len() {
        FormatsFold::Folded(Seq::empty())
    } else {
        match spec_constant(es[i]) {
            Option::None => FormatsFold::NotStatic(i),
            Option::Some(vv) => match vv {
                ValueView::Bytes(b) => match spec_fold_from(es, i + 1) {
                    FormatsFold::Folded(rest) => FormatsFold::Folded(
                        seq![lossy_utf8(b)] + rest,
                    ),
                    other => other,
                },
                _ => FormatsFold::NotString(i),
            },
        }
    }
}

pub open spec fn pats_views(pats: Seq<String>) -> Seq<Seq<char>> {
    Seq::new(pats.len(), |j: int| pats[j]@)
}

/// Describes one formats element by its shape and position, so the error
/// identifies which element offended.
pub open spec fn indexed_describe(e: Expr, j: int) -> Seq<char> {
    e.spec_describe() + " at index "@ + spec_dec(j as nat)
}

/// Everything the compile step decides, phrased over the call site's
/// bindings. The only outcome left open is whether the timezone database
/// recognises a syntactically acceptable name; there the clauses say exactly
/// which error is possible, and that the documented names succeed.
pub open spec fn compile_post(args: ArgumentList, r: Result<Expr, CompileError>) -> bool {
    let value_e = args.binding("value"@)->Some_0;
    let formats_e = args.binding("formats"@)->Some_0;
    let tz_e = args.binding("timezone"@)->Some_0;
    match formats_e {
        Expr::Array(es) => match spec_fold_from(es@, 0) {
            FormatsFold::NotStatic(j) => r matches Err(e) && (e
                matches CompileError::ExpectedStaticExpression { keyword, expr } && keyword@
                == "formats"@ && expr == es@[j]),
            FormatsFold::NotString(j) => r matches Err(e) && (e
                matches CompileError::InvalidArgument { keyword, value, error } && keyword@
                == "formats"@ && value@ == indexed_describe(es@[j], j) && error@
                == "go_timestamp formats should be a string array"@),
            FormatsFold::Folded(pats) => compile_post_tz(pats, value_e, tz_e, r),
        },
        _ => r matches Err(e) && (e matches CompileError::UnexpectedExpression { keyword }
            && keyword@ == "formats"@),
    }
}

pub open spec fn compile_post_tz(
    pats: Seq<Seq<char>>,
    value_e: Expr,
    tz_e: Expr,
    r: Result<Expr, CompileError>,
) -> bool {
    match spec_constant(tz_e) {
        Option::None => r matches Err(e) && (e
            matches CompileError::ExpectedStaticExpression { keyword, expr } && keyword@
            == "timezone"@ && expr == tz_e),
        Option::Some(vv) => match vv {
            ValueView::Bytes(b) => {
                &&& (r matches Ok(node) ==> (node matches Expr::Call(f) && *f.value == value_e
                    && f.formats@.len() == pats.len() && (forall|j: int|
                    0 <= j < pats.len() ==> (#[trigger] f.formats@[j])@ == pats[j])))
                &&& (r matches Err(e) ==> (e matches CompileError::InvalidArgument {
                    keyword,
                    value,
                    error,
                } && keyword@ == "timezone"@ && value@ == tz_e.spec_describe() && error@
                    == "go_timestamp timezone should be a legal timezone"@))
                &&& ((lossy_utf8(b) == "UTC"@ || lossy_utf8(b) == ""@) ==> r is Ok)
            },
            _ => r matches Err(e) && (e matches CompileError::InvalidArgument {
                keyword,
                value,
                error,
            } && keyword@ == "timezone"@ && value@ == tz_e.spec_describe() && error@
                == "go_timestamp timezone should be a string"@),
        },
    }
}

/// The timestamp-parsing built-in: identifier, parameter schema, worked
/// examples, and the compile step that turns a validated call site into a
/// `ParseGoTimestampFn` node.
#[derive(Clone, Copy, Debug)]
pub struct ParseGoTimestamp;

impl ParseGoTimestamp {
    /// The name call sites use.
    pub fn identifier(&self) -> (r: &'static str)
        ensures
            r@ == "parse_go_timestamp"@,
    {
        "parse_go_timestamp"
    }

    /// The fixed parameter schema: a dynamic value that must be text or
    /// already a timestamp, a static array of layouts, and a static timezone
    /// name.
    pub fn parameters(&self) -> (r: Vec<Parameter>)
        ensures
            r@.len() == 3,
            r@[0].keyword@ == "value"@ && r@[0].kind == kind::BYTES | kind::TIMESTAMP
                && r@[0].required,
            r@[1].keyword@ == "formats"@ && r@[1].kind == kind::ARRAY && r@[1].required,
            r@[2].keyword@ == "timezone"@ && r@[2].kind == kind::BYTES && r@[2].required,
    {
        let mut r: Vec<Parameter> = Vec::new();
        r.push(Parameter { keyword: "value", kind: kind::BYTES | kind::TIMESTAMP, required: true });
        r.push(Parameter { keyword: "formats", kind: kind::ARRAY, required: true });
        r.push(Parameter { keyword: "timezone", kind: kind::BYTES, required: true });
        r
    }

    /// Worked examples, exposed as literal fixtures.
    pub fn examples(&self) -> (r: Vec<Example>)
        ensures
            r@.len() == 2,
            r@[0].title@ == "valid"@,
            r@[0].source@
                == "parse_go_timestamp!(\"11-Feb-2021 16:00 +00:00\", format: \"02-Jan-2006 15:04 +07:00\")"@,
            r@[0].result matches Ok(out) && out@ == "t'2021-02-11T16:00:00Z'"@,
            r@[1].title@ == "valid with timezone"@,
            r@[1].source@
                == "parse_go_timestamp!(\"16/10/2019 12:00:00\", format: \"02/01/2006 15:04:05\", timezone: \"Europe/Paris\")"@,
            r@[1].result matches Ok(out) && out@ == "t'2019-10-16T10:00:00Z'"@,
    {
        let mut r: Vec<Example> = Vec::new();
        r.push(
            Example {
                title: "valid",
                source: "parse_go_timestamp!(\"11-Feb-2021 16:00 +00:00\", format: \"02-Jan-2006 15:04 +07:00\")",
                result: Ok("t'2021-02-11T16:00:00Z'"),
            },
        );
        r.push(
            Example {
                title: "valid with timezone",
                source: "parse_go_timestamp!(\"16/10/2019 12:00:00\", format: \"02/01/2006 15:04:05\", timezone: \"Europe/Paris\")",
                result: Ok("t'2019-10-16T10:00:00Z'"),
            },
        );
        r
    }

    /// Compile one validated call site: take the dynamic value expression as
    /// it is, force every layout and the timezone to compile-time constants,
    /// validate the timezone against the zone database once, and build the
    /// node the runtime path reuses.
    pub fn compile(
        &self,
        state: &TypeState,
        _ctx: &mut FunctionCompileContext,
        arguments: ArgumentList,
    ) -> (r: Result<Expr, CompileError>)
        requires
            arguments.binding("value"@) is Some,
            arguments.binding("formats"@) is Some,
            arguments.binding("timezone"@) is Some,
        ensures
            compile_post(arguments, r),
    {
        let ghost args0 = arguments;
        let mut args = arguments;
        let value_e = args.required("value");
        proof {
            lemma_keywords_distinct();
            assert(args.binding("formats"@) == args0.binding("formats"@));
            assert(args.binding("timezone"@) == args0.binding("timezone"@));
        }
        let mut elems = match args.required_array("formats") {
            Ok(v) => v,
            Err(e) => {
                return Err(e);
            },
        };
        proof {
            assert(args.binding("timezone"@) == args0.binding("timezone"@));
        }
        let ghost orig = elems@;
        proof {
            assert(orig.len() == elems.len());
        }
        let mut pats: Vec<String> = Vec::new();
        let mut i: usize = 0;
        while elems.len() > 0
            invariant
                args0 == arguments,
                args.binding("timezone"@) == args0.binding("timezone"@),
                args0.binding("timezone"@) is Some,
                args0.binding("value"@) is Some,
                Some(value_e) == args0.binding("value"@),
                args0.binding("formats"@) is Some,
                (args0.binding("formats"@)->Some_0 matches Expr::Array(fes) && fes@ == orig),
                orig.len() <= usize::MAX,
                i + elems@.len() == orig.len(),
                elems@ == orig.subrange(i as int, orig.len() as int),
                pats@.len() == i,
                match spec_fold_from(orig, i as int) {
                    FormatsFold::Folded(rest) => spec_fold_from(orig, 0) == FormatsFold::Folded(
                        pats_views(pats@) + rest,
                    ),
                    FormatsFold::NotStatic(j) => spec_fold_from(orig, 0)
                        == FormatsFold::NotStatic(j),
                    FormatsFold::NotString(j) => spec_fold_from(orig, 0)
                        == FormatsFold::NotString(j),
                },
            decreases elems@.len(),
        {
            let e = elems.remove(0);
            proof {
                assert(e == orig[i as int]);
                assert(elems@ =~= orig.subrange(i as int + 1, orig.len() as int));
            }
            match e.resolve_constant(state) {
                Option::None => {
                    return Err(
                        CompileError::ExpectedStaticExpression { keyword: "formats", expr: e },
                    );
                },
                Option::Some(v) => match v {
                    Value::Bytes(b) => {
                        let ghost pats_pre = pats@;
                        let s = bytes_to_string_lossy(&b);
                        pats.push(s);
                        proof {
                            assert(pats_views(pats@) =~= pats_views(pats_pre) + seq![
                                lossy_utf8(b@),
                            ]);
                            if spec_fold_from(orig, i as int + 1) is Folded {
                                let rest = spec_fold_from(orig, i as int + 1)->Folded_0;
                                assert((pats_views(pats_pre) + (seq![lossy_utf8(b@)] + rest)) =~= (
                                pats_views(pats@) + rest));
                            }
                        }
                    },
                    _ => {
                        let mut desc = e.describe();
                        desc.append(" at index ");
                        desc.append(dec_string(i).as_str());
                        return Err(
                            CompileError::InvalidArgument {
                                keyword: "formats",
                                value: desc,
                                error: "go_timestamp formats should be a string array",
                            },
                        );
                    },
                },
            }
            i = i + 1;
        }
        proof {
            assert(spec_fold_from(orig, i as int) == FormatsFold::Folded(Seq::<Seq<char>>::empty()));
            assert((pats_views(pats@) + Seq::<Seq<char>>::empty()) =~= pats_views(pats@));
        }
        let tz_e = args.required_expr("timezone");
        match tz_e.resolve_constant(state) {
            Option::None => Err(
                CompileError::ExpectedStaticExpression { keyword: "timezone", expr: tz_e },
            ),
            Option::Some(v) => match v {
                Value::Bytes(b) => {
                    let name = bytes_to_string_lossy(&b);
                    match load_location(name.as_str()) {
                        Option::Some(loc) => Ok(
                            Expr::Call(
                                ParseGoTimestampFn {
                                    value: Box::new(value_e),
                                    formats: pats,
                                    loc,
                                },
                            ),
                        ),
                        Option::None => Err(
                            CompileError::InvalidArgument {
                                keyword: "timezone",
                                value: tz_e.describe(),
                                error: "go_timestamp timezone should be a legal timezone",
                            },
                        ),
                    }
                },
                _ => Err(
                    CompileError::InvalidArgument {
                        keyword: "timezone",
                        value: tz_e.describe(),
                        error: "go_timestamp timezone should be a string",
                    },
                ),
            },
        }
    }
}

/// The specialised shape of `spec_args_valid` for this built-in's schema:
/// only the three declared keywords appear, each is bound, and each binding's
/// statically known kinds intersect the declared ones.
pub open spec fn call_args_valid(args: ArgumentList, st: TypeState) -> bool {
    &&& (forall|j: int|
        0 <= j < args.entries@.len() ==> ((#[trigger] args.entries@[j].0@) == "value"@
            || args.entries@[j].0@ == "formats"@ || args.entries@[j].0@ == "timezone"@))
    &&& (args.binding("value"@) matches Some(e) && kind::kinds_intersect(
        spec_type_def(e, st).kinds,
        kind::BYTES | kind::TIMESTAMP,
    ))
    &&& (args.binding("formats"@) matches Some(e) && kind::kinds_intersect(
        spec_type_def(e, st).kinds,
        kind::ARRAY,
    ))
    &&& (args.binding("timezone"@) matches Some(e) && kind::kinds_intersect(
        spec_type_def(e, st).kinds,
        kind::BYTES,
    ))
}

/// The three parameter keywords are pairwise distinct.
proof fn lemma_keywords_distinct()
    ensures
        "value"@ != "formats"@,
        "value"@ != "timezone"@,
        "formats"@ != "timezone"@,
{
    reveal_strlit("value");
    reveal_strlit("formats");
    reveal_strlit("timezone");
    assert("value"@.len() == 5);
    assert("formats"@.len() == 7);
    assert("timezone"@.len() == 8);
}

proof fn lemma_args_valid_glue(args: ArgumentList, params: Seq<Parameter>, st: TypeState)
    requires
        params.len() == 3,
        params[0].keyword@ == "value"@ && params[0].kind == kind::BYTES | kind::TIMESTAMP
            && params[0].required,
        params[1].keyword@ == "formats"@ && params[1].kind == kind::ARRAY && params[1].required,
        params[2].keyword@ == "timezone"@ && params[2].kind == kind::BYTES && params[2].required,
    ensures
        spec_args_valid(args, params, st) <==> call_args_valid(args, st),
{
    lemma_keywords_distinct();
    if spec_args_valid(args, params, st) {
        assert forall|j: int| 0 <= j < args.entries@.len() implies ((
        #[trigger] args.entries@[j].0@) == "value"@ || args.entries@[j].0@ == "formats"@
            || args.entries@[j].0@ == "timezone"@) by {
            let kw = args.entries@[j].0@;
            if kw != "value"@ && kw != "formats"@ && kw != "timezone"@ {
                assert(param_with_from(params, kw, 0) == param_with_from(params, kw, 1));
                assert(param_with_from(params, kw, 1) == param_with_from(params, kw, 2));
                assert(param_with_from(params, kw, 2) == param_with_from(params, kw, 3));
                assert(param_with_from(params, kw, 3) is None);
                assert(false);
            }
        }
        assert(params[0].required ==> args.binding(params[0].keyword@) is Some);
        assert(params[1].required ==> args.binding(params[1].keyword@) is Some);
        assert(params[2].required ==> args.binding(params[2].keyword@) is Some);
    }
    if call_args_valid(args, st) {
        assert forall|j: int| 0 <= j < args.entries@.len() implies param_with_from(
            params,
            #[trigger] args.entries@[j].0@,
            0,
        ) is Some by {
            let kw = args.entries@[j].0@;
            if kw == "value"@ {
                assert(param_with_from(params, kw, 0) == Some(params[0]));
            } else if kw == "formats"@ {
                assert(param_with_from(params, kw, 1) == Some(params[1]));
            } else {
                assert(kw == "timezone"@);
                assert(param_with_from(params, kw, 2) == Some(params[2]));
            }
        }
        assert forall|j: int| 0 <= j < params.len() implies ((#[trigger] params[j]).required
            ==> args.binding(params[j].keyword@) is Some) by {
            if j == 0 {
                assert(args.binding(params[0].keyword@) is Some);
            } else if j == 1 {
                assert(args.binding(params[1].keyword@) is Some);
            } else {
                assert(args.binding(params[2].keyword@) is Some);
            }
        }
        assert forall|j: int| 0 <= j < params.len() implies match args.binding(
            (#[trigger] params[j]).keyword@,
        ) {
            Some(e) => kind::kinds_intersect(spec_type_def(e, st).kinds, params[j].kind),
            None => true,
        } by {
            if j == 0 {
                assert(args.binding(params[0].keyword@) == args.binding("value"@));
            } else if j == 1 {
                assert(args.binding(params[1].keyword@) == args.binding("formats"@));
            } else {
                assert(args.binding(params[2].keyword@) == args.binding("timezone"@));
            }
        }
    }
}

/// The registry: compile one call site. The identifier picks the built-in,
/// its schema validates the bindings, and its compile step runs; each failure
/// is reported as the structured compile error it stems from.
pub fn compile_call(
    ident: &str,
    state: &TypeState,
    ctx: &mut FunctionCompileContext,
    arguments: ArgumentList,
) -> (r: Result<Expr, CompileError>)
    ensures
        ident@ != "parse_go_timestamp"@ ==> (r matches Err(e) && (e
            matches CompileError::UnknownFunction { ident: id } && id@ == ident@)),
        ident@ == "parse_go_timestamp"@ && call_args_valid(arguments, *state) ==> compile_post(
            arguments,
            r,
        ),
        ident@ == "parse_go_timestamp"@ && !call_args_valid(arguments, *state) ==> (r matches Err(
            e,
        ) && (e matches CompileError::UnknownKeyword { .. } || (e
            matches CompileError::MissingRequired { .. }) || (e
            matches CompileError::KindMismatch { .. }))),
{
    let func = ParseGoTimestamp;
    let id = ident.to_owned();
    let target = func.identifier().to_owned();
    if !id.eq(&target) {
        return Err(CompileError::UnknownFunction { ident: id });
    }
    let params = func.parameters();
    proof {
        lemma_args_valid_glue(arguments, params@, *state);
    }
    match arguments.validate(&params, state) {
        Err(e) => Err(e),
        Ok(()) => func.compile(state, ctx, arguments),
    }
}

proof fn lemma_first_success_wf(outs: Seq<Option<Timestamp>>, k: int)
    requires
        0 <= k <= outs.len(),
        forall|j: int| 0 <= j < outs.len() ==> (#[trigger] outs[j] matches Some(t) ==> t.wf()),
    ensures
        first_success_from(outs, k) matches Some(t) ==> t.wf(),
    decreases outs.len() - k,
{
    if k < outs.len() && outs[k] is None {
        lemma_first_success_wf(outs, k + 1);
    }
}

} // verus!
