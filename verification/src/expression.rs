//! Expression nodes: immutable AST produced by compilation, with constant
//! folding, static type inference (`type_def`) and per-record evaluation
//! (`resolve`).

use vstd::prelude::*;
use crate::kind;
use crate::kind::kind_in;
use crate::types::{TypeDef, TypeState};
use crate::value::{kind_of_view, lemma_kind_is_flag, Value, ValueView, view_values};
use crate::parse_go_timestamp::ParseGoTimestampFn;

verus! {

/// A runtime failure of one resolution, reported per record with a stable
/// reason string; it never aborts other records.
#[derive(Clone, Copy, Debug, PartialEq, Eq, Structural)]
pub enum ResolveError {
    UnableToConvert,
}

impl ResolveError {
    /// The stable, human-readable reason.
    pub fn message(&self) -> (r: String)
        ensures
            r@ == "unable to convert value to timestamp"@,
    {
        "unable to convert value to timestamp".to_owned()
    }
}

/// First match wins, from index `i` on.
pub open spec fn ctx_binding_from(
    entries: Seq<(String, Value)>,
    name: Seq<char>,
    i: int,
) -> Option<Value>
    decreases entries.len() - i,
{
    if i < 0 || i >= entries.len() {
        None
    } else if entries[i].0@ == name {
        Some(entries[i].1)
    } else {
        ctx_binding_from(entries, name, i + 1)
    }
}

/// The per-record runtime environment: the fields the expression tree reads.
/// Each evaluation owns its own context; the compiled tree itself is immutable.
pub struct Context {
    pub entries: Vec<(String, Value)>,
}

impl Context {
    pub open spec fn binding(self, name: Seq<char>) -> Option<Value> {
        ctx_binding_from(self.entries@, name, 0)
    }

    pub fn new() -> (r: Context)
        ensures
            r.entries@.len() == 0,
    {
        Context { entries: Vec::new() }
    }

    /// Bind a name, shadowing any earlier binding.
    pub fn bind(&mut self, name: String, value: Value)
        ensures
            final(self).entries@ == old(self).entries@.insert(0, (name, value)),
    {
        self.entries.insert(0, (name, value));
    }

    /// A copy of the bound value, if the name is bound.
    pub fn lookup(&self, name: &String) -> (r: Option<Value>)
        ensures
            match r {
                Some(v) => self.binding(name@) matches Some(b) && v@ == b@,
                None => self.binding(name@) is None,
            },
    {
        let mut i: usize = 0;
        while i < self.entries.len()
            invariant
                i <= self.entries@.len(),
                ctx_binding_from(self.entries@, name@, 0) == ctx_binding_from(
                    self.entries@,
                    name@,
                    i as int,
                ),
            decreases self.entries@.len() - i,
        {
            if self.entries[i].0.eq(name) {
                return Some(self.entries[i].1.dup());
            }
            i = i + 1;
        }
        None
    }
}

/// An expression node. Constructed during compilation, immutable afterwards;
/// a node owns its sub-expressions exclusively.
#[derive(Debug)]
pub enum Expr {
    /// A value known in full at compile time.
    Literal(Value),
    /// A record field or variable, resolved per record from the context.
    Variable(String),
    /// An array literal: the shape is static, the elements may be dynamic.
    Array(Vec<Expr>),
    /// A compiled call of the timestamp-parsing built-in.
    Call(ParseGoTimestampFn),
}

/// The literal value an expression folds to at compile time, if it is a
/// compile-time constant (a literal, or an array of constants).
pub open spec fn spec_constant(e: Expr) -> Option<ValueView>
    decreases e,
{
    match e {
        Expr::Literal(v) => Some(v@),
        Expr::Array(es) => match spec_constants(es@) {
            Some(vs) => Some(ValueView::Array(vs)),
            None => None,
        },
        _ => None,
    }
}

pub open spec fn spec_constants(es: Seq<Expr>) -> Option<Seq<ValueView>>
    decreases es,
{
    if es.len() == 0 {
        Some(Seq::empty())
    } else {
        match (spec_constant(es[0]), spec_constants(es.drop_first())) {
            (Some(v), Some(rest)) => Some(seq![v] + rest),
            _ => None,
        }
    }
}

pub proof fn lemma_spec_constants(es: Seq<Expr>)
    ensures
        (spec_constants(es) is Some) <==> (forall|j: int|
            0 <= j < es.len() ==> #[trigger] spec_constant(es[j]) is Some),
        spec_constants(es) matches Some(vs) ==> vs.len() == es.len() && forall|j: int|
            0 <= j < es.len() ==> Some(#[trigger] vs[j]) == spec_constant(es[j]),
    decreases es,
{
    if es.len() > 0 {
        lemma_spec_constants(es.drop_first());
        assert(forall|j: int| 0 < j < es.len() ==> es.drop_first()[j - 1] == es[j]);
        if spec_constants(es) is Some {
            let vs = spec_constants(es)->Some_0;
            let head = seq![spec_constant(es[0])->Some_0];
            let rest = spec_constants(es.drop_first())->Some_0;
            assert(vs == head + rest);
            assert forall|j: int| 0 <= j < es.len() implies Some(#[trigger] vs[j])
                == spec_constant(es[j]) by {
                if j > 0 {
                    assert((head + rest)[j] == rest[j - 1]);
                }
            }
        }
        if forall|j: int| 0 <= j < es.len() ==> #[trigger] spec_constant(es[j]) is Some {
            assert(spec_constant(es[0]) is Some);
            assert(spec_constants(es.drop_first()) is Some);
        }
    }
}

/// Whether any element of the sequence has a fallible type descriptor.
pub open spec fn spec_any_fallible(es: Seq<Expr>, st: TypeState) -> bool
    decreases es,
{
    if es.len() == 0 {
        false
    } else {
        spec_type_def(es[0], st).fallible || spec_any_fallible(es.drop_first(), st)
    }
}

/// The static descriptor of a node: every kind it can produce across all
/// runtime inputs, and whether it may fail at runtime. A name the environment
/// does not know is conservatively any kind and fallible; a compiled call of
/// the timestamp built-in is a timestamp and unconditionally fallible, since
/// the validity of its dynamic input cannot be proven ahead of time.
pub open spec fn spec_type_def(e: Expr, st: TypeState) -> TypeDef
    decreases e,
{
    match e {
        Expr::Literal(v) => TypeDef { kinds: kind_of_view(v@), fallible: false },
        Expr::Variable(name) => match st.binding(name@) {
            Some(td) => td,
            None => TypeDef { kinds: kind::ANY, fallible: true },
        },
        Expr::Array(es) => TypeDef { kinds: kind::ARRAY, fallible: spec_any_fallible(es@, st) },
        Expr::Call(_) => TypeDef { kinds: kind::TIMESTAMP, fallible: true },
    }
}

pub proof fn lemma_any_fallible(es: Seq<Expr>, st: TypeState)
    ensures
        spec_any_fallible(es, st) <==> (exists|j: int|
            0 <= j < es.len() && #[trigger] spec_type_def(es[j], st).fallible),
    decreases es,
{
    if es.len() > 0 {
        lemma_any_fallible(es.drop_first(), st);
        assert(forall|j: int| 0 < j < es.len() ==> es.drop_first()[j - 1] == es[j]);
        if spec_any_fallible(es, st) {
            if spec_type_def(es[0], st).fallible {
                assert(spec_type_def(es[0], st).fallible);
            } else {
                let j = choose|j: int|
                    0 <= j < es.drop_first().len() && #[trigger] spec_type_def(
                        es.drop_first()[j],
                        st,
                    ).fallible;
                assert(spec_type_def(es[j + 1], st).fallible);
            }
        }
        if exists|j: int| 0 <= j < es.len() && #[trigger] spec_type_def(es[j], st).fallible {
            let j = choose|j: int| 0 <= j < es.len() && #[trigger] spec_type_def(es[j], st).fallible;
            if j > 0 {
                assert(spec_type_def(es.drop_first()[j - 1], st).fallible);
            }
        }
    }
}

/// Fallibility propagates: an array node over a fallible child is fallible.
pub proof fn lemma_fallibility_propagates(es: Vec<Expr>, st: TypeState, i: int)
    requires
        0 <= i < es@.len(),
        spec_type_def(es@[i], st).fallible,
    ensures
        spec_type_def(Expr::Array(es), st).fallible,
{
    lemma_any_fallible(es@, st);
}

/// A compiled call of the timestamp built-in reports fallible unconditionally.
pub proof fn lemma_call_fallible(f: ParseGoTimestampFn, st: TypeState)
    ensures
        spec_type_def(Expr::Call(f), st) == (TypeDef { kinds: kind::TIMESTAMP, fallible: true }),
{
}

/// Inference never produces an empty kind set, provided the environment's own
/// bindings declare at least one kind each.
pub proof fn lemma_type_def_nonempty(e: Expr, st: TypeState)
    requires
        crate::types::wf_state(st),
    ensures
        spec_type_def(e, st).wf(),
{
    match e {
        Expr::Literal(v) => {
            lemma_kind_is_flag(v@);
        },
        Expr::Variable(name) => {
            crate::types::lemma_state_binding_wf(st.entries@, name@, 0);
        },
        _ => {},
    }
}

/// Whether any node of the tree is a compiled call. Only such nodes depend on
/// the outside parser; every other tree resolves to exactly one outcome.
pub open spec fn has_call(e: Expr) -> bool
    decreases e,
{
    match e {
        Expr::Call(_) => true,
        Expr::Array(es) => any_call(es@),
        _ => false,
    }
}

pub open spec fn any_call(es: Seq<Expr>) -> bool
    decreases es,
{
    if es.len() == 0 {
        false
    } else {
        has_call(es[0]) || any_call(es.drop_first())
    }
}

pub proof fn lemma_any_call(es: Seq<Expr>)
    ensures
        any_call(es) <==> (exists|j: int| 0 <= j < es.len() && #[trigger] has_call(es[j])),
    decreases es,
{
    if es.len() > 0 {
        lemma_any_call(es.drop_first());
        assert(forall|j: int| 0 < j < es.len() ==> es.drop_first()[j - 1] == es[j]);
        if any_call(es) {
            if has_call(es[0]) {
                assert(has_call(es[0]));
            } else {
                let j = choose|j: int|
                    0 <= j < es.drop_first().len() && #[trigger] has_call(es.drop_first()[j]);
                assert(has_call(es[j + 1]));
            }
        }
        if exists|j: int| 0 <= j < es.len() && #[trigger] has_call(es[j]) {
            let j = choose|j: int| 0 <= j < es.len() && #[trigger] has_call(es[j]);
            if j > 0 {
                assert(has_call(es.drop_first()[j - 1]));
            }
        }
    }
}

/// The single outcome of resolving a call-free node: a literal is itself, a
/// variable is its context binding (or null when unbound), an array is its
/// resolved elements with the first element failure propagated. The call arm
/// is never consulted: `has_call` guards every use.
pub open spec fn spec_resolve(e: Expr, ctx: Context) -> Result<ValueView, ResolveError>
    decreases e,
{
    match e {
        Expr::Literal(v) => Ok(v@),
        Expr::Variable(name) => match ctx.binding(name@) {
            Some(v) => Ok(v@),
            None => Ok(ValueView::Null),
        },
        Expr::Array(es) => match spec_resolve_items(es@, ctx) {
            Ok(views) => Ok(ValueView::Array(views)),
            Err(err) => Err(err),
        },
        Expr::Call(_) => Err(ResolveError::UnableToConvert),
    }
}

pub open spec fn spec_resolve_items(es: Seq<Expr>, ctx: Context) -> Result<
    Seq<ValueView>,
    ResolveError,
>
    decreases es,
{
    if es.len() == 0 {
        Ok(Seq::empty())
    } else {
        match spec_resolve(es[0], ctx) {
            Err(err) => Err(err),
            Ok(v) => match spec_resolve_items(es.drop_first(), ctx) {
                Ok(rest) => Ok(seq![v] + rest),
                Err(err) => Err(err),
            },
        }
    }
}

/// The runtime environment delivers what the compile-time environment
/// promised: every name the type state knows is bound in the context, to a
/// value of one of the declared kinds.
pub open spec fn compatible(st: TypeState, ctx: Context) -> bool {
    forall|name: Seq<char>|
        #[trigger] st.binding(name) matches Some(td) ==> (ctx.binding(name) matches Some(v)
            && kind_in(td.kinds, kind_of_view(v@)))
}

/// What one resolution step guarantees: the only runtime error is the uniform
/// conversion failure; a produced value's kind is one the node's static
/// descriptor declared, under any compatible compile-time environment; and
/// the deterministic node shapes resolve exactly as stated.
pub open spec fn resolve_post(e: Expr, ctx: Context, r: Result<Value, ResolveError>) -> bool {
    &&& (r matches Err(err) ==> err == ResolveError::UnableToConvert)
    &&& (!has_call(e) ==> (match r {
        Ok(v) => spec_resolve(e, ctx) == Ok::<ValueView, ResolveError>(v@),
        Err(err) => spec_resolve(e, ctx) == Err::<ValueView, ResolveError>(err),
    }))
    &&& (r matches Ok(v) ==> forall|st: TypeState|
        compatible(st, ctx) ==> kind_in(#[trigger] spec_type_def(e, st).kinds, kind_of_view(v@)))
    &&& match e {
        Expr::Literal(lit) => r matches Ok(v) && v@ == lit@,
        Expr::Variable(name) => match ctx.binding(name@) {
            Some(bound) => r matches Ok(v) && v@ == bound@,
            None => r == Ok::<Value, ResolveError>(Value::Null),
        },
        Expr::Array(es) => r matches Ok(v) ==> (v matches Value::Array(items) && items@.len()
            == es@.len()),
        Expr::Call(f) => {
            &&& (r matches Ok(v) ==> v matches Value::Timestamp(_))
            &&& (!has_call(*f.value) ==> (match spec_resolve(*f.value, ctx) {
                Ok(cv) => ((cv matches ValueView::Timestamp(_) ==> (r matches Ok(rv) && rv@ == cv))
                    && ((!(cv matches ValueView::Timestamp(_)) && !(cv matches ValueView::Bytes(
                    _,
                ))) ==> r == Err::<Value, ResolveError>(ResolveError::UnableToConvert))),
                Err(e2) => r == Err::<Value, ResolveError>(e2),
            }))
        },
    }
}

pub open spec fn digit_char(d: nat) -> char {
    ((48 + (d % 10)) as u8) as char
}

/// The decimal rendering of a number, most significant digit first.
pub open spec fn spec_dec(n: nat) -> Seq<char>
    decreases n,
{
    if n < 10 {
        seq![digit_char(n)]
    } else {
        spec_dec(n / 10) + seq![digit_char(n % 10)]
    }
}

fn digit_str(d: usize) -> (r: &'static str)
    requires
        d < 10,
    ensures
        r@ == seq![digit_char(d as nat)],
{
    match d {
        0 => {
            proof {
                reveal_strlit("0");
                assert("0"@ =~= seq![digit_char(0)]);
            }
            "0"
        },
        1 => {
            proof {
                reveal_strlit("1");
                assert("1"@ =~= seq![digit_char(1)]);
            }
            "1"
        },
        2 => {
            proof {
                reveal_strlit("2");
                assert("2"@ =~= seq![digit_char(2)]);
            }
            "2"
        },
        3 => {
            proof {
                reveal_strlit("3");
                assert("3"@ =~= seq![digit_char(3)]);
            }
            "3"
        },
        4 => {
            proof {
                reveal_strlit("4");
                assert("4"@ =~= seq![digit_char(4)]);
            }
            "4"
        },
        5 => {
            proof {
                reveal_strlit("5");
                assert("5"@ =~= seq![digit_char(5)]);
            }
            "5"
        },
        6 => {
            proof {
                reveal_strlit("6");
                assert("6"@ =~= seq![digit_char(6)]);
            }
            "6"
        },
        7 => {
            proof {
                reveal_strlit("7");
                assert("7"@ =~= seq![digit_char(7)]);
            }
            "7"
        },
        8 => {
            proof {
                reveal_strlit("8");
                assert("8"@ =~= seq![digit_char(8)]);
            }
            "8"
        },
        _ => {
            proof {
                reveal_strlit("9");
                assert("9"@ =~= seq![digit_char(9)]);
            }
            "9"
        },
    }
}

/// Render a number in decimal, for diagnostics.
pub fn dec_string(n: usize) -> (r: String)
    ensures
        r@ == spec_dec(n as nat),
    decreases n,
{
    if n < 10 {
        digit_str(n).to_owned()
    } else {
        let mut r = dec_string(n / 10);
        r.append(digit_str(n % 10));
        proof {
            assert(r@ =~= spec_dec((n / 10) as nat) + seq![digit_char((n % 10) as nat)]);
        }
        r
    }
}

impl Expr {
    /// A short description of the node's shape, for diagnostics.
    pub open spec fn spec_describe(self) -> Seq<char> {
        match self {
            Expr::Literal(_) => "literal"@,
            Expr::Variable(_) => "variable"@,
            Expr::Array(_) => "array literal"@,
            Expr::Call(_) => "function call"@,
        }
    }

    pub fn describe(&self) -> (r: String)
        ensures
            r@ == self.spec_describe(),
    {
        match self {
            Expr::Literal(_) => "literal".to_owned(),
            Expr::Variable(_) => "variable".to_owned(),
            Expr::Array(_) => "array literal".to_owned(),
            Expr::Call(_) => "function call".to_owned(),
        }
    }

    /// Fold this expression to a literal value using only the compile-time
    /// environment, if and only if it is a compile-time constant.
    pub fn resolve_constant(&self, state: &TypeState) -> (r: Option<Value>)
        ensures
            match r {
                Some(v) => spec_constant(*self) == Some(v@),
                None => spec_constant(*self) is None,
            },
        decreases self,
    {
        match self {
            Expr::Literal(v) => Some(v.dup()),
            Expr::Array(es) => match resolve_constants(es, state) {
                Some(vs) => Some(Value::Array(vs)),
                None => None,
            },
            Expr::Variable(_) => None,
            Expr::Call(_) => None,
        }
    }

    /// The node's static type descriptor under the given environment.
    pub fn type_def(&self, state: &TypeState) -> (r: TypeDef)
        ensures
            r == spec_type_def(*self, *state),
        decreases self,
    {
        match self {
            Expr::Literal(v) => TypeDef { kinds: v.kind(), fallible: false },
            Expr::Variable(name) => match state.lookup(name) {
                Some(td) => td,
                None => TypeDef { kinds: kind::ANY, fallible: true },
            },
            Expr::Array(es) => TypeDef { kinds: kind::ARRAY, fallible: any_fallible(es, state) },
            Expr::Call(_) => TypeDef { kinds: kind::TIMESTAMP, fallible: true },
        }
    }

    /// Evaluate this node against one record's context.
    pub fn resolve(&self, ctx: &Context) -> (r: Result<Value, ResolveError>)
        ensures
            resolve_post(*self, *ctx, r),
        decreases self,
    {
        match self {
            Expr::Literal(lit) => {
                let v = lit.dup();
                proof {
                    lemma_kind_is_flag(v@);
                    kind::lemma_flag_in_itself(kind_of_view(v@));
                }
                Ok(v)
            },
            Expr::Variable(name) => {
                let r = match ctx.lookup(name) {
                    Some(v) => Ok(v),
                    None => Ok(Value::Null),
                };
                proof {
                    let v = r->Ok_0;
                    lemma_kind_is_flag(v@);
                    kind::lemma_flag_in_itself(kind_of_view(v@));
                    kind::lemma_any_has_every_flag(kind_of_view(v@));
                }
                r
            },
            Expr::Array(es) => {
                let items = resolve_items(es, ctx)?;
                proof {
                    kind::lemma_flag_in_itself(kind::ARRAY);
                }
                Ok(Value::Array(items))
            },
            Expr::Call(f) => {
                let r = f.resolve(ctx);
                proof {
                    kind::lemma_flag_in_itself(kind::TIMESTAMP);
                }
                r
            },
        }
    }
}

fn resolve_constants(es: &Vec<Expr>, state: &TypeState) -> (r: Option<Vec<Value>>)
    ensures
        match r {
            Some(vs) => spec_constants(es@) == Some(view_values(vs@)),
            None => spec_constants(es@) is None,
        },
    decreases es,
{
    let mut out: Vec<Value> = Vec::new();
    let mut i: usize = 0;
    while i < es.len()
        invariant
            i <= es@.len(),
            out@.len() == i,
            forall|j: int| 0 <= j < i ==> spec_constant(es@[j]) == Some(out@[j]@),
        decreases es@.len() - i,
    {
        match es[i].resolve_constant(state) {
            Some(v) => out.push(v),
            None => {
                proof {
                    lemma_spec_constants(es@);
                }
                return None;
            },
        }
        i = i + 1;
    }
    proof {
        lemma_spec_constants(es@);
        crate::value::lemma_view_values(out@);
        let vs = spec_constants(es@)->Some_0;
        assert(vs =~= view_values(out@));
    }
    Some(out)
}

fn any_fallible(es: &Vec<Expr>, state: &TypeState) -> (r: bool)
    ensures
        r == spec_any_fallible(es@, *state),
    decreases es,
{
    let mut i: usize = 0;
    while i < es.len()
        invariant
            i <= es@.len(),
            forall|j: int| 0 <= j < i ==> !(#[trigger] spec_type_def(es@[j], *state).fallible),
        decreases es@.len() - i,
    {
        let td = es[i].type_def(state);
        if td.fallible {
            proof {
                lemma_any_fallible(es@, *state);
            }
            return true;
        }
        i = i + 1;
    }
    proof {
        lemma_any_fallible(es@, *state);
    }
    false
}

fn resolve_items(es: &Vec<Expr>, ctx: &Context) -> (r: Result<Vec<Value>, ResolveError>)
    ensures
        r matches Ok(vs) ==> vs@.len() == es@.len(),
        r matches Err(err) ==> err == ResolveError::UnableToConvert,
        !any_call(es@) ==> (match r {
            Ok(vs) => spec_resolve_items(es@, *ctx) == Ok::<Seq<ValueView>, ResolveError>(
                view_values(vs@),
            ),
            Err(err) => spec_resolve_items(es@, *ctx) == Err::<Seq<ValueView>, ResolveError>(err),
        }),
    decreases es,
{
    let mut out: Vec<Value> = Vec::new();
    let mut i: usize = 0;
    proof {
        lemma_any_call(es@);
        assert(es@.skip(0) =~= es@);
        assert(view_values(out@) == Seq::<ValueView>::empty());
        if spec_resolve_items(es@, *ctx) is Ok {
            let rest = spec_resolve_items(es@, *ctx)->Ok_0;
            assert((Seq::<ValueView>::empty() + rest) =~= rest);
        }
    }
    while i < es.len()
        invariant
            i <= es@.len(),
            out@.len() == i,
            !any_call(es@) ==> (forall|j: int| 0 <= j < es@.len() ==> !#[trigger] has_call(es@[j])),
            !any_call(es@) ==> (match spec_resolve_items(es@.skip(i as int), *ctx) {
                Ok(rest) => spec_resolve_items(es@, *ctx) == Ok::<Seq<ValueView>, ResolveError>(
                    view_values(out@) + rest,
                ),
                Err(err) => spec_resolve_items(es@, *ctx) == Err::<Seq<ValueView>, ResolveError>(
                    err,
                ),
            }),
        decreases es@.len() - i,
    {
        let ghost out_pre = out@;
        proof {
            assert(es@.skip(i as int)[0] == es@[i as int]);
            assert(es@.skip(i as int).drop_first() =~= es@.skip(i as int + 1));
        }
        match es[i].resolve(ctx) {
            Ok(v) => {
                out.push(v);
                proof {
                    crate::value::lemma_view_values(out@);
                    crate::value::lemma_view_values(out_pre);
                    assert(view_values(out@) =~= view_values(out_pre) + seq![out@[i as int]@]);
                    if !any_call(es@) && spec_resolve_items(es@.skip(i as int + 1), *ctx) is Ok {
                        let rest = spec_resolve_items(es@.skip(i as int + 1), *ctx)->Ok_0;
                        assert((view_values(out_pre) + (seq![out@[i as int]@] + rest)) =~= (
                        view_values(out@) + rest));
                    }
                }
            },
            Err(err) => {
                return Err(err);
            },
        }
        i = i + 1;
    }
    proof {
        assert(es@.skip(i as int) =~= Seq::<Expr>::empty());
        assert((view_values(out@) + Seq::<ValueView>::empty()) =~= view_values(out@));
    }
    Ok(out)
}

} // verus!
