//! Parameter schemas, the argument-binding object handed to a function's
//! compile step, and the compile-time error taxonomy.

use vstd::prelude::*;
use crate::expression::{spec_type_def, Expr};
use crate::kind;
use crate::types::TypeState;

verus! {

/// Declares one named argument slot of a built-in function: the keyword, the
/// union of acceptable value kinds, and whether the slot must be filled.
#[derive(Clone, Copy, Debug)]
pub struct Parameter {
    pub keyword: &'static str,
    pub kind: u16,
    pub required: bool,
}

/// A compile-time failure. Compilation fails deterministically for the same
/// call-site text and environment, is reported once, and aborts the enclosing
/// program; nothing is retried.
#[derive(Debug)]
pub enum CompileError {
    /// The call names a function the registry does not know.
    UnknownFunction { ident: String },
    /// The call site supplies a keyword no parameter declares.
    UnknownKeyword { keyword: String },
    /// The call site omits a required parameter.
    MissingRequired { keyword: &'static str },
    /// The argument's statically known kind set does not intersect the
    /// parameter's accepted kinds.
    KindMismatch { keyword: &'static str },
    /// The argument's shape must be static but it is not an array literal.
    UnexpectedExpression { keyword: &'static str },
    /// A constant-only argument is not statically resolvable.
    ExpectedStaticExpression { keyword: &'static str, expr: Expr },
    /// A resolved constant failed domain validation; carries the keyword, a
    /// description of the offending expression, and the reason.
    InvalidArgument { keyword: &'static str, value: String, error: &'static str },
}

/// Compile-time context handed through by the enclosing compiler. The
/// timestamp built-in does not consult it; it exists so every built-in's
/// compile step shares one shape.
pub struct FunctionCompileContext {}

/// One worked example of a built-in: source text and the expected outcome,
/// usable directly as documentation and as a test fixture.
#[derive(Clone, Copy, Debug)]
pub struct Example {
    pub title: &'static str,
    pub source: &'static str,
    pub result: Result<&'static str, &'static str>,
}

/// First binding of the keyword wins.
pub open spec fn arg_binding(entries: Seq<(String, Expr)>, kw: Seq<char>) -> Option<Expr>
    decreases entries,
{
    if entries.len() == 0 {
        None
    } else if entries[0].0@ == kw {
        Some(entries[0].1)
    } else {
        arg_binding(entries.drop_first(), kw)
    }
}

proof fn lemma_arg_binding_found(s: Seq<(String, Expr)>, i: int, kw: Seq<char>)
    requires
        0 <= i < s.len(),
        s[i].0@ == kw,
        forall|j: int| 0 <= j < i ==> s[j].0@ != kw,
    ensures
        arg_binding(s, kw) == Some(s[i].1),
    decreases i,
{
    if i > 0 {
        assert(forall|j: int| 0 <= j < i - 1 ==> s.drop_first()[j] == s[j + 1]);
        lemma_arg_binding_found(s.drop_first(), i - 1, kw);
    }
}

proof fn lemma_arg_binding_absent(s: Seq<(String, Expr)>, kw: Seq<char>)
    requires
        forall|j: int| 0 <= j < s.len() ==> s[j].0@ != kw,
    ensures
        arg_binding(s, kw) is None,
    decreases s,
{
    if s.len() > 0 {
        lemma_arg_binding_absent(s.drop_first(), kw);
    }
}

proof fn lemma_arg_binding_remove(s: Seq<(String, Expr)>, i: int, kw: Seq<char>)
    requires
        0 <= i < s.len(),
        s[i].0@ != kw,
    ensures
        arg_binding(s.remove(i), kw) == arg_binding(s, kw),
    decreases i,
{
    if i == 0 {
        assert(s.remove(0) =~= s.drop_first());
    } else {
        assert(s.remove(i)[0] == s[0]);
        assert(s.remove(i).drop_first() =~= s.drop_first().remove(i - 1));
        lemma_arg_binding_remove(s.drop_first(), i - 1, kw);
    }
}

pub proof fn lemma_arg_binding_push(s: Seq<(String, Expr)>, x: (String, Expr), kw: Seq<char>)
    ensures
        arg_binding(s.push(x), kw) == (match arg_binding(s, kw) {
            Some(e) => Some(e),
            None => if x.0@ == kw {
                Some(x.1)
            } else {
                None
            },
        }),
    decreases s,
{
    let t = s.push(x);
    assert(t.len() == s.len() + 1);
    if s.len() == 0 {
        assert(t[0] == x);
        assert(t.drop_first() =~= Seq::<(String, Expr)>::empty());
        assert(arg_binding(t.drop_first(), kw) is None);
    } else {
        assert(t[0] == s[0]);
        assert(t.drop_first() =~= s.drop_first().push(x));
        lemma_arg_binding_push(s.drop_first(), x, kw);
        assert(arg_binding(t.drop_first(), kw) == arg_binding(s.drop_first().push(x), kw));
    }
}

/// First parameter declaring the keyword, from index `i` on.
pub open spec fn param_with_from(params: Seq<Parameter>, kw: Seq<char>, i: int) -> Option<Parameter>
    decreases params.len() - i,
{
    if i < 0 || i >= params.len() {
        None
    } else if params[i].keyword@ == kw {
        Some(params[i])
    } else {
        param_with_from(params, kw, i + 1)
    }
}

/// A call site's bindings satisfy a parameter schema: no unknown keyword, no
/// required parameter missing, and every bound argument's statically known
/// kind set intersects its parameter's accepted kinds.
pub open spec fn spec_args_valid(args: ArgumentList, params: Seq<Parameter>, st: TypeState) -> bool {
    &&& (forall|j: int|
        0 <= j < args.entries@.len() ==> param_with_from(
            params,
            #[trigger] args.entries@[j].0@,
            0,
        ) is Some)
    &&& (forall|j: int|
        0 <= j < params.len() ==> ((#[trigger] params[j]).required ==> args.binding(
            params[j].keyword@,
        ) is Some))
    &&& (forall|j: int|
        0 <= j < params.len() ==> match args.binding((#[trigger] params[j]).keyword@) {
            Some(e) => kind::kinds_intersect(spec_type_def(e, st).kinds, params[j].kind),
            None => true,
        })
}

/// The compile-time binding of a call site's expressions to a function's
/// declared parameters, built by the registry before compile is invoked.
pub struct ArgumentList {
    pub entries: Vec<(String, Expr)>,
}

impl ArgumentList {
    pub open spec fn binding(self, kw: Seq<char>) -> Option<Expr> {
        arg_binding(self.entries@, kw)
    }

    pub fn new() -> (r: ArgumentList)
        ensures
            r.entries@.len() == 0,
    {
        ArgumentList { entries: Vec::new() }
    }

    /// Bind a call-site expression to a keyword; an earlier binding of the
    /// same keyword keeps precedence.
    pub fn bind(&mut self, keyword: String, expr: Expr)
        ensures
            final(self).entries@ == old(self).entries@.push((keyword, expr)),
            forall|kw2: Seq<char>|
                #[trigger] final(self).binding(kw2) == (match old(self).binding(kw2) {
                    Some(e) => Some(e),
                    None => if keyword@ == kw2 {
                        Some(expr)
                    } else {
                        None
                    },
                }),
    {
        proof {
            assert forall|kw2: Seq<char>| true implies #[trigger] arg_binding(
                self.entries@.push((keyword, expr)),
                kw2,
            ) == (match arg_binding(self.entries@, kw2) {
                Some(e) => Some(e),
                None => if keyword@ == kw2 {
                    Some(expr)
                } else {
                    None
                },
            }) by {
                lemma_arg_binding_push(self.entries@, (keyword, expr), kw2);
            }
        }
        self.entries.push((keyword, expr));
    }

    /// The expression bound to a required parameter, consumed out of the
    /// list. Validation has already guaranteed the binding exists, so asking
    /// for a missing one is a programming invariant violation, which the
    /// precondition rules out.
    pub fn required(&mut self, keyword: &str) -> (r: Expr)
        requires
            old(self).binding(keyword@) is Some,
        ensures
            Some(r) == old(self).binding(keyword@),
            forall|kw2: Seq<char>|
                kw2 != keyword@ ==> #[trigger] final(self).binding(kw2) == old(self).binding(kw2),
    {
        let kw = keyword.to_owned();
        let mut i: usize = 0;
        while i < self.entries.len()
            invariant
                i <= self.entries@.len(),
                kw@ == keyword@,
                self.entries@ == old(self).entries@,
                forall|j: int| 0 <= j < i ==> self.entries@[j].0@ != keyword@,
                self.binding(keyword@) is Some,
            decreases self.entries@.len() - i,
        {
            if self.entries[i].0.eq(&kw) {
                proof {
                    lemma_arg_binding_found(self.entries@, i as int, keyword@);
                }
                let ghost pre = self.entries@;
                let entry = self.entries.remove(i);
                proof {
                    assert forall|kw2: Seq<char>| kw2 != keyword@ implies #[trigger] arg_binding(
                        self.entries@,
                        kw2,
                    ) == arg_binding(pre, kw2) by {
                        lemma_arg_binding_remove(pre, i as int, kw2);
                    }
                }
                return entry.1;
            }
            i = i + 1;
        }
        proof {
            lemma_arg_binding_absent(self.entries@, keyword@);
        }
        Expr::Literal(crate::value::Value::Null)
    }

    /// Like `required`, for arguments that are allowed to stay dynamic: the
    /// caller decides whether to force constant resolution afterwards.
    pub fn required_expr(&mut self, keyword: &str) -> (r: Expr)
        requires
            old(self).binding(keyword@) is Some,
        ensures
            Some(r) == old(self).binding(keyword@),
            forall|kw2: Seq<char>|
                kw2 != keyword@ ==> #[trigger] final(self).binding(kw2) == old(self).binding(kw2),
    {
        self.required(keyword)
    }

    /// The bound expression for a parameter whose shape, not just value, must
    /// be fixed at compile time: only an array literal is accepted, and its
    /// child expressions are handed out.
    pub fn required_array(&mut self, keyword: &'static str) -> (r: Result<Vec<Expr>, CompileError>)
        requires
            old(self).binding(keyword@) is Some,
        ensures
            (match old(self).binding(keyword@)->Some_0 {
                Expr::Array(es) => r matches Ok(v) && v == es,
                _ => r matches Err(e) && (e matches CompileError::UnexpectedExpression {
                    keyword: k,
                } && k@ == keyword@),
            }),
            forall|kw2: Seq<char>|
                kw2 != keyword@ ==> #[trigger] final(self).binding(kw2) == old(self).binding(kw2),
    {
        let e = self.required(keyword);
        match e {
            Expr::Array(es) => Ok(es),
            _ => Err(CompileError::UnexpectedExpression { keyword }),
        }
    }

    /// A borrowed view of a binding, for validation.
    fn bound<'a>(&'a self, keyword: &str) -> (r: Option<&'a Expr>)
        ensures
            match r {
                Some(e) => self.binding(keyword@) == Some(*e),
                None => self.binding(keyword@) is None,
            },
    {
        let kw = keyword.to_owned();
        let mut i: usize = 0;
        while i < self.entries.len()
            invariant
                i <= self.entries@.len(),
                kw@ == keyword@,
                forall|j: int| 0 <= j < i ==> self.entries@[j].0@ != keyword@,
            decreases self.entries@.len() - i,
        {
            if self.entries[i].0.eq(&kw) {
                proof {
                    lemma_arg_binding_found(self.entries@, i as int, keyword@);
                }
                return Some(&self.entries[i].1);
            }
            i = i + 1;
        }
        proof {
            lemma_arg_binding_absent(self.entries@, keyword@);
        }
        None
    }

    /// Check this call site against a schema: reject an unknown keyword, a
    /// missing required parameter, or an argument whose statically known
    /// kinds cannot satisfy its parameter.
    pub fn validate(&self, params: &Vec<Parameter>, state: &TypeState) -> (r: Result<
        (),
        CompileError,
    >)
        ensures
            r is Ok <==> spec_args_valid(*self, params@, *state),
            r matches Err(e) ==> (e matches CompileError::UnknownKeyword { .. } || (e
                matches CompileError::MissingRequired { .. }) || (e
                matches CompileError::KindMismatch { .. })),
    {
        let mut i: usize = 0;
        while i < self.entries.len()
            invariant
                i <= self.entries@.len(),
                forall|j: int|
                    0 <= j < i ==> param_with_from(params@, #[trigger] self.entries@[j].0@, 0)
                        is Some,
            decreases self.entries@.len() - i,
        {
            if find_param(params, &self.entries[i].0).is_none() {
                return Err(CompileError::UnknownKeyword { keyword: self.entries[i].0.clone() });
            }
            i = i + 1;
        }
        let mut p: usize = 0;
        while p < params.len()
            invariant
                p <= params@.len(),
                forall|j: int|
                    0 <= j < p ==> ((#[trigger] params@[j]).required ==> arg_binding(
                        self.entries@,
                        params@[j].keyword@,
                    ) is Some),
                forall|j: int|
                    0 <= j < p ==> match arg_binding(
                        self.entries@,
                        (#[trigger] params@[j]).keyword@,
                    ) {
                        Some(e) => kind::kinds_intersect(spec_type_def(e, *state).kinds, params@[j].kind),
                        None => true,
                    },
            decreases params@.len() - p,
        {
            let param = params[p];
            match self.bound(param.keyword) {
                Some(e) => {
                    let td = e.type_def(state);
                    if !kind::intersects(td.kinds, param.kind) {
                        return Err(CompileError::KindMismatch { keyword: param.keyword });
                    }
                },
                None => {
                    if param.required {
                        return Err(CompileError::MissingRequired { keyword: param.keyword });
                    }
                },
            }
            p = p + 1;
        }
        Ok(())
    }
}

/// First parameter declaring the keyword, if any.
fn find_param(params: &Vec<Parameter>, keyword: &String) -> (r: Option<Parameter>)
    ensures
        r == param_with_from(params@, keyword@, 0),
{
    let mut i: usize = 0;
    while i < params.len()
        invariant
            i <= params@.len(),
            param_with_from(params@, keyword@, 0) == param_with_from(params@, keyword@, i as int),
        decreases params@.len() - i,
    {
        if params[i].keyword.to_owned().eq(keyword) {
            return Some(params[i]);
        }
        i = i + 1;
    }
    None
}

} // verus!
