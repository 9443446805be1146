//! The runtime value model: a closed tagged union of value kinds, its
//! mathematical view, and a verified deep copy.

use vstd::prelude::*;
use crate::kind;

verus! {

/// An instant: whole seconds since the Unix epoch plus the nanosecond offset
/// within that second.
#[derive(Clone, Copy, Debug, PartialEq, Eq, Structural)]
pub struct Timestamp {
    pub secs: i64,
    pub nanos: u32,
}

pub const NANOS_PER_SEC: u32 = 1000000000;

impl Timestamp {
    /// The nanosecond offset stays inside one second.
    pub open spec fn wf(self) -> bool {
        self.nanos < NANOS_PER_SEC
    }
}

/// A runtime value. Every result of resolution is exactly one of these kinds;
/// no implicit coercion happens outside function logic.
#[derive(Debug, PartialEq)]
pub enum Value {
    Bytes(Vec<u8>),
    Integer(i64),
    /// An IEEE-754 double carried as its bit pattern; the core never computes
    /// with it, the host interprets it.
    Float(u64),
    Boolean(bool),
    Timestamp(Timestamp),
    /// A regular expression carried as its source text; compiling and running
    /// it is host business.
    Regex(String),
    Array(Vec<Value>),
    Object(Vec<(String, Value)>),
    Null,
}

/// The mathematical shape of a `Value`: sequences and integers in place of
/// vectors and machine words.
pub enum ValueView {
    Bytes(Seq<u8>),
    Integer(int),
    Float(u64),
    Boolean(bool),
    Timestamp(Timestamp),
    Regex(Seq<char>),
    Array(Seq<ValueView>),
    Object(Seq<(Seq<char>, ValueView)>),
    Null,
}

pub open spec fn view_values(vs: Seq<Value>) -> Seq<ValueView>
    decreases vs,
{
    if vs.len() == 0 {
        Seq::empty()
    } else {
        seq![vs[0]@] + view_values(vs.drop_first())
    }
}

pub open spec fn view_fields(fs: Seq<(String, Value)>) -> Seq<(Seq<char>, ValueView)>
    decreases fs,
{
    if fs.len() == 0 {
        Seq::empty()
    } else {
        seq![(fs[0].0@, fs[0].1@)] + view_fields(fs.drop_first())
    }
}

impl View for Value {
    type V = ValueView;

    open spec fn view(&self) -> ValueView
        decreases self,
    {
        match self {
            Value::Bytes(b) => ValueView::Bytes(b@),
            Value::Integer(i) => ValueView::Integer(*i as int),
            Value::Float(bits) => ValueView::Float(*bits),
            Value::Boolean(b) => ValueView::Boolean(*b),
            Value::Timestamp(t) => ValueView::Timestamp(*t),
            Value::Regex(s) => ValueView::Regex(s@),
            Value::Array(vs) => ValueView::Array(view_values(vs@)),
            Value::Object(fs) => ValueView::Object(view_fields(fs@)),
            Value::Null => ValueView::Null,
        }
    }
}

pub proof fn lemma_view_values(vs: Seq<Value>)
    ensures
        view_values(vs).len() == vs.len(),
        forall|j: int| 0 <= j < vs.len() ==> view_values(vs)[j] == vs[j]@,
    decreases vs,
{
    if vs.len() > 0 {
        lemma_view_values(vs.drop_first());
        let head = seq![vs[0]@];
        let rest = view_values(vs.drop_first());
        assert(view_values(vs) == head + rest);
        assert((head + rest).len() == 1 + rest.len());
        assert forall|j: int| 0 <= j < vs.len() implies view_values(vs)[j] == vs[j]@ by {
            if j > 0 {
                assert((head + rest)[j] == rest[j - 1]);
                assert(vs.drop_first()[j - 1] == vs[j]);
            } else {
                assert((head + rest)[0] == vs[0]@);
            }
        }
    }
}

pub proof fn lemma_view_fields(fs: Seq<(String, Value)>)
    ensures
        view_fields(fs).len() == fs.len(),
        forall|j: int| 0 <= j < fs.len() ==> view_fields(fs)[j] == (fs[j].0@, fs[j].1@),
    decreases fs,
{
    if fs.len() > 0 {
        lemma_view_fields(fs.drop_first());
        assert forall|j: int| 0 <= j < fs.len() implies view_fields(fs)[j] == (
        fs[j].0@,
        fs[j].1@,
        ) by {
            let head = seq![(fs[0].0@, fs[0].1@)];
            let rest = view_fields(fs.drop_first());
            assert(view_fields(fs) == head + rest);
            if j > 0 {
                assert((head + rest)[j] == rest[j - 1]);
                assert(fs.drop_first()[j - 1] == fs[j]);
            } else {
                assert((head + rest)[0] == (fs[0].0@, fs[0].1@));
            }
        }
    }
}

/// A value's view carries the same head constructor as the value itself.
pub proof fn lemma_view_variant(v: Value)
    ensures
        (v@ matches ValueView::Timestamp(_)) <==> (v matches Value::Timestamp(_)),
        (v@ matches ValueView::Bytes(_)) <==> (v matches Value::Bytes(_)),
{
    match v {
        Value::Bytes(_) => {},
        Value::Integer(_) => {},
        Value::Float(_) => {},
        Value::Boolean(_) => {},
        Value::Timestamp(_) => {},
        Value::Regex(_) => {},
        Value::Array(_) => {},
        Value::Object(_) => {},
        Value::Null => {},
    }
}

/// The kind of a value, as a single-bit flag.
pub open spec fn kind_of_view(v: ValueView) -> u16 {
    match v {
        ValueView::Bytes(_) => kind::BYTES,
        ValueView::Integer(_) => kind::INTEGER,
        ValueView::Float(_) => kind::FLOAT,
        ValueView::Boolean(_) => kind::BOOLEAN,
        ValueView::Timestamp(_) => kind::TIMESTAMP,
        ValueView::Regex(_) => kind::REGEX,
        ValueView::Array(_) => kind::ARRAY,
        ValueView::Object(_) => kind::OBJECT,
        ValueView::Null => kind::NULL,
    }
}

pub proof fn lemma_kind_is_flag(v: ValueView)
    ensures
        kind::is_flag(kind_of_view(v)),
        kind_of_view(v) != 0,
{
}

impl Value {
    /// The kind flag of this value.
    pub fn kind(&self) -> (k: u16)
        ensures
            k == kind_of_view(self@),
    {
        match self {
            Value::Bytes(_) => kind::BYTES,
            Value::Integer(_) => kind::INTEGER,
            Value::Float(_) => kind::FLOAT,
            Value::Boolean(_) => kind::BOOLEAN,
            Value::Timestamp(_) => kind::TIMESTAMP,
            Value::Regex(_) => kind::REGEX,
            Value::Array(_) => kind::ARRAY,
            Value::Object(_) => kind::OBJECT,
            Value::Null => kind::NULL,
        }
    }

    /// Deep copy with the same view.
    pub fn dup(&self) -> (r: Value)
        ensures
            r@ == self@,
        decreases self,
    {
        match self {
            Value::Bytes(b) => Value::Bytes(dup_bytes(b)),
            Value::Integer(i) => Value::Integer(*i),
            Value::Float(bits) => Value::Float(*bits),
            Value::Boolean(b) => Value::Boolean(*b),
            Value::Timestamp(t) => Value::Timestamp(*t),
            Value::Regex(s) => Value::Regex(s.clone()),
            Value::Array(vs) => Value::Array(dup_values(vs)),
            Value::Object(fs) => Value::Object(dup_fields(fs)),
            Value::Null => Value::Null,
        }
    }
}

fn dup_values(vs: &Vec<Value>) -> (out: Vec<Value>)
    ensures
        view_values(out@) == view_values(vs@),
        out@.len() == vs@.len(),
    decreases vs,
{
    let mut out: Vec<Value> = Vec::new();
    let mut i: usize = 0;
    while i < vs.len()
        invariant
            i <= vs.len(),
            out@.len() == i,
            forall|j: int| 0 <= j < i ==> out@[j]@ == vs@[j]@,
        decreases vs.len() - i,
    {
        out.push(vs[i].dup());
        i = i + 1;
    }
    proof {
        lemma_view_values(out@);
        lemma_view_values(vs@);
        assert(view_values(out@) =~= view_values(vs@));
    }
    out
}

fn dup_fields(fs: &Vec<(String, Value)>) -> (out: Vec<(String, Value)>)
    ensures
        view_fields(out@) == view_fields(fs@),
        out@.len() == fs@.len(),
    decreases fs,
{
    let mut out: Vec<(String, Value)> = Vec::new();
    let mut i: usize = 0;
    while i < fs.len()
        invariant
            i <= fs.len(),
            out@.len() == i,
            forall|j: int| 0 <= j < i ==> out@[j].0@ == fs@[j].0@ && out@[j].1@ == fs@[j].1@,
        decreases fs.len() - i,
    {
        let entry = &fs[i];
        out.push((entry.0.clone(), entry.1.dup()));
        i = i + 1;
    }
    proof {
        lemma_view_fields(out@);
        lemma_view_fields(fs@);
        assert(view_fields(out@) =~= view_fields(fs@));
    }
    out
}

fn dup_bytes(v: &Vec<u8>) -> (r: Vec<u8>)
    ensures
        r@ == v@,
{
    let mut r: Vec<u8> = Vec::new();
    let mut i: usize = 0;
    while i < v.len()
        invariant
            i <= v.len(),
            r@ =~= v@.subrange(0, i as int),
        decreases v.len() - i,
    {
        r.push(v[i]);
        i = i + 1;
    }
    proof {
        assert(r@ =~= v@);
    }
    r
}

} // verus!
