//! Static type descriptors and the compile-time environment.

use vstd::prelude::*;
use crate::kind;

verus! {

/// Static descriptor of one expression node: the non-empty union of value
/// kinds it may produce, and whether it may fail at runtime even on input the
/// static analysis accepts. Fallibility is monotonic: a node built over a
/// fallible child is itself fallible.
#[derive(Clone, Copy, Debug, PartialEq, Eq, Structural)]
pub struct TypeDef {
    pub kinds: u16,
    pub fallible: bool,
}

impl TypeDef {
    /// A descriptor always declares at least one possible kind.
    pub open spec fn wf(self) -> bool {
        self.kinds != 0
    }
}

/// Every binding of the environment declares at least one kind.
pub open spec fn wf_state(st: TypeState) -> bool {
    forall|j: int| 0 <= j < st.entries@.len() ==> (#[trigger] st.entries@[j].1).wf()
}

pub proof fn lemma_state_binding_wf(entries: Seq<(String, TypeDef)>, name: Seq<char>, i: int)
    requires
        forall|j: int| 0 <= j < entries.len() ==> (#[trigger] entries[j].1).wf(),
    ensures
        state_binding_from(entries, name, i) matches Some(td) ==> td.wf(),
    decreases entries.len() - i,
{
    if 0 <= i < entries.len() && entries[i].0@ != name {
        lemma_state_binding_wf(entries, name, i + 1);
    }
}

/// First match wins, from index `i` on.
pub open spec fn state_binding_from(
    entries: Seq<(String, TypeDef)>,
    name: Seq<char>,
    i: int,
) -> Option<TypeDef>
    decreases entries.len() - i,
{
    if i < 0 || i >= entries.len() {
        None
    } else if entries[i].0@ == name {
        Some(entries[i].1)
    } else {
        state_binding_from(entries, name, i + 1)
    }
}

/// The compile-time environment: names visible at a compile site, each with
/// its inferred descriptor. Read-only during a function's compile step.
pub struct TypeState {
    pub entries: Vec<(String, TypeDef)>,
}

impl TypeState {
    pub open spec fn binding(self, name: Seq<char>) -> Option<TypeDef> {
        state_binding_from(self.entries@, name, 0)
    }

    pub fn new() -> (r: TypeState)
        ensures
            r.entries@.len() == 0,
    {
        TypeState { entries: Vec::new() }
    }

    /// Bind a name, shadowing any earlier binding.
    pub fn bind(&mut self, name: String, td: TypeDef)
        ensures
            final(self).entries@ == old(self).entries@.insert(0, (name, td)),
            final(self).binding(name@) == Some(td),
    {
        self.entries.insert(0, (name, td));
    }

    pub fn lookup(&self, name: &String) -> (r: Option<TypeDef>)
        ensures
            r == self.binding(name@),
    {
        let mut i: usize = 0;
        while i < self.entries.len()
            invariant
                i <= self.entries@.len(),
                state_binding_from(self.entries@, name@, 0) == state_binding_from(
                    self.entries@,
                    name@,
                    i as int,
                ),
            decreases self.entries@.len() - i,
        {
            if self.entries[i].0.eq(name) {
                return Some(self.entries[i].1);
            }
            i = i + 1;
        }
        None
    }
}

} // verus!
