//! The variables in scope: which pin carries the value of which name.
//!
//! A scope is a list of bindings in the order in which they were made. The
//! binding made last for a name is the one that counts.

use vstd::prelude::*;
use crate::ast::same_text;

verus! {

/// The bindings of one lexical scope.
#[derive(Debug)]
pub struct ScopeInfo {
    variables: Vec<(String, usize)>,
}

/// The map that the first `n` bindings of a list make: a later binding of a
/// name takes the place of an earlier one.
pub open spec fn bindings_map(bindings: Seq<(String, usize)>, n: nat) -> Map<Seq<char>, usize>
    decreases n,
{
    if n == 0 {
        Map::empty()
    } else {
        bindings_map(bindings, (n - 1) as nat).insert(bindings[n - 1].0@, bindings[n - 1].1)
    }
}

/// The map of a list of bindings depends only on the names and pins it holds.
pub proof fn lemma_bindings_map_same(a: Seq<(String, usize)>, b: Seq<(String, usize)>, n: nat)
    requires
        n <= a.len(),
        n <= b.len(),
        forall|k: int| 0 <= k < n ==> (#[trigger] a[k]).0@ == b[k].0@ && a[k].1 == b[k].1,
    ensures
        bindings_map(a, n) == bindings_map(b, n),
    decreases n,
{
    if n > 0 {
        lemma_bindings_map_same(a, b, (n - 1) as nat);
        assert(a[n - 1].0@ == b[n - 1].0@);
    }
}

/// The map of a list that got one more binding.
pub proof fn lemma_bindings_map_push(a: Seq<(String, usize)>, name: String, pin: usize)
    ensures
        bindings_map(a.push((name, pin)), a.len() + 1) == bindings_map(a, a.len()).insert(
            name@,
            pin,
        ),
{
    let b = a.push((name, pin));
    lemma_bindings_map_same(a, b, a.len());
}

impl View for ScopeInfo {
    type V = Map<Seq<char>, usize>;

    closed spec fn view(&self) -> Map<Seq<char>, usize> {
        bindings_map(self.variables@, self.variables@.len())
    }
}

impl ScopeInfo {
    /// A scope that binds nothing.
    pub fn new() -> (scope: ScopeInfo)
        ensures
            scope@ == Map::<Seq<char>, usize>::empty(),
    {
        ScopeInfo { variables: Vec::new() }
    }

    /// Binds `name` to the pin `index`; a binding that the name had is hidden.
    pub fn add_variable(&mut self, name: String, index: usize)
        ensures
            final(self)@ == old(self)@.insert(name@, index),
    {
        proof {
            lemma_bindings_map_push(self.variables@, name, index);
        }
        self.variables.push((name, index));
    }

    /// The pin that `name` is bound to, if it is bound.
    pub fn get(&self, name: &str) -> (pin: Option<usize>)
        ensures
            pin == (if self@.contains_key(name@) {
                Some(self@[name@])
            } else {
                None
            }),
    {
        let mut i: usize = self.variables.len();
        while i > 0
            invariant
                i <= self.variables.len(),
                self@.contains_key(name@) <==> bindings_map(
                    self.variables@,
                    i as nat,
                ).contains_key(name@),
                self@.contains_key(name@) ==> self@[name@] == bindings_map(
                    self.variables@,
                    i as nat,
                )[name@],
            decreases i,
        {
            i -= 1;
            if same_text(self.variables[i].0.as_str(), name) {
                return Some(self.variables[i].1);
            }
        }
        None
    }

    /// A full copy, which shares nothing with the scope it was made from.
    pub fn copy(&self) -> (scope: ScopeInfo)
        ensures
            scope@ == self@,
    {
        let mut variables: Vec<(String, usize)> = Vec::new();
        let mut i: usize = 0;
        while i < self.variables.len()
            invariant
                i <= self.variables.len(),
                variables@.len() == i,
                forall|k: int|
                    0 <= k < i ==> (#[trigger] variables@[k]).0@ == self.variables@[k].0@
                        && variables@[k].1 == self.variables@[k].1,
            decreases self.variables.len() - i,
        {
            let name = self.variables[i].0.clone();
            let pin = self.variables[i].1;
            variables.push((name, pin));
            i += 1;
        }
        proof {
            lemma_bindings_map_same(variables@, self.variables@, variables@.len());
        }
        ScopeInfo { variables }
    }
}

} // verus!
