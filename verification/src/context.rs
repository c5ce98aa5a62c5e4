//! The environment: the variable bindings and the function table that a
//! program line is evaluated against. Its mathematical view is a pair of
//! maps keyed by name.
use vstd::prelude::*;

use crate::node::{Function, FunctionV, Value, function_view};

verus! {

/// The mathematical view of an environment.
pub struct ContextV {
    pub variables: Map<Seq<char>, Value>,
    pub functions: Map<Seq<char>, FunctionV>,
}

/// The environment: bindings are kept as lists of entries, where a later
/// entry for a name shadows an earlier one.
pub struct Context {
    variables: Vec<(String, Value)>,
    functions: Vec<(String, Function)>,
}

/// The map an entry list denotes: each entry binds its name, later entries
/// winning.
pub open spec fn vars_map(entries: Seq<(String, Value)>) -> Map<Seq<char>, Value>
    decreases entries.len(),
{
    if entries.len() == 0 {
        Map::empty()
    } else {
        vars_map(entries.drop_last()).insert(entries.last().0@, entries.last().1)
    }
}

/// The map a function entry list denotes.
pub open spec fn funs_map(entries: Seq<(String, Function)>) -> Map<Seq<char>, FunctionV>
    decreases entries.len(),
{
    if entries.len() == 0 {
        Map::empty()
    } else {
        funs_map(entries.drop_last()).insert(
            entries.last().0@,
            function_view(entries.last().1),
        )
    }
}

impl View for Context {
    type V = ContextV;

    closed spec fn view(&self) -> ContextV {
        ContextV {
            variables: vars_map(self.variables@),
            functions: funs_map(self.functions@),
        }
    }
}

impl Default for Context {
    /// The empty environment the host creates at startup.
    fn default() -> (r: Context)
        ensures
            r@.variables == Map::<Seq<char>, Value>::empty(),
            r@.functions == Map::<Seq<char>, FunctionV>::empty(),
    {
        Context { variables: Vec::new(), functions: Vec::new() }
    }
}

impl Context {
    /// The value bound to a name, if any.
    pub fn get_variable(&self, name: &String) -> (r: Option<Value>)
        ensures
            r == (if self@.variables.contains_key(name@) {
                Some(self@.variables[name@])
            } else {
                Option::<Value>::None
            }),
    {
        let mut k = self.variables.len();
        proof {
            assert(self.variables@.take(k as int) =~= self.variables@);
        }
        while k > 0
            invariant
                k <= self.variables@.len(),
                vars_map(self.variables@).contains_key(name@) == vars_map(
                    self.variables@.take(k as int),
                ).contains_key(name@),
                vars_map(self.variables@).contains_key(name@) ==> vars_map(
                    self.variables@,
                )[name@] == vars_map(self.variables@.take(k as int))[name@],
            decreases k,
        {
            proof {
                assert(self.variables@.take(k as int).drop_last() =~= self.variables@.take(
                    k - 1,
                ));
                assert(self.variables@.take(k as int).last() == self.variables@[k - 1]);
            }
            if self.variables[k - 1].0 == *name {
                return Some(self.variables[k - 1].1);
            }
            k = k - 1;
        }
        proof {
            assert(self.variables@.take(0) =~= Seq::<(String, Value)>::empty());
        }
        None
    }

    /// Binds a name, creating or overwriting.
    pub fn set_variable(&mut self, name: String, value: Value)
        ensures
            final(self)@.variables == old(self)@.variables.insert(name@, value),
            final(self)@.functions == old(self)@.functions,
    {
        self.variables.push((name, value));
        proof {
            assert(self.variables@.drop_last() =~= old(self).variables@);
        }
    }

    /// The function registered under a name, if any.
    pub fn get_function(&self, name: &String) -> (r: Option<&Function>)
        ensures
            match r {
                Some(f) => self@.functions.contains_key(name@) && function_view(*f)
                    == self@.functions[name@],
                None => !self@.functions.contains_key(name@),
            },
    {
        let mut k = self.functions.len();
        proof {
            assert(self.functions@.take(k as int) =~= self.functions@);
        }
        while k > 0
            invariant
                k <= self.functions@.len(),
                funs_map(self.functions@).contains_key(name@) == funs_map(
                    self.functions@.take(k as int),
                ).contains_key(name@),
                funs_map(self.functions@).contains_key(name@) ==> funs_map(
                    self.functions@,
                )[name@] == funs_map(self.functions@.take(k as int))[name@],
            decreases k,
        {
            proof {
                assert(self.functions@.take(k as int).drop_last() =~= self.functions@.take(
                    k - 1,
                ));
                assert(self.functions@.take(k as int).last() == self.functions@[k - 1]);
            }
            if self.functions[k - 1].0 == *name {
                return Some(&self.functions[k - 1].1);
            }
            k = k - 1;
        }
        proof {
            assert(self.functions@.take(0) =~= Seq::<(String, Function)>::empty());
        }
        None
    }

    /// Registers a function under a name, creating or overwriting.
    pub fn set_function(&mut self, name: String, f: Function)
        ensures
            final(self)@.functions == old(self)@.functions.insert(name@, function_view(f)),
            final(self)@.variables == old(self)@.variables,
    {
        self.functions.push((name, f));
        proof {
            assert(self.functions@.drop_last() =~= old(self).functions@);
        }
    }

    /// The copy of the caller's environment a function call runs against;
    /// the original is kept.
    pub fn duplicate(&self) -> (r: Context)
        ensures
            r@ == self@,
    {
        let mut vars: Vec<(String, Value)> = Vec::new();
        let mut k: usize = 0;
        while k < self.variables.len()
            invariant
                k <= self.variables@.len(),
                vars@ =~= self.variables@.take(k as int),
            decreases self.variables@.len() - k,
        {
            vars.push((self.variables[k].0.clone(), self.variables[k].1));
            k = k + 1;
        }
        let mut funs: Vec<(String, Function)> = Vec::new();
        let mut k: usize = 0;
        while k < self.functions.len()
            invariant
                k <= self.functions@.len(),
                funs@.len() == k,
                forall|i: int|
                    0 <= i < k ==> (#[trigger] funs@[i]).0@ == self.functions@[i].0@ && function_view(
                        funs@[i].1,
                    ) == function_view(self.functions@[i].1),
            decreases self.functions@.len() - k,
        {
            funs.push((self.functions[k].0.clone(), self.functions[k].1.duplicate()));
            k = k + 1;
        }
        let r = Context { variables: vars, functions: funs };
        proof {
            assert(r.variables@ =~= self.variables@);
            lemma_funs_map_by_view(r.functions@, self.functions@);
        }
        r
    }
}

/// Two function entry lists whose names and function views agree denote the
/// same map.
proof fn lemma_funs_map_by_view(a: Seq<(String, Function)>, b: Seq<(String, Function)>)
    requires
        a.len() == b.len(),
        forall|i: int|
            0 <= i < a.len() ==> (#[trigger] a[i]).0@ == b[i].0@ && function_view(a[i].1)
                == function_view(b[i].1),
    ensures
        funs_map(a) == funs_map(b),
    decreases a.len(),
{
    if a.len() > 0 {
        lemma_funs_map_by_view(a.drop_last(), b.drop_last());
        assert(a.last() == a[a.len() - 1]);
        assert(funs_map(a) =~= funs_map(b));
    } else {
        assert(funs_map(a) =~= funs_map(b));
    }
}

} // verus!
