//! The environment an evaluator consults: user-defined functions and
//! variables, and the settings in force.

pub mod settings;

use vstd::prelude::*;

use crate::bindings::{lists, Bindings};
use self::settings::{AngleUnit, DepthLimit, Rounding};

verus! {

/// A user-defined function: its parameter names and its body.
pub type Function<E> = (Vec<String>, Box<E>);

/// `b` is a copy of the function `a`: the same parameters and a clone of its body.
pub open spec fn function_copy<E: Clone>(a: Function<E>, b: Function<E>) -> bool {
    a.0@ == b.0@ && cloned::<E>(*a.1, *b.1)
}

/// `b` is a copy of the expression `a`.
pub open spec fn body_copy<E: Clone>(a: Box<E>, b: Box<E>) -> bool {
    cloned::<E>(*a, *b)
}

/// `after` is `before` with a copy of each binding of `other` added, a binding
/// of `other` replacing one of `before` under the same identifier.
pub open spec fn merged<V>(
    before: Map<Seq<char>, V>,
    other: Map<Seq<char>, V>,
    after: Map<Seq<char>, V>,
    copy: spec_fn(V, V) -> bool,
) -> bool {
    &&& after.dom() == before.dom().union(other.dom())
    &&& forall|k: Seq<char>| other.contains_key(k) ==> copy(other[k], #[trigger] after[k])
    &&& forall|k: Seq<char>|
        before.contains_key(k) && !other.contains_key(k) ==> #[trigger] after[k] == before[k]
}

/// Binding an identifier twice keeps only the second binding: the result is
/// the same as binding it once to the second value.
pub proof fn redefinition_keeps_last<V>(
    bindings: Map<Seq<char>, V>,
    identifier: Seq<char>,
    first: V,
    second: V,
)
    ensures
        bindings.insert(identifier, first).insert(identifier, second) == bindings.insert(
            identifier,
            second,
        ),
        bindings.insert(identifier, first).insert(identifier, second)[identifier] == second,
{
    assert(bindings.insert(identifier, first).insert(identifier, second) =~= bindings.insert(
        identifier,
        second,
    ));
}

/// When both sides of a join bind `shared`, the result carries a copy of the
/// joined side's binding; `own`, bound only on the receiving side, keeps its
/// binding.
pub proof fn join_prefers_joined<V>(
    before: Map<Seq<char>, V>,
    other: Map<Seq<char>, V>,
    after: Map<Seq<char>, V>,
    copy: spec_fn(V, V) -> bool,
    shared: Seq<char>,
    own: Seq<char>,
)
    requires
        merged(before, other, after, copy),
        before.contains_key(shared),
        other.contains_key(shared),
        before.contains_key(own),
        !other.contains_key(own),
    ensures
        after.contains_key(shared),
        copy(other[shared], after[shared]),
        after.contains_key(own),
        after[own] == before[own],
{
    assert(after.dom().contains(shared));
    assert(after.dom().contains(own));
}

/// Contains user-defined functions and variables, and the settings.
pub struct Context<E> {
    /// Functions declared by the user at runtime.
    pub functions: Bindings<Function<E>>,
    /// Variables declared by the user at runtime.
    pub variables: Bindings<Box<E>>,
    /// The decimal digits to display.
    pub rounding: Rounding,
    /// The angle unit to use.
    pub angle_unit: AngleUnit,
    /// Depth limit for recursion control.
    pub depth_limit: DepthLimit,
}

impl<E> Default for Context<E> {
    fn default() -> (r: Self)
        ensures
            r.functions@ == Map::<Seq<char>, Function<E>>::empty(),
            r.variables@ == Map::<Seq<char>, Box<E>>::empty(),
            r.rounding == Rounding::Round(8),
            r.angle_unit == AngleUnit::Radian,
            r.depth_limit == DepthLimit::Limit(49),
    {
        Context {
            functions: Bindings::new(),
            variables: Bindings::new(),
            rounding: Rounding::default(),
            angle_unit: AngleUnit::default(),
            depth_limit: DepthLimit::default(),
        }
    }
}

impl<E: Clone> Clone for Context<E> {
    /// The same settings, and the same identifiers bound to copies.
    fn clone(&self) -> (r: Self)
        ensures
            r.functions@.dom() == self.functions@.dom(),
            forall|k: Seq<char>|
                #[trigger] r.functions@.contains_key(k) ==> function_copy(
                    self.functions@[k],
                    r.functions@[k],
                ),
            r.variables@.dom() == self.variables@.dom(),
            forall|k: Seq<char>|
                #[trigger] r.variables@.contains_key(k) ==> body_copy(
                    self.variables@[k],
                    r.variables@[k],
                ),
            r.rounding == self.rounding,
            r.angle_unit == self.angle_unit,
            r.depth_limit == self.depth_limit,
    {
        let mut r = Context::new(self.rounding, self.angle_unit, self.depth_limit);
        r.join_with(self);
        proof {
            assert(r.functions@.dom() =~= self.functions@.dom());
            assert(r.variables@.dom() =~= self.variables@.dom());
        }
        r
    }
}

impl<E: Clone> Context<E> {
    /// An empty context with the given settings.
    pub fn new(rounding: Rounding, angle_unit: AngleUnit, depth_limit: DepthLimit) -> (r: Self)
        ensures
            r.functions@ == Map::<Seq<char>, Function<E>>::empty(),
            r.variables@ == Map::<Seq<char>, Box<E>>::empty(),
            r.rounding == rounding,
            r.angle_unit == angle_unit,
            r.depth_limit == depth_limit,
    {
        Context {
            functions: Bindings::new(),
            variables: Bindings::new(),
            rounding,
            angle_unit,
            depth_limit,
        }
    }

    /// Adds all the functions and variables of another context to this one,
    /// replacing those of the same name.
    pub fn join_with(&mut self, context: &Self)
        ensures
            merged(
                old(self).functions@,
                context.functions@,
                final(self).functions@,
                |a: Function<E>, b: Function<E>| function_copy(a, b),
            ),
            merged(
                old(self).variables@,
                context.variables@,
                final(self).variables@,
                |a: Box<E>, b: Box<E>| body_copy(a, b),
            ),
            final(self).rounding == old(self).rounding,
            final(self).angle_unit == old(self).angle_unit,
            final(self).depth_limit == old(self).depth_limit,
    {
        let functions = context.functions.entries();
        let mut i: usize = 0;
        while i < functions.len()
            invariant
                i <= functions.len(),
                lists(functions@, context.functions@),
                self.variables@ == old(self).variables@,
                self.rounding == old(self).rounding,
                self.angle_unit == old(self).angle_unit,
                self.depth_limit == old(self).depth_limit,
                forall|k: Seq<char>|
                    #[trigger] self.functions@.contains_key(k) <==> (old(self).functions@.contains_key(
                        k,
                    ) || exists|j: int| 0 <= j < i && functions@[j].0@ == k),
                forall|j: int|
                    0 <= j < i ==> function_copy(
                        #[trigger] functions@[j].1,
                        self.functions@[functions@[j].0@],
                    ),
                forall|k: Seq<char>|
                    #![trigger self.functions@[k]]
                    old(self).functions@.contains_key(k) && !(exists|j: int|
                        0 <= j < i && functions@[j].0@ == k) ==> self.functions@[k]
                        == old(self).functions@[k],
            decreases functions.len() - i,
        {
            let (identifier, (params, body)) = &functions[i];
            self.add_function(identifier.clone(), params.clone(), body.clone());
            i = i + 1;
        }
        proof {
            assert(self.functions@.dom() =~= old(self).functions@.dom().union(
                context.functions@.dom(),
            ));
            assert forall|k: Seq<char>| context.functions@.contains_key(k) implies function_copy(
                context.functions@[k],
                #[trigger] self.functions@[k],
            ) by {
                let j = choose|j: int| 0 <= j < functions@.len() && functions@[j].0@ == k;
                assert(function_copy(functions@[j].1, self.functions@[functions@[j].0@]));
            }
        }
        let ghost joined_functions = self.functions@;
        let variables = context.variables.entries();
        let mut i: usize = 0;
        while i < variables.len()
            invariant
                i <= variables.len(),
                lists(variables@, context.variables@),
                self.functions@ == joined_functions,
                self.rounding == old(self).rounding,
                self.angle_unit == old(self).angle_unit,
                self.depth_limit == old(self).depth_limit,
                forall|k: Seq<char>|
                    #[trigger] self.variables@.contains_key(k) <==> (old(self).variables@.contains_key(
                        k,
                    ) || exists|j: int| 0 <= j < i && variables@[j].0@ == k),
                forall|j: int|
                    0 <= j < i ==> body_copy(
                        #[trigger] variables@[j].1,
                        self.variables@[variables@[j].0@],
                    ),
                forall|k: Seq<char>|
                    #![trigger self.variables@[k]]
                    old(self).variables@.contains_key(k) && !(exists|j: int|
                        0 <= j < i && variables@[j].0@ == k) ==> self.variables@[k]
                        == old(self).variables@[k],
            decreases variables.len() - i,
        {
            let (identifier, expression) = &variables[i];
            self.add_variable(identifier.clone(), expression.clone());
            i = i + 1;
        }
        proof {
            assert(self.variables@.dom() =~= old(self).variables@.dom().union(
                context.variables@.dom(),
            ));
            assert forall|k: Seq<char>| context.variables@.contains_key(k) implies body_copy(
                context.variables@[k],
                #[trigger] self.variables@[k],
            ) by {
                let j = choose|j: int| 0 <= j < variables@.len() && variables@[j].0@ == k;
                assert(body_copy(variables@[j].1, self.variables@[variables@[j].0@]));
            }
        }
    }

    /// Adds a function to the user-defined ones, replacing one of the same name.
    pub fn add_function(&mut self, identifier: String, params: Vec<String>, body: Box<E>)
        ensures
            final(self).functions@ == old(self).functions@.insert(identifier@, (params, body)),
            final(self).variables@ == old(self).variables@,
            final(self).rounding == old(self).rounding,
            final(self).angle_unit == old(self).angle_unit,
            final(self).depth_limit == old(self).depth_limit,
    {
        self.functions.insert(identifier, (params, body));
    }

    /// Adds a variable to the user-defined ones, replacing one of the same name.
    pub fn add_variable(&mut self, identifier: String, expression: Box<E>)
        ensures
            final(self).variables@ == old(self).variables@.insert(identifier@, expression),
            final(self).functions@ == old(self).functions@,
            final(self).rounding == old(self).rounding,
            final(self).angle_unit == old(self).angle_unit,
            final(self).depth_limit == old(self).depth_limit,
    {
        self.variables.insert(identifier, expression);
    }

    /// A copy of the user-defined function named `identifier`, if there is one.
    pub fn get_function(&self, identifier: &str) -> (r: Option<Function<E>>)
        ensures
            match r {
                Some(f) => self.functions@.contains_key(identifier@) && function_copy(
                    self.functions@[identifier@],
                    f,
                ),
                None => !self.functions@.contains_key(identifier@),
            },
    {
        match self.functions.get(identifier) {
            Some((params, body)) => Some((params.clone(), body.clone())),
            None => None,
        }
    }

    /// A copy of the user-defined variable named `identifier`, if there is one.
    pub fn get_var(&self, identifier: &str) -> (r: Option<Box<E>>)
        ensures
            match r {
                Some(e) => self.variables@.contains_key(identifier@) && body_copy(
                    self.variables@[identifier@],
                    e,
                ),
                None => !self.variables@.contains_key(identifier@),
            },
    {
        match self.variables.get(identifier) {
            Some(body) => Some(body.clone()),
            None => None,
        }
    }

    /// Whether `identifier` names a user-defined function.
    pub fn is_function(&self, identifier: &str) -> (r: bool)
        ensures
            r == self.functions@.contains_key(identifier@),
    {
        self.get_function(identifier).is_some()
    }

    /// Whether `identifier` names a user-defined variable.
    pub fn is_var(&self, identifier: &str) -> (r: bool)
        ensures
            r == self.variables@.contains_key(identifier@),
    {
        self.get_var(identifier).is_some()
    }
}

} // verus!
