//! Multimethods: functions that dispatch on the arity and the types of their
//! arguments, left to right, most specific type first.
//!
//! A function is a binary decision tree. Dispatch only ever walks downward.

use vstd::prelude::*;
use crate::error::Error;
use crate::types::base;
use crate::value::{
    copy_func, copy_method, copy_predicate, func_view, method_view, same_types, types_view,
    FuncDef, FuncView, Method, MethodView, Predicate, TypeDef, TypeView,
};

verus! {

/// The node that parts methods of different arities: the longer ones go down
/// `truepath`.
pub open spec fn arity_split(truepath: FuncView, falsepath: FuncView, arity: nat) -> FuncView {
    FuncView::Node {
        truepath: Box::new(truepath),
        falsepath: Box::new(falsepath),
        property: base("any"@),
        index: arity,
    }
}

/// Whether some argument position tells the two signatures apart, one way or
/// the other.
pub open spec fn separable(old: MethodView, new: MethodView) -> bool {
    exists|i: int|
        0 <= i < new.arity && (#[trigger] new.signature[i].criterion(old.signature[i]) is Some
            || old.signature[i].criterion(new.signature[i]) is Some)
}

/// The node that parts two methods of one arity at the first argument
/// position, from `from` on, that tells them apart. The method that holds the
/// distinguishing predicate goes down `truepath`.
pub open spec fn first_split(old: MethodView, new: MethodView, from: nat) -> FuncView
    decreases new.arity - from,
{
    if from >= new.arity {
        FuncView::Undefined
    } else {
        match new.signature[from as int].criterion(old.signature[from as int]) {
            Some(crit) => FuncView::Node {
                truepath: Box::new(FuncView::Leaf(new)),
                falsepath: Box::new(FuncView::Leaf(old)),
                property: crit,
                index: from,
            },
            None => match old.signature[from as int].criterion(new.signature[from as int]) {
                Some(crit) => FuncView::Node {
                    truepath: Box::new(FuncView::Leaf(old)),
                    falsepath: Box::new(FuncView::Leaf(new)),
                    property: crit,
                    index: from,
                },
                None => first_split(old, new, from + 1),
            },
        }
    }
}

/// Whether a leaf that holds `old` can take `new` beside it or in its place.
pub open spec fn splittable(old: MethodView, new: MethodView) -> bool {
    new.signature == old.signature || new.arity != old.arity || separable(old, new)
}

/// What becomes of a leaf that holds `old` when `new` arrives: the same
/// signature replaces; different arities part on arity; else the first
/// distinguishing predicate parts them.
pub open spec fn split(old: MethodView, new: MethodView) -> FuncView {
    if new.signature == old.signature {
        FuncView::Leaf(new)
    } else if new.arity > old.arity {
        arity_split(FuncView::Leaf(new), FuncView::Leaf(old), old.arity)
    } else if new.arity < old.arity {
        arity_split(FuncView::Leaf(old), FuncView::Leaf(new), new.arity)
    } else {
        first_split(old, new, 0)
    }
}

impl FuncView {
    /// Every method in the tree has as many parameter types as its arity says.
    pub open spec fn wf(self) -> bool
        decreases self,
    {
        match self {
            FuncView::Node { truepath, falsepath, .. } => truepath.wf() && falsepath.wf(),
            FuncView::Leaf(method) => method.wf(),
            FuncView::Undefined => true,
        }
    }

    /// Whether a method is a leaf of the tree.
    pub open spec fn has(self, method: MethodView) -> bool
        decreases self,
    {
        match self {
            FuncView::Node { truepath, falsepath, .. } => truepath.has(method) || falsepath.has(
                method,
            ),
            FuncView::Leaf(m) => m == method,
            FuncView::Undefined => false,
        }
    }

    /// The method that the tree yields for the types of the arguments, if
    /// any. At a node, an argument at `index` whose type holds `property`
    /// leads down `truepath`; no arguments at all lead down `falsepath`; a
    /// missing argument among others fails.
    pub open spec fn walk(self, signature: Seq<TypeView>) -> Option<MethodView>
        decreases self,
    {
        match self {
            FuncView::Node { truepath, falsepath, property, index } => {
                if signature.len() == 0 {
                    falsepath.walk(signature)
                } else if index >= signature.len() {
                    None
                } else if signature[index as int].holds(property) {
                    truepath.walk(signature)
                } else {
                    falsepath.walk(signature)
                }
            },
            FuncView::Leaf(method) => Some(method),
            FuncView::Undefined => None,
        }
    }

    /// Whether the leaf that `new` descends to can take it.
    pub open spec fn growable(self, new: MethodView) -> bool
        decreases self,
    {
        match self {
            FuncView::Node { truepath, falsepath, property, index } => {
                if new.arity == 0 {
                    true
                } else if index < new.arity && new.signature[index as int].holds(property) {
                    truepath.growable(new)
                } else {
                    falsepath.growable(new)
                }
            },
            FuncView::Leaf(old) => splittable(old, new),
            FuncView::Undefined => true,
        }
    }

    /// The tree with `new` added. A method without parameters goes to the
    /// root's `falsepath`; any other descends by its own signature to a leaf.
    pub open spec fn grown(self, new: MethodView) -> FuncView
        decreases self,
    {
        match self {
            FuncView::Node { truepath, falsepath, property, index } => {
                if new.arity == 0 {
                    if *falsepath matches FuncView::Leaf(x) && x.arity == 0 {
                        arity_split(*truepath, FuncView::Leaf(new), 0)
                    } else {
                        arity_split(self, FuncView::Leaf(new), 0)
                    }
                } else if index < new.arity && new.signature[index as int].holds(property) {
                    FuncView::Node {
                        truepath: Box::new(truepath.grown(new)),
                        falsepath,
                        property,
                        index,
                    }
                } else {
                    FuncView::Node {
                        truepath,
                        falsepath: Box::new(falsepath.grown(new)),
                        property,
                        index,
                    }
                }
            },
            FuncView::Leaf(old) => split(old, new),
            FuncView::Undefined => FuncView::Leaf(new),
        }
    }
}

/// The content of a list of methods.
pub open spec fn methods_view(methods: Vec<Method>) -> Seq<MethodView> {
    Seq::new(methods.len() as nat, |i: int| method_view(methods[i]))
}

/// The tree that holds the methods, added in order to an empty tree.
pub open spec fn built(methods: Seq<MethodView>) -> FuncView
    decreases methods.len(),
{
    if methods.len() == 0 {
        FuncView::Undefined
    } else {
        built(methods.drop_last()).grown(methods.last())
    }
}

/// Whether each method can be added in its turn.
pub open spec fn buildable(methods: Seq<MethodView>) -> bool
    decreases methods.len(),
{
    methods.len() == 0 || (buildable(methods.drop_last()) && methods.last().wf() && built(
        methods.drop_last(),
    ).growable(methods.last()))
}

/// Two well-formed methods that can be split give a well-formed tree.
proof fn lemma_first_split_wf(old: MethodView, new: MethodView, from: nat)
    requires
        old.wf(),
        new.wf(),
    ensures
        first_split(old, new, from).wf(),
    decreases new.arity - from,
{
    reveal_with_fuel(FuncView::wf, 3);
    if from < new.arity {
        lemma_first_split_wf(old, new, from + 1);
    }
}

/// Adding a well-formed method keeps the tree well-formed.
pub proof fn lemma_grown_wf(tree: FuncView, new: MethodView)
    requires
        tree.wf(),
        new.wf(),
    ensures
        tree.grown(new).wf(),
    decreases tree,
{
    reveal_with_fuel(FuncView::wf, 3);
    match tree {
        FuncView::Node { truepath, falsepath, property, index } => {
            lemma_grown_wf(*truepath, new);
            lemma_grown_wf(*falsepath, new);
        },
        FuncView::Leaf(old) => {
            lemma_first_split_wf(old, new, 0);
        },
        FuncView::Undefined => {},
    }
}

/// A tree built from well-formed methods is well-formed.
pub proof fn lemma_built_wf(methods: Seq<MethodView>)
    requires
        buildable(methods),
    ensures
        built(methods).wf(),
    decreases methods.len(),
{
    if methods.len() > 0 {
        lemma_built_wf(methods.drop_last());
        lemma_grown_wf(built(methods.drop_last()), methods.last());
    }
}

impl FuncDef {
    /// The function that holds the given methods, each added in its turn.
    pub fn new(methods: Vec<Method>) -> (out: FuncDef)
        requires
            buildable(methods_view(methods)),
        ensures
            out@ == built(methods_view(methods)),
            out@.wf(),
    {
        let mut funcdef = FuncDef::Undefined;
        let ghost all = methods_view(methods);
        let mut at: usize = 0;
        proof {
            lemma_buildable_prefix(all, 0);
        }
        assert(all.subrange(0, 0) =~= Seq::<MethodView>::empty());
        while at < methods.len()
            invariant
                at <= methods.len(),
                all == methods_view(methods),
                buildable(all),
                funcdef@ == built(all.subrange(0, at as int)),
                funcdef@.wf(),
            decreases methods.len() - at,
        {
            proof {
                lemma_buildable_prefix(all, at + 1);
                assert(all.subrange(0, at + 1).drop_last() =~= all.subrange(0, at as int));
                assert(all.subrange(0, at + 1).last() == methods[at as int]@);
                lemma_grown_wf(funcdef@, methods[at as int]@);
            }
            funcdef = funcdef.extend(copy_method(&methods[at]));
            at += 1;
        }
        assert(all.subrange(0, at as int) =~= all);
        funcdef
    }

    /// The node that parts methods of different arities.
    fn new_arity(truepath: FuncDef, falsepath: FuncDef, arity: usize) -> (out: FuncDef)
        ensures
            out@ == arity_split(truepath@, falsepath@, arity as nat),
    {
        FuncDef::Node {
            truepath: Box::new(truepath),
            falsepath: Box::new(falsepath),
            property: Predicate::new_any(),
            index: arity,
        }
    }

    /// The node that parts methods by a distinguishing predicate.
    fn new_node(truepath: FuncDef, falsepath: FuncDef, property: Predicate, index: usize) -> (out:
        FuncDef)
        ensures
            out@ == (FuncView::Node {
                truepath: Box::new(truepath@),
                falsepath: Box::new(falsepath@),
                property: property@,
                index: index as nat,
            }),
    {
        FuncDef::Node {
            truepath: Box::new(truepath),
            falsepath: Box::new(falsepath),
            property,
            index,
        }
    }

    /// What becomes of a leaf that holds `old` when `new` arrives.
    fn split_leaf(old: &Method, new: Method) -> (out: FuncDef)
        requires
            old@.wf(),
            new@.wf(),
            splittable(old@, new@),
        ensures
            out@ == split(old@, new@),
    {
        if same_types(&new.signature, &old.signature) {
            FuncDef::Leaf(new)
        } else if new.arity > old.arity {
            FuncDef::new_arity(FuncDef::Leaf(new), FuncDef::Leaf(copy_method(old)), old.arity)
        } else if new.arity < old.arity {
            let arity = new.arity;
            FuncDef::new_arity(FuncDef::Leaf(copy_method(old)), FuncDef::Leaf(new), arity)
        } else {
            let mut at: usize = 0;
            while at < new.arity
                invariant
                    at <= new.arity,
                    old@.wf(),
                    new@.wf(),
                    new.arity == old.arity,
                    new@.signature != old@.signature,
                    first_split(old@, new@, 0) == first_split(old@, new@, at as nat),
                    forall|i: int|
                        0 <= i < at ==> (#[trigger] new@.signature[i].criterion(
                            old@.signature[i],
                        ) is None && old@.signature[i].criterion(new@.signature[i]) is None),
                decreases new.arity - at,
            {
                assert(new@.signature[at as int] == new.signature[at as int]@);
                assert(old@.signature[at as int] == old.signature[at as int]@);
                let forth = match new.signature[at].criterion(&old.signature[at]) {
                    Some(crit) => Some(copy_predicate(crit)),
                    None => None,
                };
                if let Some(crit) = forth {
                    return FuncDef::new_node(
                        FuncDef::Leaf(new),
                        FuncDef::Leaf(copy_method(old)),
                        crit,
                        at,
                    );
                }
                let back = match old.signature[at].criterion(&new.signature[at]) {
                    Some(crit) => Some(copy_predicate(crit)),
                    None => None,
                };
                if let Some(crit) = back {
                    return FuncDef::new_node(
                        FuncDef::Leaf(copy_method(old)),
                        FuncDef::Leaf(new),
                        crit,
                        at,
                    );
                }
                at += 1;
            }
            proof {
                assert(new@.signature != old@.signature);
                assert(separable(old@, new@));
                assert(false);
            }
            FuncDef::Undefined
        }
    }

    /// Whether two methods of one arity can be told apart.
    fn can_separate(old: &Method, new: &Method) -> (out: bool)
        requires
            old@.wf(),
            new@.wf(),
            old.arity == new.arity,
        ensures
            out == separable(old@, new@),
    {
        let mut at: usize = 0;
        while at < new.arity
            invariant
                at <= new.arity,
                old@.wf(),
                new@.wf(),
                old.arity == new.arity,
                forall|i: int|
                    0 <= i < at ==> (#[trigger] new@.signature[i].criterion(
                        old@.signature[i],
                    ) is None && old@.signature[i].criterion(new@.signature[i]) is None),
            decreases new.arity - at,
        {
            assert(new@.signature[at as int] == new.signature[at as int]@);
            assert(old@.signature[at as int] == old.signature[at as int]@);
            if new.signature[at].criterion(&old.signature[at]).is_some() {
                return true;
            }
            if old.signature[at].criterion(&new.signature[at]).is_some() {
                return true;
            }
            at += 1;
        }
        false
    }

    /// Whether the tree can take the method.
    pub fn accepts(&self, new: &Method) -> (out: bool)
        requires
            self@.wf(),
            new@.wf(),
        ensures
            out == self@.growable(new@),
        decreases self,
    {
        match self {
            FuncDef::Node { truepath, falsepath, property, index } => {
                if new.arity == 0 {
                    true
                } else if *index < new.arity && new.signature[*index].check(property) {
                    assert(new@.signature[*index as int] == new.signature[*index as int]@);
                    truepath.accepts(new)
                } else {
                    assert(*index < new.arity ==> new@.signature[*index as int]
                        == new.signature[*index as int]@);
                    falsepath.accepts(new)
                }
            },
            FuncDef::Leaf(old) => same_types(&new.signature, &old.signature) || new.arity
                != old.arity || FuncDef::can_separate(old, new),
            FuncDef::Undefined => true,
        }
    }

    /// The function that holds the given methods, each added in its turn;
    /// none where a method is not well-formed or cannot be added.
    pub fn try_new(methods: Vec<Method>) -> (out: Option<FuncDef>)
        ensures
            (out is Some) == buildable(methods_view(methods)),
            out matches Some(func) ==> func@ == built(methods_view(methods)) && func@.wf(),
    {
        let mut funcdef = FuncDef::Undefined;
        let ghost all = methods_view(methods);
        let mut at: usize = 0;
        assert(all.subrange(0, 0) =~= Seq::<MethodView>::empty());
        while at < methods.len()
            invariant
                at <= methods.len(),
                all == methods_view(methods),
                buildable(all.subrange(0, at as int)),
                funcdef@ == built(all.subrange(0, at as int)),
                funcdef@.wf(),
            decreases methods.len() - at,
        {
            proof {
                assert(all.subrange(0, at + 1).drop_last() =~= all.subrange(0, at as int));
                assert(all.subrange(0, at + 1).last() == methods[at as int]@);
                if buildable(all) {
                    lemma_buildable_prefix(all, at + 1);
                }
            }
            let method = &methods[at];
            if method.arity != method.signature.len() || !funcdef.accepts(method) {
                return None;
            }
            proof {
                lemma_grown_wf(funcdef@, methods[at as int]@);
            }
            funcdef = funcdef.extend(copy_method(method));
            at += 1;
        }
        assert(all.subrange(0, at as int) =~= all);
        Some(funcdef)
    }

    /// The tree with one more method.
    pub fn extend(&self, new: Method) -> (out: FuncDef)
        requires
            self@.wf(),
            new@.wf(),
            self@.growable(new@),
        ensures
            out@ == self@.grown(new@),
        decreases self,
    {
        match self {
            FuncDef::Node { truepath, falsepath, property, index } => {
                if new.arity == 0 {
                    proof {
                        reveal_with_fuel(func_view, 2);
                    }
                    let held = match &**falsepath {
                        FuncDef::Leaf(x) => x.arity == 0,
                        _ => false,
                    };
                    if held {
                        FuncDef::new_arity(copy_func(&**truepath), FuncDef::Leaf(new), 0)
                    } else {
                        FuncDef::new_arity(copy_func(self), FuncDef::Leaf(new), 0)
                    }
                } else if *index < new.arity && new.signature[*index].check(property) {
                    assert(new@.signature[*index as int] == new.signature[*index as int]@);
                    FuncDef::new_node(
                        truepath.extend(new),
                        copy_func(&**falsepath),
                        copy_predicate(property),
                        *index,
                    )
                } else {
                    assert(*index < new.arity ==> new@.signature[*index as int]
                        == new.signature[*index as int]@);
                    FuncDef::new_node(
                        copy_func(&**truepath),
                        falsepath.extend(new),
                        copy_predicate(property),
                        *index,
                    )
                }
            },
            FuncDef::Leaf(old) => FuncDef::split_leaf(old, new),
            FuncDef::Undefined => FuncDef::Leaf(new),
        }
    }

    /// Multiple dispatch: the method that the tree yields for the types of
    /// the arguments. It fails where the walk ends in nothing, and where a
    /// node asks for an argument that a non-empty signature does not have.
    pub fn dispatch(&self, signature: &Vec<TypeDef>) -> (out: Result<&Method, Error>)
        ensures
            match out {
                Ok(method) => self@.walk(types_view(*signature)) == Some(method@),
                Err(kind) => kind == Error::DISP && self@.walk(types_view(*signature)) is None,
            },
        decreases self,
    {
        match self {
            FuncDef::Node { truepath, falsepath, property, index } => {
                if signature.len() == 0 {
                    falsepath.dispatch(signature)
                } else if *index >= signature.len() {
                    Err(Error::DISP)
                } else {
                    assert(types_view(*signature)[*index as int] == signature[*index as int]@);
                    if signature[*index].check(property) {
                        truepath.dispatch(signature)
                    } else {
                        falsepath.dispatch(signature)
                    }
                }
            },
            FuncDef::Leaf(method) => Ok(method),
            FuncDef::Undefined => Err(Error::DISP),
        }
    }
}

/// Each prefix of a list that can be built can be built.
pub proof fn lemma_buildable_prefix(methods: Seq<MethodView>, upto: int)
    requires
        buildable(methods),
        0 <= upto <= methods.len(),
    ensures
        buildable(methods.subrange(0, upto)),
    decreases methods.len(),
{
    if upto == methods.len() {
        assert(methods.subrange(0, upto) =~= methods);
    } else {
        lemma_buildable_prefix(methods.drop_last(), upto);
        assert(methods.drop_last().subrange(0, upto) =~= methods.subrange(0, upto));
    }
}

} // verus!
