//! What holds of dispatch trees, whatever the methods.

use vstd::prelude::*;
use crate::functions::{buildable, built, first_split, lemma_grown_wf, separable, split};
use crate::types::{base, last_missing};
use crate::value::{FuncView, MethodView, PredicateView, TypeView};

verus! {

/// A criterion is a predicate that the one type holds and the other lacks.
pub proof fn lemma_criterion(own: Seq<PredicateView>, other: Seq<PredicateView>)
    ensures
        last_missing(own, other) matches Some(crit) ==> own.contains(crit) && !other.contains(
            crit,
        ),
        last_missing(own, other) is None ==> forall|k: int|
            0 <= k < own.len() ==> other.contains(#[trigger] own[k]),
    decreases own.len(),
{
    if own.len() > 0 {
        lemma_criterion(own.drop_last(), other);
        if other.contains(own.last()) {
            if let Some(crit) = last_missing(own.drop_last(), other) {
                let k = choose|k: int| 0 <= k < own.drop_last().len() && own.drop_last()[k] == crit;
                assert(own[k] == crit);
            } else {
                assert forall|k: int| 0 <= k < own.len() implies other.contains(
                    #[trigger] own[k],
                ) by {
                    if k < own.len() - 1 {
                        assert(own.drop_last()[k] == own[k]);
                    }
                }
            }
        } else {
            assert(own[own.len() - 1] == own.last());
        }
    }
}

/// What parts two separable methods of one arity: a node at an argument
/// position within the arity, whose predicate the method on `truepath` holds
/// there and the method on `falsepath` lacks.
pub proof fn lemma_first_split(old: MethodView, new: MethodView, from: nat)
    requires
        exists|i: int|
            from <= i < new.arity && (#[trigger] new.signature[i].criterion(old.signature[i])
                is Some || old.signature[i].criterion(new.signature[i]) is Some),
    ensures
        first_split(old, new, from) matches FuncView::Node { truepath, falsepath, property, index }
            && from <= index < new.arity && ({
            ||| (*truepath == FuncView::Leaf(new) && *falsepath == FuncView::Leaf(old)
                && new.signature[index as int].holds(property) && !old.signature[index as int].holds(
                property,
            ))
            ||| (*truepath == FuncView::Leaf(old) && *falsepath == FuncView::Leaf(new)
                && old.signature[index as int].holds(property) && !new.signature[index as int].holds(
                property,
            ))
        }),
    decreases new.arity - from,
{
    let at = from as int;
    lemma_criterion(new.signature[at].types, old.signature[at].types);
    lemma_criterion(old.signature[at].types, new.signature[at].types);
    if new.signature[at].criterion(old.signature[at]) is None && old.signature[at].criterion(
        new.signature[at],
    ) is None {
        let i = choose|i: int|
            from <= i < new.arity && (#[trigger] new.signature[i].criterion(old.signature[i])
                is Some || old.signature[i].criterion(new.signature[i]) is Some);
        assert(i != at);
        lemma_first_split(old, new, from + 1);
    }
}

impl FuncView {
    /// Where the method would land beside a method of fewer parameters, its
    /// type at that shorter arity holds `any`: the arity node then sends it
    /// down the path on which it stands.
    pub open spec fn anchored(self, new: MethodView) -> bool
        decreases self,
    {
        match self {
            FuncView::Node { truepath, falsepath, property, index } => {
                if new.arity == 0 {
                    true
                } else if index < new.arity && new.signature[index as int].holds(property) {
                    truepath.anchored(new)
                } else {
                    falsepath.anchored(new)
                }
            },
            FuncView::Leaf(old) => new.signature == old.signature || new.arity <= old.arity
                || new.signature[old.arity as int].holds(base("any"@)),
            FuncView::Undefined => true,
        }
    }

    /// The tree holds a method: it is not empty anywhere.
    pub open spec fn solid(self) -> bool
        decreases self,
    {
        match self {
            FuncView::Node { truepath, falsepath, .. } => truepath.solid() && falsepath.solid(),
            FuncView::Leaf(_) => true,
            FuncView::Undefined => false,
        }
    }

    /// Every method in the tree has the arity `arity`, and every node asks
    /// for an argument below it.
    pub open spec fn uniform(self, arity: nat) -> bool
        decreases self,
    {
        match self {
            FuncView::Node { truepath, falsepath, index, .. } => index < arity && truepath.uniform(
                arity,
            ) && falsepath.uniform(arity),
            FuncView::Leaf(method) => method.arity == arity,
            FuncView::Undefined => true,
        }
    }
}

/// Adding a method a second time changes nothing: the tree with the method
/// added once takes it again, and is then the same tree.
pub proof fn lemma_extend_twice(tree: FuncView, new: MethodView)
    requires
        tree.growable(new),
        tree.anchored(new),
    ensures
        tree.grown(new).growable(new),
        tree.grown(new).grown(new) == tree.grown(new),
    decreases tree,
{
    reveal_with_fuel(FuncView::growable, 2);
    reveal_with_fuel(FuncView::grown, 2);
    match tree {
        FuncView::Node { truepath, falsepath, property, index } => {
            if new.arity == 0 {
            } else if index < new.arity && new.signature[index as int].holds(property) {
                lemma_extend_twice(*truepath, new);
            } else {
                lemma_extend_twice(*falsepath, new);
            }
        },
        FuncView::Leaf(old) => {
            if new.signature == old.signature {
            } else if new.arity > old.arity {
            } else if new.arity < old.arity {
            } else {
                lemma_first_split(old, new, 0);
            }
        },
        FuncView::Undefined => {},
    }
}

/// Adding a method of the tree's one arity keeps the tree uniform, and
/// leaves it without gaps.
pub proof fn lemma_grown_uniform(tree: FuncView, new: MethodView, arity: nat)
    requires
        tree.uniform(arity),
        tree.solid() || tree is Undefined,
        tree.growable(new),
        new.arity == arity,
        new.wf(),
        tree.wf(),
    ensures
        tree.grown(new).uniform(arity),
        tree.grown(new).solid(),
    decreases tree,
{
    reveal_with_fuel(FuncView::uniform, 2);
    reveal_with_fuel(FuncView::solid, 2);
    match tree {
        FuncView::Node { truepath, falsepath, property, index } => {
            if index < new.arity && new.signature[index as int].holds(property) {
                lemma_grown_uniform(*truepath, new, arity);
            } else {
                lemma_grown_uniform(*falsepath, new, arity);
            }
        },
        FuncView::Leaf(old) => {
            if new.signature == old.signature {
            } else {
                lemma_first_split(old, new, 0);
            }
        },
        FuncView::Undefined => {},
    }
}

/// A tree built from methods of one arity is uniform, and without gaps
/// unless there is no method.
pub proof fn lemma_built_uniform(methods: Seq<MethodView>, arity: nat)
    requires
        buildable(methods),
        forall|i: int| 0 <= i < methods.len() ==> (#[trigger] methods[i]).arity == arity,
    ensures
        built(methods).uniform(arity),
        built(methods).wf(),
        methods.len() > 0 ==> built(methods).solid(),
        methods.len() == 0 ==> built(methods) is Undefined,
    decreases methods.len(),
{
    if methods.len() > 0 {
        let rest = methods.drop_last();
        assert forall|i: int| 0 <= i < rest.len() implies (#[trigger] rest[i]).arity == arity by {
            assert(rest[i] == methods[i]);
        }
        lemma_built_uniform(rest, arity);
        assert(methods.last() == methods[methods.len() - 1]);
        lemma_grown_uniform(built(rest), methods.last(), arity);
        lemma_grown_wf(built(rest), methods.last());
    }
}

/// A uniform tree without gaps yields a method for every signature of its arity.
pub proof fn lemma_walk_total(tree: FuncView, signature: Seq<TypeView>)
    requires
        tree.solid(),
        tree.uniform(signature.len()),
    ensures
        tree.walk(signature) is Some,
    decreases tree,
{
    match tree {
        FuncView::Node { truepath, falsepath, property, index } => {
            lemma_walk_total(*truepath, signature);
            lemma_walk_total(*falsepath, signature);
        },
        _ => {},
    }
}

/// Whatever dispatch yields is one of the tree's methods.
pub proof fn lemma_walk_has(tree: FuncView, signature: Seq<TypeView>)
    ensures
        tree.walk(signature) matches Some(method) ==> tree.has(method),
    decreases tree,
{
    match tree {
        FuncView::Node { truepath, falsepath, property, index } => {
            lemma_walk_has(*truepath, signature);
            lemma_walk_has(*falsepath, signature);
        },
        _ => {},
    }
}

/// For methods of one arity and a signature of that arity to which one of
/// them applies, dispatch fails exactly when no method applies. (So it does
/// not fail: of the methods given, the tree yields one.) Without any method
/// dispatch fails on every signature.
pub proof fn lemma_dispatch_fails_iff_none_applies(
    methods: Seq<MethodView>,
    signature: Seq<TypeView>,
)
    requires
        buildable(methods),
        forall|i: int| 0 <= i < methods.len() ==> (#[trigger] methods[i]).arity == signature.len(),
        methods.len() == 0 || exists|i: int|
            0 <= i < methods.len() && (#[trigger] methods[i]).applies(signature),
    ensures
        built(methods).walk(signature) is None <==> !exists|i: int|
            0 <= i < methods.len() && (#[trigger] methods[i]).applies(signature),
{
    lemma_built_uniform(methods, signature.len());
    if methods.len() > 0 {
        lemma_walk_total(built(methods), signature);
    }
}

impl MethodView {
    /// `self` is strictly more specific than `old`: the same arity, at every
    /// argument position each predicate of `old`, and at some position a
    /// predicate that `old` lacks.
    pub open spec fn refines(self, old: MethodView) -> bool {
        &&& self.arity == old.arity
        &&& forall|i: int, k: int|
            0 <= i < old.signature.len() && 0 <= k < old.signature[i].types.len() ==> (
            #[trigger] self.signature[i].holds(old.signature[i].types[k]))
        &&& exists|i: int|
            0 <= i < self.arity && #[trigger] self.signature[i].criterion(old.signature[i])
                is Some
    }

    /// The method has a parameter, and each parameter type holds `any`.
    pub open spec fn rooted(self) -> bool {
        &&& self.arity > 0
        &&& forall|i: int|
            0 <= i < self.signature.len() ==> (#[trigger] self.signature[i]).holds(base("any"@))
    }
}

impl FuncView {
    /// Below every node, each method on `truepath` holds the node's
    /// predicate at the node's argument position.
    pub open spec fn ordered(self) -> bool
        decreases self,
    {
        match self {
            FuncView::Node { truepath, falsepath, property, index } => {
                &&& truepath.ordered()
                &&& falsepath.ordered()
                &&& forall|m: MethodView| #[trigger]
                    truepath.has(m) ==> index < m.arity && m.signature[index as int].holds(
                        property,
                    )
            },
            _ => true,
        }
    }

    /// Every method of the tree is rooted.
    pub open spec fn rooted(self) -> bool {
        forall|m: MethodView| #[trigger] self.has(m) ==> m.rooted()
    }
}

/// A method more specific than another is parted from it by a predicate of
/// its own: it stands on `truepath`.
proof fn lemma_refined_split(old: MethodView, new: MethodView)
    requires
        new.refines(old),
        old.wf(),
        new.wf(),
    ensures
        new.signature != old.signature,
        separable(old, new),
        split(old, new) == first_split(old, new, 0),
        first_split(old, new, 0) matches FuncView::Node { truepath, falsepath, property, index }
            && index < new.arity && *truepath == FuncView::Leaf(new) && *falsepath
            == FuncView::Leaf(old) && new.signature[index as int].holds(property),
{
    let w = choose|i: int|
        0 <= i < new.arity && #[trigger] new.signature[i].criterion(old.signature[i]) is Some;
    lemma_criterion(new.signature[w].types, old.signature[w].types);
    lemma_first_split(old, new, 0);
    match first_split(old, new, 0) {
        FuncView::Node { truepath, falsepath, property, index } => {
            if *truepath == FuncView::Leaf(old) && old.signature[index as int].holds(property)
                && !new.signature[index as int].holds(property) {
                let k = choose|k: int|
                    0 <= k < old.signature[index as int].types.len()
                        && old.signature[index as int].types[k] == property;
                assert(new.signature[index as int].holds(old.signature[index as int].types[k]));
            }
        },
        _ => {},
    }
}

/// Adding a more specific method leaves dispatch as it was for a signature
/// that the less specific method answered, where the signature lacks the
/// predicate that parts the two.
pub proof fn lemma_extend_keeps(
    tree: FuncView,
    old: MethodView,
    new: MethodView,
    signature: Seq<TypeView>,
)
    requires
        tree.wf(),
        new.wf(),
        tree.walk(signature) == Some(old),
        new.refines(old),
        signature.len() == old.arity,
        first_split(old, new, 0) matches FuncView::Node { property, index, .. }
            ==> !signature[index as int].holds(property),
    ensures
        tree.grown(new).walk(signature) == Some(old),
    decreases tree,
{
    reveal_with_fuel(FuncView::walk, 2);
    match tree {
        FuncView::Node { truepath, falsepath, property, index } => {
            lemma_walk_wf(tree, signature);
            lemma_refined_split(old, new);
            if index < new.arity && new.signature[index as int].holds(property) {
                if signature[index as int].holds(property) {
                    lemma_extend_keeps(*truepath, old, new, signature);
                }
            } else {
                if !signature[index as int].holds(property) {
                    lemma_extend_keeps(*falsepath, old, new, signature);
                }
            }
        },
        FuncView::Leaf(x) => {
            lemma_refined_split(old, new);
        },
        FuncView::Undefined => {},
    }
}

/// Whatever dispatch yields from a well-formed tree is well-formed.
pub proof fn lemma_walk_wf(tree: FuncView, signature: Seq<TypeView>)
    requires
        tree.wf(),
    ensures
        tree.walk(signature) matches Some(method) ==> method.wf(),
    decreases tree,
{
    match tree {
        FuncView::Node { truepath, falsepath, property, index } => {
            lemma_walk_wf(*truepath, signature);
            lemma_walk_wf(*falsepath, signature);
        },
        _ => {},
    }
}

/// Where a method and a more specific one both apply, the more specific
/// wins: once it is added, dispatch yields it for every signature to which it
/// applies and which the less specific method answered before.
pub proof fn lemma_more_specific_wins(
    tree: FuncView,
    old: MethodView,
    new: MethodView,
    signature: Seq<TypeView>,
)
    requires
        tree.wf(),
        tree.ordered(),
        new.wf(),
        tree.walk(signature) == Some(old),
        new.refines(old),
        new.applies(signature),
    ensures
        tree.grown(new).walk(signature) == Some(new),
    decreases tree,
{
    reveal_with_fuel(FuncView::walk, 2);
    lemma_walk_wf(tree, signature);
    lemma_refined_split(old, new);
    match tree {
        FuncView::Node { truepath, falsepath, property, index } => {
            if signature[index as int].holds(property) {
                lemma_walk_has(*truepath, signature);
                assert(truepath.has(old));
                let k = choose|k: int|
                    0 <= k < old.signature[index as int].types.len()
                        && old.signature[index as int].types[k] == property;
                assert(new.signature[index as int].holds(old.signature[index as int].types[k]));
                lemma_more_specific_wins(*truepath, old, new, signature);
            } else {
                if new.signature[index as int].holds(property) {
                    let k = choose|k: int|
                        0 <= k < new.signature[index as int].types.len()
                            && new.signature[index as int].types[k] == property;
                    assert(signature[index as int].holds(new.signature[index as int].types[k]));
                }
                lemma_more_specific_wins(*falsepath, old, new, signature);
            }
        },
        FuncView::Leaf(x) => {
            match first_split(old, new, 0) {
                FuncView::Node { truepath, falsepath, property, index } => {
                    let k = choose|k: int|
                        0 <= k < new.signature[index as int].types.len()
                            && new.signature[index as int].types[k] == property;
                    assert(signature[index as int].holds(new.signature[index as int].types[k]));
                },
                _ => {},
            }
        },
        FuncView::Undefined => {},
    }
}

/// The methods of a tree with one more method are those of the tree, and the
/// one added.
pub proof fn lemma_grown_has(tree: FuncView, new: MethodView, m: MethodView)
    requires
        tree.growable(new),
        tree.grown(new).has(m),
    ensures
        tree.has(m) || m == new,
    decreases tree,
{
    reveal_with_fuel(FuncView::has, 3);
    match tree {
        FuncView::Node { truepath, falsepath, property, index } => {
            if new.arity == 0 {
            } else if index < new.arity && new.signature[index as int].holds(property) {
                if truepath.grown(new).has(m) {
                    lemma_grown_has(*truepath, new, m);
                }
            } else {
                if falsepath.grown(new).has(m) {
                    lemma_grown_has(*falsepath, new, m);
                }
            }
        },
        FuncView::Leaf(old) => {
            if new.signature == old.signature {
            } else if new.arity != old.arity {
            } else {
                lemma_first_split(old, new, 0);
            }
        },
        FuncView::Undefined => {},
    }
}

/// Whatever dispatch yields from the tree of a list of methods is one of the list.
pub proof fn lemma_dispatch_yields_member(methods: Seq<MethodView>, signature: Seq<TypeView>)
    requires
        buildable(methods),
    ensures
        built(methods).walk(signature) matches Some(method) ==> methods.contains(method),
    decreases methods.len(),
{
    lemma_walk_has(built(methods), signature);
    if let Some(method) = built(methods).walk(signature) {
        lemma_built_has(methods, method);
    }
}

/// The methods of the tree of a list of methods are among those of the list.
pub proof fn lemma_built_has(methods: Seq<MethodView>, method: MethodView)
    requires
        buildable(methods),
        built(methods).has(method),
    ensures
        methods.contains(method),
    decreases methods.len(),
{
    if methods.len() > 0 {
        let rest = methods.drop_last();
        lemma_grown_has(built(rest), methods.last(), method);
        if method == methods.last() {
            assert(methods[methods.len() - 1] == method);
        } else {
            lemma_built_has(rest, method);
            let i = choose|i: int| 0 <= i < rest.len() && rest[i] == method;
            assert(methods[i] == method);
        }
    }
}

/// Adding a rooted method to an ordered tree of rooted methods keeps it ordered.
pub proof fn lemma_grown_ordered(tree: FuncView, new: MethodView)
    requires
        tree.ordered(),
        tree.rooted(),
        new.rooted(),
        new.wf(),
        tree.wf(),
        tree.growable(new),
    ensures
        tree.grown(new).ordered(),
        tree.grown(new).rooted(),
    decreases tree,
{
    reveal_with_fuel(FuncView::has, 3);
    reveal_with_fuel(FuncView::ordered, 3);
    assert forall|m: MethodView| #[trigger] tree.grown(new).has(m) implies m.rooted() by {
        lemma_grown_has(tree, new, m);
    }
    match tree {
        FuncView::Node { truepath, falsepath, property, index } => {
            assert(truepath.rooted()) by {
                assert forall|m: MethodView| #[trigger] truepath.has(m) implies m.rooted() by {
                    assert(tree.has(m));
                }
            }
            assert(falsepath.rooted()) by {
                assert forall|m: MethodView| #[trigger] falsepath.has(m) implies m.rooted() by {
                    assert(tree.has(m));
                }
            }
            if index < new.arity && new.signature[index as int].holds(property) {
                lemma_grown_ordered(*truepath, new);
                assert forall|m: MethodView| #[trigger]
                    truepath.grown(new).has(m) implies index < m.arity
                    && m.signature[index as int].holds(property) by {
                    lemma_grown_has(*truepath, new, m);
                }
            } else {
                lemma_grown_ordered(*falsepath, new);
            }
        },
        FuncView::Leaf(old) => {
            assert(tree.has(old));
            if new.signature == old.signature {
            } else if new.arity > old.arity {
                assert(new.signature[old.arity as int].holds(base("any"@)));
            } else if new.arity < old.arity {
                assert(old.signature[new.arity as int].holds(base("any"@)));
            } else {
                lemma_first_split(old, new, 0);
            }
        },
        FuncView::Undefined => {},
    }
}

/// A tree built from rooted methods is ordered.
pub proof fn lemma_built_ordered(methods: Seq<MethodView>)
    requires
        buildable(methods),
        forall|i: int| 0 <= i < methods.len() ==> (#[trigger] methods[i]).rooted(),
    ensures
        built(methods).ordered(),
        built(methods).rooted(),
        built(methods).wf(),
    decreases methods.len(),
{
    crate::functions::lemma_built_wf(methods);
    if methods.len() > 0 {
        let rest = methods.drop_last();
        assert forall|i: int| 0 <= i < rest.len() implies (#[trigger] rest[i]).rooted() by {
            assert(rest[i] == methods[i]);
        }
        lemma_built_ordered(rest);
        assert(methods.last() == methods[methods.len() - 1]);
        lemma_grown_ordered(built(rest), methods.last());
    }
}

} // verus!
