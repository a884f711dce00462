//! The shape of an emitted function body, before any syntax: which bindings
//! each block declares, in which order, and where control goes from there.

use crate::trie::{BindingView, ConstraintView, NodeView};
use vstd::prelude::*;

verus! {

/// How a block hands control on, once its declarations are made.
pub enum Control {
    /// Return the value of `var`.
    Return { var: nat },
    /// Try each branch's test on `source` in order and enter the first that
    /// holds; enter `fallback` when none does.
    Dispatch { source: nat, branches: Seq<Branch>, fallback: Option<Box<Block>> },
}

/// One lexical block: declarations, then a control step.
pub struct Block {
    pub declares: Seq<nat>,
    pub control: Control,
}

/// A guarded block of a dispatch.
pub struct Branch {
    pub test: ConstraintView,
    pub body: Block,
}

/// The bindings that `binding` is computed from, in operand order.
pub open spec fn binding_deps(binding: BindingView) -> Seq<nat> {
    match binding {
        BindingView::Add { lhs, rhs, .. } => seq![lhs, rhs],
        BindingView::Call { args, .. } => args,
        _ => Seq::empty(),
    }
}

/// The scope that results when `declares` are added to `bound`.
pub open spec fn scope_after(bound: Set<nat>, declares: Seq<nat>) -> Set<nat> {
    bound + declares.to_set()
}

/// The declarations that bring `binding` into the scope `bound`: nothing if
/// it is there already, else whatever its operands still need, operand by
/// operand, and then the binding itself.
pub open spec fn declared_by(bindings: Seq<BindingView>, binding: nat, bound: Set<nat>) -> Seq<nat>
    decreases binding + 1, 0nat,
{
    if bound.contains(binding) || binding >= bindings.len() {
        Seq::empty()
    } else {
        let deps = binding_deps(bindings[binding as int]);
        declared_by_operands(bindings, deps, deps.len(), binding, bound).push(binding)
    }
}

/// The declarations that bring the first `upto` of `deps` into scope, each
/// one seeing what the ones before it declared. Only operands below `limit`
/// count.
pub open spec fn declared_by_operands(
    bindings: Seq<BindingView>,
    deps: Seq<nat>,
    upto: nat,
    limit: nat,
    bound: Set<nat>,
) -> Seq<nat>
    decreases limit, upto + 1,
{
    if upto == 0 || upto > deps.len() {
        Seq::empty()
    } else {
        let before = declared_by_operands(bindings, deps, (upto - 1) as nat, limit, bound);
        let dep = deps[upto - 1];
        if dep < limit {
            before + declared_by(bindings, dep, scope_after(bound, before))
        } else {
            before
        }
    }
}

/// The body that the walk lays out for `node` when entered with scope
/// `bound`. Every branch of a dispatch starts from the same scope: the one
/// in force once the tested binding is declared.
pub open spec fn plan(bindings: Seq<BindingView>, node: NodeView, bound: Set<nat>) -> Block
    decreases node,
{
    match node {
        NodeView::Leaf { result } => Block {
            declares: declared_by(bindings, result, bound),
            control: Control::Return { var: result },
        },
        NodeView::Match { source, arms, default } => {
            let declares = declared_by(bindings, source, bound);
            let inner = scope_after(bound, declares);
            Block {
                declares,
                control: Control::Dispatch {
                    source,
                    branches: Seq::new(
                        arms.len(),
                        |i: int|
                            if 0 <= i < arms.len() {
                                Branch {
                                    test: arms[i].constraint,
                                    body: plan(bindings, arms[i].body, inner),
                                }
                            } else {
                                arbitrary()
                            },
                    ),
                    fallback: match default {
                        Some(node) => Some(Box::new(plan(bindings, *node, inner))),
                        None => None,
                    },
                },
            }
        },
    }
}

/// Adding one list to a scope and then another adds both.
pub proof fn lemma_scope_after_concat(bound: Set<nat>, first: Seq<nat>, second: Seq<nat>)
    ensures
        scope_after(scope_after(bound, first), second) == scope_after(bound, first + second),
{
    assert forall|b: nat|
        scope_after(scope_after(bound, first), second).contains(b) == scope_after(
            bound,
            first + second,
        ).contains(b) by {
        if first.contains(b) {
            let i = choose|i: int| 0 <= i < first.len() && first[i] == b;
            assert((first + second)[i] == b);
        }
        if second.contains(b) {
            let i = choose|i: int| 0 <= i < second.len() && second[i] == b;
            assert((first + second)[first.len() + i] == b);
        }
        if (first + second).contains(b) {
            let i = choose|i: int| 0 <= i < (first + second).len() && (first + second)[i] == b;
            if i < first.len() {
                assert(first[i] == b);
            } else {
                assert(second[i - first.len()] == b);
            }
        }
    }
    assert(scope_after(scope_after(bound, first), second) =~= scope_after(bound, first + second));
}

} // verus!
