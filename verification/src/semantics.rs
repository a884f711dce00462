//! What a decision trie means and what an emitted body does, independent of
//! the syntax of any backend.

use crate::plan::{binding_deps, scope_after, Block, Control};
use crate::sema::TermKind;
use crate::trie::{BindingView, ConstraintView, NodeView};
use vstd::prelude::*;

verus! {

/// An input to a term's function, as far as the dispatch can tell: which
/// constraints hold of which bindings.
pub type Input = spec_fn(nat, ConstraintView) -> bool;

/// The number of arms of an internal node; zero for a leaf.
pub open spec fn arm_count(node: NodeView) -> nat {
    match node {
        NodeView::Leaf { .. } => 0,
        NodeView::Match { arms, .. } => arms.len(),
    }
}

/// The binding whose value the trie yields on `input`, if any: at an
/// internal node the first arm in order whose constraint holds decides, and
/// the default decides when none holds.
pub open spec fn select(node: NodeView, input: Input) -> Option<nat>
    decreases node, arm_count(node) + 1,
{
    match node {
        NodeView::Leaf { result } => Some(result),
        NodeView::Match { .. } => select_from(node, input, 0),
    }
}

/// [`select`] at an internal node, with the arms before `from` ruled out.
pub open spec fn select_from(node: NodeView, input: Input, from: nat) -> Option<nat>
    decreases node, arm_count(node) - from,
{
    match node {
        NodeView::Leaf { .. } => None,
        NodeView::Match { source, arms, default } => {
            if from < arms.len() {
                if input(source, arms[from as int].constraint) {
                    select(arms[from as int].body, input)
                } else {
                    select_from(node, input, from + 1)
                }
            } else {
                match default {
                    Some(inner) => select(*inner, input),
                    None => None,
                }
            }
        },
    }
}

/// Every path through the trie ends in a leaf: each internal node has a
/// default, and all its subtrees are total in turn.
pub open spec fn always_returns(node: NodeView) -> bool
    decreases node,
{
    match node {
        NodeView::Leaf { .. } => true,
        NodeView::Match { arms, default, .. } => {
            &&& forall|i: int| 0 <= i < arms.len() ==> always_returns((#[trigger] arms[i]).body)
            &&& default matches Some(inner) && always_returns(*inner)
        },
    }
}

/// The number of branches of a dispatch; zero for a return.
pub open spec fn branch_count(control: Control) -> nat {
    match control {
        Control::Return { .. } => 0,
        Control::Dispatch { branches, .. } => branches.len(),
    }
}

/// The binding that a block returns on `input`, or `None` if control leaves
/// the block without a return. Declarations do not divert control.
pub open spec fn run_block(block: Block, input: Input) -> Option<nat>
    decreases block, 0nat,
{
    run_control(block.control, input)
}

/// What a control step does on `input`. A dispatch is a chain of
/// conditionals: the first branch whose test holds is entered and no other;
/// the fallback is entered when no test holds; with neither, control goes
/// on behind the chain.
pub open spec fn run_control(control: Control, input: Input) -> Option<nat>
    decreases control, branch_count(control) + 1,
{
    match control {
        Control::Return { var } => Some(var),
        Control::Dispatch { .. } => run_chain(control, input, 0),
    }
}

/// [`run_control`] for a dispatch whose branches before `from` were not
/// entered.
pub open spec fn run_chain(control: Control, input: Input, from: nat) -> Option<nat>
    decreases control, branch_count(control) - from,
{
    match control {
        Control::Return { .. } => None,
        Control::Dispatch { source, branches, fallback } => {
            if from < branches.len() {
                if input(source, branches[from as int].test) {
                    run_block(branches[from as int].body, input)
                } else {
                    run_chain(control, input, from + 1)
                }
            } else {
                match fallback {
                    Some(inner) => run_block(*inner, input),
                    None => None,
                }
            }
        },
    }
}

/// How a call of a term's function ends.
pub enum Outcome {
    /// It returns the value of a binding.
    Returned(nat),
    /// It reports that no rule matched.
    NoMatch,
    /// Control reaches the end of the function without a return.
    FellThrough,
}

/// How the function of a term of kind `kind` with the body `body` ends on
/// `input`: behind the body an extractor has its failure path, a
/// constructor has nothing.
pub open spec fn run_term(kind: TermKind, body: Block, input: Input) -> Outcome {
    match run_block(body, input) {
        Some(var) => Outcome::Returned(var),
        None => match kind {
            TermKind::Extractor => Outcome::NoMatch,
            TermKind::Constructor => Outcome::FellThrough,
        },
    }
}

/// The declarations `declares`, made in order in the scope `scope`, are
/// sound: none declares what is in scope already, and each uses only what
/// is in scope by then.
pub open spec fn declares_in_scope(
    bindings: Seq<BindingView>,
    declares: Seq<nat>,
    scope: Set<nat>,
) -> bool
    decreases declares.len(),
{
    if declares.len() == 0 {
        true
    } else {
        let earlier = declares.drop_last();
        let var = declares.last();
        let visible = scope_after(scope, earlier);
        let deps = binding_deps(bindings[var as int]);
        &&& declares_in_scope(bindings, earlier, scope)
        &&& !visible.contains(var)
        &&& forall|i: int| 0 <= i < deps.len() ==> visible.contains(#[trigger] deps[i])
    }
}

/// The block is sound when entered with the scope `scope`: its declarations
/// are, its control step uses only what is in scope behind them, and every
/// nested block is sound when entered with that same scope. What a nested
/// block declares is visible in that block only.
pub open spec fn well_scoped(bindings: Seq<BindingView>, block: Block, scope: Set<nat>) -> bool
    decreases block,
{
    let inner = scope_after(scope, block.declares);
    &&& declares_in_scope(bindings, block.declares, scope)
    &&& match block.control {
        Control::Return { var } => inner.contains(var),
        Control::Dispatch { source, branches, fallback } => {
            &&& inner.contains(source)
            &&& forall|i: int|
                0 <= i < branches.len() ==> well_scoped(
                    bindings,
                    (#[trigger] branches[i]).body,
                    inner,
                )
            &&& fallback matches Some(body) ==> well_scoped(bindings, *body, inner)
        },
    }
}

} // verus!
