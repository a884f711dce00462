//! The per-term decision trie: bindings that compute intermediate values and
//! nodes that test them.

use crate::sema::{Term, TermEnv, TermId, TermView, Type, TypeEnv, TypeId, TypeView, VariantId};
use crate::semantics::always_returns;
use vstd::prelude::*;

verus! {

/// Identifies an intermediate value by its position in [`RuleSet::bindings`].
#[derive(Clone, Copy, Debug, PartialEq, Eq, Hash)]
pub struct BindingId(pub usize);

impl View for BindingId {
    type V = nat;

    open spec fn view(&self) -> nat {
        self.0 as nat
    }
}

/// How one intermediate value is computed.
#[derive(Debug)]
pub enum Binding {
    /// The term's argument at position `index`.
    Argument { index: usize },
    /// An integer literal of type `ty`.
    ConstInt { val: i128, ty: TypeId },
    /// The sum of two earlier bindings, of type `ty`.
    Add { ty: TypeId, lhs: BindingId, rhs: BindingId },
    /// The result of applying `term` to earlier bindings.
    Call { term: TermId, args: Vec<BindingId> },
    /// The tag `variant` of the enumeration `ty`.
    MakeVariant { ty: TypeId, variant: VariantId },
}

/// What a [`Binding`] says, as plain values.
pub enum BindingView {
    Argument { index: nat },
    ConstInt { val: int, ty: nat },
    Add { ty: nat, lhs: nat, rhs: nat },
    Call { term: nat, args: Seq<nat> },
    MakeVariant { ty: nat, variant: nat },
}

/// The positions that a list of binding ids names.
pub open spec fn binding_id_views(ids: Seq<BindingId>) -> Seq<nat> {
    Seq::new(ids.len(), |i: int| ids[i]@)
}

impl View for Binding {
    type V = BindingView;

    open spec fn view(&self) -> BindingView {
        match self {
            Binding::Argument { index } => BindingView::Argument { index: *index as nat },
            Binding::ConstInt { val, ty } => BindingView::ConstInt { val: *val as int, ty: ty@ },
            Binding::Add { ty, lhs, rhs } => BindingView::Add { ty: ty@, lhs: lhs@, rhs: rhs@ },
            Binding::Call { term, args } => BindingView::Call {
                term: term@,
                args: binding_id_views(args@),
            },
            Binding::MakeVariant { ty, variant } => BindingView::MakeVariant {
                ty: ty@,
                variant: variant@,
            },
        }
    }
}

/// A test on a binding's value.
#[derive(Clone, Copy, Debug, PartialEq, Eq)]
pub enum Constraint {
    /// The value is the tag `variant` of the enumeration `ty`.
    Variant { ty: TypeId, variant: VariantId },
    /// The value equals the integer `val`.
    ConstInt { val: i128 },
}

/// What a [`Constraint`] says, as plain values.
pub enum ConstraintView {
    Variant { ty: nat, variant: nat },
    ConstInt { val: int },
}

impl View for Constraint {
    type V = ConstraintView;

    open spec fn view(&self) -> ConstraintView {
        match self {
            Constraint::Variant { ty, variant } => ConstraintView::Variant {
                ty: ty@,
                variant: variant@,
            },
            Constraint::ConstInt { val } => ConstraintView::ConstInt { val: *val as int },
        }
    }
}

/// One arm of an internal node: the subtree taken when `constraint` holds.
#[derive(Debug)]
pub struct Arm {
    pub constraint: Constraint,
    pub body: Node,
}

/// A node of the decision trie.
#[derive(Debug)]
pub enum Node {
    /// Yields the value of `result`.
    Leaf { result: BindingId },
    /// Tests `source` against each arm in order; `default` is taken when no
    /// arm's constraint holds.
    Match { source: BindingId, arms: Vec<Arm>, default: Option<Box<Node>> },
}

/// What an [`Arm`] says, as plain values.
pub struct ArmView {
    pub constraint: ConstraintView,
    pub body: NodeView,
}

/// What a [`Node`] says, as plain values.
pub enum NodeView {
    Leaf { result: nat },
    Match { source: nat, arms: Seq<ArmView>, default: Option<Box<NodeView>> },
}

/// The plain-value reading of a node and, through its arms, of its subtrees.
pub open spec fn node_view(node: Node) -> NodeView
    decreases node,
{
    match node {
        Node::Leaf { result } => NodeView::Leaf { result: result@ },
        Node::Match { source, arms, default } => NodeView::Match {
            source: source@,
            arms: Seq::new(
                arms@.len(),
                |i: int|
                    if 0 <= i < arms@.len() {
                        ArmView { constraint: arms@[i].constraint@, body: node_view(arms@[i].body) }
                    } else {
                        arbitrary()
                    },
            ),
            default: match default {
                Some(inner) => Some(Box::new(node_view(*inner))),
                None => None,
            },
        },
    }
}

impl View for Node {
    type V = NodeView;

    open spec fn view(&self) -> NodeView {
        node_view(*self)
    }
}

impl View for Arm {
    type V = ArmView;

    open spec fn view(&self) -> ArmView {
        ArmView { constraint: self.constraint@, body: self.body@ }
    }
}

/// All rules of one term, merged into a trie over shared bindings.
#[derive(Debug)]
pub struct RuleSet {
    pub bindings: Vec<Binding>,
    pub root: Node,
}

/// What a [`RuleSet`] says, as plain values.
pub struct RuleSetView {
    pub bindings: Seq<BindingView>,
    pub root: NodeView,
}

impl View for RuleSet {
    type V = RuleSetView;

    open spec fn view(&self) -> RuleSetView {
        RuleSetView {
            bindings: Seq::new(self.bindings@.len(), |i: int| self.bindings@[i]@),
            root: self.root@,
        }
    }
}

/// What the view of an internal node holds: the views of its arms, in
/// order, and the view of its default.
pub proof fn lemma_match_view(node: Node)
    requires
        node is Match,
    ensures
        node@ is Match,
        node@->source == node->source@,
        node@->arms.len() == node->arms@.len(),
        forall|i: int|
            0 <= i < node->arms@.len() ==> (#[trigger] node@->arms[i]) == node->arms@[i]@,
        node->default is Some == node@->default is Some,
        node->default matches Some(inner) ==> *node@->default->0 == inner@,
{
    reveal_with_fuel(node_view, 2);
}

/// The enumeration `ty` is declared and has a variant at position `variant`.
pub open spec fn variant_exists(types: Seq<TypeView>, ty: nat, variant: nat) -> bool {
    &&& ty < types.len()
    &&& types[ty as int] matches TypeView::Enum { variants, .. }
    &&& variant < variants.len()
}

/// The binding at position `at` names only what is declared, and only
/// bindings that come before it.
pub open spec fn binding_well_formed(
    types: Seq<TypeView>,
    terms: Seq<TermView>,
    term: TermView,
    at: nat,
    binding: BindingView,
) -> bool {
    match binding {
        BindingView::Argument { index } => index < term.arg_tys.len(),
        BindingView::ConstInt { ty, .. } => ty < types.len(),
        BindingView::Add { ty, lhs, rhs } => ty < types.len() && lhs < at && rhs < at,
        BindingView::Call { term: callee, args } => {
            &&& callee < terms.len()
            &&& forall|i: int| 0 <= i < args.len() ==> #[trigger] args[i] < at
        },
        BindingView::MakeVariant { ty, variant } => variant_exists(types, ty, variant),
    }
}

/// The constraint names a declared variant, if it names one at all.
pub open spec fn constraint_well_formed(types: Seq<TypeView>, constraint: ConstraintView) -> bool {
    match constraint {
        ConstraintView::Variant { ty, variant } => variant_exists(types, ty, variant),
        ConstraintView::ConstInt { .. } => true,
    }
}

/// Every binding that the subtree names is one of the first `n_bindings`,
/// and every constraint in it is well formed.
pub open spec fn node_well_formed(types: Seq<TypeView>, n_bindings: nat, node: NodeView) -> bool
    decreases node,
{
    match node {
        NodeView::Leaf { result } => result < n_bindings,
        NodeView::Match { source, arms, default } => {
            &&& source < n_bindings
            &&& forall|i: int|
                0 <= i < arms.len() ==> {
                    &&& constraint_well_formed(types, (#[trigger] arms[i]).constraint)
                    &&& node_well_formed(types, n_bindings, arms[i].body)
                }
            &&& default matches Some(inner) ==> node_well_formed(types, n_bindings, *inner)
        },
    }
}

/// The rule set of `term` is well formed against the two environments.
pub open spec fn ruleset_well_formed(
    types: Seq<TypeView>,
    terms: Seq<TermView>,
    term: TermView,
    rules: RuleSetView,
) -> bool {
    &&& forall|b: int|
        0 <= b < rules.bindings.len() ==> binding_well_formed(
            types,
            terms,
            term,
            b as nat,
            #[trigger] rules.bindings[b],
        )
    &&& node_well_formed(types, rules.bindings.len(), rules.root)
}

/// Decides [`variant_exists`].
pub fn has_variant(typeenv: &TypeEnv, ty: TypeId, variant: VariantId) -> (ok: bool)
    ensures
        ok == variant_exists(typeenv@, ty@, variant@),
{
    if ty.0 >= typeenv.types.len() {
        return false;
    }
    match &typeenv.types[ty.0] {
        Type::Primitive { .. } => false,
        Type::Enum { variants, .. } => variant.0 < variants.len(),
    }
}

impl Binding {
    /// Decides [`binding_well_formed`] for the binding at position `at`.
    pub fn is_well_formed(
        &self,
        typeenv: &TypeEnv,
        termenv: &TermEnv,
        term: &Term,
        at: usize,
    ) -> (ok: bool)
        ensures
            ok == binding_well_formed(typeenv@, termenv@, term@, at as nat, self@),
    {
        match self {
            Binding::Argument { index } => *index < term.arg_tys.len(),
            Binding::ConstInt { ty, .. } => ty.0 < typeenv.types.len(),
            Binding::Add { ty, lhs, rhs } => ty.0 < typeenv.types.len() && lhs.0 < at && rhs.0 < at,
            Binding::Call { term: callee, args } => {
                if callee.0 >= termenv.terms.len() {
                    return false;
                }
                let mut i: usize = 0;
                while i < args.len()
                    invariant
                        i <= args.len(),
                        self@ == (BindingView::Call {
                            term: callee@,
                            args: binding_id_views(args@),
                        }),
                        forall|j: int| 0 <= j < i ==> #[trigger] binding_id_views(args@)[j] < at,
                    decreases args.len() - i,
                {
                    if args[i].0 >= at {
                        assert(self@->Call_args[i as int] == args@[i as int]@);
                        return false;
                    }
                    i = i + 1;
                }
                true
            },
            Binding::MakeVariant { ty, variant } => has_variant(typeenv, *ty, *variant),
        }
    }
}

impl Constraint {
    /// Decides [`constraint_well_formed`].
    pub fn is_well_formed(&self, typeenv: &TypeEnv) -> (ok: bool)
        ensures
            ok == constraint_well_formed(typeenv@, self@),
    {
        match self {
            Constraint::Variant { ty, variant } => has_variant(typeenv, *ty, *variant),
            Constraint::ConstInt { .. } => true,
        }
    }
}

impl Node {
    /// Decides [`node_well_formed`] for a rule set of `n_bindings` bindings.
    pub fn is_well_formed(&self, typeenv: &TypeEnv, n_bindings: usize) -> (ok: bool)
        ensures
            ok == node_well_formed(typeenv@, n_bindings as nat, self@),
        decreases self,
    {
        match self {
            Node::Leaf { result } => result.0 < n_bindings,
            Node::Match { source, arms, default } => {
                if source.0 >= n_bindings {
                    return false;
                }
                let mut i: usize = 0;
                while i < arms.len()
                    invariant
                        i <= arms.len(),
                        self matches Node::Match { arms: a, .. } && a == arms,
                        self@ matches NodeView::Match { arms: views, .. } && views.len()
                            == arms@.len() && (forall|j: int|
                            0 <= j < arms@.len() ==> #[trigger] views[j] == arms@[j]@),
                        forall|j: int|
                            0 <= j < i ==> {
                                &&& constraint_well_formed(
                                    typeenv@,
                                    (#[trigger] arms@[j])@.constraint,
                                )
                                &&& node_well_formed(typeenv@, n_bindings as nat, arms@[j]@.body)
                            },
                    decreases arms.len() - i,
                {
                    let arm = &arms[i];
                    assert(self@->Match_arms[i as int] == arm@);
                    if !arm.constraint.is_well_formed(typeenv) {
                        return false;
                    }
                    if !arm.body.is_well_formed(typeenv, n_bindings) {
                        return false;
                    }
                    i = i + 1;
                }
                match default {
                    Some(inner) => inner.is_well_formed(typeenv, n_bindings),
                    None => true,
                }
            },
        }
    }
}

impl Node {
    /// Decides [`always_returns`]: whether every path through the subtree
    /// ends in a leaf.
    pub fn is_total(&self) -> (ok: bool)
        ensures
            ok == always_returns(self@),
        decreases self,
    {
        match self {
            Node::Leaf { .. } => true,
            Node::Match { arms, default, .. } => {
                proof {
                    lemma_match_view(*self);
                }
                let mut i: usize = 0;
                while i < arms.len()
                    invariant
                        i <= arms.len(),
                        self matches Node::Match { arms: a, .. } && a == arms,
                        self@ is Match,
                        self@->arms.len() == arms@.len(),
                        forall|j: int|
                            0 <= j < arms@.len() ==> (#[trigger] self@->arms[j]) == arms@[j]@,
                        forall|j: int|
                            0 <= j < i ==> always_returns((#[trigger] self@->arms[j]).body),
                    decreases arms.len() - i,
                {
                    if !arms[i].body.is_total() {
                        assert(!always_returns(self@->arms[i as int].body));
                        return false;
                    }
                    i = i + 1;
                }
                match default {
                    Some(inner) => inner.is_total(),
                    None => false,
                }
            },
        }
    }
}

impl RuleSet {
    /// Decides [`ruleset_well_formed`] for the rules of `term`.
    pub fn is_well_formed(&self, typeenv: &TypeEnv, termenv: &TermEnv, term: &Term) -> (ok: bool)
        ensures
            ok == ruleset_well_formed(typeenv@, termenv@, term@, self@),
    {
        let mut b: usize = 0;
        while b < self.bindings.len()
            invariant
                b <= self.bindings.len(),
                forall|j: int|
                    0 <= j < b ==> binding_well_formed(
                        typeenv@,
                        termenv@,
                        term@,
                        j as nat,
                        #[trigger] self@.bindings[j],
                    ),
            decreases self.bindings.len() - b,
        {
            if !self.bindings[b].is_well_formed(typeenv, termenv, term, b) {
                assert(!binding_well_formed(
                    typeenv@,
                    termenv@,
                    term@,
                    b as nat,
                    self@.bindings[b as int],
                ));
                return false;
            }
            b = b + 1;
        }
        self.root.is_well_formed(typeenv, self.bindings.len())
    }
}

} // verus!
