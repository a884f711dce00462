//! What holds of every emitted body, whatever the trie and whatever the
//! backend.

use crate::codegen::syntax::{
    block_text, branch_text, branches_text, doc_text, fail_line, function_text, module_text,
    term_signature_text, term_text, EmitEnv,
};
use crate::codegen::{block_close_text, block_open_text, units_view, CodegenOptions, Lang};
use crate::plan::{
    binding_deps, declared_by, declared_by_operands, lemma_scope_after_concat, plan, scope_after,
    Block, Branch,
};
use crate::sema::{TermEnv, TermId, TermKind, TermView, TypeEnv, TypeView};
use crate::semantics::{
    always_returns, arm_count, declares_in_scope, run_block, run_chain, run_term, select,
    select_from, well_scoped, Input, Outcome,
};
use crate::trie::{
    binding_well_formed, node_well_formed, ruleset_well_formed, BindingView, NodeView, RuleSet,
    RuleSetView,
};
use vstd::prelude::*;

verus! {

/// The plan of an internal node is a dispatch on the node's source with one
/// branch per arm, in the arms' order, and a fallback where there is a
/// default. Every branch and the fallback are planned from one and the same
/// scope: the one in force once the source is declared. No branch's plan
/// depends on another arm.
pub proof fn law_plan_of_match(bindings: Seq<BindingView>, node: NodeView, bound: Set<nat>)
    requires
        node is Match,
    ensures
        ({
            let block = plan(bindings, node, bound);
            let inner = scope_after(bound, block.declares);
            &&& block.declares == declared_by(bindings, node->source, bound)
            &&& block.control is Dispatch
            &&& block.control->source == node->source
            &&& block.control->branches.len() == node->arms.len()
            &&& forall|i: int|
                0 <= i < node->arms.len() ==> (#[trigger] block.control->branches[i]) == (Branch {
                    test: node->arms[i].constraint,
                    body: plan(bindings, node->arms[i].body, inner),
                })
            &&& block.control->fallback is Some == node->default is Some
            &&& node->default matches Some(inner_node) ==> *block.control->fallback->0 == plan(
                bindings,
                *inner_node,
                inner,
            )
        }),
{
}

/// From any arm on, the emitted chain does what the trie says.
proof fn lemma_chain_follows_trie(
    bindings: Seq<BindingView>,
    node: NodeView,
    bound: Set<nat>,
    input: Input,
    from: nat,
)
    requires
        node is Match,
        from <= node->arms.len(),
    ensures
        run_chain(plan(bindings, node, bound).control, input, from) == select_from(
            node,
            input,
            from,
        ),
    decreases node, node->arms.len() - from,
{
    law_plan_of_match(bindings, node, bound);
    let block = plan(bindings, node, bound);
    let inner = scope_after(bound, block.declares);
    if from < node->arms.len() {
        assert(block.control->branches[from as int].test == node->arms[from as int].constraint);
        if input(node->source, node->arms[from as int].constraint) {
            law_plan_follows_trie(bindings, node->arms[from as int].body, inner, input);
        } else {
            lemma_chain_follows_trie(bindings, node, bound, input, from + 1);
        }
    } else {
        match node->default {
            Some(inner_node) => {
                law_plan_follows_trie(bindings, *inner_node, inner, input);
            },
            None => {},
        }
    }
}

/// The emitted body returns exactly what the trie yields: on every input,
/// from every scope, the body planned for a node returns the binding that
/// the node selects, and leaves without a return where the node selects
/// none. Which declarations the walk adds makes no difference to that.
pub proof fn law_plan_follows_trie(
    bindings: Seq<BindingView>,
    node: NodeView,
    bound: Set<nat>,
    input: Input,
)
    ensures
        run_block(plan(bindings, node, bound), input) == select(node, input),
    decreases node, arm_count(node) + 1,
{
    match node {
        NodeView::Leaf { .. } => {},
        NodeView::Match { .. } => {
            lemma_chain_follows_trie(bindings, node, bound, input, 0);
        },
    }
}

/// Where no arm before `at` holds, the trie's choice from `from` on is its
/// choice from `at` on.
proof fn lemma_select_skips(node: NodeView, input: Input, from: nat, at: nat)
    requires
        node is Match,
        from <= at <= node->arms.len(),
        forall|j: int|
            from <= j < at ==> !input(node->source, (#[trigger] node->arms[j]).constraint),
    ensures
        select_from(node, input, from) == select_from(node, input, at),
    decreases at - from,
{
    if from < at {
        assert(!input(node->source, node->arms[from as int].constraint));
        lemma_select_skips(node, input, from + 1, at);
    }
}

/// Arm order is priority: the emitted dispatch takes the first arm, in the
/// trie's order, whose constraint holds. If the arm at position `at` holds
/// and none before it does, the body returns what that arm's subtree
/// returns, whatever holds of the arms behind it.
pub proof fn law_first_match_wins(
    bindings: Seq<BindingView>,
    node: NodeView,
    bound: Set<nat>,
    input: Input,
    at: nat,
)
    requires
        node is Match,
        at < node->arms.len(),
        input(node->source, node->arms[at as int].constraint),
        forall|j: int| 0 <= j < at ==> !input(node->source, (#[trigger] node->arms[j]).constraint),
    ensures
        run_block(plan(bindings, node, bound), input) == select(node->arms[at as int].body, input),
        run_block(plan(bindings, node, bound), input) == run_block(
            plan(bindings, node, bound).control->branches[at as int].body,
            input,
        ),
{
    law_plan_follows_trie(bindings, node, bound, input);
    lemma_select_skips(node, input, 0, at);
    law_plan_of_match(bindings, node, bound);
    let inner = scope_after(bound, plan(bindings, node, bound).declares);
    law_plan_follows_trie(bindings, node->arms[at as int].body, inner, input);
}

/// In the text of a dispatch the branches stand in the trie's order: the
/// text of the first `shorter` branches is the beginning of the text of the
/// first `longer`, whatever the backend.
pub proof fn law_branches_in_order(
    env: EmitEnv,
    source: nat,
    branches: Seq<Branch>,
    shorter: nat,
    longer: nat,
    depth: nat,
)
    requires
        shorter <= longer <= branches.len(),
    ensures
        branches_text(env, source, branches, shorter, depth).is_prefix_of(
            branches_text(env, source, branches, longer, depth),
        ),
    decreases longer - shorter,
{
    if shorter < longer {
        law_branches_in_order(env, source, branches, shorter, (longer - 1) as nat, depth);
        let less = branches_text(env, source, branches, (longer - 1) as nat, depth);
        let last = branch_text(env, source, (longer - 1) as nat, branches[longer - 1], depth);
        assert(branches_text(env, source, branches, longer, depth) == less + last);
        assert(less.is_prefix_of(less + last));
    }
}

/// A total trie selects a binding on every input.
pub proof fn law_total_trie_selects(node: NodeView, input: Input)
    requires
        always_returns(node),
    ensures
        select(node, input) is Some,
    decreases node, arm_count(node) + 1,
{
    match node {
        NodeView::Leaf { .. } => {},
        NodeView::Match { .. } => {
            lemma_total_chain_selects(node, input, 0);
        },
    }
}

/// A total trie selects a binding from any arm on.
proof fn lemma_total_chain_selects(node: NodeView, input: Input, from: nat)
    requires
        node is Match,
        always_returns(node),
        from <= node->arms.len(),
    ensures
        select_from(node, input, from) is Some,
    decreases node, node->arms.len() - from,
{
    if from < node->arms.len() {
        assert(always_returns(node->arms[from as int].body));
        if input(node->source, node->arms[from as int].constraint) {
            law_total_trie_selects(node->arms[from as int].body, input);
        } else {
            lemma_total_chain_selects(node, input, from + 1);
        }
    } else {
        law_total_trie_selects(*node->default->0, input);
    }
}

/// No call falls off the end of an emitted function. A constructor whose
/// trie is total returns a value on every input. An extractor returns what
/// its trie selects and reports a failed match exactly where the trie
/// selects nothing.
pub proof fn law_no_fallthrough(kind: TermKind, rules: RuleSetView, input: Input)
    requires
        kind is Constructor ==> always_returns(rules.root),
    ensures
        run_term(kind, plan(rules.bindings, rules.root, Set::empty()), input)
            != Outcome::FellThrough,
        kind is Constructor ==> run_term(
            kind,
            plan(rules.bindings, rules.root, Set::empty()),
            input,
        ) is Returned,
        kind is Extractor ==> run_term(kind, plan(rules.bindings, rules.root, Set::empty()), input)
            == (match select(rules.root, input) {
            Some(var) => Outcome::Returned(var),
            None => Outcome::NoMatch,
        }),
{
    law_plan_follows_trie(rules.bindings, rules.root, Set::empty(), input);
    if kind is Constructor {
        law_total_trie_selects(rules.root, input);
    }
}

/// Every binding is computed from bindings that come before it.
pub open spec fn operands_precede(bindings: Seq<BindingView>) -> bool {
    forall|b: int, i: int|
        0 <= b < bindings.len() && 0 <= i < binding_deps(bindings[b]).len() ==> (
        #[trigger] binding_deps(bindings[b])[i]) < b
}

/// In a well-formed rule set every binding is computed from bindings that
/// come before it.
pub proof fn lemma_operands_precede(
    types: Seq<TypeView>,
    terms: Seq<TermView>,
    term: TermView,
    rules: RuleSetView,
)
    requires
        ruleset_well_formed(types, terms, term, rules),
    ensures
        operands_precede(rules.bindings),
{
    assert forall|b: int, i: int|
        0 <= b < rules.bindings.len() && 0 <= i < binding_deps(
            rules.bindings[b],
        ).len() implies (#[trigger] binding_deps(rules.bindings[b])[i]) < b by {
        assert(binding_well_formed(types, terms, term, b as nat, rules.bindings[b]));
    }
}

/// Sound declarations followed by declarations that are sound in the scope
/// they leave are sound together.
proof fn lemma_declares_concat(
    bindings: Seq<BindingView>,
    first: Seq<nat>,
    second: Seq<nat>,
    scope: Set<nat>,
)
    requires
        declares_in_scope(bindings, first, scope),
        declares_in_scope(bindings, second, scope_after(scope, first)),
    ensures
        declares_in_scope(bindings, first + second, scope),
    decreases second.len(),
{
    if second.len() == 0 {
        assert(first + second =~= first);
    } else {
        let earlier = second.drop_last();
        lemma_declares_concat(bindings, first, earlier, scope);
        lemma_scope_after_concat(scope, first, earlier);
        assert((first + second).drop_last() =~= first + earlier);
        assert((first + second).last() == second.last());
    }
}

/// What materializing a binding declares is sound in the scope it starts
/// from, holds nothing above the binding, and brings the binding into
/// scope.
proof fn lemma_declared_by(bindings: Seq<BindingView>, binding: nat, bound: Set<nat>)
    requires
        operands_precede(bindings),
        binding < bindings.len(),
    ensures
        declares_in_scope(bindings, declared_by(bindings, binding, bound), bound),
        scope_after(bound, declared_by(bindings, binding, bound)).contains(binding),
        forall|k: int|
            0 <= k < declared_by(bindings, binding, bound).len() ==> #[trigger] declared_by(
                bindings,
                binding,
                bound,
            )[k] <= binding,
    decreases binding + 1, 0nat,
{
    if !bound.contains(binding) {
        let deps = binding_deps(bindings[binding as int]);
        assert forall|i: int| 0 <= i < deps.len() implies #[trigger] deps[i] < binding by {
            assert(binding_deps(bindings[binding as int])[i] < binding);
        }
        lemma_declared_by_operands(bindings, deps, deps.len(), binding, bound);
        let before = declared_by_operands(bindings, deps, deps.len(), binding, bound);
        let all = before.push(binding);
        assert(all.drop_last() =~= before);
        assert(all.last() == binding);
        assert(!before.contains(binding)) by {
            if before.contains(binding) {
                let k = choose|k: int| 0 <= k < before.len() && before[k] == binding;
                assert(before[k] < binding);
            }
        }
        assert(all[before.len() as int] == binding);
    }
}

/// What materializing the first `upto` operands declares is sound in the
/// scope it starts from, stays below `limit`, and brings those operands
/// into scope.
proof fn lemma_declared_by_operands(
    bindings: Seq<BindingView>,
    deps: Seq<nat>,
    upto: nat,
    limit: nat,
    bound: Set<nat>,
)
    requires
        operands_precede(bindings),
        limit <= bindings.len(),
        upto <= deps.len(),
        forall|i: int| 0 <= i < deps.len() ==> #[trigger] deps[i] < limit,
    ensures
        declares_in_scope(
            bindings,
            declared_by_operands(bindings, deps, upto, limit, bound),
            bound,
        ),
        forall|i: int|
            0 <= i < upto ==> scope_after(
                bound,
                declared_by_operands(bindings, deps, upto, limit, bound),
            ).contains(#[trigger] deps[i]),
        forall|k: int|
            0 <= k < declared_by_operands(bindings, deps, upto, limit, bound).len()
                ==> #[trigger] declared_by_operands(bindings, deps, upto, limit, bound)[k] < limit,
    decreases limit, upto + 1,
{
    if upto > 0 {
        let at = (upto - 1) as nat;
        lemma_declared_by_operands(bindings, deps, at, limit, bound);
        let before = declared_by_operands(bindings, deps, at, limit, bound);
        let dep = deps[at as int];
        assert(dep < limit);
        let step = declared_by(bindings, dep, scope_after(bound, before));
        lemma_declared_by(bindings, dep, scope_after(bound, before));
        lemma_declares_concat(bindings, before, step, bound);
        lemma_scope_after_concat(bound, before, step);
        let all = declared_by_operands(bindings, deps, upto, limit, bound);
        assert(all == before + step);
        assert forall|i: int| 0 <= i < upto implies scope_after(bound, all).contains(
            #[trigger] deps[i],
        ) by {
            if i < at {
                assert(scope_after(bound, before).contains(deps[i]));
            }
        }
        assert forall|k: int| 0 <= k < all.len() implies #[trigger] all[k] < limit by {
            if k < before.len() {
                assert(before[k] < limit);
            } else {
                assert(step[k - before.len()] <= dep);
            }
        }
    }
}

/// Scopes are sound and isolated: in the body planned for a well-formed
/// node, entered with any scope, nothing is used before it is declared in
/// the block that uses it or in a block around it, and nothing is declared
/// where it is in scope already. What one arm declares is therefore neither
/// relied on nor declared again by the arms beside it.
pub proof fn law_plan_well_scoped(
    types: Seq<TypeView>,
    bindings: Seq<BindingView>,
    node: NodeView,
    bound: Set<nat>,
)
    requires
        operands_precede(bindings),
        node_well_formed(types, bindings.len(), node),
    ensures
        well_scoped(bindings, plan(bindings, node, bound), bound),
    decreases node,
{
    match node {
        NodeView::Leaf { result } => {
            lemma_declared_by(bindings, result, bound);
        },
        NodeView::Match { source, arms, default } => {
            law_plan_of_match(bindings, node, bound);
            lemma_declared_by(bindings, source, bound);
            let block = plan(bindings, node, bound);
            let inner = scope_after(bound, block.declares);
            assert forall|i: int| 0 <= i < block.control->branches.len() implies well_scoped(
                bindings,
                (#[trigger] block.control->branches[i]).body,
                inner,
            ) by {
                assert(node_well_formed(types, bindings.len(), arms[i].body));
                law_plan_well_scoped(types, bindings, arms[i].body, inner);
            }
            match default {
                Some(inner_node) => {
                    law_plan_well_scoped(types, bindings, *inner_node, inner);
                },
                None => {},
            }
        },
    }
}

/// The body of every well-formed rule set is well scoped from the empty
/// scope in which a term's function starts.
pub proof fn law_body_well_scoped(
    types: Seq<TypeView>,
    terms: Seq<TermView>,
    term: TermView,
    rules: RuleSetView,
)
    requires
        ruleset_well_formed(types, terms, term, rules),
    ensures
        well_scoped(rules.bindings, plan(rules.bindings, rules.root, Set::empty()), Set::empty()),
{
    lemma_operands_precede(types, terms, term, rules);
    law_plan_well_scoped(types, rules.bindings, rules.root, Set::empty());
}

/// The failure path stands where the spelling of the kind puts it: an
/// extractor's function ends with the line that reports a failed match,
/// right before the closing brace; in a constructor's function nothing
/// stands between the body and the closing brace.
pub proof fn law_failure_path_is_last(env: EmitEnv, body: Block)
    ensures
        env.term.kind is Extractor ==> (fail_line(env.lang, 1) + block_close_text(1) + "\n"@)
            .is_suffix_of(function_text(env, body)),
        env.term.kind is Constructor ==> (block_text(env, body, 1) + block_close_text(1) + "\n"@)
            .is_suffix_of(function_text(env, body)),
{
    let head = "\n"@ + doc_text(env.lang, env.term.name) + term_signature_text(
        env.lang,
        env.types,
        env.term,
    ) + block_open_text();
    let whole = function_text(env, body);
    if env.term.kind is Extractor {
        let tail = fail_line(env.lang, 1) + block_close_text(1) + "\n"@;
        assert(whole =~= (head + block_text(env, body, 1)) + tail);
        assert(whole.subrange(whole.len() - tail.len(), whole.len() as int) =~= tail);
    } else {
        let tail = block_text(env, body, 1) + block_close_text(1) + "\n"@;
        assert(whole =~= head + tail);
        assert(whole.subrange(whole.len() - tail.len(), whole.len() as int) =~= tail);
    }
}

/// Generation is deterministic: what `codegen` returns is `module_text` of
/// the contents of its arguments, so two calls whose arguments say the same
/// return the same text, character for character.
pub proof fn law_deterministic(
    typeenv: TypeEnv,
    termenv: TermEnv,
    terms: Seq<(TermId, RuleSet)>,
    options: CodegenOptions,
    typeenv_again: TypeEnv,
    termenv_again: TermEnv,
    terms_again: Seq<(TermId, RuleSet)>,
    options_again: CodegenOptions,
)
    requires
        typeenv@ == typeenv_again@,
        termenv@ == termenv_again@,
        units_view(terms) == units_view(terms_again),
        options.lang == options_again.lang,
        options.exclude_global_allow_pragmas == options_again.exclude_global_allow_pragmas,
    ensures
        module_text(
            options.lang,
            typeenv@,
            termenv@,
            units_view(terms),
            options.exclude_global_allow_pragmas,
        ) == module_text(
            options_again.lang,
            typeenv_again@,
            termenv_again@,
            units_view(terms_again),
            options_again.exclude_global_allow_pragmas,
        ),
{
}

/// The backends differ in spelling only: for one term and one rule set,
/// every backend's function is the rendering, in its own syntax, of one and
/// the same body. So on every input the functions of all backends end the
/// same way.
pub proof fn law_backends_share_body(
    lang: Lang,
    types: Seq<TypeView>,
    terms: Seq<TermView>,
    term: nat,
    rules: RuleSetView,
)
    ensures
        term_text(lang, types, terms, term, rules) == function_text(
            EmitEnv { lang, types, terms, term: terms[term as int], bindings: rules.bindings },
            plan(rules.bindings, rules.root, Set::empty()),
        ),
{
}

} // verus!
