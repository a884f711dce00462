//! The walk over a decision trie that writes a term's function: what both
//! backends do alike.

use crate::codegen::cxx;
use crate::codegen::rust;
use crate::codegen::syntax::{
    binding_type, block_text, branch_opener_text, branch_text, branches_text, condition_text,
    control_text, decl_line, decls_text, doc_text, env_of, expr_text, fail_line,
    fallback_opener_text, fallback_text, fallthrough_text, function_text, header_text, is_by_ref,
    line_end_text, module_text, operand_of, operands_text, params_text, pattern_text, return_line,
    term_signature_text, term_text, type_name_text, units_text, variant_path_text, EmitEnv,
};
use crate::codegen::{
    block_close_text, block_open_text, inputs_well_formed, units_view, BodyContext, Lang,
};
use crate::plan::{
    binding_deps, declared_by, declared_by_operands, lemma_scope_after_concat, plan, scope_after,
    Branch, Control,
};
use crate::sema::{
    term_well_formed, terms_well_formed, TermEnv, TermId, TermKind, Type, TypeEnv, TypeId,
    VariantId,
};
use crate::text::{push_arg, push_signed_decimal};
use crate::trie::{
    binding_id_views, binding_well_formed, constraint_well_formed, lemma_match_view,
    node_well_formed, ruleset_well_formed, variant_exists, Arm, Binding, BindingId, Constraint,
    Node, RuleSet, RuleSetView,
};
use vstd::prelude::*;
use vstd::string::StringExecFns;

verus! {

/// The name of the type `ty`.
pub fn name_of_type<'t>(typeenv: &'t TypeEnv, ty: TypeId) -> (name: &'t str)
    requires
        ty@ < typeenv@.len(),
    ensures
        name@ == type_name_text(typeenv@, ty@),
{
    match &typeenv.types[ty.0] {
        Type::Primitive { name } => name.as_str(),
        Type::Enum { name, .. } => name.as_str(),
    }
}

/// The qualified name of the variant `variant` of the enumeration `ty`.
pub fn variant_path(typeenv: &TypeEnv, ty: TypeId, variant: VariantId) -> (path: String)
    requires
        variant_exists(typeenv@, ty@, variant@),
    ensures
        path@ == variant_path_text(typeenv@, ty@, variant@),
{
    let mut path = String::from_str(name_of_type(typeenv, ty));
    path.append("::");
    match &typeenv.types[ty.0] {
        Type::Primitive { .. } => {},
        Type::Enum { variants, .. } => {
            path.append(variants[variant.0].as_str());
        },
    }
    path
}

/// What is fixed while one term's function is written: the backend, the two
/// environments and the term.
pub struct Emitter<'a> {
    pub lang: Lang,
    pub typeenv: &'a TypeEnv,
    pub termenv: &'a TermEnv,
    pub term: TermId,
}

impl<'a> Emitter<'a> {
    /// The environment that the text of a body over `rules` depends on.
    pub open spec fn env(&self, rules: RuleSetView) -> EmitEnv {
        env_of(self.lang, self.typeenv@, self.termenv@, self.term@, rules)
    }

    /// The term is declared, and the environments and `rules` are well
    /// formed.
    pub open spec fn wf(&self, rules: RuleSetView) -> bool {
        &&& terms_well_formed(self.typeenv@, self.termenv@)
        &&& self.term@ < self.termenv@.len()
        &&& ruleset_well_formed(
            self.typeenv@,
            self.termenv@,
            self.termenv@[self.term@ as int],
            rules,
        )
    }

    /// Every classification that `ctx` has recorded is the one that the
    /// binding's type calls for.
    pub open spec fn agrees(&self, ctx: BodyContext) -> bool {
        forall|b: nat| #[trigger]
            ctx.classification().contains_key(b) ==> ctx.classification()[b] == is_by_ref(
                self.env(ctx.rules()),
                b,
            )
    }

    /// The walk can go on from `ctx`: the context is sound, what it has
    /// recorded agrees with the types, and its rules are well formed.
    pub open spec fn ready(&self, ctx: BodyContext) -> bool {
        &&& ctx.wf()
        &&& self.wf(ctx.rules())
        &&& self.agrees(ctx)
    }

    /// What every step of the walk keeps: the context stays sound and at
    /// its depth, over the same rules, and whatever classification was
    /// recorded in `before` stands unchanged in `after`.
    pub open spec fn advanced(&self, before: BodyContext, after: BodyContext) -> bool {
        &&& after.wf()
        &&& self.agrees(after)
        &&& after.rules() == before.rules()
        &&& after.depth() == before.depth()
        &&& before.classification().submap_of(after.classification())
    }

    /// The type of the value that `binding` computes.
    pub fn binding_ty(&self, rules: &RuleSet, binding: BindingId) -> (ty: TypeId)
        requires
            self.wf(rules@),
            binding@ < rules@.bindings.len(),
        ensures
            ty@ == binding_type(self.env(rules@), binding@),
            ty@ < self.typeenv@.len(),
    {
        assert(binding_well_formed(
            self.typeenv@,
            self.termenv@,
            self.termenv@[self.term@ as int],
            binding@,
            rules@.bindings[binding@ as int],
        ));
        match &rules.bindings[binding.0] {
            Binding::Argument { index } => {
                let term = &self.termenv.terms[self.term.0];
                assert(term_well_formed(self.typeenv@, term@));
                assert(term@.arg_tys[*index as int] == term.arg_tys@[*index as int]@);
                term.arg_tys[*index]
            },
            Binding::ConstInt { ty, .. } => *ty,
            Binding::Add { ty, .. } => *ty,
            Binding::Call { term, .. } => {
                assert(term_well_formed(self.typeenv@, self.termenv@[term@ as int]));
                self.termenv.terms[term.0].ret_ty
            },
            Binding::MakeVariant { ty, .. } => *ty,
        }
    }

    /// Whether `binding` is held by reference.
    pub fn by_ref(&self, rules: &RuleSet, binding: BindingId) -> (by_ref: bool)
        requires
            self.wf(rules@),
            binding@ < rules@.bindings.len(),
        ensures
            by_ref == is_by_ref(self.env(rules@), binding@),
    {
        let ty = self.binding_ty(rules, binding);
        match &self.typeenv.types[ty.0] {
            Type::Primitive { .. } => false,
            Type::Enum { .. } => true,
        }
    }

    /// `binding` as an operand.
    pub fn operand(&self, rules: &RuleSet, binding: BindingId) -> (s: String)
        requires
            self.wf(rules@),
            binding@ < rules@.bindings.len(),
        ensures
            s@ == operand_of(self.env(rules@), binding@),
    {
        let by_ref = self.by_ref(rules, binding);
        match self.lang {
            Lang::Rust => rust::operand(binding.0, by_ref),
            Lang::Cxx => cxx::operand(binding.0, by_ref),
        }
    }

    /// `args` as operands, separated by commas.
    pub fn operands(&self, rules: &RuleSet, args: &Vec<BindingId>) -> (s: String)
        requires
            self.wf(rules@),
            forall|i: int| 0 <= i < args@.len() ==> (#[trigger] args@[i])@ < rules@.bindings.len(),
        ensures
            s@ == operands_text(self.env(rules@), binding_id_views(args@), args@.len()),
    {
        let mut s = String::new();
        let mut i: usize = 0;
        while i < args.len()
            invariant
                i <= args.len(),
                self.wf(rules@),
                forall|j: int|
                    0 <= j < args@.len() ==> (#[trigger] args@[j])@ < rules@.bindings.len(),
                s@ == operands_text(self.env(rules@), binding_id_views(args@), i as nat),
            decreases args.len() - i,
        {
            if i > 0 {
                s.append(", ");
            }
            let operand = self.operand(rules, args[i]);
            s.append(operand.as_str());
            i = i + 1;
            assert(s@ =~= operands_text(self.env(rules@), binding_id_views(args@), i as nat));
        }
        s
    }

    /// The expression that computes `binding`.
    pub fn expr(&self, rules: &RuleSet, binding: BindingId) -> (s: String)
        requires
            self.wf(rules@),
            binding@ < rules@.bindings.len(),
        ensures
            s@ == expr_text(self.env(rules@), binding@),
    {
        assert(binding_well_formed(
            self.typeenv@,
            self.termenv@,
            self.termenv@[self.term@ as int],
            binding@,
            rules@.bindings[binding@ as int],
        ));
        match &rules.bindings[binding.0] {
            Binding::Argument { index } => {
                let mut s = String::new();
                push_arg(&mut s, *index);
                assert(s@ =~= expr_text(self.env(rules@), binding@));
                s
            },
            Binding::ConstInt { val, .. } => {
                let mut s = String::new();
                push_signed_decimal(&mut s, *val);
                assert(s@ =~= expr_text(self.env(rules@), binding@));
                s
            },
            Binding::Add { lhs, rhs, .. } => {
                let mut s = self.operand(rules, *lhs);
                s.append(" + ");
                let right = self.operand(rules, *rhs);
                s.append(right.as_str());
                s
            },
            Binding::Call { term, args } => {
                assert forall|i: int| 0 <= i < args@.len() implies (#[trigger] args@[i])@
                    < rules@.bindings.len() by {
                    assert(binding_id_views(args@)[i] < binding@);
                }
                let mut s = String::from_str(self.termenv.terms[term.0].name.as_str());
                s.append("(");
                let list = self.operands(rules, args);
                s.append(list.as_str());
                s.append(")");
                s
            },
            Binding::MakeVariant { ty, variant } => variant_path(self.typeenv, *ty, *variant),
        }
    }

    /// What `constraint` compares against.
    pub fn pattern(&self, rules: &RuleSet, constraint: &Constraint) -> (s: String)
        requires
            constraint_well_formed(self.typeenv@, constraint@),
        ensures
            s@ == pattern_text(self.env(rules@), constraint@),
    {
        match constraint {
            Constraint::Variant { ty, variant } => variant_path(self.typeenv, *ty, *variant),
            Constraint::ConstInt { val } => {
                let mut s = String::new();
                push_signed_decimal(&mut s, *val);
                assert(s@ =~= pattern_text(self.env(rules@), constraint@));
                s
            },
        }
    }

    /// The condition under which `constraint` holds of `source`.
    pub fn condition(&self, rules: &RuleSet, source: BindingId, constraint: &Constraint) -> (s:
        String)
        requires
            self.wf(rules@),
            source@ < rules@.bindings.len(),
            constraint_well_formed(self.typeenv@, constraint@),
        ensures
            s@ == condition_text(self.env(rules@), source@, constraint@),
    {
        let by_ref = self.by_ref(rules, source);
        let pattern = self.pattern(rules, constraint);
        let is_variant = match constraint {
            Constraint::Variant { .. } => true,
            Constraint::ConstInt { .. } => false,
        };
        match self.lang {
            Lang::Rust => rust::test(source.0, by_ref, pattern.as_str(), is_variant),
            Lang::Cxx => cxx::test(source.0, by_ref, pattern.as_str(), is_variant),
        }
    }

    /// Writes the line that declares `binding`, records how it is held, and
    /// adds it to the scope.
    pub fn declare(&self, ctx: &mut BodyContext, binding: BindingId)
        requires
            self.ready(*old(ctx)),
            binding@ < old(ctx).rules().bindings.len(),
        ensures
            self.advanced(*old(ctx), *final(ctx)),
            final(ctx).text() == old(ctx).text() + decl_line(
                self.env(old(ctx).rules()),
                binding@,
                old(ctx).depth(),
            ),
            final(ctx).bound() == old(ctx).bound().insert(binding@),
    {
        let rules = ctx.ruleset();
        let by_ref = self.by_ref(rules, binding);
        let ty = self.binding_ty(rules, binding);
        let head = match self.lang {
            Lang::Rust => rust::decl_head(binding.0, name_of_type(self.typeenv, ty), by_ref),
            Lang::Cxx => cxx::decl_head(binding.0, name_of_type(self.typeenv, ty), by_ref),
        };
        let value = self.expr(rules, binding);
        ctx.set_ref(binding, by_ref);
        ctx.write_indent();
        ctx.write(head.as_str());
        ctx.write(value.as_str());
        ctx.write(";\n");
        ctx.bind(binding);
        assert(ctx.text() =~= old(ctx).text() + decl_line(
            self.env(old(ctx).rules()),
            binding@,
            old(ctx).depth(),
        ));
    }
}

/// Declaring one list after another writes the text of the first and then
/// the text of the second.
pub proof fn lemma_decls_text_concat(env: EmitEnv, first: Seq<nat>, second: Seq<nat>, depth: nat)
    ensures
        decls_text(env, first + second, depth) == decls_text(env, first, depth) + decls_text(
            env,
            second,
            depth,
        ),
    decreases second.len(),
{
    if second.len() == 0 {
        assert(first + second =~= first);
        assert(decls_text(env, first, depth) + Seq::<char>::empty() =~= decls_text(
            env,
            first,
            depth,
        ));
    } else {
        lemma_decls_text_concat(env, first, second.drop_last(), depth);
        assert((first + second).drop_last() =~= first + second.drop_last());
        assert((first + second).last() == second.last());
        assert(decls_text(env, first + second, depth) =~= decls_text(env, first, depth)
            + decls_text(env, second, depth));
    }
}

impl<'a> Emitter<'a> {
    /// Brings `binding` into scope: declares what its operands still need,
    /// then the binding itself. Writes nothing if it is in scope already.
    pub fn materialize(&self, ctx: &mut BodyContext, binding: BindingId)
        requires
            self.ready(*old(ctx)),
            binding@ < old(ctx).rules().bindings.len(),
        ensures
            self.advanced(*old(ctx), *final(ctx)),
            final(ctx).text() == old(ctx).text() + decls_text(
                self.env(old(ctx).rules()),
                declared_by(old(ctx).rules().bindings, binding@, old(ctx).bound()),
                old(ctx).depth(),
            ),
            final(ctx).bound() == scope_after(
                old(ctx).bound(),
                declared_by(old(ctx).rules().bindings, binding@, old(ctx).bound()),
            ),
        decreases binding@ + 1, 0nat,
    {
        let ghost env = self.env(ctx.rules());
        let ghost bindings = ctx.rules().bindings;
        let ghost bound = ctx.bound();
        let ghost depth = ctx.depth();
        if ctx.is_bound(binding) {
            assert(ctx.text() =~= old(ctx).text() + decls_text(env, Seq::empty(), depth));
            assert(ctx.bound() =~= scope_after(bound, Seq::empty()));
            return;
        }
        let rules = ctx.ruleset();
        assert(binding_well_formed(
            self.typeenv@,
            self.termenv@,
            self.termenv@[self.term@ as int],
            binding@,
            bindings[binding@ as int],
        ));
        match &rules.bindings[binding.0] {
            Binding::Add { lhs, rhs, .. } => {
                let deps = vec![*lhs, *rhs];
                assert(binding_id_views(deps@) =~= binding_deps(
                    bindings[binding@ as int],
                ));
                self.materialize_operands(ctx, &deps, binding);
            },
            Binding::Call { args, .. } => {
                assert forall|i: int| 0 <= i < args@.len() implies (#[trigger] args@[i])@
                    < binding@ by {
                    assert(binding_id_views(args@)[i] < binding@);
                }
                self.materialize_operands(ctx, args, binding);
            },
            _ => {
                assert(ctx.text() =~= old(ctx).text() + decls_text(env, Seq::empty(), depth));
                assert(ctx.bound() =~= scope_after(bound, Seq::empty()));
            },
        }
        let ghost deps = binding_deps(bindings[binding@ as int]);
        let ghost before = declared_by_operands(bindings, deps, deps.len(), binding@, bound);
        assert(ctx.text() == old(ctx).text() + decls_text(env, before, depth));
        assert(ctx.bound() == scope_after(bound, before));
        let ghost recorded = ctx.classification();
        self.declare(ctx, binding);
        proof {
            vstd::map_lib::lemma_submap_of_trans(
                old(ctx).classification(),
                recorded,
                ctx.classification(),
            );
            let all = declared_by(bindings, binding@, bound);
            assert(all == before.push(binding@));
            assert(all.drop_last() =~= before);
            assert(all.last() == binding@);
            assert(ctx.text() =~= old(ctx).text() + decls_text(env, all, depth));
            lemma_scope_after_concat(bound, before, seq![binding@]);
            assert(before + seq![binding@] =~= all);
            assert(scope_after(scope_after(bound, before), seq![binding@]) =~= scope_after(
                bound,
                before,
            ).insert(binding@));
        }
    }

    /// Brings the operands `deps` of the binding `limit` into scope, one
    /// after the other.
    pub fn materialize_operands(
        &self,
        ctx: &mut BodyContext,
        deps: &Vec<BindingId>,
        limit: BindingId,
    )
        requires
            self.ready(*old(ctx)),
            limit@ < old(ctx).rules().bindings.len(),
            forall|i: int| 0 <= i < deps@.len() ==> (#[trigger] deps@[i])@ < limit@,
        ensures
            self.advanced(*old(ctx), *final(ctx)),
            final(ctx).text() == old(ctx).text() + decls_text(
                self.env(old(ctx).rules()),
                declared_by_operands(
                    old(ctx).rules().bindings,
                    binding_id_views(deps@),
                    deps@.len(),
                    limit@,
                    old(ctx).bound(),
                ),
                old(ctx).depth(),
            ),
            final(ctx).bound() == scope_after(
                old(ctx).bound(),
                declared_by_operands(
                    old(ctx).rules().bindings,
                    binding_id_views(deps@),
                    deps@.len(),
                    limit@,
                    old(ctx).bound(),
                ),
            ),
        decreases limit@, 1nat,
    {
        let ghost env = self.env(ctx.rules());
        let ghost bindings = ctx.rules().bindings;
        let ghost bound = ctx.bound();
        let ghost depth = ctx.depth();
        let ghost ids = binding_id_views(deps@);
        let mut i: usize = 0;
        assert(ctx.text() =~= old(ctx).text() + decls_text(env, Seq::empty(), depth));
        assert(ctx.bound() =~= scope_after(bound, Seq::empty()));
        while i < deps.len()
            invariant
                i <= deps.len(),
                self.ready(*ctx),
                self.advanced(*old(ctx), *ctx),
                env == self.env(ctx.rules()),
                bindings == ctx.rules().bindings,
                bound == old(ctx).bound(),
                depth == old(ctx).depth(),
                ids == binding_id_views(deps@),
                limit@ < bindings.len(),
                forall|j: int| 0 <= j < deps@.len() ==> (#[trigger] deps@[j])@ < limit@,
                ctx.text() == old(ctx).text() + decls_text(
                    env,
                    declared_by_operands(bindings, ids, i as nat, limit@, bound),
                    depth,
                ),
                ctx.bound() == scope_after(
                    bound,
                    declared_by_operands(bindings, ids, i as nat, limit@, bound),
                ),
            decreases deps.len() - i,
        {
            let ghost before = declared_by_operands(bindings, ids, i as nat, limit@, bound);
            let ghost recorded = ctx.classification();
            let dep = deps[i];
            assert(ids[i as int] == dep@);
            self.materialize(ctx, dep);
            i = i + 1;
            proof {
                vstd::map_lib::lemma_submap_of_trans(
                    old(ctx).classification(),
                    recorded,
                    ctx.classification(),
                );
                let step = declared_by(bindings, dep@, scope_after(bound, before));
                assert(declared_by_operands(bindings, ids, i as nat, limit@, bound) == before
                    + step);
                lemma_decls_text_concat(env, before, step, depth);
                lemma_scope_after_concat(bound, before, step);
                assert(ctx.text() =~= old(ctx).text() + decls_text(env, before + step, depth));
            }
        }
    }
}

impl<'a> Emitter<'a> {
    /// Writes the line that returns `result`.
    pub fn emit_return(&self, ctx: &mut BodyContext, result: BindingId)
        requires
            old(ctx).wf(),
            self.wf(old(ctx).rules()),
            result@ < old(ctx).rules().bindings.len(),
        ensures
            final(ctx).wrote(
                *old(ctx),
                return_line(self.env(old(ctx).rules()), result@, old(ctx).depth()),
            ),
    {
        let rules = ctx.ruleset();
        let by_ref = self.by_ref(rules, result);
        let kind = self.termenv.terms[self.term.0].kind;
        let stmt = match self.lang {
            Lang::Rust => rust::return_stmt(result.0, by_ref, kind),
            Lang::Cxx => cxx::return_stmt(result.0, by_ref, kind),
        };
        ctx.write_indent();
        ctx.write(stmt.as_str());
        ctx.write("\n");
        assert(ctx.text() =~= old(ctx).text() + return_line(
            self.env(old(ctx).rules()),
            result@,
            old(ctx).depth(),
        ));
    }

    /// Writes the block for `node`: the declarations it needs, then a return
    /// for a leaf, or for an internal node one conditional per arm, in the
    /// trie's order, and the default last.
    pub fn emit_block(&self, ctx: &mut BodyContext, node: &Node)
        requires
            self.ready(*old(ctx)),
            node_well_formed(self.typeenv@, old(ctx).rules().bindings.len(), node@),
        ensures
            self.advanced(*old(ctx), *final(ctx)),
            final(ctx).text() == old(ctx).text() + block_text(
                self.env(old(ctx).rules()),
                plan(old(ctx).rules().bindings, node@, old(ctx).bound()),
                old(ctx).depth(),
            ),
            final(ctx).bound() == scope_after(
                old(ctx).bound(),
                plan(old(ctx).rules().bindings, node@, old(ctx).bound()).declares,
            ),
        decreases node, 0nat,
    {
        let ghost env = self.env(ctx.rules());
        let ghost bindings = ctx.rules().bindings;
        let ghost bound = ctx.bound();
        let ghost depth = ctx.depth();
        let ghost block = plan(bindings, node@, bound);
        match node {
            Node::Leaf { result } => {
                self.materialize(ctx, *result);
                self.emit_return(ctx, *result);
                assert(ctx.text() =~= old(ctx).text() + block_text(env, block, depth));
            },
            Node::Match { source, arms, default } => {
                proof {
                    lemma_match_view(*node);
                }
                self.materialize(ctx, *source);
                let ghost inner = ctx.bound();
                let ghost branches = block.control->branches;
                let ghost head = ctx.text();
                assert(head == old(ctx).text() + decls_text(env, block.declares, depth));
                assert(ctx.text() =~= head + branches_text(env, source@, branches, 0, depth));
                let mut i: usize = 0;
                while i < arms.len()
                    invariant
                        i <= arms.len(),
                        node matches Node::Match { arms: a, .. } && a == arms,
                        self.ready(*ctx),
                        self.advanced(*old(ctx), *ctx),
                        env == self.env(ctx.rules()),
                        bindings == ctx.rules().bindings,
                        depth == old(ctx).depth(),
                        ctx.bound() == inner,
                        source@ < bindings.len(),
                        branches.len() == arms@.len(),
                        forall|j: int|
                            0 <= j < arms@.len() ==> {
                                &&& (#[trigger] branches[j]) == (Branch {
                                    test: arms@[j]@.constraint,
                                    body: plan(bindings, arms@[j]@.body, inner),
                                })
                                &&& constraint_well_formed(self.typeenv@, arms@[j]@.constraint)
                                &&& node_well_formed(self.typeenv@, bindings.len(), arms@[j]@.body)
                            },
                        ctx.text() == head + branches_text(env, source@, branches, i as nat, depth),
                    decreases arms.len() - i,
                {
                    let ghost recorded = ctx.classification();
                    let ghost done = branches_text(env, source@, branches, i as nat, depth);
                    assert(branches[i as int].test == arms@[i as int]@.constraint);
                    self.emit_arm(ctx, *source, i, &arms[i]);
                    proof {
                        vstd::map_lib::lemma_submap_of_trans(
                            old(ctx).classification(),
                            recorded,
                            ctx.classification(),
                        );
                        let this = branch_text(env, source@, i as nat, branches[i as int], depth);
                        assert(branches_text(env, source@, branches, (i + 1) as nat, depth)
                            == done + this);
                        assert((head + done) + this =~= head + (done + this));
                    }
                    i = i + 1;
                }
                let ghost recorded = ctx.classification();
                match default {
                    Some(inner_node) => {
                        self.emit_fallback(ctx, arms.len(), inner_node);
                    },
                    None => {},
                }
                if arms.len() > 0 || default.is_some() {
                    ctx.write("\n");
                }
                proof {
                    vstd::map_lib::lemma_submap_of_trans(
                        old(ctx).classification(),
                        recorded,
                        ctx.classification(),
                    );
                    lemma_dispatch_text(
                        env,
                        block.control,
                        depth,
                        old(ctx).text(),
                        decls_text(env, block.declares, depth),
                        ctx.text(),
                    );
                }
            },
        }
    }

    /// Writes the arm at position `index` of a dispatch on `source`: its
    /// condition and, in a scope that the arm opens and closes, its block.
    pub fn emit_arm(&self, ctx: &mut BodyContext, source: BindingId, index: usize, arm: &Arm)
        requires
            self.ready(*old(ctx)),
            source@ < old(ctx).rules().bindings.len(),
            constraint_well_formed(self.typeenv@, arm@.constraint),
            node_well_formed(self.typeenv@, old(ctx).rules().bindings.len(), arm@.body),
        ensures
            self.advanced(*old(ctx), *final(ctx)),
            final(ctx).text() == old(ctx).text() + branch_text(
                self.env(old(ctx).rules()),
                source@,
                index as nat,
                Branch {
                    test: arm@.constraint,
                    body: plan(old(ctx).rules().bindings, arm@.body, old(ctx).bound()),
                },
                old(ctx).depth(),
            ),
            final(ctx).bound() == old(ctx).bound(),
        decreases arm.body, 1nat,
    {
        let ghost env = self.env(ctx.rules());
        let ghost depth = ctx.depth();
        let ghost body = plan(ctx.rules().bindings, arm@.body, ctx.bound());
        let rules = ctx.ruleset();
        if index == 0 {
            ctx.write_indent();
            ctx.write("if ");
        } else {
            ctx.write(" else if ");
        }
        let ghost opened = ctx.text();
        assert(opened =~= old(ctx).text() + branch_opener_text(index as nat, depth));
        let condition = self.condition(rules, source, &arm.constraint);
        ctx.write(condition.as_str());
        let scope = ctx.enter_scope();
        ctx.begin_block();
        self.emit_block(ctx, &arm.body);
        ctx.end_block_without_newline();
        ctx.leave_scope(scope);
        assert(ctx.text() == opened + condition_text(env, source@, arm@.constraint)
            + block_open_text() + block_text(env, body, depth + 1) + block_close_text(depth + 1));
        assert(ctx.text() =~= old(ctx).text() + branch_text(
            env,
            source@,
            index as nat,
            Branch { test: arm@.constraint, body },
            depth,
        ));
    }

    /// Writes the default of a dispatch with `n_arms` arms, in a scope that
    /// it opens and closes.
    pub fn emit_fallback(&self, ctx: &mut BodyContext, n_arms: usize, node: &Node)
        requires
            self.ready(*old(ctx)),
            node_well_formed(self.typeenv@, old(ctx).rules().bindings.len(), node@),
        ensures
            self.advanced(*old(ctx), *final(ctx)),
            final(ctx).text() == old(ctx).text() + fallback_text(
                self.env(old(ctx).rules()),
                n_arms as nat,
                plan(old(ctx).rules().bindings, node@, old(ctx).bound()),
                old(ctx).depth(),
            ),
            final(ctx).bound() == old(ctx).bound(),
        decreases node, 1nat,
    {
        let ghost env = self.env(ctx.rules());
        let ghost depth = ctx.depth();
        let ghost body = plan(ctx.rules().bindings, node@, ctx.bound());
        if n_arms == 0 {
            ctx.write_indent();
        } else {
            ctx.write(" else");
        }
        let ghost opened = ctx.text();
        assert(opened =~= old(ctx).text() + fallback_opener_text(n_arms as nat, depth));
        let scope = ctx.enter_scope();
        ctx.begin_block();
        self.emit_block(ctx, node);
        ctx.end_block_without_newline();
        ctx.leave_scope(scope);
        assert(ctx.text() == opened + block_open_text() + block_text(env, body, depth + 1)
            + block_close_text(depth + 1));
        assert(ctx.text() =~= old(ctx).text() + fallback_text(env, n_arms as nat, body, depth));
    }
}

/// The text of a block that ends in a dispatch, put together from what is
/// written before the branches, the branches, the fallback and the end of
/// the line.
proof fn lemma_dispatch_text(
    env: EmitEnv,
    control: Control,
    depth: nat,
    before: Seq<char>,
    decls: Seq<char>,
    after: Seq<char>,
)
    requires
        control is Dispatch,
        after == before + decls + branches_text(
            env,
            control->source,
            control->branches,
            control->branches.len(),
            depth,
        ) + (match control->fallback {
            Some(inner) => fallback_text(env, control->branches.len(), *inner, depth),
            None => Seq::empty(),
        }) + line_end_text(control->branches.len() > 0 || control->fallback is Some),
    ensures
        after == before + (decls + control_text(env, control, depth)),
{
    assert(after =~= before + (decls + control_text(env, control, depth)));
}

impl<'a> Emitter<'a> {
    /// The parameters of the term's signature, separated by commas.
    pub fn params(&self) -> (s: String)
        requires
            terms_well_formed(self.typeenv@, self.termenv@),
            self.term@ < self.termenv@.len(),
        ensures
            s@ == params_text(
                self.lang,
                self.typeenv@,
                self.termenv@[self.term@ as int].arg_tys,
                self.termenv@[self.term@ as int].arg_tys.len(),
            ),
    {
        let term = &self.termenv.terms[self.term.0];
        assert(term_well_formed(self.typeenv@, self.termenv@[self.term@ as int]));
        let mut s = String::new();
        let mut i: usize = 0;
        while i < term.arg_tys.len()
            invariant
                i <= term.arg_tys.len(),
                term@ == self.termenv@[self.term@ as int],
                term_well_formed(self.typeenv@, term@),
                s@ == params_text(self.lang, self.typeenv@, term@.arg_tys, i as nat),
            decreases term.arg_tys.len() - i,
        {
            if i > 0 {
                s.append(", ");
            }
            assert(term@.arg_tys[i as int] == term.arg_tys@[i as int]@);
            let ty = name_of_type(self.typeenv, term.arg_tys[i]);
            let param = match self.lang {
                Lang::Rust => rust::param(i, ty),
                Lang::Cxx => cxx::param(i, ty),
            };
            s.append(param.as_str());
            i = i + 1;
            assert(s@ =~= params_text(self.lang, self.typeenv@, term@.arg_tys, i as nat));
        }
        s
    }

    /// Writes what introduces the term's function: a blank line, the
    /// comment, and the signature up to the opening brace.
    pub fn emit_signature(&self, ctx: &mut BodyContext)
        requires
            terms_well_formed(self.typeenv@, self.termenv@),
            self.term@ < self.termenv@.len(),
        ensures
            final(ctx).wrote(
                *old(ctx),
                "\n"@ + doc_text(self.lang, self.termenv@[self.term@ as int].name)
                    + term_signature_text(
                    self.lang,
                    self.typeenv@,
                    self.termenv@[self.term@ as int],
                ),
            ),
    {
        let term = &self.termenv.terms[self.term.0];
        assert(term_well_formed(self.typeenv@, self.termenv@[self.term@ as int]));
        let params = self.params();
        let ret = name_of_type(self.typeenv, term.ret_ty);
        let name = term.name.as_str();
        let (doc, signature) = match self.lang {
            Lang::Rust => (
                rust::doc_line(name),
                rust::signature(name, params.as_str(), ret, term.kind),
            ),
            Lang::Cxx => (
                cxx::doc_line(name),
                cxx::signature(name, params.as_str(), ret, term.kind),
            ),
        };
        ctx.write("\n");
        ctx.write(doc.as_str());
        ctx.write(signature.as_str());
        assert(ctx.text() =~= old(ctx).text() + ("\n"@ + doc_text(self.lang, term@.name)
            + term_signature_text(self.lang, self.typeenv@, term@)));
    }

    /// Writes what follows the trie in the term's function: the failure
    /// path of an extractor, nothing for a constructor.
    pub fn emit_fallthrough(&self, ctx: &mut BodyContext)
        requires
            old(ctx).wf(),
            old(ctx).depth() == 1,
            self.term@ < self.termenv@.len(),
        ensures
            final(ctx).wrote(
                *old(ctx),
                fallthrough_text(self.lang, self.termenv@[self.term@ as int].kind),
            ),
    {
        match self.termenv.terms[self.term.0].kind {
            TermKind::Constructor => {
                assert(ctx.text() =~= old(ctx).text() + Seq::<char>::empty());
            },
            TermKind::Extractor => {
                let stmt = match self.lang {
                    Lang::Rust => rust::fail_stmt(),
                    Lang::Cxx => cxx::fail_stmt(),
                };
                ctx.write_indent();
                ctx.write(stmt.as_str());
                ctx.write("\n");
                assert(ctx.text() =~= old(ctx).text() + fail_line(self.lang, 1));
            },
        }
    }

    /// Writes the term's function: signature, body, what follows the body,
    /// and the closing brace. Blocks and scopes are balanced: the context
    /// ends at the depth and with the scope that it started with.
    pub fn emit_function(&self, ctx: &mut BodyContext)
        requires
            self.ready(*old(ctx)),
            old(ctx).depth() == 0,
        ensures
            self.advanced(*old(ctx), *final(ctx)),
            final(ctx).bound() == old(ctx).bound(),
            final(ctx).text() == old(ctx).text() + function_text(
                self.env(old(ctx).rules()),
                plan(old(ctx).rules().bindings, old(ctx).rules().root, old(ctx).bound()),
            ),
    {
        let ghost env = self.env(ctx.rules());
        let ghost body = plan(ctx.rules().bindings, ctx.rules().root, ctx.bound());
        let rules = ctx.ruleset();
        self.emit_signature(ctx);
        let ghost opened = ctx.text();
        let scope = ctx.enter_scope();
        ctx.begin_block();
        self.emit_block(ctx, &rules.root);
        self.emit_fallthrough(ctx);
        ctx.end_block(scope);
        proof {
            assert(ctx.text() == opened + block_open_text() + block_text(env, body, 1)
                + fallthrough_text(self.lang, env.term.kind) + block_close_text(1) + seq!['\n']);
            reveal_strlit("\n");
            assert("\n"@ =~= seq!['\n']);
            assert(ctx.text() =~= old(ctx).text() + function_text(env, body));
        }
    }

    /// Writes the term's function after `out`, with a context of its own
    /// that starts at depth zero with an empty scope.
    pub fn emit_term(&self, out: String, rules: &RuleSet) -> (code: String)
        requires
            self.wf(rules@),
        ensures
            code@ == out@ + term_text(self.lang, self.typeenv@, self.termenv@, self.term@, rules@),
    {
        let mut ctx = BodyContext::new(out, rules);
        self.emit_function(&mut ctx);
        ctx.into_output()
    }
}

/// Writes the whole module in the language `lang`: the header, one function
/// per unit in the order given, and the footer.
pub fn emit_module(
    lang: Lang,
    typeenv: &TypeEnv,
    termenv: &TermEnv,
    terms: &[(TermId, RuleSet)],
    exclude_pragmas: bool,
) -> (code: String)
    requires
        inputs_well_formed(typeenv@, termenv@, units_view(terms@)),
    ensures
        code@ == module_text(lang, typeenv@, termenv@, units_view(terms@), exclude_pragmas),
{
    let mut code = match lang {
        Lang::Rust => rust::header(exclude_pragmas),
        Lang::Cxx => cxx::header(exclude_pragmas),
    };
    let ghost units = units_view(terms@);
    let ghost header = code@;
    let mut i: usize = 0;
    while i < terms.len()
        invariant
            i <= terms.len(),
            units == units_view(terms@),
            inputs_well_formed(typeenv@, termenv@, units),
            header == header_text(lang, exclude_pragmas),
            code@ == header + units_text(lang, typeenv@, termenv@, units, i as nat),
        decreases terms.len() - i,
    {
        let ghost done = units_text(lang, typeenv@, termenv@, units, i as nat);
        let ghost this = term_text(
            lang,
            typeenv@,
            termenv@,
            terms@[i as int].0@,
            terms@[i as int].1@,
        );
        assert(units[i as int] == (terms@[i as int].0@, terms@[i as int].1@));
        let emitter = Emitter { lang, typeenv, termenv, term: terms[i].0 };
        code = emitter.emit_term(code, &terms[i].1);
        i = i + 1;
        assert(units_text(lang, typeenv@, termenv@, units, i as nat) == done + this);
        assert((header + done) + this =~= header + (done + this));
    }
    let footer = match lang {
        Lang::Rust => rust::footer(),
        Lang::Cxx => cxx::footer(),
    };
    code.append(footer.as_str());
    code
}

} // verus!
