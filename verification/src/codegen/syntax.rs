//! The text of a dispatch function, piece by piece: what both backends
//! share, over the spellings that each backend provides.

use crate::codegen::cxx;
use crate::codegen::rust;
use crate::codegen::{block_close_text, block_open_text, Lang};
use crate::plan::{plan, Block, Branch, Control};
use crate::sema::{TermKind, TermView, TypeView};
use crate::text::{arg_text, indent_text, signed_decimal};
use crate::trie::{variant_exists, BindingView, ConstraintView, RuleSetView};
use vstd::prelude::*;

verus! {

/// Everything that the text of one term's body depends on, besides the
/// body's plan.
pub struct EmitEnv {
    pub lang: Lang,
    pub types: Seq<TypeView>,
    pub terms: Seq<TermView>,
    pub term: TermView,
    pub bindings: Seq<BindingView>,
}

/// The name of the type `ty`; empty if there is no such type.
pub open spec fn type_name_text(types: Seq<TypeView>, ty: nat) -> Seq<char> {
    if ty < types.len() {
        types[ty as int].name()
    } else {
        Seq::empty()
    }
}

/// The name of the variant `variant` of `ty`; empty if there is none.
pub open spec fn variant_name_text(types: Seq<TypeView>, ty: nat, variant: nat) -> Seq<char> {
    if variant_exists(types, ty, variant) {
        types[ty as int]->variants[variant as int]
    } else {
        Seq::empty()
    }
}

/// The qualified name of a variant: `Type::Variant`.
pub open spec fn variant_path_text(types: Seq<TypeView>, ty: nat, variant: nat) -> Seq<char> {
    type_name_text(types, ty) + "::"@ + variant_name_text(types, ty, variant)
}

/// The type of the value that `binding` computes.
pub open spec fn binding_type(env: EmitEnv, binding: nat) -> nat {
    match env.bindings[binding as int] {
        BindingView::Argument { index } => env.term.arg_tys[index as int],
        BindingView::ConstInt { ty, .. } => ty,
        BindingView::Add { ty, .. } => ty,
        BindingView::Call { term, .. } => env.terms[term as int].ret_ty,
        BindingView::MakeVariant { ty, .. } => ty,
    }
}

/// How `binding` is held: by reference if its type is an enumeration, by
/// value if it is a primitive. This is a function of the binding alone, so
/// one binding is never held both ways.
pub open spec fn is_by_ref(env: EmitEnv, binding: nat) -> bool {
    let ty = binding_type(env, binding);
    ty < env.types.len() && env.types[ty as int] is Enum
}

/// A declaration up to its initializer, as `lang` spells it.
pub open spec fn decl_head_text(lang: Lang, var: nat, ty: Seq<char>, by_ref: bool) -> Seq<char> {
    match lang {
        Lang::Rust => rust::decl_head_text(var, ty, by_ref),
        Lang::Cxx => cxx::decl_head_text(var, ty, by_ref),
    }
}

/// A binding used as an operand, as `lang` spells it.
pub open spec fn operand_text(lang: Lang, var: nat, by_ref: bool) -> Seq<char> {
    match lang {
        Lang::Rust => rust::operand_text(var, by_ref),
        Lang::Cxx => cxx::operand_text(var, by_ref),
    }
}

/// The test of a binding against a pattern, as `lang` spells it.
pub open spec fn test_text(
    lang: Lang,
    var: nat,
    by_ref: bool,
    pattern: Seq<char>,
    is_variant: bool,
) -> Seq<char> {
    match lang {
        Lang::Rust => rust::test_text(var, by_ref, pattern, is_variant),
        Lang::Cxx => cxx::test_text(var, by_ref, pattern, is_variant),
    }
}

/// The statement that returns a binding, as `lang` spells it.
pub open spec fn return_text(lang: Lang, var: nat, by_ref: bool, kind: TermKind) -> Seq<char> {
    match lang {
        Lang::Rust => rust::return_text(var, by_ref, kind),
        Lang::Cxx => cxx::return_text(var, by_ref, kind),
    }
}

/// The statement that reports that no rule matched, as `lang` spells it.
pub open spec fn fail_text(lang: Lang) -> Seq<char> {
    match lang {
        Lang::Rust => rust::fail_text(),
        Lang::Cxx => cxx::fail_text(),
    }
}

/// One parameter of a signature, as `lang` spells it.
pub open spec fn param_text(lang: Lang, index: nat, ty: Seq<char>) -> Seq<char> {
    match lang {
        Lang::Rust => rust::param_text(index, ty),
        Lang::Cxx => cxx::param_text(index, ty),
    }
}

/// A function signature without the opening brace, as `lang` spells it.
pub open spec fn signature_text(
    lang: Lang,
    name: Seq<char>,
    params: Seq<char>,
    ret: Seq<char>,
    kind: TermKind,
) -> Seq<char> {
    match lang {
        Lang::Rust => rust::signature_text(name, params, ret, kind),
        Lang::Cxx => cxx::signature_text(name, params, ret, kind),
    }
}

/// The comment line above a term's function, as `lang` spells it.
pub open spec fn doc_text(lang: Lang, name: Seq<char>) -> Seq<char> {
    match lang {
        Lang::Rust => rust::doc_text(name),
        Lang::Cxx => cxx::doc_text(name),
    }
}

/// The first lines of a module, as `lang` spells them.
pub open spec fn header_text(lang: Lang, exclude_pragmas: bool) -> Seq<char> {
    match lang {
        Lang::Rust => rust::header_text(exclude_pragmas),
        Lang::Cxx => cxx::header_text(exclude_pragmas),
    }
}

/// The last lines of a module, as `lang` spells them.
pub open spec fn footer_text(lang: Lang) -> Seq<char> {
    match lang {
        Lang::Rust => rust::footer_text(),
        Lang::Cxx => cxx::footer_text(),
    }
}

/// The separator in front of the item at position `index` of a list.
pub open spec fn separator_text(index: nat) -> Seq<char> {
    if index == 0 {
        Seq::empty()
    } else {
        ", "@
    }
}

/// The binding `var` as an operand.
pub open spec fn operand_of(env: EmitEnv, var: nat) -> Seq<char> {
    operand_text(env.lang, var, is_by_ref(env, var))
}

/// The first `upto` of `args` as operands, separated by commas.
pub open spec fn operands_text(env: EmitEnv, args: Seq<nat>, upto: nat) -> Seq<char>
    decreases upto,
{
    if upto == 0 {
        Seq::empty()
    } else {
        let at = (upto - 1) as nat;
        operands_text(env, args, at) + separator_text(at) + operand_of(env, args[at as int])
    }
}

/// The expression that computes `binding` from the bindings it names.
pub open spec fn expr_text(env: EmitEnv, binding: nat) -> Seq<char> {
    match env.bindings[binding as int] {
        BindingView::Argument { index } => arg_text(index),
        BindingView::ConstInt { val, .. } => signed_decimal(val),
        BindingView::Add { lhs, rhs, .. } => operand_of(env, lhs) + " + "@ + operand_of(env, rhs),
        BindingView::Call { term, args } => env.terms[term as int].name + "("@ + operands_text(
            env,
            args,
            args.len(),
        ) + ")"@,
        BindingView::MakeVariant { ty, variant } => variant_path_text(env.types, ty, variant),
    }
}

/// The line that declares `binding`, nested `depth` levels deep.
pub open spec fn decl_line(env: EmitEnv, binding: nat, depth: nat) -> Seq<char> {
    indent_text(depth) + decl_head_text(
        env.lang,
        binding,
        type_name_text(env.types, binding_type(env, binding)),
        is_by_ref(env, binding),
    ) + expr_text(env, binding) + ";\n"@
}

/// The lines that declare `declares`, one after the other.
pub open spec fn decls_text(env: EmitEnv, declares: Seq<nat>, depth: nat) -> Seq<char>
    decreases declares.len(),
{
    if declares.len() == 0 {
        Seq::empty()
    } else {
        decls_text(env, declares.drop_last(), depth) + decl_line(env, declares.last(), depth)
    }
}

/// What a constraint compares against: a variant's path or a literal.
pub open spec fn pattern_text(env: EmitEnv, constraint: ConstraintView) -> Seq<char> {
    match constraint {
        ConstraintView::Variant { ty, variant } => variant_path_text(env.types, ty, variant),
        ConstraintView::ConstInt { val } => signed_decimal(val),
    }
}

/// The condition under which `constraint` holds of `source`.
pub open spec fn condition_text(env: EmitEnv, source: nat, constraint: ConstraintView) -> Seq<
    char,
> {
    test_text(
        env.lang,
        source,
        is_by_ref(env, source),
        pattern_text(env, constraint),
        constraint is Variant,
    )
}

/// The line that returns `var`.
pub open spec fn return_line(env: EmitEnv, var: nat, depth: nat) -> Seq<char> {
    indent_text(depth) + return_text(env.lang, var, is_by_ref(env, var), env.term.kind) + "\n"@
}

/// The line that reports that no rule matched.
pub open spec fn fail_line(lang: Lang, depth: nat) -> Seq<char> {
    indent_text(depth) + fail_text(lang) + "\n"@
}

/// What introduces the branch at position `index` of a dispatch: the first
/// one starts a line, the others follow the brace that closed the branch
/// before them.
pub open spec fn branch_opener_text(index: nat, depth: nat) -> Seq<char> {
    if index == 0 {
        indent_text(depth) + "if "@
    } else {
        " else if "@
    }
}

/// What introduces the fallback of a dispatch with `n_branches` branches.
pub open spec fn fallback_opener_text(n_branches: nat, depth: nat) -> Seq<char> {
    if n_branches == 0 {
        indent_text(depth)
    } else {
        " else"@
    }
}

/// The text of a block: its declarations, then its control step.
pub open spec fn block_text(env: EmitEnv, block: Block, depth: nat) -> Seq<char>
    decreases block, 0nat,
{
    decls_text(env, block.declares, depth) + control_text(env, block.control, depth)
}

/// The text of a control step. A dispatch is one chain of conditionals, in
/// the order of its branches, with the fallback last.
pub open spec fn control_text(env: EmitEnv, control: Control, depth: nat) -> Seq<char>
    decreases control, 0nat,
{
    match control {
        Control::Return { var } => return_line(env, var, depth),
        Control::Dispatch { source, branches, fallback } => branches_text(
            env,
            source,
            branches,
            branches.len(),
            depth,
        ) + (match fallback {
            Some(inner) => fallback_text(env, branches.len(), *inner, depth),
            None => Seq::empty(),
        }) + line_end_text(branches.len() > 0 || fallback is Some),
    }
}

/// The text of the fallback of a dispatch with `n_branches` branches.
pub open spec fn fallback_text(env: EmitEnv, n_branches: nat, body: Block, depth: nat) -> Seq<char>
    decreases body, 1nat,
{
    fallback_opener_text(n_branches, depth) + block_open_text() + block_text(env, body, depth + 1)
        + block_close_text(depth + 1)
}

/// The end of the line after a dispatch, if the dispatch wrote anything.
pub open spec fn line_end_text(wrote: bool) -> Seq<char> {
    if wrote {
        "\n"@
    } else {
        Seq::empty()
    }
}

/// The text of the first `upto` branches of a dispatch on `source`.
pub open spec fn branches_text(
    env: EmitEnv,
    source: nat,
    branches: Seq<Branch>,
    upto: nat,
    depth: nat,
) -> Seq<char>
    decreases branches, upto,
{
    if upto == 0 || upto > branches.len() {
        Seq::empty()
    } else {
        let at = (upto - 1) as nat;
        branches_text(env, source, branches, at, depth) + branch_text(
            env,
            source,
            at,
            branches[at as int],
            depth,
        )
    }
}

/// The text of the branch at position `index`: its condition and its block.
pub open spec fn branch_text(
    env: EmitEnv,
    source: nat,
    index: nat,
    branch: Branch,
    depth: nat,
) -> Seq<char>
    decreases branch, 0nat,
{
    branch_opener_text(index, depth) + condition_text(env, source, branch.test) + block_open_text()
        + block_text(env, branch.body, depth + 1) + block_close_text(depth + 1)
}

/// The first `upto` parameters of a signature, separated by commas.
pub open spec fn params_text(lang: Lang, types: Seq<TypeView>, arg_tys: Seq<nat>, upto: nat) -> Seq<
    char,
>
    decreases upto,
{
    if upto == 0 {
        Seq::empty()
    } else {
        let at = (upto - 1) as nat;
        params_text(lang, types, arg_tys, at) + separator_text(at) + param_text(
            lang,
            at,
            type_name_text(types, arg_tys[at as int]),
        )
    }
}

/// The environment in which the body of the term `term` is written.
pub open spec fn env_of(
    lang: Lang,
    types: Seq<TypeView>,
    terms: Seq<TermView>,
    term: nat,
    rules: RuleSetView,
) -> EmitEnv {
    EmitEnv { lang, types, terms, term: terms[term as int], bindings: rules.bindings }
}

/// The line that opens the function of the term `term`, without the brace.
pub open spec fn term_signature_text(lang: Lang, types: Seq<TypeView>, term: TermView) -> Seq<
    char,
> {
    signature_text(
        lang,
        term.name,
        params_text(lang, types, term.arg_tys, term.arg_tys.len()),
        type_name_text(types, term.ret_ty),
        term.kind,
    )
}

/// What follows the trie's text in a term's function: the failure path of an
/// extractor, nothing for a constructor.
pub open spec fn fallthrough_text(lang: Lang, kind: TermKind) -> Seq<char> {
    match kind {
        TermKind::Constructor => Seq::empty(),
        TermKind::Extractor => fail_line(lang, 1),
    }
}

/// The function whose body is `body`, written in the environment `env`: a
/// blank line, a comment, the signature, the body one level deep, what
/// follows the body, and the closing brace.
pub open spec fn function_text(env: EmitEnv, body: Block) -> Seq<char> {
    "\n"@ + doc_text(env.lang, env.term.name) + term_signature_text(env.lang, env.types, env.term)
        + block_open_text() + block_text(env, body, 1) + fallthrough_text(env.lang, env.term.kind)
        + block_close_text(1) + "\n"@
}

/// The function emitted for the term `term` with the rules `rules`: the
/// body is the one that [`plan`] lays out from an empty scope.
pub open spec fn term_text(
    lang: Lang,
    types: Seq<TypeView>,
    terms: Seq<TermView>,
    term: nat,
    rules: RuleSetView,
) -> Seq<char> {
    function_text(
        env_of(lang, types, terms, term, rules),
        plan(rules.bindings, rules.root, Set::empty()),
    )
}

/// The functions of the first `upto` of `units`, in order.
pub open spec fn units_text(
    lang: Lang,
    types: Seq<TypeView>,
    terms: Seq<TermView>,
    units: Seq<(nat, RuleSetView)>,
    upto: nat,
) -> Seq<char>
    decreases upto,
{
    if upto == 0 {
        Seq::empty()
    } else {
        let at = (upto - 1) as nat;
        units_text(lang, types, terms, units, at) + term_text(
            lang,
            types,
            terms,
            units[at as int].0,
            units[at as int].1,
        )
    }
}

/// The whole module: header, one function per unit, footer.
pub open spec fn module_text(
    lang: Lang,
    types: Seq<TypeView>,
    terms: Seq<TermView>,
    units: Seq<(nat, RuleSetView)>,
    exclude_pragmas: bool,
) -> Seq<char> {
    header_text(lang, exclude_pragmas) + units_text(lang, types, terms, units, units.len())
        + footer_text(lang)
}

} // verus!
