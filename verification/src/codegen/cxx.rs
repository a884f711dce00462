//! The C++ backend: C++'s spelling of each piece of a dispatch function.

use crate::codegen::syntax::module_text;
use crate::codegen::walk::emit_module;
use crate::codegen::{inputs_well_formed, units_view, CodegenOptions, Lang};
use crate::sema::{TermEnv, TermId, TermKind, TypeEnv};
use crate::text::{arg_text, push_arg, push_var, var_text};
use crate::trie::RuleSet;
use vstd::prelude::*;
use vstd::string::StringExecFns;

verus! {

/// A declaration up to its initializer: `const T& v3 = `.
pub open spec fn decl_head_text(var: nat, ty: Seq<char>, by_ref: bool) -> Seq<char> {
    "const "@ + ty + (if by_ref {
        "&"@
    } else {
        Seq::empty()
    }) + " "@ + var_text(var) + " = "@
}

/// A binding used where a value is wanted: the variable itself, which C++
/// copies.
pub open spec fn operand_text(var: nat, by_ref: bool) -> Seq<char> {
    var_text(var)
}

/// The condition that the binding `var` equals `pattern`, an enumerator or
/// a literal.
pub open spec fn test_text(var: nat, by_ref: bool, pattern: Seq<char>, is_variant: bool) -> Seq<
    char,
> {
    "("@ + var_text(var) + " == "@ + pattern + ")"@
}

/// The statement that returns the binding `var`: wrapped in an optional
/// where the term is an extractor.
pub open spec fn return_text(var: nat, by_ref: bool, kind: TermKind) -> Seq<char> {
    match kind {
        TermKind::Constructor => "return "@ + operand_text(var, by_ref) + ";"@,
        TermKind::Extractor => "return std::make_optional("@ + operand_text(var, by_ref) + ");"@,
    }
}

/// The statement that reports that no rule matched.
pub open spec fn fail_text() -> Seq<char> {
    "return std::nullopt;"@
}

/// One parameter of a signature: `T arg0`.
pub open spec fn param_text(index: nat, ty: Seq<char>) -> Seq<char> {
    ty + " "@ + arg_text(index)
}

/// The result type of a term: optional where the term is an extractor.
pub open spec fn result_type_text(ret: Seq<char>, kind: TermKind) -> Seq<char> {
    match kind {
        TermKind::Constructor => ret,
        TermKind::Extractor => "std::optional<"@ + ret + ">"@,
    }
}

/// A function signature, without the opening brace.
pub open spec fn signature_text(
    name: Seq<char>,
    params: Seq<char>,
    ret: Seq<char>,
    kind: TermKind,
) -> Seq<char> {
    result_type_text(ret, kind) + " "@ + name + "("@ + params + ")"@
}

/// The comment line above a term's function.
pub open spec fn doc_text(name: Seq<char>) -> Seq<char> {
    "// Term `"@ + name + "`.\n"@
}

/// The first lines of a module, down to the opening of its namespace; the
/// lint pragma is the second of them.
pub open spec fn header_text(exclude_pragmas: bool) -> Seq<char> {
    "// Dispatch functions, one per term.\n"@ + (if exclude_pragmas {
        Seq::empty()
    } else {
        "#pragma GCC diagnostic ignored \"-Wunused-variable\"\n"@
    }) + "namespace isle {\n"@
}

/// The last lines of a module: the end of its namespace.
pub open spec fn footer_text() -> Seq<char> {
    "\n}  // namespace isle\n"@
}

/// Builds the start of a declaration, up to its initializer.
pub fn decl_head(var: usize, ty: &str, by_ref: bool) -> (s: String)
    ensures
        s@ == decl_head_text(var as nat, ty@, by_ref),
{
    let mut s = String::from_str("const ");
    s.append(ty);
    if by_ref {
        s.append("&");
    }
    s.append(" ");
    push_var(&mut s, var);
    s.append(" = ");
    s
}

/// Builds the spelling of a binding used as an operand.
pub fn operand(var: usize, by_ref: bool) -> (s: String)
    ensures
        s@ == operand_text(var as nat, by_ref),
{
    let mut s = String::new();
    push_var(&mut s, var);
    s
}

/// Builds the condition that tests the binding `var` against `pattern`.
pub fn test(var: usize, by_ref: bool, pattern: &str, is_variant: bool) -> (s: String)
    ensures
        s@ == test_text(var as nat, by_ref, pattern@, is_variant),
{
    let mut s = String::from_str("(");
    push_var(&mut s, var);
    s.append(" == ");
    s.append(pattern);
    s.append(")");
    s
}

/// Builds the statement that returns the binding `var`.
pub fn return_stmt(var: usize, by_ref: bool, kind: TermKind) -> (s: String)
    ensures
        s@ == return_text(var as nat, by_ref, kind),
{
    let value = operand(var, by_ref);
    let mut s = String::new();
    match kind {
        TermKind::Constructor => {
            s.append("return ");
            s.append(value.as_str());
            s.append(";");
        },
        TermKind::Extractor => {
            s.append("return std::make_optional(");
            s.append(value.as_str());
            s.append(");");
        },
    }
    s
}

/// Builds the statement that reports that no rule matched.
pub fn fail_stmt() -> (s: String)
    ensures
        s@ == fail_text(),
{
    String::from_str("return std::nullopt;")
}

/// Builds one parameter of a signature.
pub fn param(index: usize, ty: &str) -> (s: String)
    ensures
        s@ == param_text(index as nat, ty@),
{
    let mut s = String::from_str(ty);
    s.append(" ");
    push_arg(&mut s, index);
    s
}

/// Builds a function signature, without the opening brace.
pub fn signature(name: &str, params: &str, ret: &str, kind: TermKind) -> (s: String)
    ensures
        s@ == signature_text(name@, params@, ret@, kind),
{
    let mut s = String::new();
    match kind {
        TermKind::Constructor => {
            s.append(ret);
        },
        TermKind::Extractor => {
            s.append("std::optional<");
            s.append(ret);
            s.append(">");
        },
    }
    s.append(" ");
    s.append(name);
    s.append("(");
    s.append(params);
    s.append(")");
    s
}

/// Builds the comment line above a term's function.
pub fn doc_line(name: &str) -> (s: String)
    ensures
        s@ == doc_text(name@),
{
    let mut s = String::from_str("// Term `");
    s.append(name);
    s.append("`.\n");
    s
}

/// Builds the first lines of a module.
pub fn header(exclude_pragmas: bool) -> (s: String)
    ensures
        s@ == header_text(exclude_pragmas),
{
    let mut s = String::from_str("// Dispatch functions, one per term.\n");
    if !exclude_pragmas {
        s.append("#pragma GCC diagnostic ignored \"-Wunused-variable\"\n");
    }
    s.append("namespace isle {\n");
    s
}

/// Builds the last lines of a module.
pub fn footer() -> (s: String)
    ensures
        s@ == footer_text(),
{
    String::from_str("\n}  // namespace isle\n")
}

/// The C++ backend, set up for one list of terms.
#[derive(Clone, Debug)]
pub struct Codegen<'a> {
    pub typeenv: &'a TypeEnv,
    pub termenv: &'a TermEnv,
    pub terms: &'a [(TermId, RuleSet)],
}

impl<'a> Codegen<'a> {
    /// What the backend was set up with is well formed.
    pub open spec fn wf(&self) -> bool {
        inputs_well_formed(self.typeenv@, self.termenv@, units_view(self.terms@))
    }

    /// Sets the backend up for `terms`.
    pub fn compile(
        typeenv: &'a TypeEnv,
        termenv: &'a TermEnv,
        terms: &'a [(TermId, RuleSet)],
    ) -> (codegen: Codegen<'a>)
        ensures
            codegen.typeenv == typeenv,
            codegen.termenv == termenv,
            codegen.terms == terms,
    {
        Codegen { typeenv, termenv, terms }
    }

    /// The module in C++: one function for every term, in the order given.
    /// Of `options` only the lint switch is read.
    pub fn generate_cxx(&self, options: &CodegenOptions) -> (code: String)
        requires
            self.wf(),
        ensures
            code@ == module_text(
                Lang::Cxx,
                self.typeenv@,
                self.termenv@,
                units_view(self.terms@),
                options.exclude_global_allow_pragmas,
            ),
    {
        emit_module(
            Lang::Cxx,
            self.typeenv,
            self.termenv,
            self.terms,
            options.exclude_global_allow_pragmas,
        )
    }
}

} // verus!
