//! The Rust backend: Rust's spelling of each piece of a dispatch function.

use crate::codegen::syntax::module_text;
use crate::codegen::walk::emit_module;
use crate::codegen::{inputs_well_formed, units_view, CodegenOptions, Lang};
use crate::sema::{TermEnv, TermId, TermKind, TypeEnv};
use crate::text::{arg_text, push_arg, push_var, var_text};
use crate::trie::RuleSet;
use vstd::prelude::*;
use vstd::string::StringExecFns;

verus! {

/// `&` in front of what is held by reference, nothing otherwise.
pub open spec fn borrow_text(by_ref: bool) -> Seq<char> {
    if by_ref {
        "&"@
    } else {
        Seq::empty()
    }
}

/// A declaration up to its initializer: `let v3: &T = &`.
pub open spec fn decl_head_text(var: nat, ty: Seq<char>, by_ref: bool) -> Seq<char> {
    "let "@ + var_text(var) + ": "@ + borrow_text(by_ref) + ty + " = "@ + borrow_text(by_ref)
}

/// A binding used where an owned value is wanted: a reference is cloned.
pub open spec fn operand_text(var: nat, by_ref: bool) -> Seq<char> {
    var_text(var) + if by_ref {
        ".clone()"@
    } else {
        Seq::empty()
    }
}

/// The condition that the binding `var` is the variant `pattern` (a
/// pattern match) or equals the literal `pattern` (a comparison).
pub open spec fn test_text(var: nat, by_ref: bool, pattern: Seq<char>, is_variant: bool) -> Seq<
    char,
> {
    if is_variant {
        "let "@ + pattern + " = "@ + var_text(var)
    } else {
        (if by_ref {
            "*"@
        } else {
            Seq::empty()
        }) + var_text(var) + " == "@ + pattern
    }
}

/// The statement that returns the binding `var`: wrapped in `Some` where
/// the term is an extractor.
pub open spec fn return_text(var: nat, by_ref: bool, kind: TermKind) -> Seq<char> {
    match kind {
        TermKind::Constructor => "return "@ + operand_text(var, by_ref) + ";"@,
        TermKind::Extractor => "return Some("@ + operand_text(var, by_ref) + ");"@,
    }
}

/// The statement that reports that no rule matched.
pub open spec fn fail_text() -> Seq<char> {
    "return None;"@
}

/// One parameter of a signature: `arg0: T`.
pub open spec fn param_text(index: nat, ty: Seq<char>) -> Seq<char> {
    arg_text(index) + ": "@ + ty
}

/// The result type of a term: optional where the term is an extractor.
pub open spec fn result_type_text(ret: Seq<char>, kind: TermKind) -> Seq<char> {
    match kind {
        TermKind::Constructor => ret,
        TermKind::Extractor => "Option<"@ + ret + ">"@,
    }
}

/// A function signature, without the opening brace.
pub open spec fn signature_text(
    name: Seq<char>,
    params: Seq<char>,
    ret: Seq<char>,
    kind: TermKind,
) -> Seq<char> {
    "pub fn "@ + name + "("@ + params + ") -> "@ + result_type_text(ret, kind)
}

/// The comment line above a term's function.
pub open spec fn doc_text(name: Seq<char>) -> Seq<char> {
    "/// Term `"@ + name + "`.\n"@
}

/// The first lines of a module; the lint pragma is the second of them.
pub open spec fn header_text(exclude_pragmas: bool) -> Seq<char> {
    "// Dispatch functions, one per term.\n"@ + if exclude_pragmas {
        Seq::empty()
    } else {
        "#![allow(dead_code, unreachable_code, unused_variables)]\n"@
    }
}

/// The last lines of a module: Rust needs none.
pub open spec fn footer_text() -> Seq<char> {
    Seq::empty()
}

/// Builds the start of a declaration, up to its initializer.
pub fn decl_head(var: usize, ty: &str, by_ref: bool) -> (s: String)
    ensures
        s@ == decl_head_text(var as nat, ty@, by_ref),
{
    let mut s = String::from_str("let ");
    push_var(&mut s, var);
    s.append(": ");
    if by_ref {
        s.append("&");
    }
    s.append(ty);
    s.append(" = ");
    if by_ref {
        s.append("&");
    }
    s
}

/// Builds the spelling of a binding used as an operand.
pub fn operand(var: usize, by_ref: bool) -> (s: String)
    ensures
        s@ == operand_text(var as nat, by_ref),
{
    let mut s = String::new();
    push_var(&mut s, var);
    if by_ref {
        s.append(".clone()");
    }
    s
}

/// Builds the condition that tests the binding `var` against `pattern`.
pub fn test(var: usize, by_ref: bool, pattern: &str, is_variant: bool) -> (s: String)
    ensures
        s@ == test_text(var as nat, by_ref, pattern@, is_variant),
{
    let mut s = String::new();
    if is_variant {
        s.append("let ");
        s.append(pattern);
        s.append(" = ");
        push_var(&mut s, var);
    } else {
        if by_ref {
            s.append("*");
        }
        push_var(&mut s, var);
        s.append(" == ");
        s.append(pattern);
    }
    s
}

/// Builds the statement that returns the binding `var`.
pub fn return_stmt(var: usize, by_ref: bool, kind: TermKind) -> (s: String)
    ensures
        s@ == return_text(var as nat, by_ref, kind),
{
    let value = operand(var, by_ref);
    let mut s = String::new();
    match kind {
        TermKind::Constructor => {
            s.append("return ");
            s.append(value.as_str());
            s.append(";");
        },
        TermKind::Extractor => {
            s.append("return Some(");
            s.append(value.as_str());
            s.append(");");
        },
    }
    s
}

/// Builds the statement that reports that no rule matched.
pub fn fail_stmt() -> (s: String)
    ensures
        s@ == fail_text(),
{
    String::from_str("return None;")
}

/// Builds one parameter of a signature.
pub fn param(index: usize, ty: &str) -> (s: String)
    ensures
        s@ == param_text(index as nat, ty@),
{
    let mut s = String::new();
    push_arg(&mut s, index);
    s.append(": ");
    s.append(ty);
    s
}

/// Builds a function signature, without the opening brace.
pub fn signature(name: &str, params: &str, ret: &str, kind: TermKind) -> (s: String)
    ensures
        s@ == signature_text(name@, params@, ret@, kind),
{
    let mut s = String::from_str("pub fn ");
    s.append(name);
    s.append("(");
    s.append(params);
    s.append(") -> ");
    match kind {
        TermKind::Constructor => {
            s.append(ret);
        },
        TermKind::Extractor => {
            s.append("Option<");
            s.append(ret);
            s.append(">");
        },
    }
    s
}

/// Builds the comment line above a term's function.
pub fn doc_line(name: &str) -> (s: String)
    ensures
        s@ == doc_text(name@),
{
    let mut s = String::from_str("/// Term `");
    s.append(name);
    s.append("`.\n");
    s
}

/// Builds the first lines of a module.
pub fn header(exclude_pragmas: bool) -> (s: String)
    ensures
        s@ == header_text(exclude_pragmas),
{
    let mut s = String::from_str("// Dispatch functions, one per term.\n");
    if !exclude_pragmas {
        s.append("#![allow(dead_code, unreachable_code, unused_variables)]\n");
    }
    s
}

/// Builds the last lines of a module.
pub fn footer() -> (s: String)
    ensures
        s@ == footer_text(),
{
    String::new()
}

/// The Rust backend, set up for one list of terms.
#[derive(Clone, Debug)]
pub struct Codegen<'a> {
    pub typeenv: &'a TypeEnv,
    pub termenv: &'a TermEnv,
    pub terms: &'a [(TermId, RuleSet)],
}

impl<'a> Codegen<'a> {
    /// What the backend was set up with is well formed.
    pub open spec fn wf(&self) -> bool {
        inputs_well_formed(self.typeenv@, self.termenv@, units_view(self.terms@))
    }

    /// Sets the backend up for `terms`.
    pub fn compile(
        typeenv: &'a TypeEnv,
        termenv: &'a TermEnv,
        terms: &'a [(TermId, RuleSet)],
    ) -> (codegen: Codegen<'a>)
        ensures
            codegen.typeenv == typeenv,
            codegen.termenv == termenv,
            codegen.terms == terms,
    {
        Codegen { typeenv, termenv, terms }
    }

    /// The module in Rust: one function for every term, in the order given.
    /// Of `options` only the lint switch is read.
    pub fn generate_rust(&self, options: &CodegenOptions) -> (code: String)
        requires
            self.wf(),
        ensures
            code@ == module_text(
                Lang::Rust,
                self.typeenv@,
                self.termenv@,
                units_view(self.terms@),
                options.exclude_global_allow_pragmas,
            ),
    {
        emit_module(
            Lang::Rust,
            self.typeenv,
            self.termenv,
            self.terms,
            options.exclude_global_allow_pragmas,
        )
    }
}

} // verus!
