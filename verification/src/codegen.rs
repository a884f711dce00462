//! Emits host-language source for a list of terms and their decision tries.

use crate::codegen::syntax::module_text;
use crate::sema::{terms_well_formed, TermEnv, TermId, TermView, TypeEnv, TypeView};
use crate::stable_set::StableSet;
use crate::text::{indent_text, lemma_indent_text, lemma_indent_text_outer};
use crate::trie::{ruleset_well_formed, BindingId, RuleSet, RuleSetView};
use vstd::prelude::*;
use vstd::string::StrSliceExecFns;
use vstd::string::StringExecFns;

pub mod cxx;
pub mod rust;
pub mod syntax;
pub mod walk;

verus! {

/// Options for code generation.
#[derive(Clone, Debug)]
pub struct CodegenOptions {
    /// Leave out the lines that silence the host compiler's lints for the
    /// whole file. Useful when the text is spliced into another file.
    pub exclude_global_allow_pragmas: bool,
    /// Language to emit.
    pub lang: Lang,
}

/// Emitted language.
#[derive(Copy, Clone, Debug, PartialEq, Eq)]
pub enum Lang {
    /// Rust
    Rust,
    /// C++
    Cxx,
}

impl Default for Lang {
    fn default() -> (lang: Lang)
        ensures
            lang == Lang::Rust,
    {
        Lang::Rust
    }
}

impl Default for CodegenOptions {
    fn default() -> (options: CodegenOptions)
        ensures
            options == (CodegenOptions { exclude_global_allow_pragmas: false, lang: Lang::Rust }),
    {
        CodegenOptions { exclude_global_allow_pragmas: false, lang: Lang::Rust }
    }
}

/// Emits source code for `terms` in the language that `options` selects:
/// one function per term, in the order given. The text is a function of the
/// arguments' contents alone.
pub fn codegen(
    typeenv: &TypeEnv,
    termenv: &TermEnv,
    terms: &[(TermId, RuleSet)],
    options: &CodegenOptions,
) -> (code: String)
    requires
        inputs_well_formed(typeenv@, termenv@, units_view(terms@)),
    ensures
        code@ == module_text(
            options.lang,
            typeenv@,
            termenv@,
            units_view(terms@),
            options.exclude_global_allow_pragmas,
        ),
{
    match options.lang {
        Lang::Rust => rust::Codegen::compile(typeenv, termenv, terms).generate_rust(options),
        Lang::Cxx => cxx::Codegen::compile(typeenv, termenv, terms).generate_cxx(options),
    }
}

/// The terms to emit with their rule sets, as plain values.
pub open spec fn units_view(units: Seq<(TermId, RuleSet)>) -> Seq<(nat, RuleSetView)> {
    Seq::new(units.len(), |i: int| (units[i].0@, units[i].1@))
}

/// The environments are well formed, every unit's term is declared, and
/// every unit's rule set is well formed for its term.
pub open spec fn inputs_well_formed(
    types: Seq<TypeView>,
    terms: Seq<TermView>,
    units: Seq<(nat, RuleSetView)>,
) -> bool {
    &&& terms_well_formed(types, terms)
    &&& forall|i: int|
        0 <= i < units.len() ==> {
            &&& (#[trigger] units[i]).0 < terms.len()
            &&& ruleset_well_formed(types, terms, terms[units[i].0 as int], units[i].1)
        }
}

/// Decides [`inputs_well_formed`].
pub fn check_inputs(typeenv: &TypeEnv, termenv: &TermEnv, terms: &[(TermId, RuleSet)]) -> (ok:
    bool)
    ensures
        ok == inputs_well_formed(typeenv@, termenv@, units_view(terms@)),
{
    if !termenv.is_well_formed(typeenv) {
        return false;
    }
    let mut i: usize = 0;
    while i < terms.len()
        invariant
            i <= terms.len(),
            terms_well_formed(typeenv@, termenv@),
            forall|j: int|
                0 <= j < i ==> {
                    &&& (#[trigger] units_view(terms@)[j]).0 < termenv@.len()
                    &&& ruleset_well_formed(
                        typeenv@,
                        termenv@,
                        termenv@[units_view(terms@)[j].0 as int],
                        units_view(terms@)[j].1,
                    )
                },
        decreases terms.len() - i,
    {
        let term = terms[i].0;
        assert(units_view(terms@)[i as int] == (terms@[i as int].0@, terms@[i as int].1@));
        if term.0 >= termenv.terms.len() {
            return false;
        }
        if !terms[i].1.is_well_formed(typeenv, termenv, &termenv.terms[term.0]) {
            return false;
        }
        i = i + 1;
    }
    true
}

/// The text that opens a block, after the line that introduces it.
pub open spec fn block_open_text() -> Seq<char> {
    seq![' ', '{', '\n']
}

/// The text that closes a block whose inside is nested `depth` levels deep.
pub open spec fn block_close_text(depth: nat) -> Seq<char> {
    indent_text((depth - 1) as nat) + seq!['}']
}

/// The state of one function body while it is being written: the text so
/// far, the nesting depth, the bindings declared in the current scope, and
/// how each binding seen so far is held.
pub struct BodyContext<'a> {
    out: String,
    ruleset: &'a RuleSet,
    indent: String,
    is_ref: StableSet,
    is_value: StableSet,
    is_bound: StableSet,
}

impl<'a> BodyContext<'a> {
    /// The text written so far.
    pub closed spec fn text(&self) -> Seq<char> {
        self.out@
    }

    /// The number of blocks that are open.
    pub closed spec fn depth(&self) -> nat {
        self.indent@.len() / 4
    }

    /// The bindings declared in the current scope.
    pub closed spec fn bound(&self) -> Set<nat> {
        self.is_bound@
    }

    /// The recorded classifications: `true` for a binding held by
    /// reference, `false` for one held by value.
    pub closed spec fn classification(&self) -> Map<nat, bool> {
        Map::new(
            |b: nat| self.is_ref@.contains(b) || self.is_value@.contains(b),
            |b: nat| self.is_ref@.contains(b),
        )
    }

    /// The rule set whose body is being written.
    pub closed spec fn rules(&self) -> RuleSetView {
        self.ruleset@
    }

    /// The indentation matches the depth, and no binding is classified both
    /// ways.
    pub closed spec fn wf(&self) -> bool {
        &&& self.indent@ == indent_text(self.depth())
        &&& self.is_ref@.disjoint(self.is_value@)
    }

    /// Whether `is_ref` can be recorded for `binding`: nothing is recorded
    /// for it yet, or the same.
    pub open spec fn accepts(&self, binding: nat, is_ref: bool) -> bool {
        self.classification().contains_key(binding) ==> self.classification()[binding] == is_ref
    }

    /// Everything but the text is as it was in `before`, and the text is
    /// that of `before` with `added` behind it.
    pub open spec fn wrote(self, before: Self, added: Seq<char>) -> bool {
        &&& self.text() == before.text() + added
        &&& self.wf() == before.wf()
        &&& self.depth() == before.depth()
        &&& self.bound() == before.bound()
        &&& self.classification() == before.classification()
        &&& self.rules() == before.rules()
    }

    /// A context at depth zero with an empty scope, writing after `out`.
    pub fn new(out: String, ruleset: &'a RuleSet) -> (ctx: Self)
        ensures
            ctx.wf(),
            ctx.text() == out@,
            ctx.depth() == 0,
            ctx.bound() == Set::<nat>::empty(),
            ctx.classification() == Map::<nat, bool>::empty(),
            ctx.rules() == ruleset@,
    {
        let ctx = BodyContext {
            out,
            ruleset,
            indent: String::new(),
            is_ref: StableSet::new(),
            is_value: StableSet::new(),
            is_bound: StableSet::new(),
        };
        ctx
    }

    /// Appends `s` to the text.
    pub fn write(&mut self, s: &str)
        ensures
            final(self).wrote(*old(self), s@),
    {
        self.out.append(s);
    }

    /// Appends the indentation of the current depth to the text.
    pub fn write_indent(&mut self)
        requires
            old(self).wf(),
        ensures
            final(self).wrote(*old(self), indent_text(old(self).depth())),
    {
        self.out.append(self.indent.as_str());
    }

    /// Whether `binding` is declared in the current scope.
    pub fn is_bound(&self, binding: BindingId) -> (found: bool)
        ensures
            found == self.bound().contains(binding@),
    {
        self.is_bound.contains(binding)
    }

    /// Adds `binding` to the current scope.
    pub fn bind(&mut self, binding: BindingId)
        ensures
            final(self).bound() == old(self).bound().insert(binding@),
            final(self).wf() == old(self).wf(),
            final(self).text() == old(self).text(),
            final(self).depth() == old(self).depth(),
            final(self).classification() == old(self).classification(),
            final(self).rules() == old(self).rules(),
    {
        self.is_bound.insert(binding);
    }

    /// Puts the scope back to the snapshot `scope`.
    pub fn leave_scope(&mut self, scope: StableSet)
        ensures
            final(self).bound() == scope@,
            final(self).wf() == old(self).wf(),
            final(self).text() == old(self).text(),
            final(self).depth() == old(self).depth(),
            final(self).classification() == old(self).classification(),
            final(self).rules() == old(self).rules(),
    {
        self.is_bound = scope;
    }

    /// The recorded classification of `binding`, if there is one.
    pub fn recorded(&self, binding: BindingId) -> (class: Option<bool>)
        requires
            self.wf(),
        ensures
            class is Some == self.classification().contains_key(binding@),
            class matches Some(is_ref) ==> self.classification()[binding@] == is_ref,
    {
        if self.is_ref.contains(binding) {
            Some(true)
        } else if self.is_value.contains(binding) {
            Some(false)
        } else {
            None
        }
    }

    /// The rule set whose body is being written.
    pub fn ruleset(&self) -> (ruleset: &'a RuleSet)
        ensures
            ruleset@ == self.rules(),
    {
        self.ruleset
    }

    /// Ends the body and hands the text back.
    pub fn into_output(self) -> (out: String)
        ensures
            out@ == self.text(),
    {
        self.out
    }

    /// Takes a snapshot of the current scope, to be handed back when the
    /// block that is about to open is closed.
    pub fn enter_scope(&mut self) -> (scope: StableSet)
        ensures
            scope@ == old(self).bound(),
            final(self).wf() == old(self).wf(),
            final(self).text() == old(self).text(),
            final(self).depth() == old(self).depth(),
            final(self).bound() == old(self).bound(),
            final(self).classification() == old(self).classification(),
            final(self).rules() == old(self).rules(),
    {
        let mut scope = self.is_bound.clone();
        std::mem::swap(&mut self.is_bound, &mut scope);
        scope
    }

    /// Opens a block: ends the current line with an opening brace and
    /// indents what follows by one more level.
    pub fn begin_block(&mut self)
        requires
            old(self).wf(),
        ensures
            final(self).wf(),
            final(self).text() == old(self).text() + block_open_text(),
            final(self).depth() == old(self).depth() + 1,
            final(self).bound() == old(self).bound(),
            final(self).classification() == old(self).classification(),
            final(self).rules() == old(self).rules(),
    {
        proof {
            reveal_strlit("    ");
            reveal_strlit(" {\n");
            lemma_indent_text(self.depth());
            lemma_indent_text(self.depth() + 1);
        }
        self.indent.append("    ");
        self.out.append(" {\n");
        assert(self.indent@ =~= indent_text(old(self).depth() + 1));
    }

    /// Closes the innermost block on a line of its own, and puts the scope
    /// back to `scope`: whatever the block declared is out of scope again.
    pub fn end_block(&mut self, scope: StableSet)
        requires
            old(self).wf(),
            old(self).depth() > 0,
        ensures
            final(self).wf(),
            final(self).text() == old(self).text() + block_close_text(old(self).depth()) + seq![
                '\n',
            ],
            final(self).depth() == old(self).depth() - 1,
            final(self).bound() == scope@,
            final(self).classification() == old(self).classification(),
            final(self).rules() == old(self).rules(),
    {
        self.leave_scope(scope);
        self.end_block_without_newline();
        proof {
            reveal_strlit("\n");
        }
        self.out.append("\n");
    }

    /// Closes the innermost block and stays on the line of the closing
    /// brace, so that the caller can go on writing after it.
    pub fn end_block_without_newline(&mut self)
        requires
            old(self).wf(),
            old(self).depth() > 0,
        ensures
            final(self).wf(),
            final(self).text() == old(self).text() + block_close_text(old(self).depth()),
            final(self).depth() == old(self).depth() - 1,
            final(self).bound() == old(self).bound(),
            final(self).classification() == old(self).classification(),
            final(self).rules() == old(self).rules(),
    {
        proof {
            reveal_strlit("}");
            lemma_indent_text(self.depth());
            lemma_indent_text((self.depth() - 1) as nat);
            lemma_indent_text_outer(self.depth());
        }
        let len = self.indent.as_str().unicode_len();
        let outer = String::from_str(self.indent.as_str().substring_ascii(0, len - 4));
        self.indent = outer;
        self.out.append(self.indent.as_str());
        self.out.append("}");
    }

    /// Records how `binding` is held. The first record for a binding stands
    /// for the rest of the body: a later one has to agree with it, and no
    /// record is ever changed.
    pub fn set_ref(&mut self, binding: BindingId, is_ref: bool)
        requires
            old(self).wf(),
            old(self).accepts(binding@, is_ref),
        ensures
            final(self).wf(),
            final(self).classification() == old(self).classification().insert(binding@, is_ref),
            old(self).classification().submap_of(final(self).classification()),
            final(self).text() == old(self).text(),
            final(self).depth() == old(self).depth(),
            final(self).bound() == old(self).bound(),
            final(self).rules() == old(self).rules(),
    {
        if is_ref {
            self.is_ref.insert(binding);
        } else {
            self.is_value.insert(binding);
        }
    }
}

} // verus!
