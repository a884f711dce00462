//! The semantic environment: the declared types and terms that dispatch
//! functions are emitted against.

use vstd::prelude::*;

verus! {

/// Identifies a type by its position in the [`TypeEnv`].
#[derive(Clone, Copy, Debug, PartialEq, Eq, Hash)]
pub struct TypeId(pub usize);

/// Identifies a variant by its position in its enumeration.
#[derive(Clone, Copy, Debug, PartialEq, Eq, Hash)]
pub struct VariantId(pub usize);

/// Identifies a term by its position in the [`TermEnv`].
#[derive(Clone, Copy, Debug, PartialEq, Eq, Hash)]
pub struct TermId(pub usize);

impl View for TypeId {
    type V = nat;

    open spec fn view(&self) -> nat {
        self.0 as nat
    }
}

impl View for VariantId {
    type V = nat;

    open spec fn view(&self) -> nat {
        self.0 as nat
    }
}

impl View for TermId {
    type V = nat;

    open spec fn view(&self) -> nat {
        self.0 as nat
    }
}

/// A declared type: a primitive scalar or a sum of variants.
#[derive(Debug)]
pub enum Type {
    /// A scalar that the host language passes by value.
    Primitive { name: String },
    /// An enumeration; its variants are named tags.
    Enum { name: String, variants: Vec<String> },
}

/// What a [`Type`] says, as plain values.
pub enum TypeView {
    Primitive { name: Seq<char> },
    Enum { name: Seq<char>, variants: Seq<Seq<char>> },
}

impl TypeView {
    /// The host-language name of the type.
    pub open spec fn name(self) -> Seq<char> {
        match self {
            TypeView::Primitive { name } => name,
            TypeView::Enum { name, .. } => name,
        }
    }
}

/// The texts of a list of strings.
pub open spec fn string_views(names: Seq<String>) -> Seq<Seq<char>> {
    Seq::new(names.len(), |i: int| names[i]@)
}

impl View for Type {
    type V = TypeView;

    open spec fn view(&self) -> TypeView {
        match self {
            Type::Primitive { name } => TypeView::Primitive { name: name@ },
            Type::Enum { name, variants } => TypeView::Enum {
                name: name@,
                variants: string_views(variants@),
            },
        }
    }
}

/// The declared types, indexed by [`TypeId`].
#[derive(Debug)]
pub struct TypeEnv {
    pub types: Vec<Type>,
}

impl View for TypeEnv {
    type V = Seq<TypeView>;

    open spec fn view(&self) -> Seq<TypeView> {
        Seq::new(self.types@.len(), |i: int| self.types@[i]@)
    }
}

/// Whether a term always produces a value or may fail to match.
#[derive(Clone, Copy, Debug, PartialEq, Eq)]
pub enum TermKind {
    /// Total: every input yields a value.
    Constructor,
    /// Partial: the result is optional.
    Extractor,
}

/// A named operation with a typed signature.
#[derive(Debug)]
pub struct Term {
    pub name: String,
    pub arg_tys: Vec<TypeId>,
    pub ret_ty: TypeId,
    pub kind: TermKind,
}

/// What a [`Term`] says, as plain values.
pub struct TermView {
    pub name: Seq<char>,
    pub arg_tys: Seq<nat>,
    pub ret_ty: nat,
    pub kind: TermKind,
}

/// The positions that a list of type ids names.
pub open spec fn type_id_views(ids: Seq<TypeId>) -> Seq<nat> {
    Seq::new(ids.len(), |i: int| ids[i]@)
}

impl View for Term {
    type V = TermView;

    open spec fn view(&self) -> TermView {
        TermView {
            name: self.name@,
            arg_tys: type_id_views(self.arg_tys@),
            ret_ty: self.ret_ty@,
            kind: self.kind,
        }
    }
}

/// The declared terms, indexed by [`TermId`].
#[derive(Debug)]
pub struct TermEnv {
    pub terms: Vec<Term>,
}

impl View for TermEnv {
    type V = Seq<TermView>;

    open spec fn view(&self) -> Seq<TermView> {
        Seq::new(self.terms@.len(), |i: int| self.terms@[i]@)
    }
}

/// A term's signature names declared types only.
pub open spec fn term_well_formed(types: Seq<TypeView>, term: TermView) -> bool {
    &&& term.ret_ty < types.len()
    &&& forall|i: int| 0 <= i < term.arg_tys.len() ==> #[trigger] term.arg_tys[i] < types.len()
}

/// Every term's signature names declared types only.
pub open spec fn terms_well_formed(types: Seq<TypeView>, terms: Seq<TermView>) -> bool {
    forall|t: int| 0 <= t < terms.len() ==> term_well_formed(types, #[trigger] terms[t])
}

impl Term {
    /// Decides [`term_well_formed`] for a type environment of `n_types` types.
    pub fn is_well_formed(&self, n_types: usize) -> (ok: bool)
        ensures
            ok == (self@.ret_ty < n_types && forall|i: int|
                0 <= i < self@.arg_tys.len() ==> #[trigger] self@.arg_tys[i] < n_types),
    {
        if self.ret_ty.0 >= n_types {
            return false;
        }
        let mut i: usize = 0;
        while i < self.arg_tys.len()
            invariant
                i <= self.arg_tys.len(),
                forall|j: int| 0 <= j < i ==> #[trigger] self@.arg_tys[j] < n_types,
            decreases self.arg_tys.len() - i,
        {
            if self.arg_tys[i].0 >= n_types {
                assert(!(self@.arg_tys[i as int] < n_types));
                return false;
            }
            i = i + 1;
        }
        true
    }
}

impl TermEnv {
    /// Decides [`terms_well_formed`] against `typeenv`.
    pub fn is_well_formed(&self, typeenv: &TypeEnv) -> (ok: bool)
        ensures
            ok == terms_well_formed(typeenv@, self@),
    {
        let n_types = typeenv.types.len();
        let mut t: usize = 0;
        while t < self.terms.len()
            invariant
                t <= self.terms.len(),
                n_types == typeenv@.len(),
                forall|j: int| 0 <= j < t ==> term_well_formed(typeenv@, #[trigger] self@[j]),
            decreases self.terms.len() - t,
        {
            if !self.terms[t].is_well_formed(n_types) {
                assert(!term_well_formed(typeenv@, self@[t as int]));
                return false;
            }
            t = t + 1;
        }
        true
    }
}

} // verus!
