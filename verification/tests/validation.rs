use isle_codegen::codegen::check_inputs;
use isle_codegen::sema::{Term, TermEnv, TermId, TermKind, Type, TypeEnv, TypeId, VariantId};
use isle_codegen::trie::{has_variant, Arm, Binding, BindingId, Constraint, Node, RuleSet};

fn typeenv() -> TypeEnv {
    TypeEnv {
        types: vec![
            Type::Primitive { name: "u32".to_string() },
            Type::Enum { name: "Tag".to_string(), variants: vec!["A".to_string(), "B".to_string()] },
        ],
    }
}

fn term(arg_tys: Vec<TypeId>, ret_ty: TypeId) -> Term {
    Term { name: "t".to_string(), arg_tys, ret_ty, kind: TermKind::Extractor }
}

fn termenv() -> TermEnv {
    TermEnv { terms: vec![term(vec![TypeId(0), TypeId(1)], TypeId(0))] }
}

fn accepts(bindings: Vec<Binding>, root: Node) -> bool {
    let typeenv = typeenv();
    let termenv = termenv();
    let rules = RuleSet { bindings, root };
    let direct = rules.is_well_formed(&typeenv, &termenv, &termenv.terms[0]);
    let through = check_inputs(&typeenv, &termenv, &[(TermId(0), rules)]);
    assert_eq!(direct, through);
    direct
}

fn leaf(result: usize) -> Node {
    Node::Leaf { result: BindingId(result) }
}

#[test]
fn variants_are_looked_up_in_enumerations() {
    let typeenv = typeenv();
    assert!(has_variant(&typeenv, TypeId(1), VariantId(0)));
    assert!(has_variant(&typeenv, TypeId(1), VariantId(1)));
    assert!(!has_variant(&typeenv, TypeId(1), VariantId(2)));
    assert!(!has_variant(&typeenv, TypeId(0), VariantId(0)));
    assert!(!has_variant(&typeenv, TypeId(2), VariantId(0)));
}

#[test]
fn term_signatures_must_name_declared_types() {
    let typeenv = typeenv();
    assert!(termenv().is_well_formed(&typeenv));
    assert!(TermEnv { terms: vec![] }.is_well_formed(&typeenv));
    assert!(!TermEnv { terms: vec![term(vec![], TypeId(2))] }.is_well_formed(&typeenv));
    assert!(!TermEnv { terms: vec![term(vec![TypeId(0), TypeId(2)], TypeId(0))] }.is_well_formed(&typeenv));
    assert!(term(vec![TypeId(1)], TypeId(1)).is_well_formed(2));
    assert!(!term(vec![TypeId(1)], TypeId(1)).is_well_formed(1));
    let bad = TermEnv { terms: vec![term(vec![], TypeId(0)), term(vec![], TypeId(9))] };
    let rules = RuleSet { bindings: vec![Binding::ConstInt { val: 0, ty: TypeId(0) }], root: leaf(0) };
    assert!(!check_inputs(&typeenv, &bad, &[(TermId(0), rules)]));
}

#[test]
fn units_must_name_declared_terms() {
    let typeenv = typeenv();
    let termenv = termenv();
    let rules = || RuleSet { bindings: vec![Binding::Argument { index: 1 }], root: leaf(0) };
    assert!(check_inputs(&typeenv, &termenv, &[]));
    assert!(check_inputs(&typeenv, &termenv, &[(TermId(0), rules()), (TermId(0), rules())]));
    assert!(!check_inputs(&typeenv, &termenv, &[(TermId(0), rules()), (TermId(1), rules())]));
}

#[test]
fn bindings_are_checked_one_by_one() {
    assert!(accepts(vec![Binding::Argument { index: 1 }], leaf(0)));
    assert!(!accepts(vec![Binding::Argument { index: 2 }], leaf(0)));
    assert!(accepts(vec![Binding::ConstInt { val: -3, ty: TypeId(1) }], leaf(0)));
    assert!(!accepts(vec![Binding::ConstInt { val: -3, ty: TypeId(2) }], leaf(0)));
    assert!(accepts(vec![Binding::MakeVariant { ty: TypeId(1), variant: VariantId(1) }], leaf(0)));
    assert!(!accepts(vec![Binding::MakeVariant { ty: TypeId(1), variant: VariantId(2) }], leaf(0)));
    assert!(!accepts(vec![Binding::MakeVariant { ty: TypeId(0), variant: VariantId(0) }], leaf(0)));
}

#[test]
fn operands_must_come_before_their_use() {
    let arg = || Binding::Argument { index: 0 };
    let add = |lhs, rhs| Binding::Add { ty: TypeId(0), lhs: BindingId(lhs), rhs: BindingId(rhs) };
    assert!(accepts(vec![arg(), arg(), add(0, 1)], leaf(2)));
    assert!(accepts(vec![arg(), add(0, 0)], leaf(1)));
    assert!(!accepts(vec![arg(), add(0, 1)], leaf(1)));
    assert!(!accepts(vec![arg(), add(1, 0)], leaf(1)));
    assert!(!accepts(vec![arg(), add(0, 2), arg()], leaf(1)));
    assert!(!accepts(vec![arg(), arg(), Binding::Add { ty: TypeId(5), lhs: BindingId(0), rhs: BindingId(1) }], leaf(2)));
    let call = |term, args: Vec<usize>| Binding::Call {
        term: TermId(term),
        args: args.into_iter().map(BindingId).collect(),
    };
    assert!(accepts(vec![arg(), call(0, vec![0, 0])], leaf(1)));
    assert!(accepts(vec![call(0, vec![])], leaf(0)));
    assert!(!accepts(vec![arg(), call(1, vec![0])], leaf(1)));
    assert!(!accepts(vec![arg(), call(0, vec![0, 1])], leaf(1)));
    assert!(!accepts(vec![call(0, vec![0])], leaf(0)));
}

#[test]
fn nodes_must_name_bindings_and_variants_that_exist() {
    let arg = || Binding::Argument { index: 0 };
    let arm = |constraint, result| Arm { constraint, body: leaf(result) };
    let tag = |variant| Constraint::Variant { ty: TypeId(1), variant: VariantId(variant) };
    let node = |source, arms, default: Option<Node>| Node::Match {
        source: BindingId(source),
        arms,
        default: default.map(Box::new),
    };
    assert!(!accepts(vec![], leaf(0)));
    assert!(!accepts(vec![arg()], leaf(1)));
    assert!(accepts(vec![arg()], node(0, vec![], None)));
    assert!(!accepts(vec![arg()], node(1, vec![], None)));
    assert!(accepts(vec![arg()], node(0, vec![arm(tag(1), 0), arm(Constraint::ConstInt { val: 3 }, 0)], Some(leaf(0)))));
    assert!(!accepts(vec![arg()], node(0, vec![arm(tag(1), 0), arm(tag(2), 0)], None)));
    assert!(!accepts(vec![arg()], node(0, vec![arm(tag(1), 0), arm(tag(0), 1)], None)));
    assert!(!accepts(vec![arg()], node(0, vec![arm(tag(1), 0)], Some(leaf(1)))));
    assert!(!accepts(
        vec![arg()],
        node(0, vec![Arm { constraint: tag(0), body: node(0, vec![], Some(leaf(7))) }], None)
    ));
    assert!(!accepts(
        vec![arg()],
        node(0, vec![arm(Constraint::Variant { ty: TypeId(0), variant: VariantId(0) }, 0)], None)
    ));
    assert!(tag(1).is_well_formed(&typeenv()));
    assert!(!tag(2).is_well_formed(&typeenv()));
    assert!(Constraint::ConstInt { val: 0 }.is_well_formed(&typeenv()));
    assert!(leaf(0).is_well_formed(&typeenv(), 1));
    assert!(!leaf(0).is_well_formed(&typeenv(), 0));
    assert!(arg().is_well_formed(&typeenv(), &termenv(), &termenv().terms[0], 0));
}

#[test]
fn a_trie_is_total_when_every_node_has_a_default() {
    let arm = |variant, body| Arm {
        constraint: Constraint::Variant { ty: TypeId(1), variant: VariantId(variant) },
        body,
    };
    let node = |arms, default: Option<Node>| Node::Match {
        source: BindingId(0),
        arms,
        default: default.map(Box::new),
    };
    assert!(leaf(0).is_total());
    assert!(node(vec![], Some(leaf(0))).is_total());
    assert!(node(vec![arm(0, leaf(0))], Some(leaf(0))).is_total());
    assert!(!node(vec![], None).is_total());
    assert!(!node(vec![arm(0, leaf(0)), arm(1, leaf(0))], None).is_total());
    assert!(!node(vec![arm(0, node(vec![], None))], Some(leaf(0))).is_total());
    assert!(!node(vec![arm(0, leaf(0))], Some(node(vec![arm(1, leaf(0))], None))).is_total());
    assert!(node(vec![arm(0, node(vec![arm(1, leaf(0))], Some(leaf(0))))], Some(leaf(0))).is_total());
}
