use isle_codegen::codegen::walk::Emitter;
use isle_codegen::codegen::{BodyContext, Lang};
use isle_codegen::sema::{Term, TermEnv, TermId, TermKind, Type, TypeEnv, TypeId, VariantId};
use isle_codegen::stable_set::StableSet;
use isle_codegen::trie::{Arm, Binding, BindingId, Constraint, Node, RuleSet};

fn rules() -> RuleSet {
    RuleSet {
        bindings: vec![
            Binding::Argument { index: 0 },
            Binding::ConstInt { val: 1, ty: TypeId(0) },
            Binding::MakeVariant { ty: TypeId(1), variant: VariantId(1) },
            Binding::Call { term: TermId(1), args: vec![BindingId(1), BindingId(2), BindingId(1)] },
        ],
        root: Node::Match {
            source: BindingId(0),
            arms: vec![Arm {
                constraint: Constraint::ConstInt { val: 4 },
                body: Node::Leaf { result: BindingId(3) },
            }],
            default: Some(Box::new(Node::Leaf { result: BindingId(2) })),
        },
    }
}

fn envs() -> (TypeEnv, TermEnv) {
    let typeenv = TypeEnv {
        types: vec![
            Type::Primitive { name: "i64".to_string() },
            Type::Enum { name: "Color".to_string(), variants: vec!["Red".to_string(), "Blue".to_string()] },
        ],
    };
    let termenv = TermEnv {
        terms: vec![
            Term {
                name: "paint".to_string(),
                arg_tys: vec![TypeId(0)],
                ret_ty: TypeId(1),
                kind: TermKind::Constructor,
            },
            Term {
                name: "mix".to_string(),
                arg_tys: vec![TypeId(0), TypeId(1), TypeId(0)],
                ret_ty: TypeId(1),
                kind: TermKind::Constructor,
            },
        ],
    };
    (typeenv, termenv)
}

#[test]
fn new_context_writes_after_what_it_was_given() {
    let rules = rules();
    let mut ctx = BodyContext::new("head".to_string(), &rules);
    assert!(!ctx.is_bound(BindingId(0)));
    assert_eq!(ctx.recorded(BindingId(0)), None);
    assert_eq!(ctx.ruleset().bindings.len(), 4);
    ctx.write_indent();
    ctx.write(";");
    assert_eq!(ctx.into_output(), "head;");
}

#[test]
fn blocks_indent_by_four_and_close_where_they_opened() {
    let rules = rules();
    let mut ctx = BodyContext::new(String::new(), &rules);
    ctx.write("fn f()");
    let outer = ctx.enter_scope();
    ctx.begin_block();
    ctx.write_indent();
    ctx.write("loop");
    let inner = ctx.enter_scope();
    ctx.begin_block();
    ctx.write_indent();
    ctx.write("x;\n");
    ctx.end_block(inner);
    ctx.end_block(outer);
    ctx.write_indent();
    ctx.write("end");
    assert_eq!(ctx.into_output(), "fn f() {\n    loop {\n        x;\n    }\n}\nend");
}

#[test]
fn closing_without_newline_stays_on_the_line() {
    let rules = rules();
    let mut ctx = BodyContext::new(String::new(), &rules);
    ctx.write("if a");
    ctx.begin_block();
    ctx.begin_block();
    ctx.end_block_without_newline();
    ctx.write(" else");
    ctx.begin_block();
    ctx.end_block_without_newline();
    ctx.end_block_without_newline();
    assert_eq!(ctx.into_output(), "if a {\n {\n    } else {\n    }}");
}

#[test]
fn closing_a_block_restores_the_scope() {
    let rules = rules();
    let mut ctx = BodyContext::new(String::new(), &rules);
    ctx.bind(BindingId(0));
    let scope = ctx.enter_scope();
    assert!(scope.contains(BindingId(0)));
    assert!(!scope.contains(BindingId(1)));
    assert!(ctx.is_bound(BindingId(0)));
    ctx.begin_block();
    ctx.bind(BindingId(1));
    assert!(ctx.is_bound(BindingId(0)));
    assert!(ctx.is_bound(BindingId(1)));
    ctx.end_block(scope);
    assert!(ctx.is_bound(BindingId(0)));
    assert!(!ctx.is_bound(BindingId(1)));
}

#[test]
fn sibling_scopes_do_not_leak() {
    let rules = rules();
    let mut ctx = BodyContext::new(String::new(), &rules);
    let first = ctx.enter_scope();
    ctx.begin_block();
    ctx.bind(BindingId(2));
    ctx.end_block_without_newline();
    ctx.leave_scope(first);
    let second = ctx.enter_scope();
    ctx.begin_block();
    assert!(!ctx.is_bound(BindingId(2)));
    ctx.bind(BindingId(3));
    ctx.end_block(second);
    assert!(!ctx.is_bound(BindingId(2)));
    assert!(!ctx.is_bound(BindingId(3)));
}

#[test]
fn first_classification_stands() {
    let rules = rules();
    let mut ctx = BodyContext::new(String::new(), &rules);
    ctx.set_ref(BindingId(2), true);
    ctx.set_ref(BindingId(1), false);
    assert_eq!(ctx.recorded(BindingId(2)), Some(true));
    assert_eq!(ctx.recorded(BindingId(1)), Some(false));
    assert_eq!(ctx.recorded(BindingId(0)), None);
    ctx.set_ref(BindingId(2), true);
    ctx.set_ref(BindingId(1), false);
    assert_eq!(ctx.recorded(BindingId(2)), Some(true));
    assert_eq!(ctx.recorded(BindingId(1)), Some(false));
    let scope = ctx.enter_scope();
    ctx.begin_block();
    ctx.end_block(scope);
    assert_eq!(ctx.recorded(BindingId(2)), Some(true));
    assert_eq!(ctx.recorded(BindingId(1)), Some(false));
    assert_eq!(ctx.into_output(), " {\n}\n");
}

#[test]
fn a_conflicting_classification_is_not_accepted() {
    let rules = rules();
    let mut ctx = BodyContext::new(String::new(), &rules);
    ctx.set_ref(BindingId(2), true);
    let by_value = false;
    let accepted = match ctx.recorded(BindingId(2)) {
        Some(recorded) => recorded == by_value,
        None => true,
    };
    assert!(!accepted);
    ctx.set_ref(BindingId(3), false);
    let by_ref = true;
    let accepted = match ctx.recorded(BindingId(3)) {
        Some(recorded) => recorded == by_ref,
        None => true,
    };
    assert!(!accepted);
}

#[test]
fn materializing_declares_operands_first_and_once() {
    let rules = rules();
    let (typeenv, termenv) = envs();
    assert!(rules.is_well_formed(&typeenv, &termenv, &termenv.terms[0]));
    let emitter = Emitter { lang: Lang::Rust, typeenv: &typeenv, termenv: &termenv, term: TermId(0) };
    let mut ctx = BodyContext::new(String::new(), &rules);
    emitter.materialize(&mut ctx, BindingId(3));
    for binding in [1, 2, 3] {
        assert!(ctx.is_bound(BindingId(binding)));
    }
    assert!(!ctx.is_bound(BindingId(0)));
    assert_eq!(ctx.recorded(BindingId(1)), Some(false));
    assert_eq!(ctx.recorded(BindingId(2)), Some(true));
    assert_eq!(ctx.recorded(BindingId(3)), Some(true));
    emitter.materialize(&mut ctx, BindingId(3));
    emitter.materialize(&mut ctx, BindingId(2));
    assert_eq!(
        ctx.into_output(),
        "let v1: i64 = 1;\n\
         let v2: &Color = &Color::Blue;\n\
         let v3: &Color = &mix(v1, v2.clone(), v1);\n"
    );
}

#[test]
fn materializing_in_cxx() {
    let rules = rules();
    let (typeenv, termenv) = envs();
    let emitter = Emitter { lang: Lang::Cxx, typeenv: &typeenv, termenv: &termenv, term: TermId(0) };
    let mut ctx = BodyContext::new(String::new(), &rules);
    ctx.begin_block();
    emitter.materialize(&mut ctx, BindingId(2));
    emitter.materialize(&mut ctx, BindingId(3));
    ctx.end_block(StableSet::new());
    assert!(!ctx.is_bound(BindingId(3)));
    assert_eq!(
        ctx.into_output(),
        " {\n\
         \x20   const Color& v2 = Color::Blue;\n\
         \x20   const i64 v1 = 1;\n\
         \x20   const Color& v3 = mix(v1, v2, v1);\n\
         }\n"
    );
}

#[test]
fn a_function_leaves_the_context_balanced() {
    let rules = rules();
    let (typeenv, termenv) = envs();
    let emitter = Emitter { lang: Lang::Rust, typeenv: &typeenv, termenv: &termenv, term: TermId(0) };
    let mut ctx = BodyContext::new(String::new(), &rules);
    emitter.emit_function(&mut ctx);
    for binding in [0, 1, 2, 3] {
        assert!(!ctx.is_bound(BindingId(binding)));
    }
    ctx.write_indent();
    ctx.write("end\n");
    assert_eq!(
        ctx.into_output(),
        "\n\
         /// Term `paint`.\n\
         pub fn paint(arg0: i64) -> Color {\n\
         \x20   let v0: i64 = arg0;\n\
         \x20   if v0 == 4 {\n\
         \x20       let v1: i64 = 1;\n\
         \x20       let v2: &Color = &Color::Blue;\n\
         \x20       let v3: &Color = &mix(v1, v2.clone(), v1);\n\
         \x20       return v3.clone();\n\
         \x20   } else {\n\
         \x20       let v2: &Color = &Color::Blue;\n\
         \x20       return v2.clone();\n\
         \x20   }\n\
         }\n\
         end\n"
    );
}

#[test]
fn a_default_without_arms_is_a_block_of_its_own() {
    let (typeenv, termenv) = envs();
    let rules = RuleSet {
        bindings: vec![Binding::Argument { index: 0 }, Binding::MakeVariant { ty: TypeId(1), variant: VariantId(0) }],
        root: Node::Match {
            source: BindingId(0),
            arms: vec![],
            default: Some(Box::new(Node::Leaf { result: BindingId(1) })),
        },
    };
    assert!(rules.is_well_formed(&typeenv, &termenv, &termenv.terms[0]));
    let emitter = Emitter { lang: Lang::Cxx, typeenv: &typeenv, termenv: &termenv, term: TermId(0) };
    let mut ctx = BodyContext::new(String::new(), &rules);
    emitter.emit_block(&mut ctx, &rules.root);
    assert!(ctx.is_bound(BindingId(0)));
    assert!(!ctx.is_bound(BindingId(1)));
    assert_eq!(
        ctx.into_output(),
        "const i64 v0 = arg0;\n {\n    const Color& v1 = Color::Red;\n    return v1;\n}\n"
    );
}

#[test]
fn a_node_without_arms_or_default_writes_its_source_only() {
    let (typeenv, termenv) = envs();
    let rules = RuleSet {
        bindings: vec![Binding::Argument { index: 0 }],
        root: Node::Match { source: BindingId(0), arms: vec![], default: None },
    };
    let emitter = Emitter { lang: Lang::Rust, typeenv: &typeenv, termenv: &termenv, term: TermId(0) };
    let mut ctx = BodyContext::new(String::new(), &rules);
    emitter.emit_block(&mut ctx, &rules.root);
    assert_eq!(ctx.into_output(), "let v0: i64 = arg0;\n");
}
