use isle_codegen::codegen::{check_inputs, codegen, CodegenOptions, Lang};
use isle_codegen::sema::{Term, TermEnv, TermId, TermKind, Type, TypeEnv, TypeId, VariantId};
use isle_codegen::trie::{Arm, Binding, BindingId, Constraint, Node, RuleSet};

const U32: TypeId = TypeId(0);
const TAG: TypeId = TypeId(1);

fn types() -> TypeEnv {
    TypeEnv {
        types: vec![
            Type::Primitive { name: "u32".to_string() },
            Type::Enum { name: "Tag".to_string(), variants: vec!["A".to_string(), "B".to_string()] },
        ],
    }
}

fn term(name: &str, arg_tys: Vec<TypeId>, ret_ty: TypeId, kind: TermKind) -> Term {
    Term { name: name.to_string(), arg_tys, ret_ty, kind }
}

fn tag(variant: usize) -> Constraint {
    Constraint::Variant { ty: TAG, variant: VariantId(variant) }
}

fn leaf(result: usize) -> Node {
    Node::Leaf { result: BindingId(result) }
}

fn options(lang: Lang) -> CodegenOptions {
    CodegenOptions { exclude_global_allow_pragmas: true, lang }
}

fn generate(termenv: &TermEnv, terms: &[(TermId, RuleSet)], options: &CodegenOptions) -> String {
    let typeenv = types();
    assert!(check_inputs(&typeenv, termenv, terms));
    codegen(&typeenv, termenv, terms, options)
}

fn add_one() -> (TermEnv, Vec<(TermId, RuleSet)>) {
    let termenv = TermEnv { terms: vec![term("add_one", vec![U32], U32, TermKind::Constructor)] };
    let rules = RuleSet {
        bindings: vec![
            Binding::Argument { index: 0 },
            Binding::ConstInt { val: 1, ty: U32 },
            Binding::Add { ty: U32, lhs: BindingId(0), rhs: BindingId(1) },
        ],
        root: leaf(2),
    };
    (termenv, vec![(TermId(0), rules)])
}

fn classify(kind: TermKind, default: Option<Box<Node>>) -> (TermEnv, Vec<(TermId, RuleSet)>) {
    let termenv = TermEnv { terms: vec![term("classify", vec![TAG], U32, kind)] };
    let rules = RuleSet {
        bindings: vec![
            Binding::Argument { index: 0 },
            Binding::ConstInt { val: 1, ty: U32 },
            Binding::ConstInt { val: 2, ty: U32 },
            Binding::ConstInt { val: 0, ty: U32 },
        ],
        root: Node::Match {
            source: BindingId(0),
            arms: vec![Arm { constraint: tag(0), body: leaf(1) }, Arm { constraint: tag(1), body: leaf(2) }],
            default,
        },
    };
    (termenv, vec![(TermId(0), rules)])
}

#[test]
fn add_one_in_rust() {
    let (termenv, terms) = add_one();
    let code = generate(&termenv, &terms, &options(Lang::Rust));
    assert_eq!(
        code,
        "// Dispatch functions, one per term.\n\
         \n\
         /// Term `add_one`.\n\
         pub fn add_one(arg0: u32) -> u32 {\n\
         \x20   let v0: u32 = arg0;\n\
         \x20   let v1: u32 = 1;\n\
         \x20   let v2: u32 = v0 + v1;\n\
         \x20   return v2;\n\
         }\n"
    );
}

#[test]
fn add_one_in_cxx() {
    let (termenv, terms) = add_one();
    let code = generate(&termenv, &terms, &options(Lang::Cxx));
    assert_eq!(
        code,
        "// Dispatch functions, one per term.\n\
         namespace isle {\n\
         \n\
         // Term `add_one`.\n\
         u32 add_one(u32 arg0) {\n\
         \x20   const u32 v0 = arg0;\n\
         \x20   const u32 v1 = 1;\n\
         \x20   const u32 v2 = v0 + v1;\n\
         \x20   return v2;\n\
         }\n\
         \n\
         }  // namespace isle\n"
    );
}

#[test]
fn two_tags_extractor_in_rust() {
    let (termenv, terms) = classify(TermKind::Extractor, None);
    let code = generate(&termenv, &terms, &options(Lang::Rust));
    assert_eq!(
        code,
        "// Dispatch functions, one per term.\n\
         \n\
         /// Term `classify`.\n\
         pub fn classify(arg0: Tag) -> Option<u32> {\n\
         \x20   let v0: &Tag = &arg0;\n\
         \x20   if let Tag::A = v0 {\n\
         \x20       let v1: u32 = 1;\n\
         \x20       return Some(v1);\n\
         \x20   } else if let Tag::B = v0 {\n\
         \x20       let v2: u32 = 2;\n\
         \x20       return Some(v2);\n\
         \x20   }\n\
         \x20   return None;\n\
         }\n"
    );
}

#[test]
fn two_tags_extractor_in_cxx() {
    let (termenv, terms) = classify(TermKind::Extractor, None);
    let code = generate(&termenv, &terms, &options(Lang::Cxx));
    assert_eq!(
        code,
        "// Dispatch functions, one per term.\n\
         namespace isle {\n\
         \n\
         // Term `classify`.\n\
         std::optional<u32> classify(Tag arg0) {\n\
         \x20   const Tag& v0 = arg0;\n\
         \x20   if (v0 == Tag::A) {\n\
         \x20       const u32 v1 = 1;\n\
         \x20       return std::make_optional(v1);\n\
         \x20   } else if (v0 == Tag::B) {\n\
         \x20       const u32 v2 = 2;\n\
         \x20       return std::make_optional(v2);\n\
         \x20   }\n\
         \x20   return std::nullopt;\n\
         }\n\
         \n\
         }  // namespace isle\n"
    );
}

#[test]
fn two_tags_have_two_arms_in_declaration_order() {
    let (termenv, terms) = classify(TermKind::Extractor, None);
    for lang in [Lang::Rust, Lang::Cxx] {
        let code = generate(&termenv, &terms, &options(lang));
        assert_eq!(code.matches("if ").count(), 2);
        assert_eq!(code.matches(" else if ").count(), 1);
        assert_eq!(code.matches(" else {").count(), 0);
        let first = code.find("Tag::A").unwrap();
        let second = code.find("Tag::B").unwrap();
        assert!(first < second);
    }
}

#[test]
fn constructor_with_default_has_no_failure_path() {
    let (termenv, terms) = classify(TermKind::Constructor, Some(Box::new(leaf(3))));
    let code = generate(&termenv, &terms, &options(Lang::Rust));
    assert_eq!(
        code,
        "// Dispatch functions, one per term.\n\
         \n\
         /// Term `classify`.\n\
         pub fn classify(arg0: Tag) -> u32 {\n\
         \x20   let v0: &Tag = &arg0;\n\
         \x20   if let Tag::A = v0 {\n\
         \x20       let v1: u32 = 1;\n\
         \x20       return v1;\n\
         \x20   } else if let Tag::B = v0 {\n\
         \x20       let v2: u32 = 2;\n\
         \x20       return v2;\n\
         \x20   } else {\n\
         \x20       let v3: u32 = 0;\n\
         \x20       return v3;\n\
         \x20   }\n\
         }\n"
    );
    assert!(!code.contains("None"));
    let code = generate(&termenv, &terms, &options(Lang::Cxx));
    assert!(!code.contains("nullopt"));
    assert!(code.contains("    } else {\n        const u32 v3 = 0;\n        return v3;\n    }\n}\n"));
}

#[test]
fn extractor_always_ends_with_the_failure_path() {
    let (termenv, terms) = classify(TermKind::Extractor, Some(Box::new(leaf(3))));
    let code = generate(&termenv, &terms, &options(Lang::Rust));
    assert!(code.ends_with("    }\n    return None;\n}\n"));
    let code = generate(&termenv, &terms, &options(Lang::Cxx));
    assert!(code.ends_with("    }\n    return std::nullopt;\n}\n\n}  // namespace isle\n"));
    let termenv = TermEnv { terms: vec![term("one", vec![], U32, TermKind::Extractor)] };
    let rules = RuleSet { bindings: vec![Binding::ConstInt { val: 1, ty: U32 }], root: leaf(0) };
    let code = generate(&termenv, &[(TermId(0), rules)], &options(Lang::Rust));
    assert!(code.ends_with(
        "pub fn one() -> Option<u32> {\n    let v0: u32 = 1;\n    return Some(v0);\n    return None;\n}\n"
    ));
}

/// Two rules overlap on the input `7`: the one of higher priority tests for
/// `7`, the other takes everything. The trie lists them in that order.
fn overlapping(first: i128, second: i128) -> (TermEnv, Vec<(TermId, RuleSet)>) {
    let termenv = TermEnv { terms: vec![term("pick", vec![U32], U32, TermKind::Extractor)] };
    let rules = RuleSet {
        bindings: vec![
            Binding::Argument { index: 0 },
            Binding::ConstInt { val: 10, ty: U32 },
            Binding::ConstInt { val: 5, ty: U32 },
        ],
        root: Node::Match {
            source: BindingId(0),
            arms: vec![
                Arm { constraint: Constraint::ConstInt { val: first }, body: leaf(1) },
                Arm { constraint: Constraint::ConstInt { val: second }, body: leaf(2) },
            ],
            default: None,
        },
    };
    (termenv, vec![(TermId(0), rules)])
}

#[test]
fn higher_priority_arm_is_tried_first() {
    let (termenv, terms) = overlapping(7, 7);
    let code = generate(&termenv, &terms, &options(Lang::Rust));
    assert_eq!(
        code,
        "// Dispatch functions, one per term.\n\
         \n\
         /// Term `pick`.\n\
         pub fn pick(arg0: u32) -> Option<u32> {\n\
         \x20   let v0: u32 = arg0;\n\
         \x20   if v0 == 7 {\n\
         \x20       let v1: u32 = 10;\n\
         \x20       return Some(v1);\n\
         \x20   } else if v0 == 7 {\n\
         \x20       let v2: u32 = 5;\n\
         \x20       return Some(v2);\n\
         \x20   }\n\
         \x20   return None;\n\
         }\n"
    );
    let code = generate(&termenv, &terms, &options(Lang::Cxx));
    let winner = code.find("const u32 v1 = 10;").unwrap();
    let loser = code.find("const u32 v2 = 5;").unwrap();
    assert!(winner < loser);
    assert!(code.contains("    if (v0 == 7) {\n        const u32 v1 = 10;"));
    assert!(code.contains("    } else if (v0 == 7) {\n        const u32 v2 = 5;"));
}

#[test]
fn arm_order_is_never_resorted() {
    let (termenv, terms) = overlapping(9, 3);
    let code = generate(&termenv, &terms, &options(Lang::Rust));
    assert!(code.find("v0 == 9").unwrap() < code.find("v0 == 3").unwrap());
    let (termenv, terms) = overlapping(3, 9);
    let code = generate(&termenv, &terms, &options(Lang::Rust));
    assert!(code.find("v0 == 3").unwrap() < code.find("v0 == 9").unwrap());
}

/// Both arms return the same sum, which neither the node nor any block
/// around it declares.
fn shared_in_siblings() -> (TermEnv, Vec<(TermId, RuleSet)>) {
    let termenv = TermEnv { terms: vec![term("bump", vec![TAG, U32], U32, TermKind::Extractor)] };
    let rules = RuleSet {
        bindings: vec![
            Binding::Argument { index: 0 },
            Binding::Argument { index: 1 },
            Binding::ConstInt { val: 1, ty: U32 },
            Binding::Add { ty: U32, lhs: BindingId(1), rhs: BindingId(2) },
        ],
        root: Node::Match {
            source: BindingId(0),
            arms: vec![Arm { constraint: tag(0), body: leaf(3) }, Arm { constraint: tag(1), body: leaf(3) }],
            default: None,
        },
    };
    (termenv, vec![(TermId(0), rules)])
}

#[test]
fn sibling_arms_declare_what_they_need_separately() {
    let (termenv, terms) = shared_in_siblings();
    let code = generate(&termenv, &terms, &options(Lang::Rust));
    assert_eq!(
        code,
        "// Dispatch functions, one per term.\n\
         \n\
         /// Term `bump`.\n\
         pub fn bump(arg0: Tag, arg1: u32) -> Option<u32> {\n\
         \x20   let v0: &Tag = &arg0;\n\
         \x20   if let Tag::A = v0 {\n\
         \x20       let v1: u32 = arg1;\n\
         \x20       let v2: u32 = 1;\n\
         \x20       let v3: u32 = v1 + v2;\n\
         \x20       return Some(v3);\n\
         \x20   } else if let Tag::B = v0 {\n\
         \x20       let v1: u32 = arg1;\n\
         \x20       let v2: u32 = 1;\n\
         \x20       let v3: u32 = v1 + v2;\n\
         \x20       return Some(v3);\n\
         \x20   }\n\
         \x20   return None;\n\
         }\n"
    );
    let code = generate(&termenv, &terms, &options(Lang::Cxx));
    assert_eq!(code.matches("const u32 v3 = v1 + v2;").count(), 2);
    assert_eq!(code.matches("const Tag& v0 = arg0;").count(), 1);
}

#[test]
fn what_an_outer_block_declares_is_not_declared_again() {
    let termenv = TermEnv { terms: vec![term("nest", vec![U32, U32], U32, TermKind::Extractor)] };
    let rules = RuleSet {
        bindings: vec![Binding::Argument { index: 0 }, Binding::Argument { index: 1 }],
        root: Node::Match {
            source: BindingId(0),
            arms: vec![Arm {
                constraint: Constraint::ConstInt { val: 1 },
                body: Node::Match {
                    source: BindingId(1),
                    arms: vec![Arm { constraint: Constraint::ConstInt { val: -2 }, body: leaf(0) }],
                    default: Some(Box::new(leaf(1))),
                },
            }],
            default: None,
        },
    };
    let code = generate(&termenv, &[(TermId(0), rules)], &options(Lang::Rust));
    assert_eq!(
        code,
        "// Dispatch functions, one per term.\n\
         \n\
         /// Term `nest`.\n\
         pub fn nest(arg0: u32, arg1: u32) -> Option<u32> {\n\
         \x20   let v0: u32 = arg0;\n\
         \x20   if v0 == 1 {\n\
         \x20       let v1: u32 = arg1;\n\
         \x20       if v1 == -2 {\n\
         \x20           return Some(v0);\n\
         \x20       } else {\n\
         \x20           return Some(v1);\n\
         \x20       }\n\
         \x20   }\n\
         \x20   return None;\n\
         }\n"
    );
}

#[test]
fn generation_is_deterministic() {
    for lang in [Lang::Rust, Lang::Cxx] {
        let (termenv, terms) = shared_in_siblings();
        let first = generate(&termenv, &terms, &options(lang));
        let second = generate(&termenv, &terms, &options(lang));
        assert_eq!(first, second);
        let (termenv_again, terms_again) = shared_in_siblings();
        let third = generate(&termenv_again, &terms_again, &options(lang));
        assert_eq!(first, third);
    }
}

#[test]
fn lint_pragmas_can_be_left_out() {
    let (termenv, terms) = add_one();
    let with = CodegenOptions { exclude_global_allow_pragmas: false, lang: Lang::Rust };
    let code = generate(&termenv, &terms, &with);
    assert!(code.starts_with(
        "// Dispatch functions, one per term.\n#![allow(dead_code, unreachable_code, unused_variables)]\n\n/// Term"
    ));
    let without = generate(&termenv, &terms, &options(Lang::Rust));
    assert!(!without.contains("#![allow"));
    assert_eq!(code.replace("#![allow(dead_code, unreachable_code, unused_variables)]\n", ""), without);
    let with = CodegenOptions { exclude_global_allow_pragmas: false, lang: Lang::Cxx };
    let code = generate(&termenv, &terms, &with);
    assert!(code.starts_with(
        "// Dispatch functions, one per term.\n#pragma GCC diagnostic ignored \"-Wunused-variable\"\nnamespace isle {\n"
    ));
    assert!(!generate(&termenv, &terms, &options(Lang::Cxx)).contains("#pragma"));
}

#[test]
fn default_options_select_rust_with_pragmas() {
    let defaults = CodegenOptions::default();
    assert!(!defaults.exclude_global_allow_pragmas);
    assert_eq!(defaults.lang, Lang::Rust);
    assert_eq!(Lang::default(), Lang::Rust);
    let (termenv, terms) = add_one();
    let code = generate(&termenv, &terms, &defaults);
    assert!(code.contains("#![allow("));
    assert!(code.contains("pub fn add_one(arg0: u32) -> u32 {"));
}

#[test]
fn every_term_gets_a_function_in_every_backend() {
    let termenv = TermEnv {
        terms: vec![
            term("add_one", vec![U32], U32, TermKind::Constructor),
            term("classify", vec![TAG], U32, TermKind::Extractor),
        ],
    };
    let (_, add) = add_one();
    let (_, class) = classify(TermKind::Extractor, None);
    let mut terms = Vec::new();
    for (_, rules) in class {
        terms.push((TermId(1), rules));
    }
    for (_, rules) in add {
        terms.push((TermId(0), rules));
    }
    let rust = generate(&termenv, &terms, &options(Lang::Rust));
    assert!(rust.find("pub fn classify(arg0: Tag) -> Option<u32> {").unwrap()
        < rust.find("pub fn add_one(arg0: u32) -> u32 {").unwrap());
    let cxx = generate(&termenv, &terms, &options(Lang::Cxx));
    assert!(cxx.find("std::optional<u32> classify(Tag arg0) {").unwrap()
        < cxx.find("u32 add_one(u32 arg0) {").unwrap());
    assert!(!cxx.is_empty());
}

#[test]
fn backends_lay_out_the_same_structure() {
    let (termenv, terms) = shared_in_siblings();
    let rust = generate(&termenv, &terms, &options(Lang::Rust));
    let cxx = generate(&termenv, &terms, &options(Lang::Cxx));
    for piece in ["if ", " else if ", " else {", "return "] {
        assert_eq!(rust.matches(piece).count(), cxx.matches(piece).count());
    }
    assert_eq!(rust.matches("return ").count(), 3);
    let shape = |code: &str| -> Vec<usize> {
        code.lines()
            .filter(|line| line.starts_with(' '))
            .map(|line| line.len() - line.trim_start().len())
            .collect()
    };
    assert_eq!(shape(&rust), shape(&cxx));
    assert_eq!(shape(&rust), vec![4, 4, 8, 8, 8, 8, 4, 8, 8, 8, 8, 4, 4]);
}

#[test]
fn no_terms_give_header_and_footer_only() {
    let termenv = TermEnv { terms: vec![] };
    assert_eq!(generate(&termenv, &[], &options(Lang::Rust)), "// Dispatch functions, one per term.\n");
    assert_eq!(
        generate(&termenv, &[], &options(Lang::Cxx)),
        "// Dispatch functions, one per term.\nnamespace isle {\n\n}  // namespace isle\n"
    );
}
