use kon::ast::{BinOp, Expr, Stmt};
use kon::kon_parser;
use kon::konc_parser;

fn kon_expr(text: &str) -> String {
    match kon_parser::expr(text) {
        Ok(e) => format!("{:?}", e),
        Err(e) => panic!("no expression, stopped at {}", e.offset),
    }
}

fn konc_expr(text: &str) -> String {
    match konc_parser::expr(text) {
        Ok(e) => format!("{:?}", e),
        Err(e) => panic!("no expression, stopped at {}", e.offset),
    }
}

#[test]
fn binary_operators_associate_to_the_left() {
    assert_eq!(
        kon_expr("a - b - c"),
        "Binary(Binary(Ident(\"a\"), Sub, Ident(\"b\")), Sub, Ident(\"c\"))"
    );
    assert_eq!(
        kon_expr("a / b * c"),
        "Binary(Binary(Ident(\"a\"), Div, Ident(\"b\")), Mul, Ident(\"c\"))"
    );
}

#[test]
fn multiplication_binds_tighter_than_addition() {
    assert_eq!(
        kon_expr("1 + 2 * 3"),
        "Binary(Number(\"1\"), Add, Binary(Number(\"2\"), Mul, Number(\"3\")))"
    );
    assert_eq!(
        kon_expr("(1 + 2) * 3"),
        "Binary(Binary(Number(\"1\"), Add, Number(\"2\")), Mul, Number(\"3\"))"
    );
}

#[test]
fn negation_binds_tighter_than_binary_operators() {
    assert_eq!(
        kon_expr("-a * b"),
        "Binary(Neg(Ident(\"a\")), Mul, Ident(\"b\"))"
    );
    assert_eq!(kon_expr("-a.b"), "Neg(EnumVariant(\"a\", \"b\"))");
    assert_eq!(
        kon_expr("-f().b"),
        "Neg(Field(Call(Ident(\"f\"), []), \"b\"))"
    );
}

#[test]
fn postfix_operations_apply_left_to_right() {
    assert_eq!(
        kon_expr("f(x, y)[0].m(1).k"),
        "Field(MethodCall(Index(Call(Ident(\"f\"), [Ident(\"x\"), Ident(\"y\")]), Number(\"0\")), \"m\", [Number(\"1\")]), \"k\")"
    );
}

#[test]
fn number_literals_keep_their_digits() {
    assert_eq!(kon_expr("3.25"), "Number(\"3.25\")");
    assert_eq!(kon_expr("7.x"), "Field(Number(\"7\"), \"x\")");
}

#[test]
fn variants_and_struct_literals() {
    assert_eq!(kon_expr("Color.Red"), "EnumVariant(\"Color\", \"Red\")");
    assert_eq!(kon_expr(".Red"), "DotVariant(\"Red\")");
    assert_eq!(
        kon_expr("Point { x: 1, y: 2, }"),
        "StructLit(\"Point\", [StructInitializer { label: \"x\", value: Number(\"1\") }, StructInitializer { label: \"y\", value: Number(\"2\") }])"
    );
}

#[test]
fn string_interpolation_and_format() {
    assert_eq!(
        kon_expr("\"hi \\(x:>8)!\""),
        "Str([Literal(\"hi \"), Interp { expr: Ident(\"x\"), format: Some(\">8\") }, Literal(\"!\")])"
    );
    assert_eq!(kon_expr("\"\""), "Str([])");
}

#[test]
fn multiline_strings_join_lines_with_newlines() {
    assert_eq!(
        kon_expr("\\\\ab\n  \\\\c\\(d)"),
        "Str([Literal(\"ab\"), Literal(\"\\n\"), Literal(\"c\"), Interp { expr: Ident(\"d\"), format: None }])"
    );
}

#[test]
fn switch_and_for_expressions() {
    assert_eq!(
        kon_expr("switch (c) { .A | .B => 1, x => 2, }"),
        "Switch(Ident(\"c\"), [SwitchArm { patterns: [DotVariant(\"A\"), DotVariant(\"B\")], body: Number(\"1\") }, SwitchArm { patterns: [Ident(\"x\")], body: Number(\"2\") }])"
    );
    assert_eq!(
        kon_expr("for i, v in items { print(v); v }"),
        "For { binders: [\"i\", \"v\"], iter: Ident(\"items\"), body: [Expr(Call(Ident(\"print\"), [Ident(\"v\")])), Tail(Ident(\"v\"))] }"
    );
}

#[test]
fn reserved_words_are_identifiers_only_in_kon() {
    assert_eq!(kon_expr("let"), "Ident(\"let\")");
    assert!(konc_parser::expr("let").is_err());
    assert_eq!(konc_expr("letter"), "Ident(\"letter\")");
    assert_eq!(konc_expr("pub_x"), "Ident(\"pub_x\")");
}

#[test]
fn whole_expression_is_required() {
    match kon_parser::expr("a b") {
        Err(e) => assert_eq!(e.offset, 1),
        Ok(_) => panic!("trailing text accepted"),
    }
    match kon_parser::expr(" a") {
        Err(e) => assert_eq!(e.offset, 0),
        Ok(_) => panic!("leading blank accepted"),
    }
}

#[test]
fn kon_items() {
    let items = kon_parser::program(
        "// a comment\nenum E { .A, .B, }\nstruct S { a: int, b: T }\nfn (s: S) m(x: int) { let y = x; y }\ninterface I { fn f(a: int); fn g(); }\nlet z = 1;",
    )
    .unwrap();
    assert_eq!(items.len(), 5);
    assert_eq!(
        format!("{:?}", items[0]),
        "Enum { name: \"E\", variants: [\"A\", \"B\"] }"
    );
    assert_eq!(
        format!("{:?}", items[1]),
        "Struct { name: \"S\", fields: [Param { name: \"a\", ty: \"int\" }, Param { name: \"b\", ty: \"T\" }] }"
    );
    assert_eq!(
        format!("{:?}", items[2]),
        "Fn { receiver: Some(Param { name: \"s\", ty: \"S\" }), name: \"m\", params: [Param { name: \"x\", ty: \"int\" }], body: [Let(\"y\", Ident(\"x\")), Tail(Ident(\"y\"))] }"
    );
    assert_eq!(
        format!("{:?}", items[3]),
        "Interface { name: \"I\", methods: [InterfaceMethod { name: \"f\", params: [Param { name: \"a\", ty: \"int\" }] }, InterfaceMethod { name: \"g\", params: [] }] }"
    );
    assert_eq!(format!("{:?}", items[4]), "Let(\"z\", Number(\"1\"))");
}

#[test]
fn kon_blocks_separate_statements_by_blank_space() {
    let items = kon_parser::parse("fn f() { let a = 1; let b = 2; }");
    match &items[0] {
        kon_parser::Item::Fn { body, .. } => assert_eq!(body.len(), 2),
        _ => panic!("not a function"),
    }
}

#[test]
fn program_errors_report_where_the_items_stop() {
    match kon_parser::program("let a = 1;\n@") {
        Err(e) => assert_eq!(e.offset, 11),
        Ok(_) => panic!("accepted"),
    }
    match kon_parser::program("let x = ;") {
        Err(e) => assert_eq!(e.offset, 0),
        Ok(_) => panic!("accepted"),
    }
    assert_eq!(kon_parser::program("  // only a comment\n").unwrap().len(), 0);
}

#[test]
fn konc_return_statements() {
    let items = konc_parser::parse("fn f() -> int { return 1; }");
    match &items[0].item {
        konc_parser::Item::Fn(f) => {
            assert_eq!(f.body.len(), 1);
            match &f.body[0] {
                Stmt::Return(Some(Expr::Number(n))) => assert_eq!(n, "1"),
                _ => panic!("not a return"),
            }
            assert_eq!(format!("{:?}", f.return_type), "Some(Type { ident: Path([\"int\"]), params: [], pointer: None })");
        },
        _ => panic!("not a function"),
    }
    let items = konc_parser::parse("fn f() { return; }");
    match &items[0].item {
        konc_parser::Item::Fn(f) => assert_eq!(format!("{:?}", f.body), "[Return(None)]"),
        _ => panic!("not a function"),
    }
}

#[test]
fn konc_blocks_take_adjacent_statements_only() {
    assert!(konc_parser::program("fn f() { let a = 1;let b = 2; }").is_ok());
    assert!(konc_parser::program("fn f() { let a = 1; let b = 2; }").is_err());
}

#[test]
fn konc_visibility_imports_and_types() {
    let items = konc_parser::parse(
        "pub struct P { x: *mut a.b<T, U>, y: int }\nimport std.io\nfrom std import (read, write)\nfrom m import one",
    );
    assert_eq!(items.len(), 4);
    assert_eq!(items[0].visibility, konc_parser::Visibility::Public);
    assert_eq!(
        format!("{:?}", items[0].item),
        "Struct(StructItem { name: \"P\", fields: [Param { name: \"x\", ty: Type { ident: Path([\"a\", \"b\"]), params: [\"T\", \"U\"], pointer: Some(Mut) } }, Param { name: \"y\", ty: Type { ident: Path([\"int\"]), params: [], pointer: None } }] })"
    );
    assert_eq!(items[1].visibility, konc_parser::Visibility::Unspecified);
    assert_eq!(format!("{:?}", items[1].item), "Import(Module(Path([\"std\", \"io\"])))");
    assert_eq!(
        format!("{:?}", items[2].item),
        "Import(Specific { path: Path([\"std\"]), idents: [\"read\", \"write\"] })"
    );
    assert_eq!(
        format!("{:?}", items[3].item),
        "Import(Specific { path: Path([\"m\"]), idents: [\"one\"] })"
    );
}

#[test]
fn konc_extern_blocks_keep_only_the_language() {
    let items = konc_parser::parse(
        "extern \"C\" {\n #include \"x.h\"\n fn printf(fmt: *const char, ...) -> int;\n fn puts(s: *const char);\n}",
    );
    assert_eq!(items.len(), 1);
    assert_eq!(format!("{:?}", items[0].item), "Extern(ExternItem { lang: \"C\", items: [] })");
    assert!(konc_parser::program("extern \"C\" { fn f(,); }").is_err());
}

#[test]
fn konc_receivers() {
    let items = konc_parser::parse("fn [a] (T).m() {}\nfn g() {}");
    match &items[0].item {
        konc_parser::Item::Fn(f) => {
            assert_eq!(f.allocator_receiver.as_deref(), Some("a"));
            assert_eq!(f.receiver.as_deref(), Some("T"));
            assert_eq!(f.name, "m");
        },
        _ => panic!("not a function"),
    }
    match &items[1].item {
        konc_parser::Item::Fn(f) => {
            assert_eq!(f.receiver, None);
            assert_eq!(f.name, "g");
        },
        _ => panic!("not a function"),
    }
}

#[test]
fn deep_copies_are_equal() {
    let e = kon_parser::expr("switch (a) { .X => f(\"s\\(b:x)\", Point { p: -1.5 }) }").unwrap();
    assert_eq!(format!("{:?}", e.clone_in()), format!("{:?}", e));
    let items = konc_parser::parse("fn f() { for x in xs { return x[0]; } }");
    match &items[0].item {
        konc_parser::Item::Fn(f) => {
            for st in &f.body {
                assert_eq!(format!("{:?}", st.clone_in()), format!("{:?}", st));
            }
        },
        _ => panic!("not a function"),
    }
    assert_eq!(BinOp::Add, BinOp::Add);
}

#[test]
fn kon_has_no_return_statement() {
    assert!(kon_parser::program("fn f() { return 1; }").is_err());
    assert_eq!(kon_expr("return"), "Ident(\"return\")");
    assert!(konc_parser::program("fn f() { return 1; }").is_ok());
}

#[test]
fn konc_extern_declarations_stand_only_inside_extern_blocks() {
    assert!(konc_parser::program("fn puts(s: *const char);").is_err());
    assert!(konc_parser::program("#include <stdio.h>").is_err());
    assert!(konc_parser::program("pub import std").is_err());
    assert!(konc_parser::program("extern \"C\" { fn puts(s: *const char); }").is_ok());
}

#[test]
fn error_offsets_lie_inside_the_text() {
    for text in ["@", "let a = 1; ?", "fn f() {", "struct S { a }"] {
        match kon_parser::program(text) {
            Err(e) => assert!(e.offset < text.chars().count()),
            Ok(_) => panic!("accepted {}", text),
        }
        match konc_parser::program(text) {
            Err(e) => assert!(e.offset < text.chars().count()),
            Ok(_) => panic!("accepted {}", text),
        }
    }
    match kon_parser::expr("") {
        Err(e) => assert_eq!(e.offset, 0),
        Ok(_) => panic!("accepted the empty text"),
    }
}

#[test]
fn konc_types_may_have_an_empty_path() {
    let items = konc_parser::parse("struct S { a: }");
    assert_eq!(
        format!("{:?}", items[0].item),
        "Struct(StructItem { name: \"S\", fields: [Param { name: \"a\", ty: Type { ident: Path([]), params: [], pointer: None } }] })"
    );
    assert!(kon_parser::program("struct S { a: }").is_err());
}

#[test]
fn each_parser_module_offers_the_tree_types() {
    match kon_parser::expr("1 + 2").unwrap() {
        kon_parser::Expr::Binary(_, op, _) => assert_eq!(op, kon_parser::BinOp::Add),
        _ => panic!("not a binary expression"),
    }
    match konc_parser::expr("1 / 2").unwrap() {
        konc_parser::Expr::Binary(_, op, _) => assert_eq!(op, konc_parser::BinOp::Div),
        _ => panic!("not a binary expression"),
    }
}

#[test]
fn tail_comes_last_and_arms_have_patterns() {
    let items = kon_parser::parse("fn f() { let a = 1; g(a); a }");
    match &items[0] {
        kon_parser::Item::Fn { body, .. } => {
            assert_eq!(body.len(), 3);
            assert!(matches!(body[2], Stmt::Tail(_)));
            assert!(!matches!(body[0], Stmt::Tail(_)) && !matches!(body[1], Stmt::Tail(_)));
        },
        _ => panic!("not a function"),
    }
    assert!(kon_parser::program("fn f() { a b }").is_err());
    assert!(kon_parser::expr("switch (a) { => 1 }").is_err());
    assert!(konc_parser::expr("switch (a) { => 1 }").is_err());
}

#[test]
fn error_offset_is_where_the_items_stop() {
    match kon_parser::program("let x = 1") {
        Err(e) => assert_eq!(e.offset, 0),
        Ok(_) => panic!("accepted"),
    }
    match kon_parser::program("let a = 2;\nlet x = 1") {
        Err(e) => assert_eq!(e.offset, 11),
        Ok(_) => panic!("accepted"),
    }
}

#[test]
fn joined_programs_give_both_item_lists() {
    let a = "let a = 1; // last line has a comment";
    let b = "  fn f() { a }\nenum E { .X }";
    let joined = format!("{}\n{}", a, b);
    let ra: Vec<String> = kon_parser::parse(a).iter().map(|i| format!("{:?}", i)).collect();
    let rb: Vec<String> = kon_parser::parse(b).iter().map(|i| format!("{:?}", i)).collect();
    let r: Vec<String> = kon_parser::parse(&joined).iter().map(|i| format!("{:?}", i)).collect();
    assert_eq!(r, [ra, rb].concat());

    let a = "import std.io\npub let x = \\\\multi \\(y)\n;";
    let b = "extern \"C\" { fn puts(s: *const char); }\nfrom m import (p, q)";
    let joined = format!("{}\n{}", a, b);
    let ra: Vec<String> = konc_parser::parse(a).iter().map(|i| format!("{:?}", i)).collect();
    let rb: Vec<String> = konc_parser::parse(b).iter().map(|i| format!("{:?}", i)).collect();
    let r: Vec<String> = konc_parser::parse(&joined).iter().map(|i| format!("{:?}", i)).collect();
    assert_eq!(r, [ra, rb].concat());
}
