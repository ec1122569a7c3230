use ast_conversion::callables::{extract_functions, extract_parameters};
use ast_conversion::document::{generate_document, SourceUnit};
use ast_conversion::extract::{
    extract_constants, extract_fields, extract_globals, extract_imports, extract_metadata,
    extract_structs,
};
use ast_conversion::items::{extract_enums, extract_modules_and_impls, extract_nested};
use ast_conversion::kind::{classify, Kind};
use ast_conversion::relations::extract_relations;
use ast_conversion::report::{ContainerKind, Diagnostic, Gap, Relation};
use ast_conversion::schema::{has_marker, infer_schemas};
use ast_conversion::shape::{add_parent_name, build, build_document, parent_namer, Element};
use ast_conversion::syntax::SyntaxNode;
use ast_conversion::text::{mentions, same_text, span_of};

fn node(tag: &str, field: Option<&str>, named: bool, span: (usize, usize), children: Vec<SyntaxNode>) -> SyntaxNode {
    SyntaxNode {
        tag: tag.to_string(),
        field: field.map(|f| f.to_string()),
        named,
        start: span.0,
        end: span.1,
        children,
    }
}

/// The span of the first occurrence of `needle` in `code` at or after `from`.
fn find(code: &str, needle: &str, from: usize) -> (usize, usize) {
    let s = from + code[from..].find(needle).unwrap();
    (s, s + needle.len())
}

fn token(code: &str, text: &str, from: usize) -> SyntaxNode {
    node(text, None, false, find(code, text, from), vec![])
}

fn named(code: &str, tag: &str, field: Option<&str>, text: &str, from: usize) -> SyntaxNode {
    node(tag, field, true, find(code, text, from), vec![])
}

fn field_decl(code: &str, name: &str, ty: &str, from: usize) -> SyntaxNode {
    let whole = format!("{}: {}", name, ty);
    node(
        "field_declaration",
        None,
        true,
        find(code, &whole, from),
        vec![
            named(code, "field_identifier", Some("name"), name, from),
            token(code, ":", from),
            named(code, "primitive_type", Some("type"), ty, from),
        ],
    )
}

fn attribute_item(code: &str, inner: &str, from: usize) -> SyntaxNode {
    let whole = format!("#[{}]", inner);
    node(
        "attribute_item",
        None,
        true,
        find(code, &whole, from),
        vec![
            token(code, "#", from),
            named(code, "attribute", None, inner, from),
        ],
    )
}

const UNIT: &str = "use std::fmt;\nfn main() { run(); }\nstruct User { id: u32, #[foreign_key(Team)] team: u32 }\nenum Color { Red, Green }\n";

/// A tree for `UNIT` in the shape the Rust grammar gives it.
fn unit_tree() -> SyntaxNode {
    let c = UNIT;
    let f_at = c.find("fn main").unwrap();
    let s_at = c.find("struct User").unwrap();
    let e_at = c.find("enum Color").unwrap();
    let import = node(
        "use_declaration",
        None,
        true,
        find(c, "use std::fmt;", 0),
        vec![token(c, "use", 0), named(c, "scoped_identifier", Some("argument"), "std::fmt", 0)],
    );
    let function = node(
        "function_item",
        None,
        true,
        find(c, "fn main() { run(); }", 0),
        vec![
            token(c, "fn", f_at),
            named(c, "identifier", Some("name"), "main", f_at),
            node("parameters", Some("parameters"), true, find(c, "()", f_at), vec![token(c, "(", f_at), token(c, ")", f_at)]),
            node(
                "block",
                Some("body"),
                true,
                find(c, "{ run(); }", f_at),
                vec![node(
                    "expression_statement",
                    None,
                    true,
                    find(c, "run();", f_at),
                    vec![node("call_expression", None, true, find(c, "run()", f_at), vec![
                        named(c, "identifier", Some("function"), "run", f_at),
                    ])],
                )],
            ),
        ],
    );
    let body_at = c.find("{ id").unwrap();
    let structure = node(
        "struct_item",
        None,
        true,
        find(c, "struct User { id: u32, #[foreign_key(Team)] team: u32 }", 0),
        vec![
            token(c, "struct", s_at),
            named(c, "type_identifier", Some("name"), "User", s_at),
            node(
                "field_declaration_list",
                Some("body"),
                true,
                find(c, "{ id: u32, #[foreign_key(Team)] team: u32 }", s_at),
                vec![
                    token(c, "{", body_at),
                    field_decl(c, "id", "u32", body_at),
                    token(c, ",", body_at),
                    attribute_item(c, "foreign_key(Team)", body_at),
                    field_decl(c, "team", "u32", body_at),
                    token(c, "}", body_at),
                ],
            ),
        ],
    );
    let enumeration = node(
        "enum_item",
        None,
        true,
        find(c, "enum Color { Red, Green }", 0),
        vec![
            token(c, "enum", e_at),
            named(c, "type_identifier", Some("name"), "Color", e_at),
            node(
                "enum_variant_list",
                Some("body"),
                true,
                find(c, "{ Red, Green }", e_at),
                vec![
                    token(c, "{", e_at),
                    node("enum_variant", None, true, find(c, "Red", e_at), vec![named(c, "identifier", Some("name"), "Red", e_at)]),
                    token(c, ",", e_at),
                    node("enum_variant", None, true, find(c, "Green", e_at), vec![named(c, "identifier", Some("name"), "Green", e_at)]),
                    token(c, "}", e_at),
                ],
            ),
        ],
    );
    node("source_file", None, true, (0, c.len()), vec![import, function, structure, enumeration])
}

#[test]
fn classify_known_and_unknown_tags() {
    assert_eq!(classify("source_file"), Some(Kind::Root));
    assert_eq!(classify("struct_item"), Some(Kind::Struct));
    assert_eq!(classify("impl_item"), Some(Kind::Impl));
    assert_eq!(classify("call_expression"), Some(Kind::FunctionCall));
    assert_eq!(classify("attribute_item"), Some(Kind::Derive));
    assert_eq!(classify("import"), Some(Kind::Import));
    assert_eq!(classify("use_declaration"), None);
    assert_eq!(classify("declaration_list"), None);
    assert_eq!(classify(""), None);
    assert_eq!(Kind::from_tag("field_declaration_list"), Kind::Undefined);
    assert_eq!(Kind::from_tag("let_declaration"), Kind::Variable);
    assert!(Kind::Undefined.is_undefined());
    assert!(!Kind::Function.is_undefined());
    assert_eq!(Kind::default(), Kind::Comment);
}

#[test]
fn text_resolution_slices_by_bytes() {
    let code = "let é = 1;";
    assert_eq!(span_of(code, 0, 3), "let");
    assert_eq!(span_of(code, 4, 6), "é");
    // inside a multi-byte character, or reversed, or past the end: empty
    assert_eq!(span_of(code, 4, 5), "");
    assert_eq!(span_of(code, 3, 2), "");
    assert_eq!(span_of(code, 0, 99), "");
    assert_eq!(span_of(code, 0, code.len()), code);
}

#[test]
fn text_comparison_and_search() {
    assert!(same_text("abc", "abc"));
    assert!(!same_text("abc", "abd"));
    assert!(!same_text("abc", "ab"));
    assert!(mentions("derive(Debug)", "derive"));
    assert!(mentions("x", ""));
    assert!(!mentions("deriv", "derive"));
    assert!(mentions("sea_orm(foreign_key = \"team\")", "foreign_key"));
}

#[test]
fn assembled_report_counts() {
    let tree = unit_tree();
    let doc = generate_document(UNIT, &tree);
    assert_eq!(doc.imports.len(), 1);
    assert_eq!(doc.imports[0], "use std::fmt;");
    assert_eq!(doc.functions.len(), 1);
    assert_eq!(doc.functions[0].name, "main");
    assert_eq!(doc.functions[0].body, "fn main() { run(); }");
    assert_eq!(doc.structs.len(), 1);
    assert_eq!(doc.structs[0].fields.len(), 2);
    assert_eq!(doc.schemas.len(), 1);
    assert_eq!(doc.schemas[0].foreign_keys.len(), 1);
    assert_eq!(doc.schemas[0].foreign_keys[0], "team");
    assert_eq!(doc.enums.len(), 1);
    assert_eq!(doc.enums[0].variants, vec!["Red".to_string(), "Green".to_string()]);
    assert!(doc.diagnostics.is_empty());
}

#[test]
fn report_is_deterministic() {
    let tree = unit_tree();
    let a = generate_document(UNIT, &tree);
    let b = generate_document(UNIT, &tree);
    assert_eq!(format!("{:?}", a), format!("{:?}", b));
    let unit = SourceUnit::new(UNIT.to_string(), unit_tree());
    assert_eq!(format!("{:?}", unit.generate_json()), format!("{:?}", a));
    assert_eq!(format!("{:?}", unit.generate_ast_with_relations()), format!("{:?}", a.nested_items));
}

#[test]
fn field_attributes_attach_to_the_next_field() {
    let tree = unit_tree();
    let mut diags = Vec::new();
    let fields = extract_fields(UNIT, &tree.children[2], &mut diags);
    assert_eq!(fields[0].name, "id");
    assert_eq!(fields[0].ty.as_deref(), Some("u32"));
    assert!(fields[0].attributes.is_empty());
    assert_eq!(fields[1].name, "team");
    assert_eq!(fields[1].attributes, vec!["foreign_key(Team)".to_string()]);
    assert!(diags.is_empty());
}

#[test]
fn first_identifier_names_the_struct() {
    let code = "struct Point(f64);";
    let tree = node(
        "struct_item",
        None,
        true,
        (0, code.len()),
        vec![
            token(code, "struct", 0),
            named(code, "type_identifier", Some("name"), "Point", 0),
            node("ordered_field_declaration_list", Some("body"), true, find(code, "(f64)", 0), vec![
                token(code, "(", 0),
                named(code, "type_identifier", Some("type"), "f64", 0),
                token(code, ")", 0),
            ]),
            token(code, ";", 0),
        ],
    );
    let doc = build_document(code, &tree);
    assert_eq!(doc.children.len(), 1);
    let s = &doc.children[0];
    assert_eq!(s.kind, Kind::Struct);
    assert_eq!(s.name.as_deref(), Some("Point"));
    assert_eq!(s.text, code);
}

#[test]
fn unmapped_wrapper_is_flattened() {
    let code = "{ fn inner() {} }";
    let function = node("function_item", None, true, find(code, "fn inner() {}", 0), vec![
        token(code, "fn", 0),
        named(code, "identifier", Some("name"), "inner", 0),
    ]);
    let wrapper = node("declaration_list", None, true, (0, code.len()), vec![token(code, "{", 0), function, token(code, "}", 0)]);
    let mut parent = Element::new(Kind::Root, "Root".to_string());
    build(code, &wrapper, &mut parent);
    assert_eq!(parent.children.len(), 1);
    assert_eq!(parent.children[0].kind, Kind::Function);
    assert_eq!(parent.children[0].name.as_deref(), Some("inner"));
    assert_eq!(parent.children[0].text, "fn inner() {}");
    assert_eq!(parent.relations, vec![(Kind::Root, Kind::Function)]);
    assert!(parent.children.iter().all(|c| !c.kind.is_undefined()));
}

#[test]
fn impl_records_function_edge() {
    let code = "impl Shape for Circle { fn area(&self) {} }";
    let function = node("function_item", None, true, find(code, "fn area(&self) {}", 0), vec![
        token(code, "fn", 0),
        named(code, "identifier", Some("name"), "area", 0),
    ]);
    let body = node("declaration_list", Some("body"), true, find(code, "{ fn", 0), vec![function]);
    let imp = node("impl_item", None, true, (0, code.len()), vec![
        token(code, "impl", 0),
        named(code, "type_identifier", Some("trait"), "Shape", 0),
        named(code, "type_identifier", Some("type"), "Circle", 0),
        body,
    ]);
    let doc = build_document(code, &imp);
    let element = &doc.children[0];
    assert_eq!(element.kind, Kind::Impl);
    assert_eq!(element.name.as_deref(), Some("Shape"));
    assert!(element.relations.contains(&(Kind::Impl, Kind::Function)));
    assert_eq!(element.children[0].name.as_deref(), Some("area"));
    assert_eq!(doc.relations, vec![(Kind::Root, Kind::Impl)]);
}

#[test]
fn unnamed_field_is_skipped_with_diagnostic() {
    let code = "struct S { broken, ok: u8 } struct T { a: u8 }";
    let broken = node("field_declaration", None, true, find(code, "broken", 0), vec![
        named(code, "type_identifier", Some("type"), "broken", 0),
    ]);
    let s = node("struct_item", None, true, find(code, "struct S { broken, ok: u8 }", 0), vec![
        token(code, "struct", 0),
        named(code, "type_identifier", Some("name"), "S", 0),
        node("field_declaration_list", Some("body"), true, find(code, "{ broken, ok: u8 }", 0), vec![
            token(code, "{", 0),
            broken,
            token(code, ",", 0),
            field_decl(code, "ok", "u8", 0),
            token(code, "}", 0),
        ]),
    ]);
    let t_at = code.find("struct T").unwrap();
    let t = node("struct_item", None, true, find(code, "struct T { a: u8 }", 0), vec![
        token(code, "struct", t_at),
        named(code, "type_identifier", Some("name"), "T", t_at),
        node("field_declaration_list", Some("body"), true, find(code, "{ a: u8 }", t_at), vec![field_decl(code, "a", "u8", t_at)]),
    ]);
    let root = node("source_file", None, true, (0, code.len()), vec![s, t]);
    let mut diags = Vec::new();
    let structs = extract_structs(code, &root, &mut diags);
    assert_eq!(structs.len(), 2);
    assert_eq!(structs[0].fields.len(), 1);
    assert_eq!(structs[0].fields[0].name, "ok");
    assert_eq!(structs[1].fields[0].name, "a");
    assert_eq!(diags, vec![Diagnostic { gap: Gap::MissingName, at: find(code, "broken", 0).0 }]);
    let doc = generate_document(code, &root);
    assert_eq!(doc.structs.len(), 2);
    assert_eq!(doc.diagnostics.len(), 1);
}

#[test]
fn schema_lists_foreign_keys_only() {
    let tree = unit_tree();
    let mut diags = Vec::new();
    let structs = extract_structs(UNIT, &tree, &mut diags);
    let schemas = infer_schemas(&structs);
    assert_eq!(schemas[0].name, "User");
    assert_eq!(schemas[0].fields.len(), 2);
    assert_eq!(schemas[0].foreign_keys, vec!["team".to_string()]);
    assert!(has_marker(&vec!["serde(rename)".to_string(), "foreign_key(T)".to_string()], "foreign_key"));
    assert!(!has_marker(&vec!["serde(rename)".to_string()], "foreign_key"));
    assert!(infer_schemas(&Vec::new()).is_empty());
}

#[test]
fn relations_list_impls_and_derives() {
    let code = "#[derive(Debug)]\nstruct A;\n#[inline]\nimpl<T> Show for A {}\nimpl {}";
    let derive = attribute_item(code, "derive(Debug)", 0);
    let inline = attribute_item(code, "inline", 0);
    let imp = node("impl_item", None, true, find(code, "impl<T> Show for A {}", 0), vec![
        token(code, "impl", 0),
        named(code, "type_parameters", Some("type_parameters"), "<T>", 0),
        named(code, "type_identifier", Some("trait"), "Show", 0),
        named(code, "type_identifier", Some("type"), "A", find(code, "for A", 0).0),
    ]);
    let bare = node("impl_item", None, true, find(code, "impl {}", 0), vec![]);
    let root = node("source_file", None, true, (0, code.len()), vec![derive, inline, imp, bare]);
    let mut diags = Vec::new();
    let relations = extract_relations(code, &root, &mut diags);
    assert_eq!(relations.len(), 2);
    match &relations[0] {
        Relation::Derive { details } => assert_eq!(details, "derive(Debug)"),
        other => panic!("unexpected {:?}", other),
    }
    match &relations[1] {
        Relation::Impl { for_type, trait_name, generics } => {
            assert_eq!(for_type, "A");
            assert_eq!(trait_name.as_deref(), Some("Show"));
            assert_eq!(generics.as_deref(), Some("<T>"));
        },
        other => panic!("unexpected {:?}", other),
    }
    assert_eq!(diags, vec![Diagnostic { gap: Gap::MissingName, at: find(code, "impl {}", 0).0 }]);
}

#[test]
fn metadata_skips_attribute_without_content() {
    let code = "#[test]\n#[]";
    let good = attribute_item(code, "test", 0);
    let empty = node("attribute_item", None, true, find(code, "#[]", 0), vec![token(code, "#", 8)]);
    let root = node("source_file", None, true, (0, code.len()), vec![good, empty]);
    let mut diags = Vec::new();
    let meta = extract_metadata(code, &root, &mut diags);
    assert_eq!(meta, vec!["test".to_string()]);
    assert_eq!(diags, vec![Diagnostic { gap: Gap::MissingAttribute, at: 8 }]);
}

#[test]
fn constants_and_globals() {
    let code = "const A: u8 = 1;\nlet b = 2;\nconst C: u8;\nconst = 3;\nlet c;\nlet = 4;";
    let a = node("const_item", None, true, find(code, "const A: u8 = 1;", 0), vec![
        named(code, "identifier", Some("name"), "A", 0),
        named(code, "integer_literal", Some("value"), "1", 0),
    ]);
    let b = node("let_declaration", None, true, find(code, "let b = 2;", 0), vec![
        named(code, "identifier", Some("pattern"), "b", find(code, "let b", 0).0),
        named(code, "integer_literal", Some("value"), "2", 0),
    ]);
    let c = node("const_item", None, true, find(code, "const C: u8;", 0), vec![
        named(code, "identifier", Some("name"), "C", 0),
    ]);
    let d = node("const_item", None, true, find(code, "const = 3;", 0), vec![]);
    let e = node("let_declaration", None, true, find(code, "let c;", 0), vec![
        named(code, "identifier", Some("pattern"), "c", find(code, "let c", 0).0),
    ]);
    let f = node("let_declaration", None, true, find(code, "let = 4;", 0), vec![]);
    let root = node("source_file", None, true, (0, code.len()), vec![a, b, c, d, e, f]);
    let mut diags = Vec::new();
    let constants = extract_constants(code, &root, &mut diags);
    assert_eq!(constants.len(), 2);
    assert_eq!((constants[0].name.as_str(), constants[0].value.as_str()), ("A", "1"));
    assert_eq!((constants[1].name.as_str(), constants[1].value.as_str()), ("C", "const C: u8;"));
    assert_eq!(diags, vec![Diagnostic { gap: Gap::MissingName, at: find(code, "const = 3;", 0).0 }]);
    let mut more = Vec::new();
    let globals = extract_globals(code, &root, &mut more);
    assert_eq!(globals.len(), 2);
    assert_eq!((globals[0].name.as_str(), globals[0].value.as_str()), ("b", "2"));
    assert_eq!((globals[1].name.as_str(), globals[1].value.as_str()), ("c", "let c;"));
    assert_eq!(more, vec![Diagnostic { gap: Gap::MissingName, at: find(code, "let = 4;", 0).0 }]);
    assert!(extract_imports(code, &root).is_empty());
}

#[test]
fn modules_and_impls_list_their_direct_declarations() {
    let code = "mod m { fn f() {} struct S; }\nimpl T { fn g() {} }";
    let m_body = node("declaration_list", Some("body"), true, find(code, "{ fn f() {} struct S; }", 0), vec![
        node("function_item", None, true, find(code, "fn f() {}", 0), vec![named(code, "identifier", Some("name"), "f", 0)]),
        node("struct_item", None, true, find(code, "struct S;", 0), vec![named(code, "type_identifier", Some("name"), "S", 0)]),
    ]);
    let m = node("mod_item", None, true, find(code, "mod m { fn f() {} struct S; }", 0), vec![
        token(code, "mod", 0),
        named(code, "identifier", Some("name"), "m", 0),
        m_body,
    ]);
    let i_at = code.find("impl").unwrap();
    let i_body = node("declaration_list", Some("body"), true, find(code, "{ fn g() {} }", i_at), vec![
        node("function_item", None, true, find(code, "fn g() {}", 0), vec![named(code, "identifier", Some("name"), "g", 0)]),
    ]);
    let imp = node("impl_item", None, true, find(code, "impl T { fn g() {} }", 0), vec![
        named(code, "type_identifier", Some("type"), "T", i_at),
        i_body,
    ]);
    let root = node("source_file", None, true, (0, code.len()), vec![m, imp]);
    let mut diags = Vec::new();
    let containers = extract_modules_and_impls(code, &root, &mut diags);
    assert_eq!(containers.len(), 2);
    assert_eq!(containers[0].kind, ContainerKind::Module);
    assert_eq!(containers[0].name, "m");
    assert_eq!(containers[0].children.len(), 2);
    assert_eq!(containers[0].children[0].kind, Kind::Function);
    assert_eq!(containers[0].children[0].name, "f");
    assert_eq!(containers[0].children[1].kind, Kind::Struct);
    assert_eq!(containers[1].kind, ContainerKind::Impl);
    assert_eq!(containers[1].name, "T");
    assert_eq!(containers[1].children[0].name, "g");
    assert!(diags.is_empty());
    // the scan is shallow: nothing at the root itself is a function, struct or enum
    let mut none = Vec::new();
    assert!(extract_nested(code, &root, &mut none).is_empty());
}

#[test]
fn enums_without_names_are_skipped() {
    let code = "enum { A } enum E { B, }";
    let nameless = node("enum_item", None, true, find(code, "enum { A }", 0), vec![]);
    let e_at = code.find("enum E").unwrap();
    let e = node("enum_item", None, true, find(code, "enum E { B, }", 0), vec![
        named(code, "type_identifier", Some("name"), "E", e_at),
        node("enum_variant_list", Some("body"), true, find(code, "{ B, }", e_at), vec![
            node("enum_variant", None, true, find(code, "B", e_at), vec![named(code, "identifier", Some("name"), "B", e_at)]),
            token(code, ",", e_at),
        ]),
    ]);
    let root = node("source_file", None, true, (0, code.len()), vec![nameless, e]);
    let mut diags = Vec::new();
    let enums = extract_enums(code, &root, &mut diags);
    assert_eq!(enums.len(), 1);
    assert_eq!(enums[0].name, "E");
    assert_eq!(enums[0].variants, vec!["B".to_string()]);
    assert_eq!(diags, vec![Diagnostic { gap: Gap::MissingName, at: 0 }]);
}

#[test]
fn function_parameters_calls_and_locals() {
    let code = "fn f(&self, mut x: &u8, y: i32) { let z = 1; g(); let = 2; }";
    let params = node("parameters", Some("parameters"), true, find(code, "(&self, mut x: &u8, y: i32)", 0), vec![
        token(code, "(", 0),
        node("self_parameter", None, true, find(code, "&self", 0), vec![token(code, "&", 0), token(code, "self", 0)]),
        token(code, ",", 0),
        node("parameter", None, true, find(code, "mut x: &u8", 0), vec![
            node("mutable_specifier", None, true, find(code, "mut", 0), vec![]),
            named(code, "identifier", Some("pattern"), "x", 0),
            named(code, "reference_type", Some("type"), "&u8", 0),
        ]),
        node("parameter", None, true, find(code, "y: i32", 0), vec![
            named(code, "identifier", Some("pattern"), "y", 0),
            named(code, "primitive_type", Some("type"), "i32", 0),
        ]),
        token(code, ")", 0),
    ]);
    let z = node("let_declaration", None, true, find(code, "let z = 1;", 0), vec![
        named(code, "identifier", Some("pattern"), "z", 0),
        named(code, "integer_literal", Some("value"), "1", 0),
    ]);
    let call = node("call_expression", None, true, find(code, "g()", 0), vec![named(code, "identifier", Some("function"), "g", 0)]);
    let broken = node("let_declaration", None, true, find(code, "let = 2;", 0), vec![]);
    let f = node("function_item", None, true, (0, code.len()), vec![
        token(code, "fn", 0),
        named(code, "identifier", Some("name"), "f", 0),
        params,
        z,
        call,
        broken,
    ]);
    let ps = extract_parameters(code, &f);
    assert_eq!(ps.len(), 3);
    assert_eq!(ps[0].name, "&self");
    assert!(ps[0].is_reference && !ps[0].is_mutable && ps[0].ty.is_none());
    assert_eq!(ps[1].name, "x");
    assert_eq!(ps[1].ty.as_deref(), Some("&u8"));
    // the text `mut x: &u8` does not start with `&`
    assert!(!ps[1].is_reference && ps[1].is_mutable);
    assert_eq!(ps[2].name, "y");
    assert!(!ps[2].is_reference && !ps[2].is_mutable);
    assert!(ps[2].default_value.is_none());
    let root = node("source_file", None, true, (0, code.len()), vec![f]);
    let mut diags = Vec::new();
    let fs = extract_functions(code, &root, &mut diags);
    assert_eq!(fs.len(), 1);
    assert_eq!(fs[0].called_methods, vec!["g".to_string()]);
    assert_eq!(fs[0].local_variables.len(), 1);
    assert_eq!(fs[0].local_variables[0].name, "z");
    assert_eq!(fs[0].local_variables[0].value.as_deref(), Some("1"));
    assert_eq!(diags, vec![Diagnostic { gap: Gap::MissingName, at: find(code, "let = 2;", 0).0 }]);
}

#[test]
fn names_are_set_once() {
    let mut e = Element::new(Kind::Struct, "struct P".to_string());
    add_parent_name(&"P".to_string(), &mut e);
    add_parent_name(&"Q".to_string(), &mut e);
    assert_eq!(e.name.as_deref(), Some("P"));
    let mut f = Element::new(Kind::Function, "fn".to_string());
    parent_namer("primitive_type", &"u8".to_string(), &mut f);
    assert!(f.name.is_none());
    parent_namer("identifier", &"run".to_string(), &mut f);
    parent_namer("type_identifier", &"Other".to_string(), &mut f);
    assert_eq!(f.name.as_deref(), Some("run"));
}

#[test]
fn shaped_tree_of_a_unit() {
    let tree = unit_tree();
    let top = build_document(UNIT, &tree);
    assert_eq!(top.kind, Kind::Root);
    assert_eq!(top.text, "Root");
    assert_eq!(top.children.len(), 1);
    let file = &top.children[0];
    assert_eq!(file.kind, Kind::Root);
    let kinds: Vec<Kind> = file.children.iter().map(|c| c.kind).collect();
    assert_eq!(kinds, vec![Kind::Function, Kind::Struct, Kind::Enum]);
    assert_eq!(file.relations, vec![(Kind::Root, Kind::Function), (Kind::Root, Kind::Struct), (Kind::Root, Kind::Enum)]);
    assert_eq!(file.children[0].name.as_deref(), Some("main"));
    assert_eq!(file.children[0].children[0].kind, Kind::FunctionCall);
    assert_eq!(file.children[0].children[0].name.as_deref(), Some("run"));
    let user = &file.children[1];
    assert_eq!(user.name.as_deref(), Some("User"));
    let inner: Vec<Kind> = user.children.iter().map(|c| c.kind).collect();
    assert_eq!(inner, vec![Kind::Field, Kind::Derive, Kind::Field]);
    assert_eq!(file.children[2].name.as_deref(), Some("Color"));
}
