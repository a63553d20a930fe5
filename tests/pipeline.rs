use java_diagram::batch::{batch_step, generate_mermaid_class_diagram, SourceFile};
use java_diagram::diagram::{generate_diagram, infer_relationships, to_mermaid, ClassDiagram, Relationship};
use java_diagram::extract::{parse_java_class, parse_java_enum, parse_java_interface, parse_java_record, captured_texts, classify, parse_java_source, Declaration};
use java_diagram::grammar::{Capture, ExtractError};
use java_diagram::types::{ClassField, ClassInfo, ClassMethod, ClassType};

fn src(s: &str) -> String {
    s.to_string()
}

fn file(path: &str, text: Option<&str>) -> SourceFile {
    SourceFile { path: path.to_string(), contents: text.map(|t| t.to_string()) }
}

fn field(name: &str, ty: &str, vis: &str) -> ClassField {
    ClassField { name: name.to_string(), field_type: ty.to_string(), visibility: vis.to_string() }
}

fn class(name: &str, fields: Vec<ClassField>) -> ClassInfo {
    ClassInfo {
        name: name.to_string(),
        package: String::new(),
        fields,
        methods: Vec::new(),
        extends: None,
        implements: Vec::new(),
        class_type: ClassType::Class,
    }
}

fn cap(index: u32, text: &str) -> Capture {
    Capture { index, text: text.to_string(), start: 0 }
}

fn cap_at(index: u32, text: &str, start: usize) -> Capture {
    Capture { index, text: text.to_string(), start }
}

fn field_names(c: &ClassInfo) -> Vec<String> {
    c.fields.iter().map(|f| f.name.clone()).collect()
}

#[test]
fn extraction_is_idempotent() {
    let text = src("package a.b;\npublic class Foo extends Bar implements X, Y {\n  private int n;\n  public String go(int a, String b) { return b; }\n}\n");
    let first = parse_java_source(&text).unwrap();
    let second = parse_java_source(&text).unwrap();
    let d1 = generate_diagram(vec![first], false);
    let d2 = generate_diagram(vec![second], false);
    assert_eq!(d1, d2);
}

#[test]
fn class_header_package_and_supertypes() {
    let text = src("package com.example;\npublic class Foo extends Bar implements X, Y {\n}\n");
    let c = parse_java_source(&text).unwrap();
    assert_eq!(c.name, "Foo");
    assert_eq!(c.package, "com.example");
    assert_eq!(c.class_type, ClassType::Class);
    assert_eq!(c.extends, Some("Bar".to_string()));
    assert_eq!(c.implements, vec!["X".to_string(), "Y".to_string()]);
}

#[test]
fn abstract_class_kind() {
    let text = src("public abstract class Shape {\n  protected int sides;\n}\n");
    let c = parse_java_source(&text).unwrap();
    assert_eq!(c.class_type, ClassType::AbstractClass);
    assert_eq!(c.package, "");
}

#[test]
fn fields_keep_declaration_order() {
    let text = src("class Shuffled {\n  int zeta;\n  String alpha;\n  boolean mid;\n  long beta;\n}\n");
    let c = parse_java_source(&text).unwrap();
    assert_eq!(field_names(&c), vec!["zeta", "alpha", "mid", "beta"]);
    assert_eq!(c.fields[0].field_type, "int");
    assert_eq!(c.fields[1].field_type, "String");
}

#[test]
fn methods_keep_declaration_order_with_parameters() {
    let text = src("class M {\n  public void zz(int a, String b) {}\n  private int aa() { return 0; }\n  void mm(Foo f) {}\n}\n");
    let c = parse_java_source(&text).unwrap();
    let names: Vec<String> = c.methods.iter().map(|m| m.name.clone()).collect();
    assert_eq!(names, vec!["zz", "aa", "mm"]);
    assert_eq!(c.methods[0].visibility, "public");
    assert_eq!(c.methods[0].return_type, "void");
    assert_eq!(
        c.methods[0].parameters,
        vec![("a".to_string(), "int".to_string()), ("b".to_string(), "String".to_string())]
    );
    assert_eq!(c.methods[1].visibility, "private");
    assert!(c.methods[1].parameters.is_empty());
    assert_eq!(c.methods[2].visibility, "");
}

#[test]
fn visibility_glyphs_in_field_order() {
    let text = src("class V {\n  public int a;\n  private int b;\n  protected int c;\n  int d;\n}\n");
    let c = parse_java_source(&text).unwrap();
    let out = generate_diagram(vec![c], false);
    assert_eq!(
        out,
        "classDiagram\nclass V {\n    \n        + a: int\n        - b: int\n        # c: int\n         d: int\n    }\n"
    );
}

#[test]
fn self_association_is_one_edge() {
    let text = src("class Node { private Node next; }\n");
    let c = parse_java_source(&text).unwrap();
    let classes = vec![c];
    let rels = infer_relationships(&classes);
    assert_eq!(rels.len(), 1);
    assert_eq!(rels[0].from, "Node");
    assert_eq!(rels[0].to, "Node");
    assert_eq!(rels[0].type_, "association");
    let out = generate_diagram(classes, false);
    assert!(out.ends_with("    Node --> Node\n"));
}

#[test]
fn external_supertype_is_drawn_without_block() {
    let text = src("class Foo extends Bar {}\n");
    let c = parse_java_source(&text).unwrap();
    let out = generate_diagram(vec![c], false);
    assert_eq!(out, "classDiagram\nclass Foo {\n    \n    }\n    Foo <|-- Bar\n");
    assert!(!out.contains("class Bar"));
}

#[test]
fn batch_stops_at_first_failing_file() {
    let files = vec![
        file("A.java", Some("class A {}")),
        file("B.java", Some("import java.util.List;\n")),
        file("C.java", None),
    ];
    let r = generate_mermaid_class_diagram(&files, false);
    assert_eq!(r, Err("Failed to parse B.java: No class found".to_string()));
}

#[test]
fn batch_reports_unreadable_file() {
    let files = vec![file("A.java", Some("class A {}")), file("gone.java", None), file("C.java", Some("class C {}"))];
    let r = generate_mermaid_class_diagram(&files, false);
    assert_eq!(r, Err("Failed to parse gone.java: the file could not be read".to_string()));
}

#[test]
fn batch_renders_all_files_in_order() {
    let files = vec![
        file("A.java", Some("class A { private B b; }")),
        file("B.java", Some("interface B {}")),
    ];
    let r = generate_mermaid_class_diagram(&files, true).unwrap();
    assert_eq!(
        r,
        "classDiagram\n    direction LR\nclass A {\n    \n        - b: B\n    }\nclass B {\n    <<interface>>\n    }\n    A --> B\n"
    );
}

#[test]
fn empty_record_has_no_member_lines() {
    let text = src("public record Empty() {}\n");
    let c = parse_java_source(&text).unwrap();
    assert_eq!(c.name, "Empty");
    assert_eq!(c.class_type, ClassType::Record);
    assert!(c.fields.is_empty());
    let out = generate_diagram(vec![c], false);
    assert_eq!(out, "classDiagram\nclass Empty {\n    \n    }\n");
}

#[test]
fn record_components_become_fields() {
    let text = src("record Point(int x, List<String> tags) {}\n");
    let c = parse_java_source(&text).unwrap();
    assert_eq!(field_names(&c), vec!["x", "tags"]);
    assert_eq!(c.fields[0].field_type, "int");
    assert_eq!(c.fields[1].field_type, "List<String>");
    assert_eq!(c.fields[1].visibility, "");
}

#[test]
fn enum_constants_become_fields() {
    let text = src("package a.p;\nenum Color { RED, GREEN, BLUE }\n");
    let c = parse_java_source(&text).unwrap();
    assert_eq!(c.class_type, ClassType::Enum);
    assert_eq!(c.name, "Color");
    assert_eq!(c.package, "a.p");
    assert_eq!(field_names(&c), vec!["RED", "GREEN", "BLUE"]);
    assert_eq!(c.fields[0].field_type, "");
}

#[test]
fn interface_extends_fill_extends_then_implements() {
    let text = src("interface Shape extends A, B, C {\n  double area();\n}\n");
    let c = parse_java_source(&text).unwrap();
    assert_eq!(c.class_type, ClassType::Interface);
    assert_eq!(c.extends, Some("A".to_string()));
    assert_eq!(c.implements, vec!["B".to_string(), "C".to_string()]);
    assert_eq!(c.methods.len(), 1);
    assert_eq!(c.methods[0].name, "area");
}

#[test]
fn file_without_declaration_is_an_error() {
    let text = src("// nothing here\nimport java.util.List;\n");
    assert_eq!(parse_java_source(&text).err(), Some(ExtractError::NoDeclarationFound));
}

#[test]
fn direction_flag_changes_only_the_header() {
    let a = generate_diagram(vec![class("A", vec![field("b", "B", "private")]), class("B", vec![])], true);
    let b = generate_diagram(vec![class("A", vec![field("b", "B", "private")]), class("B", vec![])], false);
    assert_eq!(a.replacen("    direction LR\n", "", 1), b);
    assert!(a.starts_with("classDiagram\n    direction LR\n"));
    assert!(!b.contains("direction"));
}

#[test]
fn edges_come_in_three_passes() {
    let mut a = class("A", vec![field("c", "C", ""), field("c2", "C", ""), field("s", "String", "")]);
    a.extends = Some("Base".to_string());
    a.implements = vec!["I".to_string()];
    let mut c = class("C", vec![]);
    c.extends = Some("A".to_string());
    let rels = infer_relationships(&vec![a, c]);
    let got: Vec<(String, String, String)> = rels.iter().map(|r| (r.from.clone(), r.to.clone(), r.type_.clone())).collect();
    let want: Vec<(String, String, String)> = vec![
        ("A", "Base", "extends"),
        ("C", "A", "extends"),
        ("A", "I", "implements"),
        ("A", "C", "association"),
        ("A", "C", "association"),
    ]
    .into_iter()
    .map(|(x, y, z)| (x.to_string(), y.to_string(), z.to_string()))
    .collect();
    assert_eq!(got, want);
}

#[test]
fn generic_field_type_is_no_association() {
    let rels = infer_relationships(&vec![class("A", vec![field("xs", "List<B>", "")]), class("B", vec![])]);
    assert!(rels.is_empty());
}

#[test]
fn arrows_for_every_kind() {
    let kinds = ["extends", "implements", "association", "composition", "aggregation", "other"];
    let relationships = kinds
        .iter()
        .map(|k| Relationship { from: "X".to_string(), to: "Y".to_string(), type_: k.to_string() })
        .collect();
    let d = ClassDiagram { classes: Vec::new(), relationships };
    assert_eq!(
        to_mermaid(&d, false),
        "classDiagram\n    X <|-- Y\n    X <|-- Y\n    X --> Y\n    X *-- Y\n    X o-- Y\n    X -- Y\n"
    );
}

#[test]
fn method_line_format() {
    let mut c = class("S", vec![]);
    c.class_type = ClassType::Interface;
    c.methods = vec![ClassMethod {
        name: "run".to_string(),
        return_type: "int".to_string(),
        visibility: "protected".to_string(),
        parameters: vec![("a".to_string(), "int".to_string()), ("b".to_string(), "Foo".to_string())],
    }];
    let d = ClassDiagram { classes: vec![c], relationships: Vec::new() };
    assert_eq!(to_mermaid(&d, false), "classDiagram\nclass S {\n    <<interface>>\n        # run: int(a: int, b: Foo)\n    }\n");
}

#[test]
fn classify_picks_first_declaration() {
    let kinds = vec!["package_declaration".to_string(), "import_declaration".to_string(), "enum_declaration".to_string(), "class_declaration".to_string()];
    assert_eq!(classify(&kinds), Some(Declaration::Enum));
    assert_eq!(classify(&vec!["line_comment".to_string()]), None);
}

#[test]
fn captured_texts_in_order() {
    let ms = vec![vec![cap(0, "a"), cap(1, "b")], vec![cap(1, "c"), cap(0, "d")]];
    assert_eq!(captured_texts(&ms, 0), vec!["a".to_string(), "d".to_string()]);
    assert_eq!(captured_texts(&ms, 1), vec!["b".to_string(), "c".to_string()]);
}

#[test]
fn build_class_from_captures() {
    let pkg = vec![vec![cap(0, "x.y")]];
    let head = vec![vec![cap(0, "abstract"), cap(1, "K"), cap(2, "P"), cap(3, "I")], vec![cap(0, "abstract"), cap(1, "K"), cap(2, "P"), cap(3, "J")]];
    let fields = vec![vec![cap(0, "private"), cap(1, "int"), cap(2, "n")], vec![cap(1, "K"), cap(2, "next")]];
    let methods = vec![
        vec![cap(0, "public"), cap(1, "void"), cap_at(2, "m", 40)],
        vec![cap(1, "int"), cap_at(2, "m", 70)],
    ];
    let params = vec![
        vec![cap_at(0, "m", 40), cap(1, "int"), cap(2, "a")],
        vec![cap_at(0, "m", 70), cap(1, "long"), cap(2, "z")],
        vec![cap_at(0, "m", 40), cap(2, "b")],
    ];
    let c = parse_java_class(&pkg, &head, &fields, &methods, &params).unwrap();
    assert_eq!(c.name, "K");
    assert_eq!(c.package, "x.y");
    assert_eq!(c.class_type, ClassType::AbstractClass);
    assert_eq!(c.extends, Some("P".to_string()));
    assert_eq!(c.implements, vec!["I".to_string(), "J".to_string()]);
    assert_eq!(c.fields[0].visibility, "private");
    assert_eq!(c.fields[1].visibility, "");
    assert_eq!(c.fields[1].field_type, "K");
    assert_eq!(c.methods[0].parameters, vec![("a".to_string(), "int".to_string()), ("b".to_string(), "".to_string())]);
    assert_eq!(c.methods[1].parameters, vec![("z".to_string(), "long".to_string())]);
    assert_eq!(c.methods[1].visibility, "");
}

#[test]
fn build_without_name_is_not_found() {
    let none: Vec<Vec<Capture>> = Vec::new();
    assert_eq!(parse_java_class(&none, &none, &none, &none, &none).err(), Some(ExtractError::NoDeclarationFound));
    assert_eq!(parse_java_record(&none, &none, &none).err(), Some(ExtractError::NoDeclarationFound));
}

#[test]
fn build_interface_enum_record_from_captures() {
    let none: Vec<Vec<Capture>> = Vec::new();
    let i = parse_java_interface(&none, &vec![vec![cap(0, "I"), cap(1, "A")], vec![cap(0, "I"), cap(1, "B")]], &none, &none, &none).unwrap();
    assert_eq!(i.extends, Some("A".to_string()));
    assert_eq!(i.implements, vec!["B".to_string()]);
    let e = parse_java_enum(
        &none,
        &vec![vec![cap_at(0, "E", 5)]],
        &vec![vec![cap_at(0, "E", 5), cap(1, "ONE")], vec![cap_at(0, "Inner", 30), cap(1, "X")], vec![cap_at(0, "E", 5), cap(1, "TWO")]],
    )
    .unwrap();
    assert_eq!(field_names(&e), vec!["ONE", "TWO"]);
    let r = parse_java_record(&none, &vec![vec![cap(0, "R")]], &vec![vec![cap(0, "R"), cap(1, "int"), cap(2, "x")]]).unwrap();
    assert_eq!(r.fields[0].name, "x");
    assert_eq!(r.fields[0].field_type, "int");
}

#[test]
fn members_are_scanned_over_the_whole_file() {
    // Fields and methods are collected from every declaration of the file and credited to the
    // first top-level declaration; the header is that of the first declaration alone.
    let text = src("class A extends Base { int x; }\nclass B extends Other implements I { int y; void run() {} }\n");
    let c = parse_java_source(&text).unwrap();
    assert_eq!(c.name, "A");
    assert_eq!(c.extends, Some("Base".to_string()));
    assert!(c.implements.is_empty());
    assert_eq!(field_names(&c), vec!["x", "y"]);
    assert_eq!(c.methods.len(), 1);
}

#[test]
fn nested_class_header_is_not_the_outer_one() {
    let text = src("class Outer { static abstract class Inner extends Base implements I {} }\n");
    let c = parse_java_source(&text).unwrap();
    assert_eq!(c.name, "Outer");
    assert_eq!(c.class_type, ClassType::Class);
    assert_eq!(c.extends, None);
    assert!(c.implements.is_empty());
}

#[test]
fn record_components_belong_to_the_first_record() {
    let text = src("record P(int x) { record Q(long y, long z) {} }\n");
    let c = parse_java_source(&text).unwrap();
    assert_eq!(c.name, "P");
    assert_eq!(field_names(&c), vec!["x"]);
}

#[test]
fn batch_ignores_files_after_the_failure() {
    let a = vec![file("A.java", Some("class A {}")), file("B.java", Some("// empty")), file("C.java", Some("class C {}"))];
    let b = vec![file("A.java", Some("class A {}")), file("B.java", Some("// empty")), file("missing.java", None)];
    assert_eq!(generate_mermaid_class_diagram(&a, false), generate_mermaid_class_diagram(&b, false));
}

#[test]
fn batch_step_adds_or_reports() {
    let mut classes = Vec::new();
    assert_eq!(batch_step(&mut classes, &file("A.java", Some("class A {}"))), None);
    assert_eq!(classes.len(), 1);
    assert_eq!(
        batch_step(&mut classes, &file("x.java", Some("import a.b;"))),
        Some("Failed to parse x.java: No class found".to_string())
    );
    assert_eq!(classes.len(), 1);
}
