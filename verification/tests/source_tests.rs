use quote::ToTokens;

use slopc::deps::collect_deps;
use slopc::types::{
    is_builtin_type, is_type_definition_kind, parse_source_items, resolve_types_from_source,
    select_type_definitions, ItemKind, SourceItem, TypeCollector,
};

fn strings(v: &[&str]) -> Vec<String> {
    v.iter().map(|s| s.to_string()).collect()
}

fn item_text(src: &str, index: usize) -> String {
    let file = syn::parse_file(src).unwrap();
    file.items[index].to_token_stream().to_string()
}

#[test]
fn builtin_types_recognised() {
    for name in ["bool", "usize", "String", "Vec", "Option", "HashMap", "PhantomData", "Self"] {
        assert!(is_builtin_type(name), "{name}");
    }
    for name in ["Point", "string", "Vec2", ""] {
        assert!(!is_builtin_type(name), "{name}");
    }
}

#[test]
fn type_collector_keeps_new_user_types_once() {
    let mut c = TypeCollector::new();
    assert!(c.names().is_empty());
    for seg in ["Vec", "Point", "Option", "Shape", "Point", "i32"] {
        c.visit_path_segment(seg);
    }
    assert_eq!(c.names(), strings(&["Point", "Shape"]));
}

#[test]
fn resolve_types_picks_first_definitions() {
    let a = "use std::fmt;\nstruct Point { x: i32, y: i32 }\nfn helper() {}\nenum Shape { Dot(Point) }";
    let b = "struct Point { z: u8 }\ntrait Draw { fn draw(&self); }\ntype Id = u64;";
    let files = strings(&[a, b]);
    let names = strings(&["Point", "Draw", "Id", "Missing"]);
    let expected = format!("{}\n\n{}\n\n{}", item_text(a, 1), item_text(b, 1), item_text(b, 2));
    assert_eq!(resolve_types_from_source(&files, &names), expected);
}

#[test]
fn resolve_types_skips_unparsable_files() {
    let files = strings(&["struct Broken {", "enum Shape { A, B }"]);
    let names = strings(&["Shape", "Broken"]);
    assert_eq!(resolve_types_from_source(&files, &names), item_text("enum Shape { A, B }", 0));
}

#[test]
fn resolve_types_nothing_wanted() {
    let files = strings(&["struct A;"]);
    assert_eq!(resolve_types_from_source(&files, &Vec::new()), "");
}

#[test]
fn collect_deps_lists_sorted_with_features() {
    let manifest = r#"
[package]
name = "demo"

[dependencies]
syn = { version = "2", features = ["full", "visit", 3] }
anyhow = "1"
serde = { version = "1", features = [] }

[dev-dependencies]
proptest = "1"
anyhow = "1"
"#;
    assert_eq!(collect_deps(manifest), "anyhow, proptest, serde, syn (features: full, visit)");
}

#[test]
fn collect_deps_whole_names() {
    let manifest = "[dependencies]\nserde_json = \"1\"\n[dev-dependencies]\nserde = \"1\"\n";
    assert_eq!(collect_deps(manifest), "serde, serde_json");
    let manifest = "[dependencies]\nserde = \"1\"\nserde_json = \"1\"\n";
    assert_eq!(collect_deps(manifest), "serde, serde_json");
    let manifest = "[dependencies]\nserde = { version = \"1\", features = [\"derive\"] }\n[dev-dependencies]\nserde = \"1\"\n";
    assert_eq!(collect_deps(manifest), "serde (features: derive)");
}

#[test]
fn collect_deps_invalid_or_missing() {
    assert_eq!(collect_deps("this is = = not toml"), "");
    assert_eq!(collect_deps("[package]\nname = \"x\"\n"), "");
    assert_eq!(collect_deps("dependencies = 5\n"), "");
}

fn item(kind: ItemKind, name: &str, text: &str) -> SourceItem {
    SourceItem { kind, name: name.to_string(), text: text.to_string() }
}

#[test]
fn select_type_definitions_first_of_each_wanted_type() {
    let items = vec![
        item(ItemKind::Use, "", "use a;"),
        item(ItemKind::Struct, "Point", "struct Point { x: i32 }"),
        item(ItemKind::Fn, "", "fn Shape() {}"),
        item(ItemKind::Enum, "Shape", "enum Shape { A }"),
        item(ItemKind::Struct, "Point", "struct Point { y: u8 }"),
        item(ItemKind::Trait, "Draw", "trait Draw {}"),
        item(ItemKind::Type, "Id", "type Id = u64;"),
        item(ItemKind::Union, "Id", "union Id { a: u8 }"),
        item(ItemKind::Struct, "Other", "struct Other;"),
    ];
    let wanted = strings(&["Id", "Point", "Shape", "Draw", "Missing"]);
    assert_eq!(
        select_type_definitions(&items, &wanted),
        "struct Point { x: i32 }\n\nenum Shape { A }\n\ntrait Draw {}\n\ntype Id = u64;"
    );
}

#[test]
fn select_type_definitions_ignores_other_kinds() {
    let items = vec![
        item(ItemKind::Const, "Point", "const Point: u8 = 1;"),
        item(ItemKind::Union, "Point", "union Point { a: u8 }"),
        item(ItemKind::TraitAlias, "Point", "trait Point = Clone;"),
    ];
    assert_eq!(select_type_definitions(&items, &strings(&["Point"])), "");
    assert_eq!(select_type_definitions(&Vec::new(), &strings(&["Point"])), "");
}

#[test]
fn type_definition_kinds() {
    for k in [ItemKind::Struct, ItemKind::Enum, ItemKind::Type, ItemKind::Trait] {
        assert!(is_type_definition_kind(k));
    }
    for k in [ItemKind::Fn, ItemKind::Union, ItemKind::TraitAlias, ItemKind::Const, ItemKind::Other] {
        assert!(!is_type_definition_kind(k));
    }
}

#[test]
fn parse_source_items_kinds_and_names() {
    let src = "use std::fmt;\nconst A: u8 = 1;\nstruct P { x: i32 }\nenum E { A }\nfn f() {}\nimpl P {}\nmod m {}\ntrait T {}\ntype Id = u64;\nunion U { a: u8 }\nstatic S: u8 = 0;\nmacro_rules! mm { () => {} }\nextern crate core;\nextern \"C\" {}\n";
    let items = parse_source_items(src);
    let kinds: Vec<ItemKind> = items.iter().map(|i| i.kind).collect();
    assert_eq!(
        kinds,
        vec![
            ItemKind::Use,
            ItemKind::Const,
            ItemKind::Struct,
            ItemKind::Enum,
            ItemKind::Fn,
            ItemKind::Impl,
            ItemKind::Mod,
            ItemKind::Trait,
            ItemKind::Type,
            ItemKind::Union,
            ItemKind::Static,
            ItemKind::Macro,
            ItemKind::ExternCrate,
            ItemKind::ForeignMod,
        ]
    );
    let names: Vec<&str> = items.iter().map(|i| i.name.as_str()).collect();
    assert_eq!(names, vec!["", "", "P", "E", "", "", "", "T", "Id", "", "", "", "", ""]);
    assert_eq!(items[2].text, item_text(src, 2));
}

#[test]
fn parse_source_items_unparsable_gives_none() {
    assert!(parse_source_items("struct Broken {").is_empty());
    assert!(parse_source_items("").is_empty());
}
