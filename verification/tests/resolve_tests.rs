use reposcryer::ids::FileId;
use reposcryer::model::Language;
use reposcryer::resolve::{import_module_of, resolve_local_file_import, rust_module_candidates, StoredFile};
use reposcryer::rows::{
    language_from_store, milli_at, optional_string_at, string_at, symbol_kind_from_store, u64_at, RowError, StoreValue,
    ValueClass,
};
use reposcryer::model::SymbolKind;
use reposcryer::order::path_less;
use reposcryer::paths::{file_name_of, parent_of};

fn stored(path: &str, language: Language) -> StoredFile {
    StoredFile { file_id: FileId(format!("id:{path}")), relative_path: path.to_string(), language }
}

#[test]
fn module_candidates_beside_a_root_file() {
    assert_eq!(
        rust_module_candidates("src/main.rs", "auth"),
        ["src/auth.rs", "src/auth/mod.rs", "src/auth.rs", "src/auth/mod.rs"]
    );
}

#[test]
fn module_candidates_of_a_nested_module_come_first() {
    assert_eq!(
        rust_module_candidates("src/net/client.rs", "tls"),
        [
            "src/net/client/tls.rs",
            "src/net/client/tls/mod.rs",
            "src/net/tls.rs",
            "src/net/tls/mod.rs",
            "src/tls.rs",
            "src/tls/mod.rs",
        ]
    );
    assert_eq!(
        rust_module_candidates("build.rs", "x"),
        ["build/x.rs", "build/x/mod.rs", "x.rs", "x/mod.rs", "src/x.rs", "src/x/mod.rs"]
    );
}

#[test]
fn import_module_is_the_first_path_segment() {
    assert_eq!(import_module_of("  crate::auth::AuthService "), "auth");
    assert_eq!(import_module_of("self::db"), "db");
    assert_eq!(import_module_of("super::x::y"), "x");
    assert_eq!(import_module_of("std::fmt"), "std");
    assert_eq!(import_module_of("{a, b}"), "a, b");
    assert_eq!(import_module_of("::"), "");
}

#[test]
fn local_rust_imports_resolve_to_stored_files() {
    let files = vec![stored("src/auth.rs", Language::Rust), stored("src/db/mod.rs", Language::Rust)];
    let main = stored("src/main.rs", Language::Rust);
    assert_eq!(resolve_local_file_import(&main, "crate::auth::AuthService", &files), Some(0));
    assert_eq!(resolve_local_file_import(&main, "db", &files), Some(1));
    assert_eq!(resolve_local_file_import(&main, "cache", &files), None);
    // Standard library roots never resolve, even to a file of that name.
    let with_std = vec![stored("src/std.rs", Language::Rust)];
    assert_eq!(resolve_local_file_import(&main, "std::fmt::Debug", &with_std), None);
    // Only Rust files resolve their imports.
    let app = stored("src/app.py", Language::Python);
    assert_eq!(resolve_local_file_import(&app, "auth", &files), None);
    // Stored paths are compared with forward slashes.
    let windows = vec![stored("src\\auth.rs", Language::Rust)];
    assert_eq!(resolve_local_file_import(&main, "auth", &windows), Some(0));
}

#[test]
fn store_values_read_as_text_integers_and_thousandths() {
    let row = vec![
        StoreValue::Text("a".to_string()),
        StoreValue::Int64(-3),
        StoreValue::UInt32(7),
        StoreValue::Null,
        StoreValue::Double(1000),
        StoreValue::Bool(true),
        StoreValue::Int32(2),
    ];
    assert_eq!(string_at(&row, 0), Ok("a".to_string()));
    assert_eq!(string_at(&row, 1), Ok("-3".to_string()));
    assert_eq!(string_at(&row, 2), Ok("7".to_string()));
    assert_eq!(string_at(&row, 5), Err(RowError::Unexpected(5, ValueClass::StringLike)));
    assert_eq!(string_at(&row, 9), Err(RowError::MissingColumn(9)));
    assert_eq!(optional_string_at(&row, 3), Ok(None));
    assert_eq!(optional_string_at(&row, 0), Ok(Some("a".to_string())));
    assert_eq!(u64_at(&row, 2), Ok(7));
    assert_eq!(u64_at(&row, 1), Err(RowError::OutOfRange(1)));
    assert_eq!(u64_at(&row, 0), Err(RowError::Unexpected(0, ValueClass::Integer)));
    assert_eq!(milli_at(&row, 4), Ok(1000));
    assert_eq!(milli_at(&row, 6), Ok(2000));
    assert_eq!(milli_at(&row, 0), Err(RowError::Unexpected(0, ValueClass::Float)));
}

#[test]
fn stored_names_map_back_to_languages_and_kinds() {
    assert_eq!(language_from_store("typescript"), Language::TypeScript);
    assert_eq!(language_from_store("cobol"), Language::Unknown);
    assert_eq!(symbol_kind_from_store("Method"), SymbolKind::Method);
    assert_eq!(symbol_kind_from_store("Whatever"), SymbolKind::Type);
}

fn chars(s: &str) -> Vec<char> {
    s.chars().collect()
}

fn text(c: &[char]) -> String {
    c.iter().collect()
}

#[test]
fn module_candidates_ignore_trailing_separators() {
    assert_eq!(rust_module_candidates("src/main.rs/", "auth"), rust_module_candidates("src/main.rs", "auth"));
    assert_eq!(rust_module_candidates("a//b.rs", "c"), ["a/b/c.rs", "a/b/c/mod.rs", "a/c.rs", "a/c/mod.rs", "src/c.rs", "src/c/mod.rs"]);
}

#[test]
fn parents_drop_trailing_separators_and_dot_pieces() {
    assert_eq!(text(&parent_of(&chars("src/main.rs/"))), "src");
    assert_eq!(text(&parent_of(&chars("a/./b"))), "a");
    assert_eq!(text(&parent_of(&chars("a/b/."))), "a");
    assert_eq!(text(&parent_of(&chars("/a"))), "/");
    assert_eq!(text(&parent_of(&chars("./a"))), ".");
    assert_eq!(text(&parent_of(&chars("/"))), "");
    assert_eq!(text(&parent_of(&chars("a"))), "");
}

#[test]
fn file_names_are_named_last_components() {
    assert_eq!(file_name_of(&chars("src/lib.rs")).map(|n| text(&n)), Some("lib.rs".to_string()));
    assert_eq!(file_name_of(&chars("a/.")).map(|n| text(&n)), Some("a".to_string()));
    assert_eq!(file_name_of(&chars("/")), None);
    assert_eq!(file_name_of(&chars(".")), None);
    assert_eq!(file_name_of(&chars("a/..")), None);
}

#[test]
fn root_and_leading_dot_order_before_named_parts() {
    assert!(path_less(&chars("/z"), &chars("a")));
    assert!(!path_less(&chars("a"), &chars("/a")));
    assert!(path_less(&chars("./z"), &chars("a")));
    assert!(path_less(&chars("/a"), &chars("./a")));
    assert!(path_less(&chars("../a"), &chars("a")));
    assert!(!path_less(&chars("a/./b"), &chars("a/b")));
    assert!(!path_less(&chars("a/b"), &chars("a/./b")));
    assert!(path_less(&chars("a/b"), &chars("a/c")));
}
