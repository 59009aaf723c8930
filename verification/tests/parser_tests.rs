use reposcryer::ids::{file_id_from_relative_path, repo_id_from_path};
use reposcryer::model::{CodeFile, FileFingerprint, Language, SymbolKind};
use reposcryer::parser::{empty_parsed_file, make_symbol, ParserRegistry, CHUNKER_VERSION, PARSER_VERSION};

fn sample_file(path: &str, language: Language) -> CodeFile {
    CodeFile {
        repo_id: repo_id_from_path("/tmp/repo"),
        file_id: file_id_from_relative_path(path),
        path: format!("/tmp/repo/{path}"),
        relative_path: path.to_string(),
        language,
        fingerprint: FileFingerprint { sha256: "abc".to_string(), size_bytes: 3, mtime_seconds: 1 },
    }
}

#[test]
fn rust_parser_extracts_struct_free_function_and_impl_method() {
    let file = sample_file("src/lib.rs", Language::Rust);
    let parsed = ParserRegistry
        .parse_file(
            &file,
            "use crate::db::Database;\nstruct User;\nfn run() {}\nimpl User {\n    fn login(&self) {}\n}\n",
        )
        .expect("parse succeeds");

    assert!(parsed.symbols.iter().any(|symbol| symbol.name == "User" && symbol.kind == SymbolKind::Struct));
    assert!(parsed.symbols.iter().any(|symbol| symbol.name == "run" && symbol.kind == SymbolKind::Function));
    assert!(parsed.symbols.iter().any(|symbol| symbol.name == "login" && symbol.kind == SymbolKind::Method));
    assert!(!parsed.chunks.is_empty());
}

#[test]
fn rust_parser_extracts_mod_declaration_as_import() {
    let file = sample_file("src/main.rs", Language::Rust);
    let parsed = ParserRegistry.parse_file(&file, "mod auth;\nuse auth::AuthService;\nfn main() {}\n").expect("parse succeeds");

    assert!(parsed.imports.iter().any(|import| import.raw_target == "auth"));
    assert!(parsed.symbols.iter().any(|symbol| symbol.name == "auth" && symbol.kind == SymbolKind::Module));
}

#[test]
fn python_parser_extracts_class_and_def() {
    let file = sample_file("app.py", Language::Python);
    let parsed = ParserRegistry
        .parse_file(&file, "import os\nclass Service:\n    pass\n\ndef run():\n    pass\n")
        .expect("parse succeeds");

    assert!(parsed.symbols.iter().any(|symbol| symbol.name == "Service"));
    assert!(parsed.symbols.iter().any(|symbol| symbol.name == "run"));
}

#[test]
fn js_ts_parser_extracts_import_and_function_basics() {
    let file = sample_file("app.ts", Language::TypeScript);
    let parsed = ParserRegistry
        .parse_file(&file, "import { x } from './dep';\nexport function run() {}\nclass Box {}\nconst boot = () => {};\n")
        .expect("parse succeeds");

    assert_eq!(parsed.imports[0].raw_target, "./dep");
    assert!(parsed.symbols.iter().any(|symbol| symbol.name == "run"));
    assert!(parsed.symbols.iter().any(|symbol| symbol.name == "Box"));
    assert!(parsed.symbols.iter().any(|symbol| symbol.name == "boot"));
}

#[test]
fn parser_failure_returns_warning_instead_of_panic() {
    let file = sample_file("broken.rs", Language::Rust);
    let parsed = ParserRegistry.parse_or_warn(&file, "<<parse-error>>");
    assert_eq!(parsed.symbols.len(), 0);
    assert_eq!(parsed.warnings.len(), 1);
}

fn names_and_kinds(file: &CodeFile, source: &str) -> Vec<(String, SymbolKind, usize)> {
    ParserRegistry
        .parse_file(file, source)
        .expect("parse succeeds")
        .symbols
        .iter()
        .map(|s| (s.name.clone(), s.kind, s.range.start_line))
        .collect()
}

#[test]
fn rust_impl_block_tracks_depth_and_lines() {
    let file = sample_file("src/lib.rs", Language::Rust);
    let source = "pub struct A;\nimpl A {\n    pub fn new() -> Self {\n        A\n    }\n    fn other() {}\n}\nfn free() {}\npub enum E { X }\npub trait T {}\n";
    assert_eq!(
        names_and_kinds(&file, source),
        vec![
            ("A".to_string(), SymbolKind::Struct, 1),
            ("A".to_string(), SymbolKind::Type, 2),
            ("new".to_string(), SymbolKind::Method, 3),
            ("other".to_string(), SymbolKind::Method, 6),
            ("free".to_string(), SymbolKind::Function, 8),
            ("E".to_string(), SymbolKind::Enum, 9),
            ("T".to_string(), SymbolKind::Trait, 10),
        ]
    );
}

#[test]
fn rust_impl_for_captures_the_word_after_the_trait() {
    // The pattern takes `impl`, one more word, then the identifier that follows.
    let file = sample_file("src/lib.rs", Language::Rust);
    let got = names_and_kinds(&file, "impl Display for User {\n}\n");
    assert_eq!(got, vec![("for".to_string(), SymbolKind::Type, 1)]);
}

#[test]
fn rust_use_and_mod_targets_are_trimmed() {
    let file = sample_file("src/lib.rs", Language::Rust);
    let parsed = ParserRegistry.parse_file(&file, "  use   std::fmt ;\nmod  net ;\npub mod skipped;\n").expect("parse");
    let targets: Vec<(&str, usize)> = parsed.imports.iter().map(|i| (i.raw_target.as_str(), i.line)).collect();
    assert_eq!(targets, vec![("std::fmt", 1), ("net", 2)]);
}

#[test]
fn python_from_import_joins_module_and_names() {
    let file = sample_file("app.py", Language::Python);
    let parsed = ParserRegistry.parse_file(&file, "from a.b import c, d\nimport  x.y  \n").expect("parse");
    let targets: Vec<&str> = parsed.imports.iter().map(|i| i.raw_target.as_str()).collect();
    assert_eq!(targets, vec!["a.b::c, d", "x.y"]);
}

#[test]
fn js_require_and_arrow_functions() {
    let file = sample_file("app.js", Language::JavaScript);
    let source = "const fs = require('fs');\nexport const go = async (x) => x;\nexport class Thing {}\n";
    let parsed = ParserRegistry.parse_file(&file, source).expect("parse");
    let targets: Vec<&str> = parsed.imports.iter().map(|i| i.raw_target.as_str()).collect();
    assert_eq!(targets, vec!["fs"]);
    let names: Vec<&str> = parsed.symbols.iter().map(|s| s.name.as_str()).collect();
    assert_eq!(names, vec!["go", "Thing"]);
}

#[test]
fn java_and_go_parsers() {
    let java = sample_file("A.java", Language::Java);
    let parsed = ParserRegistry
        .parse_file(&java, "import java.util.List;\npublic class A {\n  public static void main(String[] args) {}\n}\ninterface B {}\n")
        .expect("parse");
    assert_eq!(parsed.imports[0].raw_target, "java.util.List");
    let got: Vec<(String, SymbolKind)> = parsed.symbols.iter().map(|s| (s.name.clone(), s.kind)).collect();
    assert_eq!(
        got,
        vec![
            ("A".to_string(), SymbolKind::Class),
            ("main".to_string(), SymbolKind::Method),
            ("B".to_string(), SymbolKind::Interface),
        ]
    );
    let go = sample_file("main.go", Language::Go);
    let parsed = ParserRegistry
        .parse_file(&go, "import (\n  \"fmt\"\n)\nfunc (s *S) Run() {}\nfunc main() {}\ntype S struct {}\ntype I interface {}\n")
        .expect("parse");
    assert_eq!(parsed.imports[0].raw_target, "fmt");
    let got: Vec<(String, SymbolKind)> = parsed.symbols.iter().map(|s| (s.name.clone(), s.kind)).collect();
    assert_eq!(
        got,
        vec![
            ("Run".to_string(), SymbolKind::Method),
            ("main".to_string(), SymbolKind::Function),
            ("S".to_string(), SymbolKind::Struct),
            ("I".to_string(), SymbolKind::Interface),
        ]
    );
}

#[test]
fn unknown_language_parses_to_nothing_and_markers_only_stop_some_parsers() {
    let file = sample_file("notes.txt", Language::Unknown);
    let parsed = ParserRegistry.parse_file(&file, "fn main() {}").expect("parse");
    assert!(parsed.symbols.is_empty() && parsed.imports.is_empty() && parsed.chunks.is_empty());
    let go = sample_file("main.go", Language::Go);
    assert!(ParserRegistry.parse_file(&go, "<<parse-error>>\nfunc main() {}\n").is_ok());
    let py = sample_file("a.py", Language::Python);
    let err = ParserRegistry.parse_file(&py, "x\n<<parse-error>>").unwrap_err();
    assert_eq!(err.message, "forced python parser failure");
    let ts = sample_file("a.ts", Language::TypeScript);
    assert_eq!(ParserRegistry.parse_file(&ts, "<<parse-error>>").unwrap_err().message, "forced js parser failure");
}

#[test]
fn failure_warning_carries_parse_stage_and_message() {
    let file = sample_file("broken.rs", Language::Rust);
    let parsed = ParserRegistry.parse_or_warn(&file, "<<parse-error>>");
    let w = &parsed.warnings[0];
    assert_eq!(w.stage, "parse");
    assert_eq!(w.message, "forced rust parser failure");
    assert_eq!(w.file_path, "broken.rs");
    assert_eq!(w.file_id.as_ref().map(|f| f.0.clone()), Some(file.file_id.0.clone()));
    assert_eq!(
        w.warning_id,
        reposcryer::ids::warning_id_from_parts("broken.rs", "parse", "forced rust parser failure")
    );
}

#[test]
fn chunks_follow_symbols() {
    let file = sample_file("src/lib.rs", Language::Rust);
    let parsed = ParserRegistry.parse_file(&file, "fn a() {}\n\nstruct B;\n").expect("parse");
    assert_eq!(parsed.chunks.len(), parsed.symbols.len());
    for (c, s) in parsed.chunks.iter().zip(parsed.symbols.iter()) {
        assert_eq!(c.label, format!("symbol:{}", s.name));
        assert_eq!(c.range, s.range);
        assert_eq!(c.symbol_id.as_ref(), Some(&s.symbol_id));
        assert_eq!(
            c.chunk_id,
            reposcryer::ids::chunk_id_from_parts(&file.file_id, &s.name, s.range.start_line, s.range.end_line)
        );
    }
    assert_eq!(parsed.symbols[1].range.start_line, 3);
}

#[test]
fn make_symbol_and_empty_parsed_file() {
    let file = sample_file("src/lib.rs", Language::Rust);
    let s = make_symbol(&file, "run", SymbolKind::Function, 7);
    assert_eq!(s.symbol_id, reposcryer::ids::symbol_id_from_parts("src/lib.rs", "run", 7, 7));
    assert_eq!((s.range.start_line, s.range.end_line), (7, 7));
    assert_eq!(s.language, Language::Rust);
    let e = empty_parsed_file(&file.file_id);
    assert_eq!(e.file_id, file.file_id);
    assert!(e.symbols.is_empty() && e.warnings.is_empty());
    assert_eq!(PARSER_VERSION, "parser-heuristic-v2");
    assert_eq!(CHUNKER_VERSION, "symbol-range-v1");
}

#[test]
fn crlf_lines_and_trailing_newline() {
    let file = sample_file("src/lib.rs", Language::Rust);
    let got = names_and_kinds(&file, "fn a() {}\r\nfn b() {}\r\n");
    assert_eq!(got, vec![("a".to_string(), SymbolKind::Function, 1), ("b".to_string(), SymbolKind::Function, 2)]);
}
