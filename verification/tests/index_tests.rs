use reposcryer::config::RepoScryerConfig;
use reposcryer::context::{
    build_context_pack, excerpt, parse_context_mode, push_list, render_markdown, ContextInput, ContextMode,
};
use reposcryer::export::{export_paths, render_repo_map};
use reposcryer::graph::{build_repo_index, build_repo_index_at, indexed_at_string};
use reposcryer::ids::{
    edge_id_from_parts, file_id_from_relative_path, import_target_id, repo_id_from_path, EdgeId, FileId, ImportId, RepoId,
    SymbolId,
};
use reposcryer::model::{
    CodeChunk, CodeFile, Confidence, EdgeKind, Evidence, FileExplanation, FileFingerprint, FileImpact, FileNeighborhood,
    GraphEdge, ImpactedFile, Import, IndexWarning, Language, ParsedFile, RepoIndex, Symbol, SymbolKind,
};

fn sample_file() -> CodeFile {
    CodeFile {
        repo_id: repo_id_from_path("/tmp/repo"),
        file_id: file_id_from_relative_path("src/main.rs"),
        path: "/tmp/repo/src/main.rs".to_string(),
        relative_path: "src/main.rs".to_string(),
        language: Language::Rust,
        fingerprint: FileFingerprint { sha256: "abc".to_string(), size_bytes: 3, mtime_seconds: 1 },
    }
}

fn symbol(file: &CodeFile, name: &str) -> Symbol {
    Symbol {
        symbol_id: SymbolId("sym".to_string()),
        file_id: file.file_id.clone(),
        file_path: file.relative_path.clone(),
        name: name.to_string(),
        kind: SymbolKind::Function,
        range: CodeChunk { start_line: 1, end_line: 1 },
        language: Language::Rust,
    }
}

#[test]
fn file_defines_symbol_edge_exists() {
    let file = sample_file();
    let parsed = ParsedFile {
        file_id: file.file_id.clone(),
        symbols: vec![symbol(&file, "run")],
        imports: vec![Import {
            import_id: ImportId("imp".to_string()),
            from_file_id: FileId(file.file_id.0.clone()),
            raw_target: "crate::auth".to_string(),
            line: 1,
        }],
        chunks: Vec::new(),
        warnings: Vec::new(),
    };

    let index = build_repo_index("/tmp/repo", vec![file], vec![parsed], vec![]);
    assert!(index.edges.iter().any(|edge| edge.kind == EdgeKind::Defines));
    assert!(index.edges.iter().all(|edge| edge.kind != EdgeKind::Calls));
    assert!(index.edges.iter().all(|edge| edge.confidence.score_milli > 0));
}

#[test]
fn repo_index_edges_are_exact() {
    let file = sample_file();
    let parsed = ParsedFile {
        file_id: file.file_id.clone(),
        symbols: vec![symbol(&file, "run")],
        imports: vec![Import {
            import_id: ImportId("imp".to_string()),
            from_file_id: file.file_id.clone(),
            raw_target: "crate::auth".to_string(),
            line: 2,
        }],
        chunks: Vec::new(),
        warnings: Vec::new(),
    };
    let fid = file.file_id.0.clone();
    let index = build_repo_index_at("/tmp/repo", vec![file], vec![parsed], vec![], 1700000000);
    assert_eq!(index.indexed_at, "1700000000");
    assert_eq!(index.repo_id, repo_id_from_path("/tmp/repo"));
    assert_eq!(index.symbols.len(), 1);
    let kinds: Vec<EdgeKind> = index.edges.iter().map(|e| e.kind).collect();
    assert_eq!(kinds, [EdgeKind::Defines, EdgeKind::BelongsTo, EdgeKind::Imports]);
    let d = &index.edges[0];
    assert_eq!((d.from_id.as_str(), d.to_id.as_str()), (fid.as_str(), "sym"));
    assert_eq!(d.evidence.detail, "defines:run");
    assert_eq!(d.edge_id, edge_id_from_parts(&fid, "sym", &EdgeKind::Defines, "defines:run"));
    assert_eq!(index.edges[1].evidence.detail, "belongs_to:run");
    let i = &index.edges[2];
    assert_eq!(i.to_id, import_target_id("crate::auth").0);
    assert_eq!(i.evidence.detail, "imports:crate::auth");
    for e in &index.edges {
        assert_eq!(e.confidence.score_milli, 1000);
        assert_eq!(e.confidence.label, "high");
        assert_eq!(e.evidence.source, "heuristic-parser");
    }
    // Without files, the identifier comes from the root.
    let empty = build_repo_index_at("/x", vec![], vec![], vec![], 0);
    assert_eq!(empty.repo_id, repo_id_from_path("/x"));
    assert!(indexed_at_string().chars().all(|c| c.is_ascii_digit()));
}

fn sample_index() -> RepoIndex {
    RepoIndex {
        repo_id: RepoId("repo".to_string()),
        repo_root: "/tmp/repo".to_string(),
        indexed_at: "1".to_string(),
        files: vec![CodeFile {
            repo_id: RepoId("repo".to_string()),
            file_id: FileId("file".to_string()),
            path: "/tmp/repo/src/main.rs".to_string(),
            relative_path: "src/main.rs".to_string(),
            language: Language::Rust,
            fingerprint: FileFingerprint { sha256: "abc".to_string(), size_bytes: 3, mtime_seconds: 1 },
        }],
        symbols: vec![Symbol {
            symbol_id: SymbolId("sym".to_string()),
            file_id: FileId("file".to_string()),
            file_path: "src/main.rs".to_string(),
            name: "run".to_string(),
            kind: SymbolKind::Function,
            range: CodeChunk { start_line: 1, end_line: 1 },
            language: Language::Rust,
        }],
        edges: vec![GraphEdge {
            edge_id: EdgeId("edge".to_string()),
            from_id: "file".to_string(),
            to_id: "sym".to_string(),
            kind: EdgeKind::Defines,
            confidence: Confidence { score_milli: 1000, label: "high".to_string() },
            evidence: Evidence { source: "test".to_string(), detail: "defines:run".to_string() },
        }],
        warnings: Vec::new(),
    }
}

#[test]
fn repo_map_contains_file_count_and_symbol_summary() {
    let index = sample_index();
    let content = render_repo_map(&index);
    assert!(content.contains("File count: 1"));
    assert!(content.contains("run"));
}

#[test]
fn repo_map_counts_in_key_order() {
    let mut index = sample_index();
    let mut f2 = index.files[0].clone();
    f2.relative_path = "main.py".to_string();
    f2.language = Language::Python;
    let mut f3 = index.files[0].clone();
    f3.relative_path = "src/lib.rs".to_string();
    index.files.push(f2);
    index.files.push(f3);
    let import = |detail: &str| GraphEdge {
        edge_id: EdgeId("e".to_string()),
        from_id: "f".to_string(),
        to_id: "t".to_string(),
        kind: EdgeKind::Imports,
        confidence: Confidence { score_milli: 1000, label: "high".to_string() },
        evidence: Evidence { source: "s".to_string(), detail: detail.to_string() },
    };
    index.edges.push(import("imports:os"));
    index.edges.push(import("imports:crate::db"));
    index.edges.push(import("imports:os"));
    index.warnings.push(IndexWarning {
        warning_id: reposcryer::ids::WarningId("w".to_string()),
        file_id: None,
        file_path: "bad.rs".to_string(),
        stage: "parse".to_string(),
        message: "boom".to_string(),
    });
    let content = render_repo_map(&index);
    let expected = "# Repo Map\n\n- Repo path: /tmp/repo\n- Indexed at: 1\n- File count: 3\n\n\
## Language summary\n- python: 1\n- rust: 2\n\n\
## Directory summary\n- .: 1\n- src: 2\n\n\
## Symbol summary\n- run (Function) in src/main.rs\n\n\
## Imports summary\n- imports:crate::db: 1\n- imports:os: 2\n\n\
## Warnings\n- bad.rs [parse] boom\n";
    assert_eq!(content, expected);
}

#[test]
fn empty_repo_map_says_none() {
    let mut index = sample_index();
    index.files.clear();
    index.symbols.clear();
    index.edges.clear();
    let content = render_repo_map(&index);
    assert!(content.contains("## Imports summary\n- none\n\n## Warnings\n- none\n"));
    assert!(content.contains("## Language summary\n\n\n## Directory summary\n\n\n"));
}

#[test]
fn export_paths_sit_under_the_output_dir() {
    let paths = export_paths("/tmp/repo", &RepoScryerConfig::default());
    assert_eq!(paths.output_dir, "/tmp/repo/.reposcryer/exports");
    assert_eq!(paths.graph_json, "/tmp/repo/.reposcryer/exports/graph.json");
    assert_eq!(paths.symbols_json, "/tmp/repo/.reposcryer/exports/symbols.json");
    assert_eq!(paths.repo_map_md, "/tmp/repo/.reposcryer/exports/repo-map.md");
    assert_eq!(paths.warnings_json, "/tmp/repo/.reposcryer/exports/warnings.json");
}

fn explanation() -> FileExplanation {
    FileExplanation {
        file_id: FileId("file".to_string()),
        relative_path: "src/main.rs".to_string(),
        language: Language::Rust,
        symbols: vec![Symbol {
            symbol_id: SymbolId("symbol".to_string()),
            file_id: FileId("file".to_string()),
            file_path: "src/main.rs".to_string(),
            name: "main".to_string(),
            kind: SymbolKind::Function,
            range: CodeChunk { start_line: 1, end_line: 1 },
            language: Language::Rust,
        }],
        imports: vec![Import {
            import_id: ImportId("import".to_string()),
            from_file_id: FileId("file".to_string()),
            raw_target: "auth".to_string(),
            line: 1,
        }],
        dependencies: Vec::new(),
        warnings: Vec::new(),
    }
}

fn context_input(budget: usize, source: String) -> ContextInput {
    ContextInput {
        mode: ContextMode::ChangePlan,
        budget,
        explanation: explanation(),
        neighbors: FileNeighborhood {
            file_id: FileId("file".to_string()),
            relative_path: "src/main.rs".to_string(),
            outgoing: Vec::new(),
            incoming: Vec::new(),
        },
        impact: FileImpact {
            file_id: FileId("file".to_string()),
            relative_path: "src/main.rs".to_string(),
            impacted_files: vec![ImpactedFile {
                file_id: FileId("impacted".to_string()),
                relative_path: "src/app.rs".to_string(),
                depth: 1,
                via_relative_path: "src/main.rs".to_string(),
            }],
        },
        source,
        repo_map: "# Repo Map\n".to_string(),
    }
}

#[test]
fn context_pack_contains_core_sections_and_truncates_excerpts() {
    let pack = build_context_pack(context_input(512, "x".repeat(600)));
    let markdown = render_markdown(&pack);

    assert_eq!(pack.mode, "change-plan");
    assert_eq!(pack.target_file, "src/main.rs");
    assert!(pack.truncated);
    assert!(markdown.contains("# RepoScryer Context Pack"));
    assert!(markdown.contains("## Source Excerpt"));
    assert!(markdown.contains("src/app.rs"));
}

#[test]
fn context_budget_splits_between_excerpts() {
    let pack = build_context_pack(context_input(10, "y".repeat(256)));
    assert_eq!(pack.budget, 512);
    assert!(!pack.truncated);
    assert_eq!(pack.source_excerpt, "y".repeat(256));
    assert_eq!(pack.symbols, ["Function main"]);
    assert_eq!(pack.imports, ["1:auth"]);
    assert_eq!(pack.impacted_files, ["src/app.rs"]);
    let pack = build_context_pack(context_input(1000, "y".repeat(501)));
    assert_eq!(pack.budget, 1000);
    assert!(pack.truncated);
    assert_eq!(pack.source_excerpt, format!("{}\n...[truncated]\n", "y".repeat(500)));
    assert_eq!(excerpt("héllo", 2), ("hé\n...[truncated]\n".to_string(), true));
    assert_eq!(excerpt("abc", 3), ("abc".to_string(), false));
}

#[test]
fn context_markdown_is_exact() {
    let pack = build_context_pack(context_input(512, "fn main() {}".to_string()));
    let md = render_markdown(&pack);
    let expected = "# RepoScryer Context Pack\n\n- mode: change-plan\n- target: src/main.rs\n- language: rust\n- budget: 512\n- truncated: false\n\n\
## Symbols\n\n- Function main\n\n## Imports\n\n- 1:auth\n\n## Outgoing Dependencies\n\n- none\n\n\
## Incoming Dependencies\n\n- none\n\n## Impacted Files\n\n- src/app.rs\n\n## Warnings\n\n- none\n\n\
## Source Excerpt\n\n```text\nfn main() {}\n```\n\n## Repo Map Excerpt\n\n```markdown\n# Repo Map\n```\n";
    assert_eq!(md, expected);
    let mut out = String::new();
    push_list(&mut out, "T", &vec!["a".to_string(), "b".to_string()]);
    assert_eq!(out, "## T\n\n- a\n- b\n\n");
}

#[test]
fn context_modes_parse_by_name() {
    assert_eq!(parse_context_mode("explain"), Ok(ContextMode::Explain));
    assert_eq!(parse_context_mode("change-plan"), Ok(ContextMode::ChangePlan));
    assert_eq!(parse_context_mode("review"), Ok(ContextMode::Review));
    assert_eq!(
        parse_context_mode("plan"),
        Err("unsupported context mode plan; expected explain, change-plan, or review".to_string())
    );
    for m in [ContextMode::Explain, ContextMode::ChangePlan, ContextMode::Review] {
        assert_eq!(parse_context_mode(m.as_str()), Ok(m));
    }
}
