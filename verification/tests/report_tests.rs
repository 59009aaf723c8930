use reposcryer::ids::{FileId, ProjectId, RepoId, RunId, ScopeId, WorktreeId, ChunkId, ImportId, SymbolId, WarningId};
use reposcryer::model::{
    Chunk, CodeChunk, CodeFile, Confidence, Evidence, FileChange, FileChangeKind, FileDependency, FileExplanation,
    FileFingerprint, FileImpact, FileNeighborhood, GraphSummary, ImpactedFile, Import, IndexContext, IndexStats,
    IndexWarning, Language, ParsedFile, RepoStatus, Symbol, SymbolKind,
};
use reposcryer::queries::{
    complete_run_query, context_queries, count_from_rows, dependency_edge_queries, fail_run_query,
    file_subgraph_queries, graph_summary, index_run_started, latest_run_from_rows, mark_deleted_queries,
    schema_needs_reset, schema_queries, summary_queries, touch_query,
};
use reposcryer::report::{
    changed_report, explain_report, impact_report, index_message, inspect_report, neighbors_report, status_report,
    summary_report,
};
use reposcryer::resolve::ResolvedImport;
use reposcryer::rows::{RowError, StoreValue};
use reposcryer::model::IndexRunStatus;

fn ctx() -> IndexContext {
    IndexContext {
        repo_id: RepoId("repo".to_string()),
        project_id: ProjectId("project".to_string()),
        worktree_id: WorktreeId("worktree".to_string()),
        scope_id: ScopeId("scope".to_string()),
        repo_root: "/tmp/repo".to_string(),
        parser_version: "parser-v1".to_string(),
        schema_version: "phase3-kuzu-v1".to_string(),
        chunker_version: "symbol-range-v1".to_string(),
    }
}

fn dep(from: &str, to: &str, raw: &str) -> FileDependency {
    FileDependency {
        from_file_id: FileId(format!("id-{from}")),
        to_file_id: FileId(format!("id-{to}")),
        from_relative_path: from.to_string(),
        to_relative_path: to.to_string(),
        raw_target: raw.to_string(),
        confidence: Confidence { score_milli: 1000, label: "high".to_string() },
        evidence: Evidence {
            source: "kuzu-import-resolver".to_string(),
            detail: "rust module path resolved to local file".to_string(),
        },
    }
}

#[test]
fn touch_statement_quotes_each_value() {
    assert_eq!(
        touch_query("run", "f'1", "100"),
        "MATCH (r:IndexRun {run_id: 'run'}), (f:File {file_id: 'f\\'1'}) MERGE (r)-[t:TOUCHED_FILE]->(f) ON CREATE SET t.touched_at = '100' ON MATCH SET t.touched_at = '100';"
    );
    assert_eq!(
        fail_run_query("run", "7", "boom"),
        "MATCH (r:IndexRun {run_id: 'run'}) SET r.status = 'failed', r.finished_at = '7', r.error = 'boom';"
    );
}

#[test]
fn completed_run_statement_carries_the_counts() {
    let stats = IndexStats { scanned_files: 3, added: 2, warnings: 5, ..IndexStats::default() };
    assert_eq!(
        complete_run_query(&RunId("r".to_string()), "9", &stats),
        "MATCH (r:IndexRun {run_id: 'r'}) SET r.status = 'completed', r.finished_at = '9', r.error = NULL, r.scanned_files = 3, r.added = 2, r.modified = 0, r.unchanged = 0, r.deleted = 0, r.skipped = 0, r.reindex_needed = 0, r.warnings = 5;"
    );
}

#[test]
fn schema_setup_creates_every_table_then_records_the_version() {
    let statements = schema_queries();
    assert_eq!(statements.len(), 20);
    for name in ["SchemaMeta(", "Project(", "File(", "IndexRun(", "IMPORTS_FILE(", "TOUCHED_FILE("] {
        assert!(statements.iter().any(|s| s.contains(name)), "missing {name}");
    }
    assert_eq!(
        statements[19],
        "MERGE (m:SchemaMeta {key: 'schema_version'}) ON CREATE SET m.value = 'phase3-kuzu-v1' ON MATCH SET m.value = 'phase3-kuzu-v1';"
    );
    assert!(schema_needs_reset(true, &Some("phase2".to_string())));
    assert!(!schema_needs_reset(true, &Some("phase3-kuzu-v1".to_string())));
    assert!(!schema_needs_reset(true, &None));
    assert!(!schema_needs_reset(false, &Some("phase2".to_string())));
}

#[test]
fn context_nodes_are_merged_then_linked() {
    let qs = context_queries(&ctx(), "5");
    assert_eq!(qs.len(), 5);
    assert!(qs[0].starts_with("MERGE (p:Project {project_id: 'project'}) ON CREATE SET p.repo_id = 'repo'"));
    assert_eq!(qs[3], "MATCH (p:Project {project_id: 'project'}), (w:Worktree {worktree_id: 'worktree'}) MERGE (p)-[:HAS_WORKTREE]->(w);");
    assert_eq!(qs[4], "MATCH (w:Worktree {worktree_id: 'worktree'}), (s:IndexScope {scope_id: 'scope'}) MERGE (w)-[:HAS_SCOPE]->(s);");
}

#[test]
fn started_run_is_running_and_named_by_scope_and_time() {
    let run = index_run_started(&ctx(), "100");
    assert_eq!(run.run_id.0, reposcryer::hash::stable_hash(&["scope", "100", "index-run"]));
    assert_eq!(run.status, IndexRunStatus::Running);
    assert_eq!(run.started_at, "100");
    assert_eq!((run.finished_at, run.error), (None, None));
}

#[test]
fn file_subgraph_statements_replace_then_touch() {
    let file = CodeFile {
        repo_id: RepoId("repo".to_string()),
        file_id: FileId("f".to_string()),
        path: "/tmp/repo/src/main.rs".to_string(),
        relative_path: "src/main.rs".to_string(),
        language: Language::Rust,
        fingerprint: FileFingerprint { sha256: "sha".to_string(), size_bytes: 10, mtime_seconds: 1 },
    };
    let range = CodeChunk { start_line: 1, end_line: 3 };
    let parsed = ParsedFile {
        file_id: FileId("f".to_string()),
        symbols: vec![Symbol {
            symbol_id: SymbolId("s".to_string()),
            file_id: FileId("f".to_string()),
            file_path: "src/main.rs".to_string(),
            name: "run".to_string(),
            kind: SymbolKind::Function,
            range,
            language: Language::Rust,
        }],
        imports: vec![Import {
            import_id: ImportId("i".to_string()),
            from_file_id: FileId("f".to_string()),
            raw_target: "crate::dep".to_string(),
            line: 1,
        }],
        chunks: vec![Chunk {
            chunk_id: ChunkId("c".to_string()),
            file_id: FileId("f".to_string()),
            symbol_id: Some(SymbolId("s".to_string())),
            label: "symbol-body".to_string(),
            range,
        }],
        warnings: vec![IndexWarning {
            warning_id: WarningId("w".to_string()),
            file_id: None,
            file_path: "src/main.rs".to_string(),
            stage: "parse".to_string(),
            message: "heuristic parser".to_string(),
        }],
    };
    let qs = file_subgraph_queries(&file, &parsed, &ctx(), "run-1", "50", "51");
    // 5 removals, file node and scope link, 2 per symbol and import, 3 for the chunk,
    // 2 for the warning, then the touch.
    assert_eq!(qs.len(), 5 + 2 + 2 + 2 + 3 + 2 + 1);
    assert_eq!(qs[0], "MATCH (f:File {file_id: 'f'})-[r:IMPORTS_FILE]->(:File) DELETE r;");
    assert!(qs[5].contains("f.size_bytes = 10, f.mtime_seconds = 1, f.status = 'indexed'"));
    assert!(qs[5].contains("f.language = 'rust'"));
    assert!(qs[7].contains("s.kind = 'Function'"));
    assert!(qs[7].contains("s.start_line = 1, s.end_line = 3"));
    assert!(qs[11].contains("c.symbol_id = 's'"));
    assert_eq!(qs[13], "MATCH (s:Symbol {symbol_id: 's'}), (c:Chunk {chunk_id: 'c'}) MERGE (s)-[:HAS_CHUNK]->(c);");
    assert!(qs[14].contains("w.file_id = NULL"));
    assert_eq!(qs[16], touch_query("run-1", "f", "51"));
}

#[test]
fn soft_delete_removes_edges_both_ways() {
    let qs = mark_deleted_queries(&FileId("f".to_string()), &RunId("r".to_string()), "9", "10");
    assert_eq!(qs.len(), 9);
    assert_eq!(qs[6], "MATCH (:File)-[r:IMPORTS_FILE]->(f:File {file_id: 'f'}) DELETE r;");
    assert_eq!(
        qs[7],
        "MATCH (f:File {file_id: 'f'}) SET f.status = 'deleted', f.deleted_at = '9', f.updated_at = '9', f.last_indexed_run_id = 'r';"
    );
}

#[test]
fn resolved_dependencies_become_edges() {
    let edges = vec![ResolvedImport {
        from_file_id: FileId("a".to_string()),
        to_file_id: FileId("b".to_string()),
        raw_target: "auth".to_string(),
    }];
    let qs = dependency_edge_queries(&edges);
    assert_eq!(qs.len(), 1);
    assert!(qs[0].starts_with("MATCH (from:File {file_id: 'a'}), (to:File {file_id: 'b'}) MERGE (from)-[r:IMPORTS_FILE]->(to)"));
    assert!(qs[0].ends_with("r.evidence = 'rust module path resolved to local file';"));
}

#[test]
fn summary_reads_counts_and_latest_run() {
    assert_eq!(summary_queries(&ScopeId("s".to_string())).len(), 8);
    assert_eq!(count_from_rows(&vec![vec![StoreValue::Int64(3)]]), Ok(3));
    assert_eq!(count_from_rows(&vec![]), Err(RowError::MissingColumn(0)));
    let latest = latest_run_from_rows(&vec![vec![
        StoreValue::Text("run".to_string()),
        StoreValue::Text("completed".to_string()),
    ]])
    .expect("latest run");
    assert_eq!(latest, Some((RunId("run".to_string()), "completed".to_string())));
    assert_eq!(latest_run_from_rows(&vec![]), Ok(None));

    let summary = graph_summary(&ScopeId("s".to_string()), &vec![3, 0, 4, 3, 3, 0, 1], latest);
    let text = summary_report(&summary);
    assert!(text.contains("active_files: 3\n"));
    assert!(text.contains("deleted_files: 0\n"));
    assert!(text.contains("dependency_edges: 3\n"));
    assert!(text.ends_with("latest_run_id: run\nlatest_run_status: completed\n"));

    let bare = GraphSummary { latest_run_id: None, latest_run_status: None, ..summary };
    assert!(summary_report(&bare).ends_with("index_runs: 1\n"));
}

#[test]
fn status_and_changed_reports_list_counts_and_paths() {
    let status = RepoStatus {
        tracked_files: 3,
        scan_files: 3,
        added: 1,
        modified: 1,
        unchanged: 1,
        deleted: 1,
        skipped: 0,
        reindex_needed: 0,
    };
    assert_eq!(
        status_report(&status),
        "tracked_files: 3\nscan_files: 3\nadded: 1\nmodified: 1\ndeleted: 1\nunchanged: 1\nskipped: 0\nreindex_needed: 0\n"
    );
    let changes = vec![FileChange {
        file_id: FileId("d".to_string()),
        relative_path: "src/db.rs".to_string(),
        kind: FileChangeKind::Modified,
        fingerprint: None,
        previous_sha256: None,
        current_sha256: None,
        reason: None,
    }];
    assert_eq!(changed_report(&changes), "modified\tsrc/db.rs\n");
}

#[test]
fn explain_neighbors_and_impact_reports() {
    let explanation = FileExplanation {
        file_id: FileId("m".to_string()),
        relative_path: "src/main.rs".to_string(),
        language: Language::Rust,
        symbols: vec![Symbol {
            symbol_id: SymbolId("s".to_string()),
            file_id: FileId("m".to_string()),
            file_path: "src/main.rs".to_string(),
            name: "main".to_string(),
            kind: SymbolKind::Function,
            range: CodeChunk { start_line: 4, end_line: 6 },
            language: Language::Rust,
        }],
        imports: vec![Import {
            import_id: ImportId("i".to_string()),
            from_file_id: FileId("m".to_string()),
            raw_target: "auth".to_string(),
            line: 1,
        }],
        dependencies: vec![dep("src/main.rs", "src/auth.rs", "auth")],
        warnings: vec![],
    };
    assert_eq!(
        explain_report(&explanation),
        "file: src/main.rs\nlanguage: rust\nsymbol: Function main\nimport: auth line 1\nimports_file: src/auth.rs via auth (rust module path resolved to local file)\n"
    );

    let neighbors = FileNeighborhood {
        file_id: FileId("m".to_string()),
        relative_path: "src/main.rs".to_string(),
        outgoing: vec![dep("src/main.rs", "src/auth.rs", "auth"), dep("src/main.rs", "src/db.rs", "db")],
        incoming: vec![dep("src/app.rs", "src/main.rs", "main")],
    };
    assert_eq!(
        neighbors_report(&neighbors),
        "file: src/main.rs\noutgoing: src/auth.rs via auth\noutgoing: src/db.rs via db\nincoming: src/app.rs via main\n"
    );

    let impact = FileImpact {
        file_id: FileId("a".to_string()),
        relative_path: "src/auth.rs".to_string(),
        impacted_files: vec![ImpactedFile {
            file_id: FileId("m".to_string()),
            relative_path: "src/main.rs".to_string(),
            depth: 1,
            via_relative_path: "src/auth.rs".to_string(),
        }],
    };
    assert_eq!(impact_report(&impact), "file: src/auth.rs\nimpacted: depth=1 src/main.rs via src/auth.rs\n");
}

#[test]
fn index_and_inspect_messages() {
    assert_eq!(index_message("/r/.reposcryer", false, false), "indexed /r/.reposcryer (incremental)\n");
    assert_eq!(index_message("/r/.reposcryer", true, true), "indexed /r/.reposcryer (full)\n");
    assert_eq!(index_message("/r/.reposcryer", false, true), "indexed /r/.reposcryer (refresh)\n");
    assert_eq!(
        inspect_report(&Some("# Repo Map".to_string()), 10, 20, 2),
        "repo-map.md\n# Repo Map\ngraph.json bytes: 10\nsymbols.json bytes: 20\nwarnings.json bytes: 2\n"
    );
    assert!(inspect_report(&None, 0, 0, 0).starts_with("repo-map.md\nempty\n"));
}

#[test]
fn row_errors_name_their_column() {
    assert_eq!(RowError::MissingColumn(3).message(), "missing column 3");
    assert_eq!(
        RowError::Unexpected(0, reposcryer::rows::ValueClass::StringLike).message(),
        "expected string-like value at column 0"
    );
    assert_eq!(
        RowError::Unexpected(5, reposcryer::rows::ValueClass::Integer).message(),
        "expected integer value at column 5"
    );
    assert_eq!(RowError::OutOfRange(2).message(), "value out of range at column 2");
}
