use reposcryer::hash::stable_hash;
use reposcryer::ids::{FileId, ProjectId, RepoId, ScopeId, WorktreeId};
use reposcryer::impact::impact_from;
use reposcryer::model::{
    CodeFile, Confidence, Evidence, FileChangeKind, FileDependency, FileFingerprint, IndexContext, Language,
    ScanResult, SkippedFile,
};
use reposcryer::resolve::{resolve_scope_imports, ImportRow, StoredFile};
use reposcryer::rows::{
    explanation_from_rows, records_from_rows, RowError, StoreValue, ValueClass,
};
use reposcryer::store::{
    changed_from_records, lit, neighborhood_from, plan_from_records, status_from_records, KuzuGraphStore,
    STORE_SCHEMA_VERSION,
};

fn sample_context(root: &str, parser_version: &str) -> IndexContext {
    IndexContext {
        repo_id: RepoId("repo".to_string()),
        project_id: ProjectId("project".to_string()),
        worktree_id: WorktreeId("worktree".to_string()),
        scope_id: ScopeId("scope".to_string()),
        repo_root: root.to_string(),
        parser_version: parser_version.to_string(),
        schema_version: STORE_SCHEMA_VERSION.to_string(),
        chunker_version: "symbol-range-v1".to_string(),
    }
}

fn sample_file(name: &str, sha: &str) -> CodeFile {
    CodeFile {
        repo_id: RepoId("repo".to_string()),
        file_id: FileId(stable_hash(&[name])),
        path: format!("/tmp/repo/{name}"),
        relative_path: name.to_string(),
        language: Language::Rust,
        fingerprint: FileFingerprint { sha256: sha.to_string(), size_bytes: 10, mtime_seconds: 1 },
    }
}

fn text(s: &str) -> StoreValue {
    StoreValue::Text(s.to_string())
}

/// The row that the store's fingerprint query returns for a file indexed under `ctx`.
fn fingerprint_row(file: &CodeFile, ctx: &IndexContext, status: &str) -> Vec<StoreValue> {
    vec![
        text(&ctx.project_id.0),
        text(&ctx.worktree_id.0),
        text(&file.file_id.0),
        text(&file.relative_path),
        text(&file.fingerprint.sha256),
        StoreValue::Int64(file.fingerprint.size_bytes as i64),
        StoreValue::Int64(file.fingerprint.mtime_seconds as i64),
        text(&ctx.parser_version),
        text(&ctx.schema_version),
        text(&ctx.chunker_version),
        text("run"),
        text("100"),
        text("100"),
        text(status),
        if status == "deleted" { text("200") } else { StoreValue::Null },
    ]
}

fn scan_of(files: Vec<CodeFile>) -> ScanResult {
    ScanResult {
        repo_id: RepoId("repo".to_string()),
        repo_root: "/tmp/repo".to_string(),
        files,
        skipped_files: Vec::new(),
    }
}

fn dependency(from: &CodeFile, to: &CodeFile, raw: &str) -> FileDependency {
    FileDependency {
        from_file_id: from.file_id.clone(),
        to_file_id: to.file_id.clone(),
        from_relative_path: from.relative_path.clone(),
        to_relative_path: to.relative_path.clone(),
        raw_target: raw.to_string(),
        confidence: Confidence { score_milli: 1000, label: "high".to_string() },
        evidence: Evidence {
            source: "kuzu-import-resolver".to_string(),
            detail: "rust module path resolved to local file".to_string(),
        },
    }
}

fn stored(file: &CodeFile) -> StoredFile {
    StoredFile { file_id: file.file_id.clone(), relative_path: file.relative_path.clone(), language: Language::Rust }
}

#[test]
fn second_index_without_changes_reports_unchanged() {
    let ctx = sample_context("/tmp/repo", "parser-v1");
    let file = sample_file("src/main.rs", "sha-a");
    let records = records_from_rows(&vec![fingerprint_row(&file, &ctx, "indexed")], &ctx.scope_id).expect("records");
    let plan = plan_from_records(&scan_of(vec![file]), &ctx, &records);

    assert_eq!(plan.changes.len(), 1);
    assert_eq!(plan.changes[0].kind, FileChangeKind::Unchanged);
}

#[test]
fn parser_version_change_triggers_reindex_needed() {
    let ctx_v1 = sample_context("/tmp/repo", "parser-v1");
    let file = sample_file("src/main.rs", "sha-a");
    let records =
        records_from_rows(&vec![fingerprint_row(&file, &ctx_v1, "indexed")], &ctx_v1.scope_id).expect("records");

    let ctx_v2 = sample_context("/tmp/repo", "parser-v2");
    let plan = plan_from_records(&scan_of(vec![file]), &ctx_v2, &records);

    assert_eq!(plan.changes[0].kind, FileChangeKind::ReindexNeeded);
    assert_eq!(plan.changes[0].reason.as_deref(), Some("version mismatch"));
}

#[test]
fn plan_covers_added_modified_deleted_and_skipped_files() {
    let ctx = sample_context("/tmp/repo", "parser-v1");
    let kept = sample_file("src/a.rs", "sha-a");
    let changed = sample_file("src/b.rs", "sha-b");
    let gone = sample_file("src/c.rs", "sha-c");
    let revived = sample_file("src/d.rs", "sha-d");
    let rows = vec![
        fingerprint_row(&kept, &ctx, "indexed"),
        fingerprint_row(&changed, &ctx, "indexed"),
        fingerprint_row(&gone, &ctx, "indexed"),
        fingerprint_row(&revived, &ctx, "deleted"),
    ];
    let records = records_from_rows(&rows, &ctx.scope_id).expect("records");
    let new_file = sample_file("src/e.rs", "sha-e");
    let mut scan = scan_of(vec![new_file, revived.clone(), sample_file("src/b.rs", "sha-b2"), kept.clone()]);
    scan.skipped_files.push(SkippedFile { relative_path: "src/big.rs".to_string(), reason: "oversized".to_string() });

    let plan = plan_from_records(&scan, &ctx, &records);
    let kinds: Vec<(&str, FileChangeKind)> =
        plan.changes.iter().map(|c| (c.relative_path.as_str(), c.kind)).collect();
    assert_eq!(
        kinds,
        [
            ("src/a.rs", FileChangeKind::Unchanged),
            ("src/b.rs", FileChangeKind::Modified),
            ("src/big.rs", FileChangeKind::Skipped),
            ("src/c.rs", FileChangeKind::Deleted),
            ("src/d.rs", FileChangeKind::Added),
            ("src/e.rs", FileChangeKind::Added),
        ]
    );
    let modified = &plan.changes[1];
    assert_eq!(modified.previous_sha256.as_deref(), Some("sha-b"));
    assert_eq!(modified.current_sha256.as_deref(), Some("sha-b2"));
    let revived_change = &plan.changes[4];
    assert_eq!(revived_change.reason.as_deref(), Some("previously soft-deleted"));
    assert_eq!(revived_change.previous_sha256.as_deref(), Some("sha-d"));
    let added = &plan.changes[5];
    assert_eq!(added.previous_sha256, None);
    assert_eq!(plan.changes[2].reason.as_deref(), Some("oversized"));
    assert_eq!(plan.scope_id, Some(ScopeId("scope".to_string())));

    let status = status_from_records(&scan, &ctx, &records);
    assert_eq!(status.tracked_files, 3);
    assert_eq!(status.scan_files, 4);
    assert_eq!((status.added, status.modified, status.unchanged), (2, 1, 1));
    assert_eq!((status.deleted, status.skipped, status.reindex_needed), (1, 1, 0));

    let changed_list = changed_from_records(&scan, &ctx, &records);
    let names: Vec<&str> = changed_list.iter().map(|c| c.relative_path.as_str()).collect();
    assert_eq!(names, ["src/b.rs", "src/big.rs", "src/c.rs", "src/d.rs", "src/e.rs"]);
}

#[test]
fn rebuild_scope_import_edges_resolves_rust_mod_imports() {
    let main = sample_file("src/main.rs", "sha-main");
    let auth = sample_file("src/auth.rs", "sha-auth");
    let files = vec![stored(&auth), stored(&main)];
    let rows = vec![ImportRow { from: stored(&main), raw_target: "auth".to_string() }];

    let edges = resolve_scope_imports(&rows, &files);

    assert_eq!(edges.len(), 1);
    assert_eq!(edges[0].from_file_id, main.file_id);
    assert_eq!(edges[0].to_file_id, auth.file_id);
    assert_eq!(edges[0].raw_target, "auth");
}

#[test]
fn rebuild_scope_import_edges_is_idempotent() {
    let main = sample_file("src/main.rs", "sha-main");
    let auth = sample_file("src/auth.rs", "sha-auth");
    let files = vec![stored(&auth), stored(&main)];
    let rows = vec![
        ImportRow { from: stored(&main), raw_target: "auth".to_string() },
        ImportRow { from: stored(&main), raw_target: "crate::auth".to_string() },
        ImportRow { from: stored(&main), raw_target: "std::fmt".to_string() },
    ];

    let first = resolve_scope_imports(&rows, &files);
    let second = resolve_scope_imports(&rows, &files);

    assert_eq!(first.len(), 1);
    assert_eq!(first, second);
}

#[test]
fn explain_file_returns_symbols_imports_and_file_dependencies() {
    let main = sample_file("src/main.rs", "sha-main");
    let file_row = vec![text(&main.file_id.0), text("src/main.rs"), text("rust")];
    let symbol_rows = vec![vec![
        text("sym"),
        text(&main.file_id.0),
        text("src/main.rs"),
        text("main"),
        text("function"),
        text("rust"),
        StoreValue::Int64(1),
        StoreValue::Int64(3),
    ]];
    let import_rows = vec![vec![text("imp"), text(&main.file_id.0), text("auth"), StoreValue::Int64(1)]];
    let dependency_rows = vec![vec![
        text(&main.file_id.0),
        text("auth-id"),
        text("src/main.rs"),
        text("src/auth.rs"),
        text("auth"),
        StoreValue::Double(1000),
        text("high"),
        text("rust module path resolved to local file"),
    ]];
    let warning_rows = vec![vec![
        text("warn"),
        StoreValue::Null,
        text("src/main.rs"),
        text("parse"),
        text("heuristic parser"),
    ]];

    let explanation =
        explanation_from_rows(&file_row, &symbol_rows, &import_rows, &dependency_rows, &warning_rows)
            .expect("explain file");

    assert_eq!(explanation.relative_path, "src/main.rs");
    assert_eq!(explanation.language, Language::Rust);
    assert!(explanation.symbols.iter().any(|symbol| symbol.name == "main"));
    assert!(explanation.imports.iter().any(|import| import.raw_target == "auth"));
    assert!(explanation.dependencies.iter().any(|dependency| dependency.to_relative_path == "src/auth.rs"));
    assert_eq!(explanation.dependencies[0].confidence.score_milli, 1000);
    assert_eq!(explanation.dependencies[0].evidence.source, "kuzu-import-resolver");
    assert_eq!(explanation.warnings[0].file_id, None);

    let broken = vec![vec![text("imp"), text(&main.file_id.0), text("auth"), text("one")]];
    assert_eq!(
        explanation_from_rows(&file_row, &symbol_rows, &broken, &dependency_rows, &warning_rows).err(),
        Some(RowError::Unexpected(3, ValueClass::Integer))
    );
    assert_eq!(
        explanation_from_rows(&vec![text("id")], &symbol_rows, &import_rows, &dependency_rows, &warning_rows).err(),
        Some(RowError::MissingColumn(1))
    );
}

#[test]
fn file_neighbors_returns_incoming_and_outgoing_dependencies() {
    let main = sample_file("src/main.rs", "sha-main");
    let auth = sample_file("src/auth.rs", "sha-auth");
    let app = sample_file("src/app.rs", "sha-app");
    let deps = vec![dependency(&main, &auth, "auth"), dependency(&app, &main, "main")];

    let neighbors = neighborhood_from(main.file_id.clone(), main.relative_path.clone(), &deps);

    assert!(neighbors.outgoing.iter().any(|dependency| dependency.to_relative_path == "src/auth.rs"));
    assert!(neighbors.incoming.iter().any(|dependency| dependency.from_relative_path == "src/app.rs"));
    assert_eq!((neighbors.outgoing.len(), neighbors.incoming.len()), (1, 1));
}

#[test]
fn file_impact_returns_transitive_reverse_dependencies() {
    let auth = sample_file("src/auth.rs", "sha-auth");
    let main = sample_file("src/main.rs", "sha-main");
    let app = sample_file("src/app.rs", "sha-app");
    let deps = vec![dependency(&main, &auth, "auth"), dependency(&app, &main, "main")];

    let impact = impact_from(auth.file_id.clone(), auth.relative_path.clone(), &deps);

    assert!(impact.impacted_files.iter().any(|file| file.relative_path == "src/main.rs" && file.depth == 1));
    assert!(impact.impacted_files.iter().any(|file| file.relative_path == "src/app.rs" && file.depth == 2));
    assert_eq!(impact.impacted_files.len(), 2);
    assert_eq!(impact.impacted_files[1].via_relative_path, "src/main.rs");
}

#[test]
fn impact_lists_each_file_once_at_its_least_depth() {
    let a = sample_file("src/a.rs", "1");
    let b = sample_file("src/b.rs", "2");
    let c = sample_file("src/c.rs", "3");
    // c reaches a both directly and through b; the cycle through c lists a itself.
    let deps = vec![dependency(&b, &a, "a"), dependency(&c, &b, "b"), dependency(&c, &a, "a"), dependency(&a, &c, "c")];

    let impact = impact_from(a.file_id.clone(), a.relative_path.clone(), &deps);
    let listed: Vec<(&str, usize, &str)> = impact
        .impacted_files
        .iter()
        .map(|f| (f.relative_path.as_str(), f.depth, f.via_relative_path.as_str()))
        .collect();
    assert_eq!(listed, [("src/b.rs", 1, "src/a.rs"), ("src/c.rs", 1, "src/a.rs"), ("src/a.rs", 2, "src/c.rs")]);
}

#[test]
fn literals_escape_quotes_and_backslashes() {
    assert_eq!(lit("a'b"), "'a\\'b'");
    assert_eq!(lit("c:\\x"), "'c:\\\\x'");
    assert_eq!(lit(""), "''");
}

#[test]
fn store_keeps_its_path() {
    let store = KuzuGraphStore::new("/tmp/repo/.reposcryer/kuzu/db");
    assert_eq!(store.db_path(), "/tmp/repo/.reposcryer/kuzu/db");
}
