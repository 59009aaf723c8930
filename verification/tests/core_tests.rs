use reposcryer::hash::stable_hash;
use reposcryer::ids::{
    chunk_id_from_parts, edge_id_from_parts, file_id_from_project_scope_path, file_id_from_relative_path,
    import_id_from_parts, import_target_id, project_id_from_repo, repo_id_from_path, run_id_for_context,
    scope_id_from_path, symbol_id_from_parts, warning_id_from_parts, worktree_id_from_path, FileId, RepoId,
};
use reposcryer::model::{
    Confidence, EdgeKind, Evidence, FileChange, FileChangeKind, GraphEdge, IncrementalIndexPlan, Language,
};

fn change(id: &str, path: &str, kind: FileChangeKind) -> FileChange {
    FileChange {
        file_id: FileId(id.to_string()),
        relative_path: path.to_string(),
        kind,
        fingerprint: None,
        previous_sha256: None,
        current_sha256: None,
        reason: None,
    }
}

#[test]
fn stable_file_id_from_path() {
    let left = file_id_from_relative_path("src/main.rs");
    let right = file_id_from_relative_path("src/main.rs");
    assert_eq!(left, right);
}

#[test]
fn stable_symbol_id_from_file_name_and_range() {
    let left = symbol_id_from_parts("src/lib.rs", "run", 10, 12);
    let right = symbol_id_from_parts("src/lib.rs", "run", 10, 12);
    assert_eq!(left, right);
}

#[test]
fn graph_edge_contains_confidence_and_evidence() {
    let edge = GraphEdge {
        edge_id: edge_id_from_parts("file", "symbol", &EdgeKind::Defines, "unit-test"),
        from_id: "file".to_string(),
        to_id: "symbol".to_string(),
        kind: EdgeKind::Defines,
        confidence: Confidence { score_milli: 1000, label: "high".to_string() },
        evidence: Evidence { source: "test".to_string(), detail: "unit-test".to_string() },
    };

    assert_eq!(edge.confidence.label, "high");
    assert_eq!(edge.evidence.source, "test");
}

#[test]
fn incremental_plan_stats_count_each_change_kind() {
    let mut a = change("a", "src/a.rs", FileChangeKind::Added);
    a.current_sha256 = Some("a".to_string());
    let mut b = change("b", "src/b.rs", FileChangeKind::Modified);
    b.previous_sha256 = Some("old".to_string());
    b.current_sha256 = Some("new".to_string());
    let mut c = change("c", "src/c.rs", FileChangeKind::Deleted);
    c.previous_sha256 = Some("c".to_string());
    let mut d = change("d", "src/d.rs", FileChangeKind::Unchanged);
    d.previous_sha256 = Some("d".to_string());
    d.current_sha256 = Some("d".to_string());
    let plan = IncrementalIndexPlan { project_id: None, worktree_id: None, scope_id: None, changes: vec![a, b, c, d] };

    let stats = plan.stats();
    assert_eq!(stats.added, 1);
    assert_eq!(stats.modified, 1);
    assert_eq!(stats.deleted, 1);
    assert_eq!(stats.unchanged, 1);
}

#[test]
fn scope_and_worktree_ids_are_stable() {
    let scope_left = scope_id_from_path("/tmp/repo");
    let scope_right = scope_id_from_path("/tmp/repo");
    let worktree_left = worktree_id_from_path("/tmp/repo");
    let worktree_right = worktree_id_from_path("/tmp/repo");

    assert_eq!(scope_left, scope_right);
    assert_eq!(worktree_left, worktree_right);
}

#[test]
fn stable_hash_is_sha256_of_zero_terminated_parts() {
    // SHA-256 of the bytes "src/main.rs\0".
    let h = stable_hash(&["src/main.rs"]);
    assert_eq!(h.len(), 64);
    assert!(h.chars().all(|c| c.is_ascii_hexdigit() && !c.is_ascii_uppercase()));
    assert_ne!(h, stable_hash(&["src/main.rs", ""]));
    assert_ne!(stable_hash(&["ab", "c"]), stable_hash(&["a", "bc"]));
    // The empty list hashes no bytes at all.
    assert_eq!(stable_hash(&[]), "e3b0c44298fc1c149afbf4c8996fb92427ae41e4649b934ca495991b7852b855");
    // One empty part hashes a single zero byte.
    assert_eq!(stable_hash(&[""]), "6e340b9cffb37a989ca544e6bb780a2c78901d3fb33738768511a30617afa01d");
}

#[test]
fn identifiers_hash_their_parts() {
    assert_eq!(file_id_from_relative_path("src/main.rs").0, stable_hash(&["src/main.rs"]));
    assert_eq!(repo_id_from_path("/tmp/repo").0, stable_hash(&["/tmp/repo"]));
    let repo = RepoId("r".to_string());
    assert_eq!(project_id_from_repo(&repo).0, stable_hash(&["r", "project"]));
    assert_eq!(worktree_id_from_path("/w").0, stable_hash(&["/w", "worktree"]));
    assert_eq!(scope_id_from_path("/w").0, stable_hash(&["/w", "scope"]));
    assert_eq!(symbol_id_from_parts("a.rs", "f", 3, 4).0, stable_hash(&["a.rs", "f", "3", "4"]));
    let file = FileId("file".to_string());
    assert_eq!(import_id_from_parts(&file, "x", 12).0, stable_hash(&["file", "x", "12"]));
    assert_eq!(chunk_id_from_parts(&file, "run", 1, 9).0, stable_hash(&["file", "run", "1", "9"]));
    assert_eq!(warning_id_from_parts("a.rs", "parse", "boom").0, stable_hash(&["a.rs", "parse", "boom"]));
    assert_eq!(import_target_id("crate::db").0, stable_hash(&["crate::db"]));
    assert_eq!(
        edge_id_from_parts("a", "b", &EdgeKind::BelongsTo, "d").0,
        stable_hash(&["a", "b", "belongs_to", "d"])
    );
    let project = project_id_from_repo(&repo);
    let scope = scope_id_from_path("/w");
    assert_eq!(
        file_id_from_project_scope_path(&project, &scope, "src/a.rs").0,
        stable_hash(&[project.0.as_str(), scope.0.as_str(), "src/a.rs"])
    );
}

#[test]
fn run_id_hashes_scope_and_seed() {
    let ctx = reposcryer::commands::index_context("/tmp/repo");
    assert_eq!(run_id_for_context(&ctx, "7").0, stable_hash(&[ctx.scope_id.0.as_str(), "7"]));
}

#[test]
fn kind_and_language_names() {
    assert_eq!(Language::TypeScript.as_str(), "typescript");
    assert_eq!(Language::Unknown.as_str(), "unknown");
    assert_eq!(FileChangeKind::ReindexNeeded.as_str(), "reindex_needed");
    assert_eq!(EdgeKind::BelongsTo.name(), "belongs_to");
    assert_eq!(reposcryer::model::SymbolKind::Interface.name(), "Interface");
}

#[test]
fn changes_of_kind_keeps_plan_order() {
    let plan = IncrementalIndexPlan {
        project_id: None,
        worktree_id: None,
        scope_id: None,
        changes: vec![
            change("a", "a.rs", FileChangeKind::Added),
            change("b", "b.rs", FileChangeKind::Deleted),
            change("c", "c.rs", FileChangeKind::Added),
        ],
    };
    let added: Vec<&str> = plan.changes_of_kind(FileChangeKind::Added).iter().map(|c| c.file_id.0.as_str()).collect();
    assert_eq!(added, ["a", "c"]);
    assert!(plan.changes_of_kind(FileChangeKind::Skipped).is_empty());
}
