use vstd::prelude::*;
use crate::ids::{
    ChunkId, EdgeId, FileId, ImportId, ProjectId, RepoId, RunId, ScopeId, SymbolId, WarningId,
    WorktreeId,
};

verus! {

/// The view of an optional identifier.
pub open spec fn opt_view<T: View>(o: Option<T>) -> Option<T::V> {
    match o {
        Some(v) => Some(v@),
        None => None,
    }
}

/// A source language the scanner recognises.
#[derive(Debug, Clone, Copy, PartialEq, Eq, Structural)]
pub enum Language {
    Rust,
    Python,
    JavaScript,
    TypeScript,
    Java,
    Go,
    Unknown,
}

/// The lower-case name of a language.
pub open spec fn language_name(l: Language) -> Seq<char> {
    match l {
        Language::Rust => "rust"@,
        Language::Python => "python"@,
        Language::JavaScript => "javascript"@,
        Language::TypeScript => "typescript"@,
        Language::Java => "java"@,
        Language::Go => "go"@,
        Language::Unknown => "unknown"@,
    }
}

impl Language {
    /// The lower-case name of the language.
    pub fn as_str(&self) -> (r: &'static str)
        ensures
            r@ == language_name(*self),
    {
        match self {
            Language::Rust => "rust",
            Language::Python => "python",
            Language::JavaScript => "javascript",
            Language::TypeScript => "typescript",
            Language::Java => "java",
            Language::Go => "go",
            Language::Unknown => "unknown",
        }
    }
}

/// Content hash, size and modification time of a scanned file.
#[derive(Debug, PartialEq, Eq)]
pub struct FileFingerprint {
    pub sha256: String,
    pub size_bytes: u64,
    pub mtime_seconds: u64,
}

pub struct FileFingerprintView {
    pub sha256: Seq<char>,
    pub size_bytes: u64,
    pub mtime_seconds: u64,
}

impl View for FileFingerprint {
    type V = FileFingerprintView;

    open spec fn view(&self) -> FileFingerprintView {
        FileFingerprintView {
            sha256: self.sha256@,
            size_bytes: self.size_bytes,
            mtime_seconds: self.mtime_seconds,
        }
    }
}

impl Clone for FileFingerprint {
    fn clone(&self) -> (r: Self)
        ensures
            r@ == self@,
    {
        FileFingerprint {
            sha256: self.sha256.clone(),
            size_bytes: self.size_bytes,
            mtime_seconds: self.mtime_seconds,
        }
    }
}

/// A source file found by a scan. Paths are `/`-separated strings.
#[derive(Debug, PartialEq, Eq)]
pub struct CodeFile {
    pub repo_id: RepoId,
    pub file_id: FileId,
    pub path: String,
    pub relative_path: String,
    pub language: Language,
    pub fingerprint: FileFingerprint,
}

pub struct CodeFileView {
    pub repo_id: Seq<char>,
    pub file_id: Seq<char>,
    pub path: Seq<char>,
    pub relative_path: Seq<char>,
    pub language: Language,
    pub fingerprint: FileFingerprintView,
}

impl View for CodeFile {
    type V = CodeFileView;

    open spec fn view(&self) -> CodeFileView {
        CodeFileView {
            repo_id: self.repo_id@,
            file_id: self.file_id@,
            path: self.path@,
            relative_path: self.relative_path@,
            language: self.language,
            fingerprint: self.fingerprint@,
        }
    }
}

impl Clone for CodeFile {
    fn clone(&self) -> (r: Self)
        ensures
            r@ == self@,
    {
        CodeFile {
            repo_id: self.repo_id.clone(),
            file_id: self.file_id.clone(),
            path: self.path.clone(),
            relative_path: self.relative_path.clone(),
            language: self.language,
            fingerprint: self.fingerprint.clone(),
        }
    }
}

/// A file the scan saw but did not index, with the reason.
#[derive(Debug, PartialEq, Eq)]
pub struct SkippedFile {
    pub relative_path: String,
    pub reason: String,
}

pub struct SkippedFileView {
    pub relative_path: Seq<char>,
    pub reason: Seq<char>,
}

impl View for SkippedFile {
    type V = SkippedFileView;

    open spec fn view(&self) -> SkippedFileView {
        SkippedFileView { relative_path: self.relative_path@, reason: self.reason@ }
    }
}

impl Clone for SkippedFile {
    fn clone(&self) -> (r: Self)
        ensures
            r@ == self@,
    {
        SkippedFile { relative_path: self.relative_path.clone(), reason: self.reason.clone() }
    }
}

/// The outcome of scanning a repository.
#[derive(Debug, PartialEq, Eq)]
pub struct ScanResult {
    pub repo_id: RepoId,
    pub repo_root: String,
    pub files: Vec<CodeFile>,
    pub skipped_files: Vec<SkippedFile>,
}

/// The kind of a declaration found by a parser.
#[derive(Debug, Clone, Copy, PartialEq, Eq, Structural)]
pub enum SymbolKind {
    Struct,
    Enum,
    Trait,
    Function,
    Method,
    Class,
    Interface,
    Module,
    Type,
}

/// The variant name of a symbol kind, as `{:?}` writes it.
pub open spec fn symbol_kind_name(k: SymbolKind) -> Seq<char> {
    match k {
        SymbolKind::Struct => "Struct"@,
        SymbolKind::Enum => "Enum"@,
        SymbolKind::Trait => "Trait"@,
        SymbolKind::Function => "Function"@,
        SymbolKind::Method => "Method"@,
        SymbolKind::Class => "Class"@,
        SymbolKind::Interface => "Interface"@,
        SymbolKind::Module => "Module"@,
        SymbolKind::Type => "Type"@,
    }
}

impl SymbolKind {
    /// The variant name of the kind, as `{:?}` writes it.
    pub fn name(&self) -> (r: &'static str)
        ensures
            r@ == symbol_kind_name(*self),
    {
        match self {
            SymbolKind::Struct => "Struct",
            SymbolKind::Enum => "Enum",
            SymbolKind::Trait => "Trait",
            SymbolKind::Function => "Function",
            SymbolKind::Method => "Method",
            SymbolKind::Class => "Class",
            SymbolKind::Interface => "Interface",
            SymbolKind::Module => "Module",
            SymbolKind::Type => "Type",
        }
    }
}

/// A line range of a source file, both ends included.
#[derive(Debug, Clone, Copy, PartialEq, Eq, Structural)]
pub struct CodeChunk {
    pub start_line: usize,
    pub end_line: usize,
}

/// A declaration found in a file.
#[derive(Debug, PartialEq, Eq)]
pub struct Symbol {
    pub symbol_id: SymbolId,
    pub file_id: FileId,
    pub file_path: String,
    pub name: String,
    pub kind: SymbolKind,
    pub range: CodeChunk,
    pub language: Language,
}

pub struct SymbolView {
    pub symbol_id: Seq<char>,
    pub file_id: Seq<char>,
    pub file_path: Seq<char>,
    pub name: Seq<char>,
    pub kind: SymbolKind,
    pub range: CodeChunk,
    pub language: Language,
}

impl View for Symbol {
    type V = SymbolView;

    open spec fn view(&self) -> SymbolView {
        SymbolView {
            symbol_id: self.symbol_id@,
            file_id: self.file_id@,
            file_path: self.file_path@,
            name: self.name@,
            kind: self.kind,
            range: self.range,
            language: self.language,
        }
    }
}

impl Clone for Symbol {
    fn clone(&self) -> (r: Self)
        ensures
            r@ == self@,
    {
        Symbol {
            symbol_id: self.symbol_id.clone(),
            file_id: self.file_id.clone(),
            file_path: self.file_path.clone(),
            name: self.name.clone(),
            kind: self.kind,
            range: self.range,
            language: self.language,
        }
    }
}

/// An import statement found in a file, with its raw target text.
#[derive(Debug, PartialEq, Eq)]
pub struct Import {
    pub import_id: ImportId,
    pub from_file_id: FileId,
    pub raw_target: String,
    pub line: usize,
}

pub struct ImportView {
    pub import_id: Seq<char>,
    pub from_file_id: Seq<char>,
    pub raw_target: Seq<char>,
    pub line: usize,
}

impl View for Import {
    type V = ImportView;

    open spec fn view(&self) -> ImportView {
        ImportView {
            import_id: self.import_id@,
            from_file_id: self.from_file_id@,
            raw_target: self.raw_target@,
            line: self.line,
        }
    }
}

impl Clone for Import {
    fn clone(&self) -> (r: Self)
        ensures
            r@ == self@,
    {
        Import {
            import_id: self.import_id.clone(),
            from_file_id: self.from_file_id.clone(),
            raw_target: self.raw_target.clone(),
            line: self.line,
        }
    }
}

/// A labelled line range of a file, usually one symbol's.
#[derive(Debug, PartialEq, Eq)]
pub struct Chunk {
    pub chunk_id: ChunkId,
    pub file_id: FileId,
    pub symbol_id: Option<SymbolId>,
    pub label: String,
    pub range: CodeChunk,
}

pub struct ChunkView {
    pub chunk_id: Seq<char>,
    pub file_id: Seq<char>,
    pub symbol_id: Option<Seq<char>>,
    pub label: Seq<char>,
    pub range: CodeChunk,
}

impl View for Chunk {
    type V = ChunkView;

    open spec fn view(&self) -> ChunkView {
        ChunkView {
            chunk_id: self.chunk_id@,
            file_id: self.file_id@,
            symbol_id: opt_view(self.symbol_id),
            label: self.label@,
            range: self.range,
        }
    }
}

/// Whether a stored file is still present.
#[derive(Debug, Clone, Copy, PartialEq, Eq, Structural)]
pub enum FileStatus {
    Active,
    Deleted,
}

/// A problem met while indexing a file.
#[derive(Debug, PartialEq, Eq)]
pub struct IndexWarning {
    pub warning_id: WarningId,
    pub file_id: Option<FileId>,
    pub file_path: String,
    pub stage: String,
    pub message: String,
}

pub struct IndexWarningView {
    pub warning_id: Seq<char>,
    pub file_id: Option<Seq<char>>,
    pub file_path: Seq<char>,
    pub stage: Seq<char>,
    pub message: Seq<char>,
}

impl View for IndexWarning {
    type V = IndexWarningView;

    open spec fn view(&self) -> IndexWarningView {
        IndexWarningView {
            warning_id: self.warning_id@,
            file_id: opt_view(self.file_id),
            file_path: self.file_path@,
            stage: self.stage@,
            message: self.message@,
        }
    }
}

impl Clone for IndexWarning {
    fn clone(&self) -> (r: Self)
        ensures
            r@ == self@,
    {
        IndexWarning {
            warning_id: self.warning_id.clone(),
            file_id: match &self.file_id {
                Some(id) => Some(id.clone()),
                None => None,
            },
            file_path: self.file_path.clone(),
            stage: self.stage.clone(),
            message: self.message.clone(),
        }
    }
}

/// The kind of a graph edge.
#[derive(Debug, Clone, Copy, PartialEq, Eq, Structural)]
pub enum EdgeKind {
    Defines,
    BelongsTo,
    Imports,
    Calls,
}

/// The snake-case name of an edge kind, as it enters an edge identifier.
pub open spec fn edge_kind_name(k: EdgeKind) -> Seq<char> {
    match k {
        EdgeKind::Defines => "defines"@,
        EdgeKind::BelongsTo => "belongs_to"@,
        EdgeKind::Imports => "imports"@,
        EdgeKind::Calls => "calls"@,
    }
}

impl EdgeKind {
    /// The snake-case name of the kind.
    pub fn name(&self) -> (r: &'static str)
        ensures
            r@ == edge_kind_name(*self),
    {
        match self {
            EdgeKind::Defines => "defines",
            EdgeKind::BelongsTo => "belongs_to",
            EdgeKind::Imports => "imports",
            EdgeKind::Calls => "calls",
        }
    }
}

/// How sure an edge is: a score in thousandths (1000 is certain) and a label.
#[derive(Debug, PartialEq, Eq)]
pub struct Confidence {
    pub score_milli: u32,
    pub label: String,
}

/// Where an edge comes from.
#[derive(Debug, PartialEq, Eq)]
pub struct Evidence {
    pub source: String,
    pub detail: String,
}

/// An edge of the exported repository graph.
#[derive(Debug, PartialEq, Eq)]
pub struct GraphEdge {
    pub edge_id: EdgeId,
    pub from_id: String,
    pub to_id: String,
    pub kind: EdgeKind,
    pub confidence: Confidence,
    pub evidence: Evidence,
}

pub struct GraphEdgeView {
    pub edge_id: Seq<char>,
    pub from_id: Seq<char>,
    pub to_id: Seq<char>,
    pub kind: EdgeKind,
    pub score_milli: u32,
    pub label: Seq<char>,
    pub source: Seq<char>,
    pub detail: Seq<char>,
}

impl View for GraphEdge {
    type V = GraphEdgeView;

    open spec fn view(&self) -> GraphEdgeView {
        GraphEdgeView {
            edge_id: self.edge_id@,
            from_id: self.from_id@,
            to_id: self.to_id@,
            kind: self.kind,
            score_milli: self.confidence.score_milli,
            label: self.confidence.label@,
            source: self.evidence.source@,
            detail: self.evidence.detail@,
        }
    }
}

/// A resolved import of one file by another.
#[derive(Debug, PartialEq, Eq)]
pub struct FileDependency {
    pub from_file_id: FileId,
    pub to_file_id: FileId,
    pub from_relative_path: String,
    pub to_relative_path: String,
    pub raw_target: String,
    pub confidence: Confidence,
    pub evidence: Evidence,
}

pub struct FileDependencyView {
    pub from_file_id: Seq<char>,
    pub to_file_id: Seq<char>,
    pub from_relative_path: Seq<char>,
    pub to_relative_path: Seq<char>,
    pub raw_target: Seq<char>,
    pub score_milli: u32,
    pub label: Seq<char>,
    pub source: Seq<char>,
    pub detail: Seq<char>,
}

impl View for FileDependency {
    type V = FileDependencyView;

    open spec fn view(&self) -> FileDependencyView {
        FileDependencyView {
            from_file_id: self.from_file_id@,
            to_file_id: self.to_file_id@,
            from_relative_path: self.from_relative_path@,
            to_relative_path: self.to_relative_path@,
            raw_target: self.raw_target@,
            score_milli: self.confidence.score_milli,
            label: self.confidence.label@,
            source: self.evidence.source@,
            detail: self.evidence.detail@,
        }
    }
}

impl Clone for FileDependency {
    fn clone(&self) -> (r: Self)
        ensures
            r@ == self@,
    {
        FileDependency {
            from_file_id: self.from_file_id.clone(),
            to_file_id: self.to_file_id.clone(),
            from_relative_path: self.from_relative_path.clone(),
            to_relative_path: self.to_relative_path.clone(),
            raw_target: self.raw_target.clone(),
            confidence: Confidence {
                score_milli: self.confidence.score_milli,
                label: self.confidence.label.clone(),
            },
            evidence: Evidence {
                source: self.evidence.source.clone(),
                detail: self.evidence.detail.clone(),
            },
        }
    }
}

/// What a parser found in one file.
#[derive(Debug, PartialEq, Eq)]
pub struct ParsedFile {
    pub file_id: FileId,
    pub symbols: Vec<Symbol>,
    pub imports: Vec<Import>,
    pub chunks: Vec<Chunk>,
    pub warnings: Vec<IndexWarning>,
}

pub struct ParsedFileView {
    pub file_id: Seq<char>,
    pub symbols: Seq<SymbolView>,
    pub imports: Seq<ImportView>,
    pub chunks: Seq<ChunkView>,
    pub warnings: Seq<IndexWarningView>,
}

impl View for ParsedFile {
    type V = ParsedFileView;

    open spec fn view(&self) -> ParsedFileView {
        ParsedFileView {
            file_id: self.file_id@,
            symbols: self.symbols@.map_values(|s: Symbol| s@),
            imports: self.imports@.map_values(|i: Import| i@),
            chunks: self.chunks@.map_values(|c: Chunk| c@),
            warnings: self.warnings@.map_values(|w: IndexWarning| w@),
        }
    }
}

/// The stored facts about one indexed file.
#[derive(Debug, PartialEq, Eq)]
pub struct FileExplanation {
    pub file_id: FileId,
    pub relative_path: String,
    pub language: Language,
    pub symbols: Vec<Symbol>,
    pub imports: Vec<Import>,
    pub dependencies: Vec<FileDependency>,
    pub warnings: Vec<IndexWarning>,
}

/// The files that one file imports and the files that import it.
#[derive(Debug, PartialEq, Eq)]
pub struct FileNeighborhood {
    pub file_id: FileId,
    pub relative_path: String,
    pub outgoing: Vec<FileDependency>,
    pub incoming: Vec<FileDependency>,
}

/// A file that depends, directly or through others, on a given file.
#[derive(Debug, PartialEq, Eq)]
pub struct ImpactedFile {
    pub file_id: FileId,
    pub relative_path: String,
    pub depth: usize,
    pub via_relative_path: String,
}

pub struct ImpactedFileView {
    pub file_id: Seq<char>,
    pub relative_path: Seq<char>,
    pub depth: nat,
    pub via_relative_path: Seq<char>,
}

impl View for ImpactedFile {
    type V = ImpactedFileView;

    open spec fn view(&self) -> ImpactedFileView {
        ImpactedFileView {
            file_id: self.file_id@,
            relative_path: self.relative_path@,
            depth: self.depth as nat,
            via_relative_path: self.via_relative_path@,
        }
    }
}

/// The reverse dependencies of a file.
#[derive(Debug, PartialEq, Eq)]
pub struct FileImpact {
    pub file_id: FileId,
    pub relative_path: String,
    pub impacted_files: Vec<ImpactedFile>,
}

/// Counts of what a scope holds in the store.
#[derive(Debug, PartialEq, Eq)]
pub struct GraphSummary {
    pub scope_id: ScopeId,
    pub active_files: usize,
    pub deleted_files: usize,
    pub symbols: usize,
    pub imports: usize,
    pub dependency_edges: usize,
    pub warnings: usize,
    pub index_runs: usize,
    pub latest_run_id: Option<RunId>,
    pub latest_run_status: Option<String>,
}

/// The identity and versions under which a repository is indexed.
#[derive(Debug, PartialEq, Eq)]
pub struct IndexContext {
    pub repo_id: RepoId,
    pub project_id: ProjectId,
    pub worktree_id: WorktreeId,
    pub scope_id: ScopeId,
    pub repo_root: String,
    pub parser_version: String,
    pub schema_version: String,
    pub chunker_version: String,
}

pub struct IndexContextView {
    pub repo_id: Seq<char>,
    pub project_id: Seq<char>,
    pub worktree_id: Seq<char>,
    pub scope_id: Seq<char>,
    pub repo_root: Seq<char>,
    pub parser_version: Seq<char>,
    pub schema_version: Seq<char>,
    pub chunker_version: Seq<char>,
}

impl View for IndexContext {
    type V = IndexContextView;

    open spec fn view(&self) -> IndexContextView {
        IndexContextView {
            repo_id: self.repo_id@,
            project_id: self.project_id@,
            worktree_id: self.worktree_id@,
            scope_id: self.scope_id@,
            repo_root: self.repo_root@,
            parser_version: self.parser_version@,
            schema_version: self.schema_version@,
            chunker_version: self.chunker_version@,
        }
    }
}

/// The state of an index run.
#[derive(Debug, Clone, Copy, PartialEq, Eq, Structural)]
pub enum IndexRunStatus {
    Running,
    Completed,
    Failed,
    Interrupted,
}

/// Counters of one index run.
#[derive(Debug, Clone, Copy, PartialEq, Eq, Structural)]
pub struct IndexStats {
    pub scanned_files: usize,
    pub added: usize,
    pub modified: usize,
    pub unchanged: usize,
    pub deleted: usize,
    pub skipped: usize,
    pub reindex_needed: usize,
    pub warnings: usize,
}

impl Default for IndexStats {
    fn default() -> (r: Self)
        ensures
            r == (IndexStats {
                scanned_files: 0,
                added: 0,
                modified: 0,
                unchanged: 0,
                deleted: 0,
                skipped: 0,
                reindex_needed: 0,
                warnings: 0,
            }),
    {
        IndexStats {
            scanned_files: 0,
            added: 0,
            modified: 0,
            unchanged: 0,
            deleted: 0,
            skipped: 0,
            reindex_needed: 0,
            warnings: 0,
        }
    }
}

/// One run of the indexer.
#[derive(Debug, PartialEq, Eq)]
pub struct IndexRun {
    pub run_id: RunId,
    pub project_id: ProjectId,
    pub worktree_id: WorktreeId,
    pub scope_id: ScopeId,
    pub status: IndexRunStatus,
    pub started_at: String,
    pub finished_at: Option<String>,
    pub error: Option<String>,
}

/// How a file changed since it was last indexed.
#[derive(Debug, Clone, Copy, PartialEq, Eq, Structural)]
pub enum FileChangeKind {
    Added,
    Modified,
    Unchanged,
    Deleted,
    Skipped,
    ReindexNeeded,
}

/// The snake-case name of a change kind.
pub open spec fn change_kind_name(k: FileChangeKind) -> Seq<char> {
    match k {
        FileChangeKind::Added => "added"@,
        FileChangeKind::Modified => "modified"@,
        FileChangeKind::Unchanged => "unchanged"@,
        FileChangeKind::Deleted => "deleted"@,
        FileChangeKind::Skipped => "skipped"@,
        FileChangeKind::ReindexNeeded => "reindex_needed"@,
    }
}

impl FileChangeKind {
    /// The snake-case name of the kind.
    pub fn as_str(&self) -> (r: &'static str)
        ensures
            r@ == change_kind_name(*self),
    {
        match self {
            FileChangeKind::Added => "added",
            FileChangeKind::Modified => "modified",
            FileChangeKind::Unchanged => "unchanged",
            FileChangeKind::Deleted => "deleted",
            FileChangeKind::Skipped => "skipped",
            FileChangeKind::ReindexNeeded => "reindex_needed",
        }
    }
}

/// The planned treatment of one file.
#[derive(Debug, PartialEq, Eq)]
pub struct FileChange {
    pub file_id: FileId,
    pub relative_path: String,
    pub kind: FileChangeKind,
    pub fingerprint: Option<FileFingerprint>,
    pub previous_sha256: Option<String>,
    pub current_sha256: Option<String>,
    pub reason: Option<String>,
}

pub struct FileChangeView {
    pub file_id: Seq<char>,
    pub relative_path: Seq<char>,
    pub kind: FileChangeKind,
    pub fingerprint: Option<FileFingerprintView>,
    pub previous_sha256: Option<Seq<char>>,
    pub current_sha256: Option<Seq<char>>,
    pub reason: Option<Seq<char>>,
}

impl View for FileChange {
    type V = FileChangeView;

    open spec fn view(&self) -> FileChangeView {
        FileChangeView {
            file_id: self.file_id@,
            relative_path: self.relative_path@,
            kind: self.kind,
            fingerprint: opt_view(self.fingerprint),
            previous_sha256: opt_view(self.previous_sha256),
            current_sha256: opt_view(self.current_sha256),
            reason: opt_view(self.reason),
        }
    }
}

fn clone_opt_string(o: &Option<String>) -> (r: Option<String>)
    ensures
        opt_view(r) == opt_view(*o),
{
    match o {
        Some(s) => Some(s.clone()),
        None => None,
    }
}

impl Clone for FileChange {
    fn clone(&self) -> (r: Self)
        ensures
            r@ == self@,
    {
        FileChange {
            file_id: self.file_id.clone(),
            relative_path: self.relative_path.clone(),
            kind: self.kind,
            fingerprint: match &self.fingerprint {
                Some(f) => Some(f.clone()),
                None => None,
            },
            previous_sha256: clone_opt_string(&self.previous_sha256),
            current_sha256: clone_opt_string(&self.current_sha256),
            reason: clone_opt_string(&self.reason),
        }
    }
}

/// The number of changes of a kind in a list of changes.
pub open spec fn count_kind(changes: Seq<FileChange>, kind: FileChangeKind) -> nat
    decreases changes.len(),
{
    if changes.len() == 0 {
        0
    } else {
        count_kind(changes.drop_last(), kind) + if changes.last().kind == kind { 1nat } else { 0nat }
    }
}

/// The changes of one kind, in order.
pub open spec fn changes_with_kind(changes: Seq<FileChange>, kind: FileChangeKind) -> Seq<FileChange> {
    changes.filter(|c: FileChange| c.kind == kind)
}

/// The plan of an incremental index run.
#[derive(Debug, PartialEq, Eq)]
pub struct IncrementalIndexPlan {
    pub project_id: Option<ProjectId>,
    pub worktree_id: Option<WorktreeId>,
    pub scope_id: Option<ScopeId>,
    pub changes: Vec<FileChange>,
}

impl IncrementalIndexPlan {
    /// The changes of the given kind, in plan order.
    pub fn changes_of_kind(&self, kind: FileChangeKind) -> (r: Vec<&FileChange>)
        ensures
            r@.map_values(|c: &FileChange| *c) == changes_with_kind(self.changes@, kind),
    {
        let mut r: Vec<&FileChange> = Vec::new();
        let mut i: usize = 0;
        while i < self.changes.len()
            invariant
                i <= self.changes@.len(),
                r@.map_values(|c: &FileChange| *c) == changes_with_kind(self.changes@.take(i as int), kind),
            decreases self.changes@.len() - i,
        {
            let c = &self.changes[i];
            proof {
                let pred = |c: FileChange| c.kind == kind;
                assert(self.changes@.take(i + 1).drop_last() == self.changes@.take(i as int));
                reveal_with_fuel(Seq::<_>::filter, 1);
            }
            if c.kind == kind {
                r.push(c);
            }
            proof {
                assert(r@.map_values(|c: &FileChange| *c) =~= changes_with_kind(self.changes@.take(i + 1), kind));
            }
            i = i + 1;
        }
        assert(self.changes@.take(self.changes@.len() as int) == self.changes@);
        r
    }

    /// How many changes of each kind the plan holds; `scanned_files` and `warnings` stay 0.
    pub fn stats(&self) -> (r: IndexStats)
        ensures
            r.added == count_kind(self.changes@, FileChangeKind::Added),
            r.modified == count_kind(self.changes@, FileChangeKind::Modified),
            r.unchanged == count_kind(self.changes@, FileChangeKind::Unchanged),
            r.deleted == count_kind(self.changes@, FileChangeKind::Deleted),
            r.skipped == count_kind(self.changes@, FileChangeKind::Skipped),
            r.reindex_needed == count_kind(self.changes@, FileChangeKind::ReindexNeeded),
            r.scanned_files == 0,
            r.warnings == 0,
    {
        let mut stats = IndexStats::default();
        let n = self.changes.len();
        let mut i: usize = 0;
        while i < n
            invariant
                n == self.changes@.len(),
                i <= self.changes@.len(),
                stats.added == count_kind(self.changes@.take(i as int), FileChangeKind::Added),
                stats.modified == count_kind(self.changes@.take(i as int), FileChangeKind::Modified),
                stats.unchanged == count_kind(self.changes@.take(i as int), FileChangeKind::Unchanged),
                stats.deleted == count_kind(self.changes@.take(i as int), FileChangeKind::Deleted),
                stats.skipped == count_kind(self.changes@.take(i as int), FileChangeKind::Skipped),
                stats.reindex_needed == count_kind(self.changes@.take(i as int), FileChangeKind::ReindexNeeded),
                stats.scanned_files == 0,
                stats.warnings == 0,
            decreases self.changes@.len() - i,
        {
            proof {
                assert(self.changes@.take(i + 1).drop_last() == self.changes@.take(i as int));
                lemma_count_kind_le(self.changes@.take(i as int), FileChangeKind::Added);
                lemma_count_kind_le(self.changes@.take(i as int), FileChangeKind::Modified);
                lemma_count_kind_le(self.changes@.take(i as int), FileChangeKind::Unchanged);
                lemma_count_kind_le(self.changes@.take(i as int), FileChangeKind::Deleted);
                lemma_count_kind_le(self.changes@.take(i as int), FileChangeKind::Skipped);
                lemma_count_kind_le(self.changes@.take(i as int), FileChangeKind::ReindexNeeded);
            }
            match self.changes[i].kind {
                FileChangeKind::Added => stats.added = stats.added + 1,
                FileChangeKind::Modified => stats.modified = stats.modified + 1,
                FileChangeKind::Unchanged => stats.unchanged = stats.unchanged + 1,
                FileChangeKind::Deleted => stats.deleted = stats.deleted + 1,
                FileChangeKind::Skipped => stats.skipped = stats.skipped + 1,
                FileChangeKind::ReindexNeeded => stats.reindex_needed = stats.reindex_needed + 1,
            }
            i = i + 1;
        }
        assert(self.changes@.take(self.changes@.len() as int) == self.changes@);
        stats
    }
}

/// A count of one kind is at most the number of changes.
pub proof fn lemma_count_kind_le(changes: Seq<FileChange>, kind: FileChangeKind)
    ensures
        count_kind(changes, kind) <= changes.len(),
    decreases changes.len(),
{
    if changes.len() > 0 {
        lemma_count_kind_le(changes.drop_last(), kind);
    }
}

/// How the current scan compares with the store.
#[derive(Debug, Clone, Copy, PartialEq, Eq, Structural)]
pub struct RepoStatus {
    pub tracked_files: usize,
    pub scan_files: usize,
    pub added: usize,
    pub modified: usize,
    pub unchanged: usize,
    pub deleted: usize,
    pub skipped: usize,
    pub reindex_needed: usize,
}

/// What the store holds of one file.
#[derive(Debug, PartialEq, Eq)]
pub struct FileFingerprintRecord {
    pub project_id: ProjectId,
    pub worktree_id: WorktreeId,
    pub scope_id: ScopeId,
    pub file_id: FileId,
    pub relative_path: String,
    pub fingerprint: FileFingerprint,
    pub parser_version: String,
    pub schema_version: String,
    pub chunker_version: String,
    pub last_indexed_run_id: Option<RunId>,
    pub created_at: Option<String>,
    pub updated_at: Option<String>,
    pub status: FileStatus,
    pub deleted_at: Option<String>,
}

pub struct FileFingerprintRecordView {
    pub project_id: Seq<char>,
    pub worktree_id: Seq<char>,
    pub scope_id: Seq<char>,
    pub file_id: Seq<char>,
    pub relative_path: Seq<char>,
    pub fingerprint: FileFingerprintView,
    pub parser_version: Seq<char>,
    pub schema_version: Seq<char>,
    pub chunker_version: Seq<char>,
    pub last_indexed_run_id: Option<Seq<char>>,
    pub created_at: Option<Seq<char>>,
    pub updated_at: Option<Seq<char>>,
    pub status: FileStatus,
    pub deleted_at: Option<Seq<char>>,
}

impl View for FileFingerprintRecord {
    type V = FileFingerprintRecordView;

    open spec fn view(&self) -> FileFingerprintRecordView {
        FileFingerprintRecordView {
            project_id: self.project_id@,
            worktree_id: self.worktree_id@,
            scope_id: self.scope_id@,
            file_id: self.file_id@,
            relative_path: self.relative_path@,
            fingerprint: self.fingerprint@,
            parser_version: self.parser_version@,
            schema_version: self.schema_version@,
            chunker_version: self.chunker_version@,
            last_indexed_run_id: opt_view(self.last_indexed_run_id),
            created_at: opt_view(self.created_at),
            updated_at: opt_view(self.updated_at),
            status: self.status,
            deleted_at: opt_view(self.deleted_at),
        }
    }
}

/// Everything an index export holds.
#[derive(Debug, PartialEq, Eq)]
pub struct RepoIndex {
    pub repo_id: RepoId,
    pub repo_root: String,
    pub indexed_at: String,
    pub files: Vec<CodeFile>,
    pub symbols: Vec<Symbol>,
    pub edges: Vec<GraphEdge>,
    pub warnings: Vec<IndexWarning>,
}

} // verus!
