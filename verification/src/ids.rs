use vstd::prelude::*;
use crate::hash::{stable_hash, stable_hash_spec};
use crate::text::{decimal, decimal_string};
use crate::model::{IndexContext, EdgeKind, edge_kind_name};

verus! {

/// Identifier of a repository.
#[derive(Debug, PartialEq, Eq, Hash)]
pub struct RepoId(pub String);

impl View for RepoId {
    type V = Seq<char>;

    open spec fn view(&self) -> Seq<char> {
        self.0@
    }
}

impl Clone for RepoId {
    fn clone(&self) -> (r: Self)
        ensures
            r@ == self@,
    {
        RepoId(self.0.clone())
    }
}

/// Identifier of a project.
#[derive(Debug, PartialEq, Eq, Hash)]
pub struct ProjectId(pub String);

impl View for ProjectId {
    type V = Seq<char>;

    open spec fn view(&self) -> Seq<char> {
        self.0@
    }
}

impl Clone for ProjectId {
    fn clone(&self) -> (r: Self)
        ensures
            r@ == self@,
    {
        ProjectId(self.0.clone())
    }
}

/// Identifier of a worktree.
#[derive(Debug, PartialEq, Eq, Hash)]
pub struct WorktreeId(pub String);

impl View for WorktreeId {
    type V = Seq<char>;

    open spec fn view(&self) -> Seq<char> {
        self.0@
    }
}

impl Clone for WorktreeId {
    fn clone(&self) -> (r: Self)
        ensures
            r@ == self@,
    {
        WorktreeId(self.0.clone())
    }
}

/// Identifier of an index scope.
#[derive(Debug, PartialEq, Eq, Hash)]
pub struct ScopeId(pub String);

impl View for ScopeId {
    type V = Seq<char>;

    open spec fn view(&self) -> Seq<char> {
        self.0@
    }
}

impl Clone for ScopeId {
    fn clone(&self) -> (r: Self)
        ensures
            r@ == self@,
    {
        ScopeId(self.0.clone())
    }
}

/// Identifier of an index run.
#[derive(Debug, PartialEq, Eq, Hash)]
pub struct RunId(pub String);

impl View for RunId {
    type V = Seq<char>;

    open spec fn view(&self) -> Seq<char> {
        self.0@
    }
}

impl Clone for RunId {
    fn clone(&self) -> (r: Self)
        ensures
            r@ == self@,
    {
        RunId(self.0.clone())
    }
}

/// Identifier of a file.
#[derive(Debug, PartialEq, Eq, Hash)]
pub struct FileId(pub String);

impl View for FileId {
    type V = Seq<char>;

    open spec fn view(&self) -> Seq<char> {
        self.0@
    }
}

impl Clone for FileId {
    fn clone(&self) -> (r: Self)
        ensures
            r@ == self@,
    {
        FileId(self.0.clone())
    }
}

/// Identifier of a symbol.
#[derive(Debug, PartialEq, Eq, Hash)]
pub struct SymbolId(pub String);

impl View for SymbolId {
    type V = Seq<char>;

    open spec fn view(&self) -> Seq<char> {
        self.0@
    }
}

impl Clone for SymbolId {
    fn clone(&self) -> (r: Self)
        ensures
            r@ == self@,
    {
        SymbolId(self.0.clone())
    }
}

/// Identifier of a graph edge.
#[derive(Debug, PartialEq, Eq, Hash)]
pub struct EdgeId(pub String);

impl View for EdgeId {
    type V = Seq<char>;

    open spec fn view(&self) -> Seq<char> {
        self.0@
    }
}

impl Clone for EdgeId {
    fn clone(&self) -> (r: Self)
        ensures
            r@ == self@,
    {
        EdgeId(self.0.clone())
    }
}

/// Identifier of an import.
#[derive(Debug, PartialEq, Eq, Hash)]
pub struct ImportId(pub String);

impl View for ImportId {
    type V = Seq<char>;

    open spec fn view(&self) -> Seq<char> {
        self.0@
    }
}

impl Clone for ImportId {
    fn clone(&self) -> (r: Self)
        ensures
            r@ == self@,
    {
        ImportId(self.0.clone())
    }
}

/// Identifier of an import target.
#[derive(Debug, PartialEq, Eq, Hash)]
pub struct ImportTargetId(pub String);

impl View for ImportTargetId {
    type V = Seq<char>;

    open spec fn view(&self) -> Seq<char> {
        self.0@
    }
}

impl Clone for ImportTargetId {
    fn clone(&self) -> (r: Self)
        ensures
            r@ == self@,
    {
        ImportTargetId(self.0.clone())
    }
}

/// Identifier of a chunk.
#[derive(Debug, PartialEq, Eq, Hash)]
pub struct ChunkId(pub String);

impl View for ChunkId {
    type V = Seq<char>;

    open spec fn view(&self) -> Seq<char> {
        self.0@
    }
}

impl Clone for ChunkId {
    fn clone(&self) -> (r: Self)
        ensures
            r@ == self@,
    {
        ChunkId(self.0.clone())
    }
}

/// Identifier of a warning.
#[derive(Debug, PartialEq, Eq, Hash)]
pub struct WarningId(pub String);

impl View for WarningId {
    type V = Seq<char>;

    open spec fn view(&self) -> Seq<char> {
        self.0@
    }
}

impl Clone for WarningId {
    fn clone(&self) -> (r: Self)
        ensures
            r@ == self@,
    {
        WarningId(self.0.clone())
    }
}


/// The identifier of a repository root.
pub fn repo_id_from_path(path: &str) -> (r: RepoId)
    ensures
        r@ == stable_hash_spec(seq![path@]),
{
    let parts: [&str; 1] = [path];
    let h = stable_hash(parts.as_slice());
    proof {
        assert(crate::hash::str_views(parts@) =~= seq![path@]);
    }
    RepoId(h)
}

/// The identifier of the project of a repository.
pub fn project_id_from_repo(repo_id: &RepoId) -> (r: ProjectId)
    ensures
        r@ == stable_hash_spec(seq![repo_id@, "project"@]),
{
    let parts: [&str; 2] = [repo_id.0.as_str(), "project"];
    let h = stable_hash(parts.as_slice());
    proof {
        assert(crate::hash::str_views(parts@) =~= seq![repo_id@, "project"@]);
    }
    ProjectId(h)
}

/// The identifier of the worktree at a path.
pub fn worktree_id_from_path(path: &str) -> (r: WorktreeId)
    ensures
        r@ == stable_hash_spec(seq![path@, "worktree"@]),
{
    let parts: [&str; 2] = [path, "worktree"];
    let h = stable_hash(parts.as_slice());
    proof {
        assert(crate::hash::str_views(parts@) =~= seq![path@, "worktree"@]);
    }
    WorktreeId(h)
}

/// The identifier of the index scope at a path.
pub fn scope_id_from_path(path: &str) -> (r: ScopeId)
    ensures
        r@ == stable_hash_spec(seq![path@, "scope"@]),
{
    let parts: [&str; 2] = [path, "scope"];
    let h = stable_hash(parts.as_slice());
    proof {
        assert(crate::hash::str_views(parts@) =~= seq![path@, "scope"@]);
    }
    ScopeId(h)
}

/// The identifier of a run of a context, from a seed.
pub fn run_id_for_context(ctx: &IndexContext, seed: &str) -> (r: RunId)
    ensures
        r@ == stable_hash_spec(seq![ctx.scope_id@, seed@]),
{
    let parts: [&str; 2] = [ctx.scope_id.0.as_str(), seed];
    let h = stable_hash(parts.as_slice());
    proof {
        assert(crate::hash::str_views(parts@) =~= seq![ctx.scope_id@, seed@]);
    }
    RunId(h)
}

/// The identifier of a file from its relative path alone.
pub fn file_id_from_relative_path(path: &str) -> (r: FileId)
    ensures
        r@ == stable_hash_spec(seq![path@]),
{
    let parts: [&str; 1] = [path];
    let h = stable_hash(parts.as_slice());
    proof {
        assert(crate::hash::str_views(parts@) =~= seq![path@]);
    }
    FileId(h)
}

/// The identifier of a file of a project and scope.
pub fn file_id_from_project_scope_path(project_id: &ProjectId, scope_id: &ScopeId, path: &str) -> (r: FileId)
    ensures
        r@ == stable_hash_spec(seq![project_id@, scope_id@, path@]),
{
    let parts: [&str; 3] = [project_id.0.as_str(), scope_id.0.as_str(), path];
    let h = stable_hash(parts.as_slice());
    proof {
        assert(crate::hash::str_views(parts@) =~= seq![project_id@, scope_id@, path@]);
    }
    FileId(h)
}

/// The identifier of a symbol from its file, name and line range.
pub fn symbol_id_from_parts(file_path: &str, name: &str, start_line: usize, end_line: usize) -> (r: SymbolId)
    ensures
        r@ == stable_hash_spec(
            seq![file_path@, name@, decimal(start_line as nat), decimal(end_line as nat)],
        ),
{
    let start = decimal_string(start_line as u64);
    let end = decimal_string(end_line as u64);
    let parts: [&str; 4] = [file_path, name, start.as_str(), end.as_str()];
    let h = stable_hash(parts.as_slice());
    proof {
        assert(crate::hash::str_views(parts@) =~= seq![file_path@, name@, decimal(start_line as nat), decimal(end_line as nat)]);
    }
    SymbolId(h)
}

/// The identifier of an import from its file, target and line.
pub fn import_id_from_parts(file_id: &FileId, raw_target: &str, line: usize) -> (r: ImportId)
    ensures
        r@ == stable_hash_spec(seq![file_id@, raw_target@, decimal(line as nat)]),
{
    let line_text = decimal_string(line as u64);
    let parts: [&str; 3] = [file_id.0.as_str(), raw_target, line_text.as_str()];
    let h = stable_hash(parts.as_slice());
    proof {
        assert(crate::hash::str_views(parts@) =~= seq![file_id@, raw_target@, decimal(line as nat)]);
    }
    ImportId(h)
}

/// The identifier of a chunk from its file, label and line range.
pub fn chunk_id_from_parts(file_id: &FileId, label: &str, start_line: usize, end_line: usize) -> (r: ChunkId)
    ensures
        r@ == stable_hash_spec(
            seq![file_id@, label@, decimal(start_line as nat), decimal(end_line as nat)],
        ),
{
    let start = decimal_string(start_line as u64);
    let end = decimal_string(end_line as u64);
    let parts: [&str; 4] = [file_id.0.as_str(), label, start.as_str(), end.as_str()];
    let h = stable_hash(parts.as_slice());
    proof {
        assert(crate::hash::str_views(parts@) =~= seq![file_id@, label@, decimal(start_line as nat), decimal(end_line as nat)]);
    }
    ChunkId(h)
}

/// The identifier of a warning from its file, stage and message.
pub fn warning_id_from_parts(file_path: &str, stage: &str, message: &str) -> (r: WarningId)
    ensures
        r@ == stable_hash_spec(seq![file_path@, stage@, message@]),
{
    let parts: [&str; 3] = [file_path, stage, message];
    let h = stable_hash(parts.as_slice());
    proof {
        assert(crate::hash::str_views(parts@) =~= seq![file_path@, stage@, message@]);
    }
    WarningId(h)
}

/// The identifier of an import target.
pub fn import_target_id(raw_target: &str) -> (r: ImportTargetId)
    ensures
        r@ == stable_hash_spec(seq![raw_target@]),
{
    let parts: [&str; 1] = [raw_target];
    let h = stable_hash(parts.as_slice());
    proof {
        assert(crate::hash::str_views(parts@) =~= seq![raw_target@]);
    }
    ImportTargetId(h)
}

/// The identifier of an edge from its ends, kind and detail.
pub fn edge_id_from_parts(from_id: &str, to_id: &str, kind: &EdgeKind, detail: &str) -> (r: EdgeId)
    ensures
        r@ == stable_hash_spec(seq![from_id@, to_id@, edge_kind_name(*kind), detail@]),
{
    let parts: [&str; 4] = [from_id, to_id, kind.name(), detail];
    let h = stable_hash(parts.as_slice());
    proof {
        assert(crate::hash::str_views(parts@) =~= seq![from_id@, to_id@, edge_kind_name(*kind), detail@]);
    }
    EdgeId(h)
}

} // verus!
