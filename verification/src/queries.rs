//! The statements and queries that the graph store runs, built from the values they
//! carry. Every value goes in as a quoted literal (see `lit`), every count in decimal.
use vstd::prelude::*;
use crate::hash::{stable_hash, stable_hash_spec};
use crate::ids::{FileId, RunId, ScopeId};
use crate::model::{
    language_name, symbol_kind_name, Chunk, CodeFile, GraphSummary, Import, IndexContext, IndexRun, IndexRunStatus,
    IndexStats, IndexWarning, ParsedFile, Symbol,
};
use crate::resolve::ResolvedImport;
use crate::rows::{string_at, text_cell, u64_at, u64_cell, RowError, StoreValue};
use crate::store::{lit, quoted, STORE_SCHEMA_VERSION};
use crate::text::{decimal, owned, push_decimal, push_str};

verus! {

/// The texts of some strings.
pub open spec fn texts(v: Seq<String>) -> Seq<Seq<char>> {
    v.map_values(|s: String| s@)
}

/// An optional value as a literal: quoted where present, `NULL` where absent.
pub open spec fn opt_quoted(o: Option<Seq<char>>) -> Seq<char> {
    match o {
        Some(s) => quoted(s),
        None => "NULL"@,
    }
}

/// The text of an optional string.
pub open spec fn opt_string_view(o: Option<String>) -> Option<Seq<char>> {
    match o {
        Some(s) => Some(s@),
        None => None,
    }
}

fn push_lit(q: &mut String, value: &str)
    ensures
        final(q)@ == old(q)@ + quoted(value@),
{
    let l = lit(value);
    push_str(q, l.as_str());
}

fn push_opt_lit(q: &mut String, value: &Option<String>)
    ensures
        final(q)@ == old(q)@ + opt_quoted(opt_string_view(*value)),
{
    match value {
        Some(s) => push_lit(q, s.as_str()),
        None => push_str(q, "NULL"),
    }
}

fn push_text(out: &mut Vec<String>, s: String)
    ensures
        texts(final(out)@) == texts(old(out)@).push(s@),
{
    let ghost before = out@;
    out.push(s);
    assert(texts(out@) =~= texts(before).push(s@));
}

/// The query that reads the schema version recorded in the graph.
pub const SCHEMA_VERSION_QUERY: &'static str = "MATCH (m:SchemaMeta {key: 'schema_version'}) RETURN m.value;";

/// Whether the database must be removed before the schema is set up: it exists and
/// records a schema version other than the current one.
pub fn schema_needs_reset(db_exists: bool, stored_version: &Option<String>) -> (r: bool)
    ensures
        r == (db_exists && match stored_version {
            Some(v) => v@ != STORE_SCHEMA_VERSION@,
            None => false,
        }),
{
    if !db_exists {
        return false;
    }
    match stored_version {
        Some(v) => {
            let cur = owned(STORE_SCHEMA_VERSION);
            !(*v == cur)
        },
        None => false,
    }
}

/// The statements that make sure the project, worktree and scope nodes of a context
/// exist and are linked, with `now` as their update time.
pub open spec fn context_texts(ctx: IndexContext, now: Seq<char>) -> Seq<Seq<char>> {
    seq![
        project_text(ctx.project_id@, ctx.repo_id@, ctx.repo_root@, now),
        worktree_text(ctx.worktree_id@, ctx.project_id@, ctx.repo_root@, now),
        scope_text(
            ctx.scope_id@,
            ctx.project_id@,
            ctx.worktree_id@,
            ctx.repo_root@,
            ctx.parser_version@,
            ctx.schema_version@,
            ctx.chunker_version@,
            now,
        ),
        has_worktree_text(ctx.project_id@, ctx.worktree_id@),
        has_scope_text(ctx.worktree_id@, ctx.scope_id@),
    ]
}

/// The statements that make sure the nodes of a context exist, in the order they run.
pub fn context_queries(ctx: &IndexContext, now: &str) -> (r: Vec<String>)
    ensures
        texts(r@) == context_texts(*ctx, now@),
{
    let mut r: Vec<String> = Vec::new();
    push_text(&mut r, project_query(ctx.project_id.0.as_str(), ctx.repo_id.0.as_str(), ctx.repo_root.as_str(), now));
    push_text(&mut r, worktree_query(ctx.worktree_id.0.as_str(), ctx.project_id.0.as_str(), ctx.repo_root.as_str(), now));
    push_text(
        &mut r,
        scope_query(
            ctx.scope_id.0.as_str(),
            ctx.project_id.0.as_str(),
            ctx.worktree_id.0.as_str(),
            ctx.repo_root.as_str(),
            ctx.parser_version.as_str(),
            ctx.schema_version.as_str(),
            ctx.chunker_version.as_str(),
            now,
        ),
    );
    push_text(&mut r, has_worktree_query(ctx.project_id.0.as_str(), ctx.worktree_id.0.as_str()));
    push_text(&mut r, has_scope_query(ctx.worktree_id.0.as_str(), ctx.scope_id.0.as_str()));
    assert(texts(r@) =~= context_texts(*ctx, now@));
    r
}

/// The run that an index of a context starts at `started_at`: running, identified by
/// the scope and the start time.
pub fn index_run_started(ctx: &IndexContext, started_at: &str) -> (r: IndexRun)
    ensures
        r.run_id@ == stable_hash_spec(seq![ctx.scope_id@, started_at@, "index-run"@]),
        r.project_id@ == ctx.project_id@,
        r.worktree_id@ == ctx.worktree_id@,
        r.scope_id@ == ctx.scope_id@,
        r.status == IndexRunStatus::Running,
        r.started_at@ == started_at@,
        r.finished_at is None,
        r.error is None,
{
    let parts: [&str; 3] = [ctx.scope_id.0.as_str(), started_at, "index-run"];
    let h = stable_hash(parts.as_slice());
    proof {
        assert(crate::hash::str_views(parts@) =~= seq![ctx.scope_id@, started_at@, "index-run"@]);
    }
    IndexRun {
        run_id: RunId(h),
        project_id: ctx.project_id.clone(),
        worktree_id: ctx.worktree_id.clone(),
        scope_id: ctx.scope_id.clone(),
        status: IndexRunStatus::Running,
        started_at: owned(started_at),
        finished_at: None,
        error: None,
    }
}

/// The statement that creates the run `run_id` of a context, started at `started_at`,
/// Builds the text of `begin_run_text`.
pub fn begin_run_query(ctx: &IndexContext, run_id: &RunId, started_at: &str) -> (r: String)
    ensures
        r@ == begin_run_text(
            run_id@,
            ctx.repo_id@,
            ctx.project_id@,
            ctx.worktree_id@,
            ctx.scope_id@,
            ctx.repo_root@,
            ctx.parser_version@,
            ctx.schema_version@,
            ctx.chunker_version@,
            started_at@,
        ),
{
    begin_run_text_query(
        run_id.0.as_str(),
        ctx.repo_id.0.as_str(),
        ctx.project_id.0.as_str(),
        ctx.worktree_id.0.as_str(),
        ctx.scope_id.0.as_str(),
        ctx.repo_root.as_str(),
        ctx.parser_version.as_str(),
        ctx.schema_version.as_str(),
        ctx.chunker_version.as_str(),
        started_at,
    )
}

/// Builds the text of `complete_run_text`.
pub fn complete_run_query(run_id: &RunId, finished_at: &str, stats: &IndexStats) -> (r: String)
    ensures
        r@ == complete_run_text(
            run_id@,
            finished_at@,
            stats.scanned_files as nat,
            stats.added as nat,
            stats.modified as nat,
            stats.unchanged as nat,
            stats.deleted as nat,
            stats.skipped as nat,
            stats.reindex_needed as nat,
            stats.warnings as nat,
        ),
{
    complete_run_text_query(
        run_id.0.as_str(),
        finished_at,
        stats.scanned_files as u64,
        stats.added as u64,
        stats.modified as u64,
        stats.unchanged as u64,
        stats.deleted as u64,
        stats.skipped as u64,
        stats.reindex_needed as u64,
        stats.warnings as u64,
    )
}

/// The statements that remove what a file holds: its outgoing dependency edges, then
/// its chunks, symbols, imports and warnings.
pub open spec fn remove_subgraph_texts(file_id: Seq<char>) -> Seq<Seq<char>> {
    seq![
        delete_outgoing_edges_text(file_id),
        delete_chunks_text(file_id),
        delete_symbols_text(file_id),
        delete_imports_text(file_id),
        delete_warnings_text(file_id),
    ]
}

/// The statements that remove what a file holds, in the order they run.
pub fn remove_subgraph_queries(file_id: &FileId) -> (r: Vec<String>)
    ensures
        texts(r@) == remove_subgraph_texts(file_id@),
{
    let f = file_id.0.as_str();
    let mut r: Vec<String> = Vec::new();
    push_text(&mut r, delete_outgoing_edges_query(f));
    push_text(&mut r, delete_chunks_query(f));
    push_text(&mut r, delete_symbols_query(f));
    push_text(&mut r, delete_imports_query(f));
    push_text(&mut r, delete_warnings_query(f));
    assert(texts(r@) =~= remove_subgraph_texts(file_id@));
    r
}

/// The statements that soft-delete a file in a run: what the file holds is removed,
/// then the dependency edges leaving and reaching it; the file is marked deleted at
/// `deleted_at` by the run, and the run records that it touched the file.
pub open spec fn mark_deleted_texts(
    file_id: Seq<char>,
    run_id: Seq<char>,
    deleted_at: Seq<char>,
    touched_at: Seq<char>,
) -> Seq<Seq<char>> {
    remove_subgraph_texts(file_id) + seq![
        delete_outgoing_edges_text(file_id),
        delete_incoming_edges_text(file_id),
        soft_delete_text(file_id, deleted_at, run_id),
        touch_text(run_id, file_id, touched_at),
    ]
}

/// The statements that soft-delete a file in a run, in the order they run.
pub fn mark_deleted_queries(file_id: &FileId, run_id: &RunId, deleted_at: &str, touched_at: &str) -> (r: Vec<
    String,
>)
    ensures
        texts(r@) == mark_deleted_texts(file_id@, run_id@, deleted_at@, touched_at@),
{
    let f = file_id.0.as_str();
    let mut r = remove_subgraph_queries(file_id);
    push_text(&mut r, delete_outgoing_edges_query(f));
    push_text(&mut r, delete_incoming_edges_query(f));
    push_text(&mut r, soft_delete_query(f, deleted_at, run_id.0.as_str()));
    push_text(&mut r, touch_query(run_id.0.as_str(), f, touched_at));
    assert(texts(r@) =~= mark_deleted_texts(file_id@, run_id@, deleted_at@, touched_at@));
    r
}

/// The statement that creates or refreshes the node of a scanned file, indexed under
/// `ctx` by the run `run_id` at `now`.
pub open spec fn file_node_text(file: CodeFile, ctx: IndexContext, run_id: Seq<char>, now: Seq<char>) -> Seq<char> {
    file_merge_text(
        file.file_id@,
        file.repo_id@,
        ctx.project_id@,
        ctx.worktree_id@,
        ctx.scope_id@,
        file.relative_path@,
        file.path@,
        language_name(file.language),
        file.fingerprint.sha256@,
        file.fingerprint.size_bytes as nat,
        file.fingerprint.mtime_seconds as nat,
        ctx.parser_version@,
        ctx.schema_version@,
        ctx.chunker_version@,
        run_id,
        now,
    )
}

/// The statements for some symbols of a file: each symbol's node, then its link.
pub open spec fn symbol_texts(file_id: Seq<char>, syms: Seq<Symbol>) -> Seq<Seq<char>>
    decreases syms.len(),
{
    if syms.len() == 0 {
        Seq::empty()
    } else {
        let s = syms.last();
        symbol_texts(file_id, syms.drop_last()) + seq![
            symbol_merge_text(
                s.symbol_id@,
                s.file_id@,
                s.file_path@,
                s.name@,
                symbol_kind_name(s.kind),
                language_name(s.language),
                s.range.start_line as nat,
                s.range.end_line as nat,
            ),
            defines_text(file_id, s.symbol_id@),
        ]
    }
}

/// The statements for some imports of a file: each import's node, then its link.
pub open spec fn import_texts(file_id: Seq<char>, imports: Seq<Import>) -> Seq<Seq<char>>
    decreases imports.len(),
{
    if imports.len() == 0 {
        Seq::empty()
    } else {
        let i = imports.last();
        import_texts(file_id, imports.drop_last()) + seq![
            import_merge_text(i.import_id@, i.from_file_id@, i.raw_target@, i.line as nat),
            has_import_text(file_id, i.import_id@),
        ]
    }
}

/// The statements for one chunk of a file: its node, its link from the file, and its
/// link from its symbol where it has one.
pub open spec fn one_chunk_texts(file_id: Seq<char>, c: Chunk) -> Seq<Seq<char>> {
    let sym = match c.symbol_id {
        Some(id) => Some(id@),
        None => None,
    };
    let base = seq![
        chunk_merge_text(c.chunk_id@, c.file_id@, sym, c.label@, c.range.start_line as nat, c.range.end_line as nat),
        file_chunk_text(file_id, c.chunk_id@),
    ];
    match sym {
        Some(id) => base.push(symbol_chunk_text(id, c.chunk_id@)),
        None => base,
    }
}

/// The statements for some chunks of a file, chunk after chunk.
pub open spec fn chunk_texts(file_id: Seq<char>, chunks: Seq<Chunk>) -> Seq<Seq<char>>
    decreases chunks.len(),
{
    if chunks.len() == 0 {
        Seq::empty()
    } else {
        chunk_texts(file_id, chunks.drop_last()) + one_chunk_texts(file_id, chunks.last())
    }
}

/// The statements for some warnings of a file: each warning's node, then its link.
pub open spec fn warning_texts(file_id: Seq<char>, warnings: Seq<IndexWarning>) -> Seq<Seq<char>>
    decreases warnings.len(),
{
    if warnings.len() == 0 {
        Seq::empty()
    } else {
        let w = warnings.last();
        let fid = match w.file_id {
            Some(id) => Some(id@),
            None => None,
        };
        warning_texts(file_id, warnings.drop_last()) + seq![
            warning_merge_text(w.warning_id@, fid, w.file_path@, w.stage@, w.message@),
            has_warning_text(file_id, w.warning_id@),
        ]
    }
}

/// The statements that replace the subgraph of a scanned file with what its parse
/// found, in a run of `ctx`: what the file held is removed; its node is written at
/// `now` and put in the scope; then its symbols, imports, chunks and warnings are
/// written, each with its link; last, the run records at `touched_at` that it touched
/// the file.
pub open spec fn file_subgraph_texts(
    file: CodeFile,
    parsed: ParsedFile,
    ctx: IndexContext,
    run_id: Seq<char>,
    now: Seq<char>,
    touched_at: Seq<char>,
) -> Seq<Seq<char>> {
    let f = file.file_id@;
    remove_subgraph_texts(f) + seq![file_node_text(file, ctx, run_id, now), contains_file_text(ctx.scope_id@, f)]
        + symbol_texts(f, parsed.symbols@) + import_texts(f, parsed.imports@) + chunk_texts(f, parsed.chunks@)
        + warning_texts(f, parsed.warnings@) + seq![touch_text(run_id, f, touched_at)]
}

fn push_symbol_queries(out: &mut Vec<String>, file_id: &FileId, syms: &Vec<Symbol>)
    ensures
        texts(final(out)@) == texts(old(out)@) + symbol_texts(file_id@, syms@),
{
    let ghost start = texts(out@);
    let mut i: usize = 0;
    while i < syms.len()
        invariant
            i <= syms@.len(),
            texts(out@) == start + symbol_texts(file_id@, syms@.take(i as int)),
        decreases syms@.len() - i,
    {
        let s = &syms[i];
        proof {
            assert(syms@.take(i + 1).drop_last() =~= syms@.take(i as int));
        }
        push_text(
            out,
            symbol_merge_text_query(
                s.symbol_id.0.as_str(),
                s.file_id.0.as_str(),
                s.file_path.as_str(),
                s.name.as_str(),
                s.kind.name(),
                s.language.as_str(),
                s.range.start_line as u64,
                s.range.end_line as u64,
            ),
        );
        push_text(out, defines_query(file_id.0.as_str(), s.symbol_id.0.as_str()));
        i = i + 1;
        assert(texts(out@) =~= start + symbol_texts(file_id@, syms@.take(i as int)));
    }
    assert(syms@.take(syms@.len() as int) =~= syms@);
}

fn push_import_queries(out: &mut Vec<String>, file_id: &FileId, imports: &Vec<Import>)
    ensures
        texts(final(out)@) == texts(old(out)@) + import_texts(file_id@, imports@),
{
    let ghost start = texts(out@);
    let mut i: usize = 0;
    while i < imports.len()
        invariant
            i <= imports@.len(),
            texts(out@) == start + import_texts(file_id@, imports@.take(i as int)),
        decreases imports@.len() - i,
    {
        let m = &imports[i];
        proof {
            assert(imports@.take(i + 1).drop_last() =~= imports@.take(i as int));
        }
        push_text(
            out,
            import_merge_text_query(m.import_id.0.as_str(), m.from_file_id.0.as_str(), m.raw_target.as_str(), m.line as u64),
        );
        push_text(out, has_import_query(file_id.0.as_str(), m.import_id.0.as_str()));
        i = i + 1;
        assert(texts(out@) =~= start + import_texts(file_id@, imports@.take(i as int)));
    }
    assert(imports@.take(imports@.len() as int) =~= imports@);
}

fn symbol_id_text(id: &Option<crate::ids::SymbolId>) -> (r: Option<String>)
    ensures
        opt_string_view(r) == match id {
            Some(s) => Some(s@),
            None => None::<Seq<char>>,
        },
{
    match id {
        Some(s) => Some(s.0.clone()),
        None => None,
    }
}

fn file_id_text(id: &Option<FileId>) -> (r: Option<String>)
    ensures
        opt_string_view(r) == match id {
            Some(s) => Some(s@),
            None => None::<Seq<char>>,
        },
{
    match id {
        Some(s) => Some(s.0.clone()),
        None => None,
    }
}

fn push_chunk_queries(out: &mut Vec<String>, file_id: &FileId, chunks: &Vec<Chunk>)
    ensures
        texts(final(out)@) == texts(old(out)@) + chunk_texts(file_id@, chunks@),
{
    let ghost start = texts(out@);
    let mut i: usize = 0;
    while i < chunks.len()
        invariant
            i <= chunks@.len(),
            texts(out@) == start + chunk_texts(file_id@, chunks@.take(i as int)),
        decreases chunks@.len() - i,
    {
        let c = &chunks[i];
        proof {
            assert(chunks@.take(i + 1).drop_last() =~= chunks@.take(i as int));
        }
        let ghost before = texts(out@);
        let sym = symbol_id_text(&c.symbol_id);
        push_text(
            out,
            chunk_merge_text_query(
                c.chunk_id.0.as_str(),
                c.file_id.0.as_str(),
                &sym,
                c.label.as_str(),
                c.range.start_line as u64,
                c.range.end_line as u64,
            ),
        );
        push_text(out, file_chunk_query(file_id.0.as_str(), c.chunk_id.0.as_str()));
        match &c.symbol_id {
            Some(id) => push_text(out, symbol_chunk_query(id.0.as_str(), c.chunk_id.0.as_str())),
            None => {},
        }
        assert(texts(out@) =~= before + one_chunk_texts(file_id@, *c));
        i = i + 1;
        assert(texts(out@) =~= start + chunk_texts(file_id@, chunks@.take(i as int)));
    }
    assert(chunks@.take(chunks@.len() as int) =~= chunks@);
}

fn push_warning_queries(out: &mut Vec<String>, file_id: &FileId, warnings: &Vec<IndexWarning>)
    ensures
        texts(final(out)@) == texts(old(out)@) + warning_texts(file_id@, warnings@),
{
    let ghost start = texts(out@);
    let mut i: usize = 0;
    while i < warnings.len()
        invariant
            i <= warnings@.len(),
            texts(out@) == start + warning_texts(file_id@, warnings@.take(i as int)),
        decreases warnings@.len() - i,
    {
        let w = &warnings[i];
        proof {
            assert(warnings@.take(i + 1).drop_last() =~= warnings@.take(i as int));
        }
        let fid = file_id_text(&w.file_id);
        push_text(
            out,
            warning_merge_text_query(w.warning_id.0.as_str(), &fid, w.file_path.as_str(), w.stage.as_str(), w.message.as_str()),
        );
        push_text(out, has_warning_query(file_id.0.as_str(), w.warning_id.0.as_str()));
        i = i + 1;
        assert(texts(out@) =~= start + warning_texts(file_id@, warnings@.take(i as int)));
    }
    assert(warnings@.take(warnings@.len() as int) =~= warnings@);
}

/// The statements that replace the subgraph of a scanned file with its parse, in the
/// order they run (see `file_subgraph_texts`).
pub fn file_subgraph_queries(
    file: &CodeFile,
    parsed: &ParsedFile,
    ctx: &IndexContext,
    run_id: &str,
    now: &str,
    touched_at: &str,
) -> (r: Vec<String>)
    ensures
        texts(r@) == file_subgraph_texts(*file, *parsed, *ctx, run_id@, now@, touched_at@),
{
    let f = file.file_id.0.as_str();
    let mut r = remove_subgraph_queries(&file.file_id);
    push_text(
        &mut r,
        file_merge_text_query(
            f,
            file.repo_id.0.as_str(),
            ctx.project_id.0.as_str(),
            ctx.worktree_id.0.as_str(),
            ctx.scope_id.0.as_str(),
            file.relative_path.as_str(),
            file.path.as_str(),
            file.language.as_str(),
            file.fingerprint.sha256.as_str(),
            file.fingerprint.size_bytes,
            file.fingerprint.mtime_seconds,
            ctx.parser_version.as_str(),
            ctx.schema_version.as_str(),
            ctx.chunker_version.as_str(),
            run_id,
            now,
        ),
    );
    push_text(&mut r, contains_file_query(ctx.scope_id.0.as_str(), f));
    push_symbol_queries(&mut r, &file.file_id, &parsed.symbols);
    push_import_queries(&mut r, &file.file_id, &parsed.imports);
    push_chunk_queries(&mut r, &file.file_id, &parsed.chunks);
    push_warning_queries(&mut r, &file.file_id, &parsed.warnings);
    push_text(&mut r, touch_query(run_id, f, touched_at));
    r
}

/// Replacing the subgraph of a file begins by removing everything the file held and
/// ends by recording the touch, whatever the parse found; the statements between only
/// merge nodes and links, so that replaying a replacement leaves one copy of each.
#[verifier::rlimit(60)]
pub proof fn law_replace_removes_first(
    file: CodeFile,
    parsed: ParsedFile,
    ctx: IndexContext,
    run_id: Seq<char>,
    now: Seq<char>,
    touched_at: Seq<char>,
)
    ensures
        file_subgraph_texts(file, parsed, ctx, run_id, now, touched_at).take(5) == remove_subgraph_texts(
            file.file_id@,
        ),
        file_subgraph_texts(file, parsed, ctx, run_id, now, touched_at).last() == touch_text(
            run_id,
            file.file_id@,
            touched_at,
        ),
{
    let f = file.file_id@;
    let a = remove_subgraph_texts(f);
    let x1 = a + seq![file_node_text(file, ctx, run_id, now), contains_file_text(ctx.scope_id@, f)];
    let x2 = x1 + symbol_texts(f, parsed.symbols@);
    let x3 = x2 + import_texts(f, parsed.imports@);
    let x4 = x3 + chunk_texts(f, parsed.chunks@);
    let x5 = x4 + warning_texts(f, parsed.warnings@);
    let z = seq![touch_text(run_id, f, touched_at)];
    lemma_take_of_add(a, seq![file_node_text(file, ctx, run_id, now), contains_file_text(ctx.scope_id@, f)]);
    lemma_take_of_add(x1, symbol_texts(f, parsed.symbols@));
    lemma_take_of_add(x2, import_texts(f, parsed.imports@));
    lemma_take_of_add(x3, chunk_texts(f, parsed.chunks@));
    lemma_take_of_add(x4, warning_texts(f, parsed.warnings@));
    lemma_take_of_add(x5, z);
    assert(a.take(5) =~= a);
}

proof fn lemma_take_of_add(x: Seq<Seq<char>>, y: Seq<Seq<char>>)
    requires
        x.len() >= 5,
    ensures
        (x + y).take(5) == x.take(5),
        (x + y).len() >= 5,
        y.len() > 0 ==> (x + y).last() == y.last(),
{
    assert((x + y).take(5) =~= x.take(5));
}

/// The statements for some resolved dependencies: one edge each, in order.
pub open spec fn edge_texts(edges: Seq<ResolvedImport>) -> Seq<Seq<char>> {
    edges.map_values(|e: ResolvedImport| dependency_edge_text(e.from_file_id@, e.to_file_id@, e.raw_target@))
}

/// The statements that write the resolved dependencies of a scope as edges, in order.
pub fn dependency_edge_queries(edges: &Vec<ResolvedImport>) -> (r: Vec<String>)
    ensures
        texts(r@) == edge_texts(edges@),
{
    let mut r: Vec<String> = Vec::new();
    let mut i: usize = 0;
    while i < edges.len()
        invariant
            i <= edges@.len(),
            texts(r@) == edge_texts(edges@.take(i as int)),
        decreases edges@.len() - i,
    {
        let e = &edges[i];
        push_text(&mut r, dependency_edge_query(e.from_file_id.0.as_str(), e.to_file_id.0.as_str(), e.raw_target.as_str()));
        i = i + 1;
        assert(texts(r@) =~= edge_texts(edges@.take(i as int)));
    }
    assert(edges@.take(edges@.len() as int) =~= edges@);
    r
}

/// The statements that create the tables of the graph, each only where it is missing.
pub open spec fn table_texts() -> Seq<Seq<char>> {
    seq![
        "CREATE NODE TABLE IF NOT EXISTS SchemaMeta(key STRING PRIMARY KEY, value STRING);"@,
        "CREATE NODE TABLE IF NOT EXISTS Project(project_id STRING PRIMARY KEY, repo_id STRING, root_path STRING, created_at STRING, updated_at STRING);"@,
        "CREATE NODE TABLE IF NOT EXISTS Worktree(worktree_id STRING PRIMARY KEY, project_id STRING, root_path STRING, created_at STRING, updated_at STRING);"@,
        "CREATE NODE TABLE IF NOT EXISTS IndexScope(scope_id STRING PRIMARY KEY, project_id STRING, worktree_id STRING, repo_root STRING, parser_version STRING, graph_schema_version STRING, chunker_version STRING, created_at STRING, updated_at STRING);"@,
        "CREATE NODE TABLE IF NOT EXISTS File(file_id STRING PRIMARY KEY, repo_id STRING, project_id STRING, worktree_id STRING, scope_id STRING, path STRING, relative_path STRING, absolute_path STRING, language STRING, sha256 STRING, size_bytes INT64, mtime_seconds INT64, status STRING, parser_version STRING, graph_schema_version STRING, chunker_version STRING, last_indexed_run_id STRING, created_at STRING, updated_at STRING, deleted_at STRING);"@,
        "CREATE NODE TABLE IF NOT EXISTS Symbol(symbol_id STRING PRIMARY KEY, file_id STRING, file_path STRING, name STRING, kind STRING, language STRING, start_line INT64, end_line INT64);"@,
        "CREATE NODE TABLE IF NOT EXISTS Import(import_id STRING PRIMARY KEY, file_id STRING, raw_target STRING, line INT64);"@,
        "CREATE NODE TABLE IF NOT EXISTS Chunk(chunk_id STRING PRIMARY KEY, file_id STRING, symbol_id STRING, label STRING, start_line INT64, end_line INT64);"@,
        "CREATE NODE TABLE IF NOT EXISTS Warning(warning_id STRING PRIMARY KEY, file_id STRING, file_path STRING, stage STRING, message STRING);"@,
        "CREATE NODE TABLE IF NOT EXISTS IndexRun(run_id STRING PRIMARY KEY, repo_id STRING, project_id STRING, worktree_id STRING, scope_id STRING, repo_root STRING, status STRING, parser_version STRING, graph_schema_version STRING, chunker_version STRING, started_at STRING, finished_at STRING, error STRING, scanned_files INT64, added INT64, modified INT64, unchanged INT64, deleted INT64, skipped INT64, reindex_needed INT64, warnings INT64);"@,
        "CREATE REL TABLE IF NOT EXISTS HAS_WORKTREE(FROM Project TO Worktree);"@,
        "CREATE REL TABLE IF NOT EXISTS HAS_SCOPE(FROM Worktree TO IndexScope);"@,
        "CREATE REL TABLE IF NOT EXISTS CONTAINS_FILE(FROM IndexScope TO File);"@,
        "CREATE REL TABLE IF NOT EXISTS DEFINES(FROM File TO Symbol);"@,
        "CREATE REL TABLE IF NOT EXISTS HAS_IMPORT(FROM File TO Import);"@,
        "CREATE REL TABLE IF NOT EXISTS HAS_CHUNK(FROM File TO Chunk, FROM Symbol TO Chunk);"@,
        "CREATE REL TABLE IF NOT EXISTS HAS_WARNING(FROM File TO Warning);"@,
        "CREATE REL TABLE IF NOT EXISTS IMPORTS_FILE(FROM File TO File, raw_target STRING, confidence_score DOUBLE, confidence_label STRING, evidence STRING);"@,
        "CREATE REL TABLE IF NOT EXISTS TOUCHED_FILE(FROM IndexRun TO File, touched_at STRING);"@,
    ]
}

/// The statements that create the tables of the graph, then the one that records the
/// schema version.
pub fn schema_queries() -> (r: Vec<String>)
    ensures
        texts(r@) == table_texts().push(schema_meta_text(STORE_SCHEMA_VERSION@)),
{
    let mut r: Vec<String> = Vec::new();
    r.push(owned("CREATE NODE TABLE IF NOT EXISTS SchemaMeta(key STRING PRIMARY KEY, value STRING);"));
    r.push(owned("CREATE NODE TABLE IF NOT EXISTS Project(project_id STRING PRIMARY KEY, repo_id STRING, root_path STRING, created_at STRING, updated_at STRING);"));
    r.push(owned("CREATE NODE TABLE IF NOT EXISTS Worktree(worktree_id STRING PRIMARY KEY, project_id STRING, root_path STRING, created_at STRING, updated_at STRING);"));
    r.push(owned("CREATE NODE TABLE IF NOT EXISTS IndexScope(scope_id STRING PRIMARY KEY, project_id STRING, worktree_id STRING, repo_root STRING, parser_version STRING, graph_schema_version STRING, chunker_version STRING, created_at STRING, updated_at STRING);"));
    r.push(owned("CREATE NODE TABLE IF NOT EXISTS File(file_id STRING PRIMARY KEY, repo_id STRING, project_id STRING, worktree_id STRING, scope_id STRING, path STRING, relative_path STRING, absolute_path STRING, language STRING, sha256 STRING, size_bytes INT64, mtime_seconds INT64, status STRING, parser_version STRING, graph_schema_version STRING, chunker_version STRING, last_indexed_run_id STRING, created_at STRING, updated_at STRING, deleted_at STRING);"));
    r.push(owned("CREATE NODE TABLE IF NOT EXISTS Symbol(symbol_id STRING PRIMARY KEY, file_id STRING, file_path STRING, name STRING, kind STRING, language STRING, start_line INT64, end_line INT64);"));
    r.push(owned("CREATE NODE TABLE IF NOT EXISTS Import(import_id STRING PRIMARY KEY, file_id STRING, raw_target STRING, line INT64);"));
    r.push(owned("CREATE NODE TABLE IF NOT EXISTS Chunk(chunk_id STRING PRIMARY KEY, file_id STRING, symbol_id STRING, label STRING, start_line INT64, end_line INT64);"));
    r.push(owned("CREATE NODE TABLE IF NOT EXISTS Warning(warning_id STRING PRIMARY KEY, file_id STRING, file_path STRING, stage STRING, message STRING);"));
    r.push(owned("CREATE NODE TABLE IF NOT EXISTS IndexRun(run_id STRING PRIMARY KEY, repo_id STRING, project_id STRING, worktree_id STRING, scope_id STRING, repo_root STRING, status STRING, parser_version STRING, graph_schema_version STRING, chunker_version STRING, started_at STRING, finished_at STRING, error STRING, scanned_files INT64, added INT64, modified INT64, unchanged INT64, deleted INT64, skipped INT64, reindex_needed INT64, warnings INT64);"));
    r.push(owned("CREATE REL TABLE IF NOT EXISTS HAS_WORKTREE(FROM Project TO Worktree);"));
    r.push(owned("CREATE REL TABLE IF NOT EXISTS HAS_SCOPE(FROM Worktree TO IndexScope);"));
    r.push(owned("CREATE REL TABLE IF NOT EXISTS CONTAINS_FILE(FROM IndexScope TO File);"));
    r.push(owned("CREATE REL TABLE IF NOT EXISTS DEFINES(FROM File TO Symbol);"));
    r.push(owned("CREATE REL TABLE IF NOT EXISTS HAS_IMPORT(FROM File TO Import);"));
    r.push(owned("CREATE REL TABLE IF NOT EXISTS HAS_CHUNK(FROM File TO Chunk, FROM Symbol TO Chunk);"));
    r.push(owned("CREATE REL TABLE IF NOT EXISTS HAS_WARNING(FROM File TO Warning);"));
    r.push(owned("CREATE REL TABLE IF NOT EXISTS IMPORTS_FILE(FROM File TO File, raw_target STRING, confidence_score DOUBLE, confidence_label STRING, evidence STRING);"));
    r.push(owned("CREATE REL TABLE IF NOT EXISTS TOUCHED_FILE(FROM IndexRun TO File, touched_at STRING);"));
    r.push(schema_meta_query(STORE_SCHEMA_VERSION));
    assert(texts(r@) =~= table_texts().push(schema_meta_text(STORE_SCHEMA_VERSION@)));
    r
}

/// The statement that creates or refreshes the project node.
pub open spec fn project_text(project_id: Seq<char>, repo_id: Seq<char>, root_path: Seq<char>, now: Seq<char>) -> Seq<char> {
    "MERGE (p:Project {project_id: "@
        + quoted(project_id)
        + "}) ON CREATE SET p.repo_id = "@
        + quoted(repo_id)
        + ", p.root_path = "@
        + quoted(root_path)
        + ", p.created_at = "@
        + quoted(now)
        + ", p.updated_at = "@
        + quoted(now)
        + " ON MATCH SET p.repo_id = "@
        + quoted(repo_id)
        + ", p.root_path = "@
        + quoted(root_path)
        + ", p.updated_at = "@
        + quoted(now)
        + ";"@
}

/// Builds the text of `project_text`.
pub fn project_query(project_id: &str, repo_id: &str, root_path: &str, now: &str) -> (r: String)
    ensures
        r@ == project_text(project_id@, repo_id@, root_path@, now@),
{
    let mut q = owned("MERGE (p:Project {project_id: ");
    push_lit(&mut q, project_id);
    push_str(&mut q, "}) ON CREATE SET p.repo_id = ");
    push_lit(&mut q, repo_id);
    push_str(&mut q, ", p.root_path = ");
    push_lit(&mut q, root_path);
    push_str(&mut q, ", p.created_at = ");
    push_lit(&mut q, now);
    push_str(&mut q, ", p.updated_at = ");
    push_lit(&mut q, now);
    push_str(&mut q, " ON MATCH SET p.repo_id = ");
    push_lit(&mut q, repo_id);
    push_str(&mut q, ", p.root_path = ");
    push_lit(&mut q, root_path);
    push_str(&mut q, ", p.updated_at = ");
    push_lit(&mut q, now);
    push_str(&mut q, ";");
    q
}

/// The statement that creates or refreshes the worktree node.
pub open spec fn worktree_text(worktree_id: Seq<char>, project_id: Seq<char>, root_path: Seq<char>, now: Seq<char>) -> Seq<char> {
    "MERGE (w:Worktree {worktree_id: "@
        + quoted(worktree_id)
        + "}) ON CREATE SET w.project_id = "@
        + quoted(project_id)
        + ", w.root_path = "@
        + quoted(root_path)
        + ", w.created_at = "@
        + quoted(now)
        + ", w.updated_at = "@
        + quoted(now)
        + " ON MATCH SET w.project_id = "@
        + quoted(project_id)
        + ", w.root_path = "@
        + quoted(root_path)
        + ", w.updated_at = "@
        + quoted(now)
        + ";"@
}

/// Builds the text of `worktree_text`.
pub fn worktree_query(worktree_id: &str, project_id: &str, root_path: &str, now: &str) -> (r: String)
    ensures
        r@ == worktree_text(worktree_id@, project_id@, root_path@, now@),
{
    let mut q = owned("MERGE (w:Worktree {worktree_id: ");
    push_lit(&mut q, worktree_id);
    push_str(&mut q, "}) ON CREATE SET w.project_id = ");
    push_lit(&mut q, project_id);
    push_str(&mut q, ", w.root_path = ");
    push_lit(&mut q, root_path);
    push_str(&mut q, ", w.created_at = ");
    push_lit(&mut q, now);
    push_str(&mut q, ", w.updated_at = ");
    push_lit(&mut q, now);
    push_str(&mut q, " ON MATCH SET w.project_id = ");
    push_lit(&mut q, project_id);
    push_str(&mut q, ", w.root_path = ");
    push_lit(&mut q, root_path);
    push_str(&mut q, ", w.updated_at = ");
    push_lit(&mut q, now);
    push_str(&mut q, ";");
    q
}

/// The statement that creates or refreshes the index scope node.
pub open spec fn scope_text(scope_id: Seq<char>, project_id: Seq<char>, worktree_id: Seq<char>, repo_root: Seq<char>, parser_version: Seq<char>, schema_version: Seq<char>, chunker_version: Seq<char>, now: Seq<char>) -> Seq<char> {
    "MERGE (s:IndexScope {scope_id: "@
        + quoted(scope_id)
        + "}) ON CREATE SET s.project_id = "@
        + quoted(project_id)
        + ", s.worktree_id = "@
        + quoted(worktree_id)
        + ", s.repo_root = "@
        + quoted(repo_root)
        + ", s.parser_version = "@
        + quoted(parser_version)
        + ", s.graph_schema_version = "@
        + quoted(schema_version)
        + ", s.chunker_version = "@
        + quoted(chunker_version)
        + ", s.created_at = "@
        + quoted(now)
        + ", s.updated_at = "@
        + quoted(now)
        + " ON MATCH SET s.project_id = "@
        + quoted(project_id)
        + ", s.worktree_id = "@
        + quoted(worktree_id)
        + ", s.repo_root = "@
        + quoted(repo_root)
        + ", s.parser_version = "@
        + quoted(parser_version)
        + ", s.graph_schema_version = "@
        + quoted(schema_version)
        + ", s.chunker_version = "@
        + quoted(chunker_version)
        + ", s.updated_at = "@
        + quoted(now)
        + ";"@
}

/// Builds the text of `scope_text`.
pub fn scope_query(scope_id: &str, project_id: &str, worktree_id: &str, repo_root: &str, parser_version: &str, schema_version: &str, chunker_version: &str, now: &str) -> (r: String)
    ensures
        r@ == scope_text(scope_id@, project_id@, worktree_id@, repo_root@, parser_version@, schema_version@, chunker_version@, now@),
{
    let mut q = owned("MERGE (s:IndexScope {scope_id: ");
    push_lit(&mut q, scope_id);
    push_str(&mut q, "}) ON CREATE SET s.project_id = ");
    push_lit(&mut q, project_id);
    push_str(&mut q, ", s.worktree_id = ");
    push_lit(&mut q, worktree_id);
    push_str(&mut q, ", s.repo_root = ");
    push_lit(&mut q, repo_root);
    push_str(&mut q, ", s.parser_version = ");
    push_lit(&mut q, parser_version);
    push_str(&mut q, ", s.graph_schema_version = ");
    push_lit(&mut q, schema_version);
    push_str(&mut q, ", s.chunker_version = ");
    push_lit(&mut q, chunker_version);
    push_str(&mut q, ", s.created_at = ");
    push_lit(&mut q, now);
    push_str(&mut q, ", s.updated_at = ");
    push_lit(&mut q, now);
    push_str(&mut q, " ON MATCH SET s.project_id = ");
    push_lit(&mut q, project_id);
    push_str(&mut q, ", s.worktree_id = ");
    push_lit(&mut q, worktree_id);
    push_str(&mut q, ", s.repo_root = ");
    push_lit(&mut q, repo_root);
    push_str(&mut q, ", s.parser_version = ");
    push_lit(&mut q, parser_version);
    push_str(&mut q, ", s.graph_schema_version = ");
    push_lit(&mut q, schema_version);
    push_str(&mut q, ", s.chunker_version = ");
    push_lit(&mut q, chunker_version);
    push_str(&mut q, ", s.updated_at = ");
    push_lit(&mut q, now);
    push_str(&mut q, ";");
    q
}

/// The statement that links the project to its worktree.
pub open spec fn has_worktree_text(project_id: Seq<char>, worktree_id: Seq<char>) -> Seq<char> {
    "MATCH (p:Project {project_id: "@
        + quoted(project_id)
        + "}), (w:Worktree {worktree_id: "@
        + quoted(worktree_id)
        + "}) MERGE (p)-[:HAS_WORKTREE]->(w);"@
}

/// Builds the text of `has_worktree_text`.
pub fn has_worktree_query(project_id: &str, worktree_id: &str) -> (r: String)
    ensures
        r@ == has_worktree_text(project_id@, worktree_id@),
{
    let mut q = owned("MATCH (p:Project {project_id: ");
    push_lit(&mut q, project_id);
    push_str(&mut q, "}), (w:Worktree {worktree_id: ");
    push_lit(&mut q, worktree_id);
    push_str(&mut q, "}) MERGE (p)-[:HAS_WORKTREE]->(w);");
    q
}

/// The statement that links the worktree to its scope.
pub open spec fn has_scope_text(worktree_id: Seq<char>, scope_id: Seq<char>) -> Seq<char> {
    "MATCH (w:Worktree {worktree_id: "@
        + quoted(worktree_id)
        + "}), (s:IndexScope {scope_id: "@
        + quoted(scope_id)
        + "}) MERGE (w)-[:HAS_SCOPE]->(s);"@
}

/// Builds the text of `has_scope_text`.
pub fn has_scope_query(worktree_id: &str, scope_id: &str) -> (r: String)
    ensures
        r@ == has_scope_text(worktree_id@, scope_id@),
{
    let mut q = owned("MATCH (w:Worktree {worktree_id: ");
    push_lit(&mut q, worktree_id);
    push_str(&mut q, "}), (s:IndexScope {scope_id: ");
    push_lit(&mut q, scope_id);
    push_str(&mut q, "}) MERGE (w)-[:HAS_SCOPE]->(s);");
    q
}

/// The statement that deletes the chunks of a file.
pub open spec fn delete_chunks_text(file_id: Seq<char>) -> Seq<char> {
    "MATCH (f:File {file_id: "@
        + quoted(file_id)
        + "})-[:HAS_CHUNK]->(c:Chunk) DETACH DELETE c;"@
}

/// Builds the text of `delete_chunks_text`.
pub fn delete_chunks_query(file_id: &str) -> (r: String)
    ensures
        r@ == delete_chunks_text(file_id@),
{
    let mut q = owned("MATCH (f:File {file_id: ");
    push_lit(&mut q, file_id);
    push_str(&mut q, "})-[:HAS_CHUNK]->(c:Chunk) DETACH DELETE c;");
    q
}

/// The statement that deletes the symbols of a file.
pub open spec fn delete_symbols_text(file_id: Seq<char>) -> Seq<char> {
    "MATCH (f:File {file_id: "@
        + quoted(file_id)
        + "})-[:DEFINES]->(s:Symbol) DETACH DELETE s;"@
}

/// Builds the text of `delete_symbols_text`.
pub fn delete_symbols_query(file_id: &str) -> (r: String)
    ensures
        r@ == delete_symbols_text(file_id@),
{
    let mut q = owned("MATCH (f:File {file_id: ");
    push_lit(&mut q, file_id);
    push_str(&mut q, "})-[:DEFINES]->(s:Symbol) DETACH DELETE s;");
    q
}

/// The statement that deletes the imports of a file.
pub open spec fn delete_imports_text(file_id: Seq<char>) -> Seq<char> {
    "MATCH (f:File {file_id: "@
        + quoted(file_id)
        + "})-[:HAS_IMPORT]->(i:Import) DETACH DELETE i;"@
}

/// Builds the text of `delete_imports_text`.
pub fn delete_imports_query(file_id: &str) -> (r: String)
    ensures
        r@ == delete_imports_text(file_id@),
{
    let mut q = owned("MATCH (f:File {file_id: ");
    push_lit(&mut q, file_id);
    push_str(&mut q, "})-[:HAS_IMPORT]->(i:Import) DETACH DELETE i;");
    q
}

/// The statement that deletes the warnings of a file.
pub open spec fn delete_warnings_text(file_id: Seq<char>) -> Seq<char> {
    "MATCH (f:File {file_id: "@
        + quoted(file_id)
        + "})-[:HAS_WARNING]->(w:Warning) DETACH DELETE w;"@
}

/// Builds the text of `delete_warnings_text`.
pub fn delete_warnings_query(file_id: &str) -> (r: String)
    ensures
        r@ == delete_warnings_text(file_id@),
{
    let mut q = owned("MATCH (f:File {file_id: ");
    push_lit(&mut q, file_id);
    push_str(&mut q, "})-[:HAS_WARNING]->(w:Warning) DETACH DELETE w;");
    q
}

/// The statement that deletes the dependency edges leaving a file.
pub open spec fn delete_outgoing_edges_text(file_id: Seq<char>) -> Seq<char> {
    "MATCH (f:File {file_id: "@
        + quoted(file_id)
        + "})-[r:IMPORTS_FILE]->(:File) DELETE r;"@
}

/// Builds the text of `delete_outgoing_edges_text`.
pub fn delete_outgoing_edges_query(file_id: &str) -> (r: String)
    ensures
        r@ == delete_outgoing_edges_text(file_id@),
{
    let mut q = owned("MATCH (f:File {file_id: ");
    push_lit(&mut q, file_id);
    push_str(&mut q, "})-[r:IMPORTS_FILE]->(:File) DELETE r;");
    q
}

/// The statement that deletes the dependency edges arriving at a file.
pub open spec fn delete_incoming_edges_text(file_id: Seq<char>) -> Seq<char> {
    "MATCH (:File)-[r:IMPORTS_FILE]->(f:File {file_id: "@
        + quoted(file_id)
        + "}) DELETE r;"@
}

/// Builds the text of `delete_incoming_edges_text`.
pub fn delete_incoming_edges_query(file_id: &str) -> (r: String)
    ensures
        r@ == delete_incoming_edges_text(file_id@),
{
    let mut q = owned("MATCH (:File)-[r:IMPORTS_FILE]->(f:File {file_id: ");
    push_lit(&mut q, file_id);
    push_str(&mut q, "}) DELETE r;");
    q
}

/// The query for the context an index run was started under.
pub open spec fn run_context_text(run_id: Seq<char>) -> Seq<char> {
    "MATCH (r:IndexRun {run_id: "@
        + quoted(run_id)
        + "}) RETURN r.project_id, r.worktree_id, r.scope_id, r.repo_id, r.repo_root, r.parser_version, r.graph_schema_version, r.chunker_version;"@
}

/// Builds the text of `run_context_text`.
pub fn run_context_query(run_id: &str) -> (r: String)
    ensures
        r@ == run_context_text(run_id@),
{
    let mut q = owned("MATCH (r:IndexRun {run_id: ");
    push_lit(&mut q, run_id);
    push_str(&mut q, "}) RETURN r.project_id, r.worktree_id, r.scope_id, r.repo_id, r.repo_root, r.parser_version, r.graph_schema_version, r.chunker_version;");
    q
}

/// The statement that records that a run touched a file.
pub open spec fn touch_text(run_id: Seq<char>, file_id: Seq<char>, touched_at: Seq<char>) -> Seq<char> {
    "MATCH (r:IndexRun {run_id: "@
        + quoted(run_id)
        + "}), (f:File {file_id: "@
        + quoted(file_id)
        + "}) MERGE (r)-[t:TOUCHED_FILE]->(f) ON CREATE SET t.touched_at = "@
        + quoted(touched_at)
        + " ON MATCH SET t.touched_at = "@
        + quoted(touched_at)
        + ";"@
}

/// Builds the text of `touch_text`.
pub fn touch_query(run_id: &str, file_id: &str, touched_at: &str) -> (r: String)
    ensures
        r@ == touch_text(run_id@, file_id@, touched_at@),
{
    let mut q = owned("MATCH (r:IndexRun {run_id: ");
    push_lit(&mut q, run_id);
    push_str(&mut q, "}), (f:File {file_id: ");
    push_lit(&mut q, file_id);
    push_str(&mut q, "}) MERGE (r)-[t:TOUCHED_FILE]->(f) ON CREATE SET t.touched_at = ");
    push_lit(&mut q, touched_at);
    push_str(&mut q, " ON MATCH SET t.touched_at = ");
    push_lit(&mut q, touched_at);
    push_str(&mut q, ";");
    q
}

/// The query for the indexed file of a scope at a relative path: identifier and path.
pub open spec fn active_file_text(scope_id: Seq<char>, relative_path: Seq<char>) -> Seq<char> {
    "MATCH (s:IndexScope {scope_id: "@
        + quoted(scope_id)
        + "})-[:CONTAINS_FILE]->(f:File) WHERE f.relative_path = "@
        + quoted(relative_path)
        + " AND f.status = 'indexed' RETURN f.file_id, f.relative_path;"@
}

/// Builds the text of `active_file_text`.
pub fn active_file_query(scope_id: &str, relative_path: &str) -> (r: String)
    ensures
        r@ == active_file_text(scope_id@, relative_path@),
{
    let mut q = owned("MATCH (s:IndexScope {scope_id: ");
    push_lit(&mut q, scope_id);
    push_str(&mut q, "})-[:CONTAINS_FILE]->(f:File) WHERE f.relative_path = ");
    push_lit(&mut q, relative_path);
    push_str(&mut q, " AND f.status = 'indexed' RETURN f.file_id, f.relative_path;");
    q
}

/// The query for the file dependencies between indexed files of a scope.
pub open spec fn scope_dependencies_text(scope_id: Seq<char>) -> Seq<char> {
    "MATCH (from:File)-[r:IMPORTS_FILE]->(to:File) WHERE from.scope_id = "@
        + quoted(scope_id)
        + " AND to.scope_id = "@
        + quoted(scope_id)
        + " AND from.status = 'indexed' AND to.status = 'indexed' RETURN from.file_id, to.file_id, from.relative_path, to.relative_path, r.raw_target, r.confidence_score, r.confidence_label, r.evidence ORDER BY from.relative_path, to.relative_path;"@
}

/// Builds the text of `scope_dependencies_text`.
pub fn scope_dependencies_query(scope_id: &str) -> (r: String)
    ensures
        r@ == scope_dependencies_text(scope_id@),
{
    let mut q = owned("MATCH (from:File)-[r:IMPORTS_FILE]->(to:File) WHERE from.scope_id = ");
    push_lit(&mut q, scope_id);
    push_str(&mut q, " AND to.scope_id = ");
    push_lit(&mut q, scope_id);
    push_str(&mut q, " AND from.status = 'indexed' AND to.status = 'indexed' RETURN from.file_id, to.file_id, from.relative_path, to.relative_path, r.raw_target, r.confidence_score, r.confidence_label, r.evidence ORDER BY from.relative_path, to.relative_path;");
    q
}

/// The statement that records the schema version.
pub open spec fn schema_meta_text(value: Seq<char>) -> Seq<char> {
    "MERGE (m:SchemaMeta {key: 'schema_version'}) ON CREATE SET m.value = "@
        + quoted(value)
        + " ON MATCH SET m.value = "@
        + quoted(value)
        + ";"@
}

/// Builds the text of `schema_meta_text`.
pub fn schema_meta_query(value: &str) -> (r: String)
    ensures
        r@ == schema_meta_text(value@),
{
    let mut q = owned("MERGE (m:SchemaMeta {key: 'schema_version'}) ON CREATE SET m.value = ");
    push_lit(&mut q, value);
    push_str(&mut q, " ON MATCH SET m.value = ");
    push_lit(&mut q, value);
    push_str(&mut q, ";");
    q
}

/// The statement that creates a running index run.
pub open spec fn begin_run_text(run_id: Seq<char>, repo_id: Seq<char>, project_id: Seq<char>, worktree_id: Seq<char>, scope_id: Seq<char>, repo_root: Seq<char>, parser_version: Seq<char>, schema_version: Seq<char>, chunker_version: Seq<char>, started_at: Seq<char>) -> Seq<char> {
    "CREATE (r:IndexRun {run_id: "@
        + quoted(run_id)
        + ", repo_id: "@
        + quoted(repo_id)
        + ", project_id: "@
        + quoted(project_id)
        + ", worktree_id: "@
        + quoted(worktree_id)
        + ", scope_id: "@
        + quoted(scope_id)
        + ", repo_root: "@
        + quoted(repo_root)
        + ", status: 'running', parser_version: "@
        + quoted(parser_version)
        + ", graph_schema_version: "@
        + quoted(schema_version)
        + ", chunker_version: "@
        + quoted(chunker_version)
        + ", started_at: "@
        + quoted(started_at)
        + ", finished_at: NULL, error: NULL, scanned_files: 0, added: 0, modified: 0, unchanged: 0, deleted: 0, skipped: 0, reindex_needed: 0, warnings: 0});"@
}

/// Builds the text of `begin_run_text`.
fn begin_run_text_query(run_id: &str, repo_id: &str, project_id: &str, worktree_id: &str, scope_id: &str, repo_root: &str, parser_version: &str, schema_version: &str, chunker_version: &str, started_at: &str) -> (r: String)
    ensures
        r@ == begin_run_text(run_id@, repo_id@, project_id@, worktree_id@, scope_id@, repo_root@, parser_version@, schema_version@, chunker_version@, started_at@),
{
    let mut q = owned("CREATE (r:IndexRun {run_id: ");
    push_lit(&mut q, run_id);
    push_str(&mut q, ", repo_id: ");
    push_lit(&mut q, repo_id);
    push_str(&mut q, ", project_id: ");
    push_lit(&mut q, project_id);
    push_str(&mut q, ", worktree_id: ");
    push_lit(&mut q, worktree_id);
    push_str(&mut q, ", scope_id: ");
    push_lit(&mut q, scope_id);
    push_str(&mut q, ", repo_root: ");
    push_lit(&mut q, repo_root);
    push_str(&mut q, ", status: 'running', parser_version: ");
    push_lit(&mut q, parser_version);
    push_str(&mut q, ", graph_schema_version: ");
    push_lit(&mut q, schema_version);
    push_str(&mut q, ", chunker_version: ");
    push_lit(&mut q, chunker_version);
    push_str(&mut q, ", started_at: ");
    push_lit(&mut q, started_at);
    push_str(&mut q, ", finished_at: NULL, error: NULL, scanned_files: 0, added: 0, modified: 0, unchanged: 0, deleted: 0, skipped: 0, reindex_needed: 0, warnings: 0});");
    q
}

/// The statement that marks a run completed with its counts.
pub open spec fn complete_run_text(run_id: Seq<char>, finished_at: Seq<char>, scanned_files: nat, added: nat, modified: nat, unchanged: nat, deleted: nat, skipped: nat, reindex_needed: nat, warnings: nat) -> Seq<char> {
    "MATCH (r:IndexRun {run_id: "@
        + quoted(run_id)
        + "}) SET r.status = 'completed', r.finished_at = "@
        + quoted(finished_at)
        + ", r.error = NULL, r.scanned_files = "@
        + decimal(scanned_files)
        + ", r.added = "@
        + decimal(added)
        + ", r.modified = "@
        + decimal(modified)
        + ", r.unchanged = "@
        + decimal(unchanged)
        + ", r.deleted = "@
        + decimal(deleted)
        + ", r.skipped = "@
        + decimal(skipped)
        + ", r.reindex_needed = "@
        + decimal(reindex_needed)
        + ", r.warnings = "@
        + decimal(warnings)
        + ";"@
}

/// Builds the text of `complete_run_text`.
fn complete_run_text_query(run_id: &str, finished_at: &str, scanned_files: u64, added: u64, modified: u64, unchanged: u64, deleted: u64, skipped: u64, reindex_needed: u64, warnings: u64) -> (r: String)
    ensures
        r@ == complete_run_text(run_id@, finished_at@, scanned_files as nat, added as nat, modified as nat, unchanged as nat, deleted as nat, skipped as nat, reindex_needed as nat, warnings as nat),
{
    let mut q = owned("MATCH (r:IndexRun {run_id: ");
    push_lit(&mut q, run_id);
    push_str(&mut q, "}) SET r.status = 'completed', r.finished_at = ");
    push_lit(&mut q, finished_at);
    push_str(&mut q, ", r.error = NULL, r.scanned_files = ");
    push_decimal(&mut q, scanned_files);
    push_str(&mut q, ", r.added = ");
    push_decimal(&mut q, added);
    push_str(&mut q, ", r.modified = ");
    push_decimal(&mut q, modified);
    push_str(&mut q, ", r.unchanged = ");
    push_decimal(&mut q, unchanged);
    push_str(&mut q, ", r.deleted = ");
    push_decimal(&mut q, deleted);
    push_str(&mut q, ", r.skipped = ");
    push_decimal(&mut q, skipped);
    push_str(&mut q, ", r.reindex_needed = ");
    push_decimal(&mut q, reindex_needed);
    push_str(&mut q, ", r.warnings = ");
    push_decimal(&mut q, warnings);
    push_str(&mut q, ";");
    q
}

/// The statement that marks a run failed with its error.
pub open spec fn fail_run_text(run_id: Seq<char>, finished_at: Seq<char>, error: Seq<char>) -> Seq<char> {
    "MATCH (r:IndexRun {run_id: "@
        + quoted(run_id)
        + "}) SET r.status = 'failed', r.finished_at = "@
        + quoted(finished_at)
        + ", r.error = "@
        + quoted(error)
        + ";"@
}

/// Builds the text of `fail_run_text`.
pub fn fail_run_query(run_id: &str, finished_at: &str, error: &str) -> (r: String)
    ensures
        r@ == fail_run_text(run_id@, finished_at@, error@),
{
    let mut q = owned("MATCH (r:IndexRun {run_id: ");
    push_lit(&mut q, run_id);
    push_str(&mut q, "}) SET r.status = 'failed', r.finished_at = ");
    push_lit(&mut q, finished_at);
    push_str(&mut q, ", r.error = ");
    push_lit(&mut q, error);
    push_str(&mut q, ";");
    q
}

/// The query for the fingerprint rows of the files of a scope, by relative path.
pub open spec fn fingerprints_text(scope_id: Seq<char>) -> Seq<char> {
    "MATCH (s:IndexScope {scope_id: "@
        + quoted(scope_id)
        + "})-[:CONTAINS_FILE]->(f:File) RETURN f.project_id, f.worktree_id, f.file_id, f.relative_path, f.sha256, f.size_bytes, f.mtime_seconds, f.parser_version, f.graph_schema_version, f.chunker_version, f.last_indexed_run_id, f.created_at, f.updated_at, f.status, f.deleted_at ORDER BY f.relative_path;"@
}

/// Builds the text of `fingerprints_text`.
pub fn fingerprints_query(scope_id: &str) -> (r: String)
    ensures
        r@ == fingerprints_text(scope_id@),
{
    let mut q = owned("MATCH (s:IndexScope {scope_id: ");
    push_lit(&mut q, scope_id);
    push_str(&mut q, "})-[:CONTAINS_FILE]->(f:File) RETURN f.project_id, f.worktree_id, f.file_id, f.relative_path, f.sha256, f.size_bytes, f.mtime_seconds, f.parser_version, f.graph_schema_version, f.chunker_version, f.last_indexed_run_id, f.created_at, f.updated_at, f.status, f.deleted_at ORDER BY f.relative_path;");
    q
}

/// The statement that creates or refreshes a file node.
pub open spec fn file_merge_text(file_id: Seq<char>, repo_id: Seq<char>, project_id: Seq<char>, worktree_id: Seq<char>, scope_id: Seq<char>, relative_path: Seq<char>, absolute_path: Seq<char>, language: Seq<char>, sha256: Seq<char>, size_bytes: nat, mtime_seconds: nat, parser_version: Seq<char>, schema_version: Seq<char>, chunker_version: Seq<char>, run_id: Seq<char>, updated_at: Seq<char>) -> Seq<char> {
    "MERGE (f:File {file_id: "@
        + quoted(file_id)
        + "}) ON CREATE SET f.repo_id = "@
        + quoted(repo_id)
        + ", f.project_id = "@
        + quoted(project_id)
        + ", f.worktree_id = "@
        + quoted(worktree_id)
        + ", f.scope_id = "@
        + quoted(scope_id)
        + ", f.path = "@
        + quoted(relative_path)
        + ", f.relative_path = "@
        + quoted(relative_path)
        + ", f.absolute_path = "@
        + quoted(absolute_path)
        + ", f.language = "@
        + quoted(language)
        + ", f.sha256 = "@
        + quoted(sha256)
        + ", f.size_bytes = "@
        + decimal(size_bytes)
        + ", f.mtime_seconds = "@
        + decimal(mtime_seconds)
        + ", f.status = 'indexed', f.parser_version = "@
        + quoted(parser_version)
        + ", f.graph_schema_version = "@
        + quoted(schema_version)
        + ", f.chunker_version = "@
        + quoted(chunker_version)
        + ", f.last_indexed_run_id = "@
        + quoted(run_id)
        + ", f.created_at = "@
        + quoted(updated_at)
        + ", f.updated_at = "@
        + quoted(updated_at)
        + ", f.deleted_at = NULL ON MATCH SET f.repo_id = "@
        + quoted(repo_id)
        + ", f.project_id = "@
        + quoted(project_id)
        + ", f.worktree_id = "@
        + quoted(worktree_id)
        + ", f.scope_id = "@
        + quoted(scope_id)
        + ", f.path = "@
        + quoted(relative_path)
        + ", f.relative_path = "@
        + quoted(relative_path)
        + ", f.absolute_path = "@
        + quoted(absolute_path)
        + ", f.language = "@
        + quoted(language)
        + ", f.sha256 = "@
        + quoted(sha256)
        + ", f.size_bytes = "@
        + decimal(size_bytes)
        + ", f.mtime_seconds = "@
        + decimal(mtime_seconds)
        + ", f.status = 'indexed', f.parser_version = "@
        + quoted(parser_version)
        + ", f.graph_schema_version = "@
        + quoted(schema_version)
        + ", f.chunker_version = "@
        + quoted(chunker_version)
        + ", f.last_indexed_run_id = "@
        + quoted(run_id)
        + ", f.deleted_at = NULL, f.updated_at = "@
        + quoted(updated_at)
        + ";"@
}

/// Builds the text of `file_merge_text`.
fn file_merge_text_query(file_id: &str, repo_id: &str, project_id: &str, worktree_id: &str, scope_id: &str, relative_path: &str, absolute_path: &str, language: &str, sha256: &str, size_bytes: u64, mtime_seconds: u64, parser_version: &str, schema_version: &str, chunker_version: &str, run_id: &str, updated_at: &str) -> (r: String)
    ensures
        r@ == file_merge_text(file_id@, repo_id@, project_id@, worktree_id@, scope_id@, relative_path@, absolute_path@, language@, sha256@, size_bytes as nat, mtime_seconds as nat, parser_version@, schema_version@, chunker_version@, run_id@, updated_at@),
{
    let mut q = owned("MERGE (f:File {file_id: ");
    push_lit(&mut q, file_id);
    push_str(&mut q, "}) ON CREATE SET f.repo_id = ");
    push_lit(&mut q, repo_id);
    push_str(&mut q, ", f.project_id = ");
    push_lit(&mut q, project_id);
    push_str(&mut q, ", f.worktree_id = ");
    push_lit(&mut q, worktree_id);
    push_str(&mut q, ", f.scope_id = ");
    push_lit(&mut q, scope_id);
    push_str(&mut q, ", f.path = ");
    push_lit(&mut q, relative_path);
    push_str(&mut q, ", f.relative_path = ");
    push_lit(&mut q, relative_path);
    push_str(&mut q, ", f.absolute_path = ");
    push_lit(&mut q, absolute_path);
    push_str(&mut q, ", f.language = ");
    push_lit(&mut q, language);
    push_str(&mut q, ", f.sha256 = ");
    push_lit(&mut q, sha256);
    push_str(&mut q, ", f.size_bytes = ");
    push_decimal(&mut q, size_bytes);
    push_str(&mut q, ", f.mtime_seconds = ");
    push_decimal(&mut q, mtime_seconds);
    push_str(&mut q, ", f.status = 'indexed', f.parser_version = ");
    push_lit(&mut q, parser_version);
    push_str(&mut q, ", f.graph_schema_version = ");
    push_lit(&mut q, schema_version);
    push_str(&mut q, ", f.chunker_version = ");
    push_lit(&mut q, chunker_version);
    push_str(&mut q, ", f.last_indexed_run_id = ");
    push_lit(&mut q, run_id);
    push_str(&mut q, ", f.created_at = ");
    push_lit(&mut q, updated_at);
    push_str(&mut q, ", f.updated_at = ");
    push_lit(&mut q, updated_at);
    push_str(&mut q, ", f.deleted_at = NULL ON MATCH SET f.repo_id = ");
    push_lit(&mut q, repo_id);
    push_str(&mut q, ", f.project_id = ");
    push_lit(&mut q, project_id);
    push_str(&mut q, ", f.worktree_id = ");
    push_lit(&mut q, worktree_id);
    push_str(&mut q, ", f.scope_id = ");
    push_lit(&mut q, scope_id);
    push_str(&mut q, ", f.path = ");
    push_lit(&mut q, relative_path);
    push_str(&mut q, ", f.relative_path = ");
    push_lit(&mut q, relative_path);
    push_str(&mut q, ", f.absolute_path = ");
    push_lit(&mut q, absolute_path);
    push_str(&mut q, ", f.language = ");
    push_lit(&mut q, language);
    push_str(&mut q, ", f.sha256 = ");
    push_lit(&mut q, sha256);
    push_str(&mut q, ", f.size_bytes = ");
    push_decimal(&mut q, size_bytes);
    push_str(&mut q, ", f.mtime_seconds = ");
    push_decimal(&mut q, mtime_seconds);
    push_str(&mut q, ", f.status = 'indexed', f.parser_version = ");
    push_lit(&mut q, parser_version);
    push_str(&mut q, ", f.graph_schema_version = ");
    push_lit(&mut q, schema_version);
    push_str(&mut q, ", f.chunker_version = ");
    push_lit(&mut q, chunker_version);
    push_str(&mut q, ", f.last_indexed_run_id = ");
    push_lit(&mut q, run_id);
    push_str(&mut q, ", f.deleted_at = NULL, f.updated_at = ");
    push_lit(&mut q, updated_at);
    push_str(&mut q, ";");
    q
}

/// The statement that puts a file in its scope.
pub open spec fn contains_file_text(scope_id: Seq<char>, file_id: Seq<char>) -> Seq<char> {
    "MATCH (s:IndexScope {scope_id: "@
        + quoted(scope_id)
        + "}), (f:File {file_id: "@
        + quoted(file_id)
        + "}) MERGE (s)-[:CONTAINS_FILE]->(f);"@
}

/// Builds the text of `contains_file_text`.
pub fn contains_file_query(scope_id: &str, file_id: &str) -> (r: String)
    ensures
        r@ == contains_file_text(scope_id@, file_id@),
{
    let mut q = owned("MATCH (s:IndexScope {scope_id: ");
    push_lit(&mut q, scope_id);
    push_str(&mut q, "}), (f:File {file_id: ");
    push_lit(&mut q, file_id);
    push_str(&mut q, "}) MERGE (s)-[:CONTAINS_FILE]->(f);");
    q
}

/// The statement that creates or refreshes a symbol node.
pub open spec fn symbol_merge_text(symbol_id: Seq<char>, file_id: Seq<char>, file_path: Seq<char>, name: Seq<char>, kind: Seq<char>, language: Seq<char>, start_line: nat, end_line: nat) -> Seq<char> {
    "MERGE (s:Symbol {symbol_id: "@
        + quoted(symbol_id)
        + "}) ON CREATE SET s.file_id = "@
        + quoted(file_id)
        + ", s.file_path = "@
        + quoted(file_path)
        + ", s.name = "@
        + quoted(name)
        + ", s.kind = "@
        + quoted(kind)
        + ", s.language = "@
        + quoted(language)
        + ", s.start_line = "@
        + decimal(start_line)
        + ", s.end_line = "@
        + decimal(end_line)
        + " ON MATCH SET s.file_id = "@
        + quoted(file_id)
        + ", s.file_path = "@
        + quoted(file_path)
        + ", s.name = "@
        + quoted(name)
        + ", s.kind = "@
        + quoted(kind)
        + ", s.language = "@
        + quoted(language)
        + ", s.start_line = "@
        + decimal(start_line)
        + ", s.end_line = "@
        + decimal(end_line)
        + ";"@
}

/// Builds the text of `symbol_merge_text`.
fn symbol_merge_text_query(symbol_id: &str, file_id: &str, file_path: &str, name: &str, kind: &str, language: &str, start_line: u64, end_line: u64) -> (r: String)
    ensures
        r@ == symbol_merge_text(symbol_id@, file_id@, file_path@, name@, kind@, language@, start_line as nat, end_line as nat),
{
    let mut q = owned("MERGE (s:Symbol {symbol_id: ");
    push_lit(&mut q, symbol_id);
    push_str(&mut q, "}) ON CREATE SET s.file_id = ");
    push_lit(&mut q, file_id);
    push_str(&mut q, ", s.file_path = ");
    push_lit(&mut q, file_path);
    push_str(&mut q, ", s.name = ");
    push_lit(&mut q, name);
    push_str(&mut q, ", s.kind = ");
    push_lit(&mut q, kind);
    push_str(&mut q, ", s.language = ");
    push_lit(&mut q, language);
    push_str(&mut q, ", s.start_line = ");
    push_decimal(&mut q, start_line);
    push_str(&mut q, ", s.end_line = ");
    push_decimal(&mut q, end_line);
    push_str(&mut q, " ON MATCH SET s.file_id = ");
    push_lit(&mut q, file_id);
    push_str(&mut q, ", s.file_path = ");
    push_lit(&mut q, file_path);
    push_str(&mut q, ", s.name = ");
    push_lit(&mut q, name);
    push_str(&mut q, ", s.kind = ");
    push_lit(&mut q, kind);
    push_str(&mut q, ", s.language = ");
    push_lit(&mut q, language);
    push_str(&mut q, ", s.start_line = ");
    push_decimal(&mut q, start_line);
    push_str(&mut q, ", s.end_line = ");
    push_decimal(&mut q, end_line);
    push_str(&mut q, ";");
    q
}

/// The statement that links a file to a symbol it defines.
pub open spec fn defines_text(file_id: Seq<char>, symbol_id: Seq<char>) -> Seq<char> {
    "MATCH (f:File {file_id: "@
        + quoted(file_id)
        + "}), (s:Symbol {symbol_id: "@
        + quoted(symbol_id)
        + "}) MERGE (f)-[:DEFINES]->(s);"@
}

/// Builds the text of `defines_text`.
pub fn defines_query(file_id: &str, symbol_id: &str) -> (r: String)
    ensures
        r@ == defines_text(file_id@, symbol_id@),
{
    let mut q = owned("MATCH (f:File {file_id: ");
    push_lit(&mut q, file_id);
    push_str(&mut q, "}), (s:Symbol {symbol_id: ");
    push_lit(&mut q, symbol_id);
    push_str(&mut q, "}) MERGE (f)-[:DEFINES]->(s);");
    q
}

/// The statement that creates or refreshes an import node.
pub open spec fn import_merge_text(import_id: Seq<char>, file_id: Seq<char>, raw_target: Seq<char>, line: nat) -> Seq<char> {
    "MERGE (i:Import {import_id: "@
        + quoted(import_id)
        + "}) ON CREATE SET i.file_id = "@
        + quoted(file_id)
        + ", i.raw_target = "@
        + quoted(raw_target)
        + ", i.line = "@
        + decimal(line)
        + " ON MATCH SET i.file_id = "@
        + quoted(file_id)
        + ", i.raw_target = "@
        + quoted(raw_target)
        + ", i.line = "@
        + decimal(line)
        + ";"@
}

/// Builds the text of `import_merge_text`.
fn import_merge_text_query(import_id: &str, file_id: &str, raw_target: &str, line: u64) -> (r: String)
    ensures
        r@ == import_merge_text(import_id@, file_id@, raw_target@, line as nat),
{
    let mut q = owned("MERGE (i:Import {import_id: ");
    push_lit(&mut q, import_id);
    push_str(&mut q, "}) ON CREATE SET i.file_id = ");
    push_lit(&mut q, file_id);
    push_str(&mut q, ", i.raw_target = ");
    push_lit(&mut q, raw_target);
    push_str(&mut q, ", i.line = ");
    push_decimal(&mut q, line);
    push_str(&mut q, " ON MATCH SET i.file_id = ");
    push_lit(&mut q, file_id);
    push_str(&mut q, ", i.raw_target = ");
    push_lit(&mut q, raw_target);
    push_str(&mut q, ", i.line = ");
    push_decimal(&mut q, line);
    push_str(&mut q, ";");
    q
}

/// The statement that links a file to one of its imports.
pub open spec fn has_import_text(file_id: Seq<char>, import_id: Seq<char>) -> Seq<char> {
    "MATCH (f:File {file_id: "@
        + quoted(file_id)
        + "}), (i:Import {import_id: "@
        + quoted(import_id)
        + "}) MERGE (f)-[:HAS_IMPORT]->(i);"@
}

/// Builds the text of `has_import_text`.
pub fn has_import_query(file_id: &str, import_id: &str) -> (r: String)
    ensures
        r@ == has_import_text(file_id@, import_id@),
{
    let mut q = owned("MATCH (f:File {file_id: ");
    push_lit(&mut q, file_id);
    push_str(&mut q, "}), (i:Import {import_id: ");
    push_lit(&mut q, import_id);
    push_str(&mut q, "}) MERGE (f)-[:HAS_IMPORT]->(i);");
    q
}

/// The statement that creates or refreshes a chunk node.
pub open spec fn chunk_merge_text(chunk_id: Seq<char>, file_id: Seq<char>, symbol_id: Option<Seq<char>>, label: Seq<char>, start_line: nat, end_line: nat) -> Seq<char> {
    "MERGE (c:Chunk {chunk_id: "@
        + quoted(chunk_id)
        + "}) ON CREATE SET c.file_id = "@
        + quoted(file_id)
        + ", c.symbol_id = "@
        + opt_quoted(symbol_id)
        + ", c.label = "@
        + quoted(label)
        + ", c.start_line = "@
        + decimal(start_line)
        + ", c.end_line = "@
        + decimal(end_line)
        + " ON MATCH SET c.file_id = "@
        + quoted(file_id)
        + ", c.symbol_id = "@
        + opt_quoted(symbol_id)
        + ", c.label = "@
        + quoted(label)
        + ", c.start_line = "@
        + decimal(start_line)
        + ", c.end_line = "@
        + decimal(end_line)
        + ";"@
}

/// Builds the text of `chunk_merge_text`.
fn chunk_merge_text_query(chunk_id: &str, file_id: &str, symbol_id: &Option<String>, label: &str, start_line: u64, end_line: u64) -> (r: String)
    ensures
        r@ == chunk_merge_text(chunk_id@, file_id@, opt_string_view(*symbol_id), label@, start_line as nat, end_line as nat),
{
    let mut q = owned("MERGE (c:Chunk {chunk_id: ");
    push_lit(&mut q, chunk_id);
    push_str(&mut q, "}) ON CREATE SET c.file_id = ");
    push_lit(&mut q, file_id);
    push_str(&mut q, ", c.symbol_id = ");
    push_opt_lit(&mut q, symbol_id);
    push_str(&mut q, ", c.label = ");
    push_lit(&mut q, label);
    push_str(&mut q, ", c.start_line = ");
    push_decimal(&mut q, start_line);
    push_str(&mut q, ", c.end_line = ");
    push_decimal(&mut q, end_line);
    push_str(&mut q, " ON MATCH SET c.file_id = ");
    push_lit(&mut q, file_id);
    push_str(&mut q, ", c.symbol_id = ");
    push_opt_lit(&mut q, symbol_id);
    push_str(&mut q, ", c.label = ");
    push_lit(&mut q, label);
    push_str(&mut q, ", c.start_line = ");
    push_decimal(&mut q, start_line);
    push_str(&mut q, ", c.end_line = ");
    push_decimal(&mut q, end_line);
    push_str(&mut q, ";");
    q
}

/// The statement that links a file to one of its chunks.
pub open spec fn file_chunk_text(file_id: Seq<char>, chunk_id: Seq<char>) -> Seq<char> {
    "MATCH (f:File {file_id: "@
        + quoted(file_id)
        + "}), (c:Chunk {chunk_id: "@
        + quoted(chunk_id)
        + "}) MERGE (f)-[:HAS_CHUNK]->(c);"@
}

/// Builds the text of `file_chunk_text`.
pub fn file_chunk_query(file_id: &str, chunk_id: &str) -> (r: String)
    ensures
        r@ == file_chunk_text(file_id@, chunk_id@),
{
    let mut q = owned("MATCH (f:File {file_id: ");
    push_lit(&mut q, file_id);
    push_str(&mut q, "}), (c:Chunk {chunk_id: ");
    push_lit(&mut q, chunk_id);
    push_str(&mut q, "}) MERGE (f)-[:HAS_CHUNK]->(c);");
    q
}

/// The statement that links a symbol to its chunk.
pub open spec fn symbol_chunk_text(symbol_id: Seq<char>, chunk_id: Seq<char>) -> Seq<char> {
    "MATCH (s:Symbol {symbol_id: "@
        + quoted(symbol_id)
        + "}), (c:Chunk {chunk_id: "@
        + quoted(chunk_id)
        + "}) MERGE (s)-[:HAS_CHUNK]->(c);"@
}

/// Builds the text of `symbol_chunk_text`.
pub fn symbol_chunk_query(symbol_id: &str, chunk_id: &str) -> (r: String)
    ensures
        r@ == symbol_chunk_text(symbol_id@, chunk_id@),
{
    let mut q = owned("MATCH (s:Symbol {symbol_id: ");
    push_lit(&mut q, symbol_id);
    push_str(&mut q, "}), (c:Chunk {chunk_id: ");
    push_lit(&mut q, chunk_id);
    push_str(&mut q, "}) MERGE (s)-[:HAS_CHUNK]->(c);");
    q
}

/// The statement that creates or refreshes a warning node.
pub open spec fn warning_merge_text(warning_id: Seq<char>, file_id: Option<Seq<char>>, file_path: Seq<char>, stage: Seq<char>, message: Seq<char>) -> Seq<char> {
    "MERGE (w:Warning {warning_id: "@
        + quoted(warning_id)
        + "}) ON CREATE SET w.file_id = "@
        + opt_quoted(file_id)
        + ", w.file_path = "@
        + quoted(file_path)
        + ", w.stage = "@
        + quoted(stage)
        + ", w.message = "@
        + quoted(message)
        + " ON MATCH SET w.file_id = "@
        + opt_quoted(file_id)
        + ", w.file_path = "@
        + quoted(file_path)
        + ", w.stage = "@
        + quoted(stage)
        + ", w.message = "@
        + quoted(message)
        + ";"@
}

/// Builds the text of `warning_merge_text`.
fn warning_merge_text_query(warning_id: &str, file_id: &Option<String>, file_path: &str, stage: &str, message: &str) -> (r: String)
    ensures
        r@ == warning_merge_text(warning_id@, opt_string_view(*file_id), file_path@, stage@, message@),
{
    let mut q = owned("MERGE (w:Warning {warning_id: ");
    push_lit(&mut q, warning_id);
    push_str(&mut q, "}) ON CREATE SET w.file_id = ");
    push_opt_lit(&mut q, file_id);
    push_str(&mut q, ", w.file_path = ");
    push_lit(&mut q, file_path);
    push_str(&mut q, ", w.stage = ");
    push_lit(&mut q, stage);
    push_str(&mut q, ", w.message = ");
    push_lit(&mut q, message);
    push_str(&mut q, " ON MATCH SET w.file_id = ");
    push_opt_lit(&mut q, file_id);
    push_str(&mut q, ", w.file_path = ");
    push_lit(&mut q, file_path);
    push_str(&mut q, ", w.stage = ");
    push_lit(&mut q, stage);
    push_str(&mut q, ", w.message = ");
    push_lit(&mut q, message);
    push_str(&mut q, ";");
    q
}

/// The statement that links a file to one of its warnings.
pub open spec fn has_warning_text(file_id: Seq<char>, warning_id: Seq<char>) -> Seq<char> {
    "MATCH (f:File {file_id: "@
        + quoted(file_id)
        + "}), (w:Warning {warning_id: "@
        + quoted(warning_id)
        + "}) MERGE (f)-[:HAS_WARNING]->(w);"@
}

/// Builds the text of `has_warning_text`.
pub fn has_warning_query(file_id: &str, warning_id: &str) -> (r: String)
    ensures
        r@ == has_warning_text(file_id@, warning_id@),
{
    let mut q = owned("MATCH (f:File {file_id: ");
    push_lit(&mut q, file_id);
    push_str(&mut q, "}), (w:Warning {warning_id: ");
    push_lit(&mut q, warning_id);
    push_str(&mut q, "}) MERGE (f)-[:HAS_WARNING]->(w);");
    q
}

/// The statement that marks a file deleted by a run.
pub open spec fn soft_delete_text(file_id: Seq<char>, deleted_at: Seq<char>, run_id: Seq<char>) -> Seq<char> {
    "MATCH (f:File {file_id: "@
        + quoted(file_id)
        + "}) SET f.status = 'deleted', f.deleted_at = "@
        + quoted(deleted_at)
        + ", f.updated_at = "@
        + quoted(deleted_at)
        + ", f.last_indexed_run_id = "@
        + quoted(run_id)
        + ";"@
}

/// Builds the text of `soft_delete_text`.
pub fn soft_delete_query(file_id: &str, deleted_at: &str, run_id: &str) -> (r: String)
    ensures
        r@ == soft_delete_text(file_id@, deleted_at@, run_id@),
{
    let mut q = owned("MATCH (f:File {file_id: ");
    push_lit(&mut q, file_id);
    push_str(&mut q, "}) SET f.status = 'deleted', f.deleted_at = ");
    push_lit(&mut q, deleted_at);
    push_str(&mut q, ", f.updated_at = ");
    push_lit(&mut q, deleted_at);
    push_str(&mut q, ", f.last_indexed_run_id = ");
    push_lit(&mut q, run_id);
    push_str(&mut q, ";");
    q
}

/// The statement that deletes the dependency edges leaving the files of a scope.
pub open spec fn clear_scope_edges_text(scope_id: Seq<char>) -> Seq<char> {
    "MATCH (from:File)-[r:IMPORTS_FILE]->(:File) WHERE from.scope_id = "@
        + quoted(scope_id)
        + " DELETE r;"@
}

/// Builds the text of `clear_scope_edges_text`.
pub fn clear_scope_edges_query(scope_id: &str) -> (r: String)
    ensures
        r@ == clear_scope_edges_text(scope_id@),
{
    let mut q = owned("MATCH (from:File)-[r:IMPORTS_FILE]->(:File) WHERE from.scope_id = ");
    push_lit(&mut q, scope_id);
    push_str(&mut q, " DELETE r;");
    q
}

/// The query for the indexed files of a scope: identifier, path and language, by path.
pub open spec fn indexed_files_text(scope_id: Seq<char>) -> Seq<char> {
    "MATCH (s:IndexScope {scope_id: "@
        + quoted(scope_id)
        + "})-[:CONTAINS_FILE]->(f:File) WHERE f.status = 'indexed' RETURN f.file_id, f.relative_path, f.language ORDER BY f.relative_path;"@
}

/// Builds the text of `indexed_files_text`.
pub fn indexed_files_query(scope_id: &str) -> (r: String)
    ensures
        r@ == indexed_files_text(scope_id@),
{
    let mut q = owned("MATCH (s:IndexScope {scope_id: ");
    push_lit(&mut q, scope_id);
    push_str(&mut q, "})-[:CONTAINS_FILE]->(f:File) WHERE f.status = 'indexed' RETURN f.file_id, f.relative_path, f.language ORDER BY f.relative_path;");
    q
}

/// The query for the imports of the indexed files of a scope, with their files.
pub open spec fn scope_imports_text(scope_id: Seq<char>) -> Seq<char> {
    "MATCH (s:IndexScope {scope_id: "@
        + quoted(scope_id)
        + "})-[:CONTAINS_FILE]->(f:File)-[:HAS_IMPORT]->(i:Import) WHERE f.status = 'indexed' RETURN f.file_id, f.relative_path, f.language, i.raw_target ORDER BY f.relative_path, i.line;"@
}

/// Builds the text of `scope_imports_text`.
pub fn scope_imports_query(scope_id: &str) -> (r: String)
    ensures
        r@ == scope_imports_text(scope_id@),
{
    let mut q = owned("MATCH (s:IndexScope {scope_id: ");
    push_lit(&mut q, scope_id);
    push_str(&mut q, "})-[:CONTAINS_FILE]->(f:File)-[:HAS_IMPORT]->(i:Import) WHERE f.status = 'indexed' RETURN f.file_id, f.relative_path, f.language, i.raw_target ORDER BY f.relative_path, i.line;");
    q
}

/// The statement that creates or refreshes a resolved dependency edge.
pub open spec fn dependency_edge_text(from_id: Seq<char>, to_id: Seq<char>, raw_target: Seq<char>) -> Seq<char> {
    "MATCH (from:File {file_id: "@
        + quoted(from_id)
        + "}), (to:File {file_id: "@
        + quoted(to_id)
        + "}) MERGE (from)-[r:IMPORTS_FILE]->(to) ON CREATE SET r.raw_target = "@
        + quoted(raw_target)
        + ", r.confidence_score = 1.0, r.confidence_label = 'high', r.evidence = 'rust module path resolved to local file' ON MATCH SET r.raw_target = "@
        + quoted(raw_target)
        + ", r.confidence_score = 1.0, r.confidence_label = 'high', r.evidence = 'rust module path resolved to local file';"@
}

/// Builds the text of `dependency_edge_text`.
pub fn dependency_edge_query(from_id: &str, to_id: &str, raw_target: &str) -> (r: String)
    ensures
        r@ == dependency_edge_text(from_id@, to_id@, raw_target@),
{
    let mut q = owned("MATCH (from:File {file_id: ");
    push_lit(&mut q, from_id);
    push_str(&mut q, "}), (to:File {file_id: ");
    push_lit(&mut q, to_id);
    push_str(&mut q, "}) MERGE (from)-[r:IMPORTS_FILE]->(to) ON CREATE SET r.raw_target = ");
    push_lit(&mut q, raw_target);
    push_str(&mut q, ", r.confidence_score = 1.0, r.confidence_label = 'high', r.evidence = 'rust module path resolved to local file' ON MATCH SET r.raw_target = ");
    push_lit(&mut q, raw_target);
    push_str(&mut q, ", r.confidence_score = 1.0, r.confidence_label = 'high', r.evidence = 'rust module path resolved to local file';");
    q
}

/// The query for the indexed file of a scope at a relative path: identifier, path and language.
pub open spec fn explain_file_text(scope_id: Seq<char>, relative_path: Seq<char>) -> Seq<char> {
    "MATCH (s:IndexScope {scope_id: "@
        + quoted(scope_id)
        + "})-[:CONTAINS_FILE]->(f:File) WHERE f.relative_path = "@
        + quoted(relative_path)
        + " AND f.status = 'indexed' RETURN f.file_id, f.relative_path, f.language;"@
}

/// Builds the text of `explain_file_text`.
pub fn explain_file_query(scope_id: &str, relative_path: &str) -> (r: String)
    ensures
        r@ == explain_file_text(scope_id@, relative_path@),
{
    let mut q = owned("MATCH (s:IndexScope {scope_id: ");
    push_lit(&mut q, scope_id);
    push_str(&mut q, "})-[:CONTAINS_FILE]->(f:File) WHERE f.relative_path = ");
    push_lit(&mut q, relative_path);
    push_str(&mut q, " AND f.status = 'indexed' RETURN f.file_id, f.relative_path, f.language;");
    q
}

/// The query for the symbols a file defines.
pub open spec fn file_symbols_text(file_id: Seq<char>) -> Seq<char> {
    "MATCH (f:File {file_id: "@
        + quoted(file_id)
        + "})-[:DEFINES]->(s:Symbol) RETURN s.symbol_id, s.file_id, s.file_path, s.name, s.kind, s.language, s.start_line, s.end_line ORDER BY s.start_line, s.name;"@
}

/// Builds the text of `file_symbols_text`.
pub fn file_symbols_query(file_id: &str) -> (r: String)
    ensures
        r@ == file_symbols_text(file_id@),
{
    let mut q = owned("MATCH (f:File {file_id: ");
    push_lit(&mut q, file_id);
    push_str(&mut q, "})-[:DEFINES]->(s:Symbol) RETURN s.symbol_id, s.file_id, s.file_path, s.name, s.kind, s.language, s.start_line, s.end_line ORDER BY s.start_line, s.name;");
    q
}

/// The query for the imports of a file.
pub open spec fn file_imports_text(file_id: Seq<char>) -> Seq<char> {
    "MATCH (f:File {file_id: "@
        + quoted(file_id)
        + "})-[:HAS_IMPORT]->(i:Import) RETURN i.import_id, i.file_id, i.raw_target, i.line ORDER BY i.line, i.raw_target;"@
}

/// Builds the text of `file_imports_text`.
pub fn file_imports_query(file_id: &str) -> (r: String)
    ensures
        r@ == file_imports_text(file_id@),
{
    let mut q = owned("MATCH (f:File {file_id: ");
    push_lit(&mut q, file_id);
    push_str(&mut q, "})-[:HAS_IMPORT]->(i:Import) RETURN i.import_id, i.file_id, i.raw_target, i.line ORDER BY i.line, i.raw_target;");
    q
}

/// The query for the dependency edges leaving a file.
pub open spec fn file_dependencies_text(file_id: Seq<char>) -> Seq<char> {
    "MATCH (from:File {file_id: "@
        + quoted(file_id)
        + "})-[r:IMPORTS_FILE]->(to:File) RETURN from.file_id, to.file_id, from.relative_path, to.relative_path, r.raw_target, r.confidence_score, r.confidence_label, r.evidence ORDER BY to.relative_path;"@
}

/// Builds the text of `file_dependencies_text`.
pub fn file_dependencies_query(file_id: &str) -> (r: String)
    ensures
        r@ == file_dependencies_text(file_id@),
{
    let mut q = owned("MATCH (from:File {file_id: ");
    push_lit(&mut q, file_id);
    push_str(&mut q, "})-[r:IMPORTS_FILE]->(to:File) RETURN from.file_id, to.file_id, from.relative_path, to.relative_path, r.raw_target, r.confidence_score, r.confidence_label, r.evidence ORDER BY to.relative_path;");
    q
}

/// The query for the warnings of a file.
pub open spec fn file_warnings_text(file_id: Seq<char>) -> Seq<char> {
    "MATCH (f:File {file_id: "@
        + quoted(file_id)
        + "})-[:HAS_WARNING]->(w:Warning) RETURN w.warning_id, w.file_id, w.file_path, w.stage, w.message ORDER BY w.stage, w.message;"@
}

/// Builds the text of `file_warnings_text`.
pub fn file_warnings_query(file_id: &str) -> (r: String)
    ensures
        r@ == file_warnings_text(file_id@),
{
    let mut q = owned("MATCH (f:File {file_id: ");
    push_lit(&mut q, file_id);
    push_str(&mut q, "})-[:HAS_WARNING]->(w:Warning) RETURN w.warning_id, w.file_id, w.file_path, w.stage, w.message ORDER BY w.stage, w.message;");
    q
}


/// The query for the number of indexed files of a scope.
pub open spec fn active_count_text(scope_id: Seq<char>) -> Seq<char> {
    "MATCH (s:IndexScope {scope_id: "@
        + quoted(scope_id)
        + "})-[:CONTAINS_FILE]->(f:File) WHERE f.status = 'indexed' RETURN COUNT(*);"@
}

/// Builds the query text.
fn active_count_query(scope_id: &str) -> (r: String)
    ensures
        r@ == active_count_text(scope_id@),
{
    let mut q = owned("MATCH (s:IndexScope {scope_id: ");
    push_lit(&mut q, scope_id);
    push_str(&mut q, "})-[:CONTAINS_FILE]->(f:File) WHERE f.status = 'indexed' RETURN COUNT(*);");
    q
}

/// The query for the number of soft-deleted files of a scope.
pub open spec fn deleted_count_text(scope_id: Seq<char>) -> Seq<char> {
    "MATCH (s:IndexScope {scope_id: "@
        + quoted(scope_id)
        + "})-[:CONTAINS_FILE]->(f:File) WHERE f.status = 'deleted' RETURN COUNT(*);"@
}

/// Builds the query text.
fn deleted_count_query(scope_id: &str) -> (r: String)
    ensures
        r@ == deleted_count_text(scope_id@),
{
    let mut q = owned("MATCH (s:IndexScope {scope_id: ");
    push_lit(&mut q, scope_id);
    push_str(&mut q, "})-[:CONTAINS_FILE]->(f:File) WHERE f.status = 'deleted' RETURN COUNT(*);");
    q
}

/// The query for the number of symbols of the indexed files of a scope.
pub open spec fn symbol_count_text(scope_id: Seq<char>) -> Seq<char> {
    "MATCH (s:IndexScope {scope_id: "@
        + quoted(scope_id)
        + "})-[:CONTAINS_FILE]->(f:File)-[:DEFINES]->(x:Symbol) WHERE f.status = 'indexed' RETURN COUNT(*);"@
}

/// Builds the query text.
fn symbol_count_query(scope_id: &str) -> (r: String)
    ensures
        r@ == symbol_count_text(scope_id@),
{
    let mut q = owned("MATCH (s:IndexScope {scope_id: ");
    push_lit(&mut q, scope_id);
    push_str(&mut q, "})-[:CONTAINS_FILE]->(f:File)-[:DEFINES]->(x:Symbol) WHERE f.status = 'indexed' RETURN COUNT(*);");
    q
}

/// The query for the number of imports of the indexed files of a scope.
pub open spec fn import_count_text(scope_id: Seq<char>) -> Seq<char> {
    "MATCH (s:IndexScope {scope_id: "@
        + quoted(scope_id)
        + "})-[:CONTAINS_FILE]->(f:File)-[:HAS_IMPORT]->(x:Import) WHERE f.status = 'indexed' RETURN COUNT(*);"@
}

/// Builds the query text.
fn import_count_query(scope_id: &str) -> (r: String)
    ensures
        r@ == import_count_text(scope_id@),
{
    let mut q = owned("MATCH (s:IndexScope {scope_id: ");
    push_lit(&mut q, scope_id);
    push_str(&mut q, "})-[:CONTAINS_FILE]->(f:File)-[:HAS_IMPORT]->(x:Import) WHERE f.status = 'indexed' RETURN COUNT(*);");
    q
}

/// The query for the number of dependency edges between indexed files of a scope.
pub open spec fn edge_count_text(scope_id: Seq<char>) -> Seq<char> {
    "MATCH (from:File)-[r:IMPORTS_FILE]->(to:File) WHERE from.scope_id = "@
        + quoted(scope_id)
        + " AND to.scope_id = "@
        + quoted(scope_id)
        + " AND from.status = 'indexed' AND to.status = 'indexed' RETURN COUNT(*);"@
}

/// Builds the query text.
fn edge_count_query(scope_id: &str) -> (r: String)
    ensures
        r@ == edge_count_text(scope_id@),
{
    let mut q = owned("MATCH (from:File)-[r:IMPORTS_FILE]->(to:File) WHERE from.scope_id = ");
    push_lit(&mut q, scope_id);
    push_str(&mut q, " AND to.scope_id = ");
    push_lit(&mut q, scope_id);
    push_str(&mut q, " AND from.status = 'indexed' AND to.status = 'indexed' RETURN COUNT(*);");
    q
}

/// The query for the number of warnings of the indexed files of a scope.
pub open spec fn warning_count_text(scope_id: Seq<char>) -> Seq<char> {
    "MATCH (s:IndexScope {scope_id: "@
        + quoted(scope_id)
        + "})-[:CONTAINS_FILE]->(f:File)-[:HAS_WARNING]->(x:Warning) WHERE f.status = 'indexed' RETURN COUNT(*);"@
}

/// Builds the query text.
fn warning_count_query(scope_id: &str) -> (r: String)
    ensures
        r@ == warning_count_text(scope_id@),
{
    let mut q = owned("MATCH (s:IndexScope {scope_id: ");
    push_lit(&mut q, scope_id);
    push_str(&mut q, "})-[:CONTAINS_FILE]->(f:File)-[:HAS_WARNING]->(x:Warning) WHERE f.status = 'indexed' RETURN COUNT(*);");
    q
}

/// The query for the number of index runs of a scope.
pub open spec fn run_count_text(scope_id: Seq<char>) -> Seq<char> {
    "MATCH (r:IndexRun {scope_id: "@
        + quoted(scope_id)
        + "}) RETURN COUNT(*);"@
}

/// Builds the query text.
fn run_count_query(scope_id: &str) -> (r: String)
    ensures
        r@ == run_count_text(scope_id@),
{
    let mut q = owned("MATCH (r:IndexRun {scope_id: ");
    push_lit(&mut q, scope_id);
    push_str(&mut q, "}) RETURN COUNT(*);");
    q
}

/// The query for the identifier and status of the latest index run of a scope.
pub open spec fn latest_run_text(scope_id: Seq<char>) -> Seq<char> {
    "MATCH (r:IndexRun {scope_id: "@
        + quoted(scope_id)
        + "}) RETURN r.run_id, r.status ORDER BY r.started_at DESC, r.run_id DESC LIMIT 1;"@
}

/// Builds the query text.
fn latest_run_query(scope_id: &str) -> (r: String)
    ensures
        r@ == latest_run_text(scope_id@),
{
    let mut q = owned("MATCH (r:IndexRun {scope_id: ");
    push_lit(&mut q, scope_id);
    push_str(&mut q, "}) RETURN r.run_id, r.status ORDER BY r.started_at DESC, r.run_id DESC LIMIT 1;");
    q
}


/// The queries of a scope's summary, in order: the numbers of indexed files, of
/// deleted files, of symbols, imports, dependency edges, warnings and index runs; then
/// the latest run.
pub open spec fn summary_texts(scope_id: Seq<char>) -> Seq<Seq<char>> {
    seq![
        active_count_text(scope_id),
        deleted_count_text(scope_id),
        symbol_count_text(scope_id),
        import_count_text(scope_id),
        edge_count_text(scope_id),
        warning_count_text(scope_id),
        run_count_text(scope_id),
        latest_run_text(scope_id),
    ]
}

/// The queries of a scope's summary, in order (see `summary_texts`).
pub fn summary_queries(scope_id: &ScopeId) -> (r: Vec<String>)
    ensures
        texts(r@) == summary_texts(scope_id@),
{
    let s = scope_id.0.as_str();
    let mut r: Vec<String> = Vec::new();
    push_text(&mut r, active_count_query(s));
    push_text(&mut r, deleted_count_query(s));
    push_text(&mut r, symbol_count_query(s));
    push_text(&mut r, import_count_query(s));
    push_text(&mut r, edge_count_query(s));
    push_text(&mut r, warning_count_query(s));
    push_text(&mut r, run_count_query(s));
    push_text(&mut r, latest_run_query(s));
    assert(texts(r@) =~= summary_texts(scope_id@));
    r
}

/// The number a count query returned: the first column of its first row; a result
/// without rows lacks that column.
pub fn count_from_rows(rows: &Vec<Vec<StoreValue>>) -> (r: Result<u64, RowError>)
    ensures
        rows@.len() == 0 ==> r == Err::<u64, RowError>(RowError::MissingColumn(0)),
        rows@.len() > 0 ==> r == u64_cell(rows@[0]@, 0),
{
    if rows.len() == 0 {
        Err(RowError::MissingColumn(0))
    } else {
        u64_at(&rows[0], 0)
    }
}

/// The latest run that the summary's last query returned: the identifier and status
/// in its first row, or none where it has no row.
pub fn latest_run_from_rows(rows: &Vec<Vec<StoreValue>>) -> (r: Result<Option<(RunId, String)>, RowError>)
    ensures
        rows@.len() == 0 ==> r is Ok && r->Ok_0 is None,
        rows@.len() > 0 ==> match r {
            Ok(Some((id, status))) => text_cell(rows@[0]@, 0) == Ok::<Seq<char>, RowError>(id@) && text_cell(
                rows@[0]@,
                1,
            ) == Ok::<Seq<char>, RowError>(status@),
            Ok(None) => false,
            Err(e) => text_cell(rows@[0]@, 0) == Err::<Seq<char>, RowError>(e) || (text_cell(rows@[0]@, 0) is Ok
                && text_cell(rows@[0]@, 1) == Err::<Seq<char>, RowError>(e)),
        },
{
    if rows.len() == 0 {
        return Ok(None);
    }
    let id = match string_at(&rows[0], 0) {
        Ok(v) => v,
        Err(e) => return Err(e),
    };
    let status = match string_at(&rows[0], 1) {
        Ok(v) => v,
        Err(e) => return Err(e),
    };
    Ok(Some((RunId(id), status)))
}

/// The summary of a scope from the numbers its count queries returned, in the order of
/// `summary_texts`, and its latest run.
pub fn graph_summary(scope_id: &ScopeId, counts: &Vec<u64>, latest: Option<(RunId, String)>) -> (r: GraphSummary)
    requires
        counts@.len() == 7,
        forall|i: int| 0 <= i < 7 ==> counts@[i] <= usize::MAX,
    ensures
        r.scope_id@ == scope_id@,
        r.active_files == counts@[0],
        r.deleted_files == counts@[1],
        r.symbols == counts@[2],
        r.imports == counts@[3],
        r.dependency_edges == counts@[4],
        r.warnings == counts@[5],
        r.index_runs == counts@[6],
        match latest {
            Some((id, status)) => r.latest_run_id is Some && r.latest_run_id->0@ == id@
                && r.latest_run_status is Some && r.latest_run_status->0@ == status@,
            None => r.latest_run_id is None && r.latest_run_status is None,
        },
{
    let (latest_run_id, latest_run_status) = match latest {
        Some((id, status)) => (Some(id), Some(status)),
        None => (None, None),
    };
    GraphSummary {
        scope_id: scope_id.clone(),
        active_files: counts[0] as usize,
        deleted_files: counts[1] as usize,
        symbols: counts[2] as usize,
        imports: counts[3] as usize,
        dependency_edges: counts[4] as usize,
        warnings: counts[5] as usize,
        index_runs: counts[6] as usize,
        latest_run_id,
        latest_run_status,
    }
}

} // verus!
