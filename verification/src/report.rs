//! The text reports that the command line prints: status counts, changed files, file
//! explanations, neighborhoods, impact and scope summaries.
use vstd::prelude::*;
use crate::model::{
    change_kind_name, language_name, opt_view, symbol_kind_name, FileChange, FileDependency, FileExplanation, FileImpact,
    FileNeighborhood, GraphSummary, ImpactedFile, Import, IndexWarning, RepoStatus, Symbol,
};
use crate::text::{decimal, owned, push_decimal, push_str};

verus! {

/// A line `name: value`.
pub open spec fn field_line(name: Seq<char>, value: Seq<char>) -> Seq<char> {
    name + ": "@ + value + "\n"@
}

fn push_field(out: &mut String, name: &str, value: &str)
    ensures
        final(out)@ == old(out)@ + field_line(name@, value@),
{
    push_str(out, name);
    push_str(out, ": ");
    push_str(out, value);
    push_str(out, "\n");
    assert(out@ =~= old(out)@ + field_line(name@, value@));
}

fn push_count(out: &mut String, n: usize)
    ensures
        final(out)@ == old(out)@ + decimal(n as nat),
{
    push_decimal(out, n as u64);
}

fn push_count_field(out: &mut String, name: &str, n: usize)
    ensures
        final(out)@ == old(out)@ + field_line(name@, decimal(n as nat)),
{
    push_str(out, name);
    push_str(out, ": ");
    push_count(out, n);
    push_str(out, "\n");
    assert(out@ =~= old(out)@ + field_line(name@, decimal(n as nat)));
}

/// The status report: tracked and scanned files, then the count of each kind of change.
pub open spec fn status_text(s: RepoStatus) -> Seq<char> {
    field_line("tracked_files"@, decimal(s.tracked_files as nat)) + field_line(
        "scan_files"@,
        decimal(s.scan_files as nat),
    ) + field_line("added"@, decimal(s.added as nat)) + field_line("modified"@, decimal(s.modified as nat))
        + field_line("deleted"@, decimal(s.deleted as nat)) + field_line("unchanged"@, decimal(s.unchanged as nat))
        + field_line("skipped"@, decimal(s.skipped as nat)) + field_line(
        "reindex_needed"@,
        decimal(s.reindex_needed as nat),
    )
}

/// The status report (see `status_text`).
pub fn status_report(s: &RepoStatus) -> (r: String)
    ensures
        r@ == status_text(*s),
{
    let mut r = String::new();
    push_count_field(&mut r, "tracked_files", s.tracked_files);
    push_count_field(&mut r, "scan_files", s.scan_files);
    push_count_field(&mut r, "added", s.added);
    push_count_field(&mut r, "modified", s.modified);
    push_count_field(&mut r, "deleted", s.deleted);
    push_count_field(&mut r, "unchanged", s.unchanged);
    push_count_field(&mut r, "skipped", s.skipped);
    push_count_field(&mut r, "reindex_needed", s.reindex_needed);
    assert(r@ =~= status_text(*s));
    r
}

/// One line per change: its kind and its path, separated by a tab.
pub open spec fn changed_text(changes: Seq<FileChange>) -> Seq<char>
    decreases changes.len(),
{
    if changes.len() == 0 {
        Seq::empty()
    } else {
        let c = changes.last();
        changed_text(changes.drop_last()) + change_kind_name(c.kind) + "\t"@ + c.relative_path@ + "\n"@
    }
}

/// The list of changed files (see `changed_text`).
pub fn changed_report(changes: &Vec<FileChange>) -> (r: String)
    ensures
        r@ == changed_text(changes@),
{
    let mut r = String::new();
    let mut i: usize = 0;
    while i < changes.len()
        invariant
            i <= changes@.len(),
            r@ == changed_text(changes@.take(i as int)),
        decreases changes@.len() - i,
    {
        let c = &changes[i];
        proof {
            assert(changes@.take(i + 1).drop_last() =~= changes@.take(i as int));
        }
        push_str(&mut r, c.kind.as_str());
        push_str(&mut r, "\t");
        push_str(&mut r, c.relative_path.as_str());
        push_str(&mut r, "\n");
        i = i + 1;
        assert(r@ =~= changed_text(changes@.take(i as int)));
    }
    assert(changes@.take(changes@.len() as int) =~= changes@);
    r
}

/// One line per symbol: its kind and name.
pub open spec fn symbol_lines(syms: Seq<Symbol>) -> Seq<char>
    decreases syms.len(),
{
    if syms.len() == 0 {
        Seq::empty()
    } else {
        let s = syms.last();
        symbol_lines(syms.drop_last()) + "symbol: "@ + symbol_kind_name(s.kind) + " "@ + s.name@ + "\n"@
    }
}

/// One line per import: its raw target and line.
pub open spec fn import_lines(imports: Seq<Import>) -> Seq<char>
    decreases imports.len(),
{
    if imports.len() == 0 {
        Seq::empty()
    } else {
        let i = imports.last();
        import_lines(imports.drop_last()) + "import: "@ + i.raw_target@ + " line "@ + decimal(i.line as nat) + "\n"@
    }
}

/// One line per dependency that a file has: the file it imports, the raw target and
/// the evidence.
pub open spec fn dependency_lines(deps: Seq<FileDependency>) -> Seq<char>
    decreases deps.len(),
{
    if deps.len() == 0 {
        Seq::empty()
    } else {
        let d = deps.last();
        dependency_lines(deps.drop_last()) + "imports_file: "@ + d.to_relative_path@ + " via "@ + d.raw_target@
            + " ("@ + d.evidence.detail@ + ")\n"@
    }
}

/// One line per warning: its stage and message.
pub open spec fn warning_lines(warnings: Seq<IndexWarning>) -> Seq<char>
    decreases warnings.len(),
{
    if warnings.len() == 0 {
        Seq::empty()
    } else {
        let w = warnings.last();
        warning_lines(warnings.drop_last()) + "warning: "@ + w.stage@ + " "@ + w.message@ + "\n"@
    }
}

/// The explanation of a file: its path and language, then its symbols, imports,
/// dependencies and warnings.
pub open spec fn explain_text(x: FileExplanation) -> Seq<char> {
    field_line("file"@, x.relative_path@) + field_line("language"@, language_name(x.language)) + symbol_lines(
        x.symbols@,
    ) + import_lines(x.imports@) + dependency_lines(x.dependencies@) + warning_lines(x.warnings@)
}

fn push_symbol_lines(out: &mut String, syms: &Vec<Symbol>)
    ensures
        final(out)@ == old(out)@ + symbol_lines(syms@),
{
    let ghost start = out@;
    let mut i: usize = 0;
    assert(start =~= start + symbol_lines(syms@.take(0)));
    while i < syms.len()
        invariant
            i <= syms@.len(),
            out@ == start + symbol_lines(syms@.take(i as int)),
        decreases syms@.len() - i,
    {
        let s = &syms[i];
        proof {
            assert(syms@.take(i + 1).drop_last() =~= syms@.take(i as int));
        }
        push_str(out, "symbol: ");
        push_str(out, s.kind.name());
        push_str(out, " ");
        push_str(out, s.name.as_str());
        push_str(out, "\n");
        i = i + 1;
        assert(out@ =~= start + symbol_lines(syms@.take(i as int)));
    }
    assert(syms@.take(syms@.len() as int) =~= syms@);
}

fn push_import_lines(out: &mut String, imports: &Vec<Import>)
    ensures
        final(out)@ == old(out)@ + import_lines(imports@),
{
    let ghost start = out@;
    let mut i: usize = 0;
    assert(start =~= start + import_lines(imports@.take(0)));
    while i < imports.len()
        invariant
            i <= imports@.len(),
            out@ == start + import_lines(imports@.take(i as int)),
        decreases imports@.len() - i,
    {
        let m = &imports[i];
        proof {
            assert(imports@.take(i + 1).drop_last() =~= imports@.take(i as int));
        }
        push_str(out, "import: ");
        push_str(out, m.raw_target.as_str());
        push_str(out, " line ");
        push_count(out, m.line);
        push_str(out, "\n");
        i = i + 1;
        assert(out@ =~= start + import_lines(imports@.take(i as int)));
    }
    assert(imports@.take(imports@.len() as int) =~= imports@);
}

fn push_dependency_lines(out: &mut String, deps: &Vec<FileDependency>)
    ensures
        final(out)@ == old(out)@ + dependency_lines(deps@),
{
    let ghost start = out@;
    let mut i: usize = 0;
    assert(start =~= start + dependency_lines(deps@.take(0)));
    while i < deps.len()
        invariant
            i <= deps@.len(),
            out@ == start + dependency_lines(deps@.take(i as int)),
        decreases deps@.len() - i,
    {
        let d = &deps[i];
        proof {
            assert(deps@.take(i + 1).drop_last() =~= deps@.take(i as int));
        }
        push_str(out, "imports_file: ");
        push_str(out, d.to_relative_path.as_str());
        push_str(out, " via ");
        push_str(out, d.raw_target.as_str());
        push_str(out, " (");
        push_str(out, d.evidence.detail.as_str());
        push_str(out, ")\n");
        i = i + 1;
        assert(out@ =~= start + dependency_lines(deps@.take(i as int)));
    }
    assert(deps@.take(deps@.len() as int) =~= deps@);
}

fn push_warning_lines(out: &mut String, warnings: &Vec<IndexWarning>)
    ensures
        final(out)@ == old(out)@ + warning_lines(warnings@),
{
    let ghost start = out@;
    let mut i: usize = 0;
    assert(start =~= start + warning_lines(warnings@.take(0)));
    while i < warnings.len()
        invariant
            i <= warnings@.len(),
            out@ == start + warning_lines(warnings@.take(i as int)),
        decreases warnings@.len() - i,
    {
        let w = &warnings[i];
        proof {
            assert(warnings@.take(i + 1).drop_last() =~= warnings@.take(i as int));
        }
        push_str(out, "warning: ");
        push_str(out, w.stage.as_str());
        push_str(out, " ");
        push_str(out, w.message.as_str());
        push_str(out, "\n");
        i = i + 1;
        assert(out@ =~= start + warning_lines(warnings@.take(i as int)));
    }
    assert(warnings@.take(warnings@.len() as int) =~= warnings@);
}

/// The explanation of a file (see `explain_text`).
pub fn explain_report(x: &FileExplanation) -> (r: String)
    ensures
        r@ == explain_text(*x),
{
    let mut r = String::new();
    push_field(&mut r, "file", x.relative_path.as_str());
    push_field(&mut r, "language", x.language.as_str());
    push_symbol_lines(&mut r, &x.symbols);
    push_import_lines(&mut r, &x.imports);
    push_dependency_lines(&mut r, &x.dependencies);
    push_warning_lines(&mut r, &x.warnings);
    assert(r@ =~= explain_text(*x));
    r
}

/// One line per dependency with the given direction word, the path at its other end
/// and its raw target.
pub open spec fn neighbor_lines(word: Seq<char>, deps: Seq<FileDependency>, outgoing: bool) -> Seq<char>
    decreases deps.len(),
{
    if deps.len() == 0 {
        Seq::empty()
    } else {
        let d = deps.last();
        let other = if outgoing { d.to_relative_path@ } else { d.from_relative_path@ };
        neighbor_lines(word, deps.drop_last(), outgoing) + word + ": "@ + other + " via "@ + d.raw_target@ + "\n"@
    }
}

/// The neighborhood of a file: its path, then its outgoing and its incoming
/// dependencies.
pub open spec fn neighbors_text(n: FileNeighborhood) -> Seq<char> {
    field_line("file"@, n.relative_path@) + neighbor_lines("outgoing"@, n.outgoing@, true) + neighbor_lines(
        "incoming"@,
        n.incoming@,
        false,
    )
}

fn push_neighbor_lines(out: &mut String, word: &str, deps: &Vec<FileDependency>, outgoing: bool)
    ensures
        final(out)@ == old(out)@ + neighbor_lines(word@, deps@, outgoing),
{
    let ghost start = out@;
    let mut i: usize = 0;
    assert(start =~= start + neighbor_lines(word@, deps@.take(0), outgoing));
    while i < deps.len()
        invariant
            i <= deps@.len(),
            out@ == start + neighbor_lines(word@, deps@.take(i as int), outgoing),
        decreases deps@.len() - i,
    {
        let d = &deps[i];
        proof {
            assert(deps@.take(i + 1).drop_last() =~= deps@.take(i as int));
        }
        push_str(out, word);
        push_str(out, ": ");
        if outgoing {
            push_str(out, d.to_relative_path.as_str());
        } else {
            push_str(out, d.from_relative_path.as_str());
        }
        push_str(out, " via ");
        push_str(out, d.raw_target.as_str());
        push_str(out, "\n");
        i = i + 1;
        assert(out@ =~= start + neighbor_lines(word@, deps@.take(i as int), outgoing));
    }
    assert(deps@.take(deps@.len() as int) =~= deps@);
}

/// The neighborhood of a file (see `neighbors_text`).
pub fn neighbors_report(n: &FileNeighborhood) -> (r: String)
    ensures
        r@ == neighbors_text(*n),
{
    let mut r = String::new();
    push_field(&mut r, "file", n.relative_path.as_str());
    push_neighbor_lines(&mut r, "outgoing", &n.outgoing, true);
    push_neighbor_lines(&mut r, "incoming", &n.incoming, false);
    assert(r@ =~= neighbors_text(*n));
    r
}

/// One line per impacted file: its depth, its path and the path it was reached
/// through.
pub open spec fn impacted_lines(files: Seq<ImpactedFile>) -> Seq<char>
    decreases files.len(),
{
    if files.len() == 0 {
        Seq::empty()
    } else {
        let f = files.last();
        impacted_lines(files.drop_last()) + "impacted: depth="@ + decimal(f.depth as nat) + " "@ + f.relative_path@
            + " via "@ + f.via_relative_path@ + "\n"@
    }
}

/// The impact of a file: its path, then the files it impacts.
pub open spec fn impact_text(x: FileImpact) -> Seq<char> {
    field_line("file"@, x.relative_path@) + impacted_lines(x.impacted_files@)
}

/// The impact of a file (see `impact_text`).
pub fn impact_report(x: &FileImpact) -> (r: String)
    ensures
        r@ == impact_text(*x),
{
    let mut r = String::new();
    push_field(&mut r, "file", x.relative_path.as_str());
    let ghost start = r@;
    let files = &x.impacted_files;
    let mut i: usize = 0;
    assert(start =~= start + impacted_lines(files@.take(0)));
    while i < files.len()
        invariant
            i <= files@.len(),
            r@ == start + impacted_lines(files@.take(i as int)),
        decreases files@.len() - i,
    {
        let f = &files[i];
        proof {
            assert(files@.take(i + 1).drop_last() =~= files@.take(i as int));
        }
        push_str(&mut r, "impacted: depth=");
        push_count(&mut r, f.depth);
        push_str(&mut r, " ");
        push_str(&mut r, f.relative_path.as_str());
        push_str(&mut r, " via ");
        push_str(&mut r, f.via_relative_path.as_str());
        push_str(&mut r, "\n");
        i = i + 1;
        assert(r@ =~= start + impacted_lines(files@.take(i as int)));
    }
    assert(files@.take(files@.len() as int) =~= files@);
    assert(r@ =~= impact_text(*x));
    r
}

/// The summary of a scope: its identifier and counts, then the latest run where there
/// is one.
pub open spec fn summary_text(s: GraphSummary) -> Seq<char> {
    field_line("scope_id"@, s.scope_id@) + field_line("active_files"@, decimal(s.active_files as nat)) + field_line(
        "deleted_files"@,
        decimal(s.deleted_files as nat),
    ) + field_line("symbols"@, decimal(s.symbols as nat)) + field_line("imports"@, decimal(s.imports as nat))
        + field_line("dependency_edges"@, decimal(s.dependency_edges as nat)) + field_line(
        "warnings"@,
        decimal(s.warnings as nat),
    ) + field_line("index_runs"@, decimal(s.index_runs as nat)) + opt_field_line(
        "latest_run_id"@,
        opt_view(s.latest_run_id),
    ) + opt_field_line("latest_run_status"@, opt_view(s.latest_run_status))
}

/// A line `name: value` where there is a value, nothing where there is none.
pub open spec fn opt_field_line(name: Seq<char>, value: Option<Seq<char>>) -> Seq<char> {
    match value {
        Some(v) => field_line(name, v),
        None => Seq::empty(),
    }
}

/// The summary of a scope (see `summary_text`).
pub fn summary_report(s: &GraphSummary) -> (r: String)
    ensures
        r@ == summary_text(*s),
{
    let mut r = String::new();
    push_field(&mut r, "scope_id", s.scope_id.0.as_str());
    push_count_field(&mut r, "active_files", s.active_files);
    push_count_field(&mut r, "deleted_files", s.deleted_files);
    push_count_field(&mut r, "symbols", s.symbols);
    push_count_field(&mut r, "imports", s.imports);
    push_count_field(&mut r, "dependency_edges", s.dependency_edges);
    push_count_field(&mut r, "warnings", s.warnings);
    push_count_field(&mut r, "index_runs", s.index_runs);
    let ghost mid = r@;
    match &s.latest_run_id {
        Some(id) => push_field(&mut r, "latest_run_id", id.0.as_str()),
        None => {},
    }
    let ghost mid2 = r@;
    match &s.latest_run_status {
        Some(st) => push_field(&mut r, "latest_run_status", st.as_str()),
        None => {},
    }
    assert(mid2 =~= mid + opt_field_line("latest_run_id"@, opt_view(s.latest_run_id)));
    assert(r@ =~= mid2 + opt_field_line("latest_run_status"@, opt_view(s.latest_run_status)));
    assert(r@ =~= summary_text(*s));
    r
}

/// The word for how an index was run.
pub open spec fn index_mode_name(full: bool, refresh: bool) -> Seq<char> {
    if full {
        "full"@
    } else if refresh {
        "refresh"@
    } else {
        "incremental"@
    }
}

/// The line printed after an index: the output directory and the mode.
pub fn index_message(output_dir: &str, full: bool, refresh: bool) -> (r: String)
    ensures
        r@ == "indexed "@ + output_dir@ + " ("@ + index_mode_name(full, refresh) + ")\n"@,
{
    let mut r = owned("indexed ");
    push_str(&mut r, output_dir);
    push_str(&mut r, " (");
    if full {
        push_str(&mut r, "full");
    } else if refresh {
        push_str(&mut r, "refresh");
    } else {
        push_str(&mut r, "incremental");
    }
    push_str(&mut r, ")\n");
    r
}

/// The inspection of the exports: the repo map's first non-blank line (or `empty`),
/// then the size in bytes of each exported file.
pub open spec fn inspect_text(first_line: Option<Seq<char>>, graph: nat, symbols: nat, warnings: nat) -> Seq<char> {
    "repo-map.md\n"@ + match first_line {
        Some(l) => l,
        None => "empty"@,
    } + "\ngraph.json bytes: "@ + decimal(graph) + "\nsymbols.json bytes: "@ + decimal(symbols)
        + "\nwarnings.json bytes: "@ + decimal(warnings) + "\n"@
}

/// The inspection of the exports (see `inspect_text`).
pub fn inspect_report(first_line: &Option<String>, graph: usize, symbols: usize, warnings: usize) -> (r: String)
    ensures
        r@ == inspect_text(
            match first_line {
                Some(l) => Some(l@),
                None => None,
            },
            graph as nat,
            symbols as nat,
            warnings as nat,
        ),
{
    let mut r = owned("repo-map.md\n");
    match first_line {
        Some(l) => push_str(&mut r, l.as_str()),
        None => push_str(&mut r, "empty"),
    }
    push_str(&mut r, "\ngraph.json bytes: ");
    push_count(&mut r, graph);
    push_str(&mut r, "\nsymbols.json bytes: ");
    push_count(&mut r, symbols);
    push_str(&mut r, "\nwarnings.json bytes: ");
    push_count(&mut r, warnings);
    push_str(&mut r, "\n");
    r
}

} // verus!
