use vstd::prelude::*;
use crate::hash::stable_hash_spec;
use crate::ids::{edge_id_from_parts, import_target_id, repo_id_from_path, RepoId};
use crate::model::{
    edge_kind_name, CodeFile, Confidence, EdgeKind, Evidence, GraphEdge, GraphEdgeView, ImportView,
    IndexWarning, ParsedFile, ParsedFileView, RepoIndex, Symbol, SymbolView,
};
use crate::text::{decimal, decimal_string, owned, push_str};

verus! {

#[verifier::external_type_specification]
#[verifier::external_body]
pub struct ExSystemTime(std::time::SystemTime);

#[verifier::external_type_specification]
#[verifier::external_body]
pub struct ExSystemTimeError(std::time::SystemTimeError);

/// `SystemTime::now`: the time of the system clock. Nothing is claimed of it.
#[verifier::external_body]
fn clock_now() -> (r: std::time::SystemTime) {
    std::time::SystemTime::now()
}

/// `SystemTime::duration_since` the Unix epoch: the time since then, or an error where
/// `t` lies before it. Nothing is claimed of which, as the time is the clock's.
#[verifier::external_body]
fn since_epoch(t: &std::time::SystemTime) -> (r: Result<core::time::Duration, std::time::SystemTimeError>) {
    t.duration_since(std::time::UNIX_EPOCH)
}

/// `Duration::as_secs`: the whole seconds of a duration. A duration is opaque here, so
/// nothing is claimed of the number.
#[verifier::external_body]
fn whole_seconds(d: &core::time::Duration) -> (r: u64) {
    d.as_secs()
}

/// The system clock in whole seconds since the epoch; `None` where the clock is before
/// the epoch.
pub(crate) fn clock_seconds() -> (r: Option<u64>) {
    let now = clock_now();
    match since_epoch(&now) {
        Ok(d) => Some(whole_seconds(&d)),
        Err(_) => None,
    }
}

/// The seconds since the epoch, in decimal, as an index records its time; 0 where the
/// clock is before the epoch.
pub fn indexed_at_string() -> (r: String)
    ensures
        exists|n: u64| r@ == decimal(n as nat),
{
    let n = match clock_seconds() {
        Some(n) => n,
        None => 0,
    };
    decimal_string(n)
}

/// An edge of the graph that a parser's findings give: certain, labelled `high`, with
/// the evidence `heuristic-parser` and the detail given.
pub open spec fn edge_view(from: Seq<char>, to: Seq<char>, kind: EdgeKind, detail: Seq<char>) -> GraphEdgeView {
    GraphEdgeView {
        edge_id: stable_hash_spec(seq![from, to, edge_kind_name(kind), detail]),
        from_id: from,
        to_id: to,
        kind: kind,
        score_milli: 1000,
        label: "high"@,
        source: "heuristic-parser"@,
        detail: detail,
    }
}

/// The two edges of a symbol: its file defines it, and it belongs to its file.
pub open spec fn symbol_edges(s: SymbolView) -> Seq<GraphEdgeView> {
    seq![
        edge_view(s.file_id, s.symbol_id, EdgeKind::Defines, "defines:"@ + s.name),
        edge_view(s.symbol_id, s.file_id, EdgeKind::BelongsTo, "belongs_to:"@ + s.name),
    ]
}

/// The edge of an import: from its file to the identifier of its raw target.
pub open spec fn import_edge(i: ImportView) -> GraphEdgeView {
    edge_view(i.from_file_id, stable_hash_spec(seq![i.raw_target]), EdgeKind::Imports, "imports:"@ + i.raw_target)
}

/// The edges of some symbols, two per symbol, in order.
pub open spec fn symbols_edges(ss: Seq<SymbolView>) -> Seq<GraphEdgeView>
    decreases ss.len(),
{
    if ss.len() == 0 {
        seq![]
    } else {
        symbols_edges(ss.drop_last()) + symbol_edges(ss.last())
    }
}

/// The edges of the parsed files, in order: per file, its symbols' edges, then its
/// imports' edges.
pub open spec fn all_edges(ps: Seq<ParsedFileView>) -> Seq<GraphEdgeView>
    decreases ps.len(),
{
    if ps.len() == 0 {
        seq![]
    } else {
        all_edges(ps.drop_last()) + symbols_edges(ps.last().symbols) + ps.last().imports.map_values(
            |i: ImportView| import_edge(i),
        )
    }
}

/// The symbols of the parsed files, in order.
pub open spec fn all_symbols(ps: Seq<ParsedFileView>) -> Seq<SymbolView>
    decreases ps.len(),
{
    if ps.len() == 0 {
        seq![]
    } else {
        all_symbols(ps.drop_last()) + ps.last().symbols
    }
}

/// The number of imports of the parsed files.
pub open spec fn import_count(ps: Seq<ParsedFileView>) -> nat
    decreases ps.len(),
{
    if ps.len() == 0 {
        0
    } else {
        import_count(ps.drop_last()) + ps.last().imports.len()
    }
}

fn build_edge(from_id: &str, to_id: &str, kind: EdgeKind, detail: String) -> (r: GraphEdge)
    ensures
        r@ == edge_view(from_id@, to_id@, kind, detail@),
{
    GraphEdge {
        edge_id: edge_id_from_parts(from_id, to_id, &kind, detail.as_str()),
        from_id: owned(from_id),
        to_id: owned(to_id),
        kind,
        confidence: Confidence { score_milli: 1000, label: owned("high") },
        evidence: Evidence { source: owned("heuristic-parser"), detail },
    }
}

fn prefixed(prefix: &str, s: &str) -> (r: String)
    ensures
        r@ == prefix@ + s@,
{
    let mut r = owned(prefix);
    push_str(&mut r, s);
    r
}

pub open spec fn edge_views(v: Seq<GraphEdge>) -> Seq<GraphEdgeView> {
    v.map_values(|e: GraphEdge| e@)
}

pub open spec fn parsed_views(v: Seq<ParsedFile>) -> Seq<ParsedFileView> {
    v.map_values(|p: ParsedFile| p@)
}

/// The index of a repository from its scanned files and what the parsers found, at the
/// given time in seconds: the repository identifier of the first file (or of the root
/// where there is none), all symbols, and for each symbol a defines and a belongs-to
/// edge, for each import an imports edge.
pub fn build_repo_index_at(
    repo_root: &str,
    files: Vec<CodeFile>,
    parsed_files: Vec<ParsedFile>,
    warnings: Vec<IndexWarning>,
    seconds: u64,
) -> (r: RepoIndex)
    ensures
        r.repo_id@ == (if files@.len() > 0 {
            files@[0].repo_id@
        } else {
            stable_hash_spec(seq![repo_root@])
        }),
        r.repo_root@ == repo_root@,
        r.indexed_at@ == decimal(seconds as nat),
        r.files@ == files@,
        r.symbols@.map_values(|s: Symbol| s@) == all_symbols(parsed_views(parsed_files@)),
        edge_views(r.edges@) == all_edges(parsed_views(parsed_files@)),
        r.warnings@ == warnings@,
{
    let repo_id = if files.len() > 0 {
        files[0].repo_id.clone()
    } else {
        repo_id_from_path(repo_root)
    };
    let ghost ps = parsed_views(parsed_files@);
    let mut symbols: Vec<Symbol> = Vec::new();
    let mut edges: Vec<GraphEdge> = Vec::new();
    let mut i: usize = 0;
    proof {
        assert(ps.take(0) =~= Seq::<ParsedFileView>::empty());
        assert(symbols@.map_values(|s: Symbol| s@) =~= Seq::<SymbolView>::empty());
        assert(edge_views(edges@) =~= Seq::<GraphEdgeView>::empty());
    }
    while i < parsed_files.len()
        invariant
            i <= parsed_files@.len(),
            ps == parsed_views(parsed_files@),
            symbols@.map_values(|s: Symbol| s@) == all_symbols(ps.take(i as int)),
            edge_views(edges@) == all_edges(ps.take(i as int)),
        decreases parsed_files@.len() - i,
    {
        let parsed = &parsed_files[i];
        let ghost p = parsed@;
        let ghost e0 = edge_views(edges@);
        let ghost s0 = symbols@.map_values(|s: Symbol| s@);
        proof {
            assert(ps.take(i + 1).drop_last() =~= ps.take(i as int));
            assert(ps.take(i + 1).last() == p);
        }
        let mut j: usize = 0;
        proof {
            assert(p.symbols.take(0) =~= Seq::<SymbolView>::empty());
            assert(e0 + symbols_edges(p.symbols.take(0)) =~= e0);
            assert(s0 + p.symbols.take(0) =~= s0);
        }
        while j < parsed.symbols.len()
            invariant
                j <= parsed.symbols@.len(),
                p == parsed@,
                edge_views(edges@) == e0 + symbols_edges(p.symbols.take(j as int)),
                symbols@.map_values(|s: Symbol| s@) == s0 + p.symbols.take(j as int),
            decreases parsed.symbols@.len() - j,
        {
            let sym = &parsed.symbols[j];
            let ghost sv = sym@;
            proof {
                assert(p.symbols[j as int] == sv);
                assert(p.symbols.take(j + 1).drop_last() =~= p.symbols.take(j as int));
                assert(p.symbols.take(j + 1).last() == sv);
            }
            let ghost eb = edges@;
            let d1 = build_edge(sym.file_id.0.as_str(), sym.symbol_id.0.as_str(), EdgeKind::Defines, prefixed("defines:", sym.name.as_str()));
            let d2 = build_edge(sym.symbol_id.0.as_str(), sym.file_id.0.as_str(), EdgeKind::BelongsTo, prefixed("belongs_to:", sym.name.as_str()));
            edges.push(d1);
            edges.push(d2);
            assert(edge_views(edges@) =~= edge_views(eb) + symbol_edges(sv));
            let ghost sb = symbols@;
            symbols.push(sym.clone());
            assert(symbols@.map_values(|s: Symbol| s@) =~= sb.map_values(|s: Symbol| s@).push(sv));
            assert(s0 + p.symbols.take(j + 1) =~= (s0 + p.symbols.take(j as int)).push(sv));
            assert(e0 + symbols_edges(p.symbols.take(j + 1)) =~= e0 + symbols_edges(p.symbols.take(j as int)) + symbol_edges(sv));
            j = j + 1;
        }
        assert(p.symbols.take(p.symbols.len() as int) =~= p.symbols);
        let ghost e1 = edge_views(edges@);
        let mut k: usize = 0;
        proof {
            assert(p.imports.take(0).map_values(|x: ImportView| import_edge(x)) =~= Seq::<GraphEdgeView>::empty());
            assert(e1 + p.imports.take(0).map_values(|x: ImportView| import_edge(x)) =~= e1);
        }
        while k < parsed.imports.len()
            invariant
                k <= parsed.imports@.len(),
                p == parsed@,
                edge_views(edges@) == e1 + p.imports.take(k as int).map_values(|x: ImportView| import_edge(x)),
            decreases parsed.imports@.len() - k,
        {
            let imp = &parsed.imports[k];
            let ghost iv = imp@;
            proof {
                assert(p.imports[k as int] == iv);
            }
            let target = import_target_id(imp.raw_target.as_str());
            let ghost eb = edges@;
            let e = build_edge(imp.from_file_id.0.as_str(), target.0.as_str(), EdgeKind::Imports, prefixed("imports:", imp.raw_target.as_str()));
            edges.push(e);
            assert(edge_views(edges@) =~= edge_views(eb).push(import_edge(iv)));
            assert(p.imports.take(k + 1).map_values(|x: ImportView| import_edge(x)) =~= p.imports.take(
                k as int,
            ).map_values(|x: ImportView| import_edge(x)).push(import_edge(iv)));
            k = k + 1;
        }
        assert(p.imports.take(p.imports.len() as int) =~= p.imports);
        assert(edge_views(edges@) =~= all_edges(ps.take(i + 1)));
        assert(symbols@.map_values(|s: Symbol| s@) =~= all_symbols(ps.take(i + 1)));
        i = i + 1;
    }
    assert(ps.take(ps.len() as int) =~= ps);
    RepoIndex {
        repo_id,
        repo_root: owned(repo_root),
        indexed_at: decimal_string(seconds),
        files,
        symbols,
        edges,
        warnings,
    }
}

/// The index of a repository, recorded at the current time (see `build_repo_index_at`).
pub fn build_repo_index(
    repo_root: &str,
    files: Vec<CodeFile>,
    parsed_files: Vec<ParsedFile>,
    warnings: Vec<IndexWarning>,
) -> (r: RepoIndex)
    ensures
        r.repo_id@ == (if files@.len() > 0 {
            files@[0].repo_id@
        } else {
            stable_hash_spec(seq![repo_root@])
        }),
        r.repo_root@ == repo_root@,
        exists|n: u64| r.indexed_at@ == decimal(n as nat),
        r.files@ == files@,
        r.symbols@.map_values(|s: Symbol| s@) == all_symbols(parsed_views(parsed_files@)),
        edge_views(r.edges@) == all_edges(parsed_views(parsed_files@)),
        r.warnings@ == warnings@,
{
    let seconds = match clock_seconds() {
        Some(n) => n,
        None => 0,
    };
    build_repo_index_at(repo_root, files, parsed_files, warnings, seconds)
}

/// The graph holds two edges per symbol and one per import, and no call edges; every
/// edge is certain, labelled `high`, from the heuristic parser, and identified by the
/// hash of its ends, kind and detail.
pub proof fn law_repo_edges(ps: Seq<ParsedFileView>)
    ensures
        all_edges(ps).len() == 2 * all_symbols(ps).len() + import_count(ps),
        forall|k: int| 0 <= k < all_edges(ps).len() ==> {
            let e = #[trigger] all_edges(ps)[k];
            &&& e.kind != EdgeKind::Calls
            &&& e.score_milli == 1000
            &&& e.label == "high"@
            &&& e.source == "heuristic-parser"@
            &&& e.edge_id == stable_hash_spec(seq![e.from_id, e.to_id, edge_kind_name(e.kind), e.detail])
        },
    decreases ps.len(),
{
    if ps.len() > 0 {
        law_repo_edges(ps.drop_last());
        lemma_symbols_edges(ps.last().symbols);
        let a = all_edges(ps.drop_last());
        let b = symbols_edges(ps.last().symbols);
        let c = ps.last().imports.map_values(|i: ImportView| import_edge(i));
        assert forall|k: int| 0 <= k < all_edges(ps).len() implies {
            let e = #[trigger] all_edges(ps)[k];
            &&& e.kind != EdgeKind::Calls
            &&& e.score_milli == 1000
            &&& e.label == "high"@
            &&& e.source == "heuristic-parser"@
            &&& e.edge_id == stable_hash_spec(seq![e.from_id, e.to_id, edge_kind_name(e.kind), e.detail])
        } by {
            if k < a.len() {
                assert(all_edges(ps)[k] == a[k]);
            } else if k < a.len() + b.len() {
                assert(all_edges(ps)[k] == b[k - a.len()]);
            } else {
                assert(all_edges(ps)[k] == c[k - a.len() - b.len()]);
            }
        }
    }
}

proof fn lemma_symbols_edges(ss: Seq<SymbolView>)
    ensures
        symbols_edges(ss).len() == 2 * ss.len(),
        forall|k: int| 0 <= k < symbols_edges(ss).len() ==> {
            let e = #[trigger] symbols_edges(ss)[k];
            &&& e.kind != EdgeKind::Calls
            &&& e.score_milli == 1000
            &&& e.label == "high"@
            &&& e.source == "heuristic-parser"@
            &&& e.edge_id == stable_hash_spec(seq![e.from_id, e.to_id, edge_kind_name(e.kind), e.detail])
        },
    decreases ss.len(),
{
    if ss.len() > 0 {
        lemma_symbols_edges(ss.drop_last());
        let a = symbols_edges(ss.drop_last());
        assert forall|k: int| 0 <= k < symbols_edges(ss).len() implies {
            let e = #[trigger] symbols_edges(ss)[k];
            &&& e.kind != EdgeKind::Calls
            &&& e.score_milli == 1000
            &&& e.label == "high"@
            &&& e.source == "heuristic-parser"@
            &&& e.edge_id == stable_hash_spec(seq![e.from_id, e.to_id, edge_kind_name(e.kind), e.detail])
        } by {
            if k < a.len() {
                assert(symbols_edges(ss)[k] == a[k]);
            } else {
                assert(symbols_edges(ss)[k] == symbol_edges(ss.last())[k - a.len()]);
            }
        }
    }
}

/// Edges `2i` and `2i + 1` of some symbols' edges are the two edges of symbol `i`.
proof fn lemma_symbols_edges_at(ss: Seq<SymbolView>, i: int)
    requires
        0 <= i < ss.len(),
    ensures
        symbols_edges(ss).len() == 2 * ss.len(),
        symbols_edges(ss)[2 * i] == symbol_edges(ss[i])[0],
        symbols_edges(ss)[2 * i + 1] == symbol_edges(ss[i])[1],
    decreases ss.len(),
{
    lemma_symbols_edges(ss);
    lemma_symbols_edges(ss.drop_last());
    let a = symbols_edges(ss.drop_last());
    if i < ss.len() - 1 {
        lemma_symbols_edges_at(ss.drop_last(), i);
        assert(symbols_edges(ss)[2 * i] == a[2 * i]);
        assert(symbols_edges(ss)[2 * i + 1] == a[2 * i + 1]);
    } else {
        assert(symbols_edges(ss)[2 * i] == symbol_edges(ss.last())[0]);
        assert(symbols_edges(ss)[2 * i + 1] == symbol_edges(ss.last())[1]);
    }
}

/// Each of some symbols' edges is one of the two edges of one of the symbols.
proof fn lemma_symbols_edges_source(ss: Seq<SymbolView>, k: int) -> (i: int)
    requires
        0 <= k < symbols_edges(ss).len(),
    ensures
        0 <= i < ss.len(),
        symbols_edges(ss)[k] == symbol_edges(ss[i])[0] || symbols_edges(ss)[k] == symbol_edges(ss[i])[1],
    decreases ss.len(),
{
    lemma_symbols_edges(ss.drop_last());
    let a = symbols_edges(ss.drop_last());
    if k < a.len() {
        let i = lemma_symbols_edges_source(ss.drop_last(), k);
        assert(symbols_edges(ss)[k] == a[k]);
        i
    } else {
        assert(symbols_edges(ss)[k] == symbol_edges(ss.last())[k - a.len()]);
        (ss.len() - 1) as int
    }
}

/// The two edges of symbol `i` of the parsed files stand, one after the other, among
/// the edges of the parsed files.
proof fn lemma_all_edges_of_symbol(ps: Seq<ParsedFileView>, i: int) -> (k: int)
    requires
        0 <= i < all_symbols(ps).len(),
    ensures
        0 <= k && k + 1 < all_edges(ps).len(),
        all_edges(ps)[k] == symbol_edges(all_symbols(ps)[i])[0],
        all_edges(ps)[k + 1] == symbol_edges(all_symbols(ps)[i])[1],
    decreases ps.len(),
{
    let pre = ps.drop_last();
    let a = all_edges(pre);
    let b = symbols_edges(ps.last().symbols);
    if i < all_symbols(pre).len() {
        let k = lemma_all_edges_of_symbol(pre, i);
        assert(all_symbols(ps)[i] == all_symbols(pre)[i]);
        assert(all_edges(ps)[k] == a[k]);
        assert(all_edges(ps)[k + 1] == a[k + 1]);
        k
    } else {
        let j = i - all_symbols(pre).len();
        assert(all_symbols(ps)[i] == ps.last().symbols[j]);
        lemma_symbols_edges_at(ps.last().symbols, j);
        let k = a.len() + 2 * j;
        assert(all_edges(ps)[k] == b[2 * j]);
        assert(all_edges(ps)[k + 1] == b[2 * j + 1]);
        k
    }
}

/// An edge of the parsed files that is not an import's is one of the two edges of one
/// of their symbols.
proof fn lemma_all_edges_source(ps: Seq<ParsedFileView>, k: int) -> (i: int)
    requires
        0 <= k < all_edges(ps).len(),
        all_edges(ps)[k].kind != EdgeKind::Imports,
    ensures
        0 <= i < all_symbols(ps).len(),
        all_edges(ps)[k] == symbol_edges(all_symbols(ps)[i])[0] || all_edges(ps)[k] == symbol_edges(
            all_symbols(ps)[i],
        )[1],
    decreases ps.len(),
{
    let pre = ps.drop_last();
    let a = all_edges(pre);
    let b = symbols_edges(ps.last().symbols);
    let c = ps.last().imports.map_values(|x: ImportView| import_edge(x));
    if k < a.len() {
        assert(all_edges(ps)[k] == a[k]);
        let i = lemma_all_edges_source(pre, k);
        assert(all_symbols(ps)[i] == all_symbols(pre)[i]);
        i
    } else if k < a.len() + b.len() {
        assert(all_edges(ps)[k] == b[k - a.len()]);
        let j = lemma_symbols_edges_source(ps.last().symbols, k - a.len());
        let i = all_symbols(pre).len() + j;
        assert(all_symbols(ps)[i] == ps.last().symbols[j]);
        i
    } else {
        assert(all_edges(ps)[k] == c[k - a.len() - b.len()]);
        assert(false);
        0
    }
}

/// Each symbol of the parsed files has a `defines` edge from its file to it.
pub proof fn law_symbol_defined_by_its_file(ps: Seq<ParsedFileView>)
    ensures
        forall|i: int|
            #![trigger all_symbols(ps)[i]]
            0 <= i < all_symbols(ps).len() ==> exists|k: int|
                0 <= k < all_edges(ps).len() && (#[trigger] all_edges(ps)[k]).kind == EdgeKind::Defines
                    && all_edges(ps)[k].from_id == all_symbols(ps)[i].file_id && all_edges(ps)[k].to_id
                    == all_symbols(ps)[i].symbol_id,
{
    assert forall|i: int| #![trigger all_symbols(ps)[i]] 0 <= i < all_symbols(ps).len() implies exists|k: int|
        0 <= k < all_edges(ps).len() && (#[trigger] all_edges(ps)[k]).kind == EdgeKind::Defines
            && all_edges(ps)[k].from_id == all_symbols(ps)[i].file_id && all_edges(ps)[k].to_id
            == all_symbols(ps)[i].symbol_id by {
        let k = lemma_all_edges_of_symbol(ps, i);
    }
}

/// Each symbol of the parsed files has a `belongs_to` edge from it back to its file:
/// the reverse of its `defines` edge.
pub proof fn law_symbol_belongs_to_its_file(ps: Seq<ParsedFileView>)
    ensures
        forall|i: int|
            #![trigger all_symbols(ps)[i]]
            0 <= i < all_symbols(ps).len() ==> exists|k: int|
                0 <= k < all_edges(ps).len() && (#[trigger] all_edges(ps)[k]).kind == EdgeKind::BelongsTo
                    && all_edges(ps)[k].from_id == all_symbols(ps)[i].symbol_id && all_edges(ps)[k].to_id
                    == all_symbols(ps)[i].file_id,
{
    assert forall|i: int| #![trigger all_symbols(ps)[i]] 0 <= i < all_symbols(ps).len() implies exists|k: int|
        0 <= k < all_edges(ps).len() && (#[trigger] all_edges(ps)[k]).kind == EdgeKind::BelongsTo
            && all_edges(ps)[k].from_id == all_symbols(ps)[i].symbol_id && all_edges(ps)[k].to_id
            == all_symbols(ps)[i].file_id by {
        let k = lemma_all_edges_of_symbol(ps, i);
        assert(all_edges(ps)[k + 1].kind == EdgeKind::BelongsTo);
    }
}

/// Every `defines` edge leaves from a symbol's file and arrives at the symbol, and every
/// `belongs_to` edge leaves from a symbol and arrives at its file.
pub proof fn law_symbol_edges_have_symbols(ps: Seq<ParsedFileView>)
    ensures
        forall|k: int|
            0 <= k < all_edges(ps).len() && (#[trigger] all_edges(ps)[k]).kind == EdgeKind::Defines
                ==> exists|i: int|
                0 <= i < all_symbols(ps).len() && all_edges(ps)[k].from_id == (#[trigger] all_symbols(ps)[i]).file_id
                    && all_edges(ps)[k].to_id == all_symbols(ps)[i].symbol_id,
        forall|k: int|
            0 <= k < all_edges(ps).len() && (#[trigger] all_edges(ps)[k]).kind == EdgeKind::BelongsTo
                ==> exists|i: int|
                0 <= i < all_symbols(ps).len() && all_edges(ps)[k].from_id == (#[trigger] all_symbols(ps)[i]).symbol_id
                    && all_edges(ps)[k].to_id == all_symbols(ps)[i].file_id,
{
    assert forall|k: int|
        0 <= k < all_edges(ps).len() && (#[trigger] all_edges(ps)[k]).kind == EdgeKind::Defines implies exists|i: int|
        0 <= i < all_symbols(ps).len() && all_edges(ps)[k].from_id == (#[trigger] all_symbols(ps)[i]).file_id
            && all_edges(ps)[k].to_id == all_symbols(ps)[i].symbol_id by {
        let i = lemma_all_edges_source(ps, k);
    }
    assert forall|k: int|
        0 <= k < all_edges(ps).len() && (#[trigger] all_edges(ps)[k]).kind == EdgeKind::BelongsTo implies exists|i: int|
        0 <= i < all_symbols(ps).len() && all_edges(ps)[k].from_id == (#[trigger] all_symbols(ps)[i]).symbol_id
            && all_edges(ps)[k].to_id == all_symbols(ps)[i].file_id by {
        let i = lemma_all_edges_source(ps, k);
    }
}

} // verus!
