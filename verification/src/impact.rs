use vstd::prelude::*;
use crate::ids::FileId;
use crate::model::{FileDependency, FileImpact, ImpactedFile, ImpactedFileView};
use crate::order::{key_before, key_of, lemma_sorted_by_in_order, lemma_sorted_by_map, lemma_sorted_by_to_multiset, path_lt, sorted_by, stable_sort, SortKeyed};
use crate::text::chars_of;

verus! {

impl SortKeyed for ImpactedFile {
    open spec fn spec_key(&self) -> (nat, Seq<char>) {
        (self.depth as nat, self.relative_path@)
    }

    fn sort_rank(&self) -> (r: usize) {
        self.depth
    }

    fn sort_path(&self) -> (r: Vec<char>) {
        chars_of(self.relative_path.as_str())
    }
}

/// A file reached by the walk: its identifier, its path and its distance.
pub type WalkNode = (Seq<char>, Seq<char>, nat);

/// The identifiers of impacted files, in order.
pub open spec fn impacted_ids(out: Seq<ImpactedFileView>) -> Seq<Seq<char>> {
    out.map_values(|x: ImpactedFileView| x.file_id)
}

/// The views of impacted files.
pub open spec fn impact_views(out: Seq<ImpactedFile>) -> Seq<ImpactedFileView> {
    out.map_values(|x: ImpactedFile| x@)
}

/// The `k`-th file the walk visits: the start file, then the impacted files in the
/// order they were found.
pub open spec fn walk_node(sid: Seq<char>, sp: Seq<char>, out: Seq<ImpactedFileView>, k: int) -> WalkNode {
    if k == 0 {
        (sid, sp, 0)
    } else {
        (out[k - 1].file_id, out[k - 1].relative_path, out[k - 1].depth)
    }
}

/// The impacted file that dependency `d` makes of the visited `node`.
pub open spec fn discovered(d: FileDependency, node: WalkNode) -> ImpactedFileView {
    ImpactedFileView {
        file_id: d.from_file_id@,
        relative_path: d.from_relative_path@,
        depth: node.2 + 1,
        via_relative_path: node.1,
    }
}

/// Visiting a node: the first `n` dependencies in order; each that arrives at the node
/// and leaves from a file not yet listed lists that file.
pub open spec fn visit(deps: Seq<FileDependency>, node: WalkNode, out: Seq<ImpactedFileView>, n: int) -> Seq<
    ImpactedFileView,
>
    decreases n,
{
    if n <= 0 {
        out
    } else {
        let prev = visit(deps, node, out, n - 1);
        let d = deps[n - 1];
        if d.to_file_id@ == node.0 && !impacted_ids(prev).contains(d.from_file_id@) {
            prev.push(discovered(d, node))
        } else {
            prev
        }
    }
}

/// The breadth-first walk from node `head` on, for at most `fuel` nodes.
pub open spec fn walk(
    deps: Seq<FileDependency>,
    sid: Seq<char>,
    sp: Seq<char>,
    out: Seq<ImpactedFileView>,
    head: nat,
    fuel: nat,
) -> Seq<ImpactedFileView>
    decreases fuel,
{
    if fuel == 0 || head > out.len() {
        out
    } else {
        walk(
            deps,
            sid,
            sp,
            visit(deps, walk_node(sid, sp, out, head as int), out, deps.len() as int),
            head + 1,
            (fuel - 1) as nat,
        )
    }
}

/// The files that depend on the start file, directly or through others, in the order a
/// breadth-first walk over the reverse dependencies finds them. The walk visits at most
/// one node more than there are dependencies, which is enough to visit them all.
pub open spec fn impact_order(deps: Seq<FileDependency>, sid: Seq<char>, sp: Seq<char>) -> Seq<
    ImpactedFileView,
> {
    walk(deps, sid, sp, Seq::empty(), 0, deps.len() + 1)
}

/// The sort key of an impacted file: its depth, then its path.
pub open spec fn impact_key() -> spec_fn(ImpactedFileView) -> (nat, Seq<char>) {
    |x: ImpactedFileView| (x.depth, x.relative_path)
}

/// The impacted files of the start file, sorted by depth, then by path.
pub open spec fn impact_files(deps: Seq<FileDependency>, sid: Seq<char>, sp: Seq<char>) -> Seq<
    ImpactedFileView,
> {
    sorted_by(impact_order(deps, sid, sp), impact_key())
}

/// File `x` reaches `target` through exactly `n` dependencies.
pub open spec fn reaches(deps: Seq<FileDependency>, x: Seq<char>, target: Seq<char>, n: nat) -> bool
    decreases n,
{
    if n == 0 {
        x == target
    } else {
        exists|j: int|
            0 <= j < deps.len() && (#[trigger] deps[j]).from_file_id@ == x && reaches(
                deps,
                deps[j].to_file_id@,
                target,
                (n - 1) as nat,
            )
    }
}

/// How many dependencies leave from a file that is not listed.
pub open spec fn unseen(deps: Seq<FileDependency>, ids: Seq<Seq<char>>) -> nat
    decreases deps.len(),
{
    if deps.len() == 0 {
        0
    } else {
        unseen(deps.drop_last(), ids) + if ids.contains(deps.last().from_file_id@) {
            0nat
        } else {
            1nat
        }
    }
}

/// Dependency `d` lists `x` when it visits `node`.
pub open spec fn discovers(d: FileDependency, node: WalkNode, x: ImpactedFileView) -> bool {
    &&& d.from_file_id@ == x.file_id
    &&& d.from_relative_path@ == x.relative_path
    &&& d.to_file_id@ == node.0
    &&& x.via_relative_path == node.1
    &&& x.depth == node.2 + 1
}

/// The `m`-th impacted file was listed by a dependency that arrives at a node visited
/// before it.
pub open spec fn found_from(
    deps: Seq<FileDependency>,
    sid: Seq<char>,
    sp: Seq<char>,
    out: Seq<ImpactedFileView>,
    m: int,
) -> bool {
    exists|i: int, j: int|
        0 <= i <= m && 0 <= j < deps.len() && #[trigger] discovers(deps[j], walk_node(sid, sp, out, i), out[m])
}

/// What holds of the walk after the nodes before `head` were visited.
pub open spec fn walk_inv(
    deps: Seq<FileDependency>,
    sid: Seq<char>,
    sp: Seq<char>,
    out: Seq<ImpactedFileView>,
    head: nat,
) -> bool {
    &&& head <= out.len() + 1
    &&& out.len() + unseen(deps, impacted_ids(out)) <= deps.len()
    &&& impacted_ids(out).no_duplicates()
    &&& forall|m: int| 0 <= m < out.len() ==> #[trigger] out[m].depth <= m + 1
    &&& forall|m: int| 0 <= m < out.len() ==> #[trigger] found_from(deps, sid, sp, out, m)
    &&& forall|k: int, j: int|
        0 <= k < head && 0 <= j < deps.len() && (#[trigger] deps[j]).to_file_id@ == (#[trigger] walk_node(
            sid,
            sp,
            out,
            k,
        )).0 ==> impacted_ids(out).contains(deps[j].from_file_id@)
}

proof fn lemma_push_contains(ids: Seq<Seq<char>>, x: Seq<char>, y: Seq<char>)
    ensures
        ids.push(x).contains(y) <==> (ids.contains(y) || y == x),
{
    if ids.contains(y) {
        let i = choose|i: int| 0 <= i < ids.len() && ids[i] == y;
        assert(ids.push(x)[i] == y);
    }
    if y == x {
        assert(ids.push(x)[ids.len() as int] == y);
    }
    if ids.push(x).contains(y) {
        let i = choose|i: int| 0 <= i < ids.len() + 1 && ids.push(x)[i] == y;
        if i < ids.len() {
            assert(ids[i] == y);
        }
    }
}

proof fn lemma_ids_push(out: Seq<ImpactedFileView>, v: ImpactedFileView)
    ensures
        impacted_ids(out.push(v)) == impacted_ids(out).push(v.file_id),
{
    assert(impacted_ids(out.push(v)) =~= impacted_ids(out).push(v.file_id));
}

proof fn lemma_unseen_le(deps: Seq<FileDependency>, ids: Seq<Seq<char>>)
    ensures
        unseen(deps, ids) <= deps.len(),
    decreases deps.len(),
{
    if deps.len() > 0 {
        lemma_unseen_le(deps.drop_last(), ids);
    }
}

proof fn lemma_unseen_push(deps: Seq<FileDependency>, ids: Seq<Seq<char>>, x: Seq<char>)
    ensures
        unseen(deps, ids.push(x)) <= unseen(deps, ids),
    decreases deps.len(),
{
    if deps.len() > 0 {
        lemma_unseen_push(deps.drop_last(), ids, x);
        lemma_push_contains(ids, x, deps.last().from_file_id@);
    }
}

proof fn lemma_unseen_push_strict(deps: Seq<FileDependency>, ids: Seq<Seq<char>>, j: int)
    requires
        0 <= j < deps.len(),
        !ids.contains(deps[j].from_file_id@),
    ensures
        unseen(deps, ids.push(deps[j].from_file_id@)) < unseen(deps, ids),
    decreases deps.len(),
{
    let x = deps[j].from_file_id@;
    lemma_push_contains(ids, x, deps.last().from_file_id@);
    if j == deps.len() - 1 {
        lemma_unseen_push(deps.drop_last(), ids, x);
    } else {
        assert(deps.drop_last()[j] == deps[j]);
        lemma_unseen_push_strict(deps.drop_last(), ids, j);
    }
}

proof fn lemma_walk_node_prefix(sid: Seq<char>, sp: Seq<char>, out: Seq<ImpactedFileView>, v: ImpactedFileView, k: int)
    requires
        0 <= k <= out.len(),
    ensures
        walk_node(sid, sp, out.push(v), k) == walk_node(sid, sp, out, k),
{
    if k > 0 {
        assert(out.push(v)[k - 1] == out[k - 1]);
    }
}

/// Visiting node `head` keeps the invariant and lists the sources of the first `n`
/// dependencies that arrive at it.
proof fn lemma_visit(
    deps: Seq<FileDependency>,
    sid: Seq<char>,
    sp: Seq<char>,
    out: Seq<ImpactedFileView>,
    head: nat,
    n: int,
)
    requires
        walk_inv(deps, sid, sp, out, head),
        head <= out.len(),
        0 <= n <= deps.len(),
    ensures
        visit(deps, walk_node(sid, sp, out, head as int), out, n).len() >= out.len(),
        visit(deps, walk_node(sid, sp, out, head as int), out, n).subrange(0, out.len() as int) == out,
        walk_inv(deps, sid, sp, visit(deps, walk_node(sid, sp, out, head as int), out, n), head),
        forall|j: int|
            0 <= j < n && (#[trigger] deps[j]).to_file_id@ == walk_node(sid, sp, out, head as int).0
                ==> impacted_ids(visit(deps, walk_node(sid, sp, out, head as int), out, n)).contains(
                deps[j].from_file_id@,
            ),
    decreases n,
{
    let node = walk_node(sid, sp, out, head as int);
    if n <= 0 {
        assert(out.subrange(0, out.len() as int) =~= out);
    } else {
        lemma_visit(deps, sid, sp, out, head, n - 1);
        let prev = visit(deps, node, out, n - 1);
        let d = deps[n - 1];
        if d.to_file_id@ == node.0 && !impacted_ids(prev).contains(d.from_file_id@) {
            let e = discovered(d, node);
            let v = prev.push(e);
            assert(v == visit(deps, node, out, n));
            lemma_ids_push(prev, e);
            assert(v.subrange(0, out.len() as int) =~= prev.subrange(0, out.len() as int));
            // walk nodes up to the end of `prev` are unchanged
            assert forall|k: int| 0 <= k <= prev.len() implies walk_node(sid, sp, v, k) == walk_node(
                sid,
                sp,
                prev,
                k,
            ) by {
                lemma_walk_node_prefix(sid, sp, prev, e, k);
            }
            assert(walk_node(sid, sp, prev, head as int) == node) by {
                if head > 0 {
                    assert(prev.subrange(0, out.len() as int)[head - 1] == out[head - 1]);
                }
            }
            // the count of unseen sources drops
            lemma_unseen_push_strict(deps, impacted_ids(prev), n - 1);
            // identifiers stay distinct
            assert(impacted_ids(v).no_duplicates()) by {
                assert forall|a: int, b: int|
                    0 <= a < b < impacted_ids(v).len() implies impacted_ids(v)[a] != impacted_ids(
                    v,
                )[b] by {
                    if b == prev.len() {
                        assert(impacted_ids(prev)[a] == impacted_ids(v)[a]);
                    } else {
                        assert(impacted_ids(prev)[a] == impacted_ids(v)[a]);
                        assert(impacted_ids(prev)[b] == impacted_ids(v)[b]);
                    }
                }
            }
            // depths stay bounded by position
            assert forall|m: int| 0 <= m < v.len() implies #[trigger] v[m].depth <= m + 1 by {
                if m < prev.len() {
                    assert(v[m] == prev[m]);
                } else {
                    if head > 0 {
                        assert(prev[head - 1].depth <= head);
                    }
                }
            }
            // every listed file was found from an earlier node
            assert forall|m: int| 0 <= m < v.len() implies #[trigger] found_from(deps, sid, sp, v, m) by {
                if m < prev.len() {
                    assert(found_from(deps, sid, sp, prev, m));
                    let (i, j) = choose|i: int, j: int|
                        0 <= i <= m && 0 <= j < deps.len() && #[trigger] discovers(
                            deps[j],
                            walk_node(sid, sp, prev, i),
                            prev[m],
                        );
                    assert(v[m] == prev[m]);
                    assert(discovers(deps[j], walk_node(sid, sp, v, i), v[m]));
                } else {
                    assert(v[m] == e);
                    assert(discovers(deps[n - 1], walk_node(sid, sp, v, head as int), v[m]));
                }
            }
            // visited nodes keep their sources listed
            assert forall|k: int, j: int|
                0 <= k < head && 0 <= j < deps.len() && (#[trigger] deps[j]).to_file_id@ == (
                #[trigger] walk_node(sid, sp, v, k)).0 implies impacted_ids(v).contains(
                deps[j].from_file_id@,
            ) by {
                assert(walk_node(sid, sp, v, k) == walk_node(sid, sp, prev, k));
                lemma_push_contains(impacted_ids(prev), e.file_id, deps[j].from_file_id@);
            }
            assert forall|j: int|
                0 <= j < n && (#[trigger] deps[j]).to_file_id@ == node.0 implies impacted_ids(
                v,
            ).contains(deps[j].from_file_id@) by {
                lemma_push_contains(impacted_ids(prev), e.file_id, deps[j].from_file_id@);
            }
        } else {
            assert(prev == visit(deps, node, out, n));
        }
    }
}

/// The walk from an invariant state ends with every node visited.
proof fn lemma_walk(
    deps: Seq<FileDependency>,
    sid: Seq<char>,
    sp: Seq<char>,
    out: Seq<ImpactedFileView>,
    head: nat,
    fuel: nat,
)
    requires
        walk_inv(deps, sid, sp, out, head),
        head + fuel == deps.len() + 1,
    ensures
        walk_inv(
            deps,
            sid,
            sp,
            walk(deps, sid, sp, out, head, fuel),
            walk(deps, sid, sp, out, head, fuel).len() + 1,
        ),
    decreases fuel,
{
    if fuel == 0 || head > out.len() {
    } else {
        let node = walk_node(sid, sp, out, head as int);
        let v = visit(deps, node, out, deps.len() as int);
        lemma_visit(deps, sid, sp, out, head, deps.len() as int);
        assert(walk_node(sid, sp, v, head as int) == node) by {
            if head > 0 {
                assert(v.subrange(0, out.len() as int)[head - 1] == out[head - 1]);
            }
        }
        assert(walk_inv(deps, sid, sp, v, head + 1)) by {
            assert forall|k: int, j: int|
                0 <= k < head + 1 && 0 <= j < deps.len() && (#[trigger] deps[j]).to_file_id@ == (
                #[trigger] walk_node(sid, sp, v, k)).0 implies impacted_ids(v).contains(
                deps[j].from_file_id@,
            ) by {
                if k == head {
                    assert(deps[j].to_file_id@ == node.0);
                }
            }
        }
        lemma_walk(deps, sid, sp, v, head + 1, (fuel - 1) as nat);
    }
}

/// The walk of the impacted files ends with every node visited.
proof fn lemma_impact_order(deps: Seq<FileDependency>, sid: Seq<char>, sp: Seq<char>)
    ensures
        walk_inv(deps, sid, sp, impact_order(deps, sid, sp), impact_order(deps, sid, sp).len() + 1),
{
    let e = Seq::<ImpactedFileView>::empty();
    lemma_unseen_le(deps, impacted_ids(e));
    assert(impacted_ids(e) =~= Seq::<Seq<char>>::empty());
    lemma_walk(deps, sid, sp, e, 0, deps.len() + 1);
}

fn listed(out: &Vec<ImpactedFile>, id: &FileId) -> (r: bool)
    ensures
        r == impacted_ids(impact_views(out@)).contains(id@),
{
    let ghost ids = impacted_ids(impact_views(out@));
    let mut i: usize = 0;
    while i < out.len()
        invariant
            i <= out@.len(),
            ids == impacted_ids(impact_views(out@)),
            forall|k: int| 0 <= k < i ==> ids[k] != id@,
        decreases out@.len() - i,
    {
        assert(ids[i as int] == out@[i as int].file_id@);
        if out[i].file_id.0 == id.0 {
            return true;
        }
        i = i + 1;
    }
    false
}

fn visit_node(
    deps: &Vec<FileDependency>,
    node_id: &String,
    node_path: &String,
    depth: usize,
    out: &mut Vec<ImpactedFile>,
)
    requires
        depth <= old(out)@.len(),
        old(out)@.len() + unseen(deps@, impacted_ids(impact_views(old(out)@))) <= deps@.len(),
    ensures
        impact_views(final(out)@) == visit(
            deps@,
            (node_id@, node_path@, depth as nat),
            impact_views(old(out)@),
            deps@.len() as int,
        ),
{
    let ghost node: WalkNode = (node_id@, node_path@, depth as nat);
    let ghost out0 = impact_views(out@);
    let mut j: usize = 0;
    while j < deps.len()
        invariant
            j <= deps@.len(),
            depth <= out@.len(),
            out@.len() + unseen(deps@, impacted_ids(impact_views(out@))) <= deps@.len(),
            node == (node_id@, node_path@, depth as nat),
            impact_views(out@) == visit(deps@, node, out0, j as int),
        decreases deps@.len() - j,
    {
        let d = &deps[j];
        if d.to_file_id.0 == *node_id && !listed(out, &d.from_file_id) {
            proof {
                // a source not yet listed leaves room for one more file
                lemma_unseen_push_strict(deps@, impacted_ids(impact_views(out@)), j as int);
            }
            let x = ImpactedFile {
                file_id: d.from_file_id.clone(),
                relative_path: d.from_relative_path.clone(),
                depth: depth + 1,
                via_relative_path: node_path.clone(),
            };
            let ghost before = out@;
            out.push(x);
            proof {
                assert(x@ == discovered(deps@[j as int], node));
                assert(impact_views(out@) =~= impact_views(before).push(x@));
                lemma_ids_push(impact_views(before), x@);
            }
        }
        j = j + 1;
    }
}

/// The files that depend on a file, directly or through others, among the
/// dependencies of its scope: a breadth-first walk over the reverse dependencies lists
/// each file once, at the depth at which it is first found and with the path of the
/// file through which it was found; the list is then sorted by depth, then by path.
pub fn impact_from(file_id: FileId, relative_path: String, deps: &Vec<FileDependency>) -> (r: FileImpact)
    ensures
        r.file_id@ == file_id@,
        r.relative_path@ == relative_path@,
        impact_views(r.impacted_files@) == impact_files(deps@, file_id@, relative_path@),
{
    let ghost sid = file_id@;
    let ghost sp = relative_path@;
    let ghost total = deps@.len() + 1;
    let mut out: Vec<ImpactedFile> = Vec::new();
    let mut head: usize = 0;
    proof {
        let e = Seq::<ImpactedFileView>::empty();
        assert(impact_views(out@) =~= e);
        lemma_unseen_le(deps@, impacted_ids(e));
        assert(impacted_ids(e) =~= Seq::<Seq<char>>::empty());
    }
    loop
        invariant_except_break
            walk(deps@, sid, sp, impact_views(out@), head as nat, (total - head) as nat) == impact_order(
                deps@,
                sid,
                sp,
            ),
        invariant
            sid == file_id@,
            sp == relative_path@,
            total == deps@.len() + 1,
            head <= out@.len(),
            head <= total,
            walk_inv(deps@, sid, sp, impact_views(out@), head as nat),
        ensures
            impact_views(out@) == impact_order(deps@, sid, sp),
        decreases total - head,
    {
        let ghost views = impact_views(out@);
        let (nid, npath, ndepth) = if head == 0 {
            (file_id.0.clone(), relative_path.clone(), 0usize)
        } else {
            let x = &out[head - 1];
            assert(views[head - 1].depth <= head);
            (x.file_id.0.clone(), x.relative_path.clone(), x.depth)
        };
        assert((nid@, npath@, ndepth as nat) == walk_node(sid, sp, views, head as int));
        visit_node(deps, &nid, &npath, ndepth, &mut out);
        proof {
            let node = walk_node(sid, sp, views, head as int);
            let v = impact_views(out@);
            lemma_visit(deps@, sid, sp, views, head as nat, deps@.len() as int);
            assert(walk_node(sid, sp, v, head as int) == node) by {
                if head > 0 {
                    assert(v.subrange(0, views.len() as int)[head - 1] == views[head - 1]);
                }
            }
            assert forall|k: int, j: int|
                0 <= k < head + 1 && 0 <= j < deps@.len() && (#[trigger] deps@[j]).to_file_id@ == (
                #[trigger] walk_node(sid, sp, v, k)).0 implies impacted_ids(v).contains(
                deps@[j].from_file_id@,
            ) by {
                if k == head {
                    assert(deps@[j].to_file_id@ == node.0);
                }
            }
        }
        if head == out.len() {
            proof {
                let v = impact_views(out@);
                let f = (total - head) as nat;
                assert(walk(deps@, sid, sp, views, head as nat, f) == walk(deps@, sid, sp, v, (head + 1) as nat, (f - 1) as nat));
                assert(walk(deps@, sid, sp, v, (head + 1) as nat, (f - 1) as nat) == v);
            }
            break;
        }
        head = head + 1;
    }
    proof {
        lemma_impact_order(deps@, sid, sp);
    }
    let ghost order = out@;
    let sorted = stable_sort(out);
    proof {
        let f = |x: ImpactedFile| x@;
        assert forall|x: ImpactedFile| #[trigger] key_of::<ImpactedFile>()(x) == impact_key()(f(x)) by {}
        lemma_sorted_by_map(order, f, key_of::<ImpactedFile>(), impact_key());
    }
    FileImpact { file_id, relative_path, impacted_files: sorted }
}

/// A file that reaches the start file through `n` dependencies, with `n` at least
/// one, is listed once the walk has visited every node.
proof fn lemma_reaches_listed(
    deps: Seq<FileDependency>,
    sid: Seq<char>,
    sp: Seq<char>,
    out: Seq<ImpactedFileView>,
    x: Seq<char>,
    n: nat,
)
    requires
        walk_inv(deps, sid, sp, out, out.len() + 1),
        reaches(deps, x, sid, n),
    ensures
        n > 0 ==> impacted_ids(out).contains(x),
        n == 0 ==> x == sid,
    decreases n,
{
    if n > 0 {
        let j = choose|j: int|
            0 <= j < deps.len() && (#[trigger] deps[j]).from_file_id@ == x && reaches(
                deps,
                deps[j].to_file_id@,
                sid,
                (n - 1) as nat,
            );
        let t = deps[j].to_file_id@;
        lemma_reaches_listed(deps, sid, sp, out, t, (n - 1) as nat);
        if n - 1 == 0 {
            assert(walk_node(sid, sp, out, 0).0 == t);
        } else {
            let q = choose|q: int| 0 <= q < impacted_ids(out).len() && impacted_ids(out)[q] == t;
            assert(walk_node(sid, sp, out, q + 1).0 == t);
        }
    }
}

/// What a breadth-first walk keeps, after the nodes before `head` were visited: node
/// depths never decrease along the walk; every listed file is at most one deeper than
/// the last node visited; and each file with a dependency that arrives at a visited
/// node is listed at most one deeper than that node.
pub open spec fn bfs_inv(
    deps: Seq<FileDependency>,
    sid: Seq<char>,
    sp: Seq<char>,
    out: Seq<ImpactedFileView>,
    head: nat,
) -> bool {
    &&& head == 0 ==> out.len() == 0
    &&& forall|a: int, b: int|
        0 <= a <= b <= out.len() ==> (#[trigger] walk_node(sid, sp, out, a)).2 <= (#[trigger] walk_node(
            sid,
            sp,
            out,
            b,
        )).2
    &&& head >= 1 ==> forall|m: int|
        0 <= m < out.len() ==> (#[trigger] out[m]).depth <= walk_node(sid, sp, out, head - 1).2 + 1
    &&& forall|k: int, j: int|
        0 <= k < head && 0 <= j < deps.len() && (#[trigger] deps[j]).to_file_id@ == (#[trigger] walk_node(
            sid,
            sp,
            out,
            k,
        )).0 ==> listed_within(out, deps[j].from_file_id@, walk_node(sid, sp, out, k).2 + 1)
}

/// File `x` is listed at depth at most `d`.
pub open spec fn listed_within(out: Seq<ImpactedFileView>, x: Seq<char>, d: nat) -> bool {
    exists|p: int| 0 <= p < out.len() && (#[trigger] out[p]).file_id == x && out[p].depth <= d
}

proof fn lemma_listed_within_push(out: Seq<ImpactedFileView>, e: ImpactedFileView, x: Seq<char>, d: nat)
    requires
        listed_within(out, x, d),
    ensures
        listed_within(out.push(e), x, d),
{
    let p = choose|p: int| 0 <= p < out.len() && (#[trigger] out[p]).file_id == x && out[p].depth <= d;
    assert(out.push(e)[p] == out[p]);
}

/// Visiting node `head` keeps depths in order, lists nothing deeper than one past the
/// node, and lists each file with a dependency arriving at the node at most one deeper.
proof fn lemma_visit_bfs(
    deps: Seq<FileDependency>,
    sid: Seq<char>,
    sp: Seq<char>,
    out: Seq<ImpactedFileView>,
    head: nat,
    n: int,
)
    requires
        walk_inv(deps, sid, sp, out, head),
        bfs_inv(deps, sid, sp, out, head),
        head <= out.len(),
        0 <= n <= deps.len(),
    ensures
        ({
            let node = walk_node(sid, sp, out, head as int);
            let v = visit(deps, node, out, n);
            &&& forall|a: int, b: int|
                0 <= a <= b <= v.len() ==> (#[trigger] walk_node(sid, sp, v, a)).2 <= (#[trigger] walk_node(
                    sid,
                    sp,
                    v,
                    b,
                )).2
            &&& forall|m: int| 0 <= m < v.len() ==> (#[trigger] v[m]).depth <= node.2 + 1
            &&& forall|k: int, j: int|
                0 <= k < head && 0 <= j < deps.len() && (#[trigger] deps[j]).to_file_id@ == (
                #[trigger] walk_node(sid, sp, out, k)).0 ==> listed_within(
                    v,
                    deps[j].from_file_id@,
                    walk_node(sid, sp, out, k).2 + 1,
                )
            &&& forall|j: int|
                0 <= j < n && (#[trigger] deps[j]).to_file_id@ == node.0 ==> listed_within(
                    v,
                    deps[j].from_file_id@,
                    node.2 + 1,
                )
        }),
    decreases n,
{
    let node = walk_node(sid, sp, out, head as int);
    if n <= 0 {
        assert forall|m: int| 0 <= m < out.len() implies (#[trigger] out[m]).depth <= node.2 + 1 by {
            assert(head >= 1);
            assert(walk_node(sid, sp, out, head - 1).2 <= walk_node(sid, sp, out, head as int).2);
        }
    } else {
        lemma_visit_bfs(deps, sid, sp, out, head, n - 1);
        lemma_visit(deps, sid, sp, out, head, n - 1);
        let prev = visit(deps, node, out, n - 1);
        let d = deps[n - 1];
        if d.to_file_id@ == node.0 && !impacted_ids(prev).contains(d.from_file_id@) {
            let e = discovered(d, node);
            let v = prev.push(e);
            assert(v == visit(deps, node, out, n));
            assert forall|a: int| 0 <= a <= prev.len() implies walk_node(sid, sp, v, a) == walk_node(
                sid,
                sp,
                prev,
                a,
            ) by {
                lemma_walk_node_prefix(sid, sp, prev, e, a);
            }
            assert forall|a: int, b: int|
                0 <= a <= b <= v.len() implies (#[trigger] walk_node(sid, sp, v, a)).2 <= (
                #[trigger] walk_node(sid, sp, v, b)).2 by {
                if b == v.len() && a < b {
                    assert(walk_node(sid, sp, v, b).2 == e.depth);
                    assert(walk_node(sid, sp, v, a) == walk_node(sid, sp, prev, a));
                    if a > 0 {
                        assert(walk_node(sid, sp, prev, a).2 == prev[a - 1].depth);
                    }
                } else if b < v.len() {
                    assert(walk_node(sid, sp, v, a) == walk_node(sid, sp, prev, a));
                    assert(walk_node(sid, sp, v, b) == walk_node(sid, sp, prev, b));
                }
            }
            assert forall|m: int| 0 <= m < v.len() implies (#[trigger] v[m]).depth <= node.2 + 1 by {
                if m < prev.len() {
                    assert(v[m] == prev[m]);
                }
            }
            assert forall|k: int, j: int|
                0 <= k < head && 0 <= j < deps.len() && (#[trigger] deps[j]).to_file_id@ == (
                #[trigger] walk_node(sid, sp, out, k)).0 implies listed_within(
                v,
                deps[j].from_file_id@,
                walk_node(sid, sp, out, k).2 + 1,
            ) by {
                lemma_listed_within_push(prev, e, deps[j].from_file_id@, walk_node(sid, sp, out, k).2 + 1);
            }
            assert forall|j: int| 0 <= j < n && (#[trigger] deps[j]).to_file_id@ == node.0 implies listed_within(
                v,
                deps[j].from_file_id@,
                node.2 + 1,
            ) by {
                if j < n - 1 {
                    lemma_listed_within_push(prev, e, deps[j].from_file_id@, node.2 + 1);
                } else {
                    assert(v[prev.len() as int] == e);
                }
            }
        } else {
            assert(prev == visit(deps, node, out, n));
            if d.to_file_id@ == node.0 {
                let q = choose|q: int| 0 <= q < impacted_ids(prev).len() && impacted_ids(prev)[q] == d.from_file_id@;
                assert(prev[q].file_id == d.from_file_id@);
                assert(listed_within(prev, d.from_file_id@, node.2 + 1));
            }
        }
    }
}

/// The walk from a state where both invariants hold ends with both holding.
proof fn lemma_walk_bfs(
    deps: Seq<FileDependency>,
    sid: Seq<char>,
    sp: Seq<char>,
    out: Seq<ImpactedFileView>,
    head: nat,
    fuel: nat,
)
    requires
        walk_inv(deps, sid, sp, out, head),
        bfs_inv(deps, sid, sp, out, head),
        head + fuel == deps.len() + 1,
    ensures
        bfs_inv(
            deps,
            sid,
            sp,
            walk(deps, sid, sp, out, head, fuel),
            walk(deps, sid, sp, out, head, fuel).len() + 1,
        ),
    decreases fuel,
{
    if fuel == 0 || head > out.len() {
        if head <= out.len() {
            // no fuel left although nodes remain: the walk has listed every source
            lemma_walk(deps, sid, sp, out, head, fuel);
        }
    } else {
        let node = walk_node(sid, sp, out, head as int);
        let v = visit(deps, node, out, deps.len() as int);
        lemma_visit(deps, sid, sp, out, head, deps.len() as int);
        lemma_visit_bfs(deps, sid, sp, out, head, deps.len() as int);
        assert forall|k: int| 0 <= k <= head implies walk_node(sid, sp, v, k) == walk_node(sid, sp, out, k) by {
            if k > 0 {
                assert(v.subrange(0, out.len() as int)[k - 1] == out[k - 1]);
            }
        }
        assert(walk_inv(deps, sid, sp, v, head + 1)) by {
            assert forall|k: int, j: int|
                0 <= k < head + 1 && 0 <= j < deps.len() && (#[trigger] deps[j]).to_file_id@ == (
                #[trigger] walk_node(sid, sp, v, k)).0 implies impacted_ids(v).contains(
                deps[j].from_file_id@,
            ) by {
                if k == head {
                    assert(deps[j].to_file_id@ == node.0);
                }
            }
        }
        assert(bfs_inv(deps, sid, sp, v, head + 1)) by {
            assert forall|k: int, j: int|
                0 <= k < head + 1 && 0 <= j < deps.len() && (#[trigger] deps[j]).to_file_id@ == (
                #[trigger] walk_node(sid, sp, v, k)).0 implies listed_within(
                v,
                deps[j].from_file_id@,
                walk_node(sid, sp, v, k).2 + 1,
            ) by {
                assert(walk_node(sid, sp, v, k) == walk_node(sid, sp, out, k));
            }
            assert forall|m: int| 0 <= m < v.len() implies (#[trigger] v[m]).depth <= walk_node(
                sid,
                sp,
                v,
                head as int,
            ).2 + 1 by {
                assert(walk_node(sid, sp, v, head as int) == node);
            }
        }
        lemma_walk_bfs(deps, sid, sp, v, head + 1, (fuel - 1) as nat);
    }
}

/// Every listed file reaches the start file through as many dependencies as its depth.
proof fn lemma_listed_reaches(
    deps: Seq<FileDependency>,
    sid: Seq<char>,
    sp: Seq<char>,
    out: Seq<ImpactedFileView>,
    m: int,
)
    requires
        walk_inv(deps, sid, sp, out, out.len() + 1),
        0 <= m < out.len(),
    ensures
        reaches(deps, out[m].file_id, sid, out[m].depth),
        out[m].depth >= 1,
    decreases m,
{
    assert(found_from(deps, sid, sp, out, m));
    let (i, j) = choose|i: int, j: int|
        0 <= i <= m && 0 <= j < deps.len() && #[trigger] discovers(deps[j], walk_node(sid, sp, out, i), out[m]);
    let node = walk_node(sid, sp, out, i);
    if i == 0 {
        assert(reaches(deps, deps[j].to_file_id@, sid, 0));
    } else {
        lemma_listed_reaches(deps, sid, sp, out, i - 1);
        assert(reaches(deps, deps[j].to_file_id@, sid, node.2));
    }
    assert(out[m].depth == node.2 + 1);
    assert(reaches(deps, out[m].file_id, sid, (node.2 + 1) as nat));
}

proof fn lemma_sorted_member(deps: Seq<FileDependency>, sid: Seq<char>, sp: Seq<char>, k: int)
    requires
        0 <= k < impact_files(deps, sid, sp).len(),
    ensures
        exists|m: int|
            0 <= m < impact_order(deps, sid, sp).len() && impact_order(deps, sid, sp)[m] == impact_files(
                deps,
                sid,
                sp,
            )[k],
{
    broadcast use vstd::seq_lib::group_to_multiset_ensures;

    let order = impact_order(deps, sid, sp);
    let sorted = impact_files(deps, sid, sp);
    lemma_sorted_by_to_multiset(order, impact_key());
    assert(sorted.contains(sorted[k]));
    assert(order.to_multiset().count(sorted[k]) > 0);
    assert(order.contains(sorted[k]));
}

/// The completed walk of the impacted files keeps the breadth-first invariant.
proof fn lemma_impact_order_bfs(deps: Seq<FileDependency>, sid: Seq<char>, sp: Seq<char>)
    ensures
        bfs_inv(deps, sid, sp, impact_order(deps, sid, sp), impact_order(deps, sid, sp).len() + 1),
{
    let e = Seq::<ImpactedFileView>::empty();
    lemma_unseen_le(deps, impacted_ids(e));
    assert(impacted_ids(e) =~= Seq::<Seq<char>>::empty());
    lemma_walk_bfs(deps, sid, sp, e, 0, deps.len() + 1);
}

/// A file that reaches the start file through `n` dependencies, `n` at least one, is
/// listed at depth `n` or less once the walk is done.
proof fn lemma_reaches_within(
    deps: Seq<FileDependency>,
    sid: Seq<char>,
    sp: Seq<char>,
    out: Seq<ImpactedFileView>,
    x: Seq<char>,
    n: nat,
)
    requires
        walk_inv(deps, sid, sp, out, out.len() + 1),
        bfs_inv(deps, sid, sp, out, out.len() + 1),
        reaches(deps, x, sid, n),
        n > 0,
    ensures
        listed_within(out, x, n),
    decreases n,
{
    let j = choose|j: int|
        0 <= j < deps.len() && (#[trigger] deps[j]).from_file_id@ == x && reaches(
            deps,
            deps[j].to_file_id@,
            sid,
            (n - 1) as nat,
        );
    let t = deps[j].to_file_id@;
    if n - 1 == 0 {
        assert(walk_node(sid, sp, out, 0).0 == t);
        assert(walk_node(sid, sp, out, 0).2 == 0);
    } else {
        lemma_reaches_within(deps, sid, sp, out, t, (n - 1) as nat);
        let q = choose|q: int| 0 <= q < out.len() && (#[trigger] out[q]).file_id == t && out[q].depth <= (n - 1) as nat;
        assert(walk_node(sid, sp, out, q + 1).0 == t);
        assert(walk_node(sid, sp, out, q + 1).2 == out[q].depth);
        let d = walk_node(sid, sp, out, q + 1).2 + 1;
        assert(listed_within(out, x, d));
        let p = choose|p: int| 0 <= p < out.len() && (#[trigger] out[p]).file_id == x && out[p].depth <= d;
        assert(out[p].depth <= n);
    }
}

/// An impacted file's depth is the least number of dependencies, at least one, through
/// which it reaches the start file: it reaches it through that many (see
/// `law_impact_sound`) and through no fewer.
pub proof fn law_impact_shortest(deps: Seq<FileDependency>, sid: Seq<char>, sp: Seq<char>, k: int, n: nat)
    requires
        0 <= k < impact_files(deps, sid, sp).len(),
        n >= 1,
        reaches(deps, impact_files(deps, sid, sp)[k].file_id, sid, n),
    ensures
        impact_files(deps, sid, sp)[k].depth <= n,
{
    let order = impact_order(deps, sid, sp);
    let x = impact_files(deps, sid, sp)[k];
    lemma_impact_order(deps, sid, sp);
    lemma_impact_order_bfs(deps, sid, sp);
    lemma_sorted_member(deps, sid, sp, k);
    let m = choose|m: int| 0 <= m < order.len() && order[m] == x;
    lemma_reaches_within(deps, sid, sp, order, x.file_id, n);
    let p = choose|p: int| 0 <= p < order.len() && (#[trigger] order[p]).file_id == x.file_id && order[p].depth <= n;
    assert(impacted_ids(order)[p] == impacted_ids(order)[m]);
}

/// An impacted file was found through a file one level nearer: at depth one, the start
/// file; deeper, an impacted file at one less depth, whose path it carries and to
/// which it has a dependency.
pub proof fn law_impact_via(deps: Seq<FileDependency>, sid: Seq<char>, sp: Seq<char>, k: int)
    requires
        0 <= k < impact_files(deps, sid, sp).len(),
    ensures
        ({
            let f = impact_files(deps, sid, sp);
            ||| f[k].depth == 1 && f[k].via_relative_path == sp && exists|j: int|
                0 <= j < deps.len() && (#[trigger] deps[j]).from_file_id@ == f[k].file_id && deps[j].to_file_id@ == sid
            ||| exists|l: int|
                0 <= l < f.len() && (#[trigger] f[l]).depth + 1 == f[k].depth && f[l].relative_path
                    == f[k].via_relative_path && exists|j: int|
                    0 <= j < deps.len() && (#[trigger] deps[j]).from_file_id@ == f[k].file_id
                        && deps[j].to_file_id@ == f[l].file_id
        }),
{
    broadcast use vstd::seq_lib::group_to_multiset_ensures;

    let order = impact_order(deps, sid, sp);
    let f = impact_files(deps, sid, sp);
    lemma_impact_order(deps, sid, sp);
    lemma_sorted_member(deps, sid, sp, k);
    let m = choose|m: int| 0 <= m < order.len() && order[m] == f[k];
    assert(found_from(deps, sid, sp, order, m));
    let (i, j) = choose|i: int, j: int|
        0 <= i <= m && 0 <= j < deps.len() && #[trigger] discovers(deps[j], walk_node(sid, sp, order, i), order[m]);
    if i > 0 {
        let y = order[i - 1];
        lemma_sorted_by_to_multiset(order, impact_key());
        assert(order.contains(y));
        assert(f.to_multiset().count(y) > 0);
        assert(f.contains(y));
        let l = choose|l: int| 0 <= l < f.len() && f[l] == y;
        assert(f[l].depth + 1 == f[k].depth);
        assert(deps[j].from_file_id@ == f[k].file_id && deps[j].to_file_id@ == f[l].file_id);
    }
}

/// Every file that depends on the start file, directly or through others, is listed
/// among its impacted files.
pub proof fn law_impact_complete(deps: Seq<FileDependency>, sid: Seq<char>, sp: Seq<char>, x: Seq<char>, n: nat)
    requires
        n > 0,
        reaches(deps, x, sid, n),
    ensures
        impacted_ids(impact_files(deps, sid, sp)).contains(x),
{
    broadcast use vstd::seq_lib::group_to_multiset_ensures;

    let order = impact_order(deps, sid, sp);
    let sorted = impact_files(deps, sid, sp);
    lemma_impact_order(deps, sid, sp);
    lemma_reaches_listed(deps, sid, sp, order, x, n);
    let m = choose|m: int| 0 <= m < impacted_ids(order).len() && impacted_ids(order)[m] == x;
    lemma_sorted_by_to_multiset(order, impact_key());
    assert(order.contains(order[m]));
    assert(sorted.to_multiset().count(order[m]) > 0);
    assert(sorted.contains(order[m]));
    let k = choose|k: int| 0 <= k < sorted.len() && sorted[k] == order[m];
    assert(impacted_ids(sorted)[k] == x);
}

/// Every impacted file reaches the start file through as many dependencies as its depth,
/// which is at least one.
pub proof fn law_impact_sound(deps: Seq<FileDependency>, sid: Seq<char>, sp: Seq<char>, k: int)
    requires
        0 <= k < impact_files(deps, sid, sp).len(),
    ensures
        impact_files(deps, sid, sp)[k].depth >= 1,
        reaches(deps, impact_files(deps, sid, sp)[k].file_id, sid, impact_files(deps, sid, sp)[k].depth),
{
    let order = impact_order(deps, sid, sp);
    lemma_impact_order(deps, sid, sp);
    lemma_sorted_member(deps, sid, sp, k);
    let m = choose|m: int| 0 <= m < order.len() && order[m] == impact_files(deps, sid, sp)[k];
    lemma_listed_reaches(deps, sid, sp, order, m);
}

/// No file is listed twice among the impacted files.
pub proof fn law_impact_distinct(deps: Seq<FileDependency>, sid: Seq<char>, sp: Seq<char>, a: int, b: int)
    requires
        0 <= a < b < impact_files(deps, sid, sp).len(),
    ensures
        impact_files(deps, sid, sp)[a].file_id != impact_files(deps, sid, sp)[b].file_id,
{
    broadcast use vstd::seq_lib::group_to_multiset_ensures;

    let order = impact_order(deps, sid, sp);
    let sorted = impact_files(deps, sid, sp);
    lemma_impact_order(deps, sid, sp);
    lemma_sorted_by_to_multiset(order, impact_key());
    lemma_sorted_member(deps, sid, sp, a);
    lemma_sorted_member(deps, sid, sp, b);
    let ma = choose|m: int| 0 <= m < order.len() && order[m] == sorted[a];
    let mb = choose|m: int| 0 <= m < order.len() && order[m] == sorted[b];
    if sorted[a].file_id == sorted[b].file_id {
        assert(impacted_ids(order)[ma] == impacted_ids(order)[mb]);
        assert(ma == mb);
        // The elements of the walk are distinct, so each occurs once, in both lists.
        assert(order.no_duplicates()) by {
            assert forall|p: int, q: int| 0 <= p < q < order.len() implies order[p] != order[q] by {
                assert(impacted_ids(order)[p] != impacted_ids(order)[q]);
            }
        }
        order.lemma_multiset_has_no_duplicates();
        assert(order.contains(sorted[a]));
        assert(order.to_multiset().count(sorted[a]) == 1);
        let s2 = sorted.remove(a);
        assert(s2[b - 1] == sorted[b]);
        assert(s2.contains(sorted[a]));
        assert(s2.to_multiset() =~= sorted.to_multiset().remove(sorted[a]));
        assert(s2.to_multiset().count(sorted[a]) == 0);
    }
}

/// The impacted files come by depth, and by path within a depth.
pub proof fn law_impact_in_order(deps: Seq<FileDependency>, sid: Seq<char>, sp: Seq<char>)
    ensures
        forall|i: int, j: int|
            0 <= i < j < impact_files(deps, sid, sp).len() ==> {
                let a = #[trigger] impact_files(deps, sid, sp)[i];
                let b = #[trigger] impact_files(deps, sid, sp)[j];
                a.depth < b.depth || (a.depth == b.depth && !path_lt(b.relative_path, a.relative_path))
            },
{
    let f = impact_files(deps, sid, sp);
    lemma_sorted_by_in_order(impact_order(deps, sid, sp), impact_key());
    assert forall|i: int, j: int| 0 <= i < j < f.len() implies {
        let a = #[trigger] f[i];
        let b = #[trigger] f[j];
        a.depth < b.depth || (a.depth == b.depth && !path_lt(b.relative_path, a.relative_path))
    } by {
        assert(!key_before(impact_key()(f[j]), impact_key()(f[i])));
    }
}

} // verus!
