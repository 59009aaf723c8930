use vstd::prelude::*;
use crate::hash::stable_hash_spec;
use crate::ids::{file_id_from_relative_path, FileId, ProjectId, ScopeId, WorktreeId};
use crate::model::{
    count_kind, FileDependency, FileNeighborhood, RepoStatus,
    opt_view, CodeFile, FileChange, FileChangeKind, FileChangeView, FileFingerprintRecord,
    FileFingerprintView, FileStatus, IncrementalIndexPlan, IndexContext, ScanResult, SkippedFile,
};
use crate::order::{key_before, key_of, lemma_sorted_by_in_order, lemma_sorted_by_len, lemma_sorted_by_map, lemma_sorted_by_to_multiset, path_lt, sorted_by, stable_sort, SortKeyed};
use crate::text::{chars_of, owned, push_char};

verus! {

impl SortKeyed for FileChange {
    open spec fn spec_key(&self) -> (nat, Seq<char>) {
        (0, self.relative_path@)
    }

    fn sort_rank(&self) -> (r: usize) {
        0
    }

    fn sort_path(&self) -> (r: Vec<char>) {
        chars_of(self.relative_path.as_str())
    }
}

/// The sort key of a planned change: its relative path.
pub open spec fn change_view_key() -> spec_fn(FileChangeView) -> (nat, Seq<char>) {
    |c: FileChangeView| (0nat, c.relative_path)
}

/// The index of the last stored record with the given file identifier, or -1.
pub open spec fn last_record_index(stored: Seq<FileFingerprintRecord>, id: Seq<char>) -> int
    decreases stored.len(),
{
    if stored.len() == 0 {
        -1
    } else if stored.last().file_id@ == id {
        stored.len() - 1
    } else {
        last_record_index(stored.drop_last(), id)
    }
}

/// The change planned for a scanned file, given the last stored record with its
/// identifier (`None` where the store has none).
pub open spec fn scanned_change(
    file: CodeFile,
    rec: Option<FileFingerprintRecord>,
    ctx: IndexContext,
) -> FileChangeView {
    let fp = Some(file.fingerprint@);
    let cur = Some(file.fingerprint.sha256@);
    match rec {
        None => FileChangeView {
            file_id: file.file_id@,
            relative_path: file.relative_path@,
            kind: FileChangeKind::Added,
            fingerprint: fp,
            previous_sha256: None,
            current_sha256: cur,
            reason: None,
        },
        Some(r) => if r.status == FileStatus::Deleted {
            FileChangeView {
                file_id: file.file_id@,
                relative_path: file.relative_path@,
                kind: FileChangeKind::Added,
                fingerprint: fp,
                previous_sha256: Some(r.fingerprint.sha256@),
                current_sha256: cur,
                reason: Some("previously soft-deleted"@),
            }
        } else if r.fingerprint.sha256@ != file.fingerprint.sha256@ {
            FileChangeView {
                file_id: file.file_id@,
                relative_path: file.relative_path@,
                kind: FileChangeKind::Modified,
                fingerprint: fp,
                previous_sha256: Some(r.fingerprint.sha256@),
                current_sha256: cur,
                reason: None,
            }
        } else if r.parser_version@ != ctx.parser_version@ || r.schema_version@
            != ctx.schema_version@ || r.chunker_version@ != ctx.chunker_version@ {
            FileChangeView {
                file_id: file.file_id@,
                relative_path: file.relative_path@,
                kind: FileChangeKind::ReindexNeeded,
                fingerprint: fp,
                previous_sha256: Some(r.fingerprint.sha256@),
                current_sha256: cur,
                reason: Some("version mismatch"@),
            }
        } else {
            FileChangeView {
                file_id: file.file_id@,
                relative_path: file.relative_path@,
                kind: FileChangeKind::Unchanged,
                fingerprint: fp,
                previous_sha256: cur,
                current_sha256: cur,
                reason: None,
            }
        },
    }
}

/// The change planned for a scanned file against the store.
pub open spec fn change_for_file(
    file: CodeFile,
    stored: Seq<FileFingerprintRecord>,
    ctx: IndexContext,
) -> FileChangeView {
    let i = last_record_index(stored, file.file_id@);
    scanned_change(file, if i >= 0 { Some(stored[i]) } else { None }, ctx)
}

/// The change planned for an active stored file that the scan no longer holds.
pub open spec fn deleted_change(r: FileFingerprintRecord) -> FileChangeView {
    FileChangeView {
        file_id: r.file_id@,
        relative_path: r.relative_path@,
        kind: FileChangeKind::Deleted,
        fingerprint: Some(r.fingerprint@),
        previous_sha256: Some(r.fingerprint.sha256@),
        current_sha256: None,
        reason: None,
    }
}

/// The change planned for a file the scan skipped.
pub open spec fn skipped_change(k: SkippedFile) -> FileChangeView {
    FileChangeView {
        file_id: stable_hash_spec(seq![k.relative_path@]),
        relative_path: k.relative_path@,
        kind: FileChangeKind::Skipped,
        fingerprint: None,
        previous_sha256: None,
        current_sha256: None,
        reason: Some(k.reason@),
    }
}

/// Some scanned file has the identifier.
pub open spec fn scanned_has_id(files: Seq<CodeFile>, id: Seq<char>) -> bool {
    exists|j: int| 0 <= j < files.len() && (#[trigger] files[j]).file_id@ == id
}

/// A stored record that the plan reports as deleted: active, and not scanned.
pub open spec fn gone_from_scan(files: Seq<CodeFile>) -> spec_fn(FileFingerprintRecord) -> bool {
    |r: FileFingerprintRecord| r.status == FileStatus::Active && !scanned_has_id(files, r.file_id@)
}

/// The changes of a plan before they are sorted: one per scanned file in scan
/// order, then one per active stored record that the scan lacks in store order, then
/// one per skipped file.
pub open spec fn unsorted_changes(
    scan: ScanResult,
    ctx: IndexContext,
    stored: Seq<FileFingerprintRecord>,
) -> Seq<FileChangeView> {
    scan.files@.map_values(|f: CodeFile| change_for_file(f, stored, ctx))
        + stored.filter(gone_from_scan(scan.files@)).map_values(|r: FileFingerprintRecord| deleted_change(r))
        + scan.skipped_files@.map_values(|k: SkippedFile| skipped_change(k))
}

/// The changes of a plan: the unsorted changes, stably sorted by relative path.
pub open spec fn planned_changes(
    scan: ScanResult,
    ctx: IndexContext,
    stored: Seq<FileFingerprintRecord>,
) -> Seq<FileChangeView> {
    sorted_by(unsorted_changes(scan, ctx, stored), change_view_key())
}

fn find_last_record(stored: &Vec<FileFingerprintRecord>, id: &FileId) -> (r: Option<usize>)
    ensures
        match r {
            Some(i) => i < stored@.len() && last_record_index(stored@, id@) == i,
            None => last_record_index(stored@, id@) == -1,
        },
{
    let mut i = stored.len();
    assert(stored@.take(i as int) == stored@);
    while i > 0
        invariant
            i <= stored@.len(),
            last_record_index(stored@, id@) == last_record_index(stored@.take(i as int), id@),
        decreases i,
    {
        proof {
            assert(stored@.take(i as int).drop_last() == stored@.take(i - 1));
            assert(stored@.take(i as int).last() == stored@[i - 1]);
        }
        if stored[i - 1].file_id.0 == id.0 {
            return Some(i - 1);
        }
        i = i - 1;
    }
    None
}

fn opt_string(s: &str) -> (r: Option<String>)
    ensures
        opt_view(r) == Some(s@),
{
    Some(owned(s))
}

fn change_for_scanned_file(
    file: &CodeFile,
    stored: &Vec<FileFingerprintRecord>,
    ctx: &IndexContext,
) -> (r: FileChange)
    ensures
        r@ == change_for_file(*file, stored@, *ctx),
{
    let found = find_last_record(stored, &file.file_id);
    let fp = Some(file.fingerprint.clone());
    let cur = Some(file.fingerprint.sha256.clone());
    match found {
        None => FileChange {
            file_id: file.file_id.clone(),
            relative_path: file.relative_path.clone(),
            kind: FileChangeKind::Added,
            fingerprint: fp,
            previous_sha256: None,
            current_sha256: cur,
            reason: None,
        },
        Some(i) => {
            let rec = &stored[i];
            if rec.status == FileStatus::Deleted {
                FileChange {
                    file_id: file.file_id.clone(),
                    relative_path: file.relative_path.clone(),
                    kind: FileChangeKind::Added,
                    fingerprint: fp,
                    previous_sha256: Some(rec.fingerprint.sha256.clone()),
                    current_sha256: cur,
                    reason: opt_string("previously soft-deleted"),
                }
            } else if rec.fingerprint.sha256 != file.fingerprint.sha256 {
                FileChange {
                    file_id: file.file_id.clone(),
                    relative_path: file.relative_path.clone(),
                    kind: FileChangeKind::Modified,
                    fingerprint: fp,
                    previous_sha256: Some(rec.fingerprint.sha256.clone()),
                    current_sha256: cur,
                    reason: None,
                }
            } else if rec.parser_version != ctx.parser_version || rec.schema_version
                != ctx.schema_version || rec.chunker_version != ctx.chunker_version {
                FileChange {
                    file_id: file.file_id.clone(),
                    relative_path: file.relative_path.clone(),
                    kind: FileChangeKind::ReindexNeeded,
                    fingerprint: fp,
                    previous_sha256: Some(rec.fingerprint.sha256.clone()),
                    current_sha256: cur,
                    reason: opt_string("version mismatch"),
                }
            } else {
                FileChange {
                    file_id: file.file_id.clone(),
                    relative_path: file.relative_path.clone(),
                    kind: FileChangeKind::Unchanged,
                    fingerprint: fp,
                    previous_sha256: Some(file.fingerprint.sha256.clone()),
                    current_sha256: cur,
                    reason: None,
                }
            }
        },
    }
}

fn scan_has_id(files: &Vec<CodeFile>, id: &FileId) -> (r: bool)
    ensures
        r == scanned_has_id(files@, id@),
{
    let mut j: usize = 0;
    while j < files.len()
        invariant
            j <= files@.len(),
            forall|k: int| 0 <= k < j ==> (#[trigger] files@[k]).file_id@ != id@,
        decreases files@.len() - j,
    {
        if files[j].file_id.0 == id.0 {
            return true;
        }
        j = j + 1;
    }
    false
}

/// The incremental plan for a scan, against the records that the store holds for the
/// scope: each scanned file is added (new, or previously soft-deleted), modified
/// (other content hash), reindex-needed (same hash, other parser, schema or chunker
/// version) or unchanged; each active record that the scan lacks is deleted; each
/// skipped file is skipped. Changes come sorted by relative path.
pub fn plan_from_records(
    scan: &ScanResult,
    ctx: &IndexContext,
    stored: &Vec<FileFingerprintRecord>,
) -> (r: IncrementalIndexPlan)
    ensures
        opt_view(r.project_id) == Some(ctx.project_id@),
        opt_view(r.worktree_id) == Some(ctx.worktree_id@),
        opt_view(r.scope_id) == Some(ctx.scope_id@),
        r.changes@.map_values(|c: FileChange| c@) == planned_changes(*scan, *ctx, stored@),
{
    let ghost files = scan.files@;
    let mut changes: Vec<FileChange> = Vec::new();
    let mut i: usize = 0;
    while i < scan.files.len()
        invariant
            i <= files.len(),
            files == scan.files@,
            changes@.len() == i,
            forall|q: int| 0 <= q < i ==> (#[trigger] changes@[q])@ == change_for_file(files[q], stored@, *ctx),
        decreases files.len() - i,
    {
        let c = change_for_scanned_file(&scan.files[i], stored, ctx);
        changes.push(c);
        i = i + 1;
    }
    let ghost part1 = changes@.map_values(|c: FileChange| c@);
    assert(part1 =~= files.map_values(|f: CodeFile| change_for_file(f, stored@, *ctx)));
    let ghost pred = gone_from_scan(files);
    let mut j: usize = 0;
    while j < stored.len()
        invariant
            j <= stored@.len(),
            files == scan.files@,
            pred == gone_from_scan(files),
            changes@.len() == part1.len() + stored@.take(j as int).filter(pred).len(),
            forall|q: int| 0 <= q < part1.len() ==> (#[trigger] changes@[q])@ == part1[q],
            forall|q: int| 0 <= q < stored@.take(j as int).filter(pred).len() ==>
                (#[trigger] changes@[part1.len() + q])@ == deleted_change(stored@.take(j as int).filter(pred)[q]),
        decreases stored@.len() - j,
    {
        let rec = &stored[j];
        let keep = rec.status == FileStatus::Active && !scan_has_id(&scan.files, &rec.file_id);
        proof {
            assert(stored@.take(j + 1).drop_last() == stored@.take(j as int));
            reveal_with_fuel(Seq::<_>::filter, 1);
            assert(keep == pred(stored@[j as int]));
        }
        if keep {
            changes.push(
                FileChange {
                    file_id: rec.file_id.clone(),
                    relative_path: rec.relative_path.clone(),
                    kind: FileChangeKind::Deleted,
                    fingerprint: Some(rec.fingerprint.clone()),
                    previous_sha256: Some(rec.fingerprint.sha256.clone()),
                    current_sha256: None,
                    reason: None,
                },
            );
        }
        j = j + 1;
    }
    assert(stored@.take(stored@.len() as int) == stored@);
    let ghost part2 = changes@.map_values(|c: FileChange| c@);
    proof {
        let rhs = part1 + stored@.filter(pred).map_values(|r: FileFingerprintRecord| deleted_change(r));
        assert forall|q: int| 0 <= q < part2.len() implies part2[q] == rhs[q] by {
            if q >= part1.len() {
                let q2 = q - part1.len();
                assert(changes@[part1.len() + q2]@ == deleted_change(stored@.filter(pred)[q2]));
            }
        }
        assert(part2 =~= rhs);
    }
    let mut k: usize = 0;
    while k < scan.skipped_files.len()
        invariant
            k <= scan.skipped_files@.len(),
            changes@.len() == part2.len() + k,
            forall|q: int| 0 <= q < part2.len() ==> (#[trigger] changes@[q])@ == part2[q],
            forall|q: int| 0 <= q < k ==>
                (#[trigger] changes@[part2.len() + q])@ == skipped_change(scan.skipped_files@[q]),
        decreases scan.skipped_files@.len() - k,
    {
        let sk = &scan.skipped_files[k];
        changes.push(
            FileChange {
                file_id: file_id_from_relative_path(sk.relative_path.as_str()),
                relative_path: sk.relative_path.clone(),
                kind: FileChangeKind::Skipped,
                fingerprint: None,
                previous_sha256: None,
                current_sha256: None,
                reason: Some(sk.reason.clone()),
            },
        );
        k = k + 1;
    }
    assert(scan.skipped_files@.take(scan.skipped_files@.len() as int) == scan.skipped_files@);
    let ghost unsorted = changes@;
    proof {
        let rhs = part2 + scan.skipped_files@.map_values(|s: SkippedFile| skipped_change(s));
        assert forall|q: int| 0 <= q < unsorted.len() implies unsorted[q]@ == rhs[q] by {
            if q >= part2.len() {
                let q2 = q - part2.len();
                assert(changes@[part2.len() + q2]@ == skipped_change(scan.skipped_files@[q2]));
            }
        }
    }
    assert(unsorted.map_values(|c: FileChange| c@) =~= unsorted_changes(*scan, *ctx, stored@));
    let sorted = stable_sort(changes);
    proof {
        let f = |c: FileChange| c@;
        assert forall|c: FileChange| #[trigger] key_of::<FileChange>()(c) == change_view_key()(f(c)) by {}
        lemma_sorted_by_map(unsorted, f, key_of::<FileChange>(), change_view_key());
    }
    IncrementalIndexPlan {
        project_id: Some(ctx.project_id.clone()),
        worktree_id: Some(ctx.worktree_id.clone()),
        scope_id: Some(ctx.scope_id.clone()),
        changes: sorted,
    }
}


/// The number of change views of a kind.
pub open spec fn count_view_kind(changes: Seq<FileChangeView>, kind: FileChangeKind) -> nat
    decreases changes.len(),
{
    if changes.len() == 0 {
        0
    } else {
        count_view_kind(changes.drop_last(), kind) + if changes.last().kind == kind { 1nat } else { 0nat }
    }
}

proof fn lemma_count_views(changes: Seq<FileChange>, kind: FileChangeKind)
    ensures
        count_kind(changes, kind) == count_view_kind(changes.map_values(|c: FileChange| c@), kind),
    decreases changes.len(),
{
    if changes.len() > 0 {
        lemma_count_views(changes.drop_last(), kind);
        assert(changes.map_values(|c: FileChange| c@).drop_last() =~= changes.drop_last().map_values(
            |c: FileChange| c@,
        ));
    }
}

/// Stored records that are active.
pub open spec fn active_records(stored: Seq<FileFingerprintRecord>) -> Seq<FileFingerprintRecord> {
    stored.filter(|r: FileFingerprintRecord| r.status == FileStatus::Active)
}

/// How the scan compares with the records of the scope: the records still active, the
/// files scanned, and how many planned changes there are of each kind.
pub fn status_from_records(
    scan: &ScanResult,
    ctx: &IndexContext,
    stored: &Vec<FileFingerprintRecord>,
) -> (r: RepoStatus)
    ensures
        r.tracked_files == active_records(stored@).len(),
        r.scan_files == scan.files@.len(),
        r.added == count_view_kind(planned_changes(*scan, *ctx, stored@), FileChangeKind::Added),
        r.modified == count_view_kind(planned_changes(*scan, *ctx, stored@), FileChangeKind::Modified),
        r.unchanged == count_view_kind(planned_changes(*scan, *ctx, stored@), FileChangeKind::Unchanged),
        r.deleted == count_view_kind(planned_changes(*scan, *ctx, stored@), FileChangeKind::Deleted),
        r.skipped == count_view_kind(planned_changes(*scan, *ctx, stored@), FileChangeKind::Skipped),
        r.reindex_needed == count_view_kind(
            planned_changes(*scan, *ctx, stored@),
            FileChangeKind::ReindexNeeded,
        ),
{
    let plan = plan_from_records(scan, ctx, stored);
    let stats = plan.stats();
    proof {
        lemma_count_views(plan.changes@, FileChangeKind::Added);
        lemma_count_views(plan.changes@, FileChangeKind::Modified);
        lemma_count_views(plan.changes@, FileChangeKind::Unchanged);
        lemma_count_views(plan.changes@, FileChangeKind::Deleted);
        lemma_count_views(plan.changes@, FileChangeKind::Skipped);
        lemma_count_views(plan.changes@, FileChangeKind::ReindexNeeded);
    }
    let mut active: usize = 0;
    let mut i: usize = 0;
    while i < stored.len()
        invariant
            i <= stored@.len(),
            active == active_records(stored@.take(i as int)).len(),
        decreases stored@.len() - i,
    {
        proof {
            assert(stored@.take(i + 1).drop_last() == stored@.take(i as int));
            reveal_with_fuel(Seq::<_>::filter, 1);
        }
        if stored[i].status == FileStatus::Active {
            active = active + 1;
        }
        i = i + 1;
    }
    assert(stored@.take(stored@.len() as int) == stored@);
    RepoStatus {
        tracked_files: active,
        scan_files: scan.files.len(),
        added: stats.added,
        modified: stats.modified,
        unchanged: stats.unchanged,
        deleted: stats.deleted,
        skipped: stats.skipped,
        reindex_needed: stats.reindex_needed,
    }
}

/// The planned changes that are not `Unchanged`, in plan order.
pub fn changed_from_records(
    scan: &ScanResult,
    ctx: &IndexContext,
    stored: &Vec<FileFingerprintRecord>,
) -> (r: Vec<FileChange>)
    ensures
        r@.map_values(|c: FileChange| c@) == planned_changes(*scan, *ctx, stored@).filter(
            |c: FileChangeView| c.kind != FileChangeKind::Unchanged,
        ),
{
    let plan = plan_from_records(scan, ctx, stored);
    let ghost views = plan.changes@.map_values(|c: FileChange| c@);
    let ghost pred = |c: FileChangeView| c.kind != FileChangeKind::Unchanged;
    let mut r: Vec<FileChange> = Vec::new();
    let mut i: usize = 0;
    while i < plan.changes.len()
        invariant
            i <= plan.changes@.len(),
            views == plan.changes@.map_values(|c: FileChange| c@),
            pred == (|c: FileChangeView| c.kind != FileChangeKind::Unchanged),
            r@.map_values(|c: FileChange| c@) == views.take(i as int).filter(pred),
        decreases plan.changes@.len() - i,
    {
        proof {
            assert(views.take(i + 1).drop_last() == views.take(i as int));
            assert(views.take(i + 1).last() == plan.changes@[i as int]@);
            reveal_with_fuel(Seq::<_>::filter, 1);
        }
        if plan.changes[i].kind != FileChangeKind::Unchanged {
            let c = plan.changes[i].clone();
            r.push(c);
            proof {
                assert(r@.map_values(|c: FileChange| c@) =~= views.take(i as int).filter(pred).push(
                    c@,
                ));
            }
        }
        i = i + 1;
    }
    assert(views.take(views.len() as int) == views);
    r
}

/// The dependencies of `deps` that leave from `file_id`, in order.
pub open spec fn outgoing_of(deps: Seq<FileDependency>, file_id: Seq<char>) -> Seq<FileDependency> {
    deps.filter(|d: FileDependency| d.from_file_id@ == file_id)
}

/// The dependencies of `deps` that arrive at `file_id`, in order.
pub open spec fn incoming_of(deps: Seq<FileDependency>, file_id: Seq<char>) -> Seq<FileDependency> {
    deps.filter(|d: FileDependency| d.to_file_id@ == file_id)
}

/// The dependency has `file_id` at its source end (`outgoing`) or its target end.
pub open spec fn has_end(d: FileDependency, file_id: Seq<char>, outgoing: bool) -> bool {
    if outgoing {
        d.from_file_id@ == file_id
    } else {
        d.to_file_id@ == file_id
    }
}

/// Where the outgoing (or incoming) dependencies of a file come from: an increasing
/// list of the positions of `deps` with that end, every such position once.
proof fn lemma_end_positions(deps: Seq<FileDependency>, file_id: Seq<char>, outgoing: bool) -> (idx: Seq<int>)
    ensures
        ({
            let o = if outgoing {
                outgoing_of(deps, file_id)
            } else {
                incoming_of(deps, file_id)
            };
            &&& idx.len() == o.len()
            &&& forall|k: int|
                0 <= k < idx.len() ==> 0 <= #[trigger] idx[k] < deps.len() && o[k] == deps[idx[k]] && has_end(
                    deps[idx[k]],
                    file_id,
                    outgoing,
                )
            &&& forall|a: int, b: int| 0 <= a < b < idx.len() ==> #[trigger] idx[a] < #[trigger] idx[b]
            &&& forall|j: int|
                0 <= j < deps.len() && has_end(#[trigger] deps[j], file_id, outgoing) ==> exists|k: int|
                    0 <= k < idx.len() && idx[k] == j
        }),
    decreases deps.len(),
{
    reveal_with_fuel(Seq::<_>::filter, 1);
    let o = if outgoing {
        outgoing_of(deps, file_id)
    } else {
        incoming_of(deps, file_id)
    };
    if deps.len() == 0 {
        Seq::<int>::empty()
    } else {
        let pre = deps.drop_last();
        let prev = lemma_end_positions(pre, file_id, outgoing);
        let sub = if outgoing {
            outgoing_of(pre, file_id)
        } else {
            incoming_of(pre, file_id)
        };
        let n = deps.len() - 1;
        assert forall|j: int| 0 <= j < n implies #[trigger] pre[j] == deps[j] by {}
        if has_end(deps.last(), file_id, outgoing) {
            let idx = prev.push(n);
            assert(o == sub.push(deps.last()));
            assert forall|k: int|
                0 <= k < idx.len() implies 0 <= #[trigger] idx[k] < deps.len() && o[k] == deps[idx[k]] && has_end(
                deps[idx[k]],
                file_id,
                outgoing,
            ) by {
                if k < prev.len() {
                    assert(idx[k] == prev[k]);
                    assert(pre[prev[k]] == deps[prev[k]]);
                }
            }
            assert forall|a: int, b: int| 0 <= a < b < idx.len() implies #[trigger] idx[a] < #[trigger] idx[b] by {
                assert(idx[a] == prev[a]);
                if b < prev.len() {
                    assert(idx[b] == prev[b]);
                }
            }
            assert forall|j: int| 0 <= j < deps.len() && has_end(#[trigger] deps[j], file_id, outgoing) implies exists|
                k: int,
            | 0 <= k < idx.len() && idx[k] == j by {
                if j < n {
                    assert(has_end(pre[j], file_id, outgoing));
                    let k = choose|k: int| 0 <= k < prev.len() && prev[k] == j;
                    assert(idx[k] == prev[k]);
                } else {
                    assert(idx[prev.len() as int] == n);
                }
            }
            idx
        } else {
            assert(o == sub);
            assert forall|k: int|
                0 <= k < prev.len() implies 0 <= #[trigger] prev[k] < deps.len() && o[k] == deps[prev[k]] && has_end(
                deps[prev[k]],
                file_id,
                outgoing,
            ) by {
                assert(pre[prev[k]] == deps[prev[k]]);
            }
            assert forall|j: int| 0 <= j < deps.len() && has_end(#[trigger] deps[j], file_id, outgoing) implies exists|
                k: int,
            | 0 <= k < prev.len() && prev[k] == j by {
                assert(j < n);
                assert(has_end(pre[j], file_id, outgoing));
            }
            prev
        }
    }
}

/// The outgoing dependencies of a file are exactly the dependencies that leave from
/// it, each once and in the order given: the returned positions of `deps`, increasing,
/// are those of the dependencies with that source.
pub proof fn law_outgoing_of(deps: Seq<FileDependency>, file_id: Seq<char>) -> (idx: Seq<int>)
    ensures
        idx.len() == outgoing_of(deps, file_id).len(),
        forall|k: int|
            0 <= k < idx.len() ==> 0 <= #[trigger] idx[k] < deps.len() && outgoing_of(deps, file_id)[k] == deps[idx[k]]
                && deps[idx[k]].from_file_id@ == file_id,
        forall|a: int, b: int| 0 <= a < b < idx.len() ==> #[trigger] idx[a] < #[trigger] idx[b],
        forall|j: int|
            0 <= j < deps.len() && (#[trigger] deps[j]).from_file_id@ == file_id ==> exists|k: int|
                0 <= k < idx.len() && idx[k] == j,
{
    let idx = lemma_end_positions(deps, file_id, true);
    assert forall|j: int| 0 <= j < deps.len() && (#[trigger] deps[j]).from_file_id@ == file_id implies exists|k: int|
        0 <= k < idx.len() && idx[k] == j by {
        assert(has_end(deps[j], file_id, true));
    }
    idx
}

/// The incoming dependencies of a file are exactly the dependencies that arrive at it,
/// each once and in the order given: the returned positions of `deps`, increasing, are
/// those of the dependencies with that target.
pub proof fn law_incoming_of(deps: Seq<FileDependency>, file_id: Seq<char>) -> (idx: Seq<int>)
    ensures
        idx.len() == incoming_of(deps, file_id).len(),
        forall|k: int|
            0 <= k < idx.len() ==> 0 <= #[trigger] idx[k] < deps.len() && incoming_of(deps, file_id)[k] == deps[idx[k]]
                && deps[idx[k]].to_file_id@ == file_id,
        forall|a: int, b: int| 0 <= a < b < idx.len() ==> #[trigger] idx[a] < #[trigger] idx[b],
        forall|j: int|
            0 <= j < deps.len() && (#[trigger] deps[j]).to_file_id@ == file_id ==> exists|k: int|
                0 <= k < idx.len() && idx[k] == j,
{
    let idx = lemma_end_positions(deps, file_id, false);
    assert forall|j: int| 0 <= j < deps.len() && (#[trigger] deps[j]).to_file_id@ == file_id implies exists|k: int|
        0 <= k < idx.len() && idx[k] == j by {
        assert(has_end(deps[j], file_id, false));
    }
    idx
}

fn deps_with_end(deps: &Vec<FileDependency>, file_id: &FileId, outgoing: bool) -> (r: Vec<FileDependency>)
    ensures
        r@.map_values(|d: FileDependency| d@) == (if outgoing {
            outgoing_of(deps@, file_id@)
        } else {
            incoming_of(deps@, file_id@)
        }).map_values(|d: FileDependency| d@),
{
    let ghost want = if outgoing {
        outgoing_of(deps@, file_id@)
    } else {
        incoming_of(deps@, file_id@)
    };
    let ghost pred = if outgoing {
        |d: FileDependency| d.from_file_id@ == file_id@
    } else {
        |d: FileDependency| d.to_file_id@ == file_id@
    };
    assert(want == deps@.filter(pred));
    let mut r: Vec<FileDependency> = Vec::new();
    let mut i: usize = 0;
    while i < deps.len()
        invariant
            i <= deps@.len(),
            pred == (if outgoing {
                |d: FileDependency| d.from_file_id@ == file_id@
            } else {
                |d: FileDependency| d.to_file_id@ == file_id@
            }),
            r@.map_values(|d: FileDependency| d@) == deps@.take(i as int).filter(pred).map_values(
                |d: FileDependency| d@,
            ),
        decreases deps@.len() - i,
    {
        proof {
            assert(deps@.take(i + 1).drop_last() == deps@.take(i as int));
            assert(deps@.take(i + 1).last() == deps@[i as int]);
            reveal_with_fuel(Seq::<_>::filter, 1);
        }
        let d = &deps[i];
        let keep = if outgoing {
            d.from_file_id.0 == file_id.0
        } else {
            d.to_file_id.0 == file_id.0
        };
        assert(keep == pred(deps@[i as int]));
        if keep {
            let c = d.clone();
            let ghost old_r = r@;
            r.push(c);
            proof {
                assert(deps@.take(i + 1).filter(pred) == deps@.take(i as int).filter(pred).push(deps@[i as int]));
                assert(r@.map_values(|d: FileDependency| d@) =~= old_r.map_values(|d: FileDependency| d@).push(c@));
                assert(deps@.take(i as int).filter(pred).push(deps@[i as int]).map_values(|d: FileDependency| d@)
                    =~= deps@.take(i as int).filter(pred).map_values(|d: FileDependency| d@).push(deps@[i as int]@));
                assert(r@.map_values(|d: FileDependency| d@) =~= deps@.take(i + 1).filter(pred).map_values(
                    |d: FileDependency| d@,
                ));
            }
        } else {
            assert(deps@.take(i + 1).filter(pred) == deps@.take(i as int).filter(pred));
        }
        i = i + 1;
    }
    assert(deps@.take(deps@.len() as int) == deps@);
    r
}

/// The neighborhood of a file among the dependencies of its scope: the dependencies
/// that leave from it and those that arrive at it, each in the order given.
pub fn neighborhood_from(file_id: FileId, relative_path: String, deps: &Vec<FileDependency>) -> (r:
    FileNeighborhood)
    ensures
        r.file_id@ == file_id@,
        r.relative_path@ == relative_path@,
        r.outgoing@.map_values(|d: FileDependency| d@) == outgoing_of(deps@, file_id@).map_values(
            |d: FileDependency| d@,
        ),
        r.incoming@.map_values(|d: FileDependency| d@) == incoming_of(deps@, file_id@).map_values(
            |d: FileDependency| d@,
        ),
{
    let outgoing = deps_with_end(deps, &file_id, true);
    let incoming = deps_with_end(deps, &file_id, false);
    FileNeighborhood { file_id, relative_path, outgoing, incoming }
}

/// The version of the store's graph schema.
pub const STORE_SCHEMA_VERSION: &'static str = "phase3-kuzu-v1";

/// A graph store kept in a database directory.
#[derive(Debug, Clone)]
pub struct KuzuGraphStore {
    db_path: String,
}

impl KuzuGraphStore {
    /// The path of the database.
    pub closed spec fn path(&self) -> Seq<char> {
        self.db_path@
    }

    /// A store kept at `path`; nothing is opened yet.
    pub fn new(path: &str) -> (r: Self)
        ensures
            r.path() == path@,
    {
        KuzuGraphStore { db_path: owned(path) }
    }

    /// The path of the database.
    pub fn db_path(&self) -> (r: &str)
        ensures
            r@ == self.path(),
    {
        self.db_path.as_str()
    }
}

/// How one character stands in a quoted literal: a backslash or a quote gets a
/// backslash before it.
pub open spec fn escape_char(c: char) -> Seq<char> {
    if c == '\\' || c == '\'' {
        seq!['\\', c]
    } else {
        seq![c]
    }
}

/// The characters of a value with backslashes and quotes escaped.
pub open spec fn escaped(s: Seq<char>) -> Seq<char>
    decreases s.len(),
{
    if s.len() == 0 {
        Seq::empty()
    } else {
        escaped(s.drop_last()) + escape_char(s.last())
    }
}

/// A value as a single-quoted query literal.
pub open spec fn quoted(s: Seq<char>) -> Seq<char> {
    seq!['\''] + escaped(s) + seq!['\'']
}

/// The value as a single-quoted query literal, with backslashes and quotes escaped.
pub fn lit(value: &str) -> (r: String)
    ensures
        r@ == quoted(value@),
{
    let cs = chars_of(value);
    let mut r = String::new();
    push_char(&mut r, '\'');
    let mut i: usize = 0;
    while i < cs.len()
        invariant
            i <= cs@.len(),
            cs@ == value@,
            r@ == seq!['\''] + escaped(cs@.take(i as int)),
        decreases cs@.len() - i,
    {
        let c = cs[i];
        proof {
            assert(cs@.take(i + 1).drop_last() == cs@.take(i as int));
            assert(cs@.take(i + 1).last() == c);
        }
        if c == '\\' || c == '\'' {
            push_char(&mut r, '\\');
        }
        push_char(&mut r, c);
        assert(r@ =~= seq!['\''] + escaped(cs@.take(i + 1)));
        i = i + 1;
    }
    push_char(&mut r, '\'');
    assert(cs@.take(cs@.len() as int) == cs@);
    assert(r@ =~= quoted(value@));
    r
}

proof fn lemma_escaped_injective(a: Seq<char>, b: Seq<char>)
    requires
        escaped(a) == escaped(b),
    ensures
        a == b,
    decreases a.len() + b.len(),
{
    if a.len() == 0 && b.len() == 0 {
        assert(a =~= b);
    } else if a.len() == 0 {
        assert(escaped(b).len() > 0);
        assert(escaped(b).len() >= escape_char(b.last()).len());
    } else if b.len() == 0 {
        assert(escaped(a).len() >= escape_char(a.last()).len());
    } else {
        let ea = escaped(a.drop_last());
        let eb = escaped(b.drop_last());
        let ca = escape_char(a.last());
        let cb = escape_char(b.last());
        let t = escaped(a);
        assert(t == ea + ca);
        assert(t == eb + cb);
        assert(t.last() == a.last());
        assert(t.last() == b.last());
        assert(ca == cb);
        assert(ea =~= t.subrange(0, t.len() - ca.len()));
        assert(eb =~= t.subrange(0, t.len() - cb.len()));
        lemma_escaped_injective(a.drop_last(), b.drop_last());
        assert(a =~= a.drop_last().push(a.last()));
        assert(b =~= b.drop_last().push(b.last()));
    }
}

/// Distinct values give distinct literals.
pub proof fn law_lit_injective(a: Seq<char>, b: Seq<char>)
    requires
        quoted(a) == quoted(b),
    ensures
        a == b,
{
    let qa = quoted(a);
    assert(escaped(a) =~= qa.subrange(1, qa.len() - 1));
    assert(escaped(b) =~= quoted(b).subrange(1, quoted(b).len() - 1));
    lemma_escaped_injective(a, b);
}

/// The current time as seconds since the epoch, in decimal; 0 where the clock is before
/// the epoch.
pub fn now_string() -> (r: String)
    ensures
        exists|n: u64| r@ == crate::text::decimal(n as nat),
{
    let n = match crate::graph::clock_seconds() {
        Some(n) => n,
        None => 0,
    };
    crate::text::decimal_string(n)
}

proof fn lemma_last_record_index(stored: Seq<FileFingerprintRecord>, id: Seq<char>)
    ensures
        -1 <= last_record_index(stored, id) < stored.len(),
        last_record_index(stored, id) >= 0 ==> stored[last_record_index(stored, id)].file_id@ == id,
    decreases stored.len(),
{
    if stored.len() > 0 && stored.last().file_id@ != id {
        lemma_last_record_index(stored.drop_last(), id);
    }
}

/// The store holds the scanned file as it is: the last record with its identifier is
/// active, with its hash and the context's versions.
pub open spec fn record_matches(f: CodeFile, stored: Seq<FileFingerprintRecord>, ctx: IndexContext) -> bool {
    let k = last_record_index(stored, f.file_id@);
    &&& k >= 0
    &&& stored[k].status == FileStatus::Active
    &&& stored[k].fingerprint.sha256@ == f.fingerprint.sha256@
    &&& stored[k].parser_version@ == ctx.parser_version@
    &&& stored[k].schema_version@ == ctx.schema_version@
    &&& stored[k].chunker_version@ == ctx.chunker_version@
}

/// A plan has one change per scanned file, one per active record the scan lacks, and
/// one per skipped file.
pub proof fn law_plan_size(scan: ScanResult, ctx: IndexContext, stored: Seq<FileFingerprintRecord>)
    ensures
        planned_changes(scan, ctx, stored).len() == scan.files@.len() + stored.filter(gone_from_scan(scan.files@)).len()
            + scan.skipped_files@.len(),
{
    lemma_sorted_by_len(unsorted_changes(scan, ctx, stored), change_view_key());
}

/// Planning again against what an index of the same scan stored finds nothing to do:
/// where every scanned file's record matches it, every active record is scanned and
/// nothing was skipped, each planned change is `Unchanged`.
pub proof fn law_plan_unchanged(scan: ScanResult, ctx: IndexContext, stored: Seq<FileFingerprintRecord>)
    requires
        scan.skipped_files@.len() == 0,
        forall|i: int| 0 <= i < scan.files@.len() ==> #[trigger] record_matches(scan.files@[i], stored, ctx),
        forall|k: int|
            0 <= k < stored.len() && (#[trigger] stored[k]).status == FileStatus::Active ==> scanned_has_id(
                scan.files@,
                stored[k].file_id@,
            ),
    ensures
        forall|c: FileChangeView| planned_changes(scan, ctx, stored).contains(c) ==> c.kind == FileChangeKind::Unchanged,
{
    broadcast use vstd::seq_lib::group_to_multiset_ensures;

    let files = scan.files@;
    let pred = gone_from_scan(files);
    let a = files.map_values(|f: CodeFile| change_for_file(f, stored, ctx));
    assert(stored.all(|x: FileFingerprintRecord| !pred(x))) by {
        assert forall|k: int| 0 <= k < stored.len() implies !pred(stored[k]) by {
            if stored[k].status == FileStatus::Active {
                assert(scanned_has_id(files, stored[k].file_id@));
            }
        }
    }
    stored.lemma_all_neg_filter_empty(pred);
    let u = unsorted_changes(scan, ctx, stored);
    assert(u =~= a) by {
        assert(stored.filter(pred).map_values(|r: FileFingerprintRecord| deleted_change(r)).len() == 0);
        assert(scan.skipped_files@.map_values(|k: SkippedFile| skipped_change(k)).len() == 0);
    }
    assert forall|i: int| 0 <= i < a.len() implies (#[trigger] a[i]).kind == FileChangeKind::Unchanged by {
        let f = files[i];
        assert(record_matches(f, stored, ctx));
        lemma_last_record_index(stored, f.file_id@);
    }
    lemma_sorted_by_to_multiset(u, change_view_key());
    assert forall|c: FileChangeView| planned_changes(scan, ctx, stored).contains(c) implies c.kind
        == FileChangeKind::Unchanged by {
        let p = planned_changes(scan, ctx, stored);
        assert(p.to_multiset().count(c) > 0);
        assert(u.contains(c));
        let i = choose|i: int| 0 <= i < u.len() && u[i] == c;
        assert(a[i] == c);
    }
}

/// Where the scanned files have distinct identifiers and no skipped file shares the
/// identifier of scanned file `i`, the plan holds exactly one change with that
/// identifier: the change classified for the file (added, modified, reindex-needed or
/// unchanged, see `scanned_change`).
pub proof fn law_plan_one_change_per_file(
    scan: ScanResult,
    ctx: IndexContext,
    stored: Seq<FileFingerprintRecord>,
    i: int,
)
    requires
        0 <= i < scan.files@.len(),
        forall|a: int, b: int|
            0 <= a < b < scan.files@.len() ==> (#[trigger] scan.files@[a]).file_id@ != (#[trigger] scan.files@[b]).file_id@,
        forall|k: int|
            0 <= k < scan.skipped_files@.len() ==> stable_hash_spec(seq![(#[trigger] scan.skipped_files@[k]).relative_path@])
                != scan.files@[i].file_id@,
    ensures
        ({
            let p = planned_changes(scan, ctx, stored);
            let c = change_for_file(scan.files@[i], stored, ctx);
            &&& c.file_id == scan.files@[i].file_id@
            &&& exists|q: int| 0 <= q < p.len() && p[q] == c
            &&& forall|q: int, r: int|
                0 <= q < p.len() && 0 <= r < p.len() && (#[trigger] p[q]).file_id == scan.files@[i].file_id@
                    && (#[trigger] p[r]).file_id == scan.files@[i].file_id@ ==> q == r
        }),
{
    broadcast use vstd::seq_lib::group_to_multiset_ensures;

    let files = scan.files@;
    let fid = files[i].file_id@;
    let u = unsorted_changes(scan, ctx, stored);
    let p = planned_changes(scan, ctx, stored);
    let c = change_for_file(files[i], stored, ctx);
    let pred = gone_from_scan(files);
    let a = files.map_values(|f: CodeFile| change_for_file(f, stored, ctx));
    let b = stored.filter(pred).map_values(|r: FileFingerprintRecord| deleted_change(r));
    let d = scan.skipped_files@.map_values(|k: SkippedFile| skipped_change(k));
    assert(u == a + b + d);
    stored.filter_lemma(pred);
    // only position `i` of the unsorted changes carries the identifier
    assert forall|t: int| 0 <= t < u.len() && (#[trigger] u[t]).file_id == fid implies t == i by {
        if t < a.len() {
            assert(u[t] == a[t]);
            assert(a[t].file_id == files[t].file_id@);
            if t != i {
                if t < i {
                    assert(files[t].file_id@ != files[i].file_id@);
                } else {
                    assert(files[i].file_id@ != files[t].file_id@);
                }
            }
        } else if t < a.len() + b.len() {
            let r = stored.filter(pred)[t - a.len()];
            assert(u[t] == b[t - a.len()]);
            assert(pred(r));
            assert(scanned_has_id(files, fid));
        } else {
            assert(u[t] == d[t - a.len() - b.len()]);
        }
    }
    assert(u[i] == c);
    lemma_sorted_by_to_multiset(u, change_view_key());
    assert(u.contains(c));
    assert(p.to_multiset().count(c) > 0);
    assert(p.contains(c));
    // every change in the plan with the identifier is `c`
    assert forall|q: int| 0 <= q < p.len() && (#[trigger] p[q]).file_id == fid implies p[q] == c by {
        assert(p.contains(p[q]));
        assert(u.to_multiset().count(p[q]) > 0);
        assert(u.contains(p[q]));
        let t = choose|t: int| 0 <= t < u.len() && u[t] == p[q];
        assert(u[t].file_id == fid);
    }
    // `c` occurs once among the unsorted changes, so once in the plan
    let u2 = u.remove(i);
    assert(u2.to_multiset() =~= u.to_multiset().remove(c));
    assert(!u2.contains(c)) by {
        if u2.contains(c) {
            let t = choose|t: int| 0 <= t < u2.len() && u2[t] == c;
            if t < i {
                assert(u[t] == c);
            } else {
                assert(u[t + 1] == c);
            }
        }
    }
    assert(u2.to_multiset().count(c) == 0);
    assert(u.to_multiset().count(c) > 0);
    assert(u.to_multiset().remove(c).count(c) == u.to_multiset().count(c) - 1);
    assert(u.to_multiset().count(c) == 1);
    assert forall|q: int, r: int|
        0 <= q < p.len() && 0 <= r < p.len() && (#[trigger] p[q]).file_id == fid && (#[trigger] p[r]).file_id
            == fid implies q == r by {
        if q != r {
            assert(p[q] == c && p[r] == c);
            let p2 = p.remove(q);
            assert(p2.to_multiset() =~= p.to_multiset().remove(c));
            if r < q {
                assert(p2[r] == c);
            } else {
                assert(p2[r - 1] == c);
            }
            assert(p2.contains(c));
            assert(p2.to_multiset().count(c) > 0);
            assert(p.to_multiset().count(c) == 1);
            assert(p.to_multiset().remove(c).count(c) == 0);
        }
    }
}

/// The changes of a plan come in path order: no change's path comes before the path
/// of an earlier change.
pub proof fn law_plan_in_path_order(scan: ScanResult, ctx: IndexContext, stored: Seq<FileFingerprintRecord>)
    ensures
        forall|i: int, j: int|
            0 <= i < j < planned_changes(scan, ctx, stored).len() ==> !path_lt(
                #[trigger] planned_changes(scan, ctx, stored)[j].relative_path,
                #[trigger] planned_changes(scan, ctx, stored)[i].relative_path,
            ),
{
    let p = planned_changes(scan, ctx, stored);
    lemma_sorted_by_in_order(unsorted_changes(scan, ctx, stored), change_view_key());
    assert forall|i: int, j: int| 0 <= i < j < p.len() implies !path_lt(
        #[trigger] p[j].relative_path,
        #[trigger] p[i].relative_path,
    ) by {
        assert(!key_before(change_view_key()(p[j]), change_view_key()(p[i])));
    }
}

} // verus!
