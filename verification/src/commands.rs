use vstd::prelude::*;
use crate::config::RepoScryerConfig;
use crate::hash::stable_hash_spec;
use crate::ids::{project_id_from_repo, repo_id_from_path, scope_id_from_path, worktree_id_from_path};
use crate::model::{CodeFile, FileChange, FileChangeKind, IndexContext, ScanResult};
use crate::parser::{CHUNKER_VERSION, PARSER_VERSION};
use crate::paths::{join, join_to, path_key, path_key_of};
use crate::store::{KuzuGraphStore, STORE_SCHEMA_VERSION};
use crate::text::{chars_of, lines, owned, split_lines, string_of, trim, trim_bounds};

verus! {

/// The identity and versions under which the repository at `root` is indexed.
pub fn index_context(root: &str) -> (r: IndexContext)
    ensures
        r.repo_id@ == stable_hash_spec(seq![root@]),
        r.project_id@ == stable_hash_spec(seq![r.repo_id@, "project"@]),
        r.worktree_id@ == stable_hash_spec(seq![root@, "worktree"@]),
        r.scope_id@ == stable_hash_spec(seq![root@, "scope"@]),
        r.repo_root@ == root@,
        r.parser_version@ == PARSER_VERSION@,
        r.schema_version@ == STORE_SCHEMA_VERSION@,
        r.chunker_version@ == CHUNKER_VERSION@,
{
    let repo_id = repo_id_from_path(root);
    let project_id = project_id_from_repo(&repo_id);
    IndexContext {
        repo_id,
        project_id,
        worktree_id: worktree_id_from_path(root),
        scope_id: scope_id_from_path(root),
        repo_root: owned(root),
        parser_version: owned(PARSER_VERSION),
        schema_version: owned(STORE_SCHEMA_VERSION),
        chunker_version: owned(CHUNKER_VERSION),
    }
}

/// The store of a repository: `kuzu/db` under the output directory, under the root.
pub fn store_for_root(root: &str, config: &RepoScryerConfig) -> (r: KuzuGraphStore)
    ensures
        r.path() == join(join(join(root@, config.output_dir@), "kuzu"@), "db"@),
{
    let mut p = owned(root);
    join_to(&mut p, config.output_dir.as_str());
    join_to(&mut p, "kuzu");
    join_to(&mut p, "db");
    KuzuGraphStore::new(p.as_str())
}

/// A path with each `\` replaced by `/`, as paths are compared.
pub fn normalize_relative_path(path: &str) -> (r: String)
    ensures
        r@ == path_key(path@),
{
    path_key_of(path)
}

/// The index of the first line that is not blank, or -1.
pub open spec fn first_nonblank(ls: Seq<Seq<char>>, i: int) -> int
    decreases ls.len() - i,
{
    if i < 0 || i >= ls.len() {
        -1
    } else if trim(ls[i]).len() > 0 {
        i
    } else {
        first_nonblank(ls, i + 1)
    }
}

/// The first line of a text that is not blank.
pub fn first_nonempty_line(content: &str) -> (r: Option<String>)
    ensures
        match r {
            Some(l) => first_nonblank(lines(content@), 0) >= 0 && l@ == lines(content@)[first_nonblank(
                lines(content@),
                0,
            )],
            None => first_nonblank(lines(content@), 0) == -1,
        },
{
    let cs = chars_of(content);
    let ls = split_lines(&cs);
    let ghost lv = lines(content@);
    let mut i: usize = 0;
    while i < ls.len()
        invariant
            i <= ls@.len(),
            ls@.len() == lv.len(),
            lv == lines(content@),
            forall|k: int| 0 <= k < ls@.len() ==> #[trigger] ls@[k]@ == lv[k],
            first_nonblank(lv, 0) == first_nonblank(lv, i as int),
        decreases ls@.len() - i,
    {
        let (lo, hi) = trim_bounds(&ls[i], 0, ls[i].len());
        assert(ls@[i as int]@.subrange(0, ls@[i as int]@.len() as int) =~= lv[i as int]);
        if lo < hi {
            let l = string_of(&ls[i], 0, ls[i].len());
            return Some(l);
        }
        i = i + 1;
    }
    None
}

/// The index of the first scanned file whose normalized path is the given one's.
pub open spec fn scanned_index(files: Seq<CodeFile>, key: Seq<char>, i: int) -> int
    decreases files.len() - i,
{
    if i < 0 || i >= files.len() {
        -1
    } else if path_key(files[i].relative_path@) == key {
        i
    } else {
        scanned_index(files, key, i + 1)
    }
}

/// The scanned file that a requested path names, compared after normalization.
pub fn find_scanned_file(scan: &ScanResult, file: &str) -> (r: Option<usize>)
    ensures
        match r {
            Some(i) => scanned_index(scan.files@, path_key(file@), 0) == i && i < scan.files@.len(),
            None => scanned_index(scan.files@, path_key(file@), 0) == -1,
        },
{
    let requested = normalize_relative_path(file);
    let mut i: usize = 0;
    while i < scan.files.len()
        invariant
            i <= scan.files@.len(),
            requested@ == path_key(file@),
            scanned_index(scan.files@, path_key(file@), 0) == scanned_index(scan.files@, path_key(file@), i as int),
        decreases scan.files@.len() - i,
    {
        let candidate = normalize_relative_path(scan.files[i].relative_path.as_str());
        if candidate == requested {
            return Some(i);
        }
        i = i + 1;
    }
    None
}

/// The last scanned file with an identifier, or -1 (a later file with the same
/// identifier replaces an earlier one).
pub open spec fn last_file_with_id(files: Seq<CodeFile>, id: Seq<char>) -> int
    decreases files.len(),
{
    if files.len() == 0 {
        -1
    } else if files.last().file_id@ == id {
        files.len() - 1
    } else {
        last_file_with_id(files.drop_last(), id)
    }
}

/// What applying a planned change asks for.
#[derive(Debug, Clone, Copy, PartialEq, Eq, Structural)]
pub enum ChangeAction {
    /// Parse the scanned file at this index and replace its stored subgraph.
    Reparse(usize),
    /// Mark the file deleted in the store.
    MarkDeleted,
    /// Nothing to do.
    Keep,
    /// The scanned file of the change is missing.
    Missing,
}

/// What applying a planned change asks for: added, modified and reindex-needed files
/// are parsed again (the scanned file with the change's identifier), deleted files are
/// marked deleted, the rest is kept.
pub fn change_action(change: &FileChange, scan: &ScanResult) -> (r: ChangeAction)
    ensures
        r == (match change.kind {
            FileChangeKind::Added | FileChangeKind::Modified | FileChangeKind::ReindexNeeded => {
                let i = last_file_with_id(scan.files@, change.file_id@);
                if i >= 0 {
                    ChangeAction::Reparse(i as usize)
                } else {
                    ChangeAction::Missing
                }
            },
            FileChangeKind::Deleted => ChangeAction::MarkDeleted,
            FileChangeKind::Unchanged | FileChangeKind::Skipped => ChangeAction::Keep,
        }),
{
    match change.kind {
        FileChangeKind::Added | FileChangeKind::Modified | FileChangeKind::ReindexNeeded => {
            let mut i = scan.files.len();
            assert(scan.files@.take(i as int) =~= scan.files@);
            while i > 0
                invariant
                    i <= scan.files@.len(),
                    change.kind == FileChangeKind::Added || change.kind == FileChangeKind::Modified
                        || change.kind == FileChangeKind::ReindexNeeded,
                    last_file_with_id(scan.files@, change.file_id@) == last_file_with_id(
                        scan.files@.take(i as int),
                        change.file_id@,
                    ),
                decreases i,
            {
                proof {
                    assert(scan.files@.take(i as int).drop_last() =~= scan.files@.take(i - 1));
                    assert(scan.files@.take(i as int).last() == scan.files@[i - 1]);
                }
                if scan.files[i - 1].file_id.0 == change.file_id.0 {
                    return ChangeAction::Reparse(i - 1);
                }
                i = i - 1;
            }
            ChangeAction::Missing
        },
        FileChangeKind::Deleted => ChangeAction::MarkDeleted,
        FileChangeKind::Unchanged | FileChangeKind::Skipped => ChangeAction::Keep,
    }
}

} // verus!
