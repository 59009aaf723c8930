use vstd::prelude::*;
use crate::ids::FileId;
use crate::model::Language;
use crate::paths::{file_stem_of, file_stem_or_empty, join, join_to, parent, parent_of, path_key, path_key_of};
use crate::text::{
    at, chars_of, has_at, push_chars, push_str, string_of, trim, trim_bounds, trim_by,
};

verus! {

/// A file of the store as the import resolver reads it.
#[derive(Debug, PartialEq, Eq)]
pub struct StoredFile {
    pub file_id: FileId,
    pub relative_path: String,
    pub language: Language,
}

/// The paths where a Rust module declared in `from_path` may live, in the order they
/// are tried: beside a non-root module file first, then beside the file, then under
/// `src`.
pub open spec fn module_candidates(from_path: Seq<char>, module: Seq<char>) -> Seq<Seq<char>> {
    let dir = parent(from_path);
    let stem = file_stem_or_empty(from_path);
    let flat = module + ".rs"@;
    let tail = seq![
        join(dir, flat),
        join(join(dir, module), "mod.rs"@),
        join("src"@, flat),
        join(join("src"@, module), "mod.rs"@),
    ];
    if stem == "main"@ || stem == "lib"@ || stem == "mod"@ || stem.len() == 0 {
        tail
    } else {
        seq![join(join(dir, stem), flat), join(join(join(dir, stem), module), "mod.rs"@)] + tail
    }
}

fn string_from(v: &Vec<char>) -> (r: String)
    ensures
        r@ == v@,
{
    string_of(v, 0, v.len())
}

fn module_file(module: &str) -> (r: String)
    ensures
        r@ == module@ + ".rs"@,
{
    let mut r = String::from_str(module);
    push_str(&mut r, ".rs");
    r
}

fn stem_is_root(stem: &Vec<char>) -> (r: bool)
    ensures
        r == (stem@ == "main"@ || stem@ == "lib"@ || stem@ == "mod"@ || stem@.len() == 0),
{
    if stem.len() == 0 {
        return true;
    }
    let a = at(stem, 0, "main") && stem.len() == 4;
    let b = at(stem, 0, "lib") && stem.len() == 3;
    let c = at(stem, 0, "mod") && stem.len() == 3;
    proof {
        reveal_strlit("main");
        reveal_strlit("lib");
        reveal_strlit("mod");
        assert(a == (stem@ == "main"@)) by {
            if stem@ == "main"@ {
                assert(stem@.subrange(0, 4) =~= stem@);
            }
            if a {
                assert(stem@.subrange(0, 4) =~= stem@);
            }
        }
        assert(b == (stem@ == "lib"@)) by {
            if stem@ == "lib"@ || b {
                assert(stem@.subrange(0, 3) =~= stem@);
            }
        }
        assert(c == (stem@ == "mod"@)) by {
            if stem@ == "mod"@ || c {
                assert(stem@.subrange(0, 3) =~= stem@);
            }
        }
    }
    a || b || c
}

/// The paths where a Rust module declared in `from_path` may live, in the order they
/// are tried.
pub fn rust_module_candidates(from_path: &str, module: &str) -> (r: Vec<String>)
    ensures
        r@.map_values(|s: String| s@) == module_candidates(from_path@, module@),
{
    let p = chars_of(from_path);
    let dir = string_from(&parent_of(&p));
    let stem_chars = file_stem_of(&p);
    let stem = string_from(&stem_chars);
    let flat = module_file(module);
    let mut r: Vec<String> = Vec::new();
    if !stem_is_root(&stem_chars) {
        let mut a = dir.clone();
        join_to(&mut a, stem.as_str());
        let mut b = a.clone();
        join_to(&mut a, flat.as_str());
        join_to(&mut b, module);
        join_to(&mut b, "mod.rs");
        r.push(a);
        r.push(b);
    }
    let mut c = dir.clone();
    join_to(&mut c, flat.as_str());
    let mut d = dir.clone();
    join_to(&mut d, module);
    join_to(&mut d, "mod.rs");
    let mut e = String::from_str("src");
    join_to(&mut e, flat.as_str());
    let mut f = String::from_str("src");
    join_to(&mut f, module);
    join_to(&mut f, "mod.rs");
    r.push(c);
    r.push(d);
    r.push(e);
    r.push(f);
    proof {
        assert(r@.map_values(|s: String| s@) =~= module_candidates(from_path@, module@));
    }
    r
}


/// A character is neither ASCII alphanumeric nor `_`.
pub open spec fn not_ident_char(c: char) -> bool {
    !(('0' <= c && c <= '9') || ('A' <= c && c <= 'Z') || ('a' <= c && c <= 'z') || c == '_')
}

pub open spec fn not_ident_pred() -> spec_fn(char) -> bool {
    |c: char| not_ident_char(c)
}

/// The index of the first `::` at or after `i`, or the end.
pub open spec fn first_double_colon(s: Seq<char>, i: int) -> int
    decreases s.len() - i,
{
    if i >= s.len() {
        s.len() as int
    } else if has_at(s, i, "::"@) {
        i
    } else {
        first_double_colon(s, i + 1)
    }
}

pub proof fn lemma_first_double_colon(s: Seq<char>, i: int)
    requires
        0 <= i <= s.len(),
    ensures
        i <= first_double_colon(s, i) <= s.len(),
    decreases s.len() - i,
{
    if i < s.len() && !has_at(s, i, "::"@) {
        lemma_first_double_colon(s, i + 1);
    }
}

/// A target without one leading `crate::`, `self::` or `super::`.
pub open spec fn strip_path_prefix(t: Seq<char>) -> Seq<char> {
    if has_at(t, 0, "crate::"@) {
        t.skip(7)
    } else if has_at(t, 0, "self::"@) {
        t.skip(6)
    } else if has_at(t, 0, "super::"@) {
        t.skip(7)
    } else {
        t
    }
}

/// The module that an import names: the trimmed target without its path prefix, up to
/// the first `::`, with non-identifier characters trimmed from both ends.
pub open spec fn import_module_name(raw: Seq<char>) -> Seq<char> {
    let t = strip_path_prefix(trim(raw));
    trim_by(t.take(first_double_colon(t, 0)), not_ident_pred())
}

/// The index of the last file whose path key is `key`, or -1.
pub open spec fn last_file_with_key(files: Seq<StoredFile>, key: Seq<char>) -> int
    decreases files.len(),
{
    if files.len() == 0 {
        -1
    } else if path_key(files.last().relative_path@) == key {
        files.len() - 1
    } else {
        last_file_with_key(files.drop_last(), key)
    }
}

pub proof fn lemma_last_file_with_key(files: Seq<StoredFile>, key: Seq<char>)
    ensures
        -1 <= last_file_with_key(files, key) < files.len(),
        last_file_with_key(files, key) >= 0 ==> path_key(
            files[last_file_with_key(files, key)].relative_path@,
        ) == key,
    decreases files.len(),
{
    if files.len() > 0 && path_key(files.last().relative_path@) != key {
        lemma_last_file_with_key(files.drop_last(), key);
    }
}

/// The file that the first candidate path with a stored file names, or -1.
pub open spec fn first_candidate_file(cands: Seq<Seq<char>>, files: Seq<StoredFile>) -> int
    decreases cands.len(),
{
    if cands.len() == 0 {
        -1
    } else {
        let i = last_file_with_key(files, path_key(cands[0]));
        if i >= 0 {
            i
        } else {
            first_candidate_file(cands.drop_first(), files)
        }
    }
}

pub proof fn lemma_first_candidate_file(cands: Seq<Seq<char>>, files: Seq<StoredFile>)
    ensures
        -1 <= first_candidate_file(cands, files) < files.len(),
    decreases cands.len(),
{
    if cands.len() > 0 {
        lemma_last_file_with_key(files, path_key(cands[0]));
        lemma_first_candidate_file(cands.drop_first(), files);
    }
}

/// The module name is one of the standard library roots.
pub open spec fn is_std_root(m: Seq<char>) -> bool {
    m == "std"@ || m == "core"@ || m == "alloc"@
}

/// The index of the stored file that an import of `from` resolves to, or -1: only
/// Rust files resolve, a module name that is empty or a standard library root never
/// does, and the candidate paths are tried in order.
pub open spec fn resolve_import(from: StoredFile, raw: Seq<char>, files: Seq<StoredFile>) -> int {
    if from.language != Language::Rust {
        -1
    } else {
        let m = import_module_name(raw);
        if m.len() == 0 || is_std_root(m) {
            -1
        } else {
            first_candidate_file(module_candidates(from.relative_path@, m), files)
        }
    }
}

fn is_ident_char(c: char) -> (r: bool)
    ensures
        r == !not_ident_char(c),
{
    ('0' <= c && c <= '9') || ('A' <= c && c <= 'Z') || ('a' <= c && c <= 'z') || c == '_'
}

fn strip_prefix_bounds(cs: &Vec<char>, lo0: usize, hi0: usize) -> (lo: usize)
    requires
        lo0 <= hi0 <= cs@.len(),
    ensures
        lo0 <= lo <= hi0,
        strip_path_prefix(cs@.subrange(lo0 as int, hi0 as int)) == cs@.subrange(lo as int, hi0 as int),
{
    let ghost t0 = cs@.subrange(lo0 as int, hi0 as int);
    let lo = if at(cs, lo0, "crate::") && hi0 - lo0 >= 7 {
        lo0 + 7
    } else if at(cs, lo0, "self::") && hi0 - lo0 >= 6 {
        lo0 + 6
    } else if at(cs, lo0, "super::") && hi0 - lo0 >= 7 {
        lo0 + 7
    } else {
        lo0
    };
    proof {
        reveal_strlit("crate::");
        reveal_strlit("self::");
        reveal_strlit("super::");
        assert(has_at(t0, 0, "crate::"@) == (has_at(cs@, lo0 as int, "crate::"@) && lo0 + 7 <= hi0)) by {
            if lo0 + 7 <= hi0 {
                assert(t0.subrange(0, 7) == cs@.subrange(lo0 as int, lo0 + 7));
            }
        }
        assert(has_at(t0, 0, "self::"@) == (has_at(cs@, lo0 as int, "self::"@) && lo0 + 6 <= hi0)) by {
            if lo0 + 6 <= hi0 {
                assert(t0.subrange(0, 6) == cs@.subrange(lo0 as int, lo0 + 6));
            }
        }
        assert(has_at(t0, 0, "super::"@) == (has_at(cs@, lo0 as int, "super::"@) && lo0 + 7 <= hi0)) by {
            if lo0 + 7 <= hi0 {
                assert(t0.subrange(0, 7) == cs@.subrange(lo0 as int, lo0 + 7));
            }
        }
        assert(strip_path_prefix(t0) =~= cs@.subrange(lo as int, hi0 as int));
    }
    lo
}

fn double_colon_bound(cs: &Vec<char>, lo: usize, hi0: usize) -> (e: usize)
    requires
        lo <= hi0 <= cs@.len(),
    ensures
        lo <= e <= hi0,
        first_double_colon(cs@.subrange(lo as int, hi0 as int), 0) == e - lo,
{
    let ghost t = cs@.subrange(lo as int, hi0 as int);
    let mut e = lo;
    proof {
        lemma_first_double_colon(t, 0);
    }
    while e < hi0 && !(e + 1 < hi0 && cs[e] == ':' && cs[e + 1] == ':')
        invariant
            lo <= e <= hi0 <= cs@.len(),
            t == cs@.subrange(lo as int, hi0 as int),
            first_double_colon(t, 0) == first_double_colon(t, e - lo),
        decreases hi0 - e,
    {
        proof {
            reveal_strlit("::");
            assert(!has_at(t, e - lo, "::"@)) by {
                if has_at(t, e - lo, "::"@) {
                    assert(t.subrange(e - lo, e - lo + 2)[0] == t[e - lo]);
                    assert(t.subrange(e - lo, e - lo + 2)[1] == t[e - lo + 1]);
                }
            }
        }
        e = e + 1;
    }
    proof {
        reveal_strlit("::");
        if e < hi0 {
            assert(t.subrange(e - lo, e - lo + 2) =~= "::"@);
        }
        assert(first_double_colon(t, 0) == e - lo);
    }
    e
}

fn ident_trim_bounds(cs: &Vec<char>, lo: usize, e: usize) -> (r: (usize, usize))
    requires
        lo <= e <= cs@.len(),
    ensures
        lo <= r.0 <= r.1 <= e,
        cs@.subrange(r.0 as int, r.1 as int) == trim_by(cs@.subrange(lo as int, e as int), not_ident_pred()),
{
    let ghost seg = cs@.subrange(lo as int, e as int);
    let mut a = lo;
    while a < e && !is_ident_char(cs[a])
        invariant
            lo <= a <= e <= cs@.len(),
            seg == cs@.subrange(lo as int, e as int),
            crate::text::lead_count(seg, not_ident_pred()) >= a - lo,
        decreases e - a,
    {
        proof {
            crate::text::lemma_lead_count(seg, not_ident_pred());
            assert(seg[a - lo] == cs@[a as int]);
            assert(not_ident_pred()(seg[a - lo]));
        }
        a = a + 1;
    }
    proof {
        crate::text::lemma_lead_count(seg, not_ident_pred());
        if a < e {
            assert(seg[a - lo] == cs@[a as int]);
        }
        assert(crate::text::lead_count(seg, not_ident_pred()) == a - lo);
    }
    if a == e {
        return (e, e);
    }
    let mut b = e;
    while b > a && !is_ident_char(cs[b - 1])
        invariant
            lo <= a < e,
            a <= b <= e <= cs@.len(),
            seg == cs@.subrange(lo as int, e as int),
            crate::text::lead_count(seg, not_ident_pred()) == a - lo,
            !not_ident_char(cs@[a as int]),
            crate::text::trail_count(seg, not_ident_pred()) >= e - b,
        decreases b,
    {
        proof {
            crate::text::lemma_trail_count(seg, not_ident_pred());
            assert(seg[seg.len() - 1 - (e - b)] == cs@[b - 1]);
            assert(not_ident_pred()(seg[seg.len() - 1 - (e - b)]));
        }
        b = b - 1;
    }
    proof {
        crate::text::lemma_trail_count(seg, not_ident_pred());
        assert(b > a) by {
            if b == a {
                assert(!not_ident_char(cs@[a as int]));
            }
        }
        assert(seg[seg.len() - 1 - (e - b)] == cs@[b - 1]);
        assert(crate::text::trail_count(seg, not_ident_pred()) == e - b);
        assert(cs@.subrange(a as int, b as int) =~= seg.subrange(a - lo, seg.len() - (e - b)));
    }
    (a, b)
}

/// The module that an import target names.
pub fn import_module_of(raw: &str) -> (r: String)
    ensures
        r@ == import_module_name(raw@),
{
    let cs = chars_of(raw);
    let (lo0, hi0) = trim_bounds(&cs, 0, cs.len());
    assert(cs@.subrange(0, cs@.len() as int) == cs@);
    let lo = strip_prefix_bounds(&cs, lo0, hi0);
    let e = double_colon_bound(&cs, lo, hi0);
    assert(cs@.subrange(lo as int, hi0 as int).take(e - lo) == cs@.subrange(lo as int, e as int));
    let (a, b) = ident_trim_bounds(&cs, lo, e);
    string_of(&cs, a, b)
}

fn find_file_with_key(files: &Vec<StoredFile>, key: &String) -> (r: Option<usize>)
    ensures
        match r {
            Some(i) => i < files@.len() && last_file_with_key(files@, key@) == i,
            None => last_file_with_key(files@, key@) == -1,
        },
{
    let mut i = files.len();
    assert(files@.take(i as int) == files@);
    while i > 0
        invariant
            i <= files@.len(),
            last_file_with_key(files@, key@) == last_file_with_key(files@.take(i as int), key@),
        decreases i,
    {
        proof {
            assert(files@.take(i as int).drop_last() == files@.take(i - 1));
            assert(files@.take(i as int).last() == files@[i - 1]);
        }
        let k = path_key_of(files[i - 1].relative_path.as_str());
        if k == *key {
            return Some(i - 1);
        }
        i = i - 1;
    }
    None
}

fn is_std_name(m: &String) -> (r: bool)
    ensures
        r == is_std_root(m@),
{
    let cs = chars_of(m.as_str());
    let a = cs.len() == 3 && at(&cs, 0, "std");
    let b = cs.len() == 4 && at(&cs, 0, "core");
    let c = cs.len() == 5 && at(&cs, 0, "alloc");
    proof {
        reveal_strlit("std");
        reveal_strlit("core");
        reveal_strlit("alloc");
        if cs@.len() == 3 {
            assert(cs@.subrange(0, 3) =~= cs@);
        }
        if cs@.len() == 4 {
            assert(cs@.subrange(0, 4) =~= cs@);
        }
        if cs@.len() == 5 {
            assert(cs@.subrange(0, 5) =~= cs@);
        }
    }
    a || b || c
}

/// The index of the stored file that an import of `from` resolves to: a Rust file's
/// import of a local module, found at the first candidate path that a stored file has.
pub fn resolve_local_file_import(from: &StoredFile, raw_target: &str, files: &Vec<StoredFile>) -> (r: Option<usize>)
    ensures
        match r {
            Some(i) => i < files@.len() && resolve_import(*from, raw_target@, files@) == i,
            None => resolve_import(*from, raw_target@, files@) == -1,
        },
{
    if from.language != Language::Rust {
        return None;
    }
    let m = import_module_of(raw_target);
    if m.as_str().is_empty() || is_std_name(&m) {
        return None;
    }
    let cands = rust_module_candidates(from.relative_path.as_str(), m.as_str());
    let ghost cv = module_candidates(from.relative_path@, m@);
    let mut q: usize = 0;
    assert(cv.skip(0) == cv);
    assert(resolve_import(*from, raw_target@, files@) == first_candidate_file(cv, files@));
    while q < cands.len()
        invariant
            q <= cands@.len(),
            cands@.len() == cv.len(),
            forall|k: int| 0 <= k < cv.len() ==> #[trigger] cands@[k]@ == cv[k],
            first_candidate_file(cv, files@) == first_candidate_file(cv.skip(q as int), files@),
            resolve_import(*from, raw_target@, files@) == first_candidate_file(cv, files@),
        decreases cands@.len() - q,
    {
        proof {
            assert(cands@.map_values(|s: String| s@)[q as int] == cands@[q as int]@);
        }
        let key = path_key_of(cands[q].as_str());
        proof {
            assert(cv.skip(q as int)[0] == cv[q as int]);
            assert(cv.skip(q as int).drop_first() == cv.skip(q + 1));
        }
        match find_file_with_key(files, &key) {
            Some(i) => {
                proof {
                    assert(cands@[q as int]@ == cv[q as int]);
                    assert(key@ == path_key(cv.skip(q as int)[0]));
                    assert(first_candidate_file(cv.skip(q as int), files@) == i);
                }
                return Some(i);
            },
            None => {},
        }
        q = q + 1;
    }
    None
}


/// An import of a stored file, as the store lists them.
#[derive(Debug, PartialEq, Eq)]
pub struct ImportRow {
    pub from: StoredFile,
    pub raw_target: String,
}

/// A file-to-file dependency found by resolving an import.
#[derive(Debug, PartialEq, Eq)]
pub struct ResolvedImport {
    pub from_file_id: FileId,
    pub to_file_id: FileId,
    pub raw_target: String,
}

pub struct ResolvedImportView {
    pub from_file_id: Seq<char>,
    pub to_file_id: Seq<char>,
    pub raw_target: Seq<char>,
}

impl View for ResolvedImport {
    type V = ResolvedImportView;

    open spec fn view(&self) -> ResolvedImportView {
        ResolvedImportView {
            from_file_id: self.from_file_id@,
            to_file_id: self.to_file_id@,
            raw_target: self.raw_target@,
        }
    }
}

/// The key under which a dependency is created once: `from:to`.
pub open spec fn edge_key(from: Seq<char>, to: Seq<char>) -> Seq<char> {
    from + seq![':'] + to
}

/// Some edge of the list has the key.
pub open spec fn has_edge_key(edges: Seq<ResolvedImportView>, key: Seq<char>) -> bool {
    exists|k: int| 0 <= k < edges.len() && edge_key(edges[k].from_file_id, edges[k].to_file_id) == key
}

/// The dependencies of a scope: for each import row in order that resolves to a
/// stored file, one dependency, unless one with the same key came before.
pub open spec fn resolved_edges(rows: Seq<ImportRow>, files: Seq<StoredFile>) -> Seq<ResolvedImportView>
    decreases rows.len(),
{
    if rows.len() == 0 {
        seq![]
    } else {
        let prev = resolved_edges(rows.drop_last(), files);
        let r = rows.last();
        let t = resolve_import(r.from, r.raw_target@, files);
        if t < 0 || t >= files.len() {
            prev
        } else if has_edge_key(prev, edge_key(r.from.file_id@, files[t].file_id@)) {
            prev
        } else {
            prev.push(
                ResolvedImportView {
                    from_file_id: r.from.file_id@,
                    to_file_id: files[t].file_id@,
                    raw_target: r.raw_target@,
                },
            )
        }
    }
}

fn key_string(from: &FileId, to: &FileId) -> (r: String)
    ensures
        r@ == edge_key(from@, to@),
{
    let mut k = from.0.clone();
    crate::text::push_char(&mut k, ':');
    push_str(&mut k, to.0.as_str());
    k
}

/// The file dependencies of a scope, from its stored files and its import rows:
/// each import that resolves to a stored file gives one dependency, the first for
/// each pair of files.
pub fn resolve_scope_imports(rows: &Vec<ImportRow>, files: &Vec<StoredFile>) -> (r: Vec<ResolvedImport>)
    ensures
        r@.map_values(|e: ResolvedImport| e@) == resolved_edges(rows@, files@),
{
    let mut out: Vec<ResolvedImport> = Vec::new();
    let mut keys: Vec<String> = Vec::new();
    let mut i: usize = 0;
    while i < rows.len()
        invariant
            i <= rows@.len(),
            out@.map_values(|e: ResolvedImport| e@) == resolved_edges(rows@.take(i as int), files@),
            keys@.len() == out@.len(),
            forall|k: int| 0 <= k < keys@.len() ==> #[trigger] keys@[k]@ == edge_key(
                out@[k].from_file_id@,
                out@[k].to_file_id@,
            ),
        decreases rows@.len() - i,
    {
        let row = &rows[i];
        proof {
            assert(rows@.take(i + 1).drop_last() == rows@.take(i as int));
            assert(rows@.take(i + 1).last() == rows@[i as int]);
        }
        match resolve_local_file_import(&row.from, row.raw_target.as_str(), files) {
            None => {},
            Some(t) => {
                let key = key_string(&row.from.file_id, &files[t].file_id);
                let mut seen = false;
                let mut k: usize = 0;
                while k < keys.len()
                    invariant
                        k <= keys@.len(),
                        keys@.len() == out@.len(),
                        !seen ==> forall|q: int| 0 <= q < k ==> keys@[q]@ != key@,
                        seen ==> exists|q: int| 0 <= q < keys@.len() && keys@[q]@ == key@,
                    decreases keys@.len() - k,
                {
                    if keys[k] == key {
                        seen = true;
                    }
                    k = k + 1;
                }
                let ghost prev = out@.map_values(|e: ResolvedImport| e@);
                proof {
                    if seen {
                        let q = choose|q: int| 0 <= q < keys@.len() && keys@[q]@ == key@;
                        assert(prev[q].from_file_id == out@[q].from_file_id@);
                        assert(keys@[q]@ == edge_key(out@[q].from_file_id@, out@[q].to_file_id@));
                        assert(has_edge_key(prev, key@));
                    } else {
                        assert(!has_edge_key(prev, key@)) by {
                            if has_edge_key(prev, key@) {
                                let q = choose|q: int| 0 <= q < prev.len() && edge_key(prev[q].from_file_id, prev[q].to_file_id) == key@;
                                assert(keys@[q]@ == edge_key(out@[q].from_file_id@, out@[q].to_file_id@));
                            }
                        }
                    }
                }
                if !seen {
                    out.push(
                        ResolvedImport {
                            from_file_id: row.from.file_id.clone(),
                            to_file_id: files[t].file_id.clone(),
                            raw_target: row.raw_target.clone(),
                        },
                    );
                    keys.push(key);
                    proof {
                        assert(out@.map_values(|e: ResolvedImport| e@) =~= prev.push(
                            ResolvedImportView {
                                from_file_id: row.from.file_id@,
                                to_file_id: files@[t as int].file_id@,
                                raw_target: row.raw_target@,
                            },
                        ));
                    }
                }
            },
        }
        i = i + 1;
    }
    assert(rows@.take(rows@.len() as int) == rows@);
    out
}

/// An import of a non-Rust file, or one that names a standard library root, resolves
/// to no file.
pub proof fn law_std_roots_never_resolve(from: StoredFile, raw: Seq<char>, files: Seq<StoredFile>)
    requires
        from.language != Language::Rust || is_std_root(import_module_name(raw)),
    ensures
        resolve_import(from, raw, files) == -1,
{
}

/// The dependency comes from the import of the row.
pub open spec fn edge_of_row(e: ResolvedImportView, row: ImportRow, files: Seq<StoredFile>) -> bool {
    let t = resolve_import(row.from, row.raw_target@, files);
    &&& 0 <= t < files.len()
    &&& e.from_file_id == row.from.file_id@
    &&& e.to_file_id == files[t].file_id@
    &&& e.raw_target == row.raw_target@
}

/// Dependency `k` of the scope comes from the import of some row.
pub open spec fn edge_has_source(rows: Seq<ImportRow>, files: Seq<StoredFile>, k: int) -> bool {
    exists|j: int| 0 <= j < rows.len() && #[trigger] edge_of_row(resolved_edges(rows, files)[k], rows[j], files)
}

proof fn lemma_edge_source(rows: Seq<ImportRow>, files: Seq<StoredFile>, k: int) -> (j: int)
    requires
        0 <= k < resolved_edges(rows, files).len(),
    ensures
        0 <= j < rows.len(),
        edge_of_row(resolved_edges(rows, files)[k], rows[j], files),
    decreases rows.len(),
{
    let prev = resolved_edges(rows.drop_last(), files);
    if k < prev.len() {
        let j = lemma_edge_source(rows.drop_last(), files, k);
        assert(rows[j] == rows.drop_last()[j]);
        j
    } else {
        (rows.len() - 1) as int
    }
}

/// The dependencies of a scope hold at most one per pair of files, and each leaves from
/// the file of an import row and arrives at the stored file that the row's import
/// resolves to.
pub proof fn law_resolved_edges(rows: Seq<ImportRow>, files: Seq<StoredFile>)
    ensures
        forall|a: int, b: int|
            0 <= a < b < resolved_edges(rows, files).len() ==> edge_key(
                #[trigger] resolved_edges(rows, files)[a].from_file_id,
                resolved_edges(rows, files)[a].to_file_id,
            ) != edge_key(
                #[trigger] resolved_edges(rows, files)[b].from_file_id,
                resolved_edges(rows, files)[b].to_file_id,
            ),
        forall|k: int| 0 <= k < resolved_edges(rows, files).len() ==> #[trigger] edge_has_source(rows, files, k),
    decreases rows.len(),
{
    if rows.len() > 0 {
        let prev = resolved_edges(rows.drop_last(), files);
        law_resolved_edges(rows.drop_last(), files);
        let cur = resolved_edges(rows, files);
        assert forall|a: int, b: int|
            0 <= a < b < cur.len() implies edge_key(#[trigger] cur[a].from_file_id, cur[a].to_file_id) != edge_key(
                #[trigger] cur[b].from_file_id,
                cur[b].to_file_id,
            ) by {
            if b < prev.len() {
                assert(cur[a] == prev[a] && cur[b] == prev[b]);
            } else {
                assert(cur[a] == prev[a]);
                assert(!has_edge_key(prev, edge_key(cur[b].from_file_id, cur[b].to_file_id)));
            }
        }
    }
    assert forall|k: int| 0 <= k < resolved_edges(rows, files).len() implies #[trigger] edge_has_source(rows, files, k) by {
        let j = lemma_edge_source(rows, files, k);
        assert(edge_of_row(resolved_edges(rows, files)[k], rows[j], files));
    }
}

/// No `:` occurs in the text.
pub open spec fn colon_free(s: Seq<char>) -> bool {
    forall|i: int| 0 <= i < s.len() ==> s[i] != ':'
}

/// Two keys with `:`-free sources are equal only for equal ends.
proof fn lemma_edge_key_injective(a: Seq<char>, b: Seq<char>, c: Seq<char>, d: Seq<char>)
    requires
        colon_free(a),
        colon_free(c),
        edge_key(a, b) == edge_key(c, d),
    ensures
        a == c,
        b == d,
{
    let x = edge_key(a, b);
    let y = edge_key(c, d);
    if a.len() < c.len() {
        assert(x[a.len() as int] == ':');
        assert(y[a.len() as int] == c[a.len() as int]);
    }
    if c.len() < a.len() {
        assert(y[c.len() as int] == ':');
        assert(x[c.len() as int] == a[c.len() as int]);
    }
    assert(a =~= x.subrange(0, a.len() as int));
    assert(c =~= y.subrange(0, c.len() as int));
    assert(b =~= x.subrange(a.len() as int + 1, x.len() as int));
    assert(d =~= y.subrange(c.len() as int + 1, y.len() as int));
}

/// Every row whose import resolves has a dependency in the scope with the key of its
/// source file and its resolved file.
#[verifier::spinoff_prover]
#[verifier::rlimit(40)]
proof fn lemma_resolved_edges_keys(rows: Seq<ImportRow>, files: Seq<StoredFile>)
    ensures
        forall|j: int|
            0 <= j < rows.len() && 0 <= resolve_import(#[trigger] rows[j].from, rows[j].raw_target@, files)
                < files.len() ==> has_edge_key(
                resolved_edges(rows, files),
                edge_key(rows[j].from.file_id@, files[resolve_import(rows[j].from, rows[j].raw_target@, files)].file_id@),
            ),
    decreases rows.len(),
{
    if rows.len() > 0 {
        let prev = resolved_edges(rows.drop_last(), files);
        let cur = resolved_edges(rows, files);
        lemma_resolved_edges_keys(rows.drop_last(), files);
        assert(cur.len() >= prev.len());
        assert(forall|k: int| 0 <= k < prev.len() ==> cur[k] == prev[k]);
        assert forall|j: int|
            0 <= j < rows.len() && 0 <= resolve_import(#[trigger] rows[j].from, rows[j].raw_target@, files)
                < files.len() implies has_edge_key(
            cur,
            edge_key(rows[j].from.file_id@, files[resolve_import(rows[j].from, rows[j].raw_target@, files)].file_id@),
        ) by {
            let t = resolve_import(rows[j].from, rows[j].raw_target@, files);
            let key = edge_key(rows[j].from.file_id@, files[t].file_id@);
            if j < rows.len() - 1 {
                assert(rows.drop_last()[j] == rows[j]);
                assert(has_edge_key(prev, key));
                let k = choose|k: int| 0 <= k < prev.len() && edge_key(prev[k].from_file_id, prev[k].to_file_id) == key;
                assert(cur[k] == prev[k]);
            } else if has_edge_key(prev, key) {
                let k = choose|k: int| 0 <= k < prev.len() && edge_key(prev[k].from_file_id, prev[k].to_file_id) == key;
                assert(cur[k] == prev[k]);
            } else {
                let k = prev.len() as int;
                assert(cur[k].from_file_id == rows[j].from.file_id@);
                assert(cur[k].to_file_id == files[t].file_id@);
            }
        }
    }
}

/// Every import row that resolves to a stored file has a dependency in the scope that
/// leaves from the row's file and arrives at the resolved file: only repeats of a pair
/// of files are left out. (File identifiers are hashes, with no `:`, so that the key
/// `from:to` of a pair tells pairs apart.)
#[verifier::spinoff_prover]
#[verifier::rlimit(40)]
pub proof fn law_resolved_edges_complete(rows: Seq<ImportRow>, files: Seq<StoredFile>)
    requires
        forall|j: int| 0 <= j < rows.len() ==> colon_free(#[trigger] rows[j].from.file_id@),
    ensures
        forall|j: int|
            0 <= j < rows.len() && 0 <= resolve_import(#[trigger] rows[j].from, rows[j].raw_target@, files)
                < files.len() ==> exists|k: int|
                0 <= k < resolved_edges(rows, files).len() && #[trigger] resolved_edges(rows, files)[k].from_file_id
                    == rows[j].from.file_id@ && resolved_edges(rows, files)[k].to_file_id
                    == files[resolve_import(rows[j].from, rows[j].raw_target@, files)].file_id@,
{
    lemma_resolved_edges_keys(rows, files);
    law_resolved_edges(rows, files);
    let cur = resolved_edges(rows, files);
    assert forall|j: int|
        0 <= j < rows.len() && 0 <= resolve_import(#[trigger] rows[j].from, rows[j].raw_target@, files)
            < files.len() implies exists|k: int|
            0 <= k < cur.len() && #[trigger] cur[k].from_file_id == rows[j].from.file_id@ && cur[k].to_file_id
                == files[resolve_import(rows[j].from, rows[j].raw_target@, files)].file_id@ by {
        let t = resolve_import(rows[j].from, rows[j].raw_target@, files);
        let key = edge_key(rows[j].from.file_id@, files[t].file_id@);
        assert(has_edge_key(cur, key));
        let k = choose|k: int| 0 <= k < cur.len() && edge_key(cur[k].from_file_id, cur[k].to_file_id) == key;
        assert(edge_has_source(rows, files, k));
        let q = choose|q: int| 0 <= q < rows.len() && #[trigger] edge_of_row(cur[k], rows[q], files);
        assert(colon_free(rows[q].from.file_id@));
        assert(colon_free(rows[j].from.file_id@));
        lemma_edge_key_injective(cur[k].from_file_id, cur[k].to_file_id, rows[j].from.file_id@, files[t].file_id@);
    }
}

} // verus!
