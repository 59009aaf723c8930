use vstd::prelude::*;
use crate::config::{contains_string, string_views, RepoScryerConfig};
use crate::hash::{hex_lower, sha256_digest, sha256_spec, stable_hash_spec, to_hex_lower};
use crate::ids::{
    file_id_from_project_scope_path, project_id_from_repo, repo_id_from_path, scope_id_from_path, ProjectId,
    RepoId, ScopeId,
};
use crate::model::{CodeFile, CodeFileView, FileFingerprint, Language, ScanResult, SkippedFile, SkippedFileView};
use crate::order::{components, key_before, key_of, lemma_sorted_by_in_order, lemma_sorted_by_map, lemma_sorted_by_to_multiset, path_components, path_lt, sorted_by, stable_sort, SortKeyed};
use crate::paths::{extension, extension_of};
use crate::text::{chars_of, owned, string_of};

verus! {

/// The components of `path` below `root`: those after the root's components where the
/// path starts with them, else all of the path's.
pub open spec fn relative_components(path: Seq<char>, root: Seq<char>) -> Seq<Seq<char>> {
    let pc = components(path);
    let rc = components(root);
    if rc.len() <= pc.len() && pc.take(rc.len() as int) == rc {
        pc.skip(rc.len() as int)
    } else {
        pc
    }
}

/// Some component of the path below the root is an ignored directory name.
pub open spec fn under_ignored(path: Seq<char>, root: Seq<char>, ignored: Seq<Seq<char>>) -> bool {
    exists|i: int|
        0 <= i < relative_components(path, root).len() && ignored.contains(
            #[trigger] relative_components(path, root)[i],
        )
}

fn same_vec(a: &Vec<char>, b: &Vec<char>) -> (r: bool)
    ensures
        r == (a@ == b@),
{
    if a.len() != b.len() {
        return false;
    }
    let mut i: usize = 0;
    while i < a.len()
        invariant
            a@.len() == b@.len(),
            i <= a@.len(),
            forall|k: int| 0 <= k < i ==> a@[k] == b@[k],
        decreases a@.len() - i,
    {
        if a[i] != b[i] {
            return false;
        }
        i = i + 1;
    }
    assert(a@ =~= b@);
    true
}

/// Whether a walked path lies under a directory that the settings ignore.
pub fn should_skip(path: &str, root: &str, config: &RepoScryerConfig) -> (r: bool)
    ensures
        r == under_ignored(path@, root@, string_views(config.ignored_dirs@)),
{
    let pc = path_components(&chars_of(path));
    let rc = path_components(&chars_of(root));
    let ghost pcs = components(path@);
    let ghost rcs = components(root@);
    assert(pc@.len() == pcs.len());
    let mut prefix = rc.len() <= pc.len();
    let mut k: usize = 0;
    while prefix && k < rc.len()
        invariant
            pc@.len() == pcs.len(),
            rc@.len() == rcs.len(),
            forall|q: int| 0 <= q < pc@.len() ==> #[trigger] pc@[q]@ == pcs[q],
            forall|q: int| 0 <= q < rc@.len() ==> #[trigger] rc@[q]@ == rcs[q],
            k <= rc@.len(),
            prefix ==> rc@.len() <= pc@.len(),
            prefix ==> forall|q: int| 0 <= q < k ==> pcs[q] == rcs[q],
            !prefix ==> !(rcs.len() <= pcs.len() && pcs.take(rcs.len() as int) == rcs),
        decreases rc@.len() - k,
    {
        if !same_vec(&pc[k], &rc[k]) {
            prefix = false;
            proof {
                if rcs.len() <= pcs.len() && pcs.take(rcs.len() as int) == rcs {
                    assert(pcs.take(rcs.len() as int)[k as int] == pcs[k as int]);
                }
            }
        }
        k = k + 1;
    }
    if prefix {
        assert(pcs.take(rcs.len() as int) =~= rcs);
    }
    let start = if prefix {
        rc.len()
    } else {
        0
    };
    let ghost rel = relative_components(path@, root@);
    assert(rel =~= pcs.skip(start as int));
    let ignored = &config.ignored_dirs;
    let mut i = start;
    while i < pc.len()
        invariant
            start <= i <= pc@.len(),
            pc@.len() == pcs.len(),
            forall|q: int| 0 <= q < pc@.len() ==> #[trigger] pc@[q]@ == pcs[q],
            rel == pcs.skip(start as int),
            rel == relative_components(path@, root@),
            start <= pcs.len(),
            ignored@ == config.ignored_dirs@,
            forall|q: int| 0 <= q < i - start ==> !string_views(ignored@).contains(#[trigger] rel[q]),
        decreases pc@.len() - i,
    {
        let name = string_of(&pc[i], 0, pc[i].len());
        assert(pc@[i as int]@.subrange(0, pc@[i as int]@.len() as int) =~= pc@[i as int]@);
        if contains_string(ignored, &name) {
            assert(rel[i - start] == pcs[i as int]);
            assert(string_views(config.ignored_dirs@).contains(relative_components(path@, root@)[i - start]));
            assert(0 <= i - start < relative_components(path@, root@).len());
            return true;
        }
        assert(rel[i - start] == pcs[i as int]);
        i = i + 1;
    }
    false
}

/// Content is binary where a zero byte is among its first 1024 bytes.
pub open spec fn looks_binary(bytes: Seq<u8>) -> bool {
    exists|i: int| 0 <= i < bytes.len() && i < 1024 && bytes[i] == 0
}

/// Whether content looks binary: a zero byte among its first 1024 bytes.
pub fn is_binary(bytes: &[u8]) -> (r: bool)
    ensures
        r == looks_binary(bytes@),
{
    let mut i: usize = 0;
    while i < bytes.len() && i < 1024
        invariant
            i <= bytes@.len(),
            i <= 1024,
            forall|k: int| 0 <= k < i ==> bytes@[k] != 0,
        decreases bytes@.len() - i,
    {
        if bytes[i] == 0 {
            return true;
        }
        i = i + 1;
    }
    false
}

/// The language of a file extension.
pub open spec fn language_of_extension(e: Option<Seq<char>>) -> Language {
    match e {
        Some(x) => if x == "rs"@ {
            Language::Rust
        } else if x == "py"@ {
            Language::Python
        } else if x == "js"@ || x == "jsx"@ {
            Language::JavaScript
        } else if x == "ts"@ || x == "tsx"@ {
            Language::TypeScript
        } else if x == "java"@ {
            Language::Java
        } else if x == "go"@ {
            Language::Go
        } else {
            Language::Unknown
        },
        None => Language::Unknown,
    }
}

fn ext_is(e: &Vec<char>, w: &str) -> (r: bool)
    ensures
        r == (e@ == w@),
{
    let wc = chars_of(w);
    same_vec(e, &wc)
}

/// The language of a path, by its extension.
pub fn detect_language(path: &str) -> (r: Language)
    ensures
        r == language_of_extension(extension(path@)),
{
    match extension_of(&chars_of(path)) {
        Some(e) => {
            if ext_is(&e, "rs") {
                Language::Rust
            } else if ext_is(&e, "py") {
                Language::Python
            } else if ext_is(&e, "js") || ext_is(&e, "jsx") {
                Language::JavaScript
            } else if ext_is(&e, "ts") || ext_is(&e, "tsx") {
                Language::TypeScript
            } else if ext_is(&e, "java") {
                Language::Java
            } else if ext_is(&e, "go") {
                Language::Go
            } else {
                Language::Unknown
            }
        },
        None => Language::Unknown,
    }
}

/// The SHA-256 digest of content in lower-case hexadecimal.
pub fn sha256_hex(bytes: &[u8]) -> (r: String)
    ensures
        r@ == hex_lower(sha256_spec(bytes@)),
        r@.len() == 64,
{
    let d = sha256_digest(bytes);
    to_hex_lower(&d)
}

/// The language a scan reads a path as: that of its extension, where it is known and
/// the settings enable it; none otherwise.
pub open spec fn scan_language(path: Seq<char>, config: RepoScryerConfig) -> Option<Language> {
    let lang = language_of_extension(extension(path));
    if lang == Language::Unknown || !config.enabled_languages@.contains(lang) {
        None
    } else {
        Some(lang)
    }
}

/// The language a scan reads a path as (see `scan_language`).
fn scanned_language(path: &str, config: &RepoScryerConfig) -> (r: Option<Language>)
    ensures
        r == scan_language(path@, *config),
{
    let language = detect_language(path);
    if language == Language::Unknown {
        return None;
    }
    let mut enabled = false;
    let mut i: usize = 0;
    while i < config.enabled_languages.len()
        invariant
            i <= config.enabled_languages@.len(),
            enabled == config.enabled_languages@.take(i as int).contains(language),
        decreases config.enabled_languages@.len() - i,
    {
        proof {
            let t = config.enabled_languages@.take(i + 1);
            assert(t == config.enabled_languages@.take(i as int).push(config.enabled_languages@[i as int]));
            if t.contains(language) && !config.enabled_languages@.take(i as int).contains(language) {
                let k = choose|k: int| 0 <= k < t.len() && t[k] == language;
                if k < i {
                    assert(config.enabled_languages@.take(i as int)[k] == language);
                }
            }
            if config.enabled_languages@.take(i as int).contains(language) {
                let k = choose|k: int| 0 <= k < i && config.enabled_languages@.take(i as int)[k] == language;
                assert(t[k] == language);
            }
            if config.enabled_languages@[i as int] == language {
                assert(t[i as int] == language);
            }
        }
        if config.enabled_languages[i] == language {
            enabled = true;
        }
        i = i + 1;
    }
    assert(config.enabled_languages@.take(config.enabled_languages@.len() as int) =~= config.enabled_languages@);
    if enabled {
        Some(language)
    } else {
        None
    }
}

/// What the scan does with a walked file before it reads it.
#[derive(Debug, Clone, Copy, PartialEq, Eq, Structural)]
pub enum EntryCheck {
    /// It is left out: it lies under an ignored directory, or its language is unknown
    /// or not enabled.
    Ignore,
    /// It is larger than the size limit.
    Oversized,
    /// Its content is to be read.
    Read,
}

/// What the scan does with a walked file before reading it: a file under an ignored
/// directory or of a language the scan does not read is left out, never skipped; the
/// size limit comes after.
pub fn check_entry(path: &str, root: &str, size: u64, config: &RepoScryerConfig) -> (r: EntryCheck)
    ensures
        r == (if under_ignored(path@, root@, string_views(config.ignored_dirs@)) || scan_language(
            path@,
            *config,
        ) is None {
            EntryCheck::Ignore
        } else if size > config.max_file_size_bytes {
            EntryCheck::Oversized
        } else {
            EntryCheck::Read
        }),
{
    if should_skip(path, root, config) || scanned_language(path, config).is_none() {
        EntryCheck::Ignore
    } else if size > config.max_file_size_bytes {
        EntryCheck::Oversized
    } else {
        EntryCheck::Read
    }
}

impl SortKeyed for CodeFile {
    open spec fn spec_key(&self) -> (nat, Seq<char>) {
        (0, self.relative_path@)
    }

    fn sort_rank(&self) -> (r: usize) {
        0
    }

    fn sort_path(&self) -> (r: Vec<char>) {
        chars_of(self.relative_path.as_str())
    }
}

impl SortKeyed for SkippedFile {
    open spec fn spec_key(&self) -> (nat, Seq<char>) {
        (0, self.relative_path@)
    }

    fn sort_rank(&self) -> (r: usize) {
        0
    }

    fn sort_path(&self) -> (r: Vec<char>) {
        chars_of(self.relative_path.as_str())
    }
}

/// A scan in progress: the identity of the repository and what was found so far.
pub struct ScanState {
    pub repo_id: RepoId,
    pub project_id: ProjectId,
    pub scope_id: ScopeId,
    pub repo_root: String,
    pub files: Vec<CodeFile>,
    pub skipped_files: Vec<SkippedFile>,
}

pub open spec fn code_views(v: Seq<CodeFile>) -> Seq<CodeFileView> {
    v.map_values(|f: CodeFile| f@)
}

pub open spec fn skipped_views(v: Seq<SkippedFile>) -> Seq<SkippedFileView> {
    v.map_values(|f: SkippedFile| f@)
}

/// The file the scan records for readable content of a known, enabled language.
pub open spec fn scanned_file(
    st: ScanState,
    path: Seq<char>,
    relative: Seq<char>,
    language: Language,
    bytes: Seq<u8>,
    size: u64,
    mtime: u64,
) -> CodeFileView {
    CodeFileView {
        repo_id: st.repo_id@,
        file_id: stable_hash_spec(seq![st.project_id@, st.scope_id@, relative]),
        path: path,
        relative_path: relative,
        language: language,
        fingerprint: crate::model::FileFingerprintView {
            sha256: hex_lower(sha256_spec(bytes)),
            size_bytes: size,
            mtime_seconds: mtime,
        },
    }
}

/// The sort key of a file: its relative path.
pub open spec fn file_view_key() -> spec_fn(CodeFileView) -> (nat, Seq<char>) {
    |f: CodeFileView| (0nat, f.relative_path)
}

/// The sort key of a skipped file: its relative path.
pub open spec fn skipped_view_key() -> spec_fn(SkippedFileView) -> (nat, Seq<char>) {
    |f: SkippedFileView| (0nat, f.relative_path)
}

/// A file the scan may record: read as an enabled language, not under an ignored
/// directory below the root, within the size limit, with a 64-character hash and the
/// identifier of its relative path in the scope.
pub open spec fn file_ok(
    f: CodeFileView,
    root: Seq<char>,
    project_id: Seq<char>,
    scope_id: Seq<char>,
    config: RepoScryerConfig,
) -> bool {
    &&& scan_language(f.path, config) == Some(f.language)
    &&& !under_ignored(f.path, root, string_views(config.ignored_dirs@))
    &&& f.fingerprint.size_bytes <= config.max_file_size_bytes
    &&& f.fingerprint.sha256.len() == 64
    &&& f.file_id == stable_hash_spec(seq![project_id, scope_id, f.relative_path])
}

/// What a scan in progress holds: files it may record, and skipped files, each skipped
/// as oversized or binary.
pub open spec fn scan_wf(st: ScanState, config: RepoScryerConfig) -> bool {
    &&& forall|i: int| 0 <= i < st.files@.len() ==> file_ok(
        #[trigger] st.files@[i]@,
        st.repo_root@,
        st.project_id@,
        st.scope_id@,
        config,
    )
    &&& forall|k: int| 0 <= k < st.skipped_files@.len() ==> (#[trigger] st.skipped_files@[k]).reason@ == "oversized"@
        || st.skipped_files@[k].reason@ == "binary"@
}

impl ScanState {
    /// A scan of the repository at `repo_root` (already made absolute), with nothing
    /// found yet.
    pub fn new(repo_root: &str) -> (r: ScanState)
        ensures
            r.repo_id@ == stable_hash_spec(seq![repo_root@]),
            r.project_id@ == stable_hash_spec(seq![r.repo_id@, "project"@]),
            r.scope_id@ == stable_hash_spec(seq![repo_root@, "scope"@]),
            r.repo_root@ == repo_root@,
            r.files@.len() == 0,
            r.skipped_files@.len() == 0,
            forall|config: RepoScryerConfig| scan_wf(r, config),
    {
        let repo_id = repo_id_from_path(repo_root);
        let project_id = project_id_from_repo(&repo_id);
        let scope_id = scope_id_from_path(repo_root);
        ScanState {
            repo_id,
            project_id,
            scope_id,
            repo_root: owned(repo_root),
            files: Vec::new(),
            skipped_files: Vec::new(),
        }
    }

    /// Records a file skipped for its size.
    pub fn skip_oversized(&mut self, relative: &str)
        ensures
            final(self).repo_id == old(self).repo_id,
            final(self).project_id == old(self).project_id,
            final(self).scope_id == old(self).scope_id,
            final(self).repo_root == old(self).repo_root,
            final(self).files == old(self).files,
            skipped_views(final(self).skipped_files@) == skipped_views(old(self).skipped_files@).push(
                SkippedFileView { relative_path: relative@, reason: "oversized"@ },
            ),
            forall|config: RepoScryerConfig| scan_wf(*old(self), config) ==> scan_wf(*final(self), config),
    {
        let ghost before = self.skipped_files@;
        self.skipped_files.push(SkippedFile { relative_path: owned(relative), reason: owned("oversized") });
        assert(skipped_views(self.skipped_files@) =~= skipped_views(before).push(
            SkippedFileView { relative_path: relative@, reason: "oversized"@ },
        ));
        proof {
            reveal_strlit("oversized");
            assert forall|config: RepoScryerConfig| scan_wf(*old(self), config) implies scan_wf(*self, config) by {
                assert forall|k: int| 0 <= k < self.skipped_files@.len() implies (#[trigger] self.skipped_files@[k]).reason@
                    == "oversized"@ || self.skipped_files@[k].reason@ == "binary"@ by {
                    if k < before.len() {
                        assert(self.skipped_files@[k] == before[k]);
                    }
                }
            }
        }
    }

    /// Records read content: content of an unknown or disabled language is left out,
    /// neither recorded nor skipped; binary content is skipped; other content is recorded
    /// with its fingerprint.
    pub fn add_content(
        &mut self,
        path: &str,
        relative: &str,
        bytes: &[u8],
        size: u64,
        mtime: u64,
        config: &RepoScryerConfig,
    )
        requires
            !under_ignored(path@, old(self).repo_root@, string_views(config.ignored_dirs@)),
            size <= config.max_file_size_bytes,
        ensures
            scan_wf(*old(self), *config) ==> scan_wf(*final(self), *config),
            final(self).repo_id == old(self).repo_id,
            final(self).project_id == old(self).project_id,
            final(self).scope_id == old(self).scope_id,
            final(self).repo_root == old(self).repo_root,
            scan_language(path@, *config) is None ==> final(self).files == old(self).files
                && final(self).skipped_files == old(self).skipped_files,
            scan_language(path@, *config) is Some && looks_binary(bytes@) ==> final(self).files == old(self).files
                && skipped_views(final(self).skipped_files@) == skipped_views(old(self).skipped_files@).push(
                SkippedFileView { relative_path: relative@, reason: "binary"@ },
            ),
            scan_language(path@, *config) is Some && !looks_binary(bytes@) ==> final(self).skipped_files
                == old(self).skipped_files && code_views(final(self).files@) == code_views(old(self).files@).push(
                scanned_file(*old(self), path@, relative@, scan_language(path@, *config)->0, bytes@, size, mtime),
            ),
    {
        let language = match scanned_language(path, config) {
            Some(l) => l,
            None => return,
        };
        if is_binary(bytes) {
            let ghost before = self.skipped_files@;
            self.skipped_files.push(SkippedFile { relative_path: owned(relative), reason: owned("binary") });
            assert(skipped_views(self.skipped_files@) =~= skipped_views(before).push(
                SkippedFileView { relative_path: relative@, reason: "binary"@ },
            ));
            proof {
                if scan_wf(*old(self), *config) {
                    assert forall|k: int| 0 <= k < self.skipped_files@.len() implies (
                    #[trigger] self.skipped_files@[k]).reason@ == "oversized"@ || self.skipped_files@[k].reason@
                        == "binary"@ by {
                        if k < before.len() {
                            assert(self.skipped_files@[k] == before[k]);
                        }
                    }
                }
            }
            return;
        }
        let file_id = file_id_from_project_scope_path(&self.project_id, &self.scope_id, relative);
        let f = CodeFile {
            repo_id: self.repo_id.clone(),
            file_id,
            path: owned(path),
            relative_path: owned(relative),
            language,
            fingerprint: FileFingerprint { sha256: sha256_hex(bytes), size_bytes: size, mtime_seconds: mtime },
        };
        let ghost before = self.files@;
        let ghost st = *self;
        self.files.push(f);
        assert(f@ == scanned_file(st, path@, relative@, language, bytes@, size, mtime));
        assert(code_views(self.files@) =~= code_views(before).push(f@));
        proof {
            if scan_wf(*old(self), *config) {
                assert forall|i: int| 0 <= i < self.files@.len() implies file_ok(
                    #[trigger] self.files@[i]@,
                    self.repo_root@,
                    self.project_id@,
                    self.scope_id@,
                    *config,
                ) by {
                    if i < before.len() {
                        assert(self.files@[i] == before[i]);
                    } else {
                        assert(self.files@[i] == f);
                    }
                }
            }
        }
    }

    /// The result of the scan: files and skipped files, each sorted by relative path.
    pub fn finish(self) -> (r: ScanResult)
        ensures
            r.repo_id == self.repo_id,
            r.repo_root == self.repo_root,
            code_views(r.files@) == sorted_by(code_views(self.files@), file_view_key()),
            skipped_views(r.skipped_files@) == sorted_by(skipped_views(self.skipped_files@), skipped_view_key()),
    {
        let ghost fs = self.files@;
        let ghost ss = self.skipped_files@;
        let files = stable_sort(self.files);
        let skipped_files = stable_sort(self.skipped_files);
        proof {
            let f = |x: CodeFile| x@;
            assert forall|x: CodeFile| #[trigger] key_of::<CodeFile>()(x) == file_view_key()(f(x)) by {}
            lemma_sorted_by_map(fs, f, key_of::<CodeFile>(), file_view_key());
            let g = |x: SkippedFile| x@;
            assert forall|x: SkippedFile| #[trigger] key_of::<SkippedFile>()(x) == skipped_view_key()(g(x)) by {}
            lemma_sorted_by_map(ss, g, key_of::<SkippedFile>(), skipped_view_key());
        }
        ScanResult { repo_id: self.repo_id, repo_root: self.repo_root, files, skipped_files }
    }
}

/// Every file a finished scan lists was read as an enabled language, lies under no
/// ignored directory below the root, is within the size limit, has a 64-character hash
/// and the identifier of its relative path in the scope; every skipped file was skipped
/// as oversized or binary.
pub proof fn law_scan_files_ok(st: ScanState, config: RepoScryerConfig)
    requires
        scan_wf(st, config),
    ensures
        forall|j: int|
            0 <= j < sorted_by(code_views(st.files@), file_view_key()).len() ==> file_ok(
                #[trigger] sorted_by(code_views(st.files@), file_view_key())[j],
                st.repo_root@,
                st.project_id@,
                st.scope_id@,
                config,
            ),
        forall|j: int|
            0 <= j < sorted_by(skipped_views(st.skipped_files@), skipped_view_key()).len() ==> {
                let k = #[trigger] sorted_by(skipped_views(st.skipped_files@), skipped_view_key())[j];
                k.reason == "oversized"@ || k.reason == "binary"@
            },
{
    broadcast use vstd::seq_lib::group_to_multiset_ensures;

    let fv = code_views(st.files@);
    let sv = skipped_views(st.skipped_files@);
    let fs = sorted_by(fv, file_view_key());
    let ss = sorted_by(sv, skipped_view_key());
    lemma_sorted_by_to_multiset(fv, file_view_key());
    lemma_sorted_by_to_multiset(sv, skipped_view_key());
    assert forall|j: int| 0 <= j < fs.len() implies file_ok(
        #[trigger] fs[j],
        st.repo_root@,
        st.project_id@,
        st.scope_id@,
        config,
    ) by {
        assert(fs.contains(fs[j]));
        assert(fv.to_multiset().count(fs[j]) > 0);
        assert(fv.contains(fs[j]));
        let i = choose|i: int| 0 <= i < fv.len() && fv[i] == fs[j];
        assert(fv[i] == st.files@[i]@);
    }
    assert forall|j: int| 0 <= j < ss.len() implies {
        let k = #[trigger] ss[j];
        k.reason == "oversized"@ || k.reason == "binary"@
    } by {
        assert(ss.contains(ss[j]));
        assert(sv.to_multiset().count(ss[j]) > 0);
        assert(sv.contains(ss[j]));
        let i = choose|i: int| 0 <= i < sv.len() && sv[i] == ss[j];
        assert(sv[i] == st.skipped_files@[i]@);
    }
}

/// A finished scan lists its files, and its skipped files, in path order.
pub proof fn law_scan_in_path_order(files: Seq<CodeFileView>, skipped: Seq<SkippedFileView>)
    ensures
        forall|i: int, j: int|
            0 <= i < j < sorted_by(files, file_view_key()).len() ==> !path_lt(
                #[trigger] sorted_by(files, file_view_key())[j].relative_path,
                #[trigger] sorted_by(files, file_view_key())[i].relative_path,
            ),
        forall|i: int, j: int|
            0 <= i < j < sorted_by(skipped, skipped_view_key()).len() ==> !path_lt(
                #[trigger] sorted_by(skipped, skipped_view_key())[j].relative_path,
                #[trigger] sorted_by(skipped, skipped_view_key())[i].relative_path,
            ),
{
    let f = sorted_by(files, file_view_key());
    let k = sorted_by(skipped, skipped_view_key());
    lemma_sorted_by_in_order(files, file_view_key());
    lemma_sorted_by_in_order(skipped, skipped_view_key());
    assert forall|i: int, j: int| 0 <= i < j < f.len() implies !path_lt(
        #[trigger] f[j].relative_path,
        #[trigger] f[i].relative_path,
    ) by {
        assert(!key_before(file_view_key()(f[j]), file_view_key()(f[i])));
    }
    assert forall|i: int, j: int| 0 <= i < j < k.len() implies !path_lt(
        #[trigger] k[j].relative_path,
        #[trigger] k[i].relative_path,
    ) by {
        assert(!key_before(skipped_view_key()(k[j]), skipped_view_key()(k[i])));
    }
}

} // verus!
