use reposcryer::config::RepoScryerConfig;
use reposcryer::hash::stable_hash;
use reposcryer::ingest::{check_entry, detect_language, is_binary, sha256_hex, should_skip, EntryCheck, ScanState};
use reposcryer::model::Language;

#[test]
fn detects_rust_language_from_extension() {
    assert_eq!(detect_language("demo.rs"), Language::Rust);
}

#[test]
fn detects_each_language_by_extension() {
    assert_eq!(detect_language("a/b.py"), Language::Python);
    assert_eq!(detect_language("x.jsx"), Language::JavaScript);
    assert_eq!(detect_language("x.tsx"), Language::TypeScript);
    assert_eq!(detect_language("X.java"), Language::Java);
    assert_eq!(detect_language("main.go"), Language::Go);
    assert_eq!(detect_language("README"), Language::Unknown);
    assert_eq!(detect_language(".rs"), Language::Unknown);
    assert_eq!(detect_language("a.RS"), Language::Unknown);
    assert_eq!(detect_language("dir.rs/file"), Language::Unknown);
}

#[test]
fn binary_content_has_a_zero_byte_early() {
    assert!(!is_binary(b"pub fn run() {}\n"));
    assert!(is_binary(b"ab\0cd"));
    let mut late = vec![b'a'; 1024];
    late.push(0);
    assert!(!is_binary(&late));
    late[1023] = 0;
    assert!(is_binary(&late));
    assert!(!is_binary(&[]));
}

#[test]
fn sha256_of_content_is_lower_hex() {
    assert_eq!(sha256_hex(b""), "e3b0c44298fc1c149afbf4c8996fb92427ae41e4649b934ca495991b7852b855");
    assert_eq!(sha256_hex(b"abc"), "ba7816bf8f01cfea414140de5dae2223b00361a396177a9cb410ff61f20015ad");
}

#[test]
fn ignored_directories_are_skipped_below_the_root() {
    let config = RepoScryerConfig::default();
    assert!(should_skip("/r/target/ignored.rs", "/r", &config));
    assert!(should_skip("/r/a/node_modules/x.js", "/r", &config));
    assert!(!should_skip("/r/src/lib.rs", "/r", &config));
    // Only the part below the root counts.
    assert!(!should_skip("/build/src/lib.rs", "/build", &config));
    assert!(should_skip("/build/build/lib.rs", "/build", &config));
    // A name that merely contains an ignored one is kept.
    assert!(!should_skip("/r/targets/x.rs", "/r", &config));
}

#[test]
fn entries_are_checked_for_ignored_dirs_then_size() {
    let config = RepoScryerConfig { max_file_size_bytes: 18, ..RepoScryerConfig::default() };
    assert_eq!(check_entry("/r/target/big.rs", "/r", 100, &config), EntryCheck::Ignore);
    assert_eq!(check_entry("/r/src/big.rs", "/r", 19, &config), EntryCheck::Oversized);
    assert_eq!(check_entry("/r/src/ok.rs", "/r", 18, &config), EntryCheck::Read);
}

#[test]
fn scan_state_records_files_skips_and_sorts() {
    let config = RepoScryerConfig { enabled_languages: vec![Language::Rust], ..RepoScryerConfig::default() };
    let mut scan = ScanState::new("/r");
    scan.add_content("/r/src/z.rs", "src/z.rs", b"fn z() {}\n", 10, 5, &config);
    scan.add_content("/r/src/app.py", "src/app.py", b"x=1\n", 4, 5, &config);
    scan.add_content("/r/src/bin.rs", "src/bin.rs", b"\0\0", 2, 5, &config);
    scan.add_content("/r/notes.txt", "notes.txt", b"hello", 5, 5, &config);
    scan.skip_oversized("src/large.rs");
    scan.add_content("/r/src/a.rs", "src/a.rs", b"fn a() {}\n", 10, 7, &config);
    let result = scan.finish();

    let names: Vec<&str> = result.files.iter().map(|f| f.relative_path.as_str()).collect();
    assert_eq!(names, ["src/a.rs", "src/z.rs"]);
    let skipped: Vec<(&str, &str)> =
        result.skipped_files.iter().map(|s| (s.relative_path.as_str(), s.reason.as_str())).collect();
    assert_eq!(skipped, [("src/bin.rs", "binary"), ("src/large.rs", "oversized")]);

    let a = &result.files[0];
    assert_eq!(a.repo_id.0, stable_hash(&["/r"]));
    let project = stable_hash(&[a.repo_id.0.as_str(), "project"]);
    let scope = stable_hash(&["/r", "scope"]);
    assert_eq!(a.file_id.0, stable_hash(&[project.as_str(), scope.as_str(), "src/a.rs"]));
    assert_eq!(a.fingerprint.sha256, sha256_hex(b"fn a() {}\n"));
    assert_eq!(a.fingerprint.sha256.len(), 64);
    assert_eq!((a.fingerprint.size_bytes, a.fingerprint.mtime_seconds), (10, 7));
    assert_eq!(a.language, Language::Rust);
    assert_eq!(result.repo_root, "/r");
}

/// Scans files given by relative path and content as the command line's walk does:
/// each entry is checked, then read and recorded.
fn scan_entries(root: &str, entries: &[(&str, &str)], config: &RepoScryerConfig) -> reposcryer::model::ScanResult {
    let mut scan = ScanState::new(root);
    for (relative, content) in entries {
        let path = format!("{root}/{relative}");
        let size = content.len() as u64;
        match check_entry(&path, root, size, config) {
            EntryCheck::Ignore => {},
            EntryCheck::Oversized => scan.skip_oversized(relative),
            EntryCheck::Read => scan.add_content(&path, relative, content.as_bytes(), size, 1, config),
        }
    }
    scan.finish()
}

#[test]
fn ignores_target_and_node_modules() {
    let entries = [
        ("src/lib.rs", "pub fn run() {}\n"),
        ("target/ignored.rs", "pub fn nope() {}\n"),
        ("node_modules/ignored.js", "export const nope = 1;\n"),
    ];
    let scan = scan_entries("/tmp/scan", &entries, &RepoScryerConfig::default());
    assert_eq!(scan.files.len(), 1);
    assert_eq!(scan.files[0].relative_path, "src/lib.rs");
    assert!(scan.skipped_files.is_empty());
}

#[test]
fn computes_sha256() {
    let scan = scan_entries("/tmp/scan", &[("src/lib.rs", "pub fn run() {}\n")], &RepoScryerConfig::default());
    assert_eq!(scan.files.len(), 1);
    assert_eq!(scan.files[0].fingerprint.sha256.len(), 64);
}

#[test]
fn honors_configured_ignored_dirs_size_limit_and_languages() {
    let entries = [
        ("src/lib.rs", "pub fn run() {}\n"),
        ("src/app.py", "x=1\n"),
        ("src/large.rs", "pub fn run_large() {}\n"),
        ("generated/ignored.rs", "pub fn generated() {}\n"),
    ];
    let config = RepoScryerConfig {
        ignored_dirs: vec!["generated".to_string()],
        max_file_size_bytes: 18,
        enabled_languages: vec![Language::Rust],
        ..RepoScryerConfig::default()
    };
    let scan = scan_entries("/tmp/scan", &entries, &config);
    let names: Vec<_> = scan.files.iter().map(|file| file.relative_path.clone()).collect();
    assert_eq!(names, ["src/lib.rs"]);
    assert_eq!(scan.skipped_files.len(), 1);
    assert_eq!(scan.skipped_files[0].relative_path, "src/large.rs");
    assert_eq!(scan.skipped_files[0].reason, "oversized");
}

#[test]
fn unsupported_languages_are_left_out_not_skipped() {
    let config = RepoScryerConfig::default();
    // An unknown language is left out before the size limit is looked at.
    assert_eq!(check_entry("/r/logo.png", "/r", 10_000_000, &config), EntryCheck::Ignore);
    let python_off = RepoScryerConfig { enabled_languages: vec![Language::Rust], ..RepoScryerConfig::default() };
    assert_eq!(check_entry("/r/app.py", "/r", 10_000_000, &python_off), EntryCheck::Ignore);
    assert_eq!(check_entry("/r/app.py", "/r", 10_000_000, &config), EntryCheck::Oversized);

    let mut scan = ScanState::new("/r");
    scan.add_content("/r/logo.png", "logo.png", b"\x89PNG\0\0", 6, 1, &config);
    scan.add_content("/r/app.py", "app.py", b"\0", 1, 1, &python_off);
    let result = scan.finish();
    assert!(result.files.is_empty());
    assert!(result.skipped_files.is_empty());
}
