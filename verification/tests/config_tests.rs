use reposcryer::config::{
    escape_toml_string, parse_language, quote_string_list, ConfigError, RawConfig, RepoScryerConfig, CONFIG_DIR,
    CONFIG_FILE,
};
use reposcryer::model::Language;

/// Reads the settings of a configuration text, as a file would give them.
fn raw_from_toml(text: &str) -> RawConfig {
    let table: toml::Table = toml::from_str(text).expect("valid toml");
    let strings = |key: &str| {
        table.get(key).map(|v| {
            v.as_array().expect("array").iter().map(|x| x.as_str().expect("string").to_string()).collect::<Vec<_>>()
        })
    };
    RawConfig {
        output_dir: table.get("output_dir").map(|v| v.as_str().expect("string").to_string()),
        max_file_size_bytes: table.get("max_file_size_bytes").map(|v| v.as_integer().expect("integer") as u64),
        ignored_dirs: strings("ignored_dirs"),
        enabled_languages: strings("enabled_languages"),
    }
}

#[test]
fn default_config_uses_dot_reposcryer() {
    let config = RepoScryerConfig::default();
    assert_eq!(config.output_dir, ".reposcryer");
}

#[test]
fn default_ignored_dirs_cover_required_defaults() {
    let config = RepoScryerConfig::default();
    for dir in [".git", "node_modules", "target", "dist", "build", "vendor"] {
        assert!(config.ignored_dirs.iter().any(|candidate| candidate == dir));
    }
}

#[test]
fn parses_dot_reposcryer_config_toml() {
    let raw = raw_from_toml(
        r#"
output_dir = ".cache/reposcryer"
max_file_size_bytes = 128
ignored_dirs = [".git", ".reposcryer", "generated"]
enabled_languages = ["rust", "python"]
"#,
    );
    let config = RepoScryerConfig::from_raw(raw).expect("config");

    assert_eq!(config.output_dir, ".cache/reposcryer");
    assert_eq!(config.max_file_size_bytes, 128);
    assert!(config.ignored_dirs.iter().any(|dir| dir == ".git"));
    assert!(config.ignored_dirs.iter().any(|dir| dir == ".reposcryer"));
    assert!(config.ignored_dirs.iter().any(|dir| dir == "generated"));
    assert_eq!(config.enabled_languages, [Language::Rust, Language::Python]);
}

#[test]
fn invalid_language_is_rejected() {
    let raw = raw_from_toml(r#"enabled_languages = ["rust", "brainfuck"]"#);
    let error = RepoScryerConfig::from_raw(raw).expect_err("invalid config");
    assert!(error.message().contains("unknown language"));
    assert_eq!(error, ConfigError::UnknownLanguage("brainfuck".to_string()));
}

#[test]
fn empty_settings_keep_defaults() {
    let config = RepoScryerConfig::from_raw(raw_from_toml("")).expect("config");
    assert_eq!(config, RepoScryerConfig::default());
}

#[test]
fn each_invalid_setting_has_its_error() {
    let cases = [
        ("output_dir = \"  \"", ConfigError::EmptyOutputDir, "output_dir must not be empty"),
        ("max_file_size_bytes = 0", ConfigError::ZeroMaxFileSize, "max_file_size_bytes must be greater than zero"),
        ("ignored_dirs = [\"a\", \" \"]", ConfigError::EmptyIgnoredDir, "ignored_dirs must not contain empty entries"),
        ("enabled_languages = []", ConfigError::NoLanguages, "enabled_languages must not be empty"),
    ];
    for (text, error, message) in cases {
        let got = RepoScryerConfig::from_raw(raw_from_toml(text)).expect_err("refused");
        assert_eq!(got.message(), message);
        assert_eq!(got, error);
    }
    // The first failing check wins.
    let got = RepoScryerConfig::from_raw(raw_from_toml("max_file_size_bytes = 0\noutput_dir = \"\"")).unwrap_err();
    assert_eq!(got, ConfigError::EmptyOutputDir);
    assert_eq!(
        ConfigError::UnknownLanguage("cobol".to_string()).message(),
        "unknown language in enabled_languages: cobol"
    );
}

#[test]
fn ignored_dirs_merge_without_duplicates() {
    let config =
        RepoScryerConfig::from_raw(raw_from_toml("ignored_dirs = [\"target\", \"gen\", \"gen\", \"out\"]")).expect("ok");
    assert_eq!(
        config.ignored_dirs,
        [".git", ".reposcryer", "node_modules", "target", "dist", "build", "vendor", "gen", "out"]
    );
}

#[test]
fn languages_by_name_or_extension() {
    assert_eq!(parse_language("rs"), Ok(Language::Rust));
    assert_eq!(parse_language("py"), Ok(Language::Python));
    assert_eq!(parse_language("js"), Ok(Language::JavaScript));
    assert_eq!(parse_language("ts"), Ok(Language::TypeScript));
    assert_eq!(parse_language("typescript"), Ok(Language::TypeScript));
    assert_eq!(parse_language("java"), Ok(Language::Java));
    assert_eq!(parse_language("go"), Ok(Language::Go));
    assert_eq!(parse_language("Rust"), Err(ConfigError::UnknownLanguage("Rust".to_string())));
    for l in [Language::Rust, Language::Python, Language::JavaScript, Language::TypeScript, Language::Java, Language::Go] {
        assert_eq!(parse_language(l.as_str()), Ok(l));
    }
}

#[test]
fn default_config_text_reads_back() {
    let text = RepoScryerConfig::default().to_toml_string();
    assert!(text.starts_with("# RepoScryer configuration\noutput_dir = \".reposcryer\"\nmax_file_size_bytes = 1048576\n"));
    assert!(text.contains(
        "ignored_dirs = [\".git\", \".reposcryer\", \"node_modules\", \"target\", \"dist\", \"build\", \"vendor\"]\n"
    ));
    assert!(text.ends_with("enabled_languages = [\"rust\", \"python\", \"javascript\", \"typescript\", \"java\", \"go\"]\n"));
    let back = RepoScryerConfig::from_raw(raw_from_toml(&text)).expect("reads back");
    assert_eq!(back, RepoScryerConfig::default());
}

#[test]
fn toml_strings_are_escaped() {
    assert_eq!(escape_toml_string(r#"a\b"c"#), r#"a\\b\"c"#);
    assert_eq!(quote_string_list(&vec!["x".to_string(), "y\"".to_string()]), r#""x", "y\"""#);
    assert_eq!(quote_string_list(&Vec::new()), "");
    let config = RepoScryerConfig { output_dir: "we\"ird\\dir".to_string(), ..RepoScryerConfig::default() };
    let back = RepoScryerConfig::from_raw(raw_from_toml(&config.to_toml_string())).expect("reads back");
    assert_eq!(back.output_dir, "we\"ird\\dir");
}

#[test]
fn config_file_lives_under_dot_reposcryer() {
    assert_eq!(RepoScryerConfig::config_path("/tmp/repo"), "/tmp/repo/.reposcryer/config.toml");
    assert_eq!(RepoScryerConfig::config_path("/tmp/repo/"), "/tmp/repo/.reposcryer/config.toml");
    assert_eq!((CONFIG_DIR, CONFIG_FILE), (".reposcryer", "config.toml"));
}
