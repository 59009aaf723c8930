use vstd::prelude::*;
use crate::model::{language_name, Language};
use crate::paths::{join, join_to};
use crate::text::{char_is_ws, chars_of, decimal, owned, push_char, push_decimal, push_str, trim, trim_bounds};

verus! {

/// The directory, under a repository's root, that holds the configuration.
pub const CONFIG_DIR: &'static str = ".reposcryer";

/// The name of the configuration file.
pub const CONFIG_FILE: &'static str = "config.toml";

/// The settings of a scan.
#[derive(Debug, PartialEq, Eq)]
pub struct RepoScryerConfig {
    pub output_dir: String,
    pub max_file_size_bytes: u64,
    pub ignored_dirs: Vec<String>,
    pub enabled_languages: Vec<Language>,
}

pub struct ConfigView {
    pub output_dir: Seq<char>,
    pub max_file_size_bytes: u64,
    pub ignored_dirs: Seq<Seq<char>>,
    pub enabled_languages: Seq<Language>,
}

pub open spec fn string_views(v: Seq<String>) -> Seq<Seq<char>> {
    v.map_values(|s: String| s@)
}

impl View for RepoScryerConfig {
    type V = ConfigView;

    open spec fn view(&self) -> ConfigView {
        ConfigView {
            output_dir: self.output_dir@,
            max_file_size_bytes: self.max_file_size_bytes,
            ignored_dirs: string_views(self.ignored_dirs@),
            enabled_languages: self.enabled_languages@,
        }
    }
}

/// The directories a scan skips by default.
pub open spec fn default_ignored_dirs() -> Seq<Seq<char>> {
    seq![".git"@, ".reposcryer"@, "node_modules"@, "target"@, "dist"@, "build"@, "vendor"@]
}

/// The languages a scan reads by default: all it knows.
pub open spec fn default_languages() -> Seq<Language> {
    seq![Language::Rust, Language::Python, Language::JavaScript, Language::TypeScript, Language::Java, Language::Go]
}

/// The default settings: output in `.reposcryer`, files up to one mebibyte.
pub open spec fn default_config() -> ConfigView {
    ConfigView {
        output_dir: ".reposcryer"@,
        max_file_size_bytes: 1048576,
        ignored_dirs: default_ignored_dirs(),
        enabled_languages: default_languages(),
    }
}

impl Default for RepoScryerConfig {
    fn default() -> (r: Self)
        ensures
            r@ == default_config(),
    {
        let ignored_dirs = vec![
            owned(".git"),
            owned(".reposcryer"),
            owned("node_modules"),
            owned("target"),
            owned("dist"),
            owned("build"),
            owned("vendor"),
        ];
        let r = RepoScryerConfig {
            output_dir: owned(".reposcryer"),
            max_file_size_bytes: 1048576,
            ignored_dirs,
            enabled_languages: vec![
                Language::Rust,
                Language::Python,
                Language::JavaScript,
                Language::TypeScript,
                Language::Java,
                Language::Go,
            ],
        };
        assert(r@.ignored_dirs =~= default_ignored_dirs());
        assert(r@.enabled_languages =~= default_languages());
        r
    }
}

/// The settings as a configuration file gives them, each one optional.
#[derive(Debug, PartialEq, Eq)]
pub struct RawConfig {
    pub output_dir: Option<String>,
    pub max_file_size_bytes: Option<u64>,
    pub ignored_dirs: Option<Vec<String>>,
    pub enabled_languages: Option<Vec<String>>,
}

/// Why a configuration file was refused.
#[derive(Debug, PartialEq, Eq)]
pub enum ConfigError {
    EmptyOutputDir,
    ZeroMaxFileSize,
    EmptyIgnoredDir,
    NoLanguages,
    UnknownLanguage(String),
}

pub enum ConfigErrorView {
    EmptyOutputDir,
    ZeroMaxFileSize,
    EmptyIgnoredDir,
    NoLanguages,
    UnknownLanguage(Seq<char>),
}

impl View for ConfigError {
    type V = ConfigErrorView;

    open spec fn view(&self) -> ConfigErrorView {
        match self {
            ConfigError::EmptyOutputDir => ConfigErrorView::EmptyOutputDir,
            ConfigError::ZeroMaxFileSize => ConfigErrorView::ZeroMaxFileSize,
            ConfigError::EmptyIgnoredDir => ConfigErrorView::EmptyIgnoredDir,
            ConfigError::NoLanguages => ConfigErrorView::NoLanguages,
            ConfigError::UnknownLanguage(s) => ConfigErrorView::UnknownLanguage(s@),
        }
    }
}

/// The message of a configuration error.
pub open spec fn config_error_message(e: ConfigErrorView) -> Seq<char> {
    match e {
        ConfigErrorView::EmptyOutputDir => "output_dir must not be empty"@,
        ConfigErrorView::ZeroMaxFileSize => "max_file_size_bytes must be greater than zero"@,
        ConfigErrorView::EmptyIgnoredDir => "ignored_dirs must not contain empty entries"@,
        ConfigErrorView::NoLanguages => "enabled_languages must not be empty"@,
        ConfigErrorView::UnknownLanguage(name) => "unknown language in enabled_languages: "@ + name,
    }
}

impl ConfigError {
    /// What went wrong, in words.
    pub fn message(&self) -> (r: String)
        ensures
            r@ == config_error_message(self@),
    {
        match self {
            ConfigError::EmptyOutputDir => owned("output_dir must not be empty"),
            ConfigError::ZeroMaxFileSize => owned("max_file_size_bytes must be greater than zero"),
            ConfigError::EmptyIgnoredDir => owned("ignored_dirs must not contain empty entries"),
            ConfigError::NoLanguages => owned("enabled_languages must not be empty"),
            ConfigError::UnknownLanguage(name) => {
                let mut r = owned("unknown language in enabled_languages: ");
                push_str(&mut r, name.as_str());
                r
            },
        }
    }
}

/// The language a configuration names, by its name or its usual file extension.
pub open spec fn config_language(s: Seq<char>) -> Option<Language> {
    if s == "rust"@ || s == "rs"@ {
        Some(Language::Rust)
    } else if s == "python"@ || s == "py"@ {
        Some(Language::Python)
    } else if s == "javascript"@ || s == "js"@ {
        Some(Language::JavaScript)
    } else if s == "typescript"@ || s == "ts"@ {
        Some(Language::TypeScript)
    } else if s == "java"@ {
        Some(Language::Java)
    } else if s == "go"@ {
        Some(Language::Go)
    } else {
        None
    }
}

fn same_chars(a: &str, b: &str) -> (r: bool)
    ensures
        r == (a@ == b@),
{
    let x = chars_of(a);
    let y = chars_of(b);
    if x.len() != y.len() {
        return false;
    }
    let mut i: usize = 0;
    while i < x.len()
        invariant
            x@ == a@,
            y@ == b@,
            x@.len() == y@.len(),
            i <= x@.len(),
            forall|k: int| 0 <= k < i ==> x@[k] == y@[k],
        decreases x@.len() - i,
    {
        if x[i] != y[i] {
            return false;
        }
        i = i + 1;
    }
    assert(a@ =~= b@);
    true
}

/// The language a configuration names; an unknown name is an error.
pub fn parse_language(language: &str) -> (r: Result<Language, ConfigError>)
    ensures
        match r {
            Ok(l) => config_language(language@) == Some(l),
            Err(e) => config_language(language@) is None && e@ == ConfigErrorView::UnknownLanguage(language@),
        },
{
    if same_chars(language, "rust") || same_chars(language, "rs") {
        Ok(Language::Rust)
    } else if same_chars(language, "python") || same_chars(language, "py") {
        Ok(Language::Python)
    } else if same_chars(language, "javascript") || same_chars(language, "js") {
        Ok(Language::JavaScript)
    } else if same_chars(language, "typescript") || same_chars(language, "ts") {
        Ok(Language::TypeScript)
    } else if same_chars(language, "java") {
        Ok(Language::Java)
    } else if same_chars(language, "go") {
        Ok(Language::Go)
    } else {
        Err(ConfigError::UnknownLanguage(owned(language)))
    }
}

/// The languages named, in order; the first unknown name is the error.
pub open spec fn config_languages(names: Seq<Seq<char>>) -> Result<Seq<Language>, Seq<char>>
    decreases names.len(),
{
    if names.len() == 0 {
        Ok(seq![])
    } else {
        match config_languages(names.drop_last()) {
            Err(n) => Err(n),
            Ok(ls) => match config_language(names.last()) {
                Some(l) => Ok(ls.push(l)),
                None => Err(names.last()),
            },
        }
    }
}

/// The default ignored directories with the given ones added, each name once.
pub open spec fn merge_dirs(base: Seq<Seq<char>>, add: Seq<Seq<char>>) -> Seq<Seq<char>>
    decreases add.len(),
{
    if add.len() == 0 {
        base
    } else {
        let m = merge_dirs(base, add.drop_last());
        if m.contains(add.last()) {
            m
        } else {
            m.push(add.last())
        }
    }
}

pub open spec fn raw_dirs(raw: RawConfig) -> Option<Seq<Seq<char>>> {
    match raw.ignored_dirs {
        Some(v) => Some(string_views(v@)),
        None => None,
    }
}

pub open spec fn raw_languages(raw: RawConfig) -> Option<Seq<Seq<char>>> {
    match raw.enabled_languages {
        Some(v) => Some(string_views(v@)),
        None => None,
    }
}

/// The settings a configuration file gives: each setting it has replaces the default,
/// but ignored directories add to the default ones. An empty output directory, a zero
/// size limit, an empty ignored directory, an empty language list or an unknown
/// language is refused, checked in that order.
pub open spec fn config_from_raw(raw: RawConfig) -> Result<ConfigView, ConfigErrorView> {
    let d = default_config();
    if raw.output_dir is Some && trim(raw.output_dir->0@).len() == 0 {
        Err(ConfigErrorView::EmptyOutputDir)
    } else if raw.max_file_size_bytes == Some(0u64) {
        Err(ConfigErrorView::ZeroMaxFileSize)
    } else if raw_dirs(raw) is Some && exists|i: int|
        0 <= i < raw_dirs(raw)->0.len() && trim(#[trigger] raw_dirs(raw)->0[i]).len() == 0 {
        Err(ConfigErrorView::EmptyIgnoredDir)
    } else if raw_languages(raw) is Some && raw_languages(raw)->0.len() == 0 {
        Err(ConfigErrorView::NoLanguages)
    } else if raw_languages(raw) is Some && config_languages(raw_languages(raw)->0) is Err {
        Err(ConfigErrorView::UnknownLanguage(config_languages(raw_languages(raw)->0)->Err_0))
    } else {
        Ok(
            ConfigView {
                output_dir: match raw.output_dir {
                    Some(o) => o@,
                    None => d.output_dir,
                },
                max_file_size_bytes: match raw.max_file_size_bytes {
                    Some(m) => m,
                    None => d.max_file_size_bytes,
                },
                ignored_dirs: match raw_dirs(raw) {
                    Some(add) => merge_dirs(d.ignored_dirs, add),
                    None => d.ignored_dirs,
                },
                enabled_languages: match raw_languages(raw) {
                    Some(names) => config_languages(names)->Ok_0,
                    None => d.enabled_languages,
                },
            },
        )
    }
}

fn is_blank(s: &str) -> (r: bool)
    ensures
        r == (trim(s@).len() == 0),
{
    let cs = chars_of(s);
    let (lo, hi) = trim_bounds(&cs, 0, cs.len());
    assert(cs@.subrange(0, cs@.len() as int) =~= s@);
    lo == hi
}

pub(crate) fn contains_string(v: &Vec<String>, x: &String) -> (r: bool)
    ensures
        r == string_views(v@).contains(x@),
{
    let mut i: usize = 0;
    while i < v.len()
        invariant
            i <= v@.len(),
            forall|k: int| 0 <= k < i ==> v@[k]@ != x@,
        decreases v@.len() - i,
    {
        if v[i] == *x {
            assert(string_views(v@)[i as int] == x@);
            return true;
        }
        i = i + 1;
    }
    proof {
        if string_views(v@).contains(x@) {
            let k = choose|k: int| 0 <= k < string_views(v@).len() && string_views(v@)[k] == x@;
            assert(v@[k]@ == x@);
        }
    }
    false
}

impl RepoScryerConfig {
    /// The configuration file of a repository: `.reposcryer/config.toml` under its root.
    pub fn config_path(root: &str) -> (r: String)
        ensures
            r@ == join(join(root@, CONFIG_DIR@), CONFIG_FILE@),
    {
        let mut r = owned(root);
        join_to(&mut r, CONFIG_DIR);
        join_to(&mut r, CONFIG_FILE);
        r
    }

    /// The settings that a parsed configuration file gives (see `config_from_raw`).
    #[verifier::loop_isolation(false)]
    pub fn from_raw(raw: RawConfig) -> (r: Result<RepoScryerConfig, ConfigError>)
        ensures
            match r {
                Ok(c) => config_from_raw(raw) == Ok::<ConfigView, ConfigErrorView>(c@),
                Err(e) => config_from_raw(raw) == Err::<ConfigView, ConfigErrorView>(e@),
            },
    {
        let ghost raw0 = raw;
        let defaults = RepoScryerConfig::default();
        let RepoScryerConfig {
            output_dir: default_output,
            max_file_size_bytes: default_max,
            ignored_dirs: mut ignored,
            enabled_languages: default_languages_vec,
        } = defaults;
        if let Some(o) = &raw.output_dir {
            if is_blank(o.as_str()) {
                return Err(ConfigError::EmptyOutputDir);
            }
        }
        if let Some(m) = raw.max_file_size_bytes {
            if m == 0 {
                return Err(ConfigError::ZeroMaxFileSize);
            }
        }
        if let Some(dirs) = &raw.ignored_dirs {
            let mut i: usize = 0;
            while i < dirs.len()
                invariant
                    i <= dirs@.len(),
                    forall|k: int| 0 <= k < i ==> trim(#[trigger] dirs@[k]@).len() != 0,
                decreases dirs@.len() - i,
            {
                if is_blank(dirs[i].as_str()) {
                    proof {
                        assert(raw_dirs(raw) == Some(string_views(dirs@)));
                        assert(string_views(dirs@)[i as int] == dirs@[i as int]@);
                        assert(trim(raw_dirs(raw)->0[i as int]).len() == 0);
                    }
                    return Err(ConfigError::EmptyIgnoredDir);
                }
                i = i + 1;
            }
            proof {
                assert(raw_dirs(raw) == Some(string_views(dirs@)));
                assert forall|k: int| 0 <= k < string_views(dirs@).len() implies trim(
                    #[trigger] string_views(dirs@)[k],
                ).len() != 0 by {
                    assert(string_views(dirs@)[k] == dirs@[k]@);
                }
            }
        }
        let mut languages: Vec<Language> = Vec::new();
        let ghost mut names: Seq<Seq<char>> = seq![];
        if let Some(langs) = &raw.enabled_languages {
            if langs.len() == 0 {
                return Err(ConfigError::NoLanguages);
            }
            let mut i: usize = 0;
            proof {
                names = string_views(langs@);
                assert(names.take(0) =~= Seq::<Seq<char>>::empty());
            }
            while i < langs.len()
                invariant
                    i <= langs@.len(),
                    names == string_views(langs@),
                    config_languages(names.take(i as int)) == Ok::<Seq<Language>, Seq<char>>(languages@),
                decreases langs@.len() - i,
            {
                proof {
                    assert(names.take(i + 1).drop_last() =~= names.take(i as int));
                    assert(names.take(i + 1).last() == langs@[i as int]@);
                }
                match parse_language(langs[i].as_str()) {
                    Ok(l) => languages.push(l),
                    Err(e) => {
                        proof {
                            lemma_config_languages_err(names, i as int);
                            assert(raw_languages(raw) == Some(names));
                            assert(names[i as int] == langs@[i as int]@);
                        }
                        return Err(e);
                    },
                }
                i = i + 1;
            }
            proof {
                assert(names.take(names.len() as int) =~= names);
                assert(raw_languages(raw) == Some(names));
            }
        }
        assert(raw_languages(raw) is Some ==> config_languages(raw_languages(raw)->0) == Ok::<Seq<Language>, Seq<char>>(languages@));
        match raw.ignored_dirs {
            Some(dirs) => {
                let ghost add = string_views(dirs@);
                let mut i: usize = 0;
                proof {
                    assert(add.take(0) =~= Seq::<Seq<char>>::empty());
                }
                while i < dirs.len()
                    invariant
                        i <= dirs@.len(),
                        add == string_views(dirs@),
                        string_views(ignored@) == merge_dirs(default_ignored_dirs(), add.take(i as int)),
                    decreases dirs@.len() - i,
                {
                    proof {
                        assert(add.take(i + 1).drop_last() =~= add.take(i as int));
                        assert(add.take(i + 1).last() == dirs@[i as int]@);
                    }
                    if !contains_string(&ignored, &dirs[i]) {
                        let ghost before = ignored@;
                        ignored.push(dirs[i].clone());
                        assert(string_views(ignored@) =~= string_views(before).push(dirs@[i as int]@));
                    }
                    i = i + 1;
                }
                assert(add.take(add.len() as int) =~= add);
            },
            None => {},
        }
        let output_dir = match raw.output_dir {
            Some(o) => o,
            None => default_output,
        };
        let max_file_size_bytes = match raw.max_file_size_bytes {
            Some(m) => m,
            None => default_max,
        };
        let enabled_languages = if raw.enabled_languages.is_some() {
            languages
        } else {
            default_languages_vec
        };
        let config = RepoScryerConfig { output_dir, max_file_size_bytes, ignored_dirs: ignored, enabled_languages };
        assert(config@.ignored_dirs == (match raw_dirs(raw0) {
            Some(add) => merge_dirs(default_ignored_dirs(), add),
            None => default_ignored_dirs(),
        }));
        assert(config@.output_dir == (match raw0.output_dir {
            Some(o) => o@,
            None => ".reposcryer"@,
        }));
        assert(config@.max_file_size_bytes == (match raw0.max_file_size_bytes {
            Some(m) => m,
            None => 1048576u64,
        }));
        assert(config@.enabled_languages == (match raw_languages(raw0) {
            Some(names) => config_languages(names)->Ok_0,
            None => default_languages(),
        }));
        assert(config_from_raw(raw0) is Ok);
        Ok(config)
    }
}

/// The first unknown name makes the list fail with that name.
proof fn lemma_config_languages_err(names: Seq<Seq<char>>, i: int)
    requires
        0 <= i < names.len(),
        config_languages(names.take(i)) is Ok,
        config_language(names[i]) is None,
    ensures
        config_languages(names) == Err::<Seq<Language>, Seq<char>>(names[i]),
    decreases names.len() - i,
{
    assert(names.take(i + 1).drop_last() =~= names.take(i));
    assert(names.take(i + 1).last() == names[i]);
    lemma_config_languages_err_from(names, i, i + 1);
}

proof fn lemma_config_languages_err_from(names: Seq<Seq<char>>, i: int, j: int)
    requires
        0 <= i < j <= names.len(),
        config_languages(names.take(j)) == Err::<Seq<Language>, Seq<char>>(names[i]),
    ensures
        config_languages(names) == Err::<Seq<Language>, Seq<char>>(names[i]),
    decreases names.len() - j,
{
    if j < names.len() {
        assert(names.take(j + 1).drop_last() =~= names.take(j));
        lemma_config_languages_err_from(names, i, j + 1);
    } else {
        assert(names.take(j) =~= names);
    }
}

/// A value with backslashes and double quotes escaped for a TOML basic string.
pub open spec fn toml_escaped(s: Seq<char>) -> Seq<char>
    decreases s.len(),
{
    if s.len() == 0 {
        seq![]
    } else {
        toml_escaped(s.drop_last()) + if s.last() == '\\' || s.last() == '"' {
            seq!['\\', s.last()]
        } else {
            seq![s.last()]
        }
    }
}

/// The value with backslashes and double quotes escaped.
pub fn escape_toml_string(value: &str) -> (r: String)
    ensures
        r@ == toml_escaped(value@),
{
    let cs = chars_of(value);
    let mut r = String::new();
    let mut i: usize = 0;
    while i < cs.len()
        invariant
            i <= cs@.len(),
            cs@ == value@,
            r@ == toml_escaped(cs@.take(i as int)),
        decreases cs@.len() - i,
    {
        let c = cs[i];
        proof {
            assert(cs@.take(i + 1).drop_last() =~= cs@.take(i as int));
            assert(cs@.take(i + 1).last() == c);
        }
        if c == '\\' || c == '"' {
            push_char(&mut r, '\\');
        }
        push_char(&mut r, c);
        assert(r@ =~= toml_escaped(cs@.take(i + 1)));
        i = i + 1;
    }
    assert(cs@.take(cs@.len() as int) =~= cs@);
    r
}

/// Quoted, escaped values joined with `, `.
pub open spec fn quoted_list(values: Seq<Seq<char>>) -> Seq<char>
    decreases values.len(),
{
    if values.len() == 0 {
        seq![]
    } else if values.len() == 1 {
        seq!['"'] + toml_escaped(values[0]) + seq!['"']
    } else {
        quoted_list(values.drop_last()) + ", "@ + seq!['"'] + toml_escaped(values.last()) + seq!['"']
    }
}

/// The values, each quoted and escaped, joined with `, `.
pub fn quote_string_list(values: &Vec<String>) -> (r: String)
    ensures
        r@ == quoted_list(string_views(values@)),
{
    let ghost vs = string_views(values@);
    let mut r = String::new();
    let mut i: usize = 0;
    proof {
        reveal_strlit(", ");
    }
    while i < values.len()
        invariant
            i <= values@.len(),
            vs == string_views(values@),
            r@ == quoted_list(vs.take(i as int)),
        decreases values@.len() - i,
    {
        proof {
            assert(vs.take(i + 1).drop_last() =~= vs.take(i as int));
            assert(vs.take(i + 1).last() == values@[i as int]@);
            if i == 0 {
                assert(vs.take(1)[0] == values@[0]@);
            }
        }
        if i > 0 {
            push_str(&mut r, ", ");
        }
        push_char(&mut r, '"');
        let e = escape_toml_string(values[i].as_str());
        push_str(&mut r, e.as_str());
        push_char(&mut r, '"');
        assert(r@ =~= quoted_list(vs.take(i + 1)));
        i = i + 1;
    }
    assert(vs.take(vs.len() as int) =~= vs);
    r
}

/// The language names, each quoted, joined with `, `.
pub open spec fn language_list(ls: Seq<Language>) -> Seq<char>
    decreases ls.len(),
{
    if ls.len() == 0 {
        seq![]
    } else if ls.len() == 1 {
        seq!['"'] + language_name(ls[0]) + seq!['"']
    } else {
        language_list(ls.drop_last()) + ", "@ + seq!['"'] + language_name(ls.last()) + seq!['"']
    }
}

fn quote_languages(ls: &Vec<Language>) -> (r: String)
    ensures
        r@ == language_list(ls@),
{
    let mut r = String::new();
    let mut i: usize = 0;
    proof {
        reveal_strlit(", ");
    }
    while i < ls.len()
        invariant
            i <= ls@.len(),
            r@ == language_list(ls@.take(i as int)),
        decreases ls@.len() - i,
    {
        proof {
            assert(ls@.take(i + 1).drop_last() =~= ls@.take(i as int));
            assert(ls@.take(i + 1).last() == ls@[i as int]);
            if i == 0 {
                assert(ls@.take(1)[0] == ls@[0]);
            }
        }
        if i > 0 {
            push_str(&mut r, ", ");
        }
        push_char(&mut r, '"');
        push_str(&mut r, ls[i].as_str());
        push_char(&mut r, '"');
        assert(r@ =~= language_list(ls@.take(i + 1)));
        i = i + 1;
    }
    assert(ls@.take(ls@.len() as int) =~= ls@);
    r
}

/// The configuration file text of some settings.
pub open spec fn config_toml(c: ConfigView) -> Seq<char> {
    "# RepoScryer configuration\noutput_dir = \""@ + toml_escaped(c.output_dir) + "\"\nmax_file_size_bytes = "@
        + decimal(c.max_file_size_bytes as nat) + "\nignored_dirs = ["@ + quoted_list(c.ignored_dirs)
        + "]\nenabled_languages = ["@ + language_list(c.enabled_languages) + "]\n"@
}

impl RepoScryerConfig {
    /// The settings as the text of a configuration file.
    pub fn to_toml_string(&self) -> (r: String)
        ensures
            r@ == config_toml(self@),
    {
        let mut r = owned("# RepoScryer configuration\noutput_dir = \"");
        let e = escape_toml_string(self.output_dir.as_str());
        push_str(&mut r, e.as_str());
        push_str(&mut r, "\"\nmax_file_size_bytes = ");
        push_decimal(&mut r, self.max_file_size_bytes);
        push_str(&mut r, "\nignored_dirs = [");
        let q = quote_string_list(&self.ignored_dirs);
        push_str(&mut r, q.as_str());
        push_str(&mut r, "]\nenabled_languages = [");
        let l = quote_languages(&self.enabled_languages);
        push_str(&mut r, l.as_str());
        push_str(&mut r, "]\n");
        r
    }
}

/// A language reads back from its configuration name.
pub proof fn law_config_language_round_trip(l: Language)
    requires
        l != Language::Unknown,
    ensures
        config_language(language_name(l)) == Some(l),
{
    reveal_strlit("rust");
    reveal_strlit("rs");
    reveal_strlit("python");
    reveal_strlit("py");
    reveal_strlit("javascript");
    reveal_strlit("js");
    reveal_strlit("typescript");
    reveal_strlit("ts");
    reveal_strlit("java");
    reveal_strlit("go");
    assert("rust"@.len() == 4);
    assert("rs"@.len() == 2);
    assert("python"@.len() == 6);
    assert("py"@.len() == 2);
    assert("javascript"@.len() == 10);
    assert("js"@.len() == 2);
    assert("typescript"@.len() == 10);
    assert("ts"@.len() == 2);
    assert("java"@.len() == 4);
    assert("go"@.len() == 2);
    assert("python"@[0] != "rust"@[0]);
    assert("java"@[0] != "rust"@[0]);
    assert("typescript"@[0] != "javascript"@[0]);
    assert("go"@[0] != "rs"@[0]);
    assert("go"@[0] != "py"@[0]);
    assert("go"@[0] != "js"@[0]);
    assert("go"@[0] != "ts"@[0]);
}

/// Merging ignored directories keeps each name once when the defaults hold each once,
/// and holds every default and every added name.
pub proof fn law_merge_dirs(base: Seq<Seq<char>>, add: Seq<Seq<char>>)
    requires
        base.no_duplicates(),
    ensures
        merge_dirs(base, add).no_duplicates(),
        forall|x: Seq<char>| base.contains(x) || add.contains(x) <==> merge_dirs(base, add).contains(x),
    decreases add.len(),
{
    if add.len() > 0 {
        law_merge_dirs(base, add.drop_last());
        let m = merge_dirs(base, add.drop_last());
        assert forall|x: Seq<char>| base.contains(x) || add.contains(x) <==> merge_dirs(base, add).contains(x) by {
            if add.contains(x) {
                let k = choose|k: int| 0 <= k < add.len() && add[k] == x;
                if k < add.len() - 1 {
                    assert(add.drop_last()[k] == x);
                }
            }
            if add.drop_last().contains(x) {
                let k = choose|k: int| 0 <= k < add.drop_last().len() && add.drop_last()[k] == x;
                assert(add[k] == x);
            }
            if !m.contains(add.last()) {
                if m.push(add.last()).contains(x) {
                    let k = choose|k: int| 0 <= k < m.push(add.last()).len() && m.push(add.last())[k] == x;
                    if k < m.len() {
                        assert(m[k] == x);
                    }
                }
                if m.contains(x) {
                    let k = choose|k: int| 0 <= k < m.len() && m[k] == x;
                    assert(m.push(add.last())[k] == x);
                }
                assert(m.push(add.last())[m.len() as int] == add.last());
            }
        }
    }
}

/// Every accepted configuration still ignores each default directory (among them
/// `.git` and `.reposcryer`): configured directories are added to the defaults, never
/// put in their place.
pub proof fn law_defaults_stay_ignored(raw: RawConfig, dir: Seq<char>)
    requires
        config_from_raw(raw) is Ok,
        default_ignored_dirs().contains(dir),
    ensures
        config_from_raw(raw)->Ok_0.ignored_dirs.contains(dir),
{
    match raw_dirs(raw) {
        Some(add) => {
            assert(default_ignored_dirs().no_duplicates()) by {
                reveal_strlit(".git");
                reveal_strlit(".reposcryer");
                reveal_strlit("node_modules");
                reveal_strlit("target");
                reveal_strlit("dist");
                reveal_strlit("build");
                reveal_strlit("vendor");
                let d = default_ignored_dirs();
                assert(d[0].len() == 4 && d[1].len() == 11 && d[2].len() == 12 && d[3].len() == 6);
                assert(d[4].len() == 4 && d[5].len() == 5 && d[6].len() == 6);
                assert(d[0][0] != d[4][0] && d[3][0] != d[6][0]);
                assert forall|i: int, j: int| 0 <= i < d.len() && 0 <= j < d.len() && i != j implies d[i] != d[j] by {
                    if d[i] == d[j] {
                        assert(d[i].len() == d[j].len());
                        assert(d[i][0] == d[j][0]);
                    }
                }
            }
            law_merge_dirs(default_ignored_dirs(), add);
        },
        None => {},
    }
}

proof fn lemma_languages_read_back(ls: Seq<Language>)
    requires
        forall|k: int| 0 <= k < ls.len() ==> #[trigger] ls[k] != Language::Unknown,
    ensures
        config_languages(ls.map_values(|l: Language| language_name(l))) == Ok::<Seq<Language>, Seq<char>>(ls),
    decreases ls.len(),
{
    if ls.len() > 0 {
        let names = ls.map_values(|l: Language| language_name(l));
        assert(names.drop_last() =~= ls.drop_last().map_values(|l: Language| language_name(l)));
        lemma_languages_read_back(ls.drop_last());
        law_config_language_round_trip(ls.last());
        assert(names.last() == language_name(ls.last()));
        assert(ls.drop_last().push(ls.last()) =~= ls);
    } else {
        assert(ls.map_values(|l: Language| language_name(l)) =~= Seq::<Seq<char>>::empty());
        assert(ls =~= Seq::<Language>::empty());
    }
}

proof fn lemma_merge_prefix(base: Seq<Seq<char>>, s: Seq<Seq<char>>, k: int)
    requires
        base.len() <= s.len(),
        s.take(base.len() as int) == base,
        s.no_duplicates(),
        0 <= k <= s.len(),
    ensures
        merge_dirs(base, s.take(k)) == (if k <= base.len() { base } else { s.take(k) }),
    decreases k,
{
    if k == 0 {
        assert(s.take(0) =~= Seq::<Seq<char>>::empty());
    } else {
        lemma_merge_prefix(base, s, k - 1);
        assert(s.take(k).drop_last() =~= s.take(k - 1));
        assert(s.take(k).last() == s[k - 1]);
        let m = merge_dirs(base, s.take(k - 1));
        if k <= base.len() {
            assert(base[k - 1] == s[k - 1]);
            assert(m.contains(s[k - 1]));
        } else {
            if k - 1 == base.len() {
                assert(m == s.take(k - 1)) by {
                    assert(s.take(k - 1) =~= base);
                }
            }
            assert(m == s.take(k - 1));
            assert(!m.contains(s[k - 1])) by {
                if m.contains(s[k - 1]) {
                    let t = choose|t: int| 0 <= t < m.len() && m[t] == s[k - 1];
                    assert(s[t] == s[k - 1]);
                }
            }
            assert(m.push(s[k - 1]) =~= s.take(k));
        }
    }
}

/// Valid settings read back unchanged: where a configuration file gives every setting
/// as `to_toml_string` writes it (the output directory, the size limit, the ignored
/// directories and the language names), the settings it gives are those settings.
/// Valid here means a non-blank output directory, a positive size limit, ignored
/// directories that start with the defaults and hold each name once, none blank, and at
/// least one language, none unknown.
pub proof fn law_settings_read_back(raw: RawConfig, c: ConfigView)
    requires
        raw.output_dir is Some && raw.output_dir->0@ == c.output_dir,
        raw.max_file_size_bytes == Some(c.max_file_size_bytes),
        raw_dirs(raw) == Some(c.ignored_dirs),
        raw_languages(raw) == Some(c.enabled_languages.map_values(|l: Language| language_name(l))),
        trim(c.output_dir).len() > 0,
        c.max_file_size_bytes > 0,
        default_ignored_dirs().len() <= c.ignored_dirs.len(),
        c.ignored_dirs.take(default_ignored_dirs().len() as int) == default_ignored_dirs(),
        c.ignored_dirs.no_duplicates(),
        forall|k: int| 0 <= k < c.ignored_dirs.len() ==> trim(#[trigger] c.ignored_dirs[k]).len() > 0,
        c.enabled_languages.len() > 0,
        forall|k: int| 0 <= k < c.enabled_languages.len() ==> #[trigger] c.enabled_languages[k] != Language::Unknown,
    ensures
        config_from_raw(raw) == Ok::<ConfigView, ConfigErrorView>(c),
{
    lemma_languages_read_back(c.enabled_languages);
    let d = c.ignored_dirs;
    lemma_merge_prefix(default_ignored_dirs(), d, d.len() as int);
    assert(d.take(d.len() as int) =~= d);
    if d.len() == default_ignored_dirs().len() {
        assert(d =~= default_ignored_dirs());
    }
    assert(merge_dirs(default_ignored_dirs(), d) == d);
    assert(c.enabled_languages.map_values(|l: Language| language_name(l)).len() > 0);
}

} // verus!


