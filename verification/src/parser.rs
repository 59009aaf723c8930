use vstd::prelude::*;
use crate::hash::stable_hash_spec;
use crate::ids::{chunk_id_from_parts, import_id_from_parts, symbol_id_from_parts, warning_id_from_parts, FileId};
use crate::matchers::{
    bounds_give, decl_at, decl_match, from_import, from_import_at, go_method, go_method_at, go_quoted,
    go_quoted_at, go_type, go_type_at, impl_header, impl_header_at, java_method, java_method_at,
    js_import, js_import_at, kw_rest, kw_rest_at, pair_bounds_give, require_at, require_call,
    until_semicolon, until_semicolon_at, Tail,
};
use crate::model::{
    Chunk, ChunkView, CodeChunk, CodeFile, Import, ImportView, IndexWarning, IndexWarningView,
    Language, ParsedFile, ParsedFileView, Symbol, SymbolKind, SymbolView,
};
use crate::text::{
    chars_of, contains, contains_chars, decimal, lines, owned, push_str, split_lines, string_of, trim,
    trim_bounds, line_end, lemma_line_end_bounds, strip_cr,
};

verus! {

/// The version of the heuristic parsers.
pub const PARSER_VERSION: &'static str = "parser-heuristic-v2";

/// The version of the chunker.
pub const CHUNKER_VERSION: &'static str = "symbol-range-v1";

/// A declaration found on a line: its name and kind.
pub type LineDecl = (Seq<char>, SymbolKind);

/// The capture that bounds give in a line.
pub open spec fn cap(l: Seq<char>, m: Option<(usize, usize)>) -> Option<Seq<char>> {
    match m {
        Some((lo, hi)) => Some(l.subrange(lo as int, hi as int)),
        None => None,
    }
}

/// One declaration of kind `k` where the pattern matched.
pub open spec fn opt_decl(m: Option<Seq<char>>, k: SymbolKind) -> Seq<LineDecl> {
    match m {
        Some(n) => seq![(n, k)],
        None => seq![],
    }
}

/// One import target where the pattern matched, trimmed or as captured.
pub open spec fn opt_target(m: Option<Seq<char>>, trimmed: bool) -> Seq<Seq<char>> {
    match m {
        Some(t) => seq![if trimmed { trim(t) } else { t }],
        None => seq![],
    }
}

/// The declarations a parser finds on one line, in the order it records them. For Rust,
/// an `impl` header records the implemented type and no function; a function inside an
/// `impl` block is a method.
pub open spec fn line_decls(lang: Language, l: Seq<char>, in_impl: bool) -> Seq<LineDecl> {
    match lang {
        Language::Rust => opt_decl(decl_match(l, ""@, "mod"@, Tail::Semicolon), SymbolKind::Module)
            + opt_decl(decl_match(l, "pub"@, "struct"@, Tail::Ident), SymbolKind::Struct)
            + opt_decl(decl_match(l, "pub"@, "enum"@, Tail::Ident), SymbolKind::Enum)
            + opt_decl(decl_match(l, "pub"@, "trait"@, Tail::Ident), SymbolKind::Trait)
            + (if impl_header(l) is Some {
            opt_decl(impl_header(l), SymbolKind::Type)
        } else {
            opt_decl(
                decl_match(l, "pub"@, "fn"@, Tail::Ident),
                if in_impl {
                    SymbolKind::Method
                } else {
                    SymbolKind::Function
                },
            )
        }),
        Language::Python => opt_decl(decl_match(l, ""@, "class"@, Tail::Ident), SymbolKind::Class)
            + opt_decl(decl_match(l, ""@, "def"@, Tail::Ident), SymbolKind::Function),
        Language::JavaScript | Language::TypeScript => opt_decl(
            decl_match(l, "export"@, "function"@, Tail::Ident),
            SymbolKind::Function,
        ) + opt_decl(decl_match(l, "export"@, "class"@, Tail::Ident), SymbolKind::Class) + opt_decl(
            decl_match(l, "export"@, "const"@, Tail::Arrow),
            SymbolKind::Function,
        ),
        Language::Java => opt_decl(decl_match(l, "public"@, "class"@, Tail::Ident), SymbolKind::Class)
            + opt_decl(decl_match(l, "public"@, "interface"@, Tail::Ident), SymbolKind::Interface)
            + opt_decl(java_method(l), SymbolKind::Method),
        Language::Go => (if go_method(l) is Some {
            opt_decl(go_method(l), SymbolKind::Method)
        } else {
            opt_decl(decl_match(l, ""@, "func"@, Tail::Call), SymbolKind::Function)
        }) + (match go_type(l) {
            Some((n, is_struct)) => seq![
                (n, if is_struct {
                    SymbolKind::Struct
                } else {
                    SymbolKind::Interface
                }),
            ],
            None => seq![],
        }),
        Language::Unknown => seq![],
    }
}

/// The import targets a parser finds on one line, in order. A Python `from` import
/// joins its module and its names with `::`.
pub open spec fn line_imports(lang: Language, l: Seq<char>) -> Seq<Seq<char>> {
    match lang {
        Language::Rust => opt_target(until_semicolon(l, "use"@), true) + opt_target(
            decl_match(l, ""@, "mod"@, Tail::Semicolon),
            true,
        ),
        Language::Python => opt_target(kw_rest(l, "import"@), true) + (match from_import(l) {
            Some((a, b)) => seq![trim(a) + "::"@ + trim(b)],
            None => seq![],
        }),
        Language::JavaScript | Language::TypeScript => opt_target(js_import(l), false) + opt_target(
            require_call(l),
            false,
        ),
        Language::Java => opt_target(until_semicolon(l, "import"@), true),
        Language::Go => opt_target(go_quoted(l), false),
        Language::Unknown => seq![],
    }
}

/// Opening minus closing braces of a line.
pub open spec fn brace_delta(l: Seq<char>) -> int
    decreases l.len(),
{
    if l.len() == 0 {
        0
    } else {
        brace_delta(l.drop_last()) + if l.last() == '{' {
            1int
        } else if l.last() == '}' {
            -1int
        } else {
            0int
        }
    }
}

/// Whether the Rust parser is inside an `impl` block, and its brace depth, after a
/// line. An `impl` header enters the block and adds the line's braces; inside the block,
/// a line adds its braces and leaves the block where the depth falls to zero or below.
pub open spec fn next_impl_state(l: Seq<char>, st: (bool, int)) -> (bool, int) {
    let d = brace_delta(l);
    if impl_header(l) is Some {
        (true, st.1 + d)
    } else if st.0 {
        if st.1 + d <= 0 {
            (false, 0)
        } else {
            (true, st.1 + d)
        }
    } else {
        st
    }
}

/// The `impl` state after the given lines of a Rust file.
pub open spec fn impl_state(ls: Seq<Seq<char>>) -> (bool, int)
    decreases ls.len(),
{
    if ls.len() == 0 {
        (false, 0)
    } else {
        next_impl_state(ls.last(), impl_state(ls.drop_last()))
    }
}

/// Whether a line is read inside an `impl` block, after the lines before it.
pub open spec fn in_impl_before(lang: Language, ls: Seq<Seq<char>>) -> bool {
    lang == Language::Rust && impl_state(ls).0
}

/// The symbol recorded for a declaration on line `line` (counted from 1).
pub open spec fn symbol_of(file: CodeFile, d: LineDecl, line: nat) -> SymbolView {
    SymbolView {
        symbol_id: stable_hash_spec(seq![file.relative_path@, d.0, decimal(line), decimal(line)]),
        file_id: file.file_id@,
        file_path: file.relative_path@,
        name: d.0,
        kind: d.1,
        range: CodeChunk { start_line: line as usize, end_line: line as usize },
        language: file.language,
    }
}

/// The import recorded for a target on line `line`.
pub open spec fn import_of(file: CodeFile, t: Seq<char>, line: nat) -> ImportView {
    ImportView {
        import_id: stable_hash_spec(seq![file.file_id@, t, decimal(line)]),
        from_file_id: file.file_id@,
        raw_target: t,
        line: line as usize,
    }
}

/// The symbols of the declarations of one line.
pub open spec fn line_symbols(file: CodeFile, ds: Seq<LineDecl>, line: nat) -> Seq<SymbolView> {
    ds.map_values(|d: LineDecl| symbol_of(file, d, line))
}

/// The imports of the targets of one line.
pub open spec fn line_import_views(file: CodeFile, ts: Seq<Seq<char>>, line: nat) -> Seq<ImportView> {
    ts.map_values(|t: Seq<char>| import_of(file, t, line))
}

/// The symbols a parser records for the given lines, in line order.
pub open spec fn found_symbols(file: CodeFile, lang: Language, ls: Seq<Seq<char>>) -> Seq<SymbolView>
    decreases ls.len(),
{
    if ls.len() == 0 {
        seq![]
    } else {
        found_symbols(file, lang, ls.drop_last()) + line_symbols(
            file,
            line_decls(lang, ls.last(), in_impl_before(lang, ls.drop_last())),
            ls.len(),
        )
    }
}

/// The imports a parser records for the given lines, in line order.
pub open spec fn found_imports(file: CodeFile, lang: Language, ls: Seq<Seq<char>>) -> Seq<ImportView>
    decreases ls.len(),
{
    if ls.len() == 0 {
        seq![]
    } else {
        found_imports(file, lang, ls.drop_last()) + line_import_views(file, line_imports(lang, ls.last()), ls.len())
    }
}

/// The chunk of a symbol: its line range, labelled `symbol:` and its name.
pub open spec fn chunk_of(file: CodeFile, s: SymbolView) -> ChunkView {
    ChunkView {
        chunk_id: stable_hash_spec(
            seq![file.file_id@, s.name, decimal(s.range.start_line as nat), decimal(s.range.end_line as nat)],
        ),
        file_id: file.file_id@,
        symbol_id: Some(s.symbol_id),
        label: "symbol:"@ + s.name,
        range: s.range,
    }
}

/// A parsed file with one chunk per symbol, in symbol order.
pub open spec fn with_chunks(
    file: CodeFile,
    symbols: Seq<SymbolView>,
    imports: Seq<ImportView>,
    warnings: Seq<IndexWarningView>,
) -> ParsedFileView {
    ParsedFileView {
        file_id: file.file_id@,
        symbols: symbols,
        imports: imports,
        chunks: symbols.map_values(|s: SymbolView| chunk_of(file, s)),
        warnings: warnings,
    }
}

/// A parsed file with nothing in it.
pub open spec fn empty_view(file_id: Seq<char>) -> ParsedFileView {
    ParsedFileView { file_id: file_id, symbols: seq![], imports: seq![], chunks: seq![], warnings: seq![] }
}

/// The parsers that refuse a source holding the failure marker, with their message.
pub open spec fn forced_failure(lang: Language) -> Option<Seq<char>> {
    match lang {
        Language::Rust => Some("forced rust parser failure"@),
        Language::Python => Some("forced python parser failure"@),
        Language::JavaScript | Language::TypeScript => Some("forced js parser failure"@),
        _ => None,
    }
}

/// The parser that reads a language: TypeScript is read as JavaScript.
pub open spec fn parser_lang(lang: Language) -> Language {
    if lang == Language::TypeScript {
        Language::JavaScript
    } else {
        lang
    }
}

/// What the parser of `lang` gives for a source: it refuses a source that holds
/// `<<parse-error>>` where it has a failure message, and otherwise reads it line by line.
pub open spec fn lang_parse(file: CodeFile, lang: Language, source: Seq<char>) -> Result<ParsedFileView, Seq<char>> {
    if forced_failure(lang) is Some && contains_chars(source, "<<parse-error>>"@) {
        Err(forced_failure(lang)->0)
    } else {
        Ok(
            with_chunks(
                file,
                found_symbols(file, lang, lines(source)),
                found_imports(file, lang, lines(source)),
                seq![],
            ),
        )
    }
}

/// What parsing a source gives: the parser of the file's language reads it; an unknown
/// language gives an empty result.
pub open spec fn parse_result(file: CodeFile, source: Seq<char>) -> Result<ParsedFileView, Seq<char>> {
    if file.language == Language::Unknown {
        Ok(empty_view(file.file_id@))
    } else {
        lang_parse(file, parser_lang(file.language), source)
    }
}

/// A failed parse turned into a parsed file with one warning of stage `parse`.
pub open spec fn warned(file: CodeFile, message: Seq<char>) -> ParsedFileView {
    ParsedFileView {
        file_id: file.file_id@,
        symbols: seq![],
        imports: seq![],
        chunks: seq![],
        warnings: seq![
            IndexWarningView {
                warning_id: stable_hash_spec(seq![file.relative_path@, "parse"@, message]),
                file_id: Some(file.file_id@),
                file_path: file.relative_path@,
                stage: "parse"@,
                message: message,
            },
        ],
    }
}

/// Why a parser refused a source.
#[derive(Debug, PartialEq, Eq)]
pub struct ParseError {
    pub message: String,
}

/// The total number of characters of some lines.
pub open spec fn total_len(ls: Seq<Seq<char>>) -> nat
    decreases ls.len(),
{
    if ls.len() == 0 {
        0
    } else {
        total_len(ls.drop_last()) + ls.last().len()
    }
}

proof fn lemma_total_len_prepend(x: Seq<char>, r: Seq<Seq<char>>)
    ensures
        total_len(seq![x] + r) == x.len() + total_len(r),
    decreases r.len(),
{
    if r.len() > 0 {
        assert((seq![x] + r).drop_last() =~= seq![x] + r.drop_last());
        assert((seq![x] + r).last() == r.last());
        lemma_total_len_prepend(x, r.drop_last());
        assert(total_len(seq![x] + r) == total_len((seq![x] + r).drop_last()) + (seq![x] + r).last().len());
        assert(total_len(r) == total_len(r.drop_last()) + r.last().len());
    } else {
        assert(seq![x] + r =~= seq![x]);
        assert(seq![x].drop_last() =~= Seq::<Seq<char>>::empty());
        assert(total_len(Seq::<Seq<char>>::empty()) == 0);
        assert(total_len(seq![x]) == total_len(seq![x].drop_last()) + x.len());
        assert(total_len(r) == 0);
    }
}

/// The lines of a text are no more, and hold no more characters, than the text.
proof fn lemma_lines_total(s: Seq<char>)
    ensures
        total_len(lines(s)) <= s.len(),
        lines(s).len() <= s.len(),
    decreases s.len(),
{
    if s.len() > 0 {
        let e = line_end(s, 0);
        lemma_line_end_bounds(s, 0);
        if e >= s.len() {
            assert(lines(s) == seq![s]);
            assert(seq![s].drop_last() =~= Seq::<Seq<char>>::empty());
            assert(total_len(seq![s]) == total_len(seq![s].drop_last()) + s.len());
            assert(total_len(Seq::<Seq<char>>::empty()) == 0);
        } else {
            let rest = s.subrange(e + 1, s.len() as int);
            let first = strip_cr(s.subrange(0, e));
            assert(lines(s) == seq![first] + lines(rest));
            lemma_lines_total(rest);
            lemma_total_len_prepend(first, lines(rest));
            assert(first.len() <= e);
        }
    }
}

proof fn lemma_total_len_take(ls: Seq<Seq<char>>, i: int)
    requires
        0 <= i <= ls.len(),
    ensures
        total_len(ls.take(i)) <= total_len(ls),
    decreases ls.len() - i,
{
    if i < ls.len() {
        lemma_total_len_take(ls, i + 1);
        assert(ls.take(i + 1).drop_last() =~= ls.take(i));
    } else {
        assert(ls.take(i) =~= ls);
    }
}

proof fn lemma_brace_delta_bound(l: Seq<char>)
    ensures
        -l.len() <= brace_delta(l) <= l.len(),
    decreases l.len(),
{
    if l.len() > 0 {
        lemma_brace_delta_bound(l.drop_last());
    }
}

proof fn lemma_impl_state_bound(ls: Seq<Seq<char>>)
    ensures
        -total_len(ls) <= impl_state(ls).1 <= total_len(ls),
    decreases ls.len(),
{
    if ls.len() > 0 {
        lemma_impl_state_bound(ls.drop_last());
        lemma_brace_delta_bound(ls.last());
    }
}

fn brace_delta_of(l: &Vec<char>) -> (r: i128)
    ensures
        r == brace_delta(l@),
{
    let mut acc: i128 = 0;
    let n = l.len();
    let mut i: usize = 0;
    while i < n
        invariant
            n == l@.len(),
            i <= l@.len() <= usize::MAX,
            acc == brace_delta(l@.take(i as int)),
            -i <= acc <= i,
        decreases l@.len() - i,
    {
        proof {
            assert(l@.take(i + 1).drop_last() =~= l@.take(i as int));
            assert(l@.take(i + 1).last() == l@[i as int]);
        }
        let c = l[i];
        if c == '{' {
            acc = acc + 1;
        } else if c == '}' {
            acc = acc - 1;
        }
        i = i + 1;
    }
    assert(l@.take(l@.len() as int) =~= l@);
    acc
}

/// The symbol for a declaration `name` of kind `kind` on line `line_no`: its range is
/// that one line.
pub fn make_symbol(file: &CodeFile, name: &str, kind: SymbolKind, line_no: usize) -> (r: Symbol)
    ensures
        r@ == symbol_of(*file, (name@, kind), line_no as nat),
{
    Symbol {
        symbol_id: symbol_id_from_parts(file.relative_path.as_str(), name, line_no, line_no),
        file_id: file.file_id.clone(),
        file_path: file.relative_path.clone(),
        name: owned(name),
        kind,
        range: CodeChunk { start_line: line_no, end_line: line_no },
        language: file.language,
    }
}

fn make_import(file: &CodeFile, target: String, line_no: usize) -> (r: Import)
    ensures
        r@ == import_of(*file, target@, line_no as nat),
{
    Import {
        import_id: import_id_from_parts(&file.file_id, target.as_str(), line_no),
        from_file_id: file.file_id.clone(),
        raw_target: target,
        line: line_no,
    }
}

pub open spec fn symbol_views(v: Seq<Symbol>) -> Seq<SymbolView> {
    v.map_values(|s: Symbol| s@)
}

pub open spec fn import_views(v: Seq<Import>) -> Seq<ImportView> {
    v.map_values(|i: Import| i@)
}

fn add_found(
    file: &CodeFile,
    l: &Vec<char>,
    m: Option<(usize, usize)>,
    kind: SymbolKind,
    line: usize,
    out: &mut Vec<Symbol>,
)
    requires
        match m {
            Some((lo, hi)) => lo <= hi <= l@.len(),
            None => true,
        },
    ensures
        symbol_views(final(out)@) == symbol_views(old(out)@) + line_symbols(*file, opt_decl(cap(l@, m), kind), line as nat),
{
    let ghost before = out@;
    match m {
        Some((lo, hi)) => {
            let name = string_of(l, lo, hi);
            let sym = make_symbol(file, name.as_str(), kind, line);
            out.push(sym);
            assert(symbol_views(out@) =~= symbol_views(before) + line_symbols(*file, opt_decl(cap(l@, m), kind), line as nat));
        },
        None => {
            assert(symbol_views(out@) =~= symbol_views(before) + line_symbols(*file, opt_decl(cap(l@, m), kind), line as nat));
        },
    }
}

fn add_target(file: &CodeFile, l: &Vec<char>, m: Option<(usize, usize)>, trimmed: bool, line: usize, out: &mut Vec<Import>)
    requires
        match m {
            Some((lo, hi)) => lo <= hi <= l@.len(),
            None => true,
        },
    ensures
        import_views(final(out)@) == import_views(old(out)@) + line_import_views(*file, opt_target(cap(l@, m), trimmed), line as nat),
{
    let ghost before = out@;
    match m {
        Some((lo, hi)) => {
            let (a, b) = if trimmed {
                trim_bounds(l, lo, hi)
            } else {
                (lo, hi)
            };
            let t = string_of(l, a, b);
            let imp = make_import(file, t, line);
            out.push(imp);
            assert(import_views(out@) =~= import_views(before) + line_import_views(*file, opt_target(cap(l@, m), trimmed), line as nat));
        },
        None => {
            assert(import_views(out@) =~= import_views(before) + line_import_views(*file, opt_target(cap(l@, m), trimmed), line as nat));
        },
    }
}

proof fn lemma_cap(l: Seq<char>, m: Option<(usize, usize)>, x: Option<Seq<char>>)
    requires
        bounds_give(l, m, x),
    ensures
        cap(l, m) == x,
        match m {
            Some((lo, hi)) => lo <= hi <= l.len(),
            None => true,
        },
{
}

proof fn lemma_symbols_add(file: CodeFile, a: Seq<LineDecl>, b: Seq<LineDecl>, line: nat)
    ensures
        line_symbols(file, a + b, line) == line_symbols(file, a, line) + line_symbols(file, b, line),
{
    assert(line_symbols(file, a + b, line) =~= line_symbols(file, a, line) + line_symbols(file, b, line));
}

proof fn lemma_imports_add(file: CodeFile, a: Seq<Seq<char>>, b: Seq<Seq<char>>, line: nat)
    ensures
        line_import_views(file, a + b, line) == line_import_views(file, a, line) + line_import_views(file, b, line),
{
    assert(line_import_views(file, a + b, line) =~= line_import_views(file, a, line) + line_import_views(file, b, line));
}

fn python_from_target(l: &Vec<char>, r: (usize, usize, usize, usize)) -> (t: String)
    requires
        r.0 <= r.1 <= l@.len(),
        r.2 <= r.3 <= l@.len(),
    ensures
        t@ == trim(l@.subrange(r.0 as int, r.1 as int)) + "::"@ + trim(l@.subrange(r.2 as int, r.3 as int)),
{
    let (a0, a1) = trim_bounds(l, r.0, r.1);
    let (b0, b1) = trim_bounds(l, r.2, r.3);
    let mut t = string_of(l, a0, a1);
    push_str(&mut t, "::");
    let rest = string_of(l, b0, b1);
    push_str(&mut t, rest.as_str());
    t
}

#[verifier::rlimit(80)]
#[verifier::spinoff_prover]
fn read_rust_line(
    file: &CodeFile,
    lang: Language,
    l: &Vec<char>,
    in_impl: bool,
    line: usize,
    symbols: &mut Vec<Symbol>,
    imports: &mut Vec<Import>,
)
    requires
        lang == Language::Rust,
    ensures
        symbol_views(final(symbols)@) == symbol_views(old(symbols)@) + line_symbols(*file, line_decls(lang, l@, in_impl), line as nat),
        import_views(final(imports)@) == import_views(old(imports)@) + line_import_views(*file, line_imports(lang, l@), line as nat),
{
    let ghost s0 = symbol_views(symbols@);
    let ghost i0 = import_views(imports@);
    let ghost n = line as nat;
    let u = until_semicolon_at(l, "use");
    let md = decl_at(l, "", "mod", Tail::Semicolon);
    proof {
        lemma_cap(l@, u, until_semicolon(l@, "use"@));
        lemma_cap(l@, md, decl_match(l@, ""@, "mod"@, Tail::Semicolon));
    }
    add_target(file, l, u, true, line, imports);
    add_target(file, l, md, true, line, imports);
    proof {
        lemma_imports_add(*file, opt_target(cap(l@, u), true), opt_target(cap(l@, md), true), n);
        assert(import_views(imports@) =~= i0 + line_import_views(*file, line_imports(lang, l@), n));
    }
    let st = decl_at(l, "pub", "struct", Tail::Ident);
    let en = decl_at(l, "pub", "enum", Tail::Ident);
    let tr = decl_at(l, "pub", "trait", Tail::Ident);
    let im = impl_header_at(l);
    let fun = decl_at(l, "pub", "fn", Tail::Ident);
    proof {
        lemma_cap(l@, st, decl_match(l@, "pub"@, "struct"@, Tail::Ident));
        lemma_cap(l@, en, decl_match(l@, "pub"@, "enum"@, Tail::Ident));
        lemma_cap(l@, tr, decl_match(l@, "pub"@, "trait"@, Tail::Ident));
        lemma_cap(l@, im, impl_header(l@));
        lemma_cap(l@, fun, decl_match(l@, "pub"@, "fn"@, Tail::Ident));
    }
    add_found(file, l, md, SymbolKind::Module, line, symbols);
    add_found(file, l, st, SymbolKind::Struct, line, symbols);
    add_found(file, l, en, SymbolKind::Enum, line, symbols);
    add_found(file, l, tr, SymbolKind::Trait, line, symbols);
    let ghost last: Seq<LineDecl>;
    if im.is_some() {
        add_found(file, l, im, SymbolKind::Type, line, symbols);
        proof {
            last = opt_decl(cap(l@, im), SymbolKind::Type);
        }
    } else {
        let kind = if in_impl {
            SymbolKind::Method
        } else {
            SymbolKind::Function
        };
        add_found(file, l, fun, kind, line, symbols);
        proof {
            last = opt_decl(cap(l@, fun), kind);
        }
    }
    proof {
        let a = opt_decl(cap(l@, md), SymbolKind::Module);
        let b = opt_decl(cap(l@, st), SymbolKind::Struct);
        let c = opt_decl(cap(l@, en), SymbolKind::Enum);
        let d = opt_decl(cap(l@, tr), SymbolKind::Trait);
        assert(line_decls(lang, l@, in_impl) == a + b + c + d + last);
        lemma_symbols_add(*file, a, b, n);
        lemma_symbols_add(*file, a + b, c, n);
        lemma_symbols_add(*file, a + b + c, d, n);
        lemma_symbols_add(*file, a + b + c + d, last, n);
        assert(symbol_views(symbols@) =~= s0 + line_symbols(*file, line_decls(lang, l@, in_impl), n));
    }
}

fn read_python_line(
    file: &CodeFile,
    lang: Language,
    l: &Vec<char>,
    in_impl: bool,
    line: usize,
    symbols: &mut Vec<Symbol>,
    imports: &mut Vec<Import>,
)
    requires
        lang == Language::Python,
    ensures
        symbol_views(final(symbols)@) == symbol_views(old(symbols)@) + line_symbols(*file, line_decls(lang, l@, in_impl), line as nat),
        import_views(final(imports)@) == import_views(old(imports)@) + line_import_views(*file, line_imports(lang, l@), line as nat),
{
    let ghost s0 = symbol_views(symbols@);
    let ghost i0 = import_views(imports@);
    let ghost n = line as nat;
    let imp = kw_rest_at(l, "import");
    let from = from_import_at(l);
    proof {
        lemma_cap(l@, imp, kw_rest(l@, "import"@));
    }
    add_target(file, l, imp, true, line, imports);
    let ghost fs: Seq<Seq<char>>;
    match from {
        Some(r) => {
            let t = python_from_target(l, r);
            let x = make_import(file, t, line);
            let ghost before = imports@;
            imports.push(x);
            proof {
                fs = seq![x@.raw_target];
                assert(import_views(imports@) =~= import_views(before) + line_import_views(*file, fs, n));
            }
        },
        None => {
            proof {
                fs = seq![];
                assert(line_import_views(*file, fs, n) =~= Seq::<ImportView>::empty());
                assert(import_views(imports@) =~= import_views(imports@) + line_import_views(*file, fs, n));
            }
        },
    }
    proof {
        assert(fs == (match from_import(l@) {
            Some((a, b)) => seq![trim(a) + "::"@ + trim(b)],
            None => Seq::<Seq<char>>::empty(),
        }));
        lemma_imports_add(*file, opt_target(cap(l@, imp), true), fs, n);
        assert(import_views(imports@) =~= i0 + line_import_views(*file, line_imports(lang, l@), n));
    }
    let cl = decl_at(l, "", "class", Tail::Ident);
    let df = decl_at(l, "", "def", Tail::Ident);
    proof {
        lemma_cap(l@, cl, decl_match(l@, ""@, "class"@, Tail::Ident));
        lemma_cap(l@, df, decl_match(l@, ""@, "def"@, Tail::Ident));
    }
    add_found(file, l, cl, SymbolKind::Class, line, symbols);
    add_found(file, l, df, SymbolKind::Function, line, symbols);
    proof {
        lemma_symbols_add(*file, opt_decl(cap(l@, cl), SymbolKind::Class), opt_decl(cap(l@, df), SymbolKind::Function), n);
        assert(symbol_views(symbols@) =~= s0 + line_symbols(*file, line_decls(lang, l@, in_impl), n));
    }
}

fn read_js_line(
    file: &CodeFile,
    lang: Language,
    l: &Vec<char>,
    in_impl: bool,
    line: usize,
    symbols: &mut Vec<Symbol>,
    imports: &mut Vec<Import>,
)
    requires
        lang == Language::JavaScript || lang == Language::TypeScript,
    ensures
        symbol_views(final(symbols)@) == symbol_views(old(symbols)@) + line_symbols(*file, line_decls(lang, l@, in_impl), line as nat),
        import_views(final(imports)@) == import_views(old(imports)@) + line_import_views(*file, line_imports(lang, l@), line as nat),
{
    let ghost s0 = symbol_views(symbols@);
    let ghost i0 = import_views(imports@);
    let ghost n = line as nat;
    let imp = js_import_at(l);
    let req = require_at(l);
    proof {
        lemma_cap(l@, imp, js_import(l@));
        lemma_cap(l@, req, require_call(l@));
    }
    add_target(file, l, imp, false, line, imports);
    add_target(file, l, req, false, line, imports);
    proof {
        lemma_imports_add(*file, opt_target(cap(l@, imp), false), opt_target(cap(l@, req), false), n);
        assert(import_views(imports@) =~= i0 + line_import_views(*file, line_imports(lang, l@), n));
    }
    let fun = decl_at(l, "export", "function", Tail::Ident);
    let cl = decl_at(l, "export", "class", Tail::Ident);
    let arrow = decl_at(l, "export", "const", Tail::Arrow);
    proof {
        lemma_cap(l@, fun, decl_match(l@, "export"@, "function"@, Tail::Ident));
        lemma_cap(l@, cl, decl_match(l@, "export"@, "class"@, Tail::Ident));
        lemma_cap(l@, arrow, decl_match(l@, "export"@, "const"@, Tail::Arrow));
    }
    add_found(file, l, fun, SymbolKind::Function, line, symbols);
    add_found(file, l, cl, SymbolKind::Class, line, symbols);
    add_found(file, l, arrow, SymbolKind::Function, line, symbols);
    proof {
        let a = opt_decl(cap(l@, fun), SymbolKind::Function);
        let b = opt_decl(cap(l@, cl), SymbolKind::Class);
        let c = opt_decl(cap(l@, arrow), SymbolKind::Function);
        lemma_symbols_add(*file, a, b, n);
        lemma_symbols_add(*file, a + b, c, n);
        assert(symbol_views(symbols@) =~= s0 + line_symbols(*file, line_decls(lang, l@, in_impl), n));
    }
}

fn read_java_line(
    file: &CodeFile,
    lang: Language,
    l: &Vec<char>,
    in_impl: bool,
    line: usize,
    symbols: &mut Vec<Symbol>,
    imports: &mut Vec<Import>,
)
    requires
        lang == Language::Java,
    ensures
        symbol_views(final(symbols)@) == symbol_views(old(symbols)@) + line_symbols(*file, line_decls(lang, l@, in_impl), line as nat),
        import_views(final(imports)@) == import_views(old(imports)@) + line_import_views(*file, line_imports(lang, l@), line as nat),
{
    let ghost s0 = symbol_views(symbols@);
    let ghost i0 = import_views(imports@);
    let ghost n = line as nat;
    let imp = until_semicolon_at(l, "import");
    proof {
        lemma_cap(l@, imp, until_semicolon(l@, "import"@));
    }
    add_target(file, l, imp, true, line, imports);
    let cl = decl_at(l, "public", "class", Tail::Ident);
    let it = decl_at(l, "public", "interface", Tail::Ident);
    let me = java_method_at(l);
    proof {
        lemma_cap(l@, cl, decl_match(l@, "public"@, "class"@, Tail::Ident));
        lemma_cap(l@, it, decl_match(l@, "public"@, "interface"@, Tail::Ident));
        lemma_cap(l@, me, java_method(l@));
    }
    add_found(file, l, cl, SymbolKind::Class, line, symbols);
    add_found(file, l, it, SymbolKind::Interface, line, symbols);
    add_found(file, l, me, SymbolKind::Method, line, symbols);
    proof {
        let a = opt_decl(cap(l@, cl), SymbolKind::Class);
        let b = opt_decl(cap(l@, it), SymbolKind::Interface);
        let c = opt_decl(cap(l@, me), SymbolKind::Method);
        lemma_symbols_add(*file, a, b, n);
        lemma_symbols_add(*file, a + b, c, n);
        assert(symbol_views(symbols@) =~= s0 + line_symbols(*file, line_decls(lang, l@, in_impl), n));
    }
}

fn read_go_line(
    file: &CodeFile,
    lang: Language,
    l: &Vec<char>,
    in_impl: bool,
    line: usize,
    symbols: &mut Vec<Symbol>,
    imports: &mut Vec<Import>,
)
    requires
        lang == Language::Go,
    ensures
        symbol_views(final(symbols)@) == symbol_views(old(symbols)@) + line_symbols(*file, line_decls(lang, l@, in_impl), line as nat),
        import_views(final(imports)@) == import_views(old(imports)@) + line_import_views(*file, line_imports(lang, l@), line as nat),
{
    let ghost s0 = symbol_views(symbols@);
    let ghost i0 = import_views(imports@);
    let ghost n = line as nat;
    let imp = go_quoted_at(l);
    proof {
        lemma_cap(l@, imp, go_quoted(l@));
    }
    add_target(file, l, imp, false, line, imports);
    let me = go_method_at(l);
    let fun = decl_at(l, "", "func", Tail::Call);
    proof {
        lemma_cap(l@, me, go_method(l@));
        lemma_cap(l@, fun, decl_match(l@, ""@, "func"@, Tail::Call));
    }
    let ghost first: Seq<LineDecl>;
    if me.is_some() {
        add_found(file, l, me, SymbolKind::Method, line, symbols);
        proof {
            first = opt_decl(cap(l@, me), SymbolKind::Method);
        }
    } else {
        add_found(file, l, fun, SymbolKind::Function, line, symbols);
        proof {
            first = opt_decl(cap(l@, fun), SymbolKind::Function);
        }
    }
    let ghost mid = symbol_views(symbols@);
    let ghost second: Seq<LineDecl>;
    match go_type_at(l) {
        Some((lo, hi, is_struct)) => {
            let kind = if is_struct {
                SymbolKind::Struct
            } else {
                SymbolKind::Interface
            };
            add_found(file, l, Some((lo, hi)), kind, line, symbols);
            proof {
                second = opt_decl(cap(l@, Some((lo, hi))), kind);
            }
        },
        None => {
            proof {
                second = seq![];
                assert(line_symbols(*file, second, n) =~= Seq::<SymbolView>::empty());
                assert(symbol_views(symbols@) =~= mid + line_symbols(*file, second, n));
            }
        },
    }
    proof {
        lemma_symbols_add(*file, first, second, n);
        assert(line_decls(lang, l@, in_impl) == first + second);
        assert(symbol_views(symbols@) =~= s0 + line_symbols(*file, line_decls(lang, l@, in_impl), n));
    }
}

/// Reads one line: records its declarations and its import targets.
fn read_line(
    file: &CodeFile,
    lang: Language,
    l: &Vec<char>,
    in_impl: bool,
    line: usize,
    symbols: &mut Vec<Symbol>,
    imports: &mut Vec<Import>,
)
    ensures
        symbol_views(final(symbols)@) == symbol_views(old(symbols)@) + line_symbols(*file, line_decls(lang, l@, in_impl), line as nat),
        import_views(final(imports)@) == import_views(old(imports)@) + line_import_views(*file, line_imports(lang, l@), line as nat),
{
    match lang {
        Language::Rust => read_rust_line(file, lang, l, in_impl, line, symbols, imports),
        Language::Python => read_python_line(file, lang, l, in_impl, line, symbols, imports),
        Language::JavaScript | Language::TypeScript => read_js_line(file, lang, l, in_impl, line, symbols, imports),
        Language::Java => read_java_line(file, lang, l, in_impl, line, symbols, imports),
        Language::Go => read_go_line(file, lang, l, in_impl, line, symbols, imports),
        Language::Unknown => {
            proof {
                let n = line as nat;
                assert(line_symbols(*file, line_decls(lang, l@, in_impl), n) =~= Seq::<SymbolView>::empty());
                assert(line_import_views(*file, line_imports(lang, l@), n) =~= Seq::<ImportView>::empty());
                assert(symbol_views(symbols@) =~= symbol_views(symbols@) + line_symbols(*file, line_decls(lang, l@, in_impl), n));
                assert(import_views(imports@) =~= import_views(imports@) + line_import_views(*file, line_imports(lang, l@), n));
            }
        },
    }
}

/// Reads every line of a source with the parser of `lang`.
fn scan_source(file: &CodeFile, lang: Language, source: &str) -> (r: (Vec<Symbol>, Vec<Import>))
    ensures
        symbol_views(r.0@) == found_symbols(*file, lang, lines(source@)),
        import_views(r.1@) == found_imports(*file, lang, lines(source@)),
{
    let cs = chars_of(source);
    let total = cs.len();
    assert(total == source@.len());
    let ls = split_lines(&cs);
    let ghost lv = lines(source@);
    proof {
        lemma_lines_total(source@);
    }
    let mut symbols: Vec<Symbol> = Vec::new();
    let mut imports: Vec<Import> = Vec::new();
    let mut in_impl = false;
    let mut depth: i128 = 0;
    let mut i: usize = 0;
    proof {
        assert(lv.take(0) =~= Seq::<Seq<char>>::empty());
        assert(symbol_views(symbols@) =~= Seq::<SymbolView>::empty());
        assert(import_views(imports@) =~= Seq::<ImportView>::empty());
    }
    while i < ls.len()
        invariant
            lv == lines(source@),
            ls@.len() == lv.len(),
            forall|k: int| 0 <= k < ls@.len() ==> #[trigger] ls@[k]@ == lv[k],
            total_len(lv) <= source@.len() <= usize::MAX,
            lv.len() <= source@.len(),
            i <= lv.len(),
            symbol_views(symbols@) == found_symbols(*file, lang, lv.take(i as int)),
            import_views(imports@) == found_imports(*file, lang, lv.take(i as int)),
            lang == Language::Rust ==> in_impl == impl_state(lv.take(i as int)).0,
            lang == Language::Rust ==> depth == impl_state(lv.take(i as int)).1,
        decreases lv.len() - i,
    {
        let l = &ls[i];
        let ghost pre = lv.take(i as int);
        let ghost cur = lv.take(i + 1);
        proof {
            assert(cur.drop_last() =~= pre);
            assert(cur.last() == l@);
            lemma_total_len_take(lv, i + 1);
            lemma_impl_state_bound(pre);
            lemma_brace_delta_bound(l@);
            assert(total_len(cur) == total_len(pre) + l@.len());
        }
        let line = i + 1;
        read_line(file, lang, l, lang == Language::Rust && in_impl, line, &mut symbols, &mut imports);
        if lang == Language::Rust {
            let d = brace_delta_of(l);
            if impl_header_at(l).is_some() {
                in_impl = true;
                depth = depth + d;
            } else if in_impl {
                depth = depth + d;
                if depth <= 0 {
                    depth = 0;
                    in_impl = false;
                }
            }
        }
        proof {
            assert(found_symbols(*file, lang, cur) == found_symbols(*file, lang, pre) + line_symbols(
                *file,
                line_decls(lang, l@, in_impl_before(lang, pre)),
                line as nat,
            ));
            assert(found_imports(*file, lang, cur) == found_imports(*file, lang, pre) + line_import_views(
                *file,
                line_imports(lang, l@),
                line as nat,
            ));
        }
        i = i + 1;
    }
    proof {
        assert(lv.take(lv.len() as int) =~= lv);
    }
    (symbols, imports)
}

/// A parsed file that holds the symbols, imports and warnings given, and one chunk per
/// symbol labelled `symbol:` and the symbol's name.
pub fn parsed_with_chunks(
    file: &CodeFile,
    symbols: Vec<Symbol>,
    imports: Vec<Import>,
    warnings: Vec<IndexWarning>,
) -> (r: ParsedFile)
    ensures
        r@ == with_chunks(
            *file,
            symbols@.map_values(|s: Symbol| s@),
            imports@.map_values(|i: Import| i@),
            warnings@.map_values(|w: IndexWarning| w@),
        ),
{
    let mut chunks: Vec<Chunk> = Vec::new();
    let ghost sv = symbols@.map_values(|s: Symbol| s@);
    let mut i: usize = 0;
    while i < symbols.len()
        invariant
            i <= symbols@.len(),
            sv == symbols@.map_values(|s: Symbol| s@),
            chunks@.map_values(|c: Chunk| c@) == sv.take(i as int).map_values(|s: SymbolView| chunk_of(*file, s)),
        decreases symbols@.len() - i,
    {
        let sym = &symbols[i];
        let mut label = owned("symbol:");
        push_str(&mut label, sym.name.as_str());
        let c = Chunk {
            chunk_id: chunk_id_from_parts(&file.file_id, sym.name.as_str(), sym.range.start_line, sym.range.end_line),
            file_id: file.file_id.clone(),
            symbol_id: Some(sym.symbol_id.clone()),
            label,
            range: sym.range,
        };
        let ghost before = chunks@;
        chunks.push(c);
        proof {
            assert(sv[i as int] == sym@);
            assert(sv.take(i + 1) =~= sv.take(i as int).push(sym@));
            assert(chunks@.map_values(|c: Chunk| c@) =~= before.map_values(|c: Chunk| c@).push(c@));
            assert(sv.take(i + 1).map_values(|s: SymbolView| chunk_of(*file, s)) =~= sv.take(
                i as int,
            ).map_values(|s: SymbolView| chunk_of(*file, s)).push(chunk_of(*file, sym@)));
        }
        i = i + 1;
    }
    proof {
        assert(sv.take(sv.len() as int) =~= sv);
    }
    ParsedFile { file_id: file.file_id.clone(), symbols, imports, chunks, warnings }
}

/// A parsed file with nothing in it.
pub fn empty_parsed_file(file_id: &FileId) -> (r: ParsedFile)
    ensures
        r@ == empty_view(file_id@),
{
    let r = ParsedFile {
        file_id: file_id.clone(),
        symbols: Vec::new(),
        imports: Vec::new(),
        chunks: Vec::new(),
        warnings: Vec::new(),
    };
    assert(r@.symbols =~= Seq::<SymbolView>::empty());
    assert(r@.imports =~= Seq::<ImportView>::empty());
    assert(r@.chunks =~= Seq::<ChunkView>::empty());
    assert(r@.warnings =~= Seq::<IndexWarningView>::empty());
    r
}

fn failure_message(lang: Language) -> (r: Option<&'static str>)
    ensures
        match r {
            Some(m) => forced_failure(lang) == Some(m@),
            None => forced_failure(lang) is None,
        },
{
    match lang {
        Language::Rust => Some("forced rust parser failure"),
        Language::Python => Some("forced python parser failure"),
        Language::JavaScript | Language::TypeScript => Some("forced js parser failure"),
        _ => None,
    }
}

fn parse_as(file: &CodeFile, lang: Language, source: &str) -> (r: Result<ParsedFile, ParseError>)
    ensures
        match r {
            Ok(p) => lang_parse(*file, lang, source@) == Ok::<ParsedFileView, Seq<char>>(p@),
            Err(e) => lang_parse(*file, lang, source@) == Err::<ParsedFileView, Seq<char>>(e.message@),
        },
{
    if let Some(msg) = failure_message(lang) {
        let cs = chars_of(source);
        if contains(&cs, "<<parse-error>>") {
            return Err(ParseError { message: owned(msg) });
        }
    }
    let (symbols, imports) = scan_source(file, lang, source);
    let r = parsed_with_chunks(file, symbols, imports, Vec::new());
    assert(r@.warnings =~= Seq::<IndexWarningView>::empty());
    Ok(r)
}

/// A parser of one language.
pub trait LanguageParser {
    /// Parses a source read from `file`.
    fn parse(&self, file: &CodeFile, source: &str) -> (r: Result<ParsedFile, ParseError>);
}

struct RustParser;

struct PythonParser;

struct JavaScriptParser;

struct JavaParser;

struct GoParser;

impl LanguageParser for RustParser {
    fn parse(&self, file: &CodeFile, source: &str) -> (r: Result<ParsedFile, ParseError>)
        ensures
            match r {
                Ok(p) => lang_parse(*file, Language::Rust, source@) == Ok::<ParsedFileView, Seq<char>>(p@),
                Err(e) => lang_parse(*file, Language::Rust, source@) == Err::<ParsedFileView, Seq<char>>(e.message@),
            },
    {
        parse_as(file, Language::Rust, source)
    }
}

impl LanguageParser for PythonParser {
    fn parse(&self, file: &CodeFile, source: &str) -> (r: Result<ParsedFile, ParseError>)
        ensures
            match r {
                Ok(p) => lang_parse(*file, Language::Python, source@) == Ok::<ParsedFileView, Seq<char>>(p@),
                Err(e) => lang_parse(*file, Language::Python, source@) == Err::<ParsedFileView, Seq<char>>(
                    e.message@,
                ),
            },
    {
        parse_as(file, Language::Python, source)
    }
}

impl LanguageParser for JavaScriptParser {
    fn parse(&self, file: &CodeFile, source: &str) -> (r: Result<ParsedFile, ParseError>)
        ensures
            match r {
                Ok(p) => lang_parse(*file, Language::JavaScript, source@) == Ok::<ParsedFileView, Seq<char>>(p@),
                Err(e) => lang_parse(*file, Language::JavaScript, source@) == Err::<ParsedFileView, Seq<char>>(
                    e.message@,
                ),
            },
    {
        parse_as(file, Language::JavaScript, source)
    }
}

impl LanguageParser for JavaParser {
    fn parse(&self, file: &CodeFile, source: &str) -> (r: Result<ParsedFile, ParseError>)
        ensures
            match r {
                Ok(p) => lang_parse(*file, Language::Java, source@) == Ok::<ParsedFileView, Seq<char>>(p@),
                Err(e) => lang_parse(*file, Language::Java, source@) == Err::<ParsedFileView, Seq<char>>(e.message@),
            },
    {
        parse_as(file, Language::Java, source)
    }
}

impl LanguageParser for GoParser {
    fn parse(&self, file: &CodeFile, source: &str) -> (r: Result<ParsedFile, ParseError>)
        ensures
            match r {
                Ok(p) => lang_parse(*file, Language::Go, source@) == Ok::<ParsedFileView, Seq<char>>(p@),
                Err(e) => lang_parse(*file, Language::Go, source@) == Err::<ParsedFileView, Seq<char>>(e.message@),
            },
    {
        parse_as(file, Language::Go, source)
    }
}

/// Picks the parser of a file's language.
#[derive(Debug)]
pub struct ParserRegistry;

impl Default for ParserRegistry {
    fn default() -> (r: Self)
        ensures
            r == ParserRegistry,
    {
        ParserRegistry
    }
}

impl ParserRegistry {
    /// Parses a source with the parser of the file's language; an unknown language
    /// gives an empty result.
    pub fn parse_file(&self, file: &CodeFile, source: &str) -> (r: Result<ParsedFile, ParseError>)
        ensures
            match r {
                Ok(p) => parse_result(*file, source@) == Ok::<ParsedFileView, Seq<char>>(p@),
                Err(e) => parse_result(*file, source@) == Err::<ParsedFileView, Seq<char>>(e.message@),
            },
    {
        match file.language {
            Language::Rust => RustParser.parse(file, source),
            Language::Python => PythonParser.parse(file, source),
            Language::JavaScript | Language::TypeScript => JavaScriptParser.parse(file, source),
            Language::Java => JavaParser.parse(file, source),
            Language::Go => GoParser.parse(file, source),
            Language::Unknown => Ok(empty_parsed_file(&file.file_id)),
        }
    }

    /// Parses a source; where the parser refuses it, the result is empty but for one
    /// warning of stage `parse` that carries the parser's message.
    pub fn parse_or_warn(&self, file: &CodeFile, source: &str) -> (r: ParsedFile)
        ensures
            r@ == (match parse_result(*file, source@) {
                Ok(v) => v,
                Err(m) => warned(*file, m),
            }),
    {
        match self.parse_file(file, source) {
            Ok(parsed) => parsed,
            Err(error) => {
                let mut parsed = empty_parsed_file(&file.file_id);
                let w = IndexWarning {
                    warning_id: warning_id_from_parts(file.relative_path.as_str(), "parse", error.message.as_str()),
                    file_id: Some(file.file_id.clone()),
                    file_path: file.relative_path.clone(),
                    stage: owned("parse"),
                    message: error.message.clone(),
                };
                parsed.warnings.push(w);
                assert(parsed@.warnings =~= seq![w@]);
                parsed
            },
        }
    }
}

/// The symbol belongs to the file and spans one line.
pub open spec fn symbol_of_file(file: CodeFile, s: SymbolView) -> bool {
    &&& s.file_id == file.file_id@
    &&& s.file_path == file.relative_path@
    &&& s.language == file.language
    &&& s.range.start_line == s.range.end_line
}

proof fn lemma_found_symbols(file: CodeFile, lang: Language, ls: Seq<Seq<char>>)
    ensures
        forall|k: int| 0 <= k < found_symbols(file, lang, ls).len() ==> symbol_of_file(file, #[trigger] found_symbols(file, lang, ls)[k]),
    decreases ls.len(),
{
    if ls.len() > 0 {
        lemma_found_symbols(file, lang, ls.drop_last());
        let a = found_symbols(file, lang, ls.drop_last());
        let b = line_symbols(file, line_decls(lang, ls.last(), in_impl_before(lang, ls.drop_last())), ls.len());
        assert forall|k: int| 0 <= k < found_symbols(file, lang, ls).len() implies symbol_of_file(
            file,
            #[trigger] found_symbols(file, lang, ls)[k],
        ) by {
            if k < a.len() {
                assert(found_symbols(file, lang, ls)[k] == a[k]);
            } else {
                assert(found_symbols(file, lang, ls)[k] == b[k - a.len()]);
            }
        }
    }
}

proof fn lemma_found_lines(file: CodeFile, lang: Language, ls: Seq<Seq<char>>)
    requires
        ls.len() <= usize::MAX,
    ensures
        forall|k: int| 0 <= k < found_symbols(file, lang, ls).len() ==> {
            let s = #[trigger] found_symbols(file, lang, ls)[k];
            1 <= s.range.start_line <= ls.len()
        },
        forall|k: int| 0 <= k < found_imports(file, lang, ls).len() ==> {
            let i = #[trigger] found_imports(file, lang, ls)[k];
            1 <= i.line <= ls.len()
        },
    decreases ls.len(),
{
    if ls.len() > 0 {
        lemma_found_lines(file, lang, ls.drop_last());
        let a = found_symbols(file, lang, ls.drop_last());
        let b = line_symbols(file, line_decls(lang, ls.last(), in_impl_before(lang, ls.drop_last())), ls.len());
        assert forall|k: int| 0 <= k < found_symbols(file, lang, ls).len() implies {
            let s = #[trigger] found_symbols(file, lang, ls)[k];
            1 <= s.range.start_line <= ls.len()
        } by {
            if k < a.len() {
                assert(found_symbols(file, lang, ls)[k] == a[k]);
            } else {
                assert(found_symbols(file, lang, ls)[k] == b[k - a.len()]);
            }
        }
        let c = found_imports(file, lang, ls.drop_last());
        let d = line_import_views(file, line_imports(lang, ls.last()), ls.len());
        assert forall|k: int| 0 <= k < found_imports(file, lang, ls).len() implies {
            let i = #[trigger] found_imports(file, lang, ls)[k];
            1 <= i.line <= ls.len()
        } by {
            if k < c.len() {
                assert(found_imports(file, lang, ls)[k] == c[k]);
            } else {
                assert(found_imports(file, lang, ls)[k] == d[k - c.len()]);
            }
        }
    }
}

/// A parse records every symbol and every import on a line of the source: its line
/// number lies between 1 and the number of lines (for a source that fits in memory,
/// whose line numbers fit a `usize`).
pub proof fn law_parsed_lines(file: CodeFile, source: Seq<char>)
    requires
        source.len() <= usize::MAX,
        parse_result(file, source) is Ok,
    ensures
        ({
            let v = parse_result(file, source)->Ok_0;
            &&& forall|i: int| 0 <= i < v.symbols.len() ==> 1 <= (#[trigger] v.symbols[i]).range.start_line
                <= lines(source).len()
            &&& forall|i: int| 0 <= i < v.imports.len() ==> 1 <= (#[trigger] v.imports[i]).line <= lines(source).len()
        }),
{
    lemma_lines_total(source);
    if file.language != Language::Unknown {
        lemma_found_lines(file, parser_lang(file.language), lines(source));
    }
}

/// Every symbol that a parse records belongs to the file and spans one line, and has
/// at the same index a chunk of the same file with its range, its identifier and the
/// label `symbol:` and its name.
pub proof fn law_parsed_symbols(file: CodeFile, source: Seq<char>)
    requires
        parse_result(file, source) is Ok,
    ensures
        ({
            let v = parse_result(file, source)->Ok_0;
            &&& v.file_id == file.file_id@
            &&& v.warnings.len() == 0
            &&& v.chunks.len() == v.symbols.len()
            &&& forall|i: int| 0 <= i < v.symbols.len() ==> symbol_of_file(file, #[trigger] v.symbols[i])
            &&& forall|i: int|
                0 <= i < v.chunks.len() ==> {
                    let c = #[trigger] v.chunks[i];
                    &&& c.range == v.symbols[i].range
                    &&& c.symbol_id == Some(v.symbols[i].symbol_id)
                    &&& c.label == "symbol:"@ + v.symbols[i].name
                    &&& c.file_id == file.file_id@
                }
        }),
{
    if file.language != Language::Unknown {
        lemma_found_symbols(file, parser_lang(file.language), lines(source));
    }
}

/// A parse fails exactly where the file is Rust, Python, JavaScript or TypeScript and
/// its source holds `<<parse-error>>`; Java, Go and unknown files never fail, and an
/// unknown file parses to an empty result.
pub proof fn law_parse_fails_only_on_marker(file: CodeFile, source: Seq<char>)
    ensures
        parse_result(file, source) is Err <==> (
        (file.language == Language::Rust || file.language == Language::Python || file.language
            == Language::JavaScript || file.language == Language::TypeScript) && contains_chars(
            source,
            "<<parse-error>>"@,
        )),
        file.language == Language::Unknown ==> parse_result(file, source) == Ok::<ParsedFileView, Seq<char>>(
            empty_view(file.file_id@),
        ),
{
}

/// A refused parse keeps the file: the result is empty but for one warning of stage
/// `parse` about the file.
pub proof fn law_parse_failure_warns(file: CodeFile, source: Seq<char>)
    requires
        parse_result(file, source) is Err,
    ensures
        ({
            let v = warned(file, parse_result(file, source)->Err_0);
            &&& v.file_id == file.file_id@
            &&& v.symbols.len() == 0
            &&& v.imports.len() == 0
            &&& v.chunks.len() == 0
            &&& v.warnings.len() == 1
            &&& v.warnings[0].stage == "parse"@
            &&& v.warnings[0].file_id == Some(file.file_id@)
        }),
{
}

/// A Rust `mod name;` line is recorded twice: as a module symbol, the first declaration
/// of the line, and as an import of the trimmed name, the last target of the line.
pub proof fn law_rust_mod_is_symbol_and_import(l: Seq<char>, in_impl: bool)
    requires
        decl_match(l, ""@, "mod"@, Tail::Semicolon) is Some,
    ensures
        ({
            let m = decl_match(l, ""@, "mod"@, Tail::Semicolon)->Some_0;
            &&& line_decls(Language::Rust, l, in_impl).len() > 0
            &&& line_decls(Language::Rust, l, in_impl)[0] == (m, SymbolKind::Module)
            &&& line_imports(Language::Rust, l).len() > 0
            &&& line_imports(Language::Rust, l).last() == trim(m)
        }),
{
    let m = decl_match(l, ""@, "mod"@, Tail::Semicolon)->Some_0;
    let first = opt_decl(decl_match(l, ""@, "mod"@, Tail::Semicolon), SymbolKind::Module);
    assert(first == seq![(m, SymbolKind::Module)]);
    let uses = opt_target(until_semicolon(l, "use"@), true);
    assert(line_imports(Language::Rust, l) == uses + seq![trim(m)]);
}

} // verus!

