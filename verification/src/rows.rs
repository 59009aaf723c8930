use vstd::prelude::*;
use crate::ids::{FileId, ImportId, ProjectId, RepoId, RunId, ScopeId, SymbolId, WarningId, WorktreeId};
use crate::resolve::{ImportRow, StoredFile};
use crate::model::{
    language_name, opt_view, symbol_kind_name, CodeChunk, Confidence, Evidence, FileDependency,
    FileDependencyView, FileExplanation, FileFingerprint, FileFingerprintRecord, FileStatus, Import,
    ImportView, IndexContext, IndexWarning, IndexWarningView, Language, Symbol, SymbolKind, SymbolView,
};
use crate::text::{decimal, decimal_string, owned, push_char, push_decimal, push_str};

verus! {

/// A value of a row that the graph store returned. A floating-point number is held in
/// thousandths.
#[derive(Debug, PartialEq, Eq)]
pub enum StoreValue {
    Null,
    Bool(bool),
    Text(String),
    Int64(i64),
    UInt64(u64),
    Int32(i32),
    UInt32(u32),
    Float(u32),
    Double(u32),
    Other,
}

/// What a column was expected to hold.
#[derive(Debug, Clone, Copy, PartialEq, Eq, Structural)]
pub enum ValueClass {
    StringLike,
    Integer,
    Float,
}

/// Why a row could not be read.
#[derive(Debug, Clone, Copy, PartialEq, Eq, Structural)]
pub enum RowError {
    /// The row has no such column.
    MissingColumn(usize),
    /// The column holds a value of another kind.
    Unexpected(usize, ValueClass),
    /// The column holds an integer out of the range the field takes.
    OutOfRange(usize),
}

/// The message of a row error, naming the column.
pub open spec fn row_error_text(e: RowError) -> Seq<char> {
    match e {
        RowError::MissingColumn(i) => "missing column "@ + decimal(i as nat),
        RowError::Unexpected(i, ValueClass::StringLike) => "expected string-like value at column "@ + decimal(i as nat),
        RowError::Unexpected(i, ValueClass::Integer) => "expected integer value at column "@ + decimal(i as nat),
        RowError::Unexpected(i, ValueClass::Float) => "expected float value at column "@ + decimal(i as nat),
        RowError::OutOfRange(i) => "value out of range at column "@ + decimal(i as nat),
    }
}

impl RowError {
    /// The message of the error (see `row_error_text`).
    pub fn message(&self) -> (r: String)
        ensures
            r@ == row_error_text(*self),
    {
        let (prefix, i) = match self {
            RowError::MissingColumn(i) => ("missing column ", *i),
            RowError::Unexpected(i, ValueClass::StringLike) => ("expected string-like value at column ", *i),
            RowError::Unexpected(i, ValueClass::Integer) => ("expected integer value at column ", *i),
            RowError::Unexpected(i, ValueClass::Float) => ("expected float value at column ", *i),
            RowError::OutOfRange(i) => ("value out of range at column ", *i),
        };
        let mut r = owned(prefix);
        push_decimal(&mut r, i as u64);
        r
    }
}

/// The text of a string-like value: a string, or an integer in decimal.
pub open spec fn int_text(i: int) -> Seq<char> {
    if i < 0 {
        seq!['-'] + decimal((-i) as nat)
    } else {
        decimal(i as nat)
    }
}

pub open spec fn string_like(v: StoreValue) -> Option<Seq<char>> {
    match v {
        StoreValue::Text(s) => Some(s@),
        StoreValue::Int64(i) => Some(int_text(i as int)),
        StoreValue::UInt64(i) => Some(int_text(i as int)),
        StoreValue::Int32(i) => Some(int_text(i as int)),
        StoreValue::UInt32(i) => Some(int_text(i as int)),
        _ => None,
    }
}

/// The column as text, as `string_at` reads it.
pub open spec fn text_cell(row: Seq<StoreValue>, idx: usize) -> Result<Seq<char>, RowError> {
    if idx >= row.len() {
        Err(RowError::MissingColumn(idx))
    } else {
        match string_like(row[idx as int]) {
            Some(s) => Ok(s),
            None => Err(RowError::Unexpected(idx, ValueClass::StringLike)),
        }
    }
}

/// The column as optional text: `None` for a null value.
pub open spec fn opt_text_cell(row: Seq<StoreValue>, idx: usize) -> Result<Option<Seq<char>>, RowError> {
    if idx >= row.len() {
        Err(RowError::MissingColumn(idx))
    } else if row[idx as int] is Null {
        Ok(None)
    } else {
        match text_cell(row, idx) {
            Ok(s) => Ok(Some(s)),
            Err(e) => Err(e),
        }
    }
}

/// The column as an unsigned integer.
pub open spec fn u64_cell(row: Seq<StoreValue>, idx: usize) -> Result<u64, RowError> {
    if idx >= row.len() {
        Err(RowError::MissingColumn(idx))
    } else {
        match row[idx as int] {
            StoreValue::UInt64(v) => Ok(v),
            StoreValue::Int64(v) => if v >= 0 {
                Ok(v as u64)
            } else {
                Err(RowError::OutOfRange(idx))
            },
            StoreValue::UInt32(v) => Ok(v as u64),
            StoreValue::Int32(v) => if v >= 0 {
                Ok(v as u64)
            } else {
                Err(RowError::OutOfRange(idx))
            },
            _ => Err(RowError::Unexpected(idx, ValueClass::Integer)),
        }
    }
}

/// The column as a count of thousandths.
pub open spec fn milli_cell(row: Seq<StoreValue>, idx: usize) -> Result<u32, RowError> {
    if idx >= row.len() {
        Err(RowError::MissingColumn(idx))
    } else {
        match row[idx as int] {
            StoreValue::Float(m) => Ok(m),
            StoreValue::Double(m) => Ok(m),
            StoreValue::Int64(v) => if 0 <= v <= 4294967 {
                Ok((v * 1000) as u32)
            } else {
                Err(RowError::OutOfRange(idx))
            },
            StoreValue::Int32(v) => if 0 <= v <= 4294967 {
                Ok((v * 1000) as u32)
            } else {
                Err(RowError::OutOfRange(idx))
            },
            _ => Err(RowError::Unexpected(idx, ValueClass::Float)),
        }
    }
}

/// The column as a line number.
pub open spec fn line_cell(row: Seq<StoreValue>, idx: usize) -> Result<usize, RowError> {
    match u64_cell(row, idx) {
        Ok(v) => if v <= usize::MAX {
            Ok(v as usize)
        } else {
            Err(RowError::OutOfRange(idx))
        },
        Err(e) => Err(e),
    }
}

fn int_string(negative: bool, magnitude: u64) -> (r: String)
    ensures
        r@ == (if negative && magnitude > 0 {
            seq!['-'] + decimal(magnitude as nat)
        } else {
            decimal(magnitude as nat)
        }),
{
    let mut r = String::new();
    if negative && magnitude > 0 {
        push_char(&mut r, '-');
    }
    push_decimal(&mut r, magnitude);
    r
}

fn i64_text(v: i64) -> (r: String)
    ensures
        r@ == int_text(v as int),
{
    if v < 0 {
        let m: u64 = if v == i64::MIN {
            9223372036854775808u64
        } else {
            (-v) as u64
        };
        int_string(true, m)
    } else {
        int_string(false, v as u64)
    }
}

/// The column as text: a string, or an integer written in decimal (`string_at`).
pub fn string_at(row: &Vec<StoreValue>, idx: usize) -> (r: Result<String, RowError>)
    ensures
        match r {
            Ok(s) => text_cell(row@, idx) == Ok::<Seq<char>, RowError>(s@),
            Err(e) => text_cell(row@, idx) == Err::<Seq<char>, RowError>(e),
        },
{
    if idx >= row.len() {
        return Err(RowError::MissingColumn(idx));
    }
    match &row[idx] {
        StoreValue::Text(s) => Ok(s.clone()),
        StoreValue::Int64(v) => Ok(i64_text(*v)),
        StoreValue::UInt64(v) => Ok(decimal_string(*v)),
        StoreValue::Int32(v) => Ok(i64_text(*v as i64)),
        StoreValue::UInt32(v) => Ok(decimal_string(*v as u64)),
        _ => Err(RowError::Unexpected(idx, ValueClass::StringLike)),
    }
}

/// The column as optional text: `None` for a null value (`optional_string_at`).
pub fn optional_string_at(row: &Vec<StoreValue>, idx: usize) -> (r: Result<Option<String>, RowError>)
    ensures
        match r {
            Ok(Some(s)) => opt_text_cell(row@, idx) == Ok::<Option<Seq<char>>, RowError>(Some(s@)),
            Ok(None) => opt_text_cell(row@, idx) == Ok::<Option<Seq<char>>, RowError>(None),
            Err(e) => opt_text_cell(row@, idx) == Err::<Option<Seq<char>>, RowError>(e),
        },
{
    if idx >= row.len() {
        return Err(RowError::MissingColumn(idx));
    }
    if let StoreValue::Null = &row[idx] {
        return Ok(None);
    }
    match string_at(row, idx) {
        Ok(s) => Ok(Some(s)),
        Err(e) => Err(e),
    }
}

/// The column as an unsigned integer; a negative integer is out of range (`u64_at`).
pub fn u64_at(row: &Vec<StoreValue>, idx: usize) -> (r: Result<u64, RowError>)
    ensures
        r == u64_cell(row@, idx),
{
    if idx >= row.len() {
        return Err(RowError::MissingColumn(idx));
    }
    match &row[idx] {
        StoreValue::UInt64(v) => Ok(*v),
        StoreValue::Int64(v) => if *v >= 0 {
            Ok(*v as u64)
        } else {
            Err(RowError::OutOfRange(idx))
        },
        StoreValue::UInt32(v) => Ok(*v as u64),
        StoreValue::Int32(v) => if *v >= 0 {
            Ok(*v as u64)
        } else {
            Err(RowError::OutOfRange(idx))
        },
        _ => Err(RowError::Unexpected(idx, ValueClass::Integer)),
    }
}

/// The column as a count of thousandths: a floating-point value as given, or a whole
/// number times a thousand.
pub fn milli_at(row: &Vec<StoreValue>, idx: usize) -> (r: Result<u32, RowError>)
    ensures
        r == milli_cell(row@, idx),
{
    if idx >= row.len() {
        return Err(RowError::MissingColumn(idx));
    }
    match &row[idx] {
        StoreValue::Float(m) => Ok(*m),
        StoreValue::Double(m) => Ok(*m),
        StoreValue::Int64(v) => if 0 <= *v && *v <= 4294967 {
            Ok((*v * 1000) as u32)
        } else {
            Err(RowError::OutOfRange(idx))
        },
        StoreValue::Int32(v) => if 0 <= *v && *v <= 4294967 {
            Ok((*v as i64 * 1000) as u32)
        } else {
            Err(RowError::OutOfRange(idx))
        },
        _ => Err(RowError::Unexpected(idx, ValueClass::Float)),
    }
}

fn line_at(row: &Vec<StoreValue>, idx: usize) -> (r: Result<usize, RowError>)
    ensures
        r == line_cell(row@, idx),
{
    match u64_at(row, idx) {
        Ok(v) => if v <= usize::MAX as u64 {
            Ok(v as usize)
        } else {
            Err(RowError::OutOfRange(idx))
        },
        Err(e) => Err(e),
    }
}

/// The language a stored name stands for; an unknown name is `Unknown`.
pub open spec fn language_of_name(s: Seq<char>) -> Language {
    if s == "rust"@ {
        Language::Rust
    } else if s == "python"@ {
        Language::Python
    } else if s == "javascript"@ {
        Language::JavaScript
    } else if s == "typescript"@ {
        Language::TypeScript
    } else if s == "java"@ {
        Language::Java
    } else if s == "go"@ {
        Language::Go
    } else {
        Language::Unknown
    }
}

/// The symbol kind a stored name stands for; an unknown name is `Type`.
pub open spec fn symbol_kind_of_name(s: Seq<char>) -> SymbolKind {
    if s == "Struct"@ {
        SymbolKind::Struct
    } else if s == "Enum"@ {
        SymbolKind::Enum
    } else if s == "Trait"@ {
        SymbolKind::Trait
    } else if s == "Function"@ {
        SymbolKind::Function
    } else if s == "Method"@ {
        SymbolKind::Method
    } else if s == "Class"@ {
        SymbolKind::Class
    } else if s == "Interface"@ {
        SymbolKind::Interface
    } else if s == "Module"@ {
        SymbolKind::Module
    } else {
        SymbolKind::Type
    }
}

fn same(a: &str, b: &str) -> (r: bool)
    ensures
        r == (a@ == b@),
{
    let n = a.unicode_len();
    if n != b.unicode_len() {
        return false;
    }
    let mut i: usize = 0;
    while i < n
        invariant
            n == a@.len(),
            n == b@.len(),
            i <= n,
            forall|k: int| 0 <= k < i ==> a@[k] == b@[k],
        decreases n - i,
    {
        if a.get_char(i) != b.get_char(i) {
            return false;
        }
        i = i + 1;
    }
    assert(a@ =~= b@);
    true
}

/// The language of a stored language name.
pub fn language_from_store(value: &str) -> (r: Language)
    ensures
        r == language_of_name(value@),
{
    proof {
        reveal_strlit("rust");
        reveal_strlit("python");
        reveal_strlit("javascript");
        reveal_strlit("typescript");
        reveal_strlit("java");
        reveal_strlit("go");
    }
    if same(value, "rust") {
        Language::Rust
    } else if same(value, "python") {
        Language::Python
    } else if same(value, "javascript") {
        Language::JavaScript
    } else if same(value, "typescript") {
        Language::TypeScript
    } else if same(value, "java") {
        Language::Java
    } else if same(value, "go") {
        Language::Go
    } else {
        Language::Unknown
    }
}

/// The symbol kind of a stored kind name.
pub fn symbol_kind_from_store(value: &str) -> (r: SymbolKind)
    ensures
        r == symbol_kind_of_name(value@),
{
    if same(value, "Struct") {
        SymbolKind::Struct
    } else if same(value, "Enum") {
        SymbolKind::Enum
    } else if same(value, "Trait") {
        SymbolKind::Trait
    } else if same(value, "Function") {
        SymbolKind::Function
    } else if same(value, "Method") {
        SymbolKind::Method
    } else if same(value, "Class") {
        SymbolKind::Class
    } else if same(value, "Interface") {
        SymbolKind::Interface
    } else if same(value, "Module") {
        SymbolKind::Module
    } else {
        SymbolKind::Type
    }
}

/// A language reads back from the store as the language that was written.
pub proof fn law_language_round_trip(l: Language)
    ensures
        language_of_name(language_name(l)) == l,
{
    reveal_strlit("rust");
    reveal_strlit("python");
    reveal_strlit("javascript");
    reveal_strlit("typescript");
    reveal_strlit("java");
    reveal_strlit("go");
    reveal_strlit("unknown");
    assert("rust"@.len() == 4);
    assert("python"@.len() == 6);
    assert("javascript"@.len() == 10);
    assert("typescript"@.len() == 10);
    assert("java"@.len() == 4);
    assert("go"@.len() == 2);
    assert("unknown"@.len() == 7);
    assert("typescript"@[0] != "javascript"@[0]);
    assert("java"@[0] != "rust"@[0]);
}

/// A symbol kind reads back from the store as the kind that was written.
pub proof fn law_symbol_kind_round_trip(k: SymbolKind)
    ensures
        symbol_kind_of_name(symbol_kind_name(k)) == k,
{
    reveal_strlit("Struct");
    reveal_strlit("Enum");
    reveal_strlit("Trait");
    reveal_strlit("Function");
    reveal_strlit("Method");
    reveal_strlit("Class");
    reveal_strlit("Interface");
    reveal_strlit("Module");
    reveal_strlit("Type");
    assert("Struct"@.len() == 6);
    assert("Enum"@.len() == 4);
    assert("Trait"@.len() == 5);
    assert("Function"@.len() == 8);
    assert("Method"@.len() == 6);
    assert("Class"@.len() == 5);
    assert("Interface"@.len() == 9);
    assert("Module"@.len() == 6);
    assert("Type"@.len() == 4);
    assert("Method"@[0] != "Struct"@[0]);
    assert("Module"@[0] != "Struct"@[0]);
    assert("Module"@[1] != "Method"@[1]);
    assert("Class"@[0] != "Trait"@[0]);
    assert("Type"@[0] != "Enum"@[0]);
}

/// The symbol a row of the store holds: identifier, file identifier, file path, name,
/// kind, language, first and last line; the first column that cannot be read is the error.
pub open spec fn symbol_row(row: Seq<StoreValue>) -> Result<SymbolView, RowError> {
    match (
        text_cell(row, 0),
        text_cell(row, 1),
        text_cell(row, 2),
        text_cell(row, 3),
        text_cell(row, 4),
        text_cell(row, 5),
        line_cell(row, 6),
        line_cell(row, 7),
    ) {
        (Ok(id), Ok(file_id), Ok(path), Ok(name), Ok(kind), Ok(lang), Ok(start), Ok(end)) => Ok(
            SymbolView {
                symbol_id: id,
                file_id: file_id,
                file_path: path,
                name: name,
                kind: symbol_kind_of_name(kind),
                range: CodeChunk { start_line: start, end_line: end },
                language: language_of_name(lang),
            },
        ),
        (Err(e), _, _, _, _, _, _, _) => Err(e),
        (_, Err(e), _, _, _, _, _, _) => Err(e),
        (_, _, Err(e), _, _, _, _, _) => Err(e),
        (_, _, _, Err(e), _, _, _, _) => Err(e),
        (_, _, _, _, Err(e), _, _, _) => Err(e),
        (_, _, _, _, _, Err(e), _, _) => Err(e),
        (_, _, _, _, _, _, Err(e), _) => Err(e),
        (_, _, _, _, _, _, _, Err(e)) => Err(e),
    }
}

/// The import a row of the store holds: identifier, file identifier, raw target, line.
pub open spec fn import_row(row: Seq<StoreValue>) -> Result<ImportView, RowError> {
    match (text_cell(row, 0), text_cell(row, 1), text_cell(row, 2), line_cell(row, 3)) {
        (Ok(id), Ok(file_id), Ok(raw), Ok(line)) => Ok(
            ImportView { import_id: id, from_file_id: file_id, raw_target: raw, line: line },
        ),
        (Err(e), _, _, _) => Err(e),
        (_, Err(e), _, _) => Err(e),
        (_, _, Err(e), _) => Err(e),
        (_, _, _, Err(e)) => Err(e),
    }
}

/// The file dependency a row of the store holds: source and target identifiers and
/// paths, raw target, confidence score and label, and the evidence detail.
pub open spec fn dependency_row(row: Seq<StoreValue>) -> Result<FileDependencyView, RowError> {
    match (
        text_cell(row, 0),
        text_cell(row, 1),
        text_cell(row, 2),
        text_cell(row, 3),
        text_cell(row, 4),
        milli_cell(row, 5),
        text_cell(row, 6),
        text_cell(row, 7),
    ) {
        (Ok(from), Ok(to), Ok(from_path), Ok(to_path), Ok(raw), Ok(score), Ok(label), Ok(detail)) => Ok(
            FileDependencyView {
                from_file_id: from,
                to_file_id: to,
                from_relative_path: from_path,
                to_relative_path: to_path,
                raw_target: raw,
                score_milli: score,
                label: label,
                source: "kuzu-import-resolver"@,
                detail: detail,
            },
        ),
        (Err(e), _, _, _, _, _, _, _) => Err(e),
        (_, Err(e), _, _, _, _, _, _) => Err(e),
        (_, _, Err(e), _, _, _, _, _) => Err(e),
        (_, _, _, Err(e), _, _, _, _) => Err(e),
        (_, _, _, _, Err(e), _, _, _) => Err(e),
        (_, _, _, _, _, Err(e), _, _) => Err(e),
        (_, _, _, _, _, _, Err(e), _) => Err(e),
        (_, _, _, _, _, _, _, Err(e)) => Err(e),
    }
}

/// The warning a row of the store holds: identifier, optional file identifier, file
/// path, stage and message.
pub open spec fn warning_row(row: Seq<StoreValue>) -> Result<IndexWarningView, RowError> {
    match (text_cell(row, 0), opt_text_cell(row, 1), text_cell(row, 2), text_cell(row, 3), text_cell(row, 4)) {
        (Ok(id), Ok(file_id), Ok(path), Ok(stage), Ok(message)) => Ok(
            IndexWarningView { warning_id: id, file_id: file_id, file_path: path, stage: stage, message: message },
        ),
        (Err(e), _, _, _, _) => Err(e),
        (_, Err(e), _, _, _) => Err(e),
        (_, _, Err(e), _, _) => Err(e),
        (_, _, _, Err(e), _) => Err(e),
        (_, _, _, _, Err(e)) => Err(e),
    }
}

/// The symbol a row holds (`symbol_from_row`).
pub fn symbol_from_row(row: &Vec<StoreValue>) -> (r: Result<Symbol, RowError>)
    ensures
        match r {
            Ok(s) => symbol_row(row@) == Ok::<SymbolView, RowError>(s@),
            Err(e) => symbol_row(row@) == Err::<SymbolView, RowError>(e),
        },
{
    let id = match string_at(row, 0) { Ok(v) => v, Err(e) => return Err(e) };
    let file_id = match string_at(row, 1) { Ok(v) => v, Err(e) => return Err(e) };
    let path = match string_at(row, 2) { Ok(v) => v, Err(e) => return Err(e) };
    let name = match string_at(row, 3) { Ok(v) => v, Err(e) => return Err(e) };
    let kind = match string_at(row, 4) { Ok(v) => v, Err(e) => return Err(e) };
    let lang = match string_at(row, 5) { Ok(v) => v, Err(e) => return Err(e) };
    let start = match line_at(row, 6) { Ok(v) => v, Err(e) => return Err(e) };
    let end = match line_at(row, 7) { Ok(v) => v, Err(e) => return Err(e) };
    Ok(
        Symbol {
            symbol_id: SymbolId(id),
            file_id: FileId(file_id),
            file_path: path,
            name,
            kind: symbol_kind_from_store(kind.as_str()),
            range: CodeChunk { start_line: start, end_line: end },
            language: language_from_store(lang.as_str()),
        },
    )
}

/// The import a row holds (`import_from_row`).
pub fn import_from_row(row: &Vec<StoreValue>) -> (r: Result<Import, RowError>)
    ensures
        match r {
            Ok(i) => import_row(row@) == Ok::<ImportView, RowError>(i@),
            Err(e) => import_row(row@) == Err::<ImportView, RowError>(e),
        },
{
    let id = match string_at(row, 0) { Ok(v) => v, Err(e) => return Err(e) };
    let file_id = match string_at(row, 1) { Ok(v) => v, Err(e) => return Err(e) };
    let raw = match string_at(row, 2) { Ok(v) => v, Err(e) => return Err(e) };
    let line = match line_at(row, 3) { Ok(v) => v, Err(e) => return Err(e) };
    Ok(Import { import_id: ImportId(id), from_file_id: FileId(file_id), raw_target: raw, line })
}

/// The file dependency a row holds (`file_dependency_from_row`).
pub fn file_dependency_from_row(row: &Vec<StoreValue>) -> (r: Result<FileDependency, RowError>)
    ensures
        match r {
            Ok(d) => dependency_row(row@) == Ok::<FileDependencyView, RowError>(d@),
            Err(e) => dependency_row(row@) == Err::<FileDependencyView, RowError>(e),
        },
{
    let from = match string_at(row, 0) { Ok(v) => v, Err(e) => return Err(e) };
    let to = match string_at(row, 1) { Ok(v) => v, Err(e) => return Err(e) };
    let from_path = match string_at(row, 2) { Ok(v) => v, Err(e) => return Err(e) };
    let to_path = match string_at(row, 3) { Ok(v) => v, Err(e) => return Err(e) };
    let raw = match string_at(row, 4) { Ok(v) => v, Err(e) => return Err(e) };
    let score = match milli_at(row, 5) { Ok(v) => v, Err(e) => return Err(e) };
    let label = match string_at(row, 6) { Ok(v) => v, Err(e) => return Err(e) };
    let detail = match string_at(row, 7) { Ok(v) => v, Err(e) => return Err(e) };
    Ok(
        FileDependency {
            from_file_id: FileId(from),
            to_file_id: FileId(to),
            from_relative_path: from_path,
            to_relative_path: to_path,
            raw_target: raw,
            confidence: Confidence { score_milli: score, label },
            evidence: Evidence { source: owned("kuzu-import-resolver"), detail },
        },
    )
}

/// The warning a row holds (`warning_from_row`).
pub fn warning_from_row(row: &Vec<StoreValue>) -> (r: Result<IndexWarning, RowError>)
    ensures
        match r {
            Ok(w) => warning_row(row@) == Ok::<IndexWarningView, RowError>(w@),
            Err(e) => warning_row(row@) == Err::<IndexWarningView, RowError>(e),
        },
{
    let id = match string_at(row, 0) { Ok(v) => v, Err(e) => return Err(e) };
    let file_id = match optional_string_at(row, 1) { Ok(v) => v, Err(e) => return Err(e) };
    let path = match string_at(row, 2) { Ok(v) => v, Err(e) => return Err(e) };
    let stage = match string_at(row, 3) { Ok(v) => v, Err(e) => return Err(e) };
    let message = match string_at(row, 4) { Ok(v) => v, Err(e) => return Err(e) };
    let file_id = match file_id {
        Some(f) => Some(FileId(f)),
        None => None,
    };
    Ok(IndexWarning { warning_id: WarningId(id), file_id, file_path: path, stage, message })
}

/// The error of a cell, if any.
pub open spec fn err_of<T>(r: Result<T, RowError>) -> Option<RowError> {
    match r {
        Ok(_) => None,
        Err(e) => Some(e),
    }
}

/// The first error of a list of checks made in order.
pub open spec fn first_err(checks: Seq<Option<RowError>>) -> Option<RowError>
    decreases checks.len(),
{
    if checks.len() == 0 {
        None
    } else if checks[0] is Some {
        checks[0]
    } else {
        first_err(checks.drop_first())
    }
}

pub open spec fn text_of(row: Seq<StoreValue>, i: usize) -> Seq<char> {
    text_cell(row, i)->Ok_0
}

pub open spec fn opt_text_of(row: Seq<StoreValue>, i: usize) -> Option<Seq<char>> {
    opt_text_cell(row, i)->Ok_0
}

/// A stored file's status: `deleted`, or active.
pub open spec fn status_of_name(s: Seq<char>) -> FileStatus {
    if s == "deleted"@ {
        FileStatus::Deleted
    } else {
        FileStatus::Active
    }
}

/// The checks of a fingerprint row, in the order they are made.
pub open spec fn record_checks(row: Seq<StoreValue>) -> Seq<Option<RowError>> {
    seq![
        err_of(text_cell(row, 0)),
        err_of(text_cell(row, 1)),
        err_of(text_cell(row, 2)),
        err_of(text_cell(row, 3)),
        err_of(text_cell(row, 4)),
        err_of(u64_cell(row, 5)),
        err_of(u64_cell(row, 6)),
        err_of(text_cell(row, 7)),
        err_of(text_cell(row, 8)),
        err_of(text_cell(row, 9)),
        err_of(opt_text_cell(row, 10)),
        err_of(opt_text_cell(row, 11)),
        err_of(opt_text_cell(row, 12)),
        err_of(text_cell(row, 13)),
        err_of(opt_text_cell(row, 14)),
    ]
}

/// The record of a stored file that a fingerprint row of the scope holds: project,
/// worktree, file identifier, relative path, hash, size, modification time, the three
/// versions, last run, creation and update times, status and deletion time.
pub open spec fn record_row_ok(r: FileFingerprintRecord, row: Seq<StoreValue>, scope_id: Seq<char>) -> bool {
    &&& r.project_id@ == text_of(row, 0)
    &&& r.worktree_id@ == text_of(row, 1)
    &&& r.scope_id@ == scope_id
    &&& r.file_id@ == text_of(row, 2)
    &&& r.relative_path@ == text_of(row, 3)
    &&& r.fingerprint.sha256@ == text_of(row, 4)
    &&& r.fingerprint.size_bytes == u64_cell(row, 5)->Ok_0
    &&& r.fingerprint.mtime_seconds == u64_cell(row, 6)->Ok_0
    &&& r.parser_version@ == text_of(row, 7)
    &&& r.schema_version@ == text_of(row, 8)
    &&& r.chunker_version@ == text_of(row, 9)
    &&& opt_view(r.last_indexed_run_id) == opt_text_of(row, 10)
    &&& opt_view(r.created_at) == opt_text_of(row, 11)
    &&& opt_view(r.updated_at) == opt_text_of(row, 12)
    &&& r.status == status_of_name(text_of(row, 13))
    &&& opt_view(r.deleted_at) == opt_text_of(row, 14)
}


proof fn lemma_first_err_at(checks: Seq<Option<RowError>>, k: int)
    requires
        0 <= k < checks.len(),
        forall|j: int| 0 <= j < k ==> checks[j] is None,
        checks[k] is Some,
    ensures
        first_err(checks) == checks[k],
    decreases k,
{
    if k > 0 {
        let rest = checks.drop_first();
        assert forall|j: int| 0 <= j < k - 1 implies rest[j] is None by {
            assert(rest[j] == checks[j + 1]);
        }
        lemma_first_err_at(rest, k - 1);
    }
}

proof fn lemma_first_err_none(checks: Seq<Option<RowError>>)
    requires
        forall|j: int| 0 <= j < checks.len() ==> checks[j] is None,
    ensures
        first_err(checks) is None,
    decreases checks.len(),
{
    if checks.len() > 0 {
        let rest = checks.drop_first();
        assert forall|j: int| 0 <= j < rest.len() implies rest[j] is None by {
            assert(rest[j] == checks[j + 1]);
        }
        lemma_first_err_none(rest);
    }
}

/// The fingerprint record that a row of the scope's files holds (the rows that
/// `load_file_fingerprints` reads); the first column that cannot be read is the error.
pub fn fingerprint_record_from_row(row: &Vec<StoreValue>, scope_id: &ScopeId) -> (r: Result<
    FileFingerprintRecord,
    RowError,
>)
    ensures
        match r {
            Ok(rec) => first_err(record_checks(row@)) is None && record_row_ok(rec, row@, scope_id@),
            Err(e) => first_err(record_checks(row@)) == Some(e),
        },
{
    let ghost checks = record_checks(row@);
    let project = string_at(row, 0);
    if let Err(e) = project {
        proof { lemma_first_err_at(checks, 0); }
        return Err(e);
    }
    let worktree = string_at(row, 1);
    if let Err(e) = worktree {
        proof { lemma_first_err_at(checks, 1); }
        return Err(e);
    }
    let file_id = string_at(row, 2);
    if let Err(e) = file_id {
        proof { lemma_first_err_at(checks, 2); }
        return Err(e);
    }
    let path = string_at(row, 3);
    if let Err(e) = path {
        proof { lemma_first_err_at(checks, 3); }
        return Err(e);
    }
    let sha = string_at(row, 4);
    if let Err(e) = sha {
        proof { lemma_first_err_at(checks, 4); }
        return Err(e);
    }
    let size = u64_at(row, 5);
    if let Err(e) = size {
        proof { lemma_first_err_at(checks, 5); }
        return Err(e);
    }
    let mtime = u64_at(row, 6);
    if let Err(e) = mtime {
        proof { lemma_first_err_at(checks, 6); }
        return Err(e);
    }
    let parser = string_at(row, 7);
    if let Err(e) = parser {
        proof { lemma_first_err_at(checks, 7); }
        return Err(e);
    }
    let schema = string_at(row, 8);
    if let Err(e) = schema {
        proof { lemma_first_err_at(checks, 8); }
        return Err(e);
    }
    let chunker = string_at(row, 9);
    if let Err(e) = chunker {
        proof { lemma_first_err_at(checks, 9); }
        return Err(e);
    }
    let last_run = optional_string_at(row, 10);
    if let Err(e) = last_run {
        proof { lemma_first_err_at(checks, 10); }
        return Err(e);
    }
    let created = optional_string_at(row, 11);
    if let Err(e) = created {
        proof { lemma_first_err_at(checks, 11); }
        return Err(e);
    }
    let updated = optional_string_at(row, 12);
    if let Err(e) = updated {
        proof { lemma_first_err_at(checks, 12); }
        return Err(e);
    }
    let status = string_at(row, 13);
    if let Err(e) = status {
        proof { lemma_first_err_at(checks, 13); }
        return Err(e);
    }
    let deleted = optional_string_at(row, 14);
    if let Err(e) = deleted {
        proof { lemma_first_err_at(checks, 14); }
        return Err(e);
    }
    proof {
        lemma_first_err_none(checks);
    }
    let status = status.unwrap();
    proof {
        reveal_strlit("deleted");
    }
    let status = if same(status.as_str(), "deleted") {
        FileStatus::Deleted
    } else {
        FileStatus::Active
    };
    let last_run = match last_run.unwrap() {
        Some(x) => Some(RunId(x)),
        None => None,
    };
    Ok(
        FileFingerprintRecord {
            project_id: ProjectId(project.unwrap()),
            worktree_id: WorktreeId(worktree.unwrap()),
            scope_id: scope_id.clone(),
            file_id: FileId(file_id.unwrap()),
            relative_path: path.unwrap(),
            fingerprint: FileFingerprint { sha256: sha.unwrap(), size_bytes: size.unwrap(), mtime_seconds: mtime.unwrap() },
            parser_version: parser.unwrap(),
            schema_version: schema.unwrap(),
            chunker_version: chunker.unwrap(),
            last_indexed_run_id: last_run,
            created_at: created.unwrap(),
            updated_at: updated.unwrap(),
            status,
            deleted_at: deleted.unwrap(),
        },
    )
}

/// The stored file a row holds: identifier, relative path and language name.
pub open spec fn stored_file_row(row: Seq<StoreValue>) -> Result<(Seq<char>, Seq<char>, Language), RowError> {
    match (text_cell(row, 0), text_cell(row, 1), text_cell(row, 2)) {
        (Ok(id), Ok(path), Ok(lang)) => Ok((id, path, language_of_name(lang))),
        (Err(e), _, _) => Err(e),
        (_, Err(e), _) => Err(e),
        (_, _, Err(e)) => Err(e),
    }
}

/// The stored file that a row holds (the rows of `rebuild_scope_import_edges`).
pub fn stored_file_from_row(row: &Vec<StoreValue>) -> (r: Result<StoredFile, RowError>)
    ensures
        match r {
            Ok(f) => stored_file_row(row@) == Ok::<(Seq<char>, Seq<char>, Language), RowError>(
                (f.file_id@, f.relative_path@, f.language),
            ),
            Err(e) => stored_file_row(row@) == Err::<(Seq<char>, Seq<char>, Language), RowError>(e),
        },
{
    let id = match string_at(row, 0) { Ok(v) => v, Err(e) => return Err(e) };
    let path = match string_at(row, 1) { Ok(v) => v, Err(e) => return Err(e) };
    let lang = match string_at(row, 2) { Ok(v) => v, Err(e) => return Err(e) };
    Ok(StoredFile { file_id: FileId(id), relative_path: path, language: language_from_store(lang.as_str()) })
}

/// The import row that a row holds: the importing file's three columns, then the raw
/// target.
pub fn import_row_from_row(row: &Vec<StoreValue>) -> (r: Result<ImportRow, RowError>)
    ensures
        match r {
            Ok(x) => stored_file_row(row@) == Ok::<(Seq<char>, Seq<char>, Language), RowError>(
                (x.from.file_id@, x.from.relative_path@, x.from.language),
            ) && text_cell(row@, 3) == Ok::<Seq<char>, RowError>(x.raw_target@),
            Err(e) => match stored_file_row(row@) {
                Err(e2) => e == e2,
                Ok(_) => text_cell(row@, 3) == Err::<Seq<char>, RowError>(e),
            },
        },
{
    let from = match stored_file_from_row(row) { Ok(v) => v, Err(e) => return Err(e) };
    let raw = match string_at(row, 3) { Ok(v) => v, Err(e) => return Err(e) };
    Ok(ImportRow { from, raw_target: raw })
}

/// The file that a row of `active_file_by_path` holds: identifier and relative path.
pub fn active_file_from_row(row: &Vec<StoreValue>) -> (r: Result<(FileId, String), RowError>)
    ensures
        match r {
            Ok((id, path)) => text_cell(row@, 0) == Ok::<Seq<char>, RowError>(id@) && text_cell(row@, 1) == Ok::<
                Seq<char>,
                RowError,
            >(path@),
            Err(e) => text_cell(row@, 0) == Err::<Seq<char>, RowError>(e) || (text_cell(row@, 0) is Ok
                && text_cell(row@, 1) == Err::<Seq<char>, RowError>(e)),
        },
{
    let id = match string_at(row, 0) { Ok(v) => v, Err(e) => return Err(e) };
    let path = match string_at(row, 1) { Ok(v) => v, Err(e) => return Err(e) };
    Ok((FileId(id), path))
}

/// The checks of an index run row, in order.
pub open spec fn run_checks(row: Seq<StoreValue>) -> Seq<Option<RowError>> {
    Seq::new(8, |i: int| err_of(text_cell(row, i as usize)))
}

/// The context of an index run that a row holds: project, worktree, scope, repository,
/// root, and the parser, schema and chunker versions.
pub fn run_context_from_row(row: &Vec<StoreValue>) -> (r: Result<IndexContext, RowError>)
    ensures
        match r {
            Ok(c) => first_err(run_checks(row@)) is None && c.project_id@ == text_of(row@, 0) && c.worktree_id@
                == text_of(row@, 1) && c.scope_id@ == text_of(row@, 2) && c.repo_id@ == text_of(row@, 3)
                && c.repo_root@ == text_of(row@, 4) && c.parser_version@ == text_of(row@, 5) && c.schema_version@
                == text_of(row@, 6) && c.chunker_version@ == text_of(row@, 7),
            Err(e) => first_err(run_checks(row@)) == Some(e),
        },
{
    let ghost checks = run_checks(row@);
    let mut vals: Vec<String> = Vec::new();
    let mut i: usize = 0;
    while i < 8
        invariant
            i <= 8,
            checks == run_checks(row@),
            vals@.len() == i,
            forall|j: int| 0 <= j < i ==> (#[trigger] checks[j]) is None,
            forall|j: int| 0 <= j < i ==> text_of(row@, j as usize) == (#[trigger] vals@[j])@,
        decreases 8 - i,
    {
        match string_at(row, i) {
            Ok(v) => {
                proof {
                    assert(checks[i as int] == err_of(text_cell(row@, i)));
                }
                let ghost before = vals@;
                vals.push(v);
                assert(vals@[i as int] == v);
            },
            Err(e) => {
                proof {
                    assert(checks[i as int] == err_of(text_cell(row@, i)));
                    lemma_first_err_at(checks, i as int);
                }
                return Err(e);
            },
        }
        i = i + 1;
    }
    proof {
        lemma_first_err_none(checks);
    }
    let chunker = vals.pop().unwrap();
    let schema = vals.pop().unwrap();
    let parser = vals.pop().unwrap();
    let root = vals.pop().unwrap();
    let repo = vals.pop().unwrap();
    let scope = vals.pop().unwrap();
    let worktree = vals.pop().unwrap();
    let project = vals.pop().unwrap();
    Ok(
        IndexContext {
            repo_id: RepoId(repo),
            project_id: ProjectId(project),
            worktree_id: WorktreeId(worktree),
            scope_id: ScopeId(scope),
            repo_root: root,
            parser_version: parser,
            schema_version: schema,
            chunker_version: chunker,
        },
    )
}

/// The views of some rows.
pub open spec fn row_views(rows: Seq<Vec<StoreValue>>) -> Seq<Seq<StoreValue>> {
    rows.map_values(|r: Vec<StoreValue>| r@)
}

/// Each row read in order; the first row that cannot be read gives the error.
pub open spec fn rows_map<T>(rows: Seq<Seq<StoreValue>>, f: spec_fn(Seq<StoreValue>) -> Result<T, RowError>) -> Result<
    Seq<T>,
    RowError,
>
    decreases rows.len(),
{
    if rows.len() == 0 {
        Ok(seq![])
    } else {
        match rows_map(rows.drop_last(), f) {
            Err(e) => Err(e),
            Ok(xs) => match f(rows.last()) {
                Ok(x) => Ok(xs.push(x)),
                Err(e) => Err(e),
            },
        }
    }
}

proof fn lemma_rows_map_err<T>(rows: Seq<Seq<StoreValue>>, f: spec_fn(Seq<StoreValue>) -> Result<T, RowError>, j: int)
    requires
        0 < j <= rows.len(),
        rows_map(rows.take(j), f) is Err,
    ensures
        rows_map(rows, f) == rows_map(rows.take(j), f),
    decreases rows.len() - j,
{
    if j < rows.len() {
        assert(rows.take(j + 1).drop_last() =~= rows.take(j));
        lemma_rows_map_err(rows, f, j + 1);
    } else {
        assert(rows.take(j) =~= rows);
    }
}

/// The symbols that some rows hold, in order.
pub fn symbols_from_rows(rows: &Vec<Vec<StoreValue>>) -> (r: Result<Vec<Symbol>, RowError>)
    ensures
        match r {
            Ok(v) => rows_map(row_views(rows@), |x: Seq<StoreValue>| symbol_row(x)) == Ok::<Seq<SymbolView>, RowError>(
                v@.map_values(|y: Symbol| y@),
            ),
            Err(e) => rows_map(row_views(rows@), |x: Seq<StoreValue>| symbol_row(x)) == Err::<Seq<SymbolView>, RowError>(e),
        },
{
    let ghost f = |x: Seq<StoreValue>| symbol_row(x);
    let ghost rv = row_views(rows@);
    let mut out: Vec<Symbol> = Vec::new();
    let mut i: usize = 0;
    assert(rv.take(0) =~= Seq::<Seq<StoreValue>>::empty());
    assert(out@.map_values(|y: Symbol| y@) =~= Seq::<SymbolView>::empty());
    while i < rows.len()
        invariant
            i <= rows@.len(),
            f == (|x: Seq<StoreValue>| symbol_row(x)),
            rv == row_views(rows@),
            rows_map(rv.take(i as int), f) == Ok::<Seq<SymbolView>, RowError>(out@.map_values(|y: Symbol| y@)),
        decreases rows@.len() - i,
    {
        proof {
            assert(rv.take(i + 1).drop_last() =~= rv.take(i as int));
            assert(rv.take(i + 1).last() == rows@[i as int]@);
        }
        match symbol_from_row(&rows[i]) {
            Ok(x) => {
                let ghost before = out@;
                out.push(x);
                assert(out@.map_values(|y: Symbol| y@) =~= before.map_values(|y: Symbol| y@).push(x@));
            },
            Err(e) => {
                proof {
                    lemma_rows_map_err(rv, f, i as int + 1);
                }
                return Err(e);
            },
        }
        i = i + 1;
    }
    assert(rv.take(rv.len() as int) =~= rv);
    Ok(out)
}

/// The imports that some rows hold, in order.
pub fn imports_from_rows(rows: &Vec<Vec<StoreValue>>) -> (r: Result<Vec<Import>, RowError>)
    ensures
        match r {
            Ok(v) => rows_map(row_views(rows@), |x: Seq<StoreValue>| import_row(x)) == Ok::<Seq<ImportView>, RowError>(
                v@.map_values(|y: Import| y@),
            ),
            Err(e) => rows_map(row_views(rows@), |x: Seq<StoreValue>| import_row(x)) == Err::<Seq<ImportView>, RowError>(e),
        },
{
    let ghost f = |x: Seq<StoreValue>| import_row(x);
    let ghost rv = row_views(rows@);
    let mut out: Vec<Import> = Vec::new();
    let mut i: usize = 0;
    assert(rv.take(0) =~= Seq::<Seq<StoreValue>>::empty());
    assert(out@.map_values(|y: Import| y@) =~= Seq::<ImportView>::empty());
    while i < rows.len()
        invariant
            i <= rows@.len(),
            f == (|x: Seq<StoreValue>| import_row(x)),
            rv == row_views(rows@),
            rows_map(rv.take(i as int), f) == Ok::<Seq<ImportView>, RowError>(out@.map_values(|y: Import| y@)),
        decreases rows@.len() - i,
    {
        proof {
            assert(rv.take(i + 1).drop_last() =~= rv.take(i as int));
            assert(rv.take(i + 1).last() == rows@[i as int]@);
        }
        match import_from_row(&rows[i]) {
            Ok(x) => {
                let ghost before = out@;
                out.push(x);
                assert(out@.map_values(|y: Import| y@) =~= before.map_values(|y: Import| y@).push(x@));
            },
            Err(e) => {
                proof {
                    lemma_rows_map_err(rv, f, i as int + 1);
                }
                return Err(e);
            },
        }
        i = i + 1;
    }
    assert(rv.take(rv.len() as int) =~= rv);
    Ok(out)
}

/// The file dependencies that some rows hold, in order (`load_scope_dependencies`).
pub fn dependencies_from_rows(rows: &Vec<Vec<StoreValue>>) -> (r: Result<Vec<FileDependency>, RowError>)
    ensures
        match r {
            Ok(v) => rows_map(row_views(rows@), |x: Seq<StoreValue>| dependency_row(x)) == Ok::<Seq<FileDependencyView>, RowError>(
                v@.map_values(|y: FileDependency| y@),
            ),
            Err(e) => rows_map(row_views(rows@), |x: Seq<StoreValue>| dependency_row(x)) == Err::<Seq<FileDependencyView>, RowError>(e),
        },
{
    let ghost f = |x: Seq<StoreValue>| dependency_row(x);
    let ghost rv = row_views(rows@);
    let mut out: Vec<FileDependency> = Vec::new();
    let mut i: usize = 0;
    assert(rv.take(0) =~= Seq::<Seq<StoreValue>>::empty());
    assert(out@.map_values(|y: FileDependency| y@) =~= Seq::<FileDependencyView>::empty());
    while i < rows.len()
        invariant
            i <= rows@.len(),
            f == (|x: Seq<StoreValue>| dependency_row(x)),
            rv == row_views(rows@),
            rows_map(rv.take(i as int), f) == Ok::<Seq<FileDependencyView>, RowError>(out@.map_values(|y: FileDependency| y@)),
        decreases rows@.len() - i,
    {
        proof {
            assert(rv.take(i + 1).drop_last() =~= rv.take(i as int));
            assert(rv.take(i + 1).last() == rows@[i as int]@);
        }
        match file_dependency_from_row(&rows[i]) {
            Ok(x) => {
                let ghost before = out@;
                out.push(x);
                assert(out@.map_values(|y: FileDependency| y@) =~= before.map_values(|y: FileDependency| y@).push(x@));
            },
            Err(e) => {
                proof {
                    lemma_rows_map_err(rv, f, i as int + 1);
                }
                return Err(e);
            },
        }
        i = i + 1;
    }
    assert(rv.take(rv.len() as int) =~= rv);
    Ok(out)
}

/// The warnings that some rows hold, in order.
pub fn warnings_from_rows(rows: &Vec<Vec<StoreValue>>) -> (r: Result<Vec<IndexWarning>, RowError>)
    ensures
        match r {
            Ok(v) => rows_map(row_views(rows@), |x: Seq<StoreValue>| warning_row(x)) == Ok::<Seq<IndexWarningView>, RowError>(
                v@.map_values(|y: IndexWarning| y@),
            ),
            Err(e) => rows_map(row_views(rows@), |x: Seq<StoreValue>| warning_row(x)) == Err::<Seq<IndexWarningView>, RowError>(e),
        },
{
    let ghost f = |x: Seq<StoreValue>| warning_row(x);
    let ghost rv = row_views(rows@);
    let mut out: Vec<IndexWarning> = Vec::new();
    let mut i: usize = 0;
    assert(rv.take(0) =~= Seq::<Seq<StoreValue>>::empty());
    assert(out@.map_values(|y: IndexWarning| y@) =~= Seq::<IndexWarningView>::empty());
    while i < rows.len()
        invariant
            i <= rows@.len(),
            f == (|x: Seq<StoreValue>| warning_row(x)),
            rv == row_views(rows@),
            rows_map(rv.take(i as int), f) == Ok::<Seq<IndexWarningView>, RowError>(out@.map_values(|y: IndexWarning| y@)),
        decreases rows@.len() - i,
    {
        proof {
            assert(rv.take(i + 1).drop_last() =~= rv.take(i as int));
            assert(rv.take(i + 1).last() == rows@[i as int]@);
        }
        match warning_from_row(&rows[i]) {
            Ok(x) => {
                let ghost before = out@;
                out.push(x);
                assert(out@.map_values(|y: IndexWarning| y@) =~= before.map_values(|y: IndexWarning| y@).push(x@));
            },
            Err(e) => {
                proof {
                    lemma_rows_map_err(rv, f, i as int + 1);
                }
                return Err(e);
            },
        }
        i = i + 1;
    }
    assert(rv.take(rv.len() as int) =~= rv);
    Ok(out)
}

/// Row `k` reads without error as record `k`.
pub open spec fn record_at(out: Seq<FileFingerprintRecord>, rows: Seq<Vec<StoreValue>>, scope_id: Seq<char>, k: int) -> bool {
    first_err(record_checks(rows[k]@)) is None && record_row_ok(out[k], rows[k]@, scope_id)
}

/// A stored file as the three values its row holds.
pub open spec fn stored_view(f: StoredFile) -> (Seq<char>, Seq<char>, Language) {
    (f.file_id@, f.relative_path@, f.language)
}

/// The import a row of a scope's imports holds: the importing file, then the raw target.
pub open spec fn scope_import_row(row: Seq<StoreValue>) -> Result<((Seq<char>, Seq<char>, Language), Seq<char>), RowError> {
    match (stored_file_row(row), text_cell(row, 3)) {
        (Ok(f), Ok(t)) => Ok((f, t)),
        (Err(e), _) => Err(e),
        (_, Err(e)) => Err(e),
    }
}

/// An import row as the values its row holds.
pub open spec fn import_row_view(x: ImportRow) -> ((Seq<char>, Seq<char>, Language), Seq<char>) {
    (stored_view(x.from), x.raw_target@)
}

/// The stored files that some rows hold, in order.
pub fn stored_files_from_rows(rows: &Vec<Vec<StoreValue>>) -> (r: Result<Vec<StoredFile>, RowError>)
    ensures
        match r {
            Ok(v) => rows_map(row_views(rows@), |x: Seq<StoreValue>| stored_file_row(x)) == Ok::<
                Seq<(Seq<char>, Seq<char>, Language)>,
                RowError,
            >(v@.map_values(|y: StoredFile| stored_view(y))),
            Err(e) => rows_map(row_views(rows@), |x: Seq<StoreValue>| stored_file_row(x)) == Err::<
                Seq<(Seq<char>, Seq<char>, Language)>,
                RowError,
            >(e),
        },
{
    let ghost f = |x: Seq<StoreValue>| stored_file_row(x);
    let ghost rv = row_views(rows@);
    let mut out: Vec<StoredFile> = Vec::new();
    let mut i: usize = 0;
    assert(rv.take(0) =~= Seq::<Seq<StoreValue>>::empty());
    assert(out@.map_values(|y: StoredFile| stored_view(y)) =~= Seq::<(Seq<char>, Seq<char>, Language)>::empty());
    while i < rows.len()
        invariant
            i <= rows@.len(),
            f == (|x: Seq<StoreValue>| stored_file_row(x)),
            rv == row_views(rows@),
            rows_map(rv.take(i as int), f) == Ok::<Seq<(Seq<char>, Seq<char>, Language)>, RowError>(
                out@.map_values(|y: StoredFile| stored_view(y)),
            ),
        decreases rows@.len() - i,
    {
        proof {
            assert(rv.take(i + 1).drop_last() =~= rv.take(i as int));
            assert(rv.take(i + 1).last() == rows@[i as int]@);
        }
        match stored_file_from_row(&rows[i]) {
            Ok(x) => {
                let ghost before = out@;
                let ghost xv = stored_view(x);
                out.push(x);
                assert(out@.map_values(|y: StoredFile| stored_view(y)) =~= before.map_values(
                    |y: StoredFile| stored_view(y),
                ).push(xv));
            },
            Err(e) => {
                proof {
                    lemma_rows_map_err(rv, f, i as int + 1);
                }
                return Err(e);
            },
        }
        i = i + 1;
    }
    assert(rv.take(rv.len() as int) =~= rv);
    Ok(out)
}

/// The import rows that some rows of a scope's imports hold, in order.
pub fn import_rows_from_rows(rows: &Vec<Vec<StoreValue>>) -> (r: Result<Vec<ImportRow>, RowError>)
    ensures
        match r {
            Ok(v) => rows_map(row_views(rows@), |x: Seq<StoreValue>| scope_import_row(x)) == Ok::<
                Seq<((Seq<char>, Seq<char>, Language), Seq<char>)>,
                RowError,
            >(v@.map_values(|y: ImportRow| import_row_view(y))),
            Err(e) => rows_map(row_views(rows@), |x: Seq<StoreValue>| scope_import_row(x)) == Err::<
                Seq<((Seq<char>, Seq<char>, Language), Seq<char>)>,
                RowError,
            >(e),
        },
{
    let ghost f = |x: Seq<StoreValue>| scope_import_row(x);
    let ghost rv = row_views(rows@);
    let mut out: Vec<ImportRow> = Vec::new();
    let mut i: usize = 0;
    assert(rv.take(0) =~= Seq::<Seq<StoreValue>>::empty());
    assert(out@.map_values(|y: ImportRow| import_row_view(y)) =~= Seq::<
        ((Seq<char>, Seq<char>, Language), Seq<char>),
    >::empty());
    while i < rows.len()
        invariant
            i <= rows@.len(),
            f == (|x: Seq<StoreValue>| scope_import_row(x)),
            rv == row_views(rows@),
            rows_map(rv.take(i as int), f) == Ok::<Seq<((Seq<char>, Seq<char>, Language), Seq<char>)>, RowError>(
                out@.map_values(|y: ImportRow| import_row_view(y)),
            ),
        decreases rows@.len() - i,
    {
        proof {
            assert(rv.take(i + 1).drop_last() =~= rv.take(i as int));
            assert(rv.take(i + 1).last() == rows@[i as int]@);
        }
        match import_row_from_row(&rows[i]) {
            Ok(x) => {
                let ghost before = out@;
                let ghost xv = import_row_view(x);
                out.push(x);
                assert(out@.map_values(|y: ImportRow| import_row_view(y)) =~= before.map_values(
                    |y: ImportRow| import_row_view(y),
                ).push(xv));
            },
            Err(e) => {
                proof {
                    lemma_rows_map_err(rv, f, i as int + 1);
                }
                return Err(e);
            },
        }
        i = i + 1;
    }
    assert(rv.take(rv.len() as int) =~= rv);
    Ok(out)
}

/// The fingerprint records that the rows of a scope hold, in order
/// (`load_file_fingerprints`); the first row that cannot be read gives the error.
pub fn records_from_rows(rows: &Vec<Vec<StoreValue>>, scope_id: &ScopeId) -> (r: Result<
    Vec<FileFingerprintRecord>,
    RowError,
>)
    ensures
        match r {
            Ok(v) => v@.len() == rows@.len() && forall|i: int| 0 <= i < rows@.len() ==> #[trigger] record_at(v@, rows@, scope_id@, i),
            Err(e) => exists|i: int|
                0 <= i < rows@.len() && first_err(record_checks(#[trigger] rows@[i]@)) == Some(e) && forall|j: int|
                    0 <= j < i ==> first_err(record_checks(rows@[j]@)) is None,
        },
{
    let mut out: Vec<FileFingerprintRecord> = Vec::new();
    let mut i: usize = 0;
    while i < rows.len()
        invariant
            i <= rows@.len(),
            out@.len() == i,
            forall|k: int| 0 <= k < i ==> #[trigger] record_at(out@, rows@, scope_id@, k),
        decreases rows@.len() - i,
    {
        match fingerprint_record_from_row(&rows[i], scope_id) {
            Ok(x) => {
                let ghost before = out@;
                out.push(x);
                proof {
                    assert(out@[i as int] == x);
                    assert(record_at(out@, rows@, scope_id@, i as int));
                    assert forall|k: int| 0 <= k < i + 1 implies #[trigger] record_at(out@, rows@, scope_id@, k) by {
                        if k < i {
                            assert(out@[k] == before[k]);
                            assert(record_at(before, rows@, scope_id@, k));
                        }
                    }
                }
            },
            Err(e) => {
                proof {
                    assert forall|j: int| 0 <= j < i implies first_err(record_checks(rows@[j]@)) is None by {
                        assert(record_at(out@, rows@, scope_id@, j));
                    }
                }
                return Err(e);
            },
        }
        i = i + 1;
    }
    Ok(out)
}

/// What the store holds of a file, from the rows of its queries: the file row, then
/// its symbols, imports, dependencies and warnings, read in that order; the first row
/// that cannot be read gives the error.
pub fn explanation_from_rows(
    file_row: &Vec<StoreValue>,
    symbol_rows: &Vec<Vec<StoreValue>>,
    import_rows: &Vec<Vec<StoreValue>>,
    dependency_rows: &Vec<Vec<StoreValue>>,
    warning_rows: &Vec<Vec<StoreValue>>,
) -> (r: Result<FileExplanation, RowError>)
    ensures
        match r {
            Ok(x) => stored_file_row(file_row@) == Ok::<(Seq<char>, Seq<char>, Language), RowError>(
                (x.file_id@, x.relative_path@, x.language),
            ) && rows_map(row_views(symbol_rows@), |y: Seq<StoreValue>| symbol_row(y)) == Ok::<
                Seq<SymbolView>,
                RowError,
            >(x.symbols@.map_values(|y: Symbol| y@)) && rows_map(
                row_views(import_rows@),
                |y: Seq<StoreValue>| import_row(y),
            ) == Ok::<Seq<ImportView>, RowError>(x.imports@.map_values(|y: Import| y@)) && rows_map(
                row_views(dependency_rows@),
                |y: Seq<StoreValue>| dependency_row(y),
            ) == Ok::<Seq<FileDependencyView>, RowError>(x.dependencies@.map_values(|y: FileDependency| y@))
                && rows_map(row_views(warning_rows@), |y: Seq<StoreValue>| warning_row(y)) == Ok::<
                Seq<IndexWarningView>,
                RowError,
            >(x.warnings@.map_values(|y: IndexWarning| y@)),
            Err(e) => {
                let checks = seq![
                    err_of(stored_file_row(file_row@)),
                    err_of(rows_map(row_views(symbol_rows@), |y: Seq<StoreValue>| symbol_row(y))),
                    err_of(rows_map(row_views(import_rows@), |y: Seq<StoreValue>| import_row(y))),
                    err_of(rows_map(row_views(dependency_rows@), |y: Seq<StoreValue>| dependency_row(y))),
                    err_of(rows_map(row_views(warning_rows@), |y: Seq<StoreValue>| warning_row(y))),
                ];
                first_err(checks) == Some(e)
            },
        },
{
    let ghost checks = seq![
        err_of(stored_file_row(file_row@)),
        err_of(rows_map(row_views(symbol_rows@), |y: Seq<StoreValue>| symbol_row(y))),
        err_of(rows_map(row_views(import_rows@), |y: Seq<StoreValue>| import_row(y))),
        err_of(rows_map(row_views(dependency_rows@), |y: Seq<StoreValue>| dependency_row(y))),
        err_of(rows_map(row_views(warning_rows@), |y: Seq<StoreValue>| warning_row(y))),
    ];
    let file = match stored_file_from_row(file_row) {
        Ok(f) => f,
        Err(e) => {
            proof { lemma_first_err_at(checks, 0); }
            return Err(e);
        },
    };
    let symbols = match symbols_from_rows(symbol_rows) {
        Ok(v) => v,
        Err(e) => {
            proof { lemma_first_err_at(checks, 1); }
            return Err(e);
        },
    };
    let imports = match imports_from_rows(import_rows) {
        Ok(v) => v,
        Err(e) => {
            proof { lemma_first_err_at(checks, 2); }
            return Err(e);
        },
    };
    let dependencies = match dependencies_from_rows(dependency_rows) {
        Ok(v) => v,
        Err(e) => {
            proof { lemma_first_err_at(checks, 3); }
            return Err(e);
        },
    };
    let warnings = match warnings_from_rows(warning_rows) {
        Ok(v) => v,
        Err(e) => {
            proof { lemma_first_err_at(checks, 4); }
            return Err(e);
        },
    };
    Ok(
        FileExplanation {
            file_id: file.file_id,
            relative_path: file.relative_path,
            language: file.language,
            symbols,
            imports,
            dependencies,
            warnings,
        },
    )
}

} // verus!
