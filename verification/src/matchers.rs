//! The line patterns of the heuristic parsers. Each pattern is anchored at the start of a
//! line and is stated here as the capture that a leftmost-first backtracking match of it
//! yields: greedy parts take as much as they can and give back only where the rest then
//! matches; optional parts and alternatives are tried in the order written.
use vstd::prelude::*;
use crate::text::{at, has_at, is_ws, char_is_ws};

verus! {

/// The character classes the patterns use.
#[derive(Debug, Clone, Copy, PartialEq, Eq, Structural)]
pub enum CharClass {
    /// `\s`
    Space,
    /// `[A-Za-z_]`
    IdentStart,
    /// `[A-Za-z0-9_]`
    IdentChar,
    /// `[A-Za-z0-9_<>\[\]]`
    TypeChar,
    /// `[^ ]`
    NotSpace,
    /// `[^;]`
    NotSemicolon,
    /// `[^"']`
    NotQuote,
    /// `[^"]`
    NotDoubleQuote,
    /// `[^)]`
    NotCloseParen,
    /// `.`
    NotNewline,
}

pub open spec fn is_alpha(c: char) -> bool {
    ('a' <= c && c <= 'z') || ('A' <= c && c <= 'Z')
}

pub open spec fn is_digit(c: char) -> bool {
    '0' <= c && c <= '9'
}

pub open spec fn in_class(c: char, k: CharClass) -> bool {
    match k {
        CharClass::Space => is_ws(c),
        CharClass::IdentStart => is_alpha(c) || c == '_',
        CharClass::IdentChar => is_alpha(c) || is_digit(c) || c == '_',
        CharClass::TypeChar => is_alpha(c) || is_digit(c) || c == '_' || c == '<' || c == '>' || c == '['
            || c == ']',
        CharClass::NotSpace => c != ' ',
        CharClass::NotSemicolon => c != ';',
        CharClass::NotQuote => c != '"' && c != '\'',
        CharClass::NotDoubleQuote => c != '"',
        CharClass::NotCloseParen => c != ')',
        CharClass::NotNewline => c != '\n',
    }
}

fn class_has(c: char, k: CharClass) -> (r: bool)
    ensures
        r == in_class(c, k),
{
    let alpha = ('a' <= c && c <= 'z') || ('A' <= c && c <= 'Z');
    let digit = '0' <= c && c <= '9';
    match k {
        CharClass::Space => char_is_ws(c),
        CharClass::IdentStart => alpha || c == '_',
        CharClass::IdentChar => alpha || digit || c == '_',
        CharClass::TypeChar => alpha || digit || c == '_' || c == '<' || c == '>' || c == '[' || c == ']',
        CharClass::NotSpace => c != ' ',
        CharClass::NotSemicolon => c != ';',
        CharClass::NotQuote => c != '"' && c != '\'',
        CharClass::NotDoubleQuote => c != '"',
        CharClass::NotCloseParen => c != ')',
        CharClass::NotNewline => c != '\n',
    }
}

/// The number of characters of class `k` in a row from `i`.
pub open spec fn run_len(s: Seq<char>, i: int, k: CharClass) -> nat
    decreases s.len() - i,
{
    if 0 <= i < s.len() && in_class(s[i], k) {
        1 + run_len(s, i + 1, k)
    } else {
        0
    }
}

pub proof fn lemma_run_len(s: Seq<char>, i: int, k: CharClass)
    requires
        0 <= i <= s.len(),
    ensures
        i + run_len(s, i, k) <= s.len(),
        forall|q: int| i <= q < i + run_len(s, i, k) ==> in_class(#[trigger] s[q], k),
        i + run_len(s, i, k) < s.len() ==> !in_class(s[i + run_len(s, i, k)], k),
    decreases s.len() - i,
{
    if i < s.len() && in_class(s[i], k) {
        lemma_run_len(s, i + 1, k);
    }
}

fn run(s: &Vec<char>, i: usize, k: CharClass) -> (r: usize)
    requires
        i <= s@.len(),
    ensures
        r == run_len(s@, i as int, k),
        i + r <= s@.len(),
{
    let slen = s.len();
    let mut j = i;
    while j < s.len() && class_has(s[j], k)
        invariant
            i <= j <= s@.len(),
            run_len(s@, i as int, k) == (j - i) + run_len(s@, j as int, k),
        decreases s@.len() - j,
    {
        j = j + 1;
    }
    j - i
}

/// The run of whitespace from `i`.
pub open spec fn ws_run(s: Seq<char>, i: int) -> nat {
    run_len(s, i, CharClass::Space)
}

/// `s[i]` is `c`.
pub open spec fn char_at(s: Seq<char>, i: int, c: char) -> bool {
    0 <= i < s.len() && s[i] == c
}

fn char_is(s: &Vec<char>, i: usize, c: char) -> (r: bool)
    ensures
        r == char_at(s@, i as int, c),
{
    let slen = s.len();
    i < s.len() && s[i] == c
}

/// `w\s+` at `i`: the position after the whitespace.
pub open spec fn after_word(s: Seq<char>, i: int, w: Seq<char>) -> Option<int> {
    if has_at(s, i, w) && ws_run(s, i + w.len()) >= 1 {
        Some(i + w.len() + ws_run(s, i + w.len()))
    } else {
        None
    }
}

fn after_word_at(s: &Vec<char>, i: usize, w: &str) -> (r: Option<usize>)
    ensures
        match r {
            Some(b) => after_word(s@, i as int, w@) == Some(b as int) && b <= s@.len(),
            None => after_word(s@, i as int, w@) is None,
        },
{
    let slen = s.len();
    if !at(s, i, w) {
        return None;
    }
    let n = w.unicode_len();
    let k = run(s, i + n, CharClass::Space);
    if k >= 1 {
        Some(i + n + k)
    } else {
        None
    }
}

/// The end of the identifier that starts at `i`.
pub open spec fn ident_end(s: Seq<char>, i: int) -> int {
    i + 1 + run_len(s, i + 1, CharClass::IdentChar)
}

/// The identifier `[A-Za-z_][A-Za-z0-9_]*` that starts at `i`, taken whole.
pub open spec fn ident_at(s: Seq<char>, i: int) -> Option<Seq<char>> {
    if 0 <= i < s.len() && in_class(s[i], CharClass::IdentStart) {
        Some(s.subrange(i, ident_end(s, i)))
    } else {
        None
    }
}

fn ident_from(s: &Vec<char>, i: usize) -> (r: Option<usize>)
    ensures
        match r {
            Some(e) => ident_at(s@, i as int) == Some(s@.subrange(i as int, e as int)) && e == ident_end(
                s@,
                i as int,
            ) && i < e <= s@.len(),
            None => ident_at(s@, i as int) is None,
        },
{
    let slen = s.len();
    if i < s.len() && class_has(s[i], CharClass::IdentStart) {
        let r = run(s, i + 1, CharClass::IdentChar);
        Some(i + 1 + r)
    } else {
        None
    }
}

/// What must follow the identifier of a declaration.
#[derive(Debug, Clone, Copy, PartialEq, Eq, Structural)]
pub enum Tail {
    /// Nothing.
    Ident,
    /// `\s*;`
    Semicolon,
    /// `\s*\(`
    Call,
    /// `\s*=\s*(?:async\s+)?\(`
    Arrow,
}

/// The identifier at `r` followed by the tail `t`.
pub open spec fn tail_match(s: Seq<char>, r: int, t: Tail) -> Option<Seq<char>> {
    match ident_at(s, r) {
        None => None,
        Some(name) => {
            let e = ident_end(s, r);
            let f = e + ws_run(s, e);
            let ok = match t {
                Tail::Ident => true,
                Tail::Semicolon => char_at(s, f, ';'),
                Tail::Call => char_at(s, f, '('),
                Tail::Arrow => char_at(s, f, '=') && {
                    let g = f + 1 + ws_run(s, f + 1);
                    char_at(s, g, '(') || match after_word(s, g, "async"@) {
                        Some(h) => char_at(s, h, '('),
                        None => false,
                    }
                },
            };
            if ok {
                Some(name)
            } else {
                None
            }
        },
    }
}

/// `^\s*(?:m\s+)?kw\s+` followed by the identifier and tail `t`; with `m` empty there is
/// no optional modifier.
pub open spec fn decl_match(s: Seq<char>, m: Seq<char>, kw: Seq<char>, t: Tail) -> Option<Seq<char>> {
    let p = ws_run(s, 0) as int;
    let with_mod = if m.len() > 0 {
        match after_word(s, p, m) {
            Some(q) => match after_word(s, q, kw) {
                Some(r) => tail_match(s, r, t),
                None => None,
            },
            None => None,
        }
    } else {
        None
    };
    if with_mod is Some {
        with_mod
    } else {
        match after_word(s, p, kw) {
            Some(r) => tail_match(s, r, t),
            None => None,
        }
    }
}

/// A capture given by its bounds in the line.
pub open spec fn bounds_give(s: Seq<char>, r: Option<(usize, usize)>, m: Option<Seq<char>>) -> bool {
    match r {
        Some((lo, hi)) => lo <= hi <= s.len() && m == Some(s.subrange(lo as int, hi as int)),
        None => m is None,
    }
}

fn tail_at(s: &Vec<char>, r: usize, t: Tail) -> (res: Option<(usize, usize)>)
    requires
        r <= s@.len(),
    ensures
        bounds_give(s@, res, tail_match(s@, r as int, t)),
{
    let slen = s.len();
    let e = match ident_from(s, r) {
        Some(e) => e,
        None => return None,
    };
    let f = e + run(s, e, CharClass::Space);
    let ok = match t {
        Tail::Ident => true,
        Tail::Semicolon => char_is(s, f, ';'),
        Tail::Call => char_is(s, f, '('),
        Tail::Arrow => {
            if char_is(s, f, '=') {
                let g = f + 1 + run(s, f + 1, CharClass::Space);
                if char_is(s, g, '(') {
                    true
                } else {
                    match after_word_at(s, g, "async") {
                        Some(h) => char_is(s, h, '('),
                        None => false,
                    }
                }
            } else {
                false
            }
        },
    };
    if ok {
        Some((r, e))
    } else {
        None
    }
}

/// Matches `decl_match` on a line.
pub fn decl_at(s: &Vec<char>, m: &str, kw: &str, t: Tail) -> (res: Option<(usize, usize)>)
    ensures
        bounds_give(s@, res, decl_match(s@, m@, kw@, t)),
{
    let slen = s.len();
    let p = run(s, 0, CharClass::Space);
    if m.unicode_len() > 0 {
        if let Some(q) = after_word_at(s, p, m) {
            if let Some(r) = after_word_at(s, q, kw) {
                let x = tail_at(s, r, t);
                if x.is_some() {
                    return x;
                }
            }
        }
    }
    match after_word_at(s, p, kw) {
        Some(r) => tail_at(s, r, t),
        None => None,
    }
}

/// `^\s*kw\s+([^;]+);`
pub open spec fn until_semicolon(s: Seq<char>, kw: Seq<char>) -> Option<Seq<char>> {
    let p = ws_run(s, 0) as int;
    match after_word(s, p, kw) {
        None => None,
        Some(b) => {
            let e = b + run_len(s, b, CharClass::NotSemicolon);
            if e >= s.len() {
                None
            } else if e > b {
                Some(s.subrange(b, e))
            } else if b - (p + kw.len()) >= 2 {
                Some(s.subrange(b - 1, b))
            } else {
                None
            }
        },
    }
}

/// Matches `until_semicolon` on a line.
pub fn until_semicolon_at(s: &Vec<char>, kw: &str) -> (res: Option<(usize, usize)>)
    ensures
        bounds_give(s@, res, until_semicolon(s@, kw@)),
{
    let slen = s.len();
    let p = run(s, 0, CharClass::Space);
    let b = match after_word_at(s, p, kw) {
        Some(b) => b,
        None => return None,
    };
    let e = b + run(s, b, CharClass::NotSemicolon);
    let start = p + kw.unicode_len();
    if e >= s.len() {
        None
    } else if e > b {
        Some((b, e))
    } else if b - start >= 2 {
        Some((b - 1, b))
    } else {
        None
    }
}

/// `\s+(.+)$` at `d`: the rest of the line after the whitespace.
pub open spec fn rest_capture(s: Seq<char>, d: int) -> Option<Seq<char>> {
    let k = ws_run(s, d);
    let b = d + k;
    if k < 1 {
        None
    } else if b < s.len() && b + run_len(s, b, CharClass::NotNewline) == s.len() {
        Some(s.subrange(b, s.len() as int))
    } else if b == s.len() && k >= 2 && s[b - 1] != '\n' {
        Some(s.subrange(b - 1, s.len() as int))
    } else {
        None
    }
}

fn rest_at(s: &Vec<char>, d: usize) -> (res: Option<(usize, usize)>)
    requires
        d <= s@.len(),
    ensures
        bounds_give(s@, res, rest_capture(s@, d as int)),
{
    let slen = s.len();
    let k = run(s, d, CharClass::Space);
    let b = d + k;
    let n = s.len();
    if k < 1 {
        None
    } else if b < n && b + run(s, b, CharClass::NotNewline) == n {
        Some((b, n))
    } else if b == n && k >= 2 && s[b - 1] != '\n' {
        Some((b - 1, n))
    } else {
        None
    }
}

/// `^\s*kw\s+(.+)$`
pub open spec fn kw_rest(s: Seq<char>, kw: Seq<char>) -> Option<Seq<char>> {
    let p = ws_run(s, 0) as int;
    if has_at(s, p, kw) {
        rest_capture(s, p + kw.len())
    } else {
        None
    }
}

/// Matches `kw_rest` on a line.
pub fn kw_rest_at(s: &Vec<char>, kw: &str) -> (res: Option<(usize, usize)>)
    ensures
        bounds_give(s@, res, kw_rest(s@, kw@)),
{
    let slen = s.len();
    let p = run(s, 0, CharClass::Space);
    if at(s, p, kw) {
        rest_at(s, p + kw.unicode_len())
    } else {
        None
    }
}

/// After the module part of `from … import …`, at `c`: `\s+import\s+(.+)$`.
pub open spec fn from_tail(s: Seq<char>, c: int) -> Option<Seq<char>> {
    let k = ws_run(s, c);
    if k >= 1 && has_at(s, c + k, "import"@) {
        rest_capture(s, c + k + 6)
    } else {
        None
    }
}

/// The module part `(.+)` from `st`, tried longest first with at most `g` characters.
pub open spec fn from_search_len(s: Seq<char>, st: int, g: int) -> Option<(Seq<char>, Seq<char>)>
    decreases g,
{
    if g <= 0 {
        None
    } else {
        match from_tail(s, st + g) {
            Some(c2) => Some((s.subrange(st, st + g), c2)),
            None => from_search_len(s, st, g - 1),
        }
    }
}

/// The whitespace after `from`, tried longest first with at most `k` characters.
pub open spec fn from_search_ws(s: Seq<char>, a: int, k: int) -> Option<(Seq<char>, Seq<char>)>
    decreases k,
{
    if k <= 0 {
        None
    } else {
        match from_search_len(s, a + k, run_len(s, a + k, CharClass::NotNewline) as int) {
            Some(x) => Some(x),
            None => from_search_ws(s, a, k - 1),
        }
    }
}

/// `^\s*from\s+(.+)\s+import\s+(.+)$`
pub open spec fn from_import(s: Seq<char>) -> Option<(Seq<char>, Seq<char>)> {
    let p = ws_run(s, 0) as int;
    if has_at(s, p, "from"@) {
        from_search_ws(s, p + 4, ws_run(s, p + 4) as int)
    } else {
        None
    }
}

/// Both captures of a two-part pattern, given by their bounds.
pub open spec fn pair_bounds_give(
    s: Seq<char>,
    r: Option<(usize, usize, usize, usize)>,
    m: Option<(Seq<char>, Seq<char>)>,
) -> bool {
    match r {
        Some((a, b, c, d)) => a <= b <= s.len() && c <= d <= s.len() && m == Some(
            (s.subrange(a as int, b as int), s.subrange(c as int, d as int)),
        ),
        None => m is None,
    }
}

fn from_tail_at(s: &Vec<char>, c: usize) -> (res: Option<(usize, usize)>)
    requires
        c <= s@.len(),
    ensures
        bounds_give(s@, res, from_tail(s@, c as int)),
{
    let slen = s.len();
    proof {
        reveal_strlit("import");
    }
    let k = run(s, c, CharClass::Space);
    if k >= 1 && at(s, c + k, "import") {
        proof {
            assert(has_at(s@, c + k, "import"@));
        }
        rest_at(s, c + k + 6)
    } else {
        None
    }
}

/// Matches `from_import` on a line.
pub fn from_import_at(s: &Vec<char>) -> (res: Option<(usize, usize, usize, usize)>)
    ensures
        pair_bounds_give(s@, res, from_import(s@)),
{
    let slen = s.len();
    proof {
        reveal_strlit("from");
    }
    let p = run(s, 0, CharClass::Space);
    if !at(s, p, "from") {
        return None;
    }
    let a = p + 4;
    let mut k = run(s, a, CharClass::Space);
    while k > 0
        invariant
            slen == s@.len(),
            a <= s@.len(),
            a + k <= s@.len(),
            from_import(s@) == from_search_ws(s@, a as int, k as int),
        decreases k,
    {
        let st = a + k;
        let mut g = run(s, st, CharClass::NotNewline);
        while g > 0
            invariant
                slen == s@.len(),
                st + g <= s@.len(),
                st == a + k,
                a + k <= s@.len(),
                k > 0,
                from_import(s@) == from_search_ws(s@, a as int, k as int),
                from_search_ws(s@, a as int, k as int) == (match from_search_len(s@, st as int, g as int) {
                    Some(x) => Some(x),
                    None => from_search_ws(s@, a as int, k - 1),
                }),
            decreases g,
        {
            if let Some((c, d)) = from_tail_at(s, st + g) {
                return Some((st, st + g, c, d));
            }
            g = g - 1;
        }
        k = k - 1;
    }
    None
}

/// A quote, `"` or `'`, at `i`.
pub open spec fn quote_at(s: Seq<char>, i: int) -> bool {
    char_at(s, i, '"') || char_at(s, i, '\'')
}

/// `["']([^"']+)["']` at `y`: the text between the quotes.
pub open spec fn quoted_at(s: Seq<char>, y: int) -> Option<Seq<char>> {
    let r = run_len(s, y + 1, CharClass::NotQuote) as int;
    if quote_at(s, y) && r >= 1 && quote_at(s, y + 1 + r) {
        Some(s.subrange(y + 1, y + 1 + r))
    } else {
        None
    }
}

fn quoted_from(s: &Vec<char>, y: usize) -> (res: Option<(usize, usize)>)
    requires
        y <= s@.len(),
    ensures
        bounds_give(s@, res, quoted_at(s@, y as int)),
        match res {
            Some((lo, hi)) => lo == y + 1 && quote_at(s@, hi as int),
            None => true,
        },
{
    let slen = s.len();
    if !(char_is(s, y, '"') || char_is(s, y, '\'')) {
        return None;
    }
    let r = run(s, y + 1, CharClass::NotQuote);
    let e = y + 1 + r;
    if r >= 1 && (char_is(s, e, '"') || char_is(s, e, '\'')) {
        Some((y + 1, e))
    } else {
        None
    }
}

/// `from\s+["']([^"']+)["']` at `x`.
pub open spec fn js_from_at(s: Seq<char>, x: int) -> Option<Seq<char>> {
    match after_word(s, x, "from"@) {
        Some(y) => quoted_at(s, y),
        None => None,
    }
}

/// The lazy `.*?` from `x` on: the first position where the rest matches.
pub open spec fn js_search(s: Seq<char>, x: int) -> Option<Seq<char>>
    decreases s.len() - x,
{
    if x < 0 || x > s.len() {
        None
    } else if js_from_at(s, x) is Some {
        js_from_at(s, x)
    } else if x < s.len() && s[x] != '\n' {
        js_search(s, x + 1)
    } else {
        None
    }
}

/// `^\s*import\s+.*?from\s+["']([^"']+)["']`
pub open spec fn js_import(s: Seq<char>) -> Option<Seq<char>> {
    match after_word(s, ws_run(s, 0) as int, "import"@) {
        Some(b) => js_search(s, b),
        None => None,
    }
}

/// Matches `js_import` on a line.
pub fn js_import_at(s: &Vec<char>) -> (res: Option<(usize, usize)>)
    ensures
        bounds_give(s@, res, js_import(s@)),
{
    let slen = s.len();
    let p = run(s, 0, CharClass::Space);
    let mut x = match after_word_at(s, p, "import") {
        Some(b) => b,
        None => return None,
    };
    while x <= s.len()
        invariant
            slen == s@.len(),
            x <= s@.len() + 1,
            js_import(s@) == js_search(s@, x as int),
        decreases s@.len() + 1 - x,
    {
        let found = match after_word_at(s, x, "from") {
            Some(y) => quoted_from(s, y),
            None => None,
        };
        if found.is_some() {
            return found;
        }
        if x < s.len() && s[x] != '\n' {
            x = x + 1;
        } else {
            return None;
        }
    }
    None
}

/// `^\s*(?:const|let|var)\s+[A-Za-z_][A-Za-z0-9_]*\s*=\s*require\(["']([^"']+)["']\)`
pub open spec fn require_call(s: Seq<char>) -> Option<Seq<char>> {
    let p = ws_run(s, 0) as int;
    let b = if has_at(s, p, "const"@) {
        after_word(s, p, "const"@)
    } else if has_at(s, p, "let"@) {
        after_word(s, p, "let"@)
    } else {
        after_word(s, p, "var"@)
    };
    match b {
        None => None,
        Some(b) => match ident_at(s, b) {
            None => None,
            Some(_) => {
                let e = ident_end(s, b);
                let f = e + ws_run(s, e);
                let g = f + 1 + ws_run(s, f + 1);
                if char_at(s, f, '=') && has_at(s, g, "require("@) {
                    match quoted_at(s, g + 8) {
                        Some(t) => if char_at(s, g + 9 + t.len() + 1, ')') {
                            Some(t)
                        } else {
                            None
                        },
                        None => None,
                    }
                } else {
                    None
                }
            },
        },
    }
}

/// Matches `require_call` on a line.
pub fn require_at(s: &Vec<char>) -> (res: Option<(usize, usize)>)
    ensures
        bounds_give(s@, res, require_call(s@)),
{
    let slen = s.len();
    proof {
        reveal_strlit("require(");
    }
    let p = run(s, 0, CharClass::Space);
    let b = if at(s, p, "const") {
        after_word_at(s, p, "const")
    } else if at(s, p, "let") {
        after_word_at(s, p, "let")
    } else {
        after_word_at(s, p, "var")
    };
    let b = match b {
        Some(b) => b,
        None => return None,
    };
    let e = match ident_from(s, b) {
        Some(e) => e,
        None => return None,
    };
    let f = e + run(s, e, CharClass::Space);
    if !char_is(s, f, '=') {
        return None;
    }
    let g = f + 1 + run(s, f + 1, CharClass::Space);
    if !at(s, g, "require(") {
        return None;
    }
    match quoted_from(s, g + 8) {
        Some((lo, hi)) => {
            if char_is(s, hi + 1, ')') {
                Some((lo, hi))
            } else {
                None
            }
        },
        None => None,
    }
}

/// A Java method's type, name and opening parenthesis from `t`:
/// `[A-Za-z0-9_<>\[\]]+\s+([A-Za-z_][A-Za-z0-9_]*)\s*\(`.
pub open spec fn java_type_tail(s: Seq<char>, t: int) -> Option<Seq<char>> {
    let r = run_len(s, t, CharClass::TypeChar) as int;
    let u = t + r;
    let k = ws_run(s, u) as int;
    if r >= 1 && k >= 1 {
        tail_match(s, u + k, Tail::Call)
    } else {
        None
    }
}

/// `(?:static\s+)?` then the type tail, from `q`.
pub open spec fn java_static_then(s: Seq<char>, q: int) -> Option<Seq<char>> {
    let with_static = match after_word(s, q, "static"@) {
        Some(t) => java_type_tail(s, t),
        None => None,
    };
    if with_static is Some {
        with_static
    } else {
        java_type_tail(s, q)
    }
}

/// The length of the access modifier at `p`, or 0.
pub open spec fn java_modifier_len(s: Seq<char>, p: int) -> int {
    if has_at(s, p, "public"@) {
        6
    } else if has_at(s, p, "private"@) {
        7
    } else if has_at(s, p, "protected"@) {
        9
    } else {
        0
    }
}

/// `^\s*(?:public|private|protected)?\s*(?:static\s+)?[A-Za-z0-9_<>\[\]]+\s+([A-Za-z_][A-Za-z0-9_]*)\s*\(`
pub open spec fn java_method(s: Seq<char>) -> Option<Seq<char>> {
    let p = ws_run(s, 0) as int;
    let m = java_modifier_len(s, p);
    let with_mod = if m > 0 {
        java_static_then(s, p + m + ws_run(s, p + m))
    } else {
        None
    };
    if with_mod is Some {
        with_mod
    } else {
        java_static_then(s, p)
    }
}

fn java_type_tail_at(s: &Vec<char>, t: usize) -> (res: Option<(usize, usize)>)
    requires
        t <= s@.len(),
    ensures
        bounds_give(s@, res, java_type_tail(s@, t as int)),
{
    let slen = s.len();
    let r = run(s, t, CharClass::TypeChar);
    let u = t + r;
    let k = run(s, u, CharClass::Space);
    if r >= 1 && k >= 1 {
        tail_at(s, u + k, Tail::Call)
    } else {
        None
    }
}

fn java_static_then_at(s: &Vec<char>, q: usize) -> (res: Option<(usize, usize)>)
    requires
        q <= s@.len(),
    ensures
        bounds_give(s@, res, java_static_then(s@, q as int)),
{
    let slen = s.len();
    if let Some(t) = after_word_at(s, q, "static") {
        let x = java_type_tail_at(s, t);
        if x.is_some() {
            return x;
        }
    }
    java_type_tail_at(s, q)
}

/// Matches `java_method` on a line.
pub fn java_method_at(s: &Vec<char>) -> (res: Option<(usize, usize)>)
    ensures
        bounds_give(s@, res, java_method(s@)),
{
    let slen = s.len();
    proof {
        reveal_strlit("public");
        reveal_strlit("private");
        reveal_strlit("protected");
    }
    let p = run(s, 0, CharClass::Space);
    let m: usize = if at(s, p, "public") {
        6
    } else if at(s, p, "private") {
        7
    } else if at(s, p, "protected") {
        9
    } else {
        0
    };
    if m > 0 {
        let q = p + m + run(s, p + m, CharClass::Space);
        let x = java_static_then_at(s, q);
        if x.is_some() {
            return x;
        }
    }
    java_static_then_at(s, p)
}

/// `^\s*"([^"]+)"`
pub open spec fn go_quoted(s: Seq<char>) -> Option<Seq<char>> {
    let p = ws_run(s, 0) as int;
    let r = run_len(s, p + 1, CharClass::NotDoubleQuote) as int;
    if char_at(s, p, '"') && r >= 1 && char_at(s, p + 1 + r, '"') {
        Some(s.subrange(p + 1, p + 1 + r))
    } else {
        None
    }
}

/// Matches `go_quoted` on a line.
pub fn go_quoted_at(s: &Vec<char>) -> (res: Option<(usize, usize)>)
    ensures
        bounds_give(s@, res, go_quoted(s@)),
{
    let slen = s.len();
    let p = run(s, 0, CharClass::Space);
    if !char_is(s, p, '"') {
        return None;
    }
    let r = run(s, p + 1, CharClass::NotDoubleQuote);
    if r >= 1 && char_is(s, p + 1 + r, '"') {
        Some((p + 1, p + 1 + r))
    } else {
        None
    }
}

/// `^\s*func\s+\([^)]+\)\s+([A-Za-z_][A-Za-z0-9_]*)\s*\(`
pub open spec fn go_method(s: Seq<char>) -> Option<Seq<char>> {
    match after_word(s, ws_run(s, 0) as int, "func"@) {
        None => None,
        Some(b) => {
            let r = run_len(s, b + 1, CharClass::NotCloseParen) as int;
            let c = b + 2 + r;
            let k = ws_run(s, c) as int;
            if char_at(s, b, '(') && r >= 1 && char_at(s, b + 1 + r, ')') && k >= 1 {
                tail_match(s, c + k, Tail::Call)
            } else {
                None
            }
        },
    }
}

/// Matches `go_method` on a line.
pub fn go_method_at(s: &Vec<char>) -> (res: Option<(usize, usize)>)
    ensures
        bounds_give(s@, res, go_method(s@)),
{
    let slen = s.len();
    let p = run(s, 0, CharClass::Space);
    let b = match after_word_at(s, p, "func") {
        Some(b) => b,
        None => return None,
    };
    if !char_is(s, b, '(') {
        return None;
    }
    let r = run(s, b + 1, CharClass::NotCloseParen);
    if r < 1 || !char_is(s, b + 1 + r, ')') {
        return None;
    }
    let c = b + 2 + r;
    let k = run(s, c, CharClass::Space);
    if k >= 1 {
        tail_at(s, c + k, Tail::Call)
    } else {
        None
    }
}

/// `^\s*type\s+([A-Za-z_][A-Za-z0-9_]*)\s+(struct|interface)`: the name, and whether it
/// is a struct.
pub open spec fn go_type(s: Seq<char>) -> Option<(Seq<char>, bool)> {
    match after_word(s, ws_run(s, 0) as int, "type"@) {
        None => None,
        Some(b) => match ident_at(s, b) {
            None => None,
            Some(name) => {
                let e = ident_end(s, b);
                let k = ws_run(s, e) as int;
                if k >= 1 && has_at(s, e + k, "struct"@) {
                    Some((name, true))
                } else if k >= 1 && has_at(s, e + k, "interface"@) {
                    Some((name, false))
                } else {
                    None
                }
            },
        },
    }
}

/// Matches `go_type` on a line.
pub fn go_type_at(s: &Vec<char>) -> (res: Option<(usize, usize, bool)>)
    ensures
        match res {
            Some((lo, hi, is_struct)) => lo <= hi <= s@.len() && go_type(s@) == Some(
                (s@.subrange(lo as int, hi as int), is_struct),
            ),
            None => go_type(s@) is None,
        },
{
    let slen = s.len();
    let p = run(s, 0, CharClass::Space);
    let b = match after_word_at(s, p, "type") {
        Some(b) => b,
        None => return None,
    };
    let e = match ident_from(s, b) {
        Some(e) => e,
        None => return None,
    };
    let k = run(s, e, CharClass::Space);
    if k >= 1 && at(s, e + k, "struct") {
        Some((b, e, true))
    } else if k >= 1 && at(s, e + k, "interface") {
        Some((b, e, false))
    } else {
        None
    }
}

/// The `[^ ]+` part of an `impl` line from `st`, tried longest first with at most `t`
/// characters, followed by `\s+` and the captured identifier.
pub open spec fn impl_try_len(s: Seq<char>, st: int, t: int) -> Option<Seq<char>>
    decreases t,
{
    if t <= 0 {
        None
    } else {
        let b = st + t;
        let k = ws_run(s, b) as int;
        if k >= 1 && ident_at(s, b + k) is Some {
            ident_at(s, b + k)
        } else {
            impl_try_len(s, st, t - 1)
        }
    }
}

/// The whitespace of the optional `\s+[^ ]+` part, tried longest first with at most `k`
/// characters.
pub open spec fn impl_try_ws(s: Seq<char>, a: int, k: int) -> Option<Seq<char>>
    decreases k,
{
    if k <= 0 {
        None
    } else {
        match impl_try_len(s, a + k, run_len(s, a + k, CharClass::NotSpace) as int) {
            Some(x) => Some(x),
            None => impl_try_ws(s, a, k - 1),
        }
    }
}

/// `^\s*impl(?:\s+[^ ]+)?\s+([A-Za-z_][A-Za-z0-9_]*)`
pub open spec fn impl_header(s: Seq<char>) -> Option<Seq<char>> {
    let p = ws_run(s, 0) as int;
    if has_at(s, p, "impl"@) {
        let a = p + 4;
        let k = ws_run(s, a) as int;
        match impl_try_ws(s, a, k) {
            Some(x) => Some(x),
            None => if k >= 1 {
                ident_at(s, a + k)
            } else {
                None
            },
        }
    } else {
        None
    }
}

/// Matches `impl_header` on a line.
pub fn impl_header_at(s: &Vec<char>) -> (res: Option<(usize, usize)>)
    ensures
        bounds_give(s@, res, impl_header(s@)),
{
    let slen = s.len();
    proof {
        reveal_strlit("impl");
    }
    let p = run(s, 0, CharClass::Space);
    if !at(s, p, "impl") {
        return None;
    }
    let a = p + 4;
    let k0 = run(s, a, CharClass::Space);
    let mut k = k0;
    while k > 0
        invariant
            slen == s@.len(),
            a <= s@.len(),
            a + k <= s@.len(),
            k0 == ws_run(s@, a as int),
            impl_header(s@) == (match impl_try_ws(s@, a as int, k as int) {
                Some(x) => Some(x),
                None => if k0 >= 1 {
                    ident_at(s@, a + k0)
                } else {
                    None
                },
            }),
        decreases k,
    {
        let st = a + k;
        let mut t = run(s, st, CharClass::NotSpace);
        while t > 0
            invariant
                slen == s@.len(),
                st + t <= s@.len(),
                st == a + k,
                a + k <= s@.len(),
                k > 0,
                k0 == ws_run(s@, a as int),
                impl_try_ws(s@, a as int, k as int) == (match impl_try_len(s@, st as int, t as int) {
                    Some(x) => Some(x),
                    None => impl_try_ws(s@, a as int, k - 1),
                }),
                impl_header(s@) == (match impl_try_ws(s@, a as int, k as int) {
                    Some(x) => Some(x),
                    None => if k0 >= 1 {
                        ident_at(s@, a + k0)
                    } else {
                        None
                    },
                }),
            decreases t,
        {
            let b = st + t;
            let k2 = run(s, b, CharClass::Space);
            if k2 >= 1 {
                if let Some(e) = ident_from(s, b + k2) {
                    return Some((b + k2, e));
                }
            }
            t = t - 1;
        }
        k = k - 1;
    }
    if k0 >= 1 {
        match ident_from(s, a + k0) {
            Some(e) => Some((a + k0, e)),
            None => None,
        }
    } else {
        None
    }
}

} // verus!
