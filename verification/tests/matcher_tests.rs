//! The line patterns, checked against the regular expressions they stand for.
use regex::Regex;
use reposcryer::matchers::{
    decl_at, from_import_at, go_method_at, go_quoted_at, go_type_at, impl_header_at, java_method_at, js_import_at,
    kw_rest_at, require_at, until_semicolon_at, Tail,
};

fn chars(s: &str) -> Vec<char> {
    s.chars().collect()
}

fn text(v: &[char], b: Option<(usize, usize)>) -> Option<String> {
    b.map(|(lo, hi)| v[lo..hi].iter().collect())
}

fn regex_cap(re: &Regex, line: &str, group: usize) -> Option<String> {
    re.captures(line).map(|c| c[group].to_string())
}

const LINES: &[&str] = &[
    "",
    "struct A;",
    "pub struct Abc_9 {",
    "  pub   struct   X",
    "pub structX",
    "pubstruct Y",
    "enum E {",
    "\tpub enum F",
    "trait T",
    "fn run() {}",
    "pub fn go(x: i32)",
    "    fn login(&self) {}",
    "fn 9bad()",
    "impl User {",
    "impl Display for User {",
    "impl<T> Foo<T> {",
    "impl  \tX",
    "impl\tA\tB",
    "implement X",
    "use crate::db::Database;",
    "use  ;",
    "use ;",
    "use a::b",
    "   use x ; use y;",
    "mod auth;",
    "mod auth ;",
    "mod auth",
    "pub mod x;",
    "import os",
    "import   ",
    "import  \t",
    "from a.b import c",
    "from  x import y import z",
    "from   import y",
    "from a import",
    "class Service:",
    "def run():",
    "import { x } from './dep';",
    "import x from \"y\"; import z from 'w'",
    "import fromage from 'z'",
    "import x from 'a\"b'",
    "const fs = require('fs');",
    "let x  =  require(\"a/b\")",
    "var y=require('')",
    "export function run() {}",
    "function plain(a)",
    "export class Box {}",
    "const boot = () => {};",
    "export const go = async (x) => x;",
    "const n = 5;",
    "const a = async x => x",
    "import java.util.List;",
    "public class A {",
    "class B extends C",
    "public interface I {",
    "  public static void main(String[] args) {",
    "private int count(int x) {",
    "protected List<String> names() {",
    "static void helper()",
    "return foo(x);",
    "publicvoid run()",
    "  \"fmt\"",
    "\"\"",
    "func main() {",
    "func (s *Server) Run(ctx) {",
    "func () X()",
    "type Server struct {",
    "type Handler interface {",
    "type Alias = int",
    "type Thing  structure",
];

#[test]
fn declarations_match_their_patterns() {
    let cases: &[(&str, &str, &str, Tail)] = &[
        (r"^\s*(?:pub\s+)?struct\s+([A-Za-z_][A-Za-z0-9_]*)", "pub", "struct", Tail::Ident),
        (r"^\s*(?:pub\s+)?enum\s+([A-Za-z_][A-Za-z0-9_]*)", "pub", "enum", Tail::Ident),
        (r"^\s*(?:pub\s+)?trait\s+([A-Za-z_][A-Za-z0-9_]*)", "pub", "trait", Tail::Ident),
        (r"^\s*(?:pub\s+)?fn\s+([A-Za-z_][A-Za-z0-9_]*)", "pub", "fn", Tail::Ident),
        (r"^\s*mod\s+([A-Za-z_][A-Za-z0-9_]*)\s*;", "", "mod", Tail::Semicolon),
        (r"^\s*class\s+([A-Za-z_][A-Za-z0-9_]*)", "", "class", Tail::Ident),
        (r"^\s*def\s+([A-Za-z_][A-Za-z0-9_]*)", "", "def", Tail::Ident),
        (r"^\s*(?:export\s+)?function\s+([A-Za-z_][A-Za-z0-9_]*)", "export", "function", Tail::Ident),
        (r"^\s*(?:export\s+)?class\s+([A-Za-z_][A-Za-z0-9_]*)", "export", "class", Tail::Ident),
        (
            r"^\s*(?:export\s+)?const\s+([A-Za-z_][A-Za-z0-9_]*)\s*=\s*(?:async\s+)?\(",
            "export",
            "const",
            Tail::Arrow,
        ),
        (r"^\s*(?:public\s+)?class\s+([A-Za-z_][A-Za-z0-9_]*)", "public", "class", Tail::Ident),
        (r"^\s*(?:public\s+)?interface\s+([A-Za-z_][A-Za-z0-9_]*)", "public", "interface", Tail::Ident),
        (r"^\s*func\s+([A-Za-z_][A-Za-z0-9_]*)\s*\(", "", "func", Tail::Call),
    ];
    for (pattern, modifier, kw, tail) in cases {
        let re = Regex::new(pattern).unwrap();
        for line in LINES {
            let v = chars(line);
            assert_eq!(text(&v, decl_at(&v, modifier, kw, *tail)), regex_cap(&re, line, 1), "{pattern} on {line:?}");
        }
    }
}

#[test]
fn other_patterns_match_their_regexes() {
    let impl_re = Regex::new(r"^\s*impl(?:\s+[^ ]+)?\s+([A-Za-z_][A-Za-z0-9_]*)").unwrap();
    let use_re = Regex::new(r"^\s*use\s+([^;]+);").unwrap();
    let java_import_re = Regex::new(r"^\s*import\s+([^;]+);").unwrap();
    let py_import_re = Regex::new(r"^\s*import\s+(.+)$").unwrap();
    let js_import_re = Regex::new(r#"^\s*import\s+.*?from\s+["']([^"']+)["']"#).unwrap();
    let require_re =
        Regex::new(r#"^\s*(?:const|let|var)\s+[A-Za-z_][A-Za-z0-9_]*\s*=\s*require\(["']([^"']+)["']\)"#).unwrap();
    let method_re = Regex::new(
        r"^\s*(?:public|private|protected)?\s*(?:static\s+)?[A-Za-z0-9_<>\[\]]+\s+([A-Za-z_][A-Za-z0-9_]*)\s*\(",
    )
    .unwrap();
    let go_import_re = Regex::new(r#"^\s*"([^"]+)""#).unwrap();
    let go_method_re = Regex::new(r"^\s*func\s+\([^)]+\)\s+([A-Za-z_][A-Za-z0-9_]*)\s*\(").unwrap();
    let from_re = Regex::new(r"^\s*from\s+(.+)\s+import\s+(.+)$").unwrap();
    let type_re = Regex::new(r"^\s*type\s+([A-Za-z_][A-Za-z0-9_]*)\s+(struct|interface)").unwrap();
    for line in LINES {
        let v = chars(line);
        assert_eq!(text(&v, impl_header_at(&v)), regex_cap(&impl_re, line, 1), "impl on {line:?}");
        assert_eq!(text(&v, until_semicolon_at(&v, "use")), regex_cap(&use_re, line, 1), "use on {line:?}");
        assert_eq!(text(&v, until_semicolon_at(&v, "import")), regex_cap(&java_import_re, line, 1), "import; on {line:?}");
        assert_eq!(text(&v, kw_rest_at(&v, "import")), regex_cap(&py_import_re, line, 1), "import on {line:?}");
        assert_eq!(text(&v, js_import_at(&v)), regex_cap(&js_import_re, line, 1), "js import on {line:?}");
        assert_eq!(text(&v, require_at(&v)), regex_cap(&require_re, line, 1), "require on {line:?}");
        assert_eq!(text(&v, java_method_at(&v)), regex_cap(&method_re, line, 1), "method on {line:?}");
        assert_eq!(text(&v, go_quoted_at(&v)), regex_cap(&go_import_re, line, 1), "go import on {line:?}");
        assert_eq!(text(&v, go_method_at(&v)), regex_cap(&go_method_re, line, 1), "go method on {line:?}");
        let from = from_import_at(&v).map(|(a, b, c, d)| (v[a..b].iter().collect::<String>(), v[c..d].iter().collect::<String>()));
        let expected = from_re.captures(line).map(|c| (c[1].to_string(), c[2].to_string()));
        assert_eq!(from, expected, "from on {line:?}");
        let ty = go_type_at(&v).map(|(lo, hi, is_struct)| (v[lo..hi].iter().collect::<String>(), is_struct));
        let expected = type_re.captures(line).map(|c| (c[1].to_string(), &c[2] == "struct"));
        assert_eq!(ty, expected, "type on {line:?}");
    }
}
