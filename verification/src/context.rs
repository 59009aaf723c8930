use vstd::prelude::*;
use crate::model::{
    language_name, symbol_kind_name, FileDependency, FileExplanation, FileImpact, FileNeighborhood,
    ImpactedFile, Import, IndexWarning, Symbol,
};
use crate::text::{chars_of, decimal, owned, push_char, push_decimal, push_str};

verus! {

/// What a context pack is for.
#[derive(Debug, Clone, Copy, PartialEq, Eq, Structural)]
pub enum ContextMode {
    Explain,
    ChangePlan,
    Review,
}

/// The name of a mode.
pub open spec fn mode_name(m: ContextMode) -> Seq<char> {
    match m {
        ContextMode::Explain => "explain"@,
        ContextMode::ChangePlan => "change-plan"@,
        ContextMode::Review => "review"@,
    }
}

impl ContextMode {
    /// The name of the mode.
    pub fn as_str(&self) -> (r: &'static str)
        ensures
            r@ == mode_name(*self),
    {
        match self {
            ContextMode::Explain => "explain",
            ContextMode::ChangePlan => "change-plan",
            ContextMode::Review => "review",
        }
    }
}

/// What goes into a context pack.
#[derive(Debug)]
pub struct ContextInput {
    pub mode: ContextMode,
    pub budget: usize,
    pub explanation: FileExplanation,
    pub neighbors: FileNeighborhood,
    pub impact: FileImpact,
    pub source: String,
    pub repo_map: String,
}

/// A bundle of what is known of one file, cut to a character budget.
#[derive(Debug, PartialEq, Eq)]
pub struct ContextPack {
    pub mode: String,
    pub budget: usize,
    pub target_file: String,
    pub language: String,
    pub symbols: Vec<String>,
    pub imports: Vec<String>,
    pub outgoing_dependencies: Vec<String>,
    pub incoming_dependencies: Vec<String>,
    pub impacted_files: Vec<String>,
    pub warnings: Vec<String>,
    pub source_excerpt: String,
    pub repo_map_excerpt: String,
    pub truncated: bool,
}

/// The text that marks a cut excerpt.
pub open spec fn truncation_mark() -> Seq<char> {
    "\n...[truncated]\n"@
}

/// At most `budget` leading characters of `content`, marked where cut.
pub open spec fn excerpt_of(content: Seq<char>, budget: nat) -> Seq<char> {
    if content.len() > budget {
        content.take(budget as int) + truncation_mark()
    } else {
        content
    }
}

/// At most `budget` leading characters of `content`, with a mark where it was cut, and
/// whether it was.
pub fn excerpt(content: &str, budget: usize) -> (r: (String, bool))
    ensures
        r.0@ == excerpt_of(content@, budget as nat),
        r.1 == (content@.len() > budget),
{
    let cs = chars_of(content);
    let mut out = String::new();
    let mut i: usize = 0;
    while i < cs.len() && i < budget
        invariant
            i <= cs@.len(),
            i <= budget,
            cs@ == content@,
            out@ == cs@.take(i as int),
        decreases cs@.len() - i,
    {
        push_char(&mut out, cs[i]);
        assert(cs@.take(i + 1) =~= cs@.take(i as int).push(cs@[i as int]));
        i = i + 1;
    }
    let truncated = cs.len() > budget;
    if truncated {
        push_str(&mut out, "\n...[truncated]\n");
    } else {
        assert(cs@.take(i as int) =~= cs@);
    }
    (out, truncated)
}

pub open spec fn symbol_entry(s: Symbol) -> Seq<char> {
    symbol_kind_name(s.kind) + " "@ + s.name@
}

pub open spec fn import_entry(i: Import) -> Seq<char> {
    decimal(i.line as nat) + ":"@ + i.raw_target@
}

pub open spec fn warning_entry(w: IndexWarning) -> Seq<char> {
    w.stage@ + ": "@ + w.message@
}

pub open spec fn string_views(v: Seq<String>) -> Seq<Seq<char>> {
    v.map_values(|s: String| s@)
}

/// The budget of a pack: the one asked for, but at least 512.
pub open spec fn pack_budget(budget: usize) -> usize {
    if budget < 512 {
        512
    } else {
        budget
    }
}

fn symbol_entries(v: &Vec<Symbol>) -> (r: Vec<String>)
    ensures
        string_views(r@) == v@.map_values(|s: Symbol| symbol_entry(s)),
{
    let mut r: Vec<String> = Vec::new();
    let mut i: usize = 0;
    while i < v.len()
        invariant
            i <= v@.len(),
            string_views(r@) == v@.take(i as int).map_values(|s: Symbol| symbol_entry(s)),
        decreases v@.len() - i,
    {
        let mut e = owned(v[i].kind.name());
        push_str(&mut e, " ");
        push_str(&mut e, v[i].name.as_str());
        let ghost before = r@;
        r.push(e);
        assert(string_views(r@) =~= string_views(before).push(e@));
        assert(v@.take(i + 1) =~= v@.take(i as int).push(v@[i as int]));
        assert(string_views(r@) =~= v@.take(i + 1).map_values(|s: Symbol| symbol_entry(s)));
        i = i + 1;
    }
    assert(v@.take(v@.len() as int) =~= v@);
    r
}

fn import_entries(v: &Vec<Import>) -> (r: Vec<String>)
    ensures
        string_views(r@) == v@.map_values(|x: Import| import_entry(x)),
{
    let mut r: Vec<String> = Vec::new();
    let mut i: usize = 0;
    while i < v.len()
        invariant
            i <= v@.len(),
            string_views(r@) == v@.take(i as int).map_values(|x: Import| import_entry(x)),
        decreases v@.len() - i,
    {
        let mut e = String::new();
        push_decimal(&mut e, v[i].line as u64);
        push_str(&mut e, ":");
        push_str(&mut e, v[i].raw_target.as_str());
        let ghost before = r@;
        r.push(e);
        assert(string_views(r@) =~= string_views(before).push(e@));
        assert(v@.take(i + 1) =~= v@.take(i as int).push(v@[i as int]));
        assert(string_views(r@) =~= v@.take(i + 1).map_values(|x: Import| import_entry(x)));
        i = i + 1;
    }
    assert(v@.take(v@.len() as int) =~= v@);
    r
}

fn warning_entries(v: &Vec<IndexWarning>) -> (r: Vec<String>)
    ensures
        string_views(r@) == v@.map_values(|w: IndexWarning| warning_entry(w)),
{
    let mut r: Vec<String> = Vec::new();
    let mut i: usize = 0;
    while i < v.len()
        invariant
            i <= v@.len(),
            string_views(r@) == v@.take(i as int).map_values(|w: IndexWarning| warning_entry(w)),
        decreases v@.len() - i,
    {
        let mut e = v[i].stage.clone();
        push_str(&mut e, ": ");
        push_str(&mut e, v[i].message.as_str());
        let ghost before = r@;
        r.push(e);
        assert(string_views(r@) =~= string_views(before).push(e@));
        assert(v@.take(i + 1) =~= v@.take(i as int).push(v@[i as int]));
        assert(string_views(r@) =~= v@.take(i + 1).map_values(|w: IndexWarning| warning_entry(w)));
        i = i + 1;
    }
    assert(v@.take(v@.len() as int) =~= v@);
    r
}

fn dependency_paths(v: &Vec<FileDependency>, outgoing: bool) -> (r: Vec<String>)
    ensures
        string_views(r@) == v@.map_values(
            |d: FileDependency| if outgoing {
                d.to_relative_path@
            } else {
                d.from_relative_path@
            },
        ),
{
    let ghost f = |d: FileDependency| if outgoing {
        d.to_relative_path@
    } else {
        d.from_relative_path@
    };
    let mut r: Vec<String> = Vec::new();
    let mut i: usize = 0;
    while i < v.len()
        invariant
            i <= v@.len(),
            f == (|d: FileDependency| if outgoing {
                d.to_relative_path@
            } else {
                d.from_relative_path@
            }),
            string_views(r@) == v@.take(i as int).map_values(f),
        decreases v@.len() - i,
    {
        let e = if outgoing {
            v[i].to_relative_path.clone()
        } else {
            v[i].from_relative_path.clone()
        };
        let ghost before = r@;
        r.push(e);
        assert(string_views(r@) =~= string_views(before).push(e@));
        assert(v@.take(i + 1) =~= v@.take(i as int).push(v@[i as int]));
        assert(string_views(r@) =~= v@.take(i + 1).map_values(f));
        i = i + 1;
    }
    assert(v@.take(v@.len() as int) =~= v@);
    r
}

fn impacted_paths(v: &Vec<ImpactedFile>) -> (r: Vec<String>)
    ensures
        string_views(r@) == v@.map_values(|x: ImpactedFile| x.relative_path@),
{
    let mut r: Vec<String> = Vec::new();
    let mut i: usize = 0;
    while i < v.len()
        invariant
            i <= v@.len(),
            string_views(r@) == v@.take(i as int).map_values(|x: ImpactedFile| x.relative_path@),
        decreases v@.len() - i,
    {
        let e = v[i].relative_path.clone();
        let ghost before = r@;
        r.push(e);
        assert(string_views(r@) =~= string_views(before).push(e@));
        assert(v@.take(i + 1) =~= v@.take(i as int).push(v@[i as int]));
        assert(string_views(r@) =~= v@.take(i + 1).map_values(|x: ImpactedFile| x.relative_path@));
        i = i + 1;
    }
    assert(v@.take(v@.len() as int) =~= v@);
    r
}

/// A context pack of one file: the budget is at least 512 characters; the source
/// excerpt gets half of it and the repository map excerpt a quarter; the pack is
/// truncated where either excerpt was cut.
pub fn build_context_pack(input: ContextInput) -> (r: ContextPack)
    ensures
        r.mode@ == mode_name(input.mode),
        r.budget == pack_budget(input.budget),
        r.target_file@ == input.explanation.relative_path@,
        r.language@ == language_name(input.explanation.language),
        string_views(r.symbols@) == input.explanation.symbols@.map_values(|s: Symbol| symbol_entry(s)),
        string_views(r.imports@) == input.explanation.imports@.map_values(|x: Import| import_entry(x)),
        string_views(r.outgoing_dependencies@) == input.neighbors.outgoing@.map_values(
            |d: FileDependency| d.to_relative_path@,
        ),
        string_views(r.incoming_dependencies@) == input.neighbors.incoming@.map_values(
            |d: FileDependency| d.from_relative_path@,
        ),
        string_views(r.impacted_files@) == input.impact.impacted_files@.map_values(
            |x: ImpactedFile| x.relative_path@,
        ),
        string_views(r.warnings@) == input.explanation.warnings@.map_values(|w: IndexWarning| warning_entry(w)),
        r.source_excerpt@ == excerpt_of(input.source@, (pack_budget(input.budget) / 2) as nat),
        r.repo_map_excerpt@ == excerpt_of(input.repo_map@, (pack_budget(input.budget) / 4) as nat),
        r.truncated == (input.source@.len() > pack_budget(input.budget) / 2 || input.repo_map@.len()
            > pack_budget(input.budget) / 4),
{
    let budget = if input.budget < 512 {
        512
    } else {
        input.budget
    };
    let source_budget = budget / 2;
    let repo_map_budget = budget / 4;
    let (source_excerpt, source_truncated) = excerpt(input.source.as_str(), source_budget);
    let (repo_map_excerpt, repo_map_truncated) = excerpt(input.repo_map.as_str(), repo_map_budget);
    let outgoing = dependency_paths(&input.neighbors.outgoing, true);
    let incoming = dependency_paths(&input.neighbors.incoming, false);
    assert(input.neighbors.outgoing@.map_values(
        |d: FileDependency| if true {
            d.to_relative_path@
        } else {
            d.from_relative_path@
        },
    ) =~= input.neighbors.outgoing@.map_values(|d: FileDependency| d.to_relative_path@));
    assert(input.neighbors.incoming@.map_values(
        |d: FileDependency| if false {
            d.to_relative_path@
        } else {
            d.from_relative_path@
        },
    ) =~= input.neighbors.incoming@.map_values(|d: FileDependency| d.from_relative_path@));
    ContextPack {
        mode: owned(input.mode.as_str()),
        budget,
        target_file: input.explanation.relative_path.clone(),
        language: owned(input.explanation.language.as_str()),
        symbols: symbol_entries(&input.explanation.symbols),
        imports: import_entries(&input.explanation.imports),
        outgoing_dependencies: outgoing,
        incoming_dependencies: incoming,
        impacted_files: impacted_paths(&input.impact.impacted_files),
        warnings: warning_entries(&input.explanation.warnings),
        source_excerpt,
        repo_map_excerpt,
        truncated: source_truncated || repo_map_truncated,
    }
}

/// A titled list: the title, then one `- ` line per value, or `- none`, then a blank
/// line.
pub open spec fn list_section(title: Seq<char>, values: Seq<Seq<char>>) -> Seq<char> {
    "## "@ + title + "\n\n"@ + if values.len() == 0 {
        "- none\n\n"@
    } else {
        bullet_lines(values) + "\n"@
    }
}

/// One `- value` line per value.
pub open spec fn bullet_lines(values: Seq<Seq<char>>) -> Seq<char>
    decreases values.len(),
{
    if values.len() == 0 {
        seq![]
    } else {
        bullet_lines(values.drop_last()) + "- "@ + values.last() + "\n"@
    }
}

/// Appends a titled list of values.
pub fn push_list(output: &mut String, title: &str, values: &Vec<String>)
    ensures
        final(output)@ == old(output)@ + list_section(title@, string_views(values@)),
{
    let ghost start = output@;
    let ghost vs = string_views(values@);
    push_str(output, "## ");
    push_str(output, title);
    push_str(output, "\n\n");
    if values.len() == 0 {
        push_str(output, "- none\n\n");
        return;
    }
    let ghost head = output@;
    let mut i: usize = 0;
    assert(vs.take(0) =~= Seq::<Seq<char>>::empty());
    while i < values.len()
        invariant
            i <= values@.len(),
            vs == string_views(values@),
            output@ == head + bullet_lines(vs.take(i as int)),
        decreases values@.len() - i,
    {
        proof {
            assert(vs.take(i + 1).drop_last() =~= vs.take(i as int));
            assert(vs.take(i + 1).last() == values@[i as int]@);
        }
        push_str(output, "- ");
        push_str(output, values[i].as_str());
        push_str(output, "\n");
        assert(output@ =~= head + bullet_lines(vs.take(i + 1)));
        i = i + 1;
    }
    assert(vs.take(vs.len() as int) =~= vs);
    push_str(output, "\n");
}

/// Appends a titled list of paths.
pub fn push_paths(output: &mut String, title: &str, values: &Vec<String>)
    ensures
        final(output)@ == old(output)@ + list_section(title@, string_views(values@)),
{
    push_list(output, title, values)
}

/// The text with a newline added unless it ends with one.
pub open spec fn ending_newline(s: Seq<char>) -> Seq<char> {
    if s.len() > 0 && s.last() == '\n' {
        s
    } else {
        s + "\n"@
    }
}

pub open spec fn bool_text(b: bool) -> Seq<char> {
    if b {
        "true"@
    } else {
        "false"@
    }
}

/// The Markdown text of a context pack.
pub open spec fn pack_markdown(p: ContextPack) -> Seq<char> {
    "# RepoScryer Context Pack\n\n"@ + "- mode: "@ + p.mode@ + "\n"@ + "- target: "@ + p.target_file@ + "\n"@
        + "- language: "@ + p.language@ + "\n"@ + "- budget: "@ + decimal(p.budget as nat) + "\n"@
        + "- truncated: "@ + bool_text(p.truncated) + "\n\n"@ + list_section("Symbols"@, string_views(p.symbols@))
        + list_section("Imports"@, string_views(p.imports@)) + list_section(
        "Outgoing Dependencies"@,
        string_views(p.outgoing_dependencies@),
    ) + list_section("Incoming Dependencies"@, string_views(p.incoming_dependencies@)) + list_section(
        "Impacted Files"@,
        string_views(p.impacted_files@),
    ) + list_section("Warnings"@, string_views(p.warnings@)) + "## Source Excerpt\n\n```text\n"@
        + ending_newline(p.source_excerpt@) + "```\n\n## Repo Map Excerpt\n\n```markdown\n"@ + ending_newline(
        p.repo_map_excerpt@,
    ) + "```\n"@
}

fn push_ending_newline(output: &mut String, s: &String)
    ensures
        final(output)@ == old(output)@ + ending_newline(s@),
{
    push_str(output, s.as_str());
    let cs = chars_of(s.as_str());
    if !(cs.len() > 0 && cs[cs.len() - 1] == '\n') {
        push_str(output, "\n");
    }
}

/// The context pack as Markdown.
pub fn render_markdown(pack: &ContextPack) -> (r: String)
    ensures
        r@ == pack_markdown(*pack),
{
    let mut output = String::new();
    push_str(&mut output, "# RepoScryer Context Pack\n\n");
    push_str(&mut output, "- mode: ");
    push_str(&mut output, pack.mode.as_str());
    push_str(&mut output, "\n");
    push_str(&mut output, "- target: ");
    push_str(&mut output, pack.target_file.as_str());
    push_str(&mut output, "\n");
    push_str(&mut output, "- language: ");
    push_str(&mut output, pack.language.as_str());
    push_str(&mut output, "\n");
    push_str(&mut output, "- budget: ");
    push_decimal(&mut output, pack.budget as u64);
    push_str(&mut output, "\n");
    push_str(&mut output, "- truncated: ");
    push_str(&mut output, if pack.truncated { "true" } else { "false" });
    push_str(&mut output, "\n\n");
    push_list(&mut output, "Symbols", &pack.symbols);
    push_list(&mut output, "Imports", &pack.imports);
    push_paths(&mut output, "Outgoing Dependencies", &pack.outgoing_dependencies);
    push_paths(&mut output, "Incoming Dependencies", &pack.incoming_dependencies);
    push_paths(&mut output, "Impacted Files", &pack.impacted_files);
    push_list(&mut output, "Warnings", &pack.warnings);
    push_str(&mut output, "## Source Excerpt\n\n```text\n");
    push_ending_newline(&mut output, &pack.source_excerpt);
    push_str(&mut output, "```\n\n## Repo Map Excerpt\n\n```markdown\n");
    push_ending_newline(&mut output, &pack.repo_map_excerpt);
    push_str(&mut output, "```\n");
    output
}

/// The mode a name stands for.
pub open spec fn mode_of_name(s: Seq<char>) -> Option<ContextMode> {
    if s == "explain"@ {
        Some(ContextMode::Explain)
    } else if s == "change-plan"@ {
        Some(ContextMode::ChangePlan)
    } else if s == "review"@ {
        Some(ContextMode::Review)
    } else {
        None
    }
}

/// The message for a mode name that is none of the three.
pub open spec fn unsupported_mode_message(s: Seq<char>) -> Seq<char> {
    "unsupported context mode "@ + s + "; expected explain, change-plan, or review"@
}

fn same_text(a: &str, b: &str) -> (r: bool)
    ensures
        r == (a@ == b@),
{
    let x = chars_of(a);
    let y = chars_of(b);
    if x.len() != y.len() {
        return false;
    }
    let mut i: usize = 0;
    while i < x.len()
        invariant
            x@ == a@,
            y@ == b@,
            x@.len() == y@.len(),
            i <= x@.len(),
            forall|k: int| 0 <= k < i ==> x@[k] == y@[k],
        decreases x@.len() - i,
    {
        if x[i] != y[i] {
            return false;
        }
        i = i + 1;
    }
    assert(a@ =~= b@);
    true
}

/// The mode a command line names; another name is refused with a message.
pub fn parse_context_mode(mode: &str) -> (r: Result<ContextMode, String>)
    ensures
        match r {
            Ok(m) => mode_of_name(mode@) == Some(m),
            Err(e) => mode_of_name(mode@) is None && e@ == unsupported_mode_message(mode@),
        },
{
    if same_text(mode, "explain") {
        Ok(ContextMode::Explain)
    } else if same_text(mode, "change-plan") {
        Ok(ContextMode::ChangePlan)
    } else if same_text(mode, "review") {
        Ok(ContextMode::Review)
    } else {
        let mut e = owned("unsupported context mode ");
        push_str(&mut e, mode);
        push_str(&mut e, "; expected explain, change-plan, or review");
        Err(e)
    }
}

/// A mode reads back from its name.
pub proof fn law_mode_round_trip(m: ContextMode)
    ensures
        mode_of_name(mode_name(m)) == Some(m),
{
    reveal_strlit("explain");
    reveal_strlit("change-plan");
    reveal_strlit("review");
    assert("explain"@.len() == 7);
    assert("change-plan"@.len() == 11);
    assert("review"@.len() == 6);
}

/// An excerpt is the whole content where it fits the budget; otherwise it is the first
/// `budget` characters followed by the truncation mark.
pub proof fn law_excerpt(content: Seq<char>, budget: nat)
    ensures
        content.len() <= budget ==> excerpt_of(content, budget) == content,
        content.len() > budget ==> excerpt_of(content, budget).take(budget as int) == content.take(budget as int),
        excerpt_of(content, budget).len() <= budget + truncation_mark().len(),
{
    if content.len() > budget {
        assert(excerpt_of(content, budget).take(budget as int) =~= content.take(budget as int));
    }
}

/// A pack keeps the budget asked for where it is at least 512 characters, and raises a
/// smaller one to 512: the budget never falls below what was asked nor below 512, and
/// a larger request never gives a smaller budget.
pub proof fn law_pack_budget(a: usize, b: usize)
    ensures
        pack_budget(a) >= 512,
        pack_budget(a) >= a,
        a >= 512 ==> pack_budget(a) == a,
        a < 512 ==> pack_budget(a) == 512,
        a <= b ==> pack_budget(a) <= pack_budget(b),
{
}

/// The source excerpt of a pack keeps the first half of the budget asked for (at least
/// 256 characters) of a longer source, and the whole of a source that fits.
pub proof fn law_pack_source_excerpt(source: Seq<char>, budget: usize)
    ensures
        budget >= 512 && source.len() > budget / 2 ==> excerpt_of(source, (pack_budget(budget) / 2) as nat)
            == source.take((budget / 2) as int) + truncation_mark(),
        source.len() <= 256 ==> excerpt_of(source, (pack_budget(budget) / 2) as nat) == source,
{
}

} // verus!
