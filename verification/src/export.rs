use vstd::prelude::*;
use crate::config::RepoScryerConfig;
use crate::model::{
    language_name, symbol_kind_name, CodeFile, EdgeKind, GraphEdge, IndexWarning, RepoIndex, Symbol,
};
use crate::order::{chars_less, chars_lt, lemma_chars_lt_irreflexive, lemma_chars_lt_total, lemma_chars_lt_transitive};
use crate::paths::{join, join_to, parent, parent_of};
use crate::text::{chars_of, decimal, owned, push_char, push_decimal, push_str, string_of};

verus! {

/// A tally: keys with their counts.
pub type Tally = Seq<(Seq<char>, nat)>;

/// The first position of the tally whose key is not below `k`.
pub open spec fn tally_pos(t: Tally, k: Seq<char>) -> int
    decreases t.len(),
{
    if t.len() == 0 {
        0
    } else if chars_lt(t[0].0, k) {
        1 + tally_pos(t.drop_first(), k)
    } else {
        0
    }
}

/// Counting `k` once more: its entry goes up by one, or a new entry with count one
/// enters where the order puts it.
pub open spec fn tally_add(t: Tally, k: Seq<char>) -> Tally {
    let p = tally_pos(t, k);
    if p < t.len() && t[p].0 == k {
        t.update(p, (k, t[p].1 + 1))
    } else {
        t.insert(p, (k, 1))
    }
}

/// The tally of some keys, in key order, as a `BTreeMap` of counts gives it.
pub open spec fn tally(ks: Seq<Seq<char>>) -> Tally
    decreases ks.len(),
{
    if ks.len() == 0 {
        seq![]
    } else {
        tally_add(tally(ks.drop_last()), ks.last())
    }
}

/// The test for one key.
pub open spec fn is_key(k: Seq<char>) -> spec_fn(Seq<char>) -> bool {
    |x: Seq<char>| x == k
}

/// How often `k` occurs.
pub open spec fn occurrences(ks: Seq<Seq<char>>, k: Seq<char>) -> nat {
    ks.filter(is_key(k)).len()
}

/// The keys of a tally are in strictly ascending order.
pub open spec fn tally_sorted(t: Tally) -> bool {
    forall|i: int, j: int| 0 <= i < j < t.len() ==> chars_lt(#[trigger] t[i].0, #[trigger] t[j].0)
}


proof fn lemma_tally_pos(t: Tally, k: Seq<char>)
    requires
        tally_sorted(t),
    ensures
        0 <= tally_pos(t, k) <= t.len(),
        forall|i: int| 0 <= i < tally_pos(t, k) ==> chars_lt(#[trigger] t[i].0, k),
        forall|i: int| tally_pos(t, k) <= i < t.len() ==> !chars_lt(#[trigger] t[i].0, k),
    decreases t.len(),
{
    if t.len() > 0 {
        let r = t.drop_first();
        assert(tally_sorted(r)) by {
            assert forall|i: int, j: int| 0 <= i < j < r.len() implies chars_lt(#[trigger] r[i].0, #[trigger] r[j].0) by {
                assert(r[i] == t[i + 1]);
                assert(r[j] == t[j + 1]);
            }
        }
        lemma_tally_pos(r, k);
        if chars_lt(t[0].0, k) {
            assert forall|i: int| 0 <= i < tally_pos(t, k) implies chars_lt(#[trigger] t[i].0, k) by {
                if i > 0 {
                    assert(t[i] == r[i - 1]);
                }
            }
            assert forall|i: int| tally_pos(t, k) <= i < t.len() implies !chars_lt(#[trigger] t[i].0, k) by {
                assert(t[i] == r[i - 1]);
            }
        } else {
            assert forall|i: int| 0 <= i < t.len() implies !chars_lt(#[trigger] t[i].0, k) by {
                if i > 0 {
                    assert(chars_lt(t[0].0, t[i].0));
                    if chars_lt(t[i].0, k) {
                        lemma_chars_lt_transitive(t[0].0, t[i].0, k);
                    }
                }
            }
        }
    }
}

/// The tally of some keys lists each key that occurs once, in strictly ascending
/// order, with the number of times it occurs.
pub proof fn law_tally(ks: Seq<Seq<char>>)
    ensures
        tally_sorted(tally(ks)),
        forall|k: Seq<char>| ks.contains(k) <==> exists|i: int| 0 <= i < tally(ks).len() && (#[trigger] tally(ks)[i]).0 == k,
        forall|i: int| 0 <= i < tally(ks).len() ==> (#[trigger] tally(ks)[i]).1 == occurrences(ks, tally(ks)[i].0),
    decreases ks.len(),
{
    if ks.len() > 0 {
        let prev = ks.drop_last();
        let k = ks.last();
        law_tally(prev);
        let t = tally(prev);
        lemma_tally_pos(t, k);
        let p = tally_pos(t, k);
        let n = tally(ks);
        assert(ks =~= prev.push(k));
        assert forall|x: Seq<char>| occurrences(ks, x) == occurrences(prev, x) + if x == k { 1nat } else { 0nat } by {
            reveal_with_fuel(Seq::<_>::filter, 1);
            assert(ks.drop_last() == prev);
        }
        if p < t.len() && t[p].0 == k {
            assert(n == t.update(p, (k, t[p].1 + 1)));
            assert forall|x: Seq<char>| ks.contains(x) <==> exists|i: int| 0 <= i < n.len() && (#[trigger] n[i]).0 == x by {
                if ks.contains(x) {
                    let j = choose|j: int| 0 <= j < ks.len() && ks[j] == x;
                    if j < prev.len() {
                        assert(prev[j] == x);
                        assert(prev.contains(x));
                        let i = choose|i: int| 0 <= i < t.len() && (#[trigger] t[i]).0 == x;
                        assert(n[i].0 == x);
                    } else {
                        assert(n[p].0 == x);
                    }
                }
                if exists|i: int| 0 <= i < n.len() && (#[trigger] n[i]).0 == x {
                    let i = choose|i: int| 0 <= i < n.len() && (#[trigger] n[i]).0 == x;
                    if i == p {
                        assert(ks[ks.len() - 1] == x);
                    } else {
                        assert(t[i].0 == x);
                        assert(prev.contains(x));
                        let j = choose|j: int| 0 <= j < prev.len() && prev[j] == x;
                        assert(ks[j] == x);
                    }
                }
            }
            assert forall|i: int| 0 <= i < n.len() implies (#[trigger] n[i]).1 == occurrences(ks, n[i].0) by {
                if i != p {
                    assert(n[i] == t[i]);
                    if t[i].0 == k {
                        lemma_chars_lt_irreflexive(k);
                        if i < p {
                            assert(chars_lt(t[i].0, t[p].0));
                        } else {
                            assert(chars_lt(t[p].0, t[i].0));
                        }
                    }
                }
            }
        } else {
            assert(n == t.insert(p, (k, 1)));
            assert(!(exists|i: int| 0 <= i < t.len() && (#[trigger] t[i]).0 == k)) by {
                if exists|i: int| 0 <= i < t.len() && (#[trigger] t[i]).0 == k {
                    let i = choose|i: int| 0 <= i < t.len() && (#[trigger] t[i]).0 == k;
                    lemma_chars_lt_irreflexive(k);
                    if i > p {
                        assert(p < t.len());
                        lemma_chars_lt_total(t[p].0, k);
                        assert(chars_lt(t[p].0, t[i].0));
                        assert(!chars_lt(t[p].0, k));
                        assert(chars_lt(k, t[p].0));
                        lemma_chars_lt_transitive(k, t[p].0, t[i].0);
                    }
                }
            }
            assert(!prev.contains(k));
            assert(occurrences(prev, k) == 0) by {
                if occurrences(prev, k) > 0 {
                    let f = prev.filter(is_key(k));
                    prev.lemma_filter_pred(is_key(k), 0);
                    assert(f[0] == k);
                    assert(f.contains(f[0]));
                    prev.lemma_filter_contains_rev(is_key(k), f[0]);
                    assert(prev.contains(f[0]));
                }
            }
            assert(tally_sorted(n)) by {
                assert forall|i: int, j: int| 0 <= i < j < n.len() implies chars_lt(#[trigger] n[i].0, #[trigger] n[j].0) by {
                    if j < p {
                        assert(n[i] == t[i] && n[j] == t[j]);
                    } else if j == p {
                        assert(n[i] == t[i]);
                    } else if i < p {
                        assert(n[i] == t[i] && n[j] == t[j - 1]);
                        lemma_chars_lt_total(t[j - 1].0, k);
                        if i < p {
                            assert(chars_lt(t[i].0, k));
                            if chars_lt(k, t[j - 1].0) {
                                lemma_chars_lt_transitive(t[i].0, k, t[j - 1].0);
                            }
                        }
                    } else if i == p {
                        assert(n[j] == t[j - 1]);
                        lemma_chars_lt_total(t[j - 1].0, k);
                    } else {
                        assert(n[i] == t[i - 1] && n[j] == t[j - 1]);
                    }
                }
            }
            assert forall|x: Seq<char>| ks.contains(x) <==> exists|i: int| 0 <= i < n.len() && (#[trigger] n[i]).0 == x by {
                if ks.contains(x) {
                    let j = choose|j: int| 0 <= j < ks.len() && ks[j] == x;
                    if j < prev.len() {
                        assert(prev[j] == x);
                        assert(prev.contains(x));
                        let i = choose|i: int| 0 <= i < t.len() && (#[trigger] t[i]).0 == x;
                        if i < p {
                            assert(n[i].0 == x);
                        } else {
                            assert(n[i + 1].0 == x);
                        }
                    } else {
                        assert(n[p].0 == x);
                    }
                }
                if exists|i: int| 0 <= i < n.len() && (#[trigger] n[i]).0 == x {
                    let i = choose|i: int| 0 <= i < n.len() && (#[trigger] n[i]).0 == x;
                    if i == p {
                        assert(ks[ks.len() - 1] == x);
                    } else {
                        let i2 = if i < p { i } else { i - 1 };
                        assert(t[i2].0 == x);
                        assert(prev.contains(x));
                        let j = choose|j: int| 0 <= j < prev.len() && prev[j] == x;
                        assert(ks[j] == x);
                    }
                }
            }
            assert forall|i: int| 0 <= i < n.len() implies (#[trigger] n[i]).1 == occurrences(ks, n[i].0) by {
                if i < p {
                    assert(n[i] == t[i]);
                    assert(t[i].0 != k);
                } else if i > p {
                    assert(n[i] == t[i - 1]);
                    assert(t[i - 1].0 != k);
                }
            }
        }
    }
}

/// Lines joined with newlines.
pub open spec fn joined(lines: Seq<Seq<char>>) -> Seq<char>
    decreases lines.len(),
{
    if lines.len() == 0 {
        seq![]
    } else if lines.len() == 1 {
        lines[0]
    } else {
        joined(lines.drop_last()) + seq!['\n'] + lines.last()
    }
}

/// The lines `- key: count` of a tally.
pub open spec fn tally_lines(t: Tally) -> Seq<Seq<char>> {
    t.map_values(|e: (Seq<char>, nat)| "- "@ + e.0 + ": "@ + decimal(e.1))
}

/// The directory a file is counted under: its parent, or `.` at the top.
pub open spec fn directory_key(relative: Seq<char>) -> Seq<char> {
    if parent(relative).len() == 0 {
        seq!['.']
    } else {
        parent(relative)
    }
}

pub open spec fn language_keys(files: Seq<CodeFile>) -> Seq<Seq<char>> {
    files.map_values(|f: CodeFile| language_name(f.language))
}

pub open spec fn directory_keys(files: Seq<CodeFile>) -> Seq<Seq<char>> {
    files.map_values(|f: CodeFile| directory_key(f.relative_path@))
}

/// The details of the import edges, in order.
pub open spec fn import_details(edges: Seq<GraphEdge>) -> Seq<Seq<char>> {
    edges.filter(|e: GraphEdge| e.kind == EdgeKind::Imports).map_values(|e: GraphEdge| e.evidence.detail@)
}

pub open spec fn symbol_line(s: Symbol) -> Seq<char> {
    "- "@ + s.name@ + " ("@ + symbol_kind_name(s.kind) + ") in "@ + s.file_path@
}

pub open spec fn warning_line(w: IndexWarning) -> Seq<char> {
    "- "@ + w.file_path@ + " ["@ + w.stage@ + "] "@ + w.message@
}

/// A summary, or `- none` where it would be empty.
pub open spec fn or_none(s: Seq<char>) -> Seq<char> {
    if s.len() == 0 {
        "- none"@
    } else {
        s
    }
}

/// The repository map of an index: its path, time and file count, then the number of
/// files per language and per directory, each symbol, the number of imports per
/// target, and the warnings.
pub open spec fn repo_map(index: RepoIndex) -> Seq<char> {
    "# Repo Map\n\n- Repo path: "@ + index.repo_root@ + "\n- Indexed at: "@ + index.indexed_at@
        + "\n- File count: "@ + decimal(index.files@.len()) + "\n\n## Language summary\n"@
        + joined(tally_lines(tally(language_keys(index.files@)))) + "\n\n## Directory summary\n"@
        + joined(tally_lines(tally(directory_keys(index.files@)))) + "\n\n## Symbol summary\n"@
        + joined(index.symbols@.map_values(|s: Symbol| symbol_line(s))) + "\n\n## Imports summary\n"@
        + or_none(joined(tally_lines(tally(import_details(index.edges@))))) + "\n\n## Warnings\n"@
        + or_none(joined(index.warnings@.map_values(|w: IndexWarning| warning_line(w)))) + "\n"@
}

fn same_key(a: &Vec<char>, b: &Vec<char>) -> (r: bool)
    ensures
        r == (a@ == b@),
{
    if a.len() != b.len() {
        return false;
    }
    let mut i: usize = 0;
    while i < a.len()
        invariant
            a@.len() == b@.len(),
            i <= a@.len(),
            forall|k: int| 0 <= k < i ==> a@[k] == b@[k],
        decreases a@.len() - i,
    {
        if a[i] != b[i] {
            return false;
        }
        i = i + 1;
    }
    assert(a@ =~= b@);
    true
}

/// An exact tally: keys as character vectors, with counts.
pub struct TallyVec {
    pub keys: Vec<Vec<char>>,
    pub counts: Vec<usize>,
}

pub open spec fn tally_of(t: TallyVec) -> Tally {
    Seq::new(t.keys@.len(), |i: int| (t.keys@[i]@, t.counts@[i] as nat))
}

fn tally_new() -> (r: TallyVec)
    ensures
        r.keys@.len() == r.counts@.len(),
        r.counts@.len() == 0,
        tally_of(r) == Seq::<(Seq<char>, nat)>::empty(),
{
    let r = TallyVec { keys: Vec::new(), counts: Vec::new() };
    assert(tally_of(r) =~= Seq::<(Seq<char>, nat)>::empty());
    r
}

fn tally_push(t: &mut TallyVec, k: Vec<char>, Ghost(seen): Ghost<nat>)
    requires
        old(t).keys@.len() == old(t).counts@.len(),
        forall|i: int| 0 <= i < old(t).counts@.len() ==> #[trigger] old(t).counts@[i] <= seen,
        seen < usize::MAX,
    ensures
        final(t).keys@.len() == final(t).counts@.len(),
        tally_of(*final(t)) == tally_add(tally_of(*old(t)), k@),
        forall|i: int| 0 <= i < final(t).counts@.len() ==> #[trigger] final(t).counts@[i] <= seen + 1,
{
    let ghost t0 = tally_of(*t);
    let mut p: usize = 0;
    assert(t0.skip(0) =~= t0);
    while p < t.keys.len() && chars_less(&t.keys[p], &k)
        invariant
            p <= t.keys@.len(),
            t.keys@.len() == t.counts@.len(),
            t0 == tally_of(*t),
            tally_pos(t0, k@) == p + tally_pos(t0.skip(p as int), k@),
        decreases t.keys@.len() - p,
    {
        proof {
            assert(t0.skip(p as int).drop_first() =~= t0.skip(p + 1));
            assert(t0.skip(p as int)[0] == t0[p as int]);
        }
        p = p + 1;
    }
    proof {
        if p < t0.len() {
            assert(t0.skip(p as int)[0] == t0[p as int]);
        } else {
            assert(t0.skip(p as int).len() == 0);
        }
        assert(tally_pos(t0, k@) == p);
    }
    if p < t.keys.len() && same_key(&t.keys[p], &k) {
        let c = t.counts[p];
        t.counts.set(p, c + 1);
        assert(tally_of(*t) =~= t0.update(p as int, (k@, t0[p as int].1 + 1)));
    } else {
        t.keys.insert(p, k);
        t.counts.insert(p, 1);
        assert(tally_of(*t) =~= t0.insert(p as int, (k@, 1)));
    }
}

fn push_tally_lines(out: &mut String, t: &TallyVec)
    requires
        t.keys@.len() == t.counts@.len(),
    ensures
        final(out)@ == old(out)@ + joined(tally_lines(tally_of(*t))),
{
    let ghost lines = tally_lines(tally_of(*t));
    let ghost start = out@;
    let mut i: usize = 0;
    proof {
        assert(lines.take(0) =~= Seq::<Seq<char>>::empty());
    }
    while i < t.keys.len()
        invariant
            i <= t.keys@.len(),
            t.keys@.len() == t.counts@.len(),
            lines == tally_lines(tally_of(*t)),
            out@ == start + joined(lines.take(i as int)),
        decreases t.keys@.len() - i,
    {
        proof {
            assert(lines.take(i + 1).drop_last() =~= lines.take(i as int));
            assert(lines[i as int] == "- "@ + t.keys@[i as int]@ + ": "@ + decimal(t.counts@[i as int] as nat));
        }
        if i > 0 {
            push_char(out, '\n');
        }
        push_str(out, "- ");
        let key = string_of(&t.keys[i], 0, t.keys[i].len());
        assert(t.keys@[i as int]@.subrange(0, t.keys@[i as int]@.len() as int) =~= t.keys@[i as int]@);
        push_str(out, key.as_str());
        push_str(out, ": ");
        push_decimal(out, t.counts[i] as u64);
        proof {
            if i == 0 {
                assert(lines.take(1) =~= seq![lines[0]]);
            }
            assert(out@ =~= start + joined(lines.take(i + 1)));
        }
        i = i + 1;
    }
    assert(lines.take(lines.len() as int) =~= lines);
}

/// Pushes lines joined with newlines; returns whether there was any.
fn push_symbol_lines(out: &mut String, symbols: &Vec<Symbol>)
    ensures
        final(out)@ == old(out)@ + joined(symbols@.map_values(|s: Symbol| symbol_line(s))),
{
    let ghost lines = symbols@.map_values(|s: Symbol| symbol_line(s));
    let ghost start = out@;
    let mut i: usize = 0;
    proof {
        assert(lines.take(0) =~= Seq::<Seq<char>>::empty());
    }
    while i < symbols.len()
        invariant
            i <= symbols@.len(),
            lines == symbols@.map_values(|s: Symbol| symbol_line(s)),
            out@ == start + joined(lines.take(i as int)),
        decreases symbols@.len() - i,
    {
        proof {
            assert(lines.take(i + 1).drop_last() =~= lines.take(i as int));
        }
        let s = &symbols[i];
        if i > 0 {
            push_char(out, '\n');
        }
        push_str(out, "- ");
        push_str(out, s.name.as_str());
        push_str(out, " (");
        push_str(out, s.kind.name());
        push_str(out, ") in ");
        push_str(out, s.file_path.as_str());
        proof {
            if i == 0 {
                assert(lines.take(1) =~= seq![lines[0]]);
            }
            assert(out@ =~= start + joined(lines.take(i + 1)));
        }
        i = i + 1;
    }
    assert(lines.take(lines.len() as int) =~= lines);
}

fn warning_lines(warnings: &Vec<IndexWarning>) -> (r: String)
    ensures
        r@ == joined(warnings@.map_values(|w: IndexWarning| warning_line(w))),
{
    let ghost lines = warnings@.map_values(|w: IndexWarning| warning_line(w));
    let mut out = String::new();
    let mut i: usize = 0;
    proof {
        assert(lines.take(0) =~= Seq::<Seq<char>>::empty());
    }
    while i < warnings.len()
        invariant
            i <= warnings@.len(),
            lines == warnings@.map_values(|w: IndexWarning| warning_line(w)),
            out@ == joined(lines.take(i as int)),
        decreases warnings@.len() - i,
    {
        proof {
            assert(lines.take(i + 1).drop_last() =~= lines.take(i as int));
        }
        let w = &warnings[i];
        if i > 0 {
            push_char(&mut out, '\n');
        }
        push_str(&mut out, "- ");
        push_str(&mut out, w.file_path.as_str());
        push_str(&mut out, " [");
        push_str(&mut out, w.stage.as_str());
        push_str(&mut out, "] ");
        push_str(&mut out, w.message.as_str());
        proof {
            if i == 0 {
                assert(lines.take(1) =~= seq![lines[0]]);
            }
            assert(out@ =~= joined(lines.take(i + 1)));
        }
        i = i + 1;
    }
    assert(lines.take(lines.len() as int) =~= lines);
    out
}

fn file_tallies(files: &Vec<CodeFile>) -> (r: (TallyVec, TallyVec))
    ensures
        r.0.keys@.len() == r.0.counts@.len(),
        r.1.keys@.len() == r.1.counts@.len(),
        tally_of(r.0) == tally(language_keys(files@)),
        tally_of(r.1) == tally(directory_keys(files@)),
{
    let mut langs = tally_new();
    let mut dirs = tally_new();
    let ghost lk = language_keys(files@);
    let ghost dk = directory_keys(files@);
    let mut i: usize = 0;
    proof {
        assert(lk.take(0) =~= Seq::<Seq<char>>::empty());
        assert(dk.take(0) =~= Seq::<Seq<char>>::empty());
    }
    while i < files.len()
        invariant
            i <= files@.len(),
            lk == language_keys(files@),
            dk == directory_keys(files@),
            langs.keys@.len() == langs.counts@.len(),
            dirs.keys@.len() == dirs.counts@.len(),
            tally_of(langs) == tally(lk.take(i as int)),
            tally_of(dirs) == tally(dk.take(i as int)),
            forall|q: int| 0 <= q < langs.counts@.len() ==> #[trigger] langs.counts@[q] <= i,
            forall|q: int| 0 <= q < dirs.counts@.len() ==> #[trigger] dirs.counts@[q] <= i,
        decreases files@.len() - i,
    {
        let f = &files[i];
        proof {
            assert(lk.take(i + 1).drop_last() =~= lk.take(i as int));
            assert(dk.take(i + 1).drop_last() =~= dk.take(i as int));
            assert(lk.take(i + 1).last() == language_name(f.language));
            assert(dk.take(i + 1).last() == directory_key(f.relative_path@));
        }
        tally_push(&mut langs, chars_of(f.language.as_str()), Ghost(i as nat));
        let p = parent_of(&chars_of(f.relative_path.as_str()));
        let d = if p.len() == 0 {
            let mut v = Vec::new();
            v.push('.');
            v
        } else {
            p
        };
        assert(d@ == directory_key(f.relative_path@));
        tally_push(&mut dirs, d, Ghost(i as nat));
        i = i + 1;
    }
    assert(lk.take(lk.len() as int) =~= lk);
    assert(dk.take(dk.len() as int) =~= dk);
    (langs, dirs)
}

fn import_tally(edges: &Vec<GraphEdge>) -> (r: TallyVec)
    ensures
        r.keys@.len() == r.counts@.len(),
        tally_of(r) == tally(import_details(edges@)),
{
    let mut t = tally_new();
    let ghost pred = |e: GraphEdge| e.kind == EdgeKind::Imports;
    let ghost view = |e: GraphEdge| e.evidence.detail@;
    let mut i: usize = 0;
    proof {
        assert(edges@.take(0).filter(pred).map_values(view) =~= Seq::<Seq<char>>::empty());
    }
    while i < edges.len()
        invariant
            i <= edges@.len(),
            pred == (|e: GraphEdge| e.kind == EdgeKind::Imports),
            view == (|e: GraphEdge| e.evidence.detail@),
            t.keys@.len() == t.counts@.len(),
            tally_of(t) == tally(edges@.take(i as int).filter(pred).map_values(view)),
            forall|q: int| 0 <= q < t.counts@.len() ==> #[trigger] t.counts@[q] <= i,
        decreases edges@.len() - i,
    {
        let e = &edges[i];
        proof {
            assert(edges@.take(i + 1).drop_last() =~= edges@.take(i as int));
            assert(edges@.take(i + 1).last() == *e);
            reveal_with_fuel(Seq::<_>::filter, 1);
        }
        if e.kind == EdgeKind::Imports {
            let k = chars_of(e.evidence.detail.as_str());
            tally_push(&mut t, k, Ghost(i as nat));
            proof {
                let prev = edges@.take(i as int).filter(pred);
                assert(edges@.take(i + 1).filter(pred) == prev.push(*e));
                assert(prev.push(*e).map_values(view) =~= prev.map_values(view).push(e.evidence.detail@));
                assert(prev.map_values(view).push(e.evidence.detail@).drop_last() =~= prev.map_values(view));
            }
        } else {
            proof {
                assert(edges@.take(i + 1).filter(pred) == edges@.take(i as int).filter(pred));
            }
            assert forall|q: int| 0 <= q < t.counts@.len() implies #[trigger] t.counts@[q] <= i + 1 by {}
        }
        i = i + 1;
    }
    assert(edges@.take(edges@.len() as int) =~= edges@);
    t
}

/// The repository map of an index, as Markdown (see `repo_map`).
pub fn render_repo_map(index: &RepoIndex) -> (r: String)
    ensures
        r@ == repo_map(*index),
{
    let (langs, dirs) = file_tallies(&index.files);
    let imports = import_tally(&index.edges);
    let mut out = owned("# Repo Map\n\n- Repo path: ");
    push_str(&mut out, index.repo_root.as_str());
    push_str(&mut out, "\n- Indexed at: ");
    push_str(&mut out, index.indexed_at.as_str());
    push_str(&mut out, "\n- File count: ");
    push_decimal(&mut out, index.files.len() as u64);
    push_str(&mut out, "\n\n## Language summary\n");
    push_tally_lines(&mut out, &langs);
    push_str(&mut out, "\n\n## Directory summary\n");
    push_tally_lines(&mut out, &dirs);
    push_str(&mut out, "\n\n## Symbol summary\n");
    push_symbol_lines(&mut out, &index.symbols);
    push_str(&mut out, "\n\n## Imports summary\n");
    let mut imp = String::new();
    push_tally_lines(&mut imp, &imports);
    if imp.unicode_len() == 0 {
        push_str(&mut out, "- none");
    } else {
        push_str(&mut out, imp.as_str());
    }
    push_str(&mut out, "\n\n## Warnings\n");
    let w = warning_lines(&index.warnings);
    if w.unicode_len() == 0 {
        push_str(&mut out, "- none");
    } else {
        push_str(&mut out, w.as_str());
    }
    push_str(&mut out, "\n");
    out
}

/// Where an export is written.
#[derive(Debug, Clone)]
pub struct ExportPaths {
    pub output_dir: String,
    pub graph_json: String,
    pub symbols_json: String,
    pub repo_map_md: String,
    pub warnings_json: String,
}

fn joined_path(base: &String, rel: &str) -> (r: String)
    ensures
        r@ == join(base@, rel@),
{
    let mut r = base.clone();
    join_to(&mut r, rel);
    r
}

/// The files of an export: `exports` under the output directory, under the root.
pub fn export_paths(root: &str, config: &RepoScryerConfig) -> (r: ExportPaths)
    ensures
        r.output_dir@ == join(join(root@, config.output_dir@), "exports"@),
        r.graph_json@ == join(r.output_dir@, "graph.json"@),
        r.symbols_json@ == join(r.output_dir@, "symbols.json"@),
        r.repo_map_md@ == join(r.output_dir@, "repo-map.md"@),
        r.warnings_json@ == join(r.output_dir@, "warnings.json"@),
{
    let mut output_dir = owned(root);
    join_to(&mut output_dir, config.output_dir.as_str());
    join_to(&mut output_dir, "exports");
    let graph_json = joined_path(&output_dir, "graph.json");
    let symbols_json = joined_path(&output_dir, "symbols.json");
    let repo_map_md = joined_path(&output_dir, "repo-map.md");
    let warnings_json = joined_path(&output_dir, "warnings.json");
    ExportPaths { output_dir, graph_json, symbols_json, repo_map_md, warnings_json }
}

/// Each file is counted under its own directory: a file `d/n` directly below a
/// directory `d` (which does not end in a separator or a `.` piece) under `d`, and a
/// file at the top of the repository under `.`.
pub proof fn law_directory_key(d: Seq<char>, n: Seq<char>)
    requires
        forall|i: int| 0 <= i < n.len() ==> n[i] != '/',
    ensures
        directory_key(n) == seq!['.'],
        d.len() > 0 && d.last() != '/' && !(d.len() >= 2 && d.last() == '.' && d[d.len() - 2] == '/')
            && n.len() > 0 && n != seq!['.'] ==> directory_key(d + seq!['/'] + n) == d,
{
    crate::paths::lemma_parent_of_child(d, n);
}

} // verus!
