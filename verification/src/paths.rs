use vstd::prelude::*;
use crate::order::{component_rank, components, path_components, rank_of};
use crate::text::{chars_of, push_chars, push_str};

verus! {

/// The index of the last `/` of `p`, or -1.
pub open spec fn last_slash(p: Seq<char>) -> int
    decreases p.len(),
{
    if p.len() == 0 {
        -1
    } else if p.last() == '/' {
        p.len() - 1
    } else {
        last_slash(p.drop_last())
    }
}

pub proof fn lemma_last_slash(p: Seq<char>)
    ensures
        -1 <= last_slash(p) < p.len(),
        last_slash(p) >= 0 ==> p[last_slash(p)] == '/',
        forall|k: int| last_slash(p) < k < p.len() ==> p[k] != '/',
    decreases p.len(),
{
    if p.len() > 0 && p.last() != '/' {
        lemma_last_slash(p.drop_last());
        assert forall|k: int| last_slash(p) < k < p.len() implies p[k] != '/' by {
            if k < p.len() - 1 {
                assert(p[k] == p.drop_last()[k]);
            }
        }
    }
}

/// No `/` occurs in the text.
pub open spec fn slash_free(s: Seq<char>) -> bool {
    forall|i: int| 0 <= i < s.len() ==> s[i] != '/'
}

/// Text without a `/` appended to a path leaves its last `/` where it was.
pub proof fn lemma_last_slash_append(x: Seq<char>, n: Seq<char>)
    requires
        slash_free(n),
    ensures
        last_slash(x + n) == last_slash(x),
    decreases n.len(),
{
    if n.len() == 0 {
        assert(x + n =~= x);
    } else {
        assert((x + n).drop_last() =~= x + n.drop_last());
        assert((x + n).last() == n.last());
        lemma_last_slash_append(x, n.drop_last());
    }
}

/// The parent of `d/n`, for a name `n` (not `.`, no `/`) below a directory `d` that
/// does not end in a separator or a `.` piece, is `d`; a path without `/` has an
/// empty parent.
pub proof fn lemma_parent_of_child(d: Seq<char>, n: Seq<char>)
    requires
        slash_free(n),
    ensures
        parent(n).len() == 0,
        d.len() > 0 && d.last() != '/' && !(d.len() >= 2 && d.last() == '.' && d[d.len() - 2] == '/')
            && n.len() > 0 && n != seq!['.'] ==> parent(d + seq!['/'] + n) == d,
{
    lemma_last_slash_append(seq![], n);
    assert(seq![] + n =~= n);
    if n.len() > 1 {
        assert(n[n.len() - 2] != '/');
    }
    if d.len() > 0 && d.last() != '/' && !(d.len() >= 2 && d.last() == '.' && d[d.len() - 2] == '/') && n.len()
        > 0 && n != seq!['.'] {
        let p = d + seq!['/'] + n;
        assert(p.last() == n.last());
        if n.len() == 1 {
            assert(p[p.len() - 2] == '/');
            assert(n.last() != '.') by {
                if n.last() == '.' {
                    assert(n =~= seq!['.']);
                }
            }
        } else {
            assert(p[p.len() - 2] == n[n.len() - 2]);
        }
        assert(trim_end(p) == p);
        lemma_last_slash_append(d + seq!['/'], n);
        assert((d + seq!['/']).last() == '/');
        assert(last_slash(d + seq!['/']) == d.len());
        assert(last_slash(p) == d.len());
        assert(p.subrange(0, d.len() as int) =~= d);
        assert(p != seq!['/']) by {
            assert(p.len() >= 3);
        }
        if d.len() > 1 {
            assert(trim_end(d) == d);
        }
    }
}

/// `p` without its trailing separators and trailing `.` pieces, down to a lone `/`.
pub open spec fn trim_end(p: Seq<char>) -> Seq<char>
    decreases p.len(),
{
    if p.len() > 1 && p.last() == '/' {
        trim_end(p.drop_last())
    } else if p.len() > 1 && p.last() == '.' && p[p.len() - 2] == '/' {
        trim_end(p.drop_last())
    } else {
        p
    }
}

/// The parent of a path, as `Path::parent` gives it, empty where it gives none:
/// trailing separators and `.` pieces aside, what comes before the last `/` (itself
/// trimmed so); `/` for a child of the root; empty for the root and without a `/`.
pub open spec fn parent(p: Seq<char>) -> Seq<char> {
    let t = trim_end(p);
    let i = last_slash(t);
    if t == seq!['/'] || i < 0 {
        seq![]
    } else if i == 0 {
        seq!['/']
    } else {
        trim_end(t.subrange(0, i))
    }
}

/// `base` joined with a relative path, as `Path::join` does it.
pub open spec fn join(base: Seq<char>, rel: Seq<char>) -> Seq<char> {
    if base.len() == 0 {
        rel
    } else if base.last() == '/' {
        base + rel
    } else {
        base + seq!['/'] + rel
    }
}

/// The file name of a path: its last component, where that is a named part (not the
/// root, `.` or `..`).
pub open spec fn file_name(p: Seq<char>) -> Option<Seq<char>> {
    let c = components(p);
    if c.len() == 0 || component_rank(c.last()) != 3 {
        None
    } else {
        Some(c.last())
    }
}

/// The index of the last `.` of a name, or -1.
pub open spec fn last_dot(p: Seq<char>) -> int
    decreases p.len(),
{
    if p.len() == 0 {
        -1
    } else if p.last() == '.' {
        p.len() - 1
    } else {
        last_dot(p.drop_last())
    }
}

pub proof fn lemma_last_dot(p: Seq<char>)
    ensures
        -1 <= last_dot(p) < p.len(),
        last_dot(p) >= 0 ==> p[last_dot(p)] == '.',
        forall|k: int| last_dot(p) < k < p.len() ==> p[k] != '.',
    decreases p.len(),
{
    if p.len() > 0 && p.last() != '.' {
        lemma_last_dot(p.drop_last());
        assert forall|k: int| last_dot(p) < k < p.len() implies p[k] != '.' by {
            if k < p.len() - 1 {
                assert(p[k] == p.drop_last()[k]);
            }
        }
    }
}

/// The stem of a file name: before its last `.`, unless that `.` starts the name.
pub open spec fn name_stem(name: Seq<char>) -> Seq<char> {
    let d = last_dot(name);
    if d <= 0 {
        name
    } else {
        name.subrange(0, d)
    }
}

/// The extension of a file name: after its last `.`, unless that `.` starts the name.
pub open spec fn name_extension(name: Seq<char>) -> Option<Seq<char>> {
    let d = last_dot(name);
    if d <= 0 {
        None
    } else {
        Some(name.subrange(d + 1, name.len() as int))
    }
}

/// The stem of a path's file name (`Path::file_stem`), empty where there is none.
pub open spec fn file_stem_or_empty(p: Seq<char>) -> Seq<char> {
    match file_name(p) {
        Some(n) => name_stem(n),
        None => seq![],
    }
}

/// The extension of a path's file name (`Path::extension`).
pub open spec fn extension(p: Seq<char>) -> Option<Seq<char>> {
    match file_name(p) {
        Some(n) => name_extension(n),
        None => None,
    }
}

/// A path with each `\` replaced by `/`.
pub open spec fn path_key(p: Seq<char>) -> Seq<char> {
    p.map_values(|c: char| if c == '\\' { '/' } else { c })
}

/// The length of `trim_end` of the first `n` characters of `p`.
fn trim_end_len(p: &Vec<char>, n: usize) -> (m: usize)
    requires
        n <= p@.len(),
    ensures
        m <= n,
        trim_end(p@.take(n as int)) == p@.take(m as int),
{
    let mut m = n;
    loop
        invariant
            m <= n <= p@.len(),
            trim_end(p@.take(n as int)) == trim_end(p@.take(m as int)),
        decreases m,
    {
        proof {
            if m > 0 {
                assert(p@.take(m as int).drop_last() == p@.take(m - 1));
                assert(p@.take(m as int).last() == p@[m - 1]);
            }
            if m > 1 {
                assert(p@.take(m as int)[m - 2] == p@[m - 2]);
            }
        }
        if m > 1 && p[m - 1] == '/' {
            m = m - 1;
        } else if m > 1 && p[m - 1] == '.' && p[m - 2] == '/' {
            m = m - 1;
        } else {
            return m;
        }
    }
}

/// The parent of a path.
pub fn parent_of(p: &Vec<char>) -> (r: Vec<char>)
    ensures
        r@ == parent(p@),
{
    let m = trim_end_len(p, p.len());
    assert(p@.take(p@.len() as int) == p@);
    let ghost t = p@.take(m as int);
    if m == 1 && p[0] == '/' {
        assert(t =~= seq!['/']);
        return Vec::new();
    }
    assert(t != seq!['/']) by {
        if t == seq!['/'] {
            assert(t.len() == 1 && t[0] == '/');
        }
    }
    let mut i = m;
    assert(t.take(i as int) == t);
    while i > 0 && p[i - 1] != '/'
        invariant
            i <= m <= p@.len(),
            t == p@.take(m as int),
            last_slash(t) == last_slash(t.take(i as int)),
        decreases i,
    {
        proof {
            assert(t.take(i as int).drop_last() == t.take(i - 1));
            assert(t.take(i as int).last() == p@[i - 1]);
        }
        i = i - 1;
    }
    proof {
        if i > 0 {
            assert(t.take(i as int).last() == '/');
            assert(t.take(i as int).last() == t[i - 1]);
        }
    }
    if i == 0 {
        Vec::new()
    } else if i == 1 {
        let mut r = Vec::new();
        r.push('/');
        r
    } else {
        let k = trim_end_len(p, i - 1);
        assert(t.subrange(0, i - 1) == p@.take(i - 1));
        crate::text::vec_slice(p, 0, k)
    }
}

/// Appends `rel` to `base`, as `Path::join` does for a relative path.
pub fn join_to(base: &mut String, rel: &str)
    ensures
        final(base)@ == join(old(base)@, rel@),
{
    let b = chars_of(base.as_str());
    if b.len() == 0 {
    } else if b[b.len() - 1] == '/' {
    } else {
        crate::text::push_char(base, '/');
    }
    push_str(base, rel);
}

/// The file name of a path.
pub fn file_name_of(p: &Vec<char>) -> (r: Option<Vec<char>>)
    ensures
        match r {
            Some(n) => file_name(p@) == Some(n@),
            None => file_name(p@) is None,
        },
{
    let comps = path_components(p);
    let n = comps.len();
    if n == 0 {
        return None;
    }
    let last = &comps[n - 1];
    assert(components(p@).last() == last@);
    if rank_of(last) != 3 {
        None
    } else {
        Some(crate::text::vec_slice(last, 0, last.len()))
    }
}

fn last_dot_of(name: &Vec<char>) -> (r: usize)
    ensures
        r <= name@.len(),
        r == last_dot(name@) + 1,
{
    let mut i = name.len();
    assert(name@.take(i as int) == name@);
    while i > 0 && name[i - 1] != '.'
        invariant
            i <= name@.len(),
            last_dot(name@) == last_dot(name@.take(i as int)),
        decreases i,
    {
        proof {
            assert(name@.take(i as int).drop_last() == name@.take(i - 1));
        }
        i = i - 1;
    }
    proof {
        if i > 0 {
            assert(name@.take(i as int).last() == '.');
        }
    }
    i
}

/// The stem of a path's file name, empty where there is none.
pub fn file_stem_of(p: &Vec<char>) -> (r: Vec<char>)
    ensures
        r@ == file_stem_or_empty(p@),
{
    match file_name_of(p) {
        None => Vec::new(),
        Some(n) => {
            let d = last_dot_of(&n);
            if d <= 1 {
                n
            } else {
                crate::text::vec_slice(&n, 0, d - 1)
            }
        },
    }
}

/// The extension of a path's file name.
pub fn extension_of(p: &Vec<char>) -> (r: Option<Vec<char>>)
    ensures
        match r {
            Some(e) => extension(p@) == Some(e@),
            None => extension(p@) is None,
        },
{
    match file_name_of(p) {
        None => None,
        Some(n) => {
            let d = last_dot_of(&n);
            if d <= 1 {
                None
            } else {
                Some(crate::text::vec_slice(&n, d, n.len()))
            }
        },
    }
}

/// `p` with each `\` replaced by `/`.
pub fn path_key_of(p: &str) -> (r: String)
    ensures
        r@ == path_key(p@),
{
    let cs = chars_of(p);
    let mut r = String::new();
    let mut i: usize = 0;
    while i < cs.len()
        invariant
            i <= cs@.len(),
            cs@ == p@,
            r@ == path_key(cs@.take(i as int)),
        decreases cs@.len() - i,
    {
        let c = cs[i];
        crate::text::push_char(&mut r, if c == '\\' { '/' } else { c });
        assert(path_key(cs@.take(i + 1)) =~= path_key(cs@.take(i as int)).push(
            if c == '\\' { '/' } else { c },
        ));
        i = i + 1;
    }
    assert(cs@.take(cs@.len() as int) == cs@);
    r
}

} // verus!
