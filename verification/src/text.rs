use vstd::prelude::*;

verus! {

broadcast use vstd::string::group_string_axioms;

/// The Unicode `White_Space` property: the set that `char::is_whitespace`,
/// `str::trim` and the `\s` class of a pattern all use.
pub open spec fn is_ws(c: char) -> bool {
    let u = c as u32;
    (0x09 <= u && u <= 0x0d) || u == 0x20 || u == 0x85 || u == 0xa0 || u == 0x1680
        || (0x2000 <= u && u <= 0x200a) || u == 0x2028 || u == 0x2029 || u == 0x202f
        || u == 0x205f || u == 0x3000
}

pub fn char_is_ws(c: char) -> (r: bool)
    ensures
        r == is_ws(c),
{
    let u = c as u32;
    (0x09 <= u && u <= 0x0d) || u == 0x20 || u == 0x85 || u == 0xa0 || u == 0x1680
        || (0x2000 <= u && u <= 0x200a) || u == 0x2028 || u == 0x2029 || u == 0x202f
        || u == 0x205f || u == 0x3000
}

/// The characters of a string, in order.
pub fn chars_of(s: &str) -> (v: Vec<char>)
    ensures
        v@ == s@,
{
    let mut v: Vec<char> = Vec::new();
    for c in it: s.chars()
        invariant
            v@ == it.seq().take(it.index() as int),
    {
        v.push(c);
    }
    v
}


/// Calls `String::push`, which vstd does not specify. The contract claims what std
/// documents: the string afterwards holds its former characters followed by `c`.
#[verifier::external_body]
pub(crate) fn push_char(s: &mut String, c: char)
    ensures
        final(s)@ == old(s)@.push(c),
{
    s.push(c);
}

/// Appends the characters `cs[lo..hi]` to `out`.
pub fn push_chars(out: &mut String, cs: &Vec<char>, lo: usize, hi: usize)
    requires
        lo <= hi <= cs@.len(),
    ensures
        final(out)@ == old(out)@ + cs@.subrange(lo as int, hi as int),
{
    let mut i = lo;
    while i < hi
        invariant
            lo <= i <= hi <= cs@.len(),
            out@ == old(out)@ + cs@.subrange(lo as int, i as int),
        decreases hi - i,
    {
        push_char(out, cs[i]);
        assert(cs@.subrange(lo as int, i + 1) == cs@.subrange(lo as int, i as int).push(cs@[i as int]));
        i = i + 1;
    }
}

/// A new string holding `cs[lo..hi]`.
pub fn string_of(cs: &Vec<char>, lo: usize, hi: usize) -> (r: String)
    requires
        lo <= hi <= cs@.len(),
    ensures
        r@ == cs@.subrange(lo as int, hi as int),
{
    let mut r = String::new();
    push_chars(&mut r, cs, lo, hi);
    r
}

/// Appends a string slice.
pub fn push_str(out: &mut String, s: &str)
    ensures
        final(out)@ == old(out)@ + s@,
{
    out.append(s);
}

/// A new string with the same characters as `s`.
pub fn owned(s: &str) -> (r: String)
    ensures
        r@ == s@,
{
    String::from_str(s)
}

/// The ASCII digit for `d < 10`.
pub open spec fn digit_char(d: nat) -> char {
    if d == 0 { '0' } else if d == 1 { '1' } else if d == 2 { '2' } else if d == 3 { '3' }
    else if d == 4 { '4' } else if d == 5 { '5' } else if d == 6 { '6' } else if d == 7 { '7' }
    else if d == 8 { '8' } else { '9' }
}

/// The decimal notation of a natural number, as `{}` formats an unsigned integer.
pub open spec fn decimal(n: nat) -> Seq<char>
    decreases n,
{
    if n < 10 {
        seq![digit_char(n)]
    } else {
        decimal(n / 10).push(digit_char(n % 10))
    }
}

fn digit_of(d: u64) -> (c: char)
    requires
        d < 10,
    ensures
        c == digit_char(d as nat),
{
    if d == 0 { '0' } else if d == 1 { '1' } else if d == 2 { '2' } else if d == 3 { '3' }
    else if d == 4 { '4' } else if d == 5 { '5' } else if d == 6 { '6' } else if d == 7 { '7' }
    else if d == 8 { '8' } else { '9' }
}

/// Appends the decimal notation of `n`.
pub fn push_decimal(out: &mut String, n: u64)
    ensures
        final(out)@ == old(out)@ + decimal(n as nat),
    decreases n,
{
    if n >= 10 {
        push_decimal(out, n / 10);
    }
    push_char(out, digit_of(n % 10));
    assert(out@ == old(out)@ + decimal(n as nat)) by {
        if n >= 10 {
            assert(decimal(n as nat) == decimal((n / 10) as nat).push(digit_char((n % 10) as nat)));
        }
    }
}

/// The decimal notation of `n`, as `n.to_string()` gives it.
pub fn decimal_string(n: u64) -> (r: String)
    ensures
        r@ == decimal(n as nat),
{
    let mut r = String::new();
    push_decimal(&mut r, n);
    r
}


/// The end of the line that starts at `i`: the first `'\n'` at or after `i`, or the end.
pub open spec fn line_end(s: Seq<char>, i: int) -> int
    decreases s.len() - i,
{
    if i >= s.len() {
        s.len() as int
    } else if s[i] == '\n' {
        i
    } else {
        line_end(s, i + 1)
    }
}

/// A line without its terminator: a `'\r'` before the `'\n'` goes too.
pub open spec fn strip_cr(l: Seq<char>) -> Seq<char> {
    if l.len() > 0 && l.last() == '\r' { l.drop_last() } else { l }
}

/// The lines of a text, as `str::lines` yields them: split at `'\n'`, a `'\r'` just
/// before a `'\n'` dropped, no empty last line after a final `'\n'`.
pub open spec fn lines(s: Seq<char>) -> Seq<Seq<char>>
    decreases s.len(),
{
    if s.len() == 0 {
        seq![]
    } else {
        let e = line_end(s, 0);
        proof {
            lemma_line_end_bounds(s, 0);
        }
        if e >= s.len() {
            seq![s]
        } else {
            seq![strip_cr(s.subrange(0, e))] + lines(s.subrange(e + 1, s.len() as int))
        }
    }
}

pub proof fn lemma_line_end_bounds(s: Seq<char>, i: int)
    requires
        0 <= i <= s.len(),
    ensures
        i <= line_end(s, i) <= s.len(),
        line_end(s, i) < s.len() ==> s[line_end(s, i)] == '\n',
        forall|k: int| i <= k < line_end(s, i) ==> s[k] != '\n',
    decreases s.len() - i,
{
    if i < s.len() && s[i] != '\n' {
        lemma_line_end_bounds(s, i + 1);
    }
}

proof fn lemma_line_end_shift(s: Seq<char>, lo: int, i: int)
    requires
        0 <= lo <= i <= s.len(),
    ensures
        line_end(s.subrange(lo, s.len() as int), i - lo) == line_end(s, i) - lo,
    decreases s.len() - i,
{
    if i < s.len() && s[i] != '\n' {
        lemma_line_end_shift(s, lo, i + 1);
    }
}

/// The lines of `s`, each as its own character vector.
pub fn split_lines(s: &Vec<char>) -> (r: Vec<Vec<char>>)
    ensures
        r@.len() == lines(s@).len(),
        forall|k: int| 0 <= k < r@.len() ==> #[trigger] r@[k]@ == lines(s@)[k],
{
    let mut r: Vec<Vec<char>> = Vec::new();
    let mut pos: usize = 0;
    let n = s.len();
    let ghost full = lines(s@);
    assert(s@.subrange(0, n as int) =~= s@);
    while pos < n
        invariant
            n == s@.len(),
            pos <= n,
            full == lines(s@),
            r@.len() + lines(s@.subrange(pos as int, n as int)).len() == full.len(),
            forall|k: int| 0 <= k < r@.len() ==> #[trigger] r@[k]@ == full[k],
            forall|k: int| 0 <= k < lines(s@.subrange(pos as int, n as int)).len()
                ==> #[trigger] lines(s@.subrange(pos as int, n as int))[k] == full[r@.len() + k],
        decreases n - pos,
    {
        let ghost rest = s@.subrange(pos as int, n as int);
        let mut e = pos;
        while e < n && s[e] != '\n'
            invariant
                pos <= e <= n,
                n == s@.len(),
                forall|k: int| pos <= k < e ==> s@[k] != '\n',
            decreases n - e,
        {
            e = e + 1;
        }
        proof {
            lemma_line_end_bounds(s@, pos as int);
            lemma_line_end_shift(s@, pos as int, pos as int);
            if (line_end(s@, pos as int) < e) {
                assert(s@[line_end(s@, pos as int)] == '\n');
            }
            if (e < line_end(s@, pos as int)) {
                assert(s@[e as int] == '\n');
            }
            assert(e == line_end(s@, pos as int));
            assert(line_end(rest, 0) == e - pos);
        }
        if e == n {
            let line = vec_slice(s, pos, n);
            proof {
                assert(lines(rest) == seq![rest]);
                assert(lines(rest)[0] == line@);
                assert(full[r@.len() as int] == line@);
            }
            r.push(line);
            pos = n;
            proof {
                assert(lines(s@.subrange(pos as int, n as int)) =~= Seq::<Seq<char>>::empty());
                assert(r@[r@.len() - 1]@ == full[r@.len() - 1]);
            }
        } else {
            let hi = if e > pos && s[e - 1] == '\r' { e - 1 } else { e };
            let line = vec_slice(s, pos, hi);
            proof {
                assert(rest.subrange(0, e - pos) == s@.subrange(pos as int, e as int));
                assert(lines(rest) == seq![strip_cr(s@.subrange(pos as int, e as int))]
                    + lines(rest.subrange(e - pos + 1, rest.len() as int)));
                assert(rest.subrange(e - pos + 1, rest.len() as int) == s@.subrange(e + 1, n as int));
                assert(line@ == strip_cr(s@.subrange(pos as int, e as int))) by {
                    if e > pos && s@[e - 1] == '\r' {
                        assert(s@.subrange(pos as int, e as int).drop_last() =~= s@.subrange(pos as int, e - 1));
                    }
                }
                let nxt = lines(s@.subrange(e + 1, n as int));
                assert forall|k: int| 0 <= k < nxt.len() implies #[trigger] nxt[k] == full[r@.len() + 1 + k] by {
                    assert(lines(rest)[k + 1] == nxt[k]);
                }
                assert(lines(rest)[0] == line@);
            }
            r.push(line);
            pos = e + 1;
        }
    }
    proof {
        assert(lines(s@.subrange(pos as int, n as int)) =~= Seq::<Seq<char>>::empty());
    }
    r
}

/// A copy of `s[lo..hi]`.
pub fn vec_slice(s: &Vec<char>, lo: usize, hi: usize) -> (r: Vec<char>)
    requires
        lo <= hi <= s@.len(),
    ensures
        r@ == s@.subrange(lo as int, hi as int),
{
    let mut r: Vec<char> = Vec::new();
    let mut i = lo;
    while i < hi
        invariant
            lo <= i <= hi <= s@.len(),
            r@ == s@.subrange(lo as int, i as int),
        decreases hi - i,
    {
        r.push(s[i]);
        assert(s@.subrange(lo as int, i + 1) == s@.subrange(lo as int, i as int).push(s@[i as int]));
        i = i + 1;
    }
    r
}


/// The number of leading characters of `s` that satisfy `p`.
pub open spec fn lead_count(s: Seq<char>, p: spec_fn(char) -> bool) -> nat
    decreases s.len(),
{
    if s.len() == 0 {
        0
    } else if p(s[0]) {
        1 + lead_count(s.drop_first(), p)
    } else {
        0
    }
}

/// The number of trailing characters of `s` that satisfy `p`.
pub open spec fn trail_count(s: Seq<char>, p: spec_fn(char) -> bool) -> nat
    decreases s.len(),
{
    if s.len() == 0 {
        0
    } else if p(s.last()) {
        1 + trail_count(s.drop_last(), p)
    } else {
        0
    }
}

pub proof fn lemma_lead_count(s: Seq<char>, p: spec_fn(char) -> bool)
    ensures
        lead_count(s, p) <= s.len(),
        forall|k: int| 0 <= k < lead_count(s, p) ==> p(s[k]),
        lead_count(s, p) < s.len() ==> !p(s[lead_count(s, p) as int]),
    decreases s.len(),
{
    if s.len() > 0 && p(s[0]) {
        lemma_lead_count(s.drop_first(), p);
        assert forall|k: int| 0 <= k < lead_count(s, p) implies p(s[k]) by {
            if k > 0 {
                assert(s[k] == s.drop_first()[k - 1]);
            }
        }
    }
}

pub proof fn lemma_trail_count(s: Seq<char>, p: spec_fn(char) -> bool)
    ensures
        trail_count(s, p) <= s.len(),
        forall|k: int| s.len() - trail_count(s, p) <= k < s.len() ==> p(s[k]),
        trail_count(s, p) < s.len() ==> !p(s[s.len() - 1 - trail_count(s, p)]),
    decreases s.len(),
{
    if s.len() > 0 && p(s.last()) {
        lemma_trail_count(s.drop_last(), p);
        assert forall|k: int| s.len() - trail_count(s, p) <= k < s.len() implies p(s[k]) by {
            if k < s.len() - 1 {
                assert(s[k] == s.drop_last()[k]);
            }
        }
    }
}

/// `s` with the leading and trailing characters that satisfy `p` removed, as
/// `str::trim_matches` gives it.
pub open spec fn trim_by(s: Seq<char>, p: spec_fn(char) -> bool) -> Seq<char> {
    let lo = lead_count(s, p);
    if lo >= s.len() {
        seq![]
    } else {
        s.subrange(lo as int, s.len() - trail_count(s, p))
    }
}

/// The whitespace predicate.
pub open spec fn ws_pred() -> spec_fn(char) -> bool {
    |c: char| is_ws(c)
}

/// `s` without leading and trailing whitespace, as `str::trim` gives it.
pub open spec fn trim(s: Seq<char>) -> Seq<char> {
    trim_by(s, ws_pred())
}

/// The bounds `lo..hi` of `s` with whitespace trimmed from both ends.
pub fn trim_bounds(s: &Vec<char>, lo0: usize, hi0: usize) -> (r: (usize, usize))
    requires
        lo0 <= hi0 <= s@.len(),
    ensures
        lo0 <= r.0 <= r.1 <= hi0,
        s@.subrange(r.0 as int, r.1 as int) == trim(s@.subrange(lo0 as int, hi0 as int)),
{
    let ghost t = s@.subrange(lo0 as int, hi0 as int);
    proof {
        lemma_lead_count(t, ws_pred());
        lemma_trail_count(t, ws_pred());
    }
    let mut lo = lo0;
    while lo < hi0 && char_is_ws(s[lo])
        invariant
            lo0 <= lo <= hi0 <= s@.len(),
            t == s@.subrange(lo0 as int, hi0 as int),
            forall|k: int| lo0 <= k < lo ==> is_ws(s@[k]),
            lead_count(t, ws_pred()) >= lo - lo0,
        decreases hi0 - lo,
    {
        proof {
            lemma_lead_count(t, ws_pred());
            assert(t[lo - lo0] == s@[lo as int]);
            assert(ws_pred()(t[lo - lo0]));
        }
        lo = lo + 1;
    }
    proof {
        if lo < hi0 {
            assert(t[lo - lo0] == s@[lo as int]);
        }
        assert(lead_count(t, ws_pred()) == lo - lo0);
    }
    if lo == hi0 {
        return (hi0, hi0);
    }
    let mut hi = hi0;
    while hi > lo && char_is_ws(s[hi - 1])
        invariant
            lo0 <= lo < hi0,
            lo <= hi <= hi0 <= s@.len(),
            t == s@.subrange(lo0 as int, hi0 as int),
            lead_count(t, ws_pred()) == lo - lo0,
            !is_ws(s@[lo as int]),
            trail_count(t, ws_pred()) >= hi0 - hi,
        decreases hi,
    {
        proof {
            lemma_trail_count(t, ws_pred());
            assert(t[t.len() - 1 - (hi0 - hi)] == s@[hi - 1]);
            assert(ws_pred()(t[t.len() - 1 - (hi0 - hi)]));
        }
        hi = hi - 1;
    }
    proof {
        assert(hi > lo) by {
            if hi == lo {
                assert(!is_ws(s@[lo as int]));
            }
        }
        assert(t[t.len() - 1 - (hi0 - hi)] == s@[hi - 1]);
        assert(trail_count(t, ws_pred()) == hi0 - hi);
        assert(s@.subrange(lo as int, hi as int) =~= t.subrange(lo - lo0, t.len() - (hi0 - hi)));
    }
    (lo, hi)
}

/// `s[i..]` starts with `w`.
pub open spec fn has_at(s: Seq<char>, i: int, w: Seq<char>) -> bool {
    0 <= i && i + w.len() <= s.len() && s.subrange(i, i + w.len()) == w
}

/// Whether `s[i..]` starts with the characters of `w`.
pub fn at(s: &Vec<char>, i: usize, w: &str) -> (r: bool)
    ensures
        r == has_at(s@, i as int, w@),
{
    let wc = chars_of(w);
    if i > s.len() || wc.len() > s.len() - i {
        return false;
    }
    let mut k: usize = 0;
    let n = s.len();
    while k < wc.len()
        invariant
            k <= wc@.len(),
            n == s@.len(),
            wc@ == w@,
            i <= s@.len(),
            wc@.len() <= s@.len() - i,
            forall|q: int| 0 <= q < k ==> s@[i + q] == wc@[q],
        decreases wc@.len() - k,
    {
        assert(i + k < n);
        if s[i + k] != wc[k] {
            proof {
                assert(s@.subrange(i as int, i + w@.len())[k as int] != w@[k as int]);
            }
            return false;
        }
        k = k + 1;
    }
    assert(s@.subrange(i as int, i + w@.len()) =~= w@);
    true
}

/// `s` holds `w` somewhere.
pub open spec fn contains_chars(s: Seq<char>, w: Seq<char>) -> bool {
    exists|i: int| #[trigger] has_at(s, i, w)
}

/// Whether `s` holds the characters of `w` somewhere (`str::contains`).
pub fn contains(s: &Vec<char>, w: &str) -> (r: bool)
    ensures
        r == contains_chars(s@, w@),
{
    let mut i: usize = 0;
    while i < s.len()
        invariant
            i <= s@.len(),
            forall|q: int| 0 <= q < i ==> !has_at(s@, q, w@),
        decreases s@.len() - i,
    {
        if at(s, i, w) {
            return true;
        }
        i = i + 1;
    }
    if at(s, i, w) {
        return true;
    }
    assert forall|q: int| !has_at(s@, q, w@) by {
        if 0 <= q && q + w@.len() <= s@.len() && q != i {
            assert(q < i);
        }
    }
    false
}

} // verus!
