use vstd::prelude::*;

verus! {

/// Strict lexicographic order of character sequences by code point, the order of
/// `str` comparison.
pub open spec fn chars_lt(a: Seq<char>, b: Seq<char>) -> bool
    decreases a.len(),
{
    if a.len() == 0 {
        b.len() > 0
    } else if b.len() == 0 {
        false
    } else if a[0] != b[0] {
        (a[0] as u32) < (b[0] as u32)
    } else {
        chars_lt(a.drop_first(), b.drop_first())
    }
}

/// No sequence comes before itself.
pub proof fn lemma_chars_lt_irreflexive(a: Seq<char>)
    ensures
        !chars_lt(a, a),
    decreases a.len(),
{
    if a.len() > 0 {
        lemma_chars_lt_irreflexive(a.drop_first());
    }
}

/// Code point order is transitive.
pub proof fn lemma_chars_lt_transitive(a: Seq<char>, b: Seq<char>, c: Seq<char>)
    requires
        chars_lt(a, b),
        chars_lt(b, c),
    ensures
        chars_lt(a, c),
    decreases a.len(),
{
    if a.len() > 0 && b.len() > 0 && c.len() > 0 && a[0] == b[0] && b[0] == c[0] {
        lemma_chars_lt_transitive(a.drop_first(), b.drop_first(), c.drop_first());
    }
}

/// Of two distinct sequences one comes first.
pub proof fn lemma_chars_lt_total(a: Seq<char>, b: Seq<char>)
    ensures
        a == b || chars_lt(a, b) || chars_lt(b, a),
    decreases a.len(),
{
    if a.len() > 0 && b.len() > 0 {
        if a[0] == b[0] {
            lemma_chars_lt_total(a.drop_first(), b.drop_first());
            if a.drop_first() == b.drop_first() {
                assert(a =~= seq![a[0]] + a.drop_first());
                assert(b =~= seq![b[0]] + b.drop_first());
            }
        } else {
            if (a[0] as u32) == (b[0] as u32) {
                vstd::utf8::char_u32_cast(a[0], a[0] as u32);
                vstd::utf8::char_u32_cast(b[0], b[0] as u32);
            }
        }
    } else if a.len() == 0 && b.len() == 0 {
        assert(a =~= b);
    }
}

/// `a < b` in code point order.
pub fn chars_less(a: &Vec<char>, b: &Vec<char>) -> (r: bool)
    ensures
        r == chars_lt(a@, b@),
{
    let mut i: usize = 0;
    assert(a@.skip(0) == a@);
    assert(b@.skip(0) == b@);
    while i < a.len() && i < b.len() && a[i] == b[i]
        invariant
            i <= a@.len(),
            i <= b@.len(),
            a@.take(i as int) == b@.take(i as int),
            chars_lt(a@, b@) == chars_lt(a@.skip(i as int), b@.skip(i as int)),
        decreases a@.len() - i,
    {
        proof {
            assert(a@.skip(i as int).drop_first() == a@.skip(i + 1));
            assert(b@.skip(i as int).drop_first() == b@.skip(i + 1));
            assert(a@.take(i + 1) == a@.take(i as int).push(a@[i as int]));
            assert(b@.take(i + 1) == b@.take(i as int).push(b@[i as int]));
        }
        i = i + 1;
    }
    if i == a.len() {
        i < b.len()
    } else if i == b.len() {
        false
    } else {
        (a[i] as u32) < (b[i] as u32)
    }
}

/// The end of the piece that starts at `i`: the first `sep` at or after `i`, or the end.
pub open spec fn piece_end(s: Seq<char>, sep: char, i: int) -> int
    decreases s.len() - i,
{
    if i >= s.len() {
        s.len() as int
    } else if s[i] == sep {
        i
    } else {
        piece_end(s, sep, i + 1)
    }
}

pub proof fn lemma_piece_end(s: Seq<char>, sep: char, i: int)
    requires
        0 <= i <= s.len(),
    ensures
        i <= piece_end(s, sep, i) <= s.len(),
        piece_end(s, sep, i) < s.len() ==> s[piece_end(s, sep, i)] == sep,
        forall|k: int| i <= k < piece_end(s, sep, i) ==> s[k] != sep,
    decreases s.len() - i,
{
    if i < s.len() && s[i] != sep {
        lemma_piece_end(s, sep, i + 1);
    }
}

/// The pieces of `s` between occurrences of `sep`, as `str::split` yields them.
pub open spec fn split_on(s: Seq<char>, sep: char) -> Seq<Seq<char>>
    decreases s.len(),
{
    let e = piece_end(s, sep, 0);
    proof {
        lemma_piece_end(s, sep, 0);
    }
    if e >= s.len() {
        seq![s]
    } else {
        seq![s.subrange(0, e)] + split_on(s.subrange(e + 1, s.len() as int), sep)
    }
}

/// The pieces of `s` between occurrences of `sep`.
pub fn split_chars(s: &Vec<char>, sep: char) -> (r: Vec<Vec<char>>)
    ensures
        r@.len() == split_on(s@, sep).len(),
        forall|k: int| 0 <= k < r@.len() ==> #[trigger] r@[k]@ == split_on(s@, sep)[k],
{
    let mut r: Vec<Vec<char>> = Vec::new();
    let mut pos: usize = 0;
    let n = s.len();
    let ghost full = split_on(s@, sep);
    assert(s@.subrange(0, n as int) =~= s@);
    loop
        invariant
            n == s@.len(),
            pos <= n,
            full == split_on(s@, sep),
            r@.len() + split_on(s@.subrange(pos as int, n as int), sep).len() == full.len(),
            forall|k: int| 0 <= k < r@.len() ==> #[trigger] r@[k]@ == full[k],
            forall|k: int| 0 <= k < split_on(s@.subrange(pos as int, n as int), sep).len()
                ==> #[trigger] split_on(s@.subrange(pos as int, n as int), sep)[k] == full[r@.len() + k],
        decreases n - pos,
    {
        let ghost rest = s@.subrange(pos as int, n as int);
        let mut e = pos;
        while e < n && s[e] != sep
            invariant
                pos <= e <= n,
                n == s@.len(),
                forall|k: int| pos <= k < e ==> s@[k] != sep,
            decreases n - e,
        {
            e = e + 1;
        }
        proof {
            lemma_piece_end(rest, sep, 0);
            let pe = piece_end(rest, sep, 0);
            if pe < e - pos {
                assert(rest[pe] == sep);
                assert(s@[pos + pe] == sep);
            }
            if e - pos < pe {
                assert(s@[e as int] == sep);
                assert(rest[e - pos] == sep);
            }
            assert(pe == e - pos);
        }
        let piece = crate::text::vec_slice(s, pos, e);
        if e == n {
            proof {
                assert(split_on(rest, sep) == seq![rest]);
                assert(split_on(rest, sep)[0] == piece@);
            }
            r.push(piece);
            proof {
                assert(r@[r@.len() - 1]@ == full[r@.len() - 1]);
            }
            return r;
        } else {
            proof {
                assert(rest.subrange(0, e - pos) == s@.subrange(pos as int, e as int));
                assert(rest.subrange(e - pos + 1, rest.len() as int) == s@.subrange(e + 1, n as int));
                let nxt = split_on(s@.subrange(e + 1, n as int), sep);
                assert(split_on(rest, sep) == seq![piece@] + nxt);
                assert forall|k: int| 0 <= k < nxt.len() implies #[trigger] nxt[k] == full[r@.len() + 1 + k] by {
                    assert(split_on(rest, sep)[k + 1] == nxt[k]);
                }
                assert(split_on(rest, sep)[0] == piece@);
            }
            r.push(piece);
            pos = e + 1;
        }
    }
}

/// The component that a path starts with before its named parts: `/` (the root) for
/// an absolute path, `.` for a relative path whose first piece is `.`, none otherwise.
pub open spec fn lead_components(p: Seq<char>) -> Seq<Seq<char>> {
    if p.len() > 0 && p[0] == '/' {
        seq![seq!['/']]
    } else if p.len() > 0 && p[0] == '.' && (p.len() == 1 || p[1] == '/') {
        seq![seq!['.']]
    } else {
        seq![]
    }
}

/// The components of a `/`-separated path, as `Path::components` gives them: the
/// leading root or `.`, then the pieces between separators, where empty pieces and
/// `.` pieces are left out.
pub open spec fn components(p: Seq<char>) -> Seq<Seq<char>> {
    lead_components(p) + split_on(p, '/').filter(|c: Seq<char>| c.len() > 0 && c != seq!['.'])
}

/// The kind of a component, in the order of `Component`'s variants: the root, `.`,
/// `..`, then a named part.
pub open spec fn component_rank(c: Seq<char>) -> nat {
    if c == seq!['/'] {
        0
    } else if c == seq!['.'] {
        1
    } else if c == seq!['.', '.'] {
        2
    } else {
        3
    }
}

/// Order of two path components: by kind, and two named parts as text.
pub open spec fn component_lt(a: Seq<char>, b: Seq<char>) -> bool {
    if component_rank(a) != component_rank(b) {
        component_rank(a) < component_rank(b)
    } else {
        component_rank(a) == 3 && chars_lt(a, b)
    }
}

/// Lexicographic order of component lists.
pub open spec fn components_lt(a: Seq<Seq<char>>, b: Seq<Seq<char>>) -> bool
    decreases a.len(),
{
    if a.len() == 0 {
        b.len() > 0
    } else if b.len() == 0 {
        false
    } else if a[0] != b[0] {
        component_lt(a[0], b[0])
    } else {
        components_lt(a.drop_first(), b.drop_first())
    }
}

/// The order of paths: component by component, as `Path` compares.
pub open spec fn path_lt(a: Seq<char>, b: Seq<char>) -> bool {
    components_lt(components(a), components(b))
}

/// The kind of a component.
pub(crate) fn rank_of(c: &Vec<char>) -> (r: u8)
    ensures
        r == component_rank(c@),
{
    if c.len() == 1 && c[0] == '/' {
        assert(c@ =~= seq!['/']);
        0
    } else if c.len() == 1 && c[0] == '.' {
        assert(c@ =~= seq!['.']);
        1
    } else if c.len() == 2 && c[0] == '.' && c[1] == '.' {
        assert(c@ =~= seq!['.', '.']);
        2
    } else {
        assert(c@ != seq!['/'] && c@ != seq!['.'] && c@ != seq!['.', '.']) by {
            if c@ == seq!['/'] || c@ == seq!['.'] {
                assert(c@.len() == 1);
            }
            if c@ == seq!['.', '.'] {
                assert(c@.len() == 2);
            }
        }
        3
    }
}

fn chars_equal(a: &Vec<char>, b: &Vec<char>) -> (r: bool)
    ensures
        r == (a@ == b@),
{
    if a.len() != b.len() {
        return false;
    }
    let mut i: usize = 0;
    while i < a.len()
        invariant
            i <= a@.len(),
            a@.len() == b@.len(),
            forall|k: int| 0 <= k < i ==> a@[k] == b@[k],
        decreases a@.len() - i,
    {
        if a[i] != b[i] {
            return false;
        }
        i = i + 1;
    }
    assert(a@ =~= b@);
    true
}

/// The components of a path.
pub fn path_components(p: &Vec<char>) -> (r: Vec<Vec<char>>)
    ensures
        r@.len() == components(p@).len(),
        forall|k: int| 0 <= k < r@.len() ==> #[trigger] r@[k]@ == components(p@)[k],
{
    let pieces = split_chars(p, '/');
    let ghost pv = split_on(p@, '/');
    let ghost pred = |c: Seq<char>| c.len() > 0 && c != seq!['.'];
    let ghost lead = lead_components(p@);
    let mut r: Vec<Vec<char>> = Vec::new();
    let n = p.len();
    if n > 0 && p[0] == '/' {
        let mut m: Vec<char> = Vec::new();
        m.push('/');
        assert(m@ =~= seq!['/']);
        r.push(m);
    } else if n > 0 && p[0] == '.' && (n == 1 || p[1] == '/') {
        let mut m: Vec<char> = Vec::new();
        m.push('.');
        assert(m@ =~= seq!['.']);
        r.push(m);
    }
    let off = r.len();
    assert(off == lead.len());
    let mut i: usize = 0;
    while i < pieces.len()
        invariant
            i <= pieces@.len(),
            pieces@.len() == pv.len(),
            pv == split_on(p@, '/'),
            pred == (|c: Seq<char>| c.len() > 0 && c != seq!['.']),
            lead == lead_components(p@),
            off == lead.len(),
            forall|k: int| 0 <= k < pieces@.len() ==> #[trigger] pieces@[k]@ == pv[k],
            r@.len() == off + pv.take(i as int).filter(pred).len(),
            forall|k: int| 0 <= k < off ==> #[trigger] r@[k]@ == lead[k],
            forall|k: int|
                off <= k < r@.len() ==> #[trigger] r@[k]@ == pv.take(i as int).filter(pred)[k - off],
        decreases pieces@.len() - i,
    {
        let piece = &pieces[i];
        let is_dot = piece.len() == 1 && piece[0] == '.';
        proof {
            assert(pv.take(i + 1).drop_last() == pv.take(i as int));
            reveal_with_fuel(Seq::<_>::filter, 1);
            if piece@.len() == 1 && piece@[0] == '.' {
                assert(piece@ =~= seq!['.']);
            }
            assert(is_dot == (piece@ == seq!['.']));
        }
        if piece.len() > 0 && !is_dot {
            r.push(crate::text::vec_slice(piece, 0, piece.len()));
            proof {
                assert(piece@.subrange(0, piece@.len() as int) == piece@);
            }
        }
        i = i + 1;
    }
    assert(pv.take(pv.len() as int) == pv);
    proof {
        let full = components(p@);
        assert forall|k: int| 0 <= k < r@.len() implies #[trigger] r@[k]@ == full[k] by {
            if k < off {
                assert(full[k] == lead[k]);
            } else {
                assert(full[k] == pv.filter(pred)[k - off]);
            }
        }
    }
    r
}

/// `a < b` in path order.
pub fn path_less(a: &Vec<char>, b: &Vec<char>) -> (r: bool)
    ensures
        r == path_lt(a@, b@),
{
    let ca = path_components(a);
    let cb = path_components(b);
    let ghost va = components(a@);
    let ghost vb = components(b@);
    let mut i: usize = 0;
    assert(va.skip(0) == va);
    assert(vb.skip(0) == vb);
    loop
        invariant
            i <= ca@.len(),
            i <= cb@.len(),
            ca@.len() == va.len(),
            cb@.len() == vb.len(),
            va == components(a@),
            vb == components(b@),
            forall|k: int| 0 <= k < ca@.len() ==> #[trigger] ca@[k]@ == va[k],
            forall|k: int| 0 <= k < cb@.len() ==> #[trigger] cb@[k]@ == vb[k],
            path_lt(a@, b@) == components_lt(va.skip(i as int), vb.skip(i as int)),
        decreases ca@.len() - i,
    {
        if i == ca.len() {
            return i < cb.len();
        }
        if i == cb.len() {
            return false;
        }
        let x = &ca[i];
        let y = &cb[i];
        proof {
            assert(va.skip(i as int)[0] == va[i as int]);
            assert(vb.skip(i as int)[0] == vb[i as int]);
        }
        if !chars_equal(x, y) {
            let rx = rank_of(x);
            let ry = rank_of(y);
            if rx != ry {
                return rx < ry;
            } else if rx == 3 {
                return chars_less(x, y);
            } else {
                return false;
            }
        }
        proof {
            assert(va.skip(i as int).drop_first() == va.skip(i + 1));
            assert(vb.skip(i as int).drop_first() == vb.skip(i + 1));
        }
        i = i + 1;
    }
}


/// Values sorted by a rank, then by a path.
pub trait SortKeyed: Sized {
    spec fn spec_key(&self) -> (nat, Seq<char>);

    fn sort_rank(&self) -> (r: usize)
        ensures
            r == self.spec_key().0,
    ;

    fn sort_path(&self) -> (r: Vec<char>)
        ensures
            r@ == self.spec_key().1,
    ;
}

/// Key `a` comes strictly before key `b`: a lower rank, or the same rank and a lower path.
pub open spec fn key_before(a: (nat, Seq<char>), b: (nat, Seq<char>)) -> bool {
    a.0 < b.0 || (a.0 == b.0 && path_lt(a.1, b.1))
}

/// Where a stable sort puts `x` in front of the sorted rest: before the first element
/// whose key does not come strictly before the key of `x`.
pub open spec fn front_pos<A>(s: Seq<A>, x: A, key: spec_fn(A) -> (nat, Seq<char>)) -> int
    decreases s.len(),
{
    if s.len() == 0 {
        0
    } else if !key_before(key(s[0]), key(x)) {
        0
    } else {
        1 + front_pos(s.drop_first(), x, key)
    }
}

/// The stable sort of `s` by key: elements with equal keys keep their order, as
/// `sort_by` leaves them.
pub open spec fn sorted_by<A>(s: Seq<A>, key: spec_fn(A) -> (nat, Seq<char>)) -> Seq<A>
    decreases s.len(),
{
    if s.len() == 0 {
        s
    } else {
        let rest = sorted_by(s.drop_first(), key);
        rest.insert(front_pos(rest, s[0], key), s[0])
    }
}

proof fn lemma_component_lt_order(a: Seq<char>, b: Seq<char>, c: Seq<char>)
    ensures
        !component_lt(a, a),
        a == b || component_lt(a, b) || component_lt(b, a),
        component_lt(a, b) && component_lt(b, c) ==> component_lt(a, c),
{
    lemma_chars_lt_irreflexive(a);
    lemma_chars_lt_total(a, b);
    if component_lt(a, b) && component_lt(b, c) && component_rank(a) == 3 {
        lemma_chars_lt_transitive(a, b, c);
    }
}

proof fn lemma_components_lt_order(a: Seq<Seq<char>>, b: Seq<Seq<char>>, c: Seq<Seq<char>>)
    ensures
        !components_lt(a, a),
        a == b || components_lt(a, b) || components_lt(b, a),
        components_lt(a, b) && components_lt(b, c) ==> components_lt(a, c),
    decreases a.len(),
{
    if a.len() > 0 {
        lemma_component_lt_order(a[0], b.first(), c.first());
        if b.len() > 0 {
            lemma_component_lt_order(a[0], b[0], b[0]);
            lemma_component_lt_order(b[0], a[0], a[0]);
        }
        if b.len() > 0 && c.len() > 0 {
            lemma_component_lt_order(a[0], b[0], c[0]);
            lemma_component_lt_order(b[0], c[0], a[0]);
            lemma_component_lt_order(c[0], a[0], b[0]);
        }
        let b1 = if b.len() > 0 { b.drop_first() } else { b };
        let c1 = if c.len() > 0 { c.drop_first() } else { c };
        lemma_components_lt_order(a.drop_first(), b1, c1);
        if b.len() > 0 && a[0] == b[0] && a.drop_first() == b.drop_first() {
            assert(a =~= seq![a[0]] + a.drop_first());
            assert(b =~= seq![b[0]] + b.drop_first());
        }
    } else if b.len() == 0 {
        assert(a =~= b);
    }
}

/// Key order is a strict weak order: irreflexive, and where `a` comes before `c`,
/// every `b` comes after `a` or before `c`.
proof fn lemma_key_before_order(a: (nat, Seq<char>), b: (nat, Seq<char>), c: (nat, Seq<char>))
    ensures
        !key_before(a, a),
        key_before(a, b) ==> !key_before(b, a),
        key_before(a, c) ==> key_before(a, b) || key_before(b, c),
{
    let (ca, cb, cc) = (components(a.1), components(b.1), components(c.1));
    lemma_components_lt_order(ca, cb, ca);
    lemma_components_lt_order(ca, cb, cc);
    lemma_components_lt_order(cb, ca, cc);
    lemma_components_lt_order(ca, cc, cb);
    lemma_components_lt_order(cb, cc, ca);
    lemma_components_lt_order(cc, ca, cb);
    lemma_components_lt_order(cc, cb, ca);
}

/// The elements of `s` come in key order: none comes strictly before an earlier one.
pub open spec fn in_key_order<A>(s: Seq<A>, key: spec_fn(A) -> (nat, Seq<char>)) -> bool {
    forall|i: int, j: int| 0 <= i < j < s.len() ==> !key_before(key(#[trigger] s[j]), key(#[trigger] s[i]))
}

proof fn lemma_front_pos_split<A>(s: Seq<A>, x: A, key: spec_fn(A) -> (nat, Seq<char>))
    ensures
        0 <= front_pos(s, x, key) <= s.len(),
        forall|i: int| 0 <= i < front_pos(s, x, key) ==> key_before(key(#[trigger] s[i]), key(x)),
        front_pos(s, x, key) < s.len() ==> !key_before(key(s[front_pos(s, x, key)]), key(x)),
    decreases s.len(),
{
    if s.len() > 0 && key_before(key(s[0]), key(x)) {
        lemma_front_pos_split(s.drop_first(), x, key);
        assert forall|i: int| 0 <= i < front_pos(s, x, key) implies key_before(key(#[trigger] s[i]), key(x)) by {
            if i > 0 {
                assert(s[i] == s.drop_first()[i - 1]);
            }
        }
    }
}

/// A stable sort puts its elements in key order.
pub proof fn lemma_sorted_by_in_order<A>(s: Seq<A>, key: spec_fn(A) -> (nat, Seq<char>))
    ensures
        in_key_order(sorted_by(s, key), key),
    decreases s.len(),
{
    if s.len() > 0 {
        let rest = sorted_by(s.drop_first(), key);
        lemma_sorted_by_in_order(s.drop_first(), key);
        let x = s[0];
        lemma_front_pos_split(rest, x, key);
        let p = front_pos(rest, x, key);
        let t = rest.insert(p, x);
        assert forall|i: int, j: int| 0 <= i < j < t.len() implies !key_before(key(#[trigger] t[j]), key(#[trigger] t[i])) by {
            if j < p {
                assert(t[i] == rest[i] && t[j] == rest[j]);
            } else if j == p {
                assert(t[i] == rest[i]);
                lemma_key_before_order(key(rest[i]), key(x), key(x));
            } else if i == p {
                assert(t[j] == rest[j - 1]);
                if j - 1 > p {
                    assert(!key_before(key(rest[j - 1]), key(rest[p])));
                }
                lemma_key_before_order(key(rest[j - 1]), key(rest[p]), key(x));
            } else if i < p {
                assert(t[i] == rest[i] && t[j] == rest[j - 1]);
            } else {
                assert(t[i] == rest[i - 1] && t[j] == rest[j - 1]);
            }
        }
    }
}

/// The key of a sortable value.
pub open spec fn key_of<T: SortKeyed>() -> spec_fn(T) -> (nat, Seq<char>) {
    |t: T| t.spec_key()
}

pub proof fn lemma_front_pos_bounds<A>(s: Seq<A>, x: A, key: spec_fn(A) -> (nat, Seq<char>))
    ensures
        0 <= front_pos(s, x, key) <= s.len(),
    decreases s.len(),
{
    if s.len() > 0 {
        lemma_front_pos_bounds(s.drop_first(), x, key);
    }
}

pub proof fn lemma_sorted_by_len<A>(s: Seq<A>, key: spec_fn(A) -> (nat, Seq<char>))
    ensures
        sorted_by(s, key).len() == s.len(),
    decreases s.len(),
{
    if s.len() > 0 {
        lemma_sorted_by_len(s.drop_first(), key);
        lemma_front_pos_bounds(sorted_by(s.drop_first(), key), s[0], key);
    }
}

proof fn lemma_front_pos_map<A, B>(
    s: Seq<A>,
    x: A,
    f: spec_fn(A) -> B,
    ka: spec_fn(A) -> (nat, Seq<char>),
    kb: spec_fn(B) -> (nat, Seq<char>),
)
    requires
        forall|a: A| #[trigger] ka(a) == kb(f(a)),
    ensures
        front_pos(s, x, ka) == front_pos(s.map_values(f), f(x), kb),
    decreases s.len(),
{
    if s.len() > 0 {
        assert(s.map_values(f).drop_first() == s.drop_first().map_values(f));
        assert(ka(s[0]) == kb(f(s[0])));
        assert(ka(x) == kb(f(x)));
        lemma_front_pos_map(s.drop_first(), x, f, ka, kb);
    }
}

/// Sorting commutes with a map that keeps the keys.
pub proof fn lemma_sorted_by_map<A, B>(
    s: Seq<A>,
    f: spec_fn(A) -> B,
    ka: spec_fn(A) -> (nat, Seq<char>),
    kb: spec_fn(B) -> (nat, Seq<char>),
)
    requires
        forall|a: A| #[trigger] ka(a) == kb(f(a)),
    ensures
        sorted_by(s, ka).map_values(f) == sorted_by(s.map_values(f), kb),
    decreases s.len(),
{
    if s.len() > 0 {
        let rest = sorted_by(s.drop_first(), ka);
        lemma_sorted_by_map(s.drop_first(), f, ka, kb);
        assert(s.map_values(f).drop_first() == s.drop_first().map_values(f));
        lemma_front_pos_map(rest, s[0], f, ka, kb);
        lemma_front_pos_bounds(rest, s[0], ka);
        let p = front_pos(rest, s[0], ka);
        assert(rest.insert(p, s[0]).map_values(f) =~= rest.map_values(f).insert(p, f(s[0])));
    }
}

/// Sorting keeps every element, as often as it occurs.
pub proof fn lemma_sorted_by_to_multiset<A>(s: Seq<A>, key: spec_fn(A) -> (nat, Seq<char>))
    ensures
        sorted_by(s, key).to_multiset() =~= s.to_multiset(),
    decreases s.len(),
{
    broadcast use vstd::seq_lib::group_to_multiset_ensures;

    if s.len() > 0 {
        let rest = sorted_by(s.drop_first(), key);
        lemma_sorted_by_to_multiset(s.drop_first(), key);
        lemma_front_pos_bounds(rest, s[0], key);
        let p = front_pos(rest, s[0], key);
        let t = rest.insert(p, s[0]);
        assert(t.remove(p) =~= rest);
        assert(s.remove(0) =~= s.drop_first());
        assert(t[p] == s[0]);
        assert(t.to_multiset().remove(s[0]) =~= rest.to_multiset());
        assert(s.to_multiset().remove(s[0]) =~= s.drop_first().to_multiset());
        assert(t.contains(s[0]));
        assert(s.contains(s[0]));
    }
}

fn key_less<T: SortKeyed>(a: &T, b: &T) -> (r: bool)
    ensures
        r == key_before(a.spec_key(), b.spec_key()),
{
    let ra = a.sort_rank();
    let rb = b.sort_rank();
    if ra < rb {
        true
    } else if ra == rb {
        let pa = a.sort_path();
        let pb = b.sort_path();
        path_less(&pa, &pb)
    } else {
        false
    }
}

/// Sorts by key, keeping the order of elements with equal keys (`sort_by`).
pub fn stable_sort<T: SortKeyed>(items: Vec<T>) -> (r: Vec<T>)
    ensures
        r@ == sorted_by(items@, key_of::<T>()),
{
    let ghost orig = items@;
    let ghost key = key_of::<T>();
    let mut rest = items;
    let mut out: Vec<T> = Vec::new();
    assert(orig.skip(orig.len() as int) =~= Seq::<T>::empty());
    while rest.len() > 0
        invariant
            rest@ == orig.take(rest@.len() as int),
            rest@.len() <= orig.len(),
            key == key_of::<T>(),
            out@ == sorted_by(orig.skip(rest@.len() as int), key),
        decreases rest@.len(),
    {
        let ghost k = rest@.len();
        let x = rest.pop().unwrap();
        proof {
            assert(x == orig[k - 1]);
            assert(rest@ == orig.take(k - 1));
            assert(orig.skip(k - 1).drop_first() == orig.skip(k as int));
            assert(orig.skip(k - 1)[0] == x);
            lemma_front_pos_bounds(out@, x, key);
            assert(out@.skip(0) == out@);
        }
        let mut q: usize = 0;
        while q < out.len() && key_less(&out[q], &x)
            invariant
                q <= out@.len(),
                key == key_of::<T>(),
                front_pos(out@, x, key) == q + front_pos(out@.skip(q as int), x, key),
            decreases out@.len() - q,
        {
            proof {
                assert(out@.skip(q as int).drop_first() == out@.skip(q + 1));
                assert(key(out@[q as int]) == out@[q as int].spec_key());
                assert(key(x) == x.spec_key());
            }
            q = q + 1;
        }
        proof {
            if q < out@.len() {
                assert(out@.skip(q as int)[0] == out@[q as int]);
                assert(key(out@[q as int]) == out@[q as int].spec_key());
                assert(key(x) == x.spec_key());
            } else {
                assert(out@.skip(q as int).len() == 0);
            }
            assert(front_pos(out@, x, key) == q);
        }
        out.insert(q, x);
    }
    assert(orig.skip(0) == orig);
    out
}

} // verus!
