//! Byte-level text helpers: the request grammar is ASCII, so all parsing
//! works on byte sequences. The spec functions here give the mathematical
//! meaning of splitting, trimming and line separation; the exec functions
//! implement them and are proved to agree.
use vstd::prelude::*;

verus! {

/// Whitespace bytes removed by trimming: tab, line feed, vertical tab,
/// form feed, carriage return and space.
pub open spec fn is_ws(b: u8) -> bool {
    b == 9 || b == 10 || b == 11 || b == 12 || b == 13 || b == 32
}

/// True when every byte of `s` is ASCII.
pub open spec fn is_ascii_seq(s: Seq<u8>) -> bool {
    forall|i: int| 0 <= i < s.len() ==> s[i] < 128
}

/// Index of the first occurrence of `sep` in `s`, if any.
pub open spec fn find_first(s: Seq<u8>, sep: u8) -> Option<int>
    decreases s.len(),
{
    if s.len() == 0 {
        None
    } else if s[0] == sep {
        Some(0int)
    } else {
        match find_first(s.drop_first(), sep) {
            None => None,
            Some(i) => Some(i + 1),
        }
    }
}

/// `find_first` returns the least index holding `sep`, or `None` when `sep`
/// does not occur.
pub proof fn lemma_find_first(s: Seq<u8>, sep: u8)
    ensures
        match find_first(s, sep) {
            Some(i) => 0 <= i < s.len() && s[i] == sep && (forall|j: int|
                0 <= j < i ==> s[j] != sep),
            None => forall|j: int| 0 <= j < s.len() ==> s[j] != sep,
        },
    decreases s.len(),
{
    if s.len() == 0 {
    } else if s[0] == sep {
    } else {
        let df = s.drop_first();
        lemma_find_first(df, sep);
        match find_first(df, sep) {
            None => {
                assert forall|j: int| 0 <= j < s.len() implies s[j] != sep by {
                    if j > 0 {
                        assert(s[j] == df[j - 1]);
                    }
                }
            },
            Some(k) => {
                assert(s[k + 1] == df[k]);
                assert forall|j: int| 0 <= j < k + 1 implies s[j] != sep by {
                    if j > 0 {
                        assert(s[j] == df[j - 1]);
                    }
                }
            },
        }
    }
}

/// `s` split on every occurrence of `sep`. The result always has at least
/// one piece; a separator at the start, at the end, or next to another
/// contributes an empty piece.
pub open spec fn split_on(s: Seq<u8>, sep: u8) -> Seq<Seq<u8>>
    decreases s.len(),
{
    if s.len() == 0 {
        seq![s]
    } else if s[0] == sep {
        seq![Seq::<u8>::empty()] + split_on(s.drop_first(), sep)
    } else {
        let rest = split_on(s.drop_first(), sep);
        seq![seq![s[0]] + rest.first()] + rest.drop_first()
    }
}

pub proof fn lemma_split_on_len(s: Seq<u8>, sep: u8)
    ensures
        split_on(s, sep).len() >= 1,
    decreases s.len(),
{
    if s.len() == 0 {
    } else {
        lemma_split_on_len(s.drop_first(), sep);
    }
}

/// Unrolling `split_on` at the first occurrence of `sep`: the piece before
/// it, then the split of what follows it.
pub proof fn lemma_split_on_find(s: Seq<u8>, sep: u8)
    ensures
        match find_first(s, sep) {
            None => split_on(s, sep) == seq![s],
            Some(i) => split_on(s, sep) == seq![s.take(i)] + split_on(s.skip(i + 1), sep),
        },
    decreases s.len(),
{
    lemma_find_first(s, sep);
    if s.len() == 0 {
        assert(split_on(s, sep) =~~= seq![s]);
    } else if s[0] == sep {
        assert(s.take(0) =~= Seq::<u8>::empty());
        assert(s.skip(1) =~= s.drop_first());
        assert(split_on(s, sep) =~~= seq![s.take(0)] + split_on(s.skip(1), sep));
    } else {
        let df = s.drop_first();
        lemma_split_on_find(df, sep);
        lemma_split_on_len(df, sep);
        match find_first(df, sep) {
            None => {
                assert(split_on(df, sep) == seq![df]);
                assert(seq![s[0]] + df =~= s);
                assert(split_on(s, sep) =~~= seq![s]);
            },
            Some(k) => {
                lemma_find_first(df, sep);
                let rest = split_on(df, sep);
                assert(rest == seq![df.take(k)] + split_on(df.skip(k + 1), sep));
                lemma_split_on_len(df.skip(k + 1), sep);
                assert(rest.first() == df.take(k));
                assert(rest.drop_first() =~~= split_on(df.skip(k + 1), sep));
                assert(seq![s[0]] + df.take(k) =~= s.take(k + 1));
                assert(df.skip(k + 1) =~= s.skip(k + 2));
                assert(split_on(s, sep) =~~= seq![s.take(k + 1)] + split_on(s.skip(k + 2), sep));
            },
        }
    }
}

/// `s` split at the first occurrence of `sep`, if any: what comes before
/// and what comes after it.
pub open spec fn split_first(s: Seq<u8>, sep: u8) -> Option<(Seq<u8>, Seq<u8>)> {
    match find_first(s, sep) {
        None => None,
        Some(i) => Some((s.take(i), s.skip(i + 1))),
    }
}

/// `s` with leading whitespace removed.
pub open spec fn trim_start(s: Seq<u8>) -> Seq<u8>
    decreases s.len(),
{
    if s.len() > 0 && is_ws(s[0]) {
        trim_start(s.drop_first())
    } else {
        s
    }
}

/// `s` with trailing whitespace removed.
pub open spec fn trim_end(s: Seq<u8>) -> Seq<u8>
    decreases s.len(),
{
    if s.len() > 0 && is_ws(s.last()) {
        trim_end(s.drop_last())
    } else {
        s
    }
}

/// `s` with whitespace removed at both ends.
pub open spec fn trim(s: Seq<u8>) -> Seq<u8> {
    trim_end(trim_start(s))
}

/// A line with one trailing carriage return removed.
pub open spec fn strip_cr(l: Seq<u8>) -> Seq<u8> {
    if l.len() > 0 && l.last() == 13 {
        l.drop_last()
    } else {
        l
    }
}

/// Every line of `ls` stripped of one trailing carriage return.
pub open spec fn strip_all(ls: Seq<Seq<u8>>) -> Seq<Seq<u8>> {
    ls.map_values(|l: Seq<u8>| strip_cr(l))
}

/// The lines of `s`: pieces separated by line feeds, each followed piece
/// stripped of one trailing carriage return; a final line feed does not
/// open an extra empty line.
pub open spec fn lines_of(s: Seq<u8>) -> Seq<Seq<u8>> {
    let p = split_on(s, 10);
    let main = strip_all(p.drop_last());
    if p.last().len() == 0 {
        main
    } else {
        main.push(p.last())
    }
}

/// True when `p` is a prefix of `s`.
pub open spec fn starts_with(s: Seq<u8>, p: Seq<u8>) -> bool {
    p.len() <= s.len() && s.take(p.len() as int) == p
}

/// The views of a vector of byte vectors.
pub open spec fn views_of(parts: Seq<Vec<u8>>) -> Seq<Seq<u8>> {
    parts.map_values(|p: Vec<u8>| p@)
}

pub fn is_ascii(v: &[u8]) -> (r: bool)
    ensures
        r == is_ascii_seq(v@),
{
    let mut i: usize = 0;
    while i < v.len()
        invariant
            0 <= i <= v@.len(),
            forall|j: int| 0 <= j < i ==> v@[j] < 128,
        decreases v@.len() - i,
    {
        if v[i] >= 128 {
            return false;
        }
        i = i + 1;
    }
    true
}

pub fn bytes_eq(a: &[u8], b: &[u8]) -> (r: bool)
    ensures
        r == (a@ == b@),
{
    if a.len() != b.len() {
        return false;
    }
    let mut i: usize = 0;
    while i < a.len()
        invariant
            0 <= i <= a@.len(),
            a@.len() == b@.len(),
            forall|j: int| 0 <= j < i ==> a@[j] == b@[j],
        decreases a@.len() - i,
    {
        if a[i] != b[i] {
            return false;
        }
        i = i + 1;
    }
    proof {
        assert(a@ =~= b@);
    }
    true
}

/// The bytes of `v` from `i` up to `j`, as a fresh vector.
pub fn subvec(v: &[u8], i: usize, j: usize) -> (r: Vec<u8>)
    requires
        i <= j <= v@.len(),
    ensures
        r@ == v@.subrange(i as int, j as int),
{
    let mut r: Vec<u8> = Vec::new();
    let mut k: usize = i;
    while k < j
        invariant
            i <= k <= j <= v@.len(),
            r@ == v@.subrange(i as int, k as int),
        decreases j - k,
    {
        r.push(v[k]);
        assert(r@ =~= v@.subrange(i as int, k + 1 as int));
        k = k + 1;
    }
    r
}

pub fn find_byte(v: &[u8], sep: u8) -> (r: Option<usize>)
    ensures
        (match r {
            Some(i) => find_first(v@, sep) == Some(i as int),
            None => find_first(v@, sep) is None,
        }),
{
    let mut i: usize = 0;
    while i < v.len()
        invariant
            0 <= i <= v@.len(),
            forall|j: int| 0 <= j < i ==> v@[j] != sep,
        decreases v@.len() - i,
    {
        if v[i] == sep {
            proof {
                lemma_find_first(v@, sep);
            }
            return Some(i);
        }
        i = i + 1;
    }
    proof {
        lemma_find_first(v@, sep);
    }
    None
}

/// Splits `v` on every occurrence of `sep`.
pub fn split_all(v: &[u8], sep: u8) -> (r: Vec<Vec<u8>>)
    ensures
        views_of(r@) == split_on(v@, sep),
{
    let mut parts: Vec<Vec<u8>> = Vec::new();
    let mut rest: Vec<u8> = subvec(v, 0, v.len());
    assert(rest@ =~= v@);
    let mut done: bool = false;
    while !done
        invariant
            !done ==> views_of(parts@) + split_on(rest@, sep) == split_on(v@, sep),
            done ==> views_of(parts@) == split_on(v@, sep),
        decreases rest@.len() + (if done { 0int } else { 1int }),
    {
        proof {
            lemma_split_on_find(rest@, sep);
        }
        match find_byte(rest.as_slice(), sep) {
            Some(i) => {
                proof {
                    lemma_find_first(rest@, sep);
                }
                let n = rest.len();
                assert(i < n);
                let piece = subvec(rest.as_slice(), 0, i);
                assert(piece@ =~= rest@.take(i as int));
                let new_rest = subvec(rest.as_slice(), i + 1, n);
                assert(new_rest@ =~= rest@.skip(i + 1));
                let ghost old_parts = parts@;
                parts.push(piece);
                assert(views_of(parts@) =~~= views_of(old_parts) + seq![piece@]);
                assert(views_of(parts@) + split_on(new_rest@, sep) =~~= views_of(old_parts)
                    + split_on(rest@, sep));
                rest = new_rest;
            },
            None => {
                let ghost old_parts = parts@;
                let ghost last_piece = rest@;
                parts.push(rest);
                assert(views_of(parts@) =~~= views_of(old_parts) + seq![last_piece]);
                rest = Vec::new();
                done = true;
            },
        }
    }
    parts
}

/// Splits `v` at the first occurrence of `sep`, if any.
pub fn split_once(v: &[u8], sep: u8) -> (r: Option<(Vec<u8>, Vec<u8>)>)
    ensures
        (match r {
            Some(pair) => split_first(v@, sep) == Some((pair.0@, pair.1@)),
            None => split_first(v@, sep) is None,
        }),
{
    let n = v.len();
    match find_byte(v, sep) {
        Some(i) => {
            proof {
                lemma_find_first(v@, sep);
            }
            assert(i < n);
            let left = subvec(v, 0, i);
            let right = subvec(v, i + 1, n);
            assert(left@ =~= v@.take(i as int));
            assert(right@ =~= v@.skip(i + 1));
            Some((left, right))
        },
        None => None,
    }
}

/// Removes whitespace from both ends of `v`.
pub fn trim_bytes(v: &[u8]) -> (r: Vec<u8>)
    ensures
        r@ == trim(v@),
{
    let mut i: usize = 0;
    assert(v@.skip(0) =~= v@);
    while i < v.len() && (v[i] == 9 || v[i] == 10 || v[i] == 11 || v[i] == 12 || v[i] == 13
        || v[i] == 32)
        invariant
            0 <= i <= v@.len(),
            trim_start(v@) == trim_start(v@.skip(i as int)),
        decreases v@.len() - i,
    {
        proof {
            assert(v@.skip(i as int).drop_first() =~= v@.skip(i + 1));
        }
        i = i + 1;
    }
    let ghost t = v@.skip(i as int);
    proof {
        if i == v@.len() {
            assert(t =~= Seq::<u8>::empty());
        }
        assert(trim_start(v@) == t);
    }
    let mut j: usize = v.len();
    assert(t.take(j - i) =~= t);
    while j > i && (v[j - 1] == 9 || v[j - 1] == 10 || v[j - 1] == 11 || v[j - 1] == 12 || v[j
        - 1] == 13 || v[j - 1] == 32)
        invariant
            i <= j <= v@.len(),
            t == v@.skip(i as int),
            trim_end(t) == trim_end(t.take(j - i)),
        decreases j - i,
    {
        proof {
            assert(t.take(j - i).last() == v@[j - 1]);
            assert(t.take(j - i).drop_last() =~= t.take(j - 1 - i));
        }
        j = j - 1;
    }
    proof {
        if j == i {
            assert(t.take(0) =~= Seq::<u8>::empty());
        } else {
            assert(t.take(j - i).last() == v@[j - 1]);
        }
        assert(trim_end(t) == t.take(j - i));
        assert(t.take(j - i) =~= v@.subrange(i as int, j as int));
    }
    subvec(v, i, j)
}

/// Splits `v` into lines.
pub fn split_lines(v: &[u8]) -> (r: Vec<Vec<u8>>)
    ensures
        views_of(r@) == lines_of(v@),
{
    let mut parts = split_all(v, 10);
    proof {
        lemma_split_on_len(v@, 10);
    }
    let last = parts.pop().unwrap();
    let ghost p = split_on(v@, 10);
    assert(views_of(parts@) =~~= p.drop_last());
    assert(last@ == p.last());
    let mut r: Vec<Vec<u8>> = Vec::new();
    let mut k: usize = 0;
    while k < parts.len()
        invariant
            0 <= k <= parts@.len(),
            views_of(r@) == strip_all(views_of(parts@).take(k as int)),
        decreases parts@.len() - k,
    {
        let piece = &parts[k];
        let stripped = if piece.len() > 0 && piece[piece.len() - 1] == 13 {
            let s = subvec(piece.as_slice(), 0, piece.len() - 1);
            assert(s@ =~= strip_cr(piece@));
            s
        } else {
            let s = subvec(piece.as_slice(), 0, piece.len());
            assert(s@ =~= strip_cr(piece@));
            s
        };
        let ghost piece_view = parts@[k as int]@;
        let ghost old_r = r@;
        r.push(stripped);
        proof {
            assert(views_of(r@) =~~= views_of(old_r).push(strip_cr(piece_view)));
            assert(views_of(parts@).take(k + 1 as int) =~~= views_of(parts@).take(
                k as int,
            ).push(piece_view));
            assert(strip_all(views_of(parts@).take(k + 1 as int)) =~~= strip_all(
                views_of(parts@).take(k as int),
            ).push(strip_cr(piece_view)));
        }
        k = k + 1;
    }
    assert(views_of(parts@).take(parts@.len() as int) =~~= views_of(parts@));
    assert(views_of(r@) == strip_all(p.drop_last()));
    if last.len() == 0 {
        assert(views_of(r@) == lines_of(v@));
        r
    } else {
        r.push(last);
        assert(views_of(r@) =~~= strip_all(p.drop_last()).push(p.last()));
        r
    }
}

/// The bytes of an ASCII string slice, as a fresh vector.
pub fn ascii_bytes(s: &str) -> (r: Vec<u8>)
    requires
        s.is_ascii(),
    ensures
        r@ == Seq::new(s@.len(), |i: int| s@[i] as u8),
{
    proof {
        vstd::string::is_ascii_spec_bytes(s);
    }
    let b = s.as_bytes();
    let r = subvec(b, 0, b.len());
    assert(r@ =~= b@);
    r
}

/// Appends the bytes of `other` to `v`.
pub fn append_bytes(v: &mut Vec<u8>, other: &[u8])
    ensures
        final(v)@ == old(v)@ + other@,
{
    let mut k: usize = 0;
    while k < other.len()
        invariant
            0 <= k <= other@.len(),
            v@ == old(v)@ + other@.take(k as int),
        decreases other@.len() - k,
    {
        v.push(other[k]);
        assert(v@ =~= old(v)@ + other@.take(k + 1 as int));
        k = k + 1;
    }
    assert(v@ =~= old(v)@ + other@);
}

/// True when `p` is a prefix of `v`.
pub fn has_prefix(v: &[u8], p: &[u8]) -> (r: bool)
    ensures
        r == starts_with(v@, p@),
{
    if p.len() > v.len() {
        return false;
    }
    let mut i: usize = 0;
    while i < p.len()
        invariant
            0 <= i <= p@.len() <= v@.len(),
            forall|j: int| 0 <= j < i ==> v@[j] == p@[j],
        decreases p@.len() - i,
    {
        if v[i] != p[i] {
            assert(v@.take(p@.len() as int)[i as int] != p@[i as int]);
            return false;
        }
        i = i + 1;
    }
    proof {
        assert(v@.take(p@.len() as int) =~= p@);
    }
    true
}

} // verus!
