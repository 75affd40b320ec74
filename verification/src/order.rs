use vstd::prelude::*;

verus! {

/// Lexicographic "less than" on byte strings: the order of `str`'s `Ord`,
/// which compares the UTF-8 bytes of two strings.
pub open spec fn lex_lt(a: Seq<u8>, b: Seq<u8>) -> bool
    decreases a.len(),
{
    if a.len() == 0 {
        b.len() > 0
    } else if b.len() == 0 {
        false
    } else if a[0] != b[0] {
        a[0] < b[0]
    } else {
        lex_lt(a.drop_first(), b.drop_first())
    }
}

/// No byte string is below itself.
pub proof fn lemma_lex_irreflexive(a: Seq<u8>)
    ensures
        !lex_lt(a, a),
    decreases a.len(),
{
    if a.len() > 0 {
        lemma_lex_irreflexive(a.drop_first());
    }
}

/// Of two byte strings, at most one is below the other.
pub proof fn lemma_lex_asymmetric(a: Seq<u8>, b: Seq<u8>)
    ensures
        lex_lt(a, b) ==> !lex_lt(b, a),
    decreases a.len(),
{
    if a.len() > 0 && b.len() > 0 && a[0] == b[0] {
        lemma_lex_asymmetric(a.drop_first(), b.drop_first());
    }
}

/// Of two different byte strings, one is below the other.
pub proof fn lemma_lex_total(a: Seq<u8>, b: Seq<u8>)
    ensures
        a != b ==> lex_lt(a, b) || lex_lt(b, a),
    decreases a.len(),
{
    if a.len() == 0 {
        if b.len() == 0 {
            assert(a =~= b);
        }
    } else if b.len() > 0 && a[0] == b[0] {
        lemma_lex_total(a.drop_first(), b.drop_first());
        if a.drop_first() == b.drop_first() {
            assert(a.drop_first().len() == b.drop_first().len());
            assert(a.len() == b.len());
            assert forall|i: int| 0 <= i < a.len() implies a[i] == b[i] by {
                if i > 0 {
                    assert(a[i] == a.drop_first()[i - 1]);
                    assert(b[i] == b.drop_first()[i - 1]);
                }
            }
            assert(a =~= b);
        }
    }
}

/// The lexicographic order is transitive.
pub proof fn lemma_lex_transitive(a: Seq<u8>, b: Seq<u8>, c: Seq<u8>)
    requires
        lex_lt(a, b),
        lex_lt(b, c),
    ensures
        lex_lt(a, c),
    decreases a.len(),
{
    if a.len() > 0 && b.len() > 0 && c.len() > 0 && a[0] == b[0] && b[0] == c[0] {
        lemma_lex_transitive(a.drop_first(), b.drop_first(), c.drop_first());
    }
}

/// Compares two byte strings lexicographically.
pub fn bytes_lt(a: &[u8], b: &[u8]) -> (r: bool)
    ensures
        r == lex_lt(a@, b@),
{
    let mut i: usize = 0;
    assert(a@.skip(0) =~= a@);
    assert(b@.skip(0) =~= b@);
    while i < a.len() && i < b.len()
        invariant
            i <= a@.len(),
            i <= b@.len(),
            lex_lt(a@, b@) == lex_lt(a@.skip(i as int), b@.skip(i as int)),
        decreases a@.len() - i,
    {
        if a[i] != b[i] {
            return a[i] < b[i];
        }
        assert(a@.skip(i as int).drop_first() =~= a@.skip(i + 1));
        assert(b@.skip(i as int).drop_first() =~= b@.skip(i + 1));
        i = i + 1;
    }
    i == a.len() && i < b.len()
}

/// A sort key: two numbers, a byte string and a final number, compared in that order.
pub struct SortKey {
    pub major: usize,
    pub minor: usize,
    pub text: Vec<u8>,
    pub tiebreak: usize,
}

/// The mathematical content of a sort key.
pub type KeyView = (int, int, Seq<u8>, int);

impl View for SortKey {
    type V = KeyView;

    open spec fn view(&self) -> KeyView {
        (self.major as int, self.minor as int, self.text@, self.tiebreak as int)
    }
}

/// The lexicographic order on sort keys.
pub open spec fn key_lt(a: KeyView, b: KeyView) -> bool {
    ||| a.0 < b.0
    ||| a.0 == b.0 && a.1 < b.1
    ||| a.0 == b.0 && a.1 == b.1 && lex_lt(a.2, b.2)
    ||| a.0 == b.0 && a.1 == b.1 && a.2 == b.2 && a.3 < b.3
}

/// The key order is a strict total order.
pub proof fn lemma_key_order(a: KeyView, b: KeyView, c: KeyView)
    ensures
        !key_lt(a, a),
        key_lt(a, b) ==> !key_lt(b, a),
        a != b ==> key_lt(a, b) || key_lt(b, a),
        key_lt(a, b) && key_lt(b, c) ==> key_lt(a, c),
{
    lemma_lex_irreflexive(a.2);
    lemma_lex_asymmetric(a.2, b.2);
    lemma_lex_total(a.2, b.2);
    if key_lt(a, b) && key_lt(b, c) && a.0 == b.0 && b.0 == c.0 && a.1 == b.1 && b.1 == c.1 {
        if lex_lt(a.2, b.2) && lex_lt(b.2, c.2) {
            lemma_lex_transitive(a.2, b.2, c.2);
        }
    }
}

/// Compares two sort keys.
pub fn key_less(a: &SortKey, b: &SortKey) -> (r: bool)
    ensures
        r == key_lt(a@, b@),
{
    if a.major != b.major {
        return a.major < b.major;
    }
    if a.minor != b.minor {
        return a.minor < b.minor;
    }
    let lt = bytes_lt(a.text.as_slice(), b.text.as_slice());
    if lt {
        return true;
    }
    let gt = bytes_lt(b.text.as_slice(), a.text.as_slice());
    if gt {
        return false;
    }
    proof {
        lemma_lex_total(a.text@, b.text@);
    }
    a.tiebreak < b.tiebreak
}

/// `o` lists the positions of `keys`, each once, in strictly increasing key order.
pub open spec fn is_sorted_permutation(keys: Seq<KeyView>, o: Seq<usize>) -> bool {
    &&& o.len() == keys.len()
    &&& forall|p: int| 0 <= p < o.len() ==> #[trigger] o[p] < keys.len()
    &&& forall|j: usize| j < keys.len() ==> #[trigger] o.contains(j)
    &&& forall|p: int, q: int|
        0 <= p < q < o.len() ==> key_lt(#[trigger] keys[o[p] as int], #[trigger] keys[o[q] as int])
}

/// The positions of `keys` in increasing key order (insertion sort).
pub fn sort_positions(keys: &Vec<SortKey>) -> (o: Vec<usize>)
    requires
        forall|i: int, j: int| 0 <= i < j < keys@.len() ==> keys@[i]@ != keys@[j]@,
    ensures
        is_sorted_permutation(keys@.map_values(|k: SortKey| k@), o@),
{
    let ghost kv = keys@.map_values(|k: SortKey| k@);
    let n = keys.len();
    let mut o: Vec<usize> = Vec::new();
    for i in 0..n
        invariant
            n == keys@.len(),
            kv == keys@.map_values(|k: SortKey| k@),
            forall|a: int, b: int| 0 <= a < b < n ==> kv[a] != kv[b],
            o@.len() == i,
            forall|p: int| 0 <= p < o@.len() ==> #[trigger] o@[p] < i,
            forall|j: usize| j < i ==> #[trigger] o@.contains(j),
            forall|p: int, q: int|
                0 <= p < q < o@.len() ==> key_lt(#[trigger] kv[o@[p] as int], #[trigger] kv[o@[q] as int]),
    {
        let mut pos: usize = 0;
        while pos < o.len()
            invariant
                n == keys@.len(),
                kv == keys@.map_values(|k: SortKey| k@),
                i < n,
                o@.len() == i,
                forall|p: int| 0 <= p < o@.len() ==> #[trigger] o@[p] < i,
                pos <= o@.len(),
                forall|p: int| 0 <= p < pos ==> !key_lt(kv[i as int], #[trigger] kv[o@[p] as int]),
            ensures
                pos <= o@.len(),
                forall|p: int| 0 <= p < pos ==> !key_lt(kv[i as int], #[trigger] kv[o@[p] as int]),
                pos < o@.len() ==> key_lt(kv[i as int], kv[o@[pos as int] as int]),
            decreases o@.len() - pos,
        {
            if key_less(&keys[i], &keys[o[pos]]) {
                break;
            }
            pos = pos + 1;
        }
        let ghost old_o = o@;
        o.insert(pos, i);
        proof {
            assert(o@ =~= old_o.take(pos as int).push(i).add(old_o.skip(pos as int)));
            assert forall|p: int| 0 <= p < o@.len() implies #[trigger] o@[p] < i + 1 by {
                if p < pos {
                    assert(o@[p] == old_o[p]);
                } else if p > pos {
                    assert(o@[p] == old_o[p - 1]);
                }
            }
            assert forall|j: usize| j < i + 1 implies #[trigger] o@.contains(j) by {
                if j == i {
                    assert(o@[pos as int] == i);
                } else {
                    assert(old_o.contains(j));
                    let p = choose|p: int| 0 <= p < old_o.len() && old_o[p] == j;
                    if p < pos {
                        assert(o@[p] == j);
                    } else {
                        assert(o@[p + 1] == j);
                    }
                }
            }
            assert forall|p: int, q: int| 0 <= p < q < o@.len() implies key_lt(
                #[trigger] kv[o@[p] as int],
                #[trigger] kv[o@[q] as int],
            ) by {
                let x = kv[i as int];
                if p < pos && q < pos {
                    assert(o@[p] == old_o[p] && o@[q] == old_o[q]);
                } else if p < pos && q == pos {
                    let y = kv[old_o[p] as int];
                    assert(o@[p] == old_o[p]);
                    assert(!key_lt(x, y));
                    assert(old_o[p] < i);
                    lemma_key_order(x, y, x);
                } else if p < pos && q > pos {
                    assert(o@[p] == old_o[p] && o@[q] == old_o[q - 1]);
                } else if p == pos {
                    assert(o@[q] == old_o[q - 1]);
                    if q - 1 > pos {
                        lemma_key_order(x, kv[old_o[pos as int] as int], kv[old_o[q - 1] as int]);
                    }
                } else {
                    assert(o@[p] == old_o[p - 1] && o@[q] == old_o[q - 1]);
                }
            }
        }
    }
    o
}

/// The assumptions shared by the uniqueness lemmas below.
pub open spec fn same_strict_listings(
    o1: Seq<usize>,
    o2: Seq<usize>,
    member: spec_fn(usize) -> bool,
    lt: spec_fn(usize, usize) -> bool,
) -> bool {
    &&& forall|a: usize, b: usize| #[trigger] lt(a, b) ==> !lt(b, a)
    &&& forall|p: int| 0 <= p < o1.len() ==> member(#[trigger] o1[p])
    &&& forall|p: int| 0 <= p < o2.len() ==> member(#[trigger] o2[p])
    &&& forall|j: usize| #[trigger] member(j) ==> o1.contains(j) && o2.contains(j)
    &&& forall|p: int, q: int| 0 <= p < q < o1.len() ==> lt(#[trigger] o1[p], #[trigger] o1[q])
    &&& forall|p: int, q: int| 0 <= p < q < o2.len() ==> lt(#[trigger] o2[p], #[trigger] o2[q])
}

proof fn lemma_listings_agree_up_to(
    o1: Seq<usize>,
    o2: Seq<usize>,
    member: spec_fn(usize) -> bool,
    lt: spec_fn(usize, usize) -> bool,
    k: int,
)
    requires
        same_strict_listings(o1, o2, member, lt),
        0 <= k < o1.len(),
        k < o2.len(),
    ensures
        forall|i: int| 0 <= i <= k ==> o1[i] == o2[i],
    decreases k,
{
    if k > 0 {
        lemma_listings_agree_up_to(o1, o2, member, lt, k - 1);
    }
    let x = o1[k];
    let y = o2[k];
    if x != y {
        assert(member(x));
        assert(member(y));
        let m = choose|m: int| 0 <= m < o2.len() && o2[m] == x;
        let m2 = choose|m: int| 0 <= m < o1.len() && o1[m] == y;
        if m < k {
            assert(o1[m] == x);
            assert(lt(o1[m], o1[k]));
            assert(false);
        }
        if m2 < k {
            assert(o2[m2] == y);
            assert(lt(o2[m2], o2[k]));
            assert(false);
        }
        assert(lt(o2[k], o2[m]));
        assert(lt(o1[k], o1[m2]));
        assert(false);
    }
}

/// Two listings of the same members, each strictly increasing in an
/// asymmetric order, are the same listing.
pub proof fn lemma_strict_listing_unique(
    o1: Seq<usize>,
    o2: Seq<usize>,
    member: spec_fn(usize) -> bool,
    lt: spec_fn(usize, usize) -> bool,
)
    requires
        same_strict_listings(o1, o2, member, lt),
    ensures
        o1 == o2,
{
    let n = if o1.len() < o2.len() { o1.len() } else { o2.len() };
    if n > 0 {
        lemma_listings_agree_up_to(o1, o2, member, lt, n - 1);
    }
    if o1.len() < o2.len() {
        let y = o2[n as int];
        assert(member(y));
        let m = choose|m: int| 0 <= m < o1.len() && o1[m] == y;
        assert(o2[m] == y);
        assert(lt(o2[m], o2[n as int]));
        assert(false);
    }
    if o2.len() < o1.len() {
        let y = o1[n as int];
        assert(member(y));
        let m = choose|m: int| 0 <= m < o2.len() && o2[m] == y;
        assert(o1[m] == y);
        assert(lt(o1[m], o1[n as int]));
        assert(false);
    }
    assert(o1 =~= o2);
}

} // verus!
