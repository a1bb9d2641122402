use vstd::prelude::*;

verus! {

/// `a` comes no later than `b` in the order of z-index paths: the first index where they
/// differ decides, and a path comes before the longer paths that it starts.
pub open spec fn z_le(a: Seq<u32>, b: Seq<u32>) -> bool
    decreases a.len(),
{
    if a.len() == 0 {
        true
    } else if b.len() == 0 {
        false
    } else if a[0] != b[0] {
        a[0] < b[0]
    } else {
        z_le(a.drop_first(), b.drop_first())
    }
}

/// The position at which an item with the z-indices `z` goes into the sorted items `s`: after
/// every item whose z-indices come no later.
pub open spec fn insert_pos<A, T>(s: Seq<(A, Seq<u32>, T)>, z: Seq<u32>) -> int
    decreases s.len(),
{
    if s.len() == 0 {
        0
    } else if z_le(s.last().1, z) {
        s.len() as int
    } else {
        insert_pos(s.drop_last(), z)
    }
}

/// The items sorted by their z-indices (the middle of each), items with equal z-indices kept in
/// their order.
pub open spec fn sorted_by_z<A, T>(c: Seq<(A, Seq<u32>, T)>) -> Seq<(A, Seq<u32>, T)>
    decreases c.len(),
{
    if c.len() == 0 {
        c
    } else {
        let s = sorted_by_z(c.drop_last());
        s.insert(insert_pos(s, c.last().1), c.last())
    }
}

/// Whether `a` comes no later than `b` in the order of z-index paths.
pub(crate) fn z_order(a: &Vec<u32>, b: &Vec<u32>) -> (r: bool)
    ensures
        r == z_le(a@, b@),
{
    let mut i: usize = 0;
    proof {
        assert(a@.subrange(0, a@.len() as int) =~= a@);
        assert(b@.subrange(0, b@.len() as int) =~= b@);
    }
    while i < a.len() && i < b.len() && a[i] == b[i]
        invariant
            i <= a@.len(),
            i <= b@.len(),
            z_le(a@, b@) == z_le(a@.subrange(i as int, a@.len() as int), b@.subrange(i as int, b@.len() as int)),
        decreases a@.len() - i,
    {
        proof {
            let sa = a@.subrange(i as int, a@.len() as int);
            let sb = b@.subrange(i as int, b@.len() as int);
            assert(sa.drop_first() =~= a@.subrange(i + 1, a@.len() as int));
            assert(sb.drop_first() =~= b@.subrange(i + 1, b@.len() as int));
        }
        i = i + 1;
    }
    proof {
        let sa = a@.subrange(i as int, a@.len() as int);
        let sb = b@.subrange(i as int, b@.len() as int);
        if i < a@.len() {
            assert(sa[0] == a@[i as int]);
        }
        if i < b@.len() {
            assert(sb[0] == b@[i as int]);
        }
    }
    if i == a.len() {
        true
    } else if i == b.len() {
        false
    } else {
        a[i] < b[i]
    }
}

/// Two z-index paths are always ordered one way or the other.
proof fn lemma_z_le_total(a: Seq<u32>, b: Seq<u32>)
    ensures
        z_le(a, b) || z_le(b, a),
    decreases a.len(),
{
    if a.len() > 0 && b.len() > 0 && a[0] == b[0] {
        lemma_z_le_total(a.drop_first(), b.drop_first());
    }
}

/// The order of z-index paths is transitive.
proof fn lemma_z_le_trans(a: Seq<u32>, b: Seq<u32>, c: Seq<u32>)
    requires
        z_le(a, b),
        z_le(b, c),
    ensures
        z_le(a, c),
    decreases a.len(),
{
    if a.len() > 0 && b.len() > 0 && c.len() > 0 && a[0] == b[0] && b[0] == c[0] {
        lemma_z_le_trans(a.drop_first(), b.drop_first(), c.drop_first());
    }
}

/// The items `s` are in ascending order of their z-indices.
pub open spec fn z_sorted<A, T>(s: Seq<(A, Seq<u32>, T)>) -> bool {
    forall|i: int, j: int| 0 <= i <= j < s.len() ==> z_le(#[trigger] s[i].1, #[trigger] s[j].1)
}

/// In sorted items, the insertion position of `z` has every item before it no later than `z`
/// and every item after it later than `z`.
proof fn lemma_insert_pos<A, T>(s: Seq<(A, Seq<u32>, T)>, z: Seq<u32>)
    requires
        z_sorted(s),
    ensures
        0 <= insert_pos(s, z) <= s.len(),
        forall|k: int| 0 <= k < insert_pos(s, z) ==> z_le(#[trigger] s[k].1, z),
        forall|k: int| insert_pos(s, z) <= k < s.len() ==> !z_le(#[trigger] s[k].1, z),
    decreases s.len(),
{
    if s.len() > 0 {
        let l = s.len() - 1;
        if z_le(s.last().1, z) {
            assert forall|k: int| 0 <= k < s.len() implies z_le(#[trigger] s[k].1, z) by {
                assert(z_le(s[k].1, s[l].1));
                lemma_z_le_trans(s[k].1, s[l].1, z);
            }
        } else {
            let d = s.drop_last();
            assert forall|i: int, j: int| 0 <= i <= j < d.len() implies z_le(
                #[trigger] d[i].1,
                #[trigger] d[j].1,
            ) by {
                assert(d[i] == s[i] && d[j] == s[j]);
            }
            lemma_insert_pos(d, z);
            assert forall|k: int| 0 <= k < insert_pos(s, z) implies z_le(#[trigger] s[k].1, z) by {
                assert(d[k] == s[k]);
            }
            assert forall|k: int| insert_pos(s, z) <= k < s.len() implies !z_le(
                #[trigger] s[k].1,
                z,
            ) by {
                if k < l {
                    assert(d[k] == s[k]);
                }
            }
        }
    }
}

/// Sorting by z-indices orders the items by ascending z-indices and neither loses nor repeats
/// one: `sorted_by_z` is sorted and holds the same items as its argument.
pub proof fn lemma_sorted_by_z<A, T>(c: Seq<(A, Seq<u32>, T)>)
    ensures
        z_sorted(sorted_by_z(c)),
        sorted_by_z(c).to_multiset() == c.to_multiset(),
        sorted_by_z(c).len() == c.len(),
    decreases c.len(),
{
    broadcast use vstd::seq_lib::group_to_multiset_ensures;
    broadcast use vstd::multiset::group_multiset_axioms;

    if c.len() > 0 {
        let s = sorted_by_z(c.drop_last());
        lemma_sorted_by_z(c.drop_last());
        let x = c.last();
        let p = insert_pos(s, x.1);
        lemma_insert_pos(s, x.1);
        let t = s.insert(p, x);
        assert(t == sorted_by_z(c));
        assert forall|i: int, j: int| 0 <= i <= j < t.len() implies z_le(
            #[trigger] t[i].1,
            #[trigger] t[j].1,
        ) by {
            if i < p && j < p {
                assert(t[i] == s[i] && t[j] == s[j]);
            } else if i < p && j == p {
                assert(t[i] == s[i]);
            } else if i < p {
                assert(t[i] == s[i] && t[j] == s[j - 1]);
            } else if i == p && j == p {
                lemma_z_le_total(x.1, x.1);
            } else if i == p {
                assert(t[j] == s[j - 1]);
                lemma_z_le_total(s[j - 1].1, x.1);
            } else {
                assert(t[i] == s[i - 1] && t[j] == s[j - 1]);
            }
        }
        assert(t.remove(p) =~= s);
        assert(c.drop_last().push(x) =~= c);
        assert(t.to_multiset().count(x) > 0) by {
            assert(t[p] == x);
            assert(t.contains(x));
        }
        assert(t.to_multiset() =~= s.to_multiset().insert(x)) by {
            assert(t.to_multiset().remove(x) == s.to_multiset());
        }
    }
}

/// The items with their z-indices as sequences.
pub open spec fn keyed<A, T>(v: Seq<(A, Vec<u32>, T)>) -> Seq<(A, Seq<u32>, T)> {
    v.map_values(|e: (A, Vec<u32>, T)| (e.0, e.1@, e.2))
}

/// Sorts the items by their z-indices (a stable insertion sort).
pub(crate) fn sort_by_z_path<A, T>(v: Vec<(A, Vec<u32>, T)>) -> (r: Vec<(A, Vec<u32>, T)>)
    ensures
        keyed(r@) == sorted_by_z(keyed(v@)),
{
    let ghost c = keyed(v@);
    let mut sorted: Vec<(A, Vec<u32>, T)> = Vec::new();
    for e in it: v
        invariant
            keyed(it.seq()) == c,
            keyed(sorted@) == sorted_by_z(c.take(it.index() as int)),
    {
        proof {
            let t = c.take(it.index() + 1);
            assert(t.drop_last() =~= c.take(it.index() as int));
            assert(t.last() == (e.0, e.1@, e.2));
        }
        let ghost s = keyed(sorted@);
        let mut p: usize = sorted.len();
        proof {
            assert(s.take(p as int) =~= s);
        }
        while p > 0 && !z_order(&sorted[p - 1].1, &e.1)
            invariant
                s == keyed(sorted@),
                p <= s.len(),
                insert_pos(s, e.1@) == insert_pos(s.take(p as int), e.1@),
            decreases p,
        {
            proof {
                let t = s.take(p as int);
                assert(t.drop_last() =~= s.take(p - 1));
                assert(t.last() == s[p - 1]);
            }
            p = p - 1;
        }
        proof {
            if p > 0 {
                let t = s.take(p as int);
                assert(t.last() == s[p - 1]);
            }
        }
        let ghost ek = (e.0, e.1@, e.2);
        sorted.insert(p, e);
        assert(keyed(sorted@) =~= s.insert(p as int, ek));
    }
    proof {
        assert(c.take(c.len() as int) =~= c);
    }
    sorted
}

/// The insertion position depends only on the z-indices of the items.
proof fn lemma_insert_pos_map<A, T, B, U>(
    s: Seq<(A, Seq<u32>, T)>,
    z: Seq<u32>,
    m: spec_fn((A, Seq<u32>, T)) -> (B, Seq<u32>, U),
)
    requires
        forall|e: (A, Seq<u32>, T)| #[trigger] m(e).1 == e.1,
    ensures
        insert_pos(s.map_values(m), z) == insert_pos(s, z),
    decreases s.len(),
{
    if s.len() > 0 {
        assert(s.map_values(m).drop_last() =~= s.drop_last().map_values(m));
        assert(s.map_values(m).last() == m(s.last()));
        lemma_insert_pos_map(s.drop_last(), z, m);
    }
}

/// Sorting by z-indices commutes with a map that keeps the z-indices of the items.
pub proof fn lemma_sorted_by_z_map<A, T, B, U>(
    c: Seq<(A, Seq<u32>, T)>,
    m: spec_fn((A, Seq<u32>, T)) -> (B, Seq<u32>, U),
)
    requires
        forall|e: (A, Seq<u32>, T)| #[trigger] m(e).1 == e.1,
    ensures
        sorted_by_z(c.map_values(m)) == sorted_by_z(c).map_values(m),
    decreases c.len(),
{
    if c.len() > 0 {
        let cm = c.map_values(m);
        assert(cm.drop_last() =~= c.drop_last().map_values(m));
        assert(cm.last() == m(c.last()));
        lemma_sorted_by_z_map(c.drop_last(), m);
        let s = sorted_by_z(c.drop_last());
        lemma_insert_pos_map(s, c.last().1, m);
        assert(m(c.last()).1 == c.last().1);
        let p = insert_pos(s, c.last().1);
        lemma_sorted_by_z(c.drop_last());
        lemma_insert_pos(s, c.last().1);
        assert(s.map_values(m).insert(p, m(c.last())) =~= s.insert(p, c.last()).map_values(m));
    }
}

} // verus!
