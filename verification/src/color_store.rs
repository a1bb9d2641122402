use vstd::prelude::*;

verus! {

/// The store for the larger data of colors (position gradients, time gradients, patterns), so
/// that a color holds only an index into it. `D` is what gradient stop positions are, `T` what
/// time gradient stop times are, and `C` what a color is. Position gradients and patterns are
/// kept with whether they change with time (a time gradient always does).
pub struct ColorStore<D, T, C> {
    pub pos_gradients: Vec<(Vec<(D, C)>, bool)>,
    pub time_gradients: Vec<Vec<(T, C)>>,
    pub patterns: Vec<(Vec<Vec<C>>, bool)>,
}

impl<D, T, C> Default for ColorStore<D, T, C> {
    fn default() -> (s: ColorStore<D, T, C>)
        ensures
            s.pos_gradients@.len() == 0,
            s.time_gradients@.len() == 0,
            s.patterns@.len() == 0,
    {
        ColorStore { pos_gradients: Vec::new(), time_gradients: Vec::new(), patterns: Vec::new() }
    }
}

/// Where `same` found `item` among `stored` (whose items `key` picks): the index of the first
/// item found the same, every item before it found different; `None` where every item was found
/// different. `found` holds what `same` gave for each item it was asked about.
pub open spec fn first_same<K, F: Fn(&K, &K) -> bool>(
    same: F,
    stored: Seq<K>,
    item: K,
    r: Option<nat>,
) -> bool {
    match r {
        Some(i) => {
            &&& i < stored.len()
            &&& same.ensures((&stored[i as int], &item), true)
            &&& forall|j: int| 0 <= j < i ==> same.ensures((&#[trigger] stored[j], &item), false)
        },
        None => forall|j: int| 0 <= j < stored.len() ==> same.ensures((&#[trigger] stored[j], &item), false),
    }
}

/// Looks for an item that `same` finds the same as `item`, in order.
fn find_same<K, F: Fn(&K, &K) -> bool>(stored: &Vec<K>, item: &K, same: &F) -> (r: Option<usize>)
    requires
        forall|a: &K, b: &K| same.requires((a, b)),
    ensures
        first_same(*same, stored@, *item, match r {
            Some(i) => Some(i as nat),
            None => None,
        }),
{
    let mut i: usize = 0;
    while i < stored.len()
        invariant
            forall|a: &K, b: &K| same.requires((a, b)),
            i <= stored@.len(),
            forall|j: int| 0 <= j < i ==> same.ensures((&#[trigger] stored@[j], item), false),
        decreases stored@.len() - i,
    {
        if same(&stored[i], item) {
            return Some(i);
        }
        i = i + 1;
    }
    None
}

/// `any` is whether `f` found any of `items` true, asking in order and stopping at the first
/// true.
pub open spec fn any_found<A, F: Fn(&A) -> bool>(f: F, items: Seq<A>, any: bool) -> bool {
    if any {
        exists|i: int|
            0 <= i < items.len() && f.ensures((&items[i],), true) && forall|j: int|
                0 <= j < i ==> f.ensures((&#[trigger] items[j],), false)
    } else {
        forall|j: int| 0 <= j < items.len() ==> f.ensures((&#[trigger] items[j],), false)
    }
}

/// The colors of a pattern, row after row.
pub open spec fn pattern_colors<C>(p: Seq<Vec<C>>) -> Seq<C>
    decreases p.len(),
{
    if p.len() == 0 {
        Seq::empty()
    } else {
        pattern_colors(p.drop_last()) + p.last()@
    }
}

/// Whether a pattern changes with time: whether `is_time_effected` finds any of its colors, row
/// after row, to change with time.
pub fn pattern_time_effected<C, E: Fn(&C) -> bool>(pattern: &Vec<Vec<C>>, is_time_effected: &E) -> (r: bool)
    requires
        forall|c: &C| is_time_effected.requires((c,)),
    ensures
        any_found(*is_time_effected, pattern_colors(pattern@), r),
{
    let ghost all = pattern_colors(pattern@);
    let mut y: usize = 0;
    while y < pattern.len()
        invariant
            forall|c: &C| is_time_effected.requires((c,)),
            all == pattern_colors(pattern@),
            y <= pattern@.len(),
            forall|j: int|
                0 <= j < pattern_colors(pattern@.take(y as int)).len() ==> is_time_effected.ensures(
                    (&#[trigger] pattern_colors(pattern@.take(y as int))[j],),
                    false,
                ),
        decreases pattern@.len() - y,
    {
        let ghost before = pattern_colors(pattern@.take(y as int));
        proof {
            assert(pattern@.take(y + 1).drop_last() =~= pattern@.take(y as int));
        }
        let mut x: usize = 0;
        while x < pattern[y].len()
            invariant
                forall|c: &C| is_time_effected.requires((c,)),
                all == pattern_colors(pattern@),
                y < pattern@.len(),
                before == pattern_colors(pattern@.take(y as int)),
                x <= pattern@[y as int]@.len(),
                forall|j: int| 0 <= j < before.len() ==> is_time_effected.ensures((&#[trigger] before[j],), false),
                forall|j: int| 0 <= j < x ==> is_time_effected.ensures((&#[trigger] pattern@[y as int]@[j],), false),
            decreases pattern@[y as int]@.len() - x,
        {
            if is_time_effected(&pattern[y][x]) {
                proof {
                    lemma_pattern_colors_prefix(pattern@, y as nat);
                    let k = before.len() + x;
                    assert(all[k] == pattern@[y as int]@[x as int]);
                    assert forall|j: int| 0 <= j < k implies is_time_effected.ensures((&#[trigger] all[j],), false) by {
                        if j < before.len() {
                            assert(all[j] == before[j]);
                        } else {
                            assert(all[j] == pattern@[y as int]@[j - before.len()]);
                        }
                    }
                }
                return true;
            }
            x = x + 1;
        }
        proof {
            let after = pattern_colors(pattern@.take(y + 1));
            assert(after =~= before + pattern@[y as int]@);
            assert forall|j: int| 0 <= j < after.len() implies is_time_effected.ensures((&#[trigger] after[j],), false) by {
                if j < before.len() {
                    assert(after[j] == before[j]);
                } else {
                    assert(after[j] == pattern@[y as int]@[j - before.len()]);
                }
            }
        }
        y = y + 1;
    }
    proof {
        assert(pattern@.take(pattern@.len() as int) =~= pattern@);
    }
    false
}

/// The colors of the rows before `y` come first among the colors of a pattern, followed by the
/// colors of row `y`.
proof fn lemma_pattern_colors_prefix<C>(p: Seq<Vec<C>>, y: nat)
    requires
        y < p.len(),
    ensures
        pattern_colors(p).len() >= pattern_colors(p.take(y as int)).len() + p[y as int]@.len(),
        forall|j: int|
            0 <= j < pattern_colors(p.take(y as int)).len() ==> #[trigger] pattern_colors(p)[j]
                == pattern_colors(p.take(y as int))[j],
        forall|j: int|
            0 <= j < p[y as int]@.len() ==> pattern_colors(p)[pattern_colors(p.take(y as int)).len() + j]
                == #[trigger] p[y as int]@[j],
    decreases p.len(),
{
    if y + 1 < p.len() {
        let d = p.drop_last();
        assert(d.take(y as int) =~= p.take(y as int));
        assert(d[y as int] == p[y as int]);
        lemma_pattern_colors_prefix(d, y);
    } else {
        assert(p.drop_last() =~= p.take(y as int));
    }
}

/// Adds `item` (with `flag`) to `stored` unless `same` finds an item there the same: returns
/// the index of that item, or of the added one.
fn intern<K, F: Fn(&K, &K) -> bool>(stored: &mut Vec<(K, bool)>, item: K, flag: bool, same: &F) -> (r: usize)
    requires
        forall|a: &K, b: &K| same.requires((a, b)),
    ensures
        ({
            let keys = old(stored)@.map_values(|e: (K, bool)| e.0);
            ||| r < old(stored)@.len() && first_same(*same, keys, item, Some(r as nat))
                && final(stored)@ == old(stored)@
            ||| r == old(stored)@.len() && first_same(*same, keys, item, None) && final(stored)@
                == old(stored)@.push((item, flag))
        }),
        consistent::<K, F>(*same) && reflexive::<K, F>(*same) ==> first_same(
            *same,
            final(stored)@.map_values(|e: (K, bool)| e.0),
            item,
            Some(r as nat),
        ),
{
    let ghost keys = stored@.map_values(|e: (K, bool)| e.0);
    let mut i: usize = 0;
    while i < stored.len()
        invariant
            forall|a: &K, b: &K| same.requires((a, b)),
            keys == stored@.map_values(|e: (K, bool)| e.0),
            i <= stored@.len(),
            forall|j: int| 0 <= j < i ==> same.ensures((&#[trigger] keys[j], &item), false),
        decreases stored@.len() - i,
    {
        if same(&stored[i].0, &item) {
            proof {
                assert(first_same(*same, keys, item, Some(i as nat)));
            }
            return i;
        }
        i = i + 1;
    }
    proof {
        assert(first_same(*same, keys, item, None));
    }
    let n = stored.len();
    stored.push((item, flag));
    proof {
        let keys2 = stored@.map_values(|e: (K, bool)| e.0);
        assert(keys2 =~= keys.push(item));
        assert forall|j: int| 0 <= j < n implies same.ensures((&#[trigger] keys2[j], &item), false) by {
            assert(keys2[j] == keys[j]);
        }
    }
    n
}

/// `same` finds every item the same as itself.
pub open spec fn reflexive<K, F: Fn(&K, &K) -> bool>(same: F) -> bool {
    forall|k: K| same.ensures((&k, &k), true)
}

/// `same` answers the same way each time about the same pair: it is a plain comparison.
pub open spec fn consistent<K, F: Fn(&K, &K) -> bool>(same: F) -> bool {
    forall|a: K, b: K, x: bool, y: bool| same.ensures((&a, &b), x) && same.ensures((&a, &b), y) ==> x == y
}

impl<D, T, C> ColorStore<D, T, C> {
    /// Stores a pattern, unless `same` finds one stored the same; returns its index. A new
    /// pattern is kept with `time_effected` (see `pattern_time_effected`).
    pub fn add_pattern<F: Fn(&Vec<Vec<C>>, &Vec<Vec<C>>) -> bool>(
        &mut self,
        pattern: Vec<Vec<C>>,
        time_effected: bool,
        same: &F,
    ) -> (r: usize)
        requires
            forall|a: &Vec<Vec<C>>, b: &Vec<Vec<C>>| same.requires((a, b)),
        ensures
            ({
                let keys = old(self).patterns@.map_values(|e: (Vec<Vec<C>>, bool)| e.0);
                ||| r < old(self).patterns@.len() && first_same(*same, keys, pattern, Some(r as nat))
                    && final(self).patterns@ == old(self).patterns@
                ||| r == old(self).patterns@.len() && first_same(*same, keys, pattern, None)
                    && final(self).patterns@ == old(self).patterns@.push((pattern, time_effected))
            }),
            consistent::<Vec<Vec<C>>, F>(*same) && reflexive::<Vec<Vec<C>>, F>(*same) ==> first_same(
                *same,
                final(self).patterns@.map_values(|e: (Vec<Vec<C>>, bool)| e.0),
                pattern,
                Some(r as nat),
            ),
            final(self).pos_gradients == old(self).pos_gradients,
            final(self).time_gradients == old(self).time_gradients,
    {
        intern(&mut self.patterns, pattern, time_effected, same)
    }

    /// Stores a position gradient, unless `same` finds one stored the same; returns its index.
    /// A new gradient is kept with `time_effected` (whether any of its colors changes with
    /// time).
    pub fn add_pos_gradient<F: Fn(&Vec<(D, C)>, &Vec<(D, C)>) -> bool>(
        &mut self,
        gr: Vec<(D, C)>,
        time_effected: bool,
        same: &F,
    ) -> (r: usize)
        requires
            forall|a: &Vec<(D, C)>, b: &Vec<(D, C)>| same.requires((a, b)),
        ensures
            ({
                let keys = old(self).pos_gradients@.map_values(|e: (Vec<(D, C)>, bool)| e.0);
                ||| r < old(self).pos_gradients@.len() && first_same(*same, keys, gr, Some(r as nat))
                    && final(self).pos_gradients@ == old(self).pos_gradients@
                ||| r == old(self).pos_gradients@.len() && first_same(*same, keys, gr, None)
                    && final(self).pos_gradients@ == old(self).pos_gradients@.push((gr, time_effected))
            }),
            consistent::<Vec<(D, C)>, F>(*same) && reflexive::<Vec<(D, C)>, F>(*same) ==> first_same(
                *same,
                final(self).pos_gradients@.map_values(|e: (Vec<(D, C)>, bool)| e.0),
                gr,
                Some(r as nat),
            ),
            final(self).patterns == old(self).patterns,
            final(self).time_gradients == old(self).time_gradients,
    {
        intern(&mut self.pos_gradients, gr, time_effected, same)
    }

    /// Stores a time gradient, unless `same` finds one stored the same; returns its index.
    pub fn add_time_gradient<F: Fn(&Vec<(T, C)>, &Vec<(T, C)>) -> bool>(&mut self, gr: Vec<(T, C)>, same: &F) -> (r:
        usize)
        requires
            forall|a: &Vec<(T, C)>, b: &Vec<(T, C)>| same.requires((a, b)),
        ensures
            r < old(self).time_gradients@.len() && first_same(*same, old(self).time_gradients@, gr, Some(r as nat))
                && final(self).time_gradients@ == old(self).time_gradients@ || r == old(self).time_gradients@.len()
                && first_same(*same, old(self).time_gradients@, gr, None) && final(self).time_gradients@
                == old(self).time_gradients@.push(gr),
            consistent::<Vec<(T, C)>, F>(*same) && reflexive::<Vec<(T, C)>, F>(*same) ==> first_same(
                *same,
                final(self).time_gradients@,
                gr,
                Some(r as nat),
            ),
            final(self).patterns == old(self).patterns,
            final(self).pos_gradients == old(self).pos_gradients,
    {
        match find_same(&self.time_gradients, &gr, same) {
            Some(i) => i,
            None => {
                let n = self.time_gradients.len();
                let ghost g = gr;
                let ghost before = self.time_gradients@;
                self.time_gradients.push(gr);
                proof {
                    assert forall|j: int| 0 <= j < n implies same.ensures((&#[trigger] self.time_gradients@[j], &g), false) by {
                        assert(self.time_gradients@[j] == before[j]);
                    }
                }
                n
            },
        }
    }

    /// Whether the pattern at `id` changes with time (false where there is none).
    pub fn is_pattern_time_effected(&self, id: usize) -> (r: bool)
        ensures
            r == (id < self.patterns@.len() && self.patterns@[id as int].1),
    {
        if id < self.patterns.len() {
            self.patterns[id].1
        } else {
            false
        }
    }

    /// Whether the position gradient at `id` changes with time (false where there is none).
    pub fn is_gradient_time_effected(&self, id: usize) -> (r: bool)
        ensures
            r == (id < self.pos_gradients@.len() && self.pos_gradients@[id as int].1),
    {
        if id < self.pos_gradients.len() {
            self.pos_gradients[id].1
        } else {
            false
        }
    }
}

/// Whether any stop of a gradient has a color that `is_time_effected` finds to change with time
/// (asking in order and stopping at the first).
pub fn gradient_time_effected<D, C, E: Fn(&C) -> bool>(gr: &Vec<(D, C)>, is_time_effected: &E) -> (r: bool)
    requires
        forall|c: &C| is_time_effected.requires((c,)),
    ensures
        any_found(*is_time_effected, gr@.map_values(|s: (D, C)| s.1), r),
{
    let ghost cs = gr@.map_values(|s: (D, C)| s.1);
    let mut i: usize = 0;
    while i < gr.len()
        invariant
            forall|c: &C| is_time_effected.requires((c,)),
            cs == gr@.map_values(|s: (D, C)| s.1),
            i <= gr@.len(),
            forall|j: int| 0 <= j < i ==> is_time_effected.ensures((&#[trigger] cs[j],), false),
        decreases gr@.len() - i,
    {
        if is_time_effected(&gr[i].1) {
            assert(cs[i as int] == gr@[i as int].1);
            return true;
        }
        i = i + 1;
    }
    false
}

/// Storing the same item twice gives the same index and stores it once, where `same` is a
/// plain comparison: after the first store, `keys` holds the item first at `r1` (as the add
/// functions state for a consistent `same` that finds every item the same as itself); the
/// second store then finds it (`found`, with the keys unchanged) at `r2 == r1`.
pub proof fn lemma_add_twice<K, F: Fn(&K, &K) -> bool>(same: F, keys: Seq<K>, item: K, r1: nat, r2: nat, found: bool)
    requires
        consistent::<K, F>(same),
        first_same(same, keys, item, Some(r1)),
        found ==> first_same(same, keys, item, Some(r2)),
        !found ==> first_same(same, keys, item, None),
    ensures
        found,
        r2 == r1,
{
    if !found {
        assert(same.ensures((&keys[r1 as int], &item), false));
    } else if r2 < r1 {
        assert(same.ensures((&keys[r2 as int], &item), false));
    } else if r2 > r1 {
        assert(same.ensures((&keys[r1 as int], &item), false));
    }
}

/// `same` tells two values apart just as `==` does: whatever it answers about a pair is
/// whether they are equal.
pub open spec fn is_equality<K, F: Fn(&K, &K) -> bool>(same: F) -> bool {
    forall|a: K, b: K, x: bool| #[trigger] same.ensures((&a, &b), x) ==> x == (a == b)
}

/// What interning `item` (with `flag`) into `old` did where it gave `new` and returned `r`:
/// either the first entry found the same, the store unchanged, or a new last entry (see
/// `ColorStore::add_pattern`).
pub open spec fn interned<K, F: Fn(&K, &K) -> bool>(
    same: F,
    old: Seq<(K, bool)>,
    item: K,
    flag: bool,
    r: nat,
    new: Seq<(K, bool)>,
) -> bool {
    let keys = old.map_values(|e: (K, bool)| e.0);
    ||| r < old.len() && first_same(same, keys, item, Some(r)) && new == old
    ||| r == old.len() && first_same(same, keys, item, None) && new == old.push((item, flag))
}

/// Where `same` is equality, the first item found the same is the first equal one, and where
/// none is found, none is equal.
pub proof fn lemma_first_same_is_first_equal<K, F: Fn(&K, &K) -> bool>(same: F, keys: Seq<K>, item: K, r: Option<nat>)
    requires
        is_equality::<K, F>(same),
        first_same(same, keys, item, r),
    ensures
        match r {
            Some(i) => i < keys.len() && keys[i as int] == item && forall|j: int| 0 <= j < i ==> keys[j] != item,
            None => !keys.contains(item),
        },
{
    match r {
        Some(i) => {
            assert(same.ensures((&keys[i as int], &item), true));
            assert forall|j: int| 0 <= j < i implies keys[j] != item by {
                assert(same.ensures((&keys[j], &item), false));
            }
        },
        None => {
            if keys.contains(item) {
                let j = choose|j: int| 0 <= j < keys.len() && keys[j] == item;
                assert(same.ensures((&keys[j], &item), false));
            }
        },
    }
}

/// Adding a pattern (or gradient) to the store, where the comparison is equality, returns the
/// first index that holds it, and keeps one more entry only where none held it; adding it a
/// second time returns the same index and changes nothing.
pub proof fn lemma_add_equal_twice<K, F: Fn(&K, &K) -> bool>(
    same: F,
    q0: Seq<(K, bool)>,
    item: K,
    flag: bool,
    r1: nat,
    q1: Seq<(K, bool)>,
    r2: nat,
    q2: Seq<(K, bool)>,
)
    requires
        is_equality::<K, F>(same),
        interned(same, q0, item, flag, r1, q1),
        interned(same, q1, item, flag, r2, q2),
    ensures
        r1 < q1.len() && q1[r1 as int].0 == item,
        forall|j: int| 0 <= j < r1 ==> q0[j].0 != item,
        q1.len() == q0.len() + (if q0.map_values(|e: (K, bool)| e.0).contains(item) { 0int } else { 1int }),
        r2 == r1,
        q2 == q1,
{
    let k0 = q0.map_values(|e: (K, bool)| e.0);
    let k1 = q1.map_values(|e: (K, bool)| e.0);
    if r1 < q0.len() && first_same(same, k0, item, Some(r1)) && q1 == q0 {
        lemma_first_same_is_first_equal(same, k0, item, Some(r1));
        assert(k0[r1 as int] == q0[r1 as int].0);
        assert forall|j: int| 0 <= j < r1 implies q0[j].0 != item by {
            assert(k0[j] == q0[j].0);
        }
    } else {
        lemma_first_same_is_first_equal(same, k0, item, None);
        assert forall|j: int| 0 <= j < r1 implies q0[j].0 != item by {
            assert(k0[j] == q0[j].0);
            assert(k0.contains(k0[j]));
        }
    }
    assert(k1[r1 as int] == item);
    assert forall|j: int| 0 <= j < r1 implies k1[j] != item by {
        assert(k1[j] == q1[j].0);
        assert(q1[j] == q0[j]);
    }
    if r2 < q1.len() && first_same(same, k1, item, Some(r2)) && q2 == q1 {
        lemma_first_same_is_first_equal(same, k1, item, Some(r2));
        if r2 < r1 {
            assert(k1[r2 as int] != item);
        } else if r2 > r1 {
            assert(k1[r1 as int] != item);
        }
    } else {
        lemma_first_same_is_first_equal(same, k1, item, None);
        assert(k1.contains(k1[r1 as int]));
    }
}

} // verus!
