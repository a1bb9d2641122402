use vstd::prelude::*;
use crate::ch::{clone_of, DrawChPos};
use crate::z_order::{keyed, lemma_sorted_by_z_map, sort_by_z_path, sorted_by_z};

verus! {

/// The ids of an element path, each by its text.
pub open spec fn ids_view(ids: Seq<String>) -> Seq<Seq<char>> {
    ids.map_values(|s: String| s@)
}

/// `p` is a prefix of `s`.
pub open spec fn is_prefix(p: Seq<Seq<char>>, s: Seq<Seq<char>>) -> bool {
    p.len() <= s.len() && s.subrange(0, p.len() as int) == p
}

/// Whether two element paths name the same ids.
fn ids_eq(a: &Vec<String>, b: &Vec<String>) -> (r: bool)
    ensures
        r == (ids_view(a@) == ids_view(b@)),
{
    if a.len() != b.len() {
        assert(ids_view(a@).len() != ids_view(b@).len());
        return false;
    }
    let mut i: usize = 0;
    while i < a.len()
        invariant
            a@.len() == b@.len(),
            i <= a@.len(),
            forall|j: int| 0 <= j < i ==> (#[trigger] a@[j])@ == b@[j]@,
        decreases a@.len() - i,
    {
        if a[i] != b[i] {
            assert(ids_view(a@)[i as int] != ids_view(b@)[i as int]);
            return false;
        }
        i = i + 1;
    }
    assert(ids_view(a@) =~= ids_view(b@));
    true
}

/// Whether the path `p` starts the path `s`.
fn ids_starts_with(s: &Vec<String>, p: &Vec<String>) -> (r: bool)
    ensures
        r == is_prefix(ids_view(p@), ids_view(s@)),
{
    if p.len() > s.len() {
        return false;
    }
    let mut i: usize = 0;
    while i < p.len()
        invariant
            p@.len() <= s@.len(),
            i <= p@.len(),
            forall|j: int| 0 <= j < i ==> (#[trigger] p@[j])@ == s@[j]@,
        decreases p@.len() - i,
    {
        if s[i] != p[i] {
            assert(ids_view(s@).subrange(0, p@.len() as int)[i as int] != ids_view(p@)[i as int]);
            return false;
        }
        i = i + 1;
    }
    assert(ids_view(s@).subrange(0, p@.len() as int) =~= ids_view(p@));
    true
}

/// A copy of an element path.
fn clone_ids(v: &Vec<String>) -> (r: Vec<String>)
    ensures
        ids_view(r@) == ids_view(v@),
{
    let mut out: Vec<String> = Vec::new();
    let mut i: usize = 0;
    while i < v.len()
        invariant
            i <= v@.len(),
            out@.len() == i,
            forall|j: int| 0 <= j < i ==> (#[trigger] out@[j])@ == v@[j]@,
        decreases v@.len() - i,
    {
        out.push(v[i].clone());
        i = i + 1;
    }
    assert(ids_view(out@) =~= ids_view(v@));
    out
}

/// A copy of a path of z-indices.
fn clone_zs(v: &Vec<u32>) -> (r: Vec<u32>)
    ensures
        r@ == v@,
{
    let mut out: Vec<u32> = Vec::new();
    let mut i: usize = 0;
    while i < v.len()
        invariant
            i <= v@.len(),
            out@ == v@.take(i as int),
        decreases v@.len() - i,
    {
        out.push(v[i]);
        assert(v@.take(i + 1) =~= v@.take(i as int).push(v@[i as int]));
        i = i + 1;
    }
    assert(v@.take(v@.len() as int) =~= v@);
    out
}

/// Clones of positioned characters.
fn clone_dcps<S: Clone>(v: &Vec<DrawChPos<S>>) -> (r: Vec<DrawChPos<S>>)
    ensures
        dcps_clone_of(v@, r@),
{
    let mut out: Vec<DrawChPos<S>> = Vec::new();
    let mut i: usize = 0;
    while i < v.len()
        invariant
            i <= v@.len(),
            out@.len() == i,
            forall|j: int| 0 <= j < i ==> dcp_clone_of(v@[j], #[trigger] out@[j]),
        decreases v@.len() - i,
    {
        out.push(v[i].clone());
        i = i + 1;
    }
    out
}

/// `b` is a clone of the positioned character `a`: same place, same character, a clone of the
/// style.
pub open spec fn dcp_clone_of<S: Clone>(a: DrawChPos<S>, b: DrawChPos<S>) -> bool {
    clone_of(a.ch, b.ch) && b.x == a.x && b.y == a.y
}

/// `b` holds clones of the positioned characters of `a`, in order.
pub open spec fn dcps_clone_of<S: Clone>(a: Seq<DrawChPos<S>>, b: Seq<DrawChPos<S>>) -> bool {
    b.len() == a.len() && forall|j: int| 0 <= j < a.len() ==> dcp_clone_of(a[j], #[trigger] b[j])
}

// ------------------------------------------------------------------------------------------
// Draw updates

/// What to do with the drawing attributed to a sub-id.
pub enum DrawAction<S> {
    /// delete everything at or prefixed with this sub_id
    ClearAll,
    /// deletes everything at this sub_id, does not effect
    /// other items with this sub_id prefix
    Remove,
    /// remove-all then add DrawChPos's
    Update(Vec<DrawChPos<S>>),
    /// extend to the DrawChPos's at the sub_id.
    /// no old draw items are removed.
    Extend(Vec<DrawChPos<S>>),
}

/// A draw update of an element: the sub-id (path of element ids) it applies to, the z-index
/// of each layer of that path, and the action.
pub struct DrawUpdate<S> {
    /// sub element-id attributed to these changes too. This is useful for container elements which
    /// contain sub-elements which may only be updated individually.
    /// For non-container elements, this should just be an empty vector.
    pub sub_id: Vec<String>,
    /// cooresponding z-index for each layer of element-id
    pub z_indicies: Vec<u32>,
    /// The draw update action to take
    pub action: DrawAction<S>,
}

impl<S> DrawUpdate<S> {
    pub fn clear_all() -> (u: DrawUpdate<S>)
        ensures
            u.sub_id@.len() == 0,
            u.z_indicies@.len() == 0,
            u.action is ClearAll,
    {
        DrawUpdate { sub_id: Vec::new(), z_indicies: Vec::new(), action: DrawAction::ClearAll }
    }

    pub fn remove() -> (u: DrawUpdate<S>)
        ensures
            u.sub_id@.len() == 0,
            u.z_indicies@.len() == 0,
            u.action is Remove,
    {
        DrawUpdate { sub_id: Vec::new(), z_indicies: Vec::new(), action: DrawAction::Remove }
    }

    pub fn update(updates: Vec<DrawChPos<S>>) -> (u: DrawUpdate<S>)
        ensures
            u.sub_id@.len() == 0,
            u.z_indicies@.len() == 0,
            u.action == DrawAction::Update(updates),
    {
        DrawUpdate { sub_id: Vec::new(), z_indicies: Vec::new(), action: DrawAction::Update(updates) }
    }

    pub fn extend(updates: Vec<DrawChPos<S>>) -> (u: DrawUpdate<S>)
        ensures
            u.sub_id@.len() == 0,
            u.z_indicies@.len() == 0,
            u.action == DrawAction::Extend(updates),
    {
        DrawUpdate { sub_id: Vec::new(), z_indicies: Vec::new(), action: DrawAction::Extend(updates) }
    }

    pub fn clear_all_at_sub_id(sub_id: Vec<String>) -> (u: DrawUpdate<S>)
        ensures
            u.sub_id == sub_id,
            u.z_indicies@.len() == 0,
            u.action is ClearAll,
    {
        DrawUpdate { sub_id, z_indicies: Vec::new(), action: DrawAction::ClearAll }
    }

    pub fn remove_at_sub_id(sub_id: Vec<String>) -> (u: DrawUpdate<S>)
        ensures
            u.sub_id == sub_id,
            u.z_indicies@.len() == 0,
            u.action is Remove,
    {
        DrawUpdate { sub_id, z_indicies: Vec::new(), action: DrawAction::Remove }
    }

    /// Puts `id` (with z-index `z`) in front of the sub-id: the update of a sub-element becomes
    /// one of its parent.
    pub fn prepend_id(&mut self, id: String, z: u32)
        ensures
            final(self).sub_id@ == old(self).sub_id@.insert(0, id),
            final(self).z_indicies@ == old(self).z_indicies@.insert(0, z),
            final(self).action == old(self).action,
    {
        self.sub_id.insert(0, id);
        self.z_indicies.insert(0, z);
    }
}

// ------------------------------------------------------------------------------------------
// One cached screen position

/// A drawing layer at one screen position: the element path it belongs to, its z-indices,
/// and the positioned character.
pub open spec fn layer_view<S>(l: (Vec<String>, Vec<u32>, DrawChPos<S>)) -> (
    Seq<Seq<char>>,
    Seq<u32>,
    DrawChPos<S>,
) {
    (ids_view(l.0@), l.1@, l.2)
}

/// The layers, each by its view.
pub open spec fn layers_view<S>(ls: Seq<(Vec<String>, Vec<u32>, DrawChPos<S>)>) -> Seq<
    (Seq<Seq<char>>, Seq<u32>, DrawChPos<S>),
> {
    ls.map_values(|l: (Vec<String>, Vec<u32>, DrawChPos<S>)| layer_view(l))
}

/// The layers that do not belong to the element path `ids`, in order.
pub open spec fn layers_without<S>(ls: Seq<(Seq<Seq<char>>, Seq<u32>, DrawChPos<S>)>, ids: Seq<
    Seq<char>,
>) -> Seq<(Seq<Seq<char>>, Seq<u32>, DrawChPos<S>)>
    decreases ls.len(),
{
    if ls.len() == 0 {
        ls
    } else if ls.last().0 == ids {
        layers_without(ls.drop_last(), ids)
    } else {
        layers_without(ls.drop_last(), ids).push(ls.last())
    }
}

/// The number of layers that belong to the element path `ids`.
pub open spec fn count_with<S>(ls: Seq<(Seq<Seq<char>>, Seq<u32>, DrawChPos<S>)>, ids: Seq<
    Seq<char>,
>) -> nat
    decreases ls.len(),
{
    if ls.len() == 0 {
        0
    } else if ls.last().0 == ids {
        count_with(ls.drop_last(), ids) + 1
    } else {
        count_with(ls.drop_last(), ids)
    }
}

/// `f` gives one answer for each style: a style it reports as time effected once, it always
/// reports so.
pub open spec fn deterministic<S, F: Fn(&S) -> bool>(f: F) -> bool {
    forall|s: &S, a: bool, b: bool| #[trigger] f.ensures((s,), a) && #[trigger] f.ensures((s,), b) ==> a == b
}

/// The style of the layer is one that `f` reports as time effected.
pub open spec fn time_effected<S, F: Fn(&S) -> bool>(f: F, l: (Seq<Seq<char>>, Seq<u32>, DrawChPos<S>)) -> bool {
    f.ensures((&l.2.ch.style,), true)
}

/// The number of layers whose style `f` reports as time effected.
pub open spec fn time_count<S, F: Fn(&S) -> bool>(f: F, ls: Seq<(Seq<Seq<char>>, Seq<u32>, DrawChPos<S>)>) -> nat
    decreases ls.len(),
{
    if ls.len() == 0 {
        0
    } else if time_effected(f, ls.last()) {
        time_count(f, ls.drop_last()) + 1
    } else {
        time_count(f, ls.drop_last())
    }
}

proof fn lemma_time_count_le_len<S, F: Fn(&S) -> bool>(f: F, ls: Seq<(Seq<Seq<char>>, Seq<u32>, DrawChPos<S>)>)
    ensures
        time_count(f, ls) <= ls.len(),
    decreases ls.len(),
{
    if ls.len() > 0 {
        lemma_time_count_le_len(f, ls.drop_last());
    }
}

/// A cached position on the screen. `R` is what was last sent to the screen for it.
pub struct CachedPos<S, R> {
    /// does one of the layers have a time gradient
    /// if so it will recalculate the time gradient at
    /// each request to get the content at this position
    pub time_grad_count: usize,
    /// are the layers dirty at this position
    pub dirty: bool,
    /// the last information sent to the screen for this position
    pub last_draw_ch: Option<R>,
    /// layers at this position
    pub layers: Vec<(Vec<String>, Vec<u32>, DrawChPos<S>)>,
}

impl<S, R> Default for CachedPos<S, R> {
    fn default() -> (c: CachedPos<S, R>)
        ensures
            c.time_grad_count == 0,
            c.dirty,
            c.last_draw_ch.is_none(),
            c.layers@.len() == 0,
    {
        CachedPos { time_grad_count: 0, dirty: true, last_draw_ch: None, layers: Vec::new() }
    }
}

impl<S, R> CachedPos<S, R> {
    /// Removes every layer of the element path `ids`, and marks the position dirty. Returns how
    /// many of the removed layers `is_time_effected` reported as time effected; the position's
    /// count of those goes down by as many (not below zero).
    pub fn remove<F: Fn(&S) -> bool>(&mut self, is_time_effected: &F, ids: &Vec<String>) -> (n: usize)
        requires
            forall|s: &S| is_time_effected.requires((s,)),
        ensures
            layers_view(final(self).layers@) == layers_without(layers_view(old(self).layers@), ids_view(ids@)),
            n <= count_with(layers_view(old(self).layers@), ids_view(ids@)),
            final(self).time_grad_count == old(self).time_grad_count.saturating_sub(n),
            final(self).dirty,
            final(self).last_draw_ch == old(self).last_draw_ch,
            deterministic(*is_time_effected) ==> n + time_count(*is_time_effected, layers_view(final(self).layers@))
                == time_count(*is_time_effected, layers_view(old(self).layers@)),
    {
        let mut old_layers: Vec<(Vec<String>, Vec<u32>, DrawChPos<S>)> = Vec::new();
        std::mem::swap(&mut old_layers, &mut self.layers);
        let ghost ol = layers_view(old_layers@);
        let ghost target = ids_view(ids@);
        let total = old_layers.len();
        let mut kept: Vec<(Vec<String>, Vec<u32>, DrawChPos<S>)> = Vec::new();
        let mut out: usize = 0;
        let mut count = self.time_grad_count;
        let ghost c0 = count;
        for layer in it: old_layers
            invariant
                layers_view(it.seq()) == ol,
                forall|s: &S| is_time_effected.requires((s,)),
                target == ids_view(ids@),
                layers_view(kept@) == layers_without(ol.take(it.index() as int), target),
                out <= count_with(ol.take(it.index() as int), target),
                out <= it.index(),
                total == ol.len(),
                count == c0.saturating_sub(out),
                deterministic(*is_time_effected) ==> out + time_count(*is_time_effected, layers_view(kept@))
                    == time_count(*is_time_effected, ol.take(it.index() as int)),
        {
            proof {
                let t = ol.take(it.index() + 1);
                assert(t.drop_last() =~= ol.take(it.index() as int));
                assert(t.last() == layer_view(layer));
            }
            if ids_eq(&layer.0, ids) {
                if is_time_effected(&layer.2.ch.style) {
                    count = count.saturating_sub(1);
                    out = out + 1;
                }
            } else {
                let ghost before = kept@;
                kept.push(layer);
                assert(layers_view(kept@) =~= layers_view(before).push(layer_view(layer)));
                assert(layers_view(kept@).drop_last() =~= layers_view(before));
            }
        }
        proof {
            assert(ol.take(ol.len() as int) =~= ol);
        }
        self.layers = kept;
        self.time_grad_count = count;
        self.dirty = true;
        out
    }

    /// Adds a layer of the element path `ids` with z-indices `zs`, and marks the position dirty.
    /// Returns 1 where `is_time_effected` reports the character's style as time effected (the
    /// position's count then goes up by one, not past the largest `usize`), else 0.
    pub fn add<F: Fn(&S) -> bool>(
        &mut self,
        is_time_effected: &F,
        ids: &Vec<String>,
        zs: &Vec<u32>,
        dcp: DrawChPos<S>,
    ) -> (n: usize)
        requires
            forall|s: &S| is_time_effected.requires((s,)),
        ensures
            layers_view(final(self).layers@) == layers_view(old(self).layers@).push((ids_view(ids@), zs@, dcp)),
            n <= 1,
            is_time_effected.ensures((&dcp.ch.style,), n == 1),
            final(self).time_grad_count == old(self).time_grad_count.saturating_add(n),
            final(self).dirty,
            final(self).last_draw_ch == old(self).last_draw_ch,
            deterministic(*is_time_effected) ==> (n == 1) == time_effected(*is_time_effected, (ids_view(ids@), zs@, dcp)),
            deterministic(*is_time_effected) && old(self).time_grad_count == time_count(
                *is_time_effected,
                layers_view(old(self).layers@),
            ) ==> final(self).time_grad_count == time_count(*is_time_effected, layers_view(final(self).layers@)),
    {
        let ghost c0 = self.time_grad_count;
        let te = is_time_effected(&dcp.ch.style);
        let n: usize = if te {
            self.time_grad_count = self.time_grad_count.saturating_add(1);
            1
        } else {
            0
        };
        let layer = (clone_ids(ids), clone_zs(zs), dcp);
        let ghost before = self.layers@;
        self.layers.push(layer);
        assert(layers_view(self.layers@) =~= layers_view(before).push(layer_view(layer)));
        proof {
            assert(layers_view(self.layers@).drop_last() =~= layers_view(before));
            lemma_time_count_le_len(*is_time_effected, layers_view(before));
            assert(self.layers@.len() == self.layers.len());
        }
        self.dirty = true;
        n
    }
}

/// The positioned characters of the layers, lowest first.
pub open spec fn layer_chars<S>(ls: Seq<(Seq<Seq<char>>, Seq<u32>, DrawChPos<S>)>) -> Seq<DrawChPos<S>> {
    ls.map_values(|l: (Seq<Seq<char>>, Seq<u32>, DrawChPos<S>)| l.2)
}

/// `d` is a possible result of drawing the characters `dcps` in order, each with `draw_over`
/// over what the ones before it gave, starting from what `blank` gives.
pub open spec fn drawn_over<S, R, B: Fn() -> R, F: Fn(&DrawChPos<S>, &R) -> R>(
    blank: B,
    draw_over: F,
    dcps: Seq<DrawChPos<S>>,
    d: R,
) -> bool {
    exists|v: Seq<R>|
        {
            &&& v.len() == dcps.len() + 1
            &&& blank.ensures((), v[0])
            &&& forall|i: int| 0 <= i < dcps.len() ==> draw_over.ensures((&dcps[i], &v[i]), #[trigger] v[i + 1])
            &&& v.last() == d
        }
}

/// What a redrawing of a position gives: a fresh drawing `d` of its characters; where `same`
/// finds it equal to the last drawing sent, nothing (`r` is `None`) and the last drawing stays;
/// otherwise `d`, a clone of which becomes the last drawing sent.
pub open spec fn redrawn<S, R: Clone, B: Fn() -> R, F: Fn(&DrawChPos<S>, &R) -> R, G: Fn(&R, &R) -> bool>(
    blank: B,
    draw_over: F,
    same: G,
    dcps: Seq<DrawChPos<S>>,
    last: Option<R>,
    r: Option<R>,
    new_last: Option<R>,
) -> bool {
    exists|d: R|
        {
            &&& drawn_over(blank, draw_over, dcps, d)
            &&& match r {
                None => last matches Some(l) && same.ensures((&l, &d), true) && new_last == last,
                Some(x) => {
                    &&& x == d
                    &&& (last matches Some(l) ==> same.ensures((&l, &d), false))
                    &&& new_last matches Some(c) && cloned(d, c)
                },
            }
        }
}

/// The position must be drawn again: its layers changed, or one of them has a time gradient.
pub open spec fn needs_redraw<S, R>(c: CachedPos<S, R>) -> bool {
    c.dirty || c.time_grad_count > 0
}

/// The layers of `n` are those of `c`, sorted by z-indices where `c` was dirty.
pub open spec fn layers_ready<S, R>(c: CachedPos<S, R>, n: CachedPos<S, R>) -> bool {
    &&& c.dirty ==> layers_view(n.layers@) == sorted_by_z(layers_view(c.layers@))
    &&& !c.dirty ==> n.layers@ == c.layers@
    &&& n.time_grad_count == c.time_grad_count
}

/// What getting the update of the position `c` does (see `CachedPos::get_update`): `n` is the
/// position afterwards and `r` what was returned.
pub open spec fn cell_updated<S, R: Clone, B: Fn() -> R, F: Fn(&DrawChPos<S>, &R) -> R, G: Fn(&R, &R) -> bool>(
    blank: B,
    draw_over: F,
    same: G,
    c: CachedPos<S, R>,
    n: CachedPos<S, R>,
    r: Option<R>,
) -> bool {
    &&& layers_ready(c, n)
    &&& !needs_redraw(c) ==> r is None && n.dirty == c.dirty && n.last_draw_ch == c.last_draw_ch
    &&& needs_redraw(c) ==> !n.dirty && redrawn(
        blank,
        draw_over,
        same,
        layer_chars(layers_view(n.layers@)),
        c.last_draw_ch,
        r,
        n.last_draw_ch,
    )
}

/// A position without time gradients, asked twice for its update with nothing done to it
/// between, sends nothing the second time and stays as the first left it.
pub proof fn lemma_get_update_twice<S, R: Clone, B: Fn() -> R, F: Fn(&DrawChPos<S>, &R) -> R, G: Fn(&R, &R) -> bool>(
    blank: B,
    draw_over: F,
    same: G,
    c0: CachedPos<S, R>,
    c1: CachedPos<S, R>,
    r1: Option<R>,
    c2: CachedPos<S, R>,
    r2: Option<R>,
)
    requires
        c0.time_grad_count == 0,
        cell_updated(blank, draw_over, same, c0, c1, r1),
        cell_updated(blank, draw_over, same, c1, c2, r2),
    ensures
        r2 is None,
        !c1.dirty,
        c2.layers@ == c1.layers@,
        c2.dirty == c1.dirty,
        c2.last_draw_ch == c1.last_draw_ch,
        c2.time_grad_count == c1.time_grad_count,
{
}

impl<S, R: Clone> CachedPos<S, R> {
    /// Gets what to send to the screen for this position, if anything. Where the position must
    /// be drawn again (see `needs_redraw`), its layers are first sorted by z-indices if they
    /// changed, then drawn from the lowest up with `draw_over`, starting from what `blank`
    /// gives; the drawing is returned unless `same` finds it equal to the last one sent (see
    /// `redrawn`). Otherwise nothing is returned and nothing changes.
    pub fn get_update<B: Fn() -> R, F: Fn(&DrawChPos<S>, &R) -> R, G: Fn(&R, &R) -> bool>(
        &mut self,
        blank: &B,
        draw_over: &F,
        same: &G,
    ) -> (r: Option<R>)
        requires
            blank.requires(()),
            forall|d: &DrawChPos<S>, x: &R| draw_over.requires((d, x)),
            forall|a: &R, b: &R| same.requires((a, b)),
        ensures
            cell_updated(*blank, *draw_over, *same, *old(self), *final(self), r),
    {
        if self.dirty {
            let mut layers: Vec<(Vec<String>, Vec<u32>, DrawChPos<S>)> = Vec::new();
            std::mem::swap(&mut layers, &mut self.layers);
            let ghost before = layers@;
            let sorted = sort_by_z_path(layers);
            proof {
                let m = |e: (Vec<String>, Seq<u32>, DrawChPos<S>)| (ids_view(e.0@), e.1, e.2);
                assert(layers_view(before) =~= keyed(before).map_values(m));
                lemma_sorted_by_z_map(keyed(before), m);
                assert(layers_view(sorted@) =~= keyed(sorted@).map_values(m));
            }
            self.layers = sorted;
        }
        if !(self.dirty || self.time_grad_count > 0) {
            return None;
        }
        self.dirty = false;
        let ghost dcps = layer_chars(layers_view(self.layers@));
        let mut d = blank();
        let ghost mut v: Seq<R> = seq![d];
        let mut i: usize = 0;
        while i < self.layers.len()
            invariant
                dcps == layer_chars(layers_view(self.layers@)),
                forall|dd: &DrawChPos<S>, x: &R| draw_over.requires((dd, x)),
                i <= dcps.len(),
                v.len() == i + 1,
                blank.ensures((), v[0]),
                forall|k: int| 0 <= k < i ==> draw_over.ensures((&dcps[k], &v[k]), #[trigger] v[k + 1]),
                v.last() == d,
            decreases dcps.len() - i,
        {
            assert(self.layers@[i as int].2 == dcps[i as int]);
            let next = draw_over(&self.layers[i].2, &d);
            proof {
                v = v.push(next);
            }
            d = next;
            i = i + 1;
        }
        assert(drawn_over(*blank, *draw_over, dcps, d));
        match &self.last_draw_ch {
            Some(l) => {
                if same(l, &d) {
                    return None;
                }
            },
            None => {},
        }
        self.last_draw_ch = Some(d.clone());
        Some(d)
    }

    /// Gets what this position shows, whether or not it must be sent again: a new drawing where
    /// `get_update` gives one, else a clone of the last drawing sent, else what `blank` gives.
    pub fn must_get_draw_ch<B: Fn() -> R, F: Fn(&DrawChPos<S>, &R) -> R, G: Fn(&R, &R) -> bool>(
        &mut self,
        blank: &B,
        draw_over: &F,
        same: &G,
    ) -> (r: R)
        requires
            blank.requires(()),
            forall|d: &DrawChPos<S>, x: &R| draw_over.requires((d, x)),
            forall|a: &R, b: &R| same.requires((a, b)),
        ensures
            layers_ready(*old(self), *final(self)),
            !needs_redraw(*old(self)) ==> final(self).dirty == old(self).dirty
                && final(self).last_draw_ch == old(self).last_draw_ch && match old(self).last_draw_ch {
                Some(l) => cloned(l, r),
                None => blank.ensures((), r),
            },
            needs_redraw(*old(self)) ==> !final(self).dirty && exists|u: Option<R>|
                {
                    &&& redrawn(
                        *blank,
                        *draw_over,
                        *same,
                        layer_chars(layers_view(final(self).layers@)),
                        old(self).last_draw_ch,
                        u,
                        final(self).last_draw_ch,
                    )
                    &&& match u {
                        Some(x) => r == x,
                        None => old(self).last_draw_ch matches Some(l) && cloned(l, r),
                    }
                },
    {
        let u = self.get_update(blank, draw_over, same);
        match u {
            Some(ch) => ch,
            None => match &self.last_draw_ch {
                Some(ch) => ch.clone(),
                None => blank(),
            },
        }
    }
}

// ------------------------------------------------------------------------------------------
// The drawing cache

/// A cached drawing of an element path: its ids, its z-indices and its positioned characters,
/// each by its view.
pub open spec fn entry_view<S>(e: (Vec<String>, Vec<u32>, Vec<DrawChPos<S>>)) -> (
    Seq<Seq<char>>,
    Seq<u32>,
    Seq<DrawChPos<S>>,
) {
    (ids_view(e.0@), e.1@, e.2@)
}

/// The cached drawings, each by its view.
pub open spec fn entries_view<S>(es: Seq<(Vec<String>, Vec<u32>, Vec<DrawChPos<S>>)>) -> Seq<
    (Seq<Seq<char>>, Seq<u32>, Seq<DrawChPos<S>>),
> {
    es.map_values(|e: (Vec<String>, Vec<u32>, Vec<DrawChPos<S>>)| entry_view(e))
}

/// Whether an action on `sub` takes the cached drawing of `ids` away: a clearing takes every
/// path that `sub` starts, the other actions the path `sub` itself.
pub open spec fn takes(prefix: bool, sub: Seq<Seq<char>>, ids: Seq<Seq<char>>) -> bool {
    if prefix {
        is_prefix(sub, ids)
    } else {
        ids == sub
    }
}

/// The cached drawings that stay, in order.
pub open spec fn kept_entries<S>(
    c: Seq<(Seq<Seq<char>>, Seq<u32>, Seq<DrawChPos<S>>)>,
    prefix: bool,
    sub: Seq<Seq<char>>,
) -> Seq<(Seq<Seq<char>>, Seq<u32>, Seq<DrawChPos<S>>)>
    decreases c.len(),
{
    if c.len() == 0 {
        c
    } else if takes(prefix, sub, c.last().0) {
        kept_entries(c.drop_last(), prefix, sub)
    } else {
        kept_entries(c.drop_last(), prefix, sub).push(c.last())
    }
}

/// The cached drawings taken away, in order, each by its path and characters.
pub open spec fn taken_entries<S>(
    c: Seq<(Seq<Seq<char>>, Seq<u32>, Seq<DrawChPos<S>>)>,
    prefix: bool,
    sub: Seq<Seq<char>>,
) -> Seq<(Seq<Seq<char>>, Seq<DrawChPos<S>>)>
    decreases c.len(),
{
    if c.len() == 0 {
        Seq::empty()
    } else if takes(prefix, sub, c.last().0) {
        taken_entries(c.drop_last(), prefix, sub).push((c.last().0, c.last().2))
    } else {
        taken_entries(c.drop_last(), prefix, sub)
    }
}

/// The index of the first cached drawing of the path `sub`, or -1 where there is none.
pub open spec fn find_entry<S>(c: Seq<(Seq<Seq<char>>, Seq<u32>, Seq<DrawChPos<S>>)>, sub: Seq<
    Seq<char>,
>) -> int
    decreases c.len(),
{
    if c.len() == 0 {
        -1
    } else if find_entry(c.drop_last(), sub) >= 0 {
        find_entry(c.drop_last(), sub)
    } else if c.last().0 == sub {
        c.len() - 1
    } else {
        -1
    }
}

/// The state of the cache's bookkeeping while updates are read: the cached drawings, the
/// drawings taken away (to be removed from the screen) and the drawings to be added to the
/// screen.
pub type UpdateState<S> = (
    Seq<(Seq<Seq<char>>, Seq<u32>, Seq<DrawChPos<S>>)>,
    Seq<(Seq<Seq<char>>, Seq<DrawChPos<S>>)>,
    Seq<(Seq<Seq<char>>, Seq<u32>, Seq<DrawChPos<S>>)>,
);

/// The bookkeeping after one more update. An action that takes drawings away also drops the
/// drawings of the same paths still waiting to be added to the screen, so that a drawing taken
/// back later in the same batch never reaches the screen.
pub open spec fn update_step<S>(st: UpdateState<S>, u: DrawUpdate<S>) -> UpdateState<S> {
    let sub = ids_view(u.sub_id@);
    let zs = u.z_indicies@;
    match u.action {
        DrawAction::ClearAll => (
            kept_entries(st.0, true, sub),
            st.1 + taken_entries(st.0, true, sub),
            kept_entries(st.2, true, sub),
        ),
        DrawAction::Remove => (
            kept_entries(st.0, false, sub),
            st.1 + taken_entries(st.0, false, sub),
            kept_entries(st.2, false, sub),
        ),
        DrawAction::Update(d) => (
            kept_entries(st.0, false, sub).push((sub, zs, d@)),
            st.1 + taken_entries(st.0, false, sub),
            kept_entries(st.2, false, sub).push((sub, zs, d@)),
        ),
        DrawAction::Extend(d) => {
            let i = find_entry(st.0, sub);
            (
                if i >= 0 {
                    st.0.update(i, (st.0[i].0, zs, st.0[i].2 + d@))
                } else {
                    st.0.push((sub, zs, d@))
                },
                st.1,
                st.2.push((sub, zs, d@)),
            )
        },
    }
}

/// The bookkeeping after reading `us` in order, starting from the cached drawings `c`.
pub open spec fn after_updates<S>(
    c: Seq<(Seq<Seq<char>>, Seq<u32>, Seq<DrawChPos<S>>)>,
    us: Seq<DrawUpdate<S>>,
) -> UpdateState<S>
    decreases us.len(),
{
    if us.len() == 0 {
        (c, Seq::empty(), Seq::empty())
    } else {
        update_step(after_updates(c, us.drop_last()), us.last())
    }
}

/// The drawing cache of the screen: the drawings of each element path, the total count of
/// layers with a time gradient, and one cached position for each cell of the screen, by row.
pub struct DrawingCache<S, R> {
    pub cached_upd: Vec<(Vec<String>, Vec<u32>, Vec<DrawChPos<S>>)>,
    /// The total number of cached time gradients
    /// This is used to keep track of the number of time gradients,
    /// if there are no time gradients then we don't need to send
    /// any updates to the screen if there have been no changes.
    pub time_grad_count: usize,
    /// 2d array of the screen, by row (y) then column (x)
    pub cache_2d: Vec<Vec<CachedPos<S, R>>>,
}

impl<S, R> Default for DrawingCache<S, R> {
    fn default() -> (c: DrawingCache<S, R>)
        ensures
            c.cached_upd@.len() == 0,
            c.time_grad_count == 0,
            c.cache_2d@.len() == 0,
            cells_exact(c.cache_2d@, entries_view(c.cached_upd@)),
    {
        let c = DrawingCache { cached_upd: Vec::new(), time_grad_count: 0, cache_2d: Vec::new() };
        proof {
            assert(entries_view(c.cached_upd@).len() == 0);
        }
        c
    }
}

/// Moves the cached drawings that the action on `sub` takes away out of the cache, in order.
pub(crate) fn take_entries<S>(
    entries: &mut Vec<(Vec<String>, Vec<u32>, Vec<DrawChPos<S>>)>,
    prefix: bool,
    sub: &Vec<String>,
) -> (t: Vec<(Vec<String>, Vec<DrawChPos<S>>)>)
    ensures
        entries_view(final(entries)@) == kept_entries(entries_view(old(entries)@), prefix, ids_view(sub@)),
        taken_view(t@) == taken_entries(entries_view(old(entries)@), prefix, ids_view(sub@)),
{
    let mut old_entries: Vec<(Vec<String>, Vec<u32>, Vec<DrawChPos<S>>)> = Vec::new();
    std::mem::swap(&mut old_entries, entries);
    let ghost c = entries_view(old_entries@);
    let ghost target = ids_view(sub@);
    let mut kept: Vec<(Vec<String>, Vec<u32>, Vec<DrawChPos<S>>)> = Vec::new();
    let mut taken: Vec<(Vec<String>, Vec<DrawChPos<S>>)> = Vec::new();
    for e in it: old_entries
        invariant
            entries_view(it.seq()) == c,
            target == ids_view(sub@),
            entries_view(kept@) == kept_entries(c.take(it.index() as int), prefix, target),
            taken_view(taken@) == taken_entries(c.take(it.index() as int), prefix, target),
    {
        proof {
            let t = c.take(it.index() + 1);
            assert(t.drop_last() =~= c.take(it.index() as int));
            assert(t.last() == entry_view(e));
        }
        let hit = if prefix {
            ids_starts_with(&e.0, sub)
        } else {
            ids_eq(&e.0, sub)
        };
        if hit {
            let ghost before = taken@;
            let (ids, _zs, dcps) = e;
            taken.push((ids, dcps));
            assert(taken_view(taken@) =~= taken_view(before).push((ids_view(ids@), dcps@)));
        } else {
            let ghost before = kept@;
            kept.push(e);
            assert(entries_view(kept@) =~= entries_view(before).push(entry_view(e)));
        }
    }
    proof {
        assert(c.take(c.len() as int) =~= c);
    }
    *entries = kept;
    taken
}

/// The index of the first cached drawing of the path `sub`.
pub(crate) fn find_entry_index<S>(entries: &Vec<(Vec<String>, Vec<u32>, Vec<DrawChPos<S>>)>, sub: &Vec<String>) -> (r: Option<usize>)
    ensures
        r matches Some(i) ==> i == find_entry(entries_view(entries@), ids_view(sub@)),
        r is None ==> find_entry(entries_view(entries@), ids_view(sub@)) == -1,
{
    let ghost c = entries_view(entries@);
    let ghost target = ids_view(sub@);
    let mut i: usize = 0;
    while i < entries.len()
        invariant
            c == entries_view(entries@),
            target == ids_view(sub@),
            i <= c.len(),
            find_entry(c.take(i as int), target) == -1,
        decreases c.len() - i,
    {
        proof {
            let t = c.take(i + 1);
            assert(t.drop_last() =~= c.take(i as int));
            assert(t.last() == c[i as int]);
        }
        if ids_eq(&entries[i].0, sub) {
            proof {
                lemma_find_entry_prefix(c, target, (i + 1) as nat);
            }
            return Some(i);
        }
        i = i + 1;
    }
    proof {
        assert(c.take(c.len() as int) =~= c);
    }
    None
}


impl<S: Clone, R> DrawingCache<S, R> {
    /// Reads the updates into the cached drawings; returns the drawings taken away and the
    /// drawings to add to the screen (clones of those of the updates).
    fn read_updates(&mut self, updates: Vec<DrawUpdate<S>>) -> (r: (
        Vec<(Vec<String>, Vec<DrawChPos<S>>)>,
        Vec<(Vec<String>, Vec<u32>, Vec<DrawChPos<S>>)>,
    ))
        ensures
            entries_view(final(self).cached_upd@) == after_updates(entries_view(old(self).cached_upd@), updates@).0,
            taken_view(r.0@) == after_updates(entries_view(old(self).cached_upd@), updates@).1,
            entries_clone_of(after_updates(entries_view(old(self).cached_upd@), updates@).2, entries_view(r.1@)),
            final(self).cache_2d == old(self).cache_2d,
            final(self).time_grad_count == old(self).time_grad_count,
    {
        let ghost c0 = entries_view(self.cached_upd@);
        let ghost us = updates@;
        let mut rm: Vec<(Vec<String>, Vec<DrawChPos<S>>)> = Vec::new();
        let mut add: Vec<(Vec<String>, Vec<u32>, Vec<DrawChPos<S>>)> = Vec::new();
        for u in it: updates
            invariant
                it.seq() == us,
                entries_view(self.cached_upd@) == after_updates(c0, us.take(it.index() as int)).0,
                taken_view(rm@) == after_updates(c0, us.take(it.index() as int)).1,
                entries_clone_of(after_updates(c0, us.take(it.index() as int)).2, entries_view(add@)),
                self.cache_2d == old(self).cache_2d,
                self.time_grad_count == old(self).time_grad_count,
        {
            let ghost st = after_updates(c0, us.take(it.index() as int));
            proof {
                let t = us.take(it.index() + 1);
                assert(t.drop_last() =~= us.take(it.index() as int));
                assert(t.last() == u);
            }
            let ghost uu = u;
            let DrawUpdate { sub_id, z_indicies, action } = u;
            match action {
                DrawAction::ClearAll => {
                    let mut t = take_entries(&mut self.cached_upd, true, &sub_id);
                    let ghost before = rm@;
                    rm.append(&mut t);
                    assert(taken_view(rm@) =~= taken_view(before) + taken_entries(st.0, true, ids_view(sub_id@)));
                    let ghost add0 = entries_view(add@);
                    let _ = take_entries(&mut add, true, &sub_id);
                    proof {
                        lemma_kept_clone(st.2, add0, true, ids_view(sub_id@));
                    }
                },
                DrawAction::Remove => {
                    let mut t = take_entries(&mut self.cached_upd, false, &sub_id);
                    let ghost before = rm@;
                    rm.append(&mut t);
                    assert(taken_view(rm@) =~= taken_view(before) + taken_entries(st.0, false, ids_view(sub_id@)));
                    let ghost add0 = entries_view(add@);
                    let _ = take_entries(&mut add, false, &sub_id);
                    proof {
                        lemma_kept_clone(st.2, add0, false, ids_view(sub_id@));
                    }
                },
                DrawAction::Update(d) => {
                    let mut t = take_entries(&mut self.cached_upd, false, &sub_id);
                    let ghost before = rm@;
                    rm.append(&mut t);
                    assert(taken_view(rm@) =~= taken_view(before) + taken_entries(st.0, false, ids_view(sub_id@)));
                    let ghost add0 = entries_view(add@);
                    let _ = take_entries(&mut add, false, &sub_id);
                    proof {
                        lemma_kept_clone(st.2, add0, false, ids_view(sub_id@));
                    }
                    let a = (clone_ids(&sub_id), clone_zs(&z_indicies), clone_dcps(&d));
                    let ghost before_add = add@;
                    add.push(a);
                    assert(entries_view(add@) =~= entries_view(before_add).push(entry_view(a)));
                    let e = (sub_id, z_indicies, d);
                    let ghost before_c = self.cached_upd@;
                    self.cached_upd.push(e);
                    assert(entries_view(self.cached_upd@) =~= entries_view(before_c).push(entry_view(e)));
                },
                DrawAction::Extend(d) => {
                    let a = (clone_ids(&sub_id), clone_zs(&z_indicies), clone_dcps(&d));
                    let ghost before_add = add@;
                    add.push(a);
                    assert(entries_view(add@) =~= entries_view(before_add).push(entry_view(a)));
                    let found = find_entry_index(&self.cached_upd, &sub_id);
                    match found {
                        Some(i) => {
                            proof {
                                lemma_find_entry_bound(st.0, ids_view(sub_id@));
                            }
                            let mut e: (Vec<String>, Vec<u32>, Vec<DrawChPos<S>>) = (Vec::new(), Vec::new(), Vec::new());
                            std::mem::swap(&mut e, &mut self.cached_upd[i]);
                            let (ids, _old_zs, mut dcps) = e;
                            let mut more = d;
                            dcps.append(&mut more);
                            let ne = (ids, z_indicies, dcps);
                            let mut ne2 = ne;
                            std::mem::swap(&mut ne2, &mut self.cached_upd[i]);
                            assert(entries_view(self.cached_upd@) =~= st.0.update(
                                i as int,
                                (st.0[i as int].0, uu.z_indicies@, st.0[i as int].2 + d@),
                            ));
                        },
                        None => {
                            let e = (sub_id, z_indicies, d);
                            let ghost before_c = self.cached_upd@;
                            self.cached_upd.push(e);
                            assert(entries_view(self.cached_upd@) =~= entries_view(before_c).push(entry_view(e)));
                        },
                    }
                },
            }
        }
        proof {
            assert(us.take(us.len() as int) =~= us);
        }
        (rm, add)
    }
}

/// The drawings taken away, each by its path and characters.
pub open spec fn taken_view<S>(t: Seq<(Vec<String>, Vec<DrawChPos<S>>)>) -> Seq<(Seq<Seq<char>>, Seq<DrawChPos<S>>)> {
    t.map_values(|e: (Vec<String>, Vec<DrawChPos<S>>)| (ids_view(e.0@), e.1@))
}

/// `b` holds the drawings of `a`, with clones of their characters.
pub open spec fn entries_clone_of<S: Clone>(
    a: Seq<(Seq<Seq<char>>, Seq<u32>, Seq<DrawChPos<S>>)>,
    b: Seq<(Seq<Seq<char>>, Seq<u32>, Seq<DrawChPos<S>>)>,
) -> bool {
    b.len() == a.len() && forall|i: int|
        0 <= i < a.len() ==> (#[trigger] b[i]).0 == a[i].0 && b[i].1 == a[i].1 && dcps_clone_of(a[i].2, b[i].2)
}

/// Keeping the same paths of a list and of its clone gives a list and its clone.
proof fn lemma_kept_clone<S: Clone>(
    a: Seq<(Seq<Seq<char>>, Seq<u32>, Seq<DrawChPos<S>>)>,
    b: Seq<(Seq<Seq<char>>, Seq<u32>, Seq<DrawChPos<S>>)>,
    prefix: bool,
    sub: Seq<Seq<char>>,
)
    requires
        entries_clone_of(a, b),
    ensures
        entries_clone_of(kept_entries(a, prefix, sub), kept_entries(b, prefix, sub)),
    decreases a.len(),
{
    if a.len() > 0 {
        assert(entries_clone_of(a.drop_last(), b.drop_last()));
        lemma_kept_clone(a.drop_last(), b.drop_last(), prefix, sub);
        assert(b.last() == b[b.len() - 1]);
        assert(a.last() == a[a.len() - 1]);
    }
}

pub(crate) proof fn lemma_find_entry_bound<S>(c: Seq<(Seq<Seq<char>>, Seq<u32>, Seq<DrawChPos<S>>)>, sub: Seq<Seq<char>>)
    ensures
        -1 <= find_entry(c, sub) < c.len(),
        find_entry(c, sub) >= 0 ==> c[find_entry(c, sub)].0 == sub,
    decreases c.len(),
{
    if c.len() > 0 {
        lemma_find_entry_bound(c.drop_last(), sub);
    }
}

proof fn lemma_find_entry_prefix<S>(c: Seq<(Seq<Seq<char>>, Seq<u32>, Seq<DrawChPos<S>>)>, sub: Seq<Seq<char>>, n: nat)
    requires
        0 < n <= c.len(),
        find_entry(c.take(n - 1), sub) == -1,
        c[n - 1].0 == sub,
    ensures
        find_entry(c, sub) == n - 1,
    decreases c.len() - n,
{
    let t = c.take(n as int);
    assert(t.drop_last() =~= c.take(n - 1));
    assert(find_entry(t, sub) == n - 1);
    if n < c.len() {
        lemma_find_entry_extend(c, sub, n);
    } else {
        assert(t =~= c);
    }
}

proof fn lemma_find_entry_extend<S>(c: Seq<(Seq<Seq<char>>, Seq<u32>, Seq<DrawChPos<S>>)>, sub: Seq<Seq<char>>, n: nat)
    requires
        n <= c.len(),
        find_entry(c.take(n as int), sub) >= 0,
    ensures
        find_entry(c, sub) == find_entry(c.take(n as int), sub),
    decreases c.len() - n,
{
    if n < c.len() {
        let t = c.take(n as int + 1);
        assert(t.drop_last() =~= c.take(n as int));
        lemma_find_entry_extend(c, sub, (n + 1) as nat);
    } else {
        assert(c.take(n as int) =~= c);
    }
}

// ------------------------------------------------------------------------------------------
// The screen cells

/// The cached position in column `x` of row `y`.
pub open spec fn cell_at<S, R>(c: Seq<Vec<CachedPos<S, R>>>, x: int, y: int) -> CachedPos<S, R> {
    c[y]@[x]
}

/// (`x`, `y`) is a cell of the cache.
pub open spec fn in_cache<S, R>(c: Seq<Vec<CachedPos<S, R>>>, x: int, y: int) -> bool {
    0 <= y < c.len() && 0 <= x < c[y]@.len()
}

/// One of the positioned characters lies at (`x`, `y`).
pub open spec fn hits<S>(dcps: Seq<DrawChPos<S>>, x: int, y: int) -> bool {
    exists|j: int| 0 <= j < dcps.len() && dcps[j].x == x && dcps[j].y == y
}

/// The layers left at (`x`, `y`) after each drawing taken away, in order, has removed the
/// layers of its path wherever one of its characters lies.
pub open spec fn removed_at<S>(
    ls: Seq<(Seq<Seq<char>>, Seq<u32>, DrawChPos<S>)>,
    rms: Seq<(Seq<Seq<char>>, Seq<DrawChPos<S>>)>,
    x: int,
    y: int,
) -> Seq<(Seq<Seq<char>>, Seq<u32>, DrawChPos<S>)>
    decreases rms.len(),
{
    if rms.len() == 0 {
        ls
    } else if hits(rms.last().1, x, y) {
        layers_without(removed_at(ls, rms.drop_last(), x, y), rms.last().0)
    } else {
        removed_at(ls, rms.drop_last(), x, y)
    }
}

/// Some drawing taken away has a character at (`x`, `y`).
pub open spec fn hit_any<S>(rms: Seq<(Seq<Seq<char>>, Seq<DrawChPos<S>>)>, x: int, y: int) -> bool {
    exists|i: int| 0 <= i < rms.len() && hits(rms[i].1, x, y)
}

/// `c1` is the cache `c0` after the drawings `rms` were taken off the screen: the same cells,
/// each without the layers of a drawing taken away that had a character there, and marked dirty
/// where such a character was.
pub open spec fn removal_done<S, R>(
    c0: Seq<Vec<CachedPos<S, R>>>,
    c1: Seq<Vec<CachedPos<S, R>>>,
    rms: Seq<(Seq<Seq<char>>, Seq<DrawChPos<S>>)>,
) -> bool {
    &&& c1.len() == c0.len()
    &&& forall|y: int| 0 <= y < c0.len() ==> (#[trigger] c1[y]@).len() == c0[y]@.len()
    &&& forall|y: int, x: int|
        in_cache(c0, x, y) ==> {
            &&& layers_view((#[trigger] cell_at(c1, x, y)).layers@) == removed_at(
                layers_view(cell_at(c0, x, y).layers@),
                rms,
                x,
                y,
            )
            &&& cell_at(c1, x, y).dirty == (cell_at(c0, x, y).dirty || hit_any(rms, x, y))
            &&& cell_at(c1, x, y).last_draw_ch == cell_at(c0, x, y).last_draw_ch
        }
}

proof fn lemma_without_twice<S>(ls: Seq<(Seq<Seq<char>>, Seq<u32>, DrawChPos<S>)>, ids: Seq<Seq<char>>)
    ensures
        layers_without(layers_without(ls, ids), ids) == layers_without(ls, ids),
    decreases ls.len(),
{
    if ls.len() > 0 {
        lemma_without_twice(ls.drop_last(), ids);
        let w = layers_without(ls.drop_last(), ids);
        if ls.last().0 != ids {
            let wp = w.push(ls.last());
            assert(wp.drop_last() =~= w);
        }
    }
}

/// Each cell's count of time gradients is the number of its layers that `f` reports as time
/// effected.
pub open spec fn cells_counted<S, R, F: Fn(&S) -> bool>(c: Seq<Vec<CachedPos<S, R>>>, f: F) -> bool {
    forall|y: int, x: int|
        in_cache(c, x, y) ==> (#[trigger] cell_at(c, x, y)).time_grad_count == time_count(f, layers_view(cell_at(c, x, y).layers@))
}

/// The sum of the cells' counts of time gradients in one row.
pub open spec fn row_time_total<S, R>(r: Seq<CachedPos<S, R>>) -> int
    decreases r.len(),
{
    if r.len() == 0 {
        0
    } else {
        row_time_total(r.drop_last()) + r.last().time_grad_count
    }
}

/// The sum of the cells' counts of time gradients over the whole cache.
pub open spec fn time_total<S, R>(c: Seq<Vec<CachedPos<S, R>>>) -> int
    decreases c.len(),
{
    if c.len() == 0 {
        0
    } else {
        time_total(c.drop_last()) + row_time_total(c.last()@)
    }
}

/// The sum of the cells' counts of time gradients, but no more than the largest `usize`.
pub open spec fn capped_time_total<S, R>(c: Seq<Vec<CachedPos<S, R>>>) -> int {
    if time_total(c) <= usize::MAX {
        time_total(c)
    } else {
        usize::MAX as int
    }
}

proof fn lemma_row_total_nonneg<S, R>(r: Seq<CachedPos<S, R>>)
    ensures
        row_time_total(r) >= 0,
    decreases r.len(),
{
    if r.len() > 0 {
        lemma_row_total_nonneg(r.drop_last());
    }
}

proof fn lemma_time_total_nonneg<S, R>(c: Seq<Vec<CachedPos<S, R>>>)
    ensures
        time_total(c) >= 0,
    decreases c.len(),
{
    if c.len() > 0 {
        lemma_time_total_nonneg(c.drop_last());
        lemma_row_total_nonneg(c.last()@);
    }
}

/// Rows that agree but at the cell `x` differ in their totals by what that cell's counts do.
proof fn lemma_row_total_update<S, R>(r1: Seq<CachedPos<S, R>>, r2: Seq<CachedPos<S, R>>, x: int)
    requires
        r1.len() == r2.len(),
        forall|i: int| 0 <= i < r1.len() && i != x ==> (#[trigger] r1[i]).time_grad_count == r2[i].time_grad_count,
    ensures
        row_time_total(r2) - row_time_total(r1) == if 0 <= x < r1.len() {
            r2[x].time_grad_count - r1[x].time_grad_count
        } else {
            0
        },
    decreases r1.len(),
{
    if r1.len() > 0 {
        lemma_row_total_update(r1.drop_last(), r2.drop_last(), x);
    }
}

/// Caches that agree but at the row `y` differ in their totals by what that row's totals do.
proof fn lemma_time_total_rows<S, R>(c1: Seq<Vec<CachedPos<S, R>>>, c2: Seq<Vec<CachedPos<S, R>>>, y: int)
    requires
        c1.len() == c2.len(),
        forall|i: int| 0 <= i < c1.len() && i != y ==> row_time_total((#[trigger] c1[i])@) == row_time_total(c2[i]@),
    ensures
        time_total(c2) - time_total(c1) == if 0 <= y < c1.len() {
            row_time_total(c2[y]@) - row_time_total(c1[y]@)
        } else {
            0
        },
    decreases c1.len(),
{
    if c1.len() > 0 {
        lemma_time_total_rows(c1.drop_last(), c2.drop_last(), y);
    }
}

/// Caches of one shape that agree but at the cell (`x`, `y`) differ in their totals by what
/// that cell's counts do.
proof fn lemma_time_total_cell<S, R>(c1: Seq<Vec<CachedPos<S, R>>>, c2: Seq<Vec<CachedPos<S, R>>>, x: int, y: int)
    requires
        in_cache(c1, x, y),
        c1.len() == c2.len(),
        forall|yy: int| 0 <= yy < c1.len() ==> (#[trigger] c2[yy]@).len() == c1[yy]@.len(),
        forall|yy: int, xx: int|
            in_cache(c1, xx, yy) && !(xx == x && yy == y) ==> #[trigger] cell_at(c2, xx, yy) == cell_at(c1, xx, yy),
    ensures
        time_total(c2) == time_total(c1) - cell_at(c1, x, y).time_grad_count + cell_at(c2, x, y).time_grad_count,
{
    assert forall|i: int| 0 <= i < c1.len() && i != y implies row_time_total((#[trigger] c1[i])@) == row_time_total(c2[i]@) by {
        assert forall|j: int| 0 <= j < c1[i]@.len() implies c2[i]@[j] == c1[i]@[j] by {
            assert(cell_at(c2, j, i) == cell_at(c1, j, i));
        }
        assert(c2[i]@ =~= c1[i]@);
    }
    assert forall|j: int| 0 <= j < c1[y]@.len() && j != x implies (#[trigger] c1[y]@[j]).time_grad_count == c2[y]@[j].time_grad_count by {
        assert(cell_at(c2, j, y) == cell_at(c1, j, y));
    }
    lemma_row_total_update(c1[y]@, c2[y]@, x);
    lemma_time_total_rows(c1, c2, y);
}

/// A row that only gains cells with no time gradients keeps its total.
proof fn lemma_row_total_grow<S, R>(r1: Seq<CachedPos<S, R>>, r2: Seq<CachedPos<S, R>>)
    requires
        r1.len() <= r2.len(),
        forall|i: int| 0 <= i < r1.len() ==> (#[trigger] r1[i]).time_grad_count == r2[i].time_grad_count,
        forall|i: int| r1.len() <= i < r2.len() ==> (#[trigger] r2[i]).time_grad_count == 0,
    ensures
        row_time_total(r2) == row_time_total(r1),
    decreases r2.len(),
{
    if r2.len() > r1.len() {
        lemma_row_total_grow(r1, r2.drop_last());
    } else if r2.len() > 0 {
        lemma_row_total_grow(r1.drop_last(), r2.drop_last());
    }
}

/// A cache that only gains rows and cells with no time gradients keeps its total.
proof fn lemma_time_total_grow<S, R>(c1: Seq<Vec<CachedPos<S, R>>>, c2: Seq<Vec<CachedPos<S, R>>>)
    requires
        c1.len() <= c2.len(),
        forall|y: int| 0 <= y < c1.len() ==> (#[trigger] c1[y]@).len() <= c2[y]@.len(),
        forall|y: int, x: int| in_cache(c1, x, y) ==> (#[trigger] cell_at(c2, x, y)).time_grad_count == cell_at(c1, x, y).time_grad_count,
        forall|y: int, x: int| in_cache(c2, x, y) && !in_cache(c1, x, y) ==> (#[trigger] cell_at(c2, x, y)).time_grad_count == 0,
    ensures
        time_total(c2) == time_total(c1),
    decreases c2.len(),
{
    if c2.len() > 0 {
        let y = c2.len() - 1;
        if c2.len() > c1.len() {
            let e = Seq::<CachedPos<S, R>>::empty();
            assert forall|i: int| 0 <= i < c2[y]@.len() implies (#[trigger] c2[y]@[i]).time_grad_count == 0 by {
                assert(cell_at(c2, i, y) == c2[y]@[i]);
            }
            lemma_row_total_grow(e, c2[y]@);
            assert(row_time_total(e) == 0);
            let d2 = c2.drop_last();
            assert forall|yy: int, xx: int| in_cache(c1, xx, yy) implies (#[trigger] cell_at(d2, xx, yy)).time_grad_count
                == cell_at(c1, xx, yy).time_grad_count by {
                assert(cell_at(d2, xx, yy) == cell_at(c2, xx, yy));
            }
            assert forall|yy: int, xx: int| in_cache(d2, xx, yy) && !in_cache(c1, xx, yy) implies (#[trigger] cell_at(d2, xx, yy)).time_grad_count == 0 by {
                assert(cell_at(d2, xx, yy) == cell_at(c2, xx, yy));
            }
            lemma_time_total_grow(c1, d2);
        } else {
            assert forall|i: int| 0 <= i < c1[y]@.len() implies (#[trigger] c1[y]@[i]).time_grad_count == c2[y]@[i].time_grad_count by {
                assert(cell_at(c2, i, y) == c2[y]@[i]);
                assert(cell_at(c1, i, y) == c1[y]@[i]);
            }
            assert forall|i: int| c1[y]@.len() <= i < c2[y]@.len() implies (#[trigger] c2[y]@[i]).time_grad_count == 0 by {
                assert(cell_at(c2, i, y) == c2[y]@[i]);
            }
            lemma_row_total_grow(c1[y]@, c2[y]@);
            let d1 = c1.drop_last();
            let d2 = c2.drop_last();
            assert forall|yy: int, xx: int| in_cache(d1, xx, yy) implies (#[trigger] cell_at(d2, xx, yy)).time_grad_count
                == cell_at(d1, xx, yy).time_grad_count by {
                assert(cell_at(d2, xx, yy) == cell_at(c2, xx, yy));
                assert(cell_at(d1, xx, yy) == cell_at(c1, xx, yy));
            }
            assert forall|yy: int, xx: int| in_cache(d2, xx, yy) && !in_cache(d1, xx, yy) implies (#[trigger] cell_at(d2, xx, yy)).time_grad_count == 0 by {
                assert(cell_at(d2, xx, yy) == cell_at(c2, xx, yy));
            }
            lemma_time_total_grow(d1, d2);
        }
    }
}

impl<S: Clone, R> DrawingCache<S, R> {
    /// Removes the layers of the path `ids` from the cell at (`x`, `y`); returns how many of
    /// them were time effected.
    fn remove_at<F: Fn(&S) -> bool>(&mut self, is_time_effected: &F, x: usize, y: usize, ids: &Vec<String>) -> (n: usize)
        requires
            forall|s: &S| is_time_effected.requires((s,)),
            in_cache(old(self).cache_2d@, x as int, y as int),
        ensures
            final(self).cache_2d@.len() == old(self).cache_2d@.len(),
            forall|yy: int| 0 <= yy < old(self).cache_2d@.len() ==> (#[trigger] final(self).cache_2d@[yy]@).len() == old(self).cache_2d@[yy]@.len(),
            forall|yy: int, xx: int|
                in_cache(old(self).cache_2d@, xx, yy) && !(xx == x && yy == y) ==> #[trigger] cell_at(final(self).cache_2d@, xx, yy)
                    == cell_at(old(self).cache_2d@, xx, yy),
            layers_view(cell_at(final(self).cache_2d@, x as int, y as int).layers@) == layers_without(
                layers_view(cell_at(old(self).cache_2d@, x as int, y as int).layers@),
                ids_view(ids@),
            ),
            cell_at(final(self).cache_2d@, x as int, y as int).dirty,
            cell_at(final(self).cache_2d@, x as int, y as int).last_draw_ch == cell_at(old(self).cache_2d@, x as int, y as int).last_draw_ch,
            final(self).cached_upd == old(self).cached_upd,
            final(self).time_grad_count == old(self).time_grad_count,
            cell_at(final(self).cache_2d@, x as int, y as int).time_grad_count == cell_at(
                old(self).cache_2d@,
                x as int,
                y as int,
            ).time_grad_count.saturating_sub(n),
            deterministic(*is_time_effected) ==> n + time_count(
                *is_time_effected,
                layers_view(cell_at(final(self).cache_2d@, x as int, y as int).layers@),
            ) == time_count(*is_time_effected, layers_view(cell_at(old(self).cache_2d@, x as int, y as int).layers@)),
    {
        let mut row: Vec<CachedPos<S, R>> = Vec::new();
        std::mem::swap(&mut row, &mut self.cache_2d[y]);
        let mut cell: CachedPos<S, R> = CachedPos::default();
        std::mem::swap(&mut cell, &mut row[x]);
        let n = cell.remove(is_time_effected, ids);
        std::mem::swap(&mut cell, &mut row[x]);
        std::mem::swap(&mut row, &mut self.cache_2d[y]);
        n
    }

    /// Takes the drawings `rm` off the screen cells: at each cell where a character of a drawing
    /// lies, the layers of its path are removed. Positions outside the cache are skipped.
    fn remove_from_cells<F: Fn(&S) -> bool>(
        &mut self,
        is_time_effected: &F,
        rm: Vec<(Vec<String>, Vec<DrawChPos<S>>)>,
    )
        requires
            forall|s: &S| is_time_effected.requires((s,)),
        ensures
            removal_done(old(self).cache_2d@, final(self).cache_2d@, taken_view(rm@)),
            final(self).cached_upd == old(self).cached_upd,
            deterministic(*is_time_effected) && cells_counted(old(self).cache_2d@, *is_time_effected)
                && old(self).time_grad_count == time_total(old(self).cache_2d@) ==> cells_counted(
                final(self).cache_2d@,
                *is_time_effected,
            ) && final(self).time_grad_count == time_total(final(self).cache_2d@),
    {
        let ghost c0 = self.cache_2d@;
        let ghost rms = taken_view(rm@);
        let ghost good = deterministic(*is_time_effected) && cells_counted(c0, *is_time_effected) && self.time_grad_count
            == time_total(c0);
        for entry in it: rm
            invariant
                taken_view(it.seq()) == rms,
                forall|s: &S| is_time_effected.requires((s,)),
                self.cached_upd == old(self).cached_upd,
                removal_done(c0, self.cache_2d@, rms.take(it.index() as int)),
                good == (deterministic(*is_time_effected) && cells_counted(c0, *is_time_effected) && old(self).time_grad_count
                    == time_total(c0)),
                good ==> cells_counted(self.cache_2d@, *is_time_effected) && self.time_grad_count == time_total(self.cache_2d@),
        {
            let ghost i = it.index() as int;
            let ghost cb = self.cache_2d@;
            proof {
                let t = rms.take(i + 1);
                assert(t.drop_last() =~= rms.take(i));
                assert(t.last() == rms[i]);
            }
            let (ids, dcps) = entry;
            assert(rms[i] == (ids_view(ids@), dcps@));
            let mut j: usize = 0;
            while j < dcps.len()
                invariant
                    forall|s: &S| is_time_effected.requires((s,)),
                    self.cached_upd == old(self).cached_upd,
                    j <= dcps@.len(),
                    good ==> deterministic(*is_time_effected),
                    good ==> cells_counted(self.cache_2d@, *is_time_effected) && self.time_grad_count == time_total(self.cache_2d@),
                    self.cache_2d@.len() == cb.len(),
                    forall|yy: int| 0 <= yy < cb.len() ==> (#[trigger] self.cache_2d@[yy]@).len() == cb[yy]@.len(),
                    forall|yy: int, xx: int|
                        in_cache(cb, xx, yy) ==> {
                            &&& layers_view((#[trigger] cell_at(self.cache_2d@, xx, yy)).layers@) == if hits(
                                dcps@.take(j as int),
                                xx,
                                yy,
                            ) {
                                layers_without(layers_view(cell_at(cb, xx, yy).layers@), ids_view(ids@))
                            } else {
                                layers_view(cell_at(cb, xx, yy).layers@)
                            }
                            &&& cell_at(self.cache_2d@, xx, yy).dirty == (cell_at(cb, xx, yy).dirty || hits(
                                dcps@.take(j as int),
                                xx,
                                yy,
                            ))
                            &&& cell_at(self.cache_2d@, xx, yy).last_draw_ch == cell_at(cb, xx, yy).last_draw_ch
                        },
                decreases dcps@.len() - j,
            {
                let x = dcps[j].x as usize;
                let y = dcps[j].y as usize;
                proof {
                    assert forall|yy: int, xx: int| #[trigger] hits(dcps@.take(j + 1), xx, yy) == (hits(dcps@.take(j as int), xx, yy) || (xx == x && yy == y)) by {
                        let t = dcps@.take(j + 1);
                        if hits(t, xx, yy) {
                            let k = choose|k: int| 0 <= k < t.len() && t[k].x == xx && t[k].y == yy;
                            if k < j {
                                assert(dcps@.take(j as int)[k] == t[k]);
                            }
                        }
                        if hits(dcps@.take(j as int), xx, yy) {
                            let k = choose|k: int| 0 <= k < j && dcps@.take(j as int)[k].x == xx && dcps@.take(j as int)[k].y == yy;
                            assert(t[k] == dcps@.take(j as int)[k]);
                        }
                        if xx == x && yy == y {
                            assert(t[j as int] == dcps@[j as int]);
                        }
                    }
                }
                if y < self.cache_2d.len() && x < self.cache_2d[y].len() {
                    let ghost cbefore = self.cache_2d@;
                    let decr = self.remove_at(is_time_effected, x, y, &ids);
                    proof {
                        if good {
                            let cafter = self.cache_2d@;
                            lemma_time_total_cell(cbefore, cafter, x as int, y as int);
                            lemma_time_total_nonneg(cafter);
                            assert forall|yy: int, xx: int| in_cache(cafter, xx, yy) implies (#[trigger] cell_at(cafter, xx, yy)).time_grad_count
                                == time_count(*is_time_effected, layers_view(cell_at(cafter, xx, yy).layers@)) by {
                                assert(in_cache(cbefore, xx, yy));
                                assert(cell_at(cbefore, xx, yy).time_grad_count == time_count(
                                    *is_time_effected,
                                    layers_view(cell_at(cbefore, xx, yy).layers@),
                                ));
                            }
                        }
                    }
                    self.time_grad_count = self.time_grad_count.saturating_sub(decr);
                    proof {
                        lemma_without_twice(layers_view(cell_at(cb, x as int, y as int).layers@), ids_view(ids@));
                    }
                }
                j = j + 1;
            }
            proof {
                assert(dcps@.take(dcps@.len() as int) =~= dcps@);
                assert forall|yy: int, xx: int| in_cache(c0, xx, yy) implies #[trigger] hit_any(rms.take(i + 1), xx, yy) == (hit_any(rms.take(i), xx, yy) || hits(dcps@, xx, yy)) by {
                    let t = rms.take(i + 1);
                    if hit_any(t, xx, yy) {
                        let k = choose|k: int| 0 <= k < t.len() && hits(t[k].1, xx, yy);
                        if k < i {
                            assert(rms.take(i)[k] == t[k]);
                        }
                    }
                    if hit_any(rms.take(i), xx, yy) {
                        let k = choose|k: int| 0 <= k < i && hits(rms.take(i)[k].1, xx, yy);
                        assert(t[k] == rms.take(i)[k]);
                    }
                    if hits(dcps@, xx, yy) {
                        assert(t[i] == rms[i]);
                    }
                }
            }
        }
        proof {
            assert(rms.take(rms.len() as int) =~= rms);
        }
    }
}

// ------------------------------------------------------------------------------------------
// Adding drawings to the screen cells

/// The layers that a drawing adds: one for each of its characters, in order.
pub open spec fn entry_items<S>(e: (Seq<Seq<char>>, Seq<u32>, Seq<DrawChPos<S>>)) -> Seq<
    (Seq<Seq<char>>, Seq<u32>, DrawChPos<S>),
> {
    Seq::new(e.2.len(), |j: int| (e.0, e.1, e.2[j]))
}

/// The layers that the drawings add, in order.
pub open spec fn flat_items<S>(adds: Seq<(Seq<Seq<char>>, Seq<u32>, Seq<DrawChPos<S>>)>) -> Seq<
    (Seq<Seq<char>>, Seq<u32>, DrawChPos<S>),
>
    decreases adds.len(),
{
    if adds.len() == 0 {
        Seq::empty()
    } else {
        flat_items(adds.drop_last()) + entry_items(adds.last())
    }
}

/// The number of rows that the layers need: one past the largest y.
pub open spec fn need_h<S>(items: Seq<(Seq<Seq<char>>, Seq<u32>, DrawChPos<S>)>) -> nat
    decreases items.len(),
{
    if items.len() == 0 {
        0
    } else if items.last().2.y + 1 > need_h(items.drop_last()) {
        (items.last().2.y + 1) as nat
    } else {
        need_h(items.drop_last())
    }
}

/// The number of cells that the layers need in row `y`: one past the largest x there.
pub open spec fn need_w<S>(items: Seq<(Seq<Seq<char>>, Seq<u32>, DrawChPos<S>)>, y: int) -> nat
    decreases items.len(),
{
    if items.len() == 0 {
        0
    } else if items.last().2.y == y && items.last().2.x + 1 > need_w(items.drop_last(), y) {
        (items.last().2.x + 1) as nat
    } else {
        need_w(items.drop_last(), y)
    }
}

/// The layers added at (`x`, `y`), in order.
pub open spec fn added_at<S>(items: Seq<(Seq<Seq<char>>, Seq<u32>, DrawChPos<S>)>, x: int, y: int) -> Seq<
    (Seq<Seq<char>>, Seq<u32>, DrawChPos<S>),
>
    decreases items.len(),
{
    if items.len() == 0 {
        Seq::empty()
    } else if items.last().2.x == x && items.last().2.y == y {
        added_at(items.drop_last(), x, y).push(items.last())
    } else {
        added_at(items.drop_last(), x, y)
    }
}

/// The length of row `y`, zero where there is no such row.
pub open spec fn row_len<S, R>(c: Seq<Vec<CachedPos<S, R>>>, y: int) -> nat {
    if 0 <= y < c.len() {
        c[y]@.len()
    } else {
        0
    }
}

/// The larger of two numbers.
pub open spec fn max_nat(a: nat, b: nat) -> nat {
    if a >= b {
        a
    } else {
        b
    }
}

/// `c2` is the cache `c1` after the layers `items` were added to the screen cells: rows and
/// cells were added (empty and dirty) as far as the layers need, and each cell holds its layers
/// followed by those added there, and is dirty where one was added.
pub open spec fn adds_done<S, R>(
    c1: Seq<Vec<CachedPos<S, R>>>,
    c2: Seq<Vec<CachedPos<S, R>>>,
    items: Seq<(Seq<Seq<char>>, Seq<u32>, DrawChPos<S>)>,
) -> bool {
    &&& c2.len() == max_nat(c1.len(), need_h(items))
    &&& forall|y: int| 0 <= y < c2.len() ==> (#[trigger] c2[y]@).len() == max_nat(row_len(c1, y), need_w(items, y))
    &&& forall|y: int, x: int|
        in_cache(c2, x, y) ==> {
            &&& layers_view((#[trigger] cell_at(c2, x, y)).layers@) == (if in_cache(c1, x, y) {
                layers_view(cell_at(c1, x, y).layers@)
            } else {
                Seq::empty()
            }) + added_at(items, x, y)
            &&& cell_at(c2, x, y).dirty == if in_cache(c1, x, y) {
                cell_at(c1, x, y).dirty || added_at(items, x, y).len() > 0
            } else {
                true
            }
            &&& cell_at(c2, x, y).last_draw_ch == if in_cache(c1, x, y) {
                cell_at(c1, x, y).last_draw_ch
            } else {
                None
            }
        }
}

proof fn lemma_adds_none<S, R>(c: Seq<Vec<CachedPos<S, R>>>)
    ensures
        adds_done(c, c, Seq::<(Seq<Seq<char>>, Seq<u32>, DrawChPos<S>)>::empty()),
{
    let e = Seq::<(Seq<Seq<char>>, Seq<u32>, DrawChPos<S>)>::empty();
    assert forall|y: int, x: int| in_cache(c, x, y) implies layers_view((#[trigger] cell_at(c, x, y)).layers@)
        == layers_view(cell_at(c, x, y).layers@) + added_at(e, x, y) by {
        assert(layers_view(cell_at(c, x, y).layers@) + added_at(e, x, y) =~= layers_view(cell_at(c, x, y).layers@));
    }
}

proof fn lemma_adds_step<S, R>(
    c1: Seq<Vec<CachedPos<S, R>>>,
    c: Seq<Vec<CachedPos<S, R>>>,
    c2: Seq<Vec<CachedPos<S, R>>>,
    items: Seq<(Seq<Seq<char>>, Seq<u32>, DrawChPos<S>)>,
    it: (Seq<Seq<char>>, Seq<u32>, DrawChPos<S>),
)
    requires
        adds_done(c1, c, items),
        c2.len() == max_nat(c.len(), (it.2.y + 1) as nat),
        forall|y: int| 0 <= y < c2.len() ==> (#[trigger] c2[y]@).len() == if y == it.2.y {
            max_nat(row_len(c, y), (it.2.x + 1) as nat)
        } else {
            row_len(c, y)
        },
        forall|y: int, x: int|
            in_cache(c2, x, y) && !(x == it.2.x && y == it.2.y) ==> #[trigger] cell_at(c2, x, y) == if in_cache(c, x, y) {
                cell_at(c, x, y)
            } else {
                CachedPos { time_grad_count: 0, dirty: true, last_draw_ch: None, layers: cell_at(c2, x, y).layers }
            },
        forall|y: int, x: int|
            in_cache(c2, x, y) && !in_cache(c, x, y) ==> (#[trigger] cell_at(c2, x, y)).layers@.len() == 0 || (x == it.2.x && y == it.2.y),
        layers_view(cell_at(c2, it.2.x as int, it.2.y as int).layers@) == (if in_cache(c, it.2.x as int, it.2.y as int) {
            layers_view(cell_at(c, it.2.x as int, it.2.y as int).layers@)
        } else {
            Seq::empty()
        }).push(it),
        cell_at(c2, it.2.x as int, it.2.y as int).dirty,
        cell_at(c2, it.2.x as int, it.2.y as int).last_draw_ch == if in_cache(c, it.2.x as int, it.2.y as int) {
            cell_at(c, it.2.x as int, it.2.y as int).last_draw_ch
        } else {
            None
        },
    ensures
        adds_done(c1, c2, items.push(it)),
{
    let ni = items.push(it);
    assert(ni.drop_last() =~= items);
    assert forall|y: int| 0 <= y < c2.len() implies (#[trigger] c2[y]@).len() == max_nat(row_len(c1, y), need_w(ni, y)) by {
        lemma_need_w_bound(items, y);
        if y < c.len() {
            assert(c[y]@.len() == max_nat(row_len(c1, y), need_w(items, y)));
        }
    }
    assert forall|y: int, x: int| in_cache(c2, x, y) implies {
        &&& layers_view((#[trigger] cell_at(c2, x, y)).layers@) == (if in_cache(c1, x, y) {
            layers_view(cell_at(c1, x, y).layers@)
        } else {
            Seq::empty()
        }) + added_at(ni, x, y)
        &&& cell_at(c2, x, y).dirty == if in_cache(c1, x, y) {
            cell_at(c1, x, y).dirty || added_at(ni, x, y).len() > 0
        } else {
            true
        }
        &&& cell_at(c2, x, y).last_draw_ch == if in_cache(c1, x, y) {
            cell_at(c1, x, y).last_draw_ch
        } else {
            None
        }
    } by {
        if x == it.2.x && y == it.2.y {
            if in_cache(c, x, y) {
                assert(layers_view(cell_at(c, x, y).layers@) == (if in_cache(c1, x, y) {
                    layers_view(cell_at(c1, x, y).layers@)
                } else {
                    Seq::empty()
                }) + added_at(items, x, y));
            } else {
                // the cell was not in the cache before this layer, so nothing was added there
                lemma_added_at_outside(c1, c, items, x, y);
            }
        } else {
            if in_cache(c, x, y) {
            } else {
                lemma_added_at_outside(c1, c, items, x, y);
                assert(layers_view(cell_at(c2, x, y).layers@) =~= Seq::empty());
            }
        }
    }
}

/// Where the cache did not reach after layers were added, none of them was added there, nor
/// was the cell there before.
proof fn lemma_added_at_outside<S, R>(
    c1: Seq<Vec<CachedPos<S, R>>>,
    c: Seq<Vec<CachedPos<S, R>>>,
    items: Seq<(Seq<Seq<char>>, Seq<u32>, DrawChPos<S>)>,
    x: int,
    y: int,
)
    requires
        adds_done(c1, c, items),
        0 <= x,
        0 <= y,
        !in_cache(c, x, y),
    ensures
        added_at(items, x, y).len() == 0,
        !in_cache(c1, x, y),
{
    lemma_need_covers(items, x, y);
    if y < c.len() {
        assert(c[y]@.len() == max_nat(row_len(c1, y), need_w(items, y)));
    }
}

/// A row that needs cells is one of the rows needed.
proof fn lemma_need_w_bound<S>(items: Seq<(Seq<Seq<char>>, Seq<u32>, DrawChPos<S>)>, y: int)
    ensures
        need_w(items, y) > 0 ==> 0 <= y < need_h(items),
    decreases items.len(),
{
    if items.len() > 0 {
        lemma_need_w_bound(items.drop_last(), y);
    }
}

/// Each added layer lies within the rows and cells the layers need.
proof fn lemma_need_covers<S>(items: Seq<(Seq<Seq<char>>, Seq<u32>, DrawChPos<S>)>, x: int, y: int)
    ensures
        added_at(items, x, y).len() > 0 ==> y < need_h(items) && x < need_w(items, y),
    decreases items.len(),
{
    if items.len() > 0 {
        lemma_need_covers(items.drop_last(), x, y);
    }
}

impl<S: Clone, R> DrawingCache<S, R> {
    /// Adds rows and cells (empty, dirty) until (`x`, `y`) is a cell of the cache.
    fn ensure_cell(&mut self, x: usize, y: usize)
        requires
            x < usize::MAX,
            y < usize::MAX,
        ensures
            final(self).cache_2d@.len() == max_nat(old(self).cache_2d@.len(), (y + 1) as nat),
            forall|yy: int| 0 <= yy < final(self).cache_2d@.len() ==> (#[trigger] final(self).cache_2d@[yy]@).len() == if yy == y {
                max_nat(row_len(old(self).cache_2d@, yy), (x + 1) as nat)
            } else {
                row_len(old(self).cache_2d@, yy)
            },
            forall|yy: int, xx: int|
                in_cache(final(self).cache_2d@, xx, yy) ==> #[trigger] cell_at(final(self).cache_2d@, xx, yy) == if in_cache(old(self).cache_2d@, xx, yy) {
                    cell_at(old(self).cache_2d@, xx, yy)
                } else {
                    CachedPos { time_grad_count: 0, dirty: true, last_draw_ch: None, layers: cell_at(final(self).cache_2d@, xx, yy).layers }
                },
            forall|yy: int, xx: int|
                in_cache(final(self).cache_2d@, xx, yy) && !in_cache(old(self).cache_2d@, xx, yy) ==> (#[trigger] cell_at(final(self).cache_2d@, xx, yy)).layers@.len() == 0,
            final(self).cached_upd == old(self).cached_upd,
            final(self).time_grad_count == old(self).time_grad_count,
    {
        let ghost c0 = self.cache_2d@;
        while self.cache_2d.len() <= y
            invariant
                y < usize::MAX,
                c0.len() <= self.cache_2d@.len() <= max_nat(c0.len(), (y + 1) as nat),
                forall|yy: int| 0 <= yy < c0.len() ==> #[trigger] self.cache_2d@[yy] == c0[yy],
                forall|yy: int| c0.len() <= yy < self.cache_2d@.len() ==> (#[trigger] self.cache_2d@[yy]@).len() == 0,
                self.cached_upd == old(self).cached_upd,
                self.time_grad_count == old(self).time_grad_count,
            decreases y + 1 - self.cache_2d@.len(),
        {
            self.cache_2d.push(Vec::new());
        }
        let mut row: Vec<CachedPos<S, R>> = Vec::new();
        std::mem::swap(&mut row, &mut self.cache_2d[y]);
        let ghost r0 = row@;
        while row.len() <= x
            invariant
                x < usize::MAX,
                r0.len() <= row@.len() <= max_nat(r0.len(), (x + 1) as nat),
                forall|xx: int| 0 <= xx < r0.len() ==> #[trigger] row@[xx] == r0[xx],
                forall|xx: int|
                    r0.len() <= xx < row@.len() ==> (#[trigger] row@[xx]).time_grad_count == 0 && row@[xx].dirty
                        && row@[xx].last_draw_ch.is_none() && row@[xx].layers@.len() == 0,
            decreases x + 1 - row@.len(),
        {
            row.push(CachedPos::default());
        }
        std::mem::swap(&mut row, &mut self.cache_2d[y]);
    }

    /// Adds a layer of the path `ids` to the cell at (`x`, `y`); returns 1 where it is time
    /// effected, else 0.
    fn add_at<F: Fn(&S) -> bool>(
        &mut self,
        is_time_effected: &F,
        ids: &Vec<String>,
        zs: &Vec<u32>,
        dcp: DrawChPos<S>,
    ) -> (n: usize)
        requires
            forall|s: &S| is_time_effected.requires((s,)),
            in_cache(old(self).cache_2d@, dcp.x as int, dcp.y as int),
        ensures
            final(self).cache_2d@.len() == old(self).cache_2d@.len(),
            forall|yy: int| 0 <= yy < old(self).cache_2d@.len() ==> (#[trigger] final(self).cache_2d@[yy]@).len() == old(self).cache_2d@[yy]@.len(),
            forall|yy: int, xx: int|
                in_cache(old(self).cache_2d@, xx, yy) && !(xx == dcp.x && yy == dcp.y) ==> #[trigger] cell_at(final(self).cache_2d@, xx, yy)
                    == cell_at(old(self).cache_2d@, xx, yy),
            layers_view(cell_at(final(self).cache_2d@, dcp.x as int, dcp.y as int).layers@) == layers_view(
                cell_at(old(self).cache_2d@, dcp.x as int, dcp.y as int).layers@,
            ).push((ids_view(ids@), zs@, dcp)),
            cell_at(final(self).cache_2d@, dcp.x as int, dcp.y as int).dirty,
            cell_at(final(self).cache_2d@, dcp.x as int, dcp.y as int).last_draw_ch == cell_at(old(self).cache_2d@, dcp.x as int, dcp.y as int).last_draw_ch,
            final(self).cached_upd == old(self).cached_upd,
            final(self).time_grad_count == old(self).time_grad_count,
            n <= 1,
            cell_at(final(self).cache_2d@, dcp.x as int, dcp.y as int).time_grad_count == cell_at(
                old(self).cache_2d@,
                dcp.x as int,
                dcp.y as int,
            ).time_grad_count.saturating_add(n),
            deterministic(*is_time_effected) ==> (n == 1) == time_effected(*is_time_effected, (ids_view(ids@), zs@, dcp)),
            deterministic(*is_time_effected) && cell_at(old(self).cache_2d@, dcp.x as int, dcp.y as int).time_grad_count
                == time_count(*is_time_effected, layers_view(cell_at(old(self).cache_2d@, dcp.x as int, dcp.y as int).layers@))
                ==> cell_at(final(self).cache_2d@, dcp.x as int, dcp.y as int).time_grad_count == time_count(
                *is_time_effected,
                layers_view(cell_at(final(self).cache_2d@, dcp.x as int, dcp.y as int).layers@),
            ),
    {
        let x = dcp.x as usize;
        let y = dcp.y as usize;
        let mut row: Vec<CachedPos<S, R>> = Vec::new();
        std::mem::swap(&mut row, &mut self.cache_2d[y]);
        let mut cell: CachedPos<S, R> = CachedPos::default();
        std::mem::swap(&mut cell, &mut row[x]);
        let n = cell.add(is_time_effected, ids, zs, dcp);
        std::mem::swap(&mut cell, &mut row[x]);
        std::mem::swap(&mut row, &mut self.cache_2d[y]);
        n
    }

    /// Adds the drawings `add` to the screen cells, growing the cache as far as they need.
    fn add_to_cells<F: Fn(&S) -> bool>(
        &mut self,
        is_time_effected: &F,
        add: Vec<(Vec<String>, Vec<u32>, Vec<DrawChPos<S>>)>,
    )
        requires
            forall|s: &S| is_time_effected.requires((s,)),
        ensures
            adds_done(old(self).cache_2d@, final(self).cache_2d@, flat_items(entries_view(add@))),
            final(self).cached_upd == old(self).cached_upd,
            deterministic(*is_time_effected) && cells_counted(old(self).cache_2d@, *is_time_effected)
                && old(self).time_grad_count == time_total(old(self).cache_2d@) ==> cells_counted(
                final(self).cache_2d@,
                *is_time_effected,
            ) && final(self).time_grad_count == capped_time_total(final(self).cache_2d@),
    {
        let ghost c1 = self.cache_2d@;
        let ghost av = entries_view(add@);
        let ghost good = deterministic(*is_time_effected) && cells_counted(c1, *is_time_effected) && self.time_grad_count
            == time_total(c1);
        proof {
            lemma_adds_none(c1);
        }
        for entry in it: add
            invariant
                entries_view(it.seq()) == av,
                forall|s: &S| is_time_effected.requires((s,)),
                self.cached_upd == old(self).cached_upd,
                adds_done(c1, self.cache_2d@, flat_items(av.take(it.index() as int))),
                good ==> deterministic(*is_time_effected),
                good ==> cells_counted(self.cache_2d@, *is_time_effected) && self.time_grad_count == capped_time_total(self.cache_2d@),
        {
            let ghost i = it.index() as int;
            proof {
                let t = av.take(i + 1);
                assert(t.drop_last() =~= av.take(i));
                assert(t.last() == av[i]);
            }
            let (ids, zs, dcps) = entry;
            let ghost base = flat_items(av.take(i));
            let ghost ei = entry_items(av[i]);
            assert(av[i] == (ids_view(ids@), zs@, dcps@));
            proof {
                assert(base + ei.take(0) =~= base);
            }
            for dcp in it2: dcps
                invariant
                    it2.seq() == av[i].2,
                    ei == entry_items(av[i]),
                    av[i] == (ids_view(ids@), zs@, it2.seq()),
                    forall|s: &S| is_time_effected.requires((s,)),
                    self.cached_upd == old(self).cached_upd,
                    adds_done(c1, self.cache_2d@, base + ei.take(it2.index() as int)),
                    good ==> deterministic(*is_time_effected),
                    good ==> cells_counted(self.cache_2d@, *is_time_effected) && self.time_grad_count == capped_time_total(self.cache_2d@),
            {
                let ghost j = it2.index() as int;
                let ghost c = self.cache_2d@;
                let ghost item = (ids_view(ids@), zs@, dcp);
                assert(ei[j] == item);
                let x = dcp.x as usize;
                let y = dcp.y as usize;
                self.ensure_cell(x, y);
                let ghost ce = self.cache_2d@;
                proof {
                    if good {
                        lemma_time_total_grow(c, ce);
                        assert forall|yy: int, xx: int| in_cache(ce, xx, yy) implies (#[trigger] cell_at(ce, xx, yy)).time_grad_count
                            == time_count(*is_time_effected, layers_view(cell_at(ce, xx, yy).layers@)) by {
                            if in_cache(c, xx, yy) {
                                assert(cell_at(c, xx, yy).time_grad_count == time_count(
                                    *is_time_effected,
                                    layers_view(cell_at(c, xx, yy).layers@),
                                ));
                            } else {
                                assert(layers_view(cell_at(ce, xx, yy).layers@) =~= Seq::empty());
                            }
                        }
                    }
                }
                let n = self.add_at(is_time_effected, &ids, &zs, dcp);
                proof {
                    if good {
                        let ca = self.cache_2d@;
                        let lb = layers_view(cell_at(ce, x as int, y as int).layers@);
                        assert(layers_view(cell_at(ca, x as int, y as int).layers@).drop_last() =~= lb);
                        assert(cell_at(ca, x as int, y as int).time_grad_count == cell_at(ce, x as int, y as int).time_grad_count + n);
                        lemma_time_total_cell(ce, ca, x as int, y as int);
                        assert(time_total(ca) == time_total(ce) + n);
                        assert(cell_at(ce, x as int, y as int).time_grad_count == time_count(
                            *is_time_effected,
                            layers_view(cell_at(ce, x as int, y as int).layers@),
                        ));
                        assert forall|yy: int, xx: int| in_cache(ca, xx, yy) implies (#[trigger] cell_at(ca, xx, yy)).time_grad_count
                            == time_count(*is_time_effected, layers_view(cell_at(ca, xx, yy).layers@)) by {
                            assert(in_cache(ce, xx, yy));
                            assert(cell_at(ce, xx, yy).time_grad_count == time_count(
                                *is_time_effected,
                                layers_view(cell_at(ce, xx, yy).layers@),
                            ));
                        }
                    }
                }
                self.time_grad_count = self.time_grad_count.saturating_add(n);
                proof {
                    if in_cache(c, x as int, y as int) {
                        assert(cell_at(ce, x as int, y as int) == cell_at(c, x as int, y as int));
                    } else {
                        assert(layers_view(cell_at(ce, x as int, y as int).layers@) =~= Seq::empty());
                    }
                    lemma_adds_step(c1, c, self.cache_2d@, base + ei.take(j), item);
                    assert((base + ei.take(j)).push(item) =~= base + ei.take(j + 1));
                }
            }
            proof {
                assert(ei.take(ei.len() as int) =~= ei);
            }
        }
        proof {
            assert(av.take(av.len() as int) =~= av);
        }
    }
}

// ------------------------------------------------------------------------------------------

/// What `DrawingCache::update` does to the cache `c` with the draw updates `us` (`n` is the
/// cache afterwards): the cached drawings are those after the updates; the screen cells lose
/// the layers of the drawings taken away (`removal_done`), then gain layers of clones of the
/// drawings that the updates brought (`adds_done`); without updates the count of time
/// gradients stays.
pub open spec fn cache_updated<S: Clone, R>(
    c: DrawingCache<S, R>,
    us: Seq<DrawUpdate<S>>,
    n: DrawingCache<S, R>,
) -> bool {
    let after = after_updates(entries_view(c.cached_upd@), us);
    &&& entries_view(n.cached_upd@) == after.0
    &&& exists|mid: Seq<Vec<CachedPos<S, R>>>, adds: Seq<(Seq<Seq<char>>, Seq<u32>, Seq<DrawChPos<S>>)>|
        {
            &&& removal_done(c.cache_2d@, mid, after.1)
            &&& entries_clone_of(after.2, adds)
            &&& adds_done(mid, n.cache_2d@, flat_items(adds))
        }
    &&& us.len() == 0 ==> n.time_grad_count == c.time_grad_count
}

/// What the cells of one row send (`None`: nothing), with their column and the row `y`.
pub open spec fn sent_row<R>(row: Seq<Option<R>>, y: int) -> Seq<(usize, usize, R)>
    decreases row.len(),
{
    if row.len() == 0 {
        Seq::empty()
    } else {
        let rest = sent_row(row.drop_last(), y);
        match row.last() {
            Some(r) => rest.push(((row.len() - 1) as usize, y as usize, r)),
            None => rest,
        }
    }
}

/// What the cells send, row after row, each with its column and row.
pub open spec fn sent<R>(us: Seq<Seq<Option<R>>>) -> Seq<(usize, usize, R)>
    decreases us.len(),
{
    if us.len() == 0 {
        Seq::empty()
    } else {
        sent(us.drop_last()) + sent_row(us.last(), us.len() - 1)
    }
}

/// Every cell of `n` is the cell of `c` after getting its update, which gave `us[y][x]`.
pub open spec fn cells_updated<S, R: Clone, B: Fn() -> R, F: Fn(&DrawChPos<S>, &R) -> R, G: Fn(&R, &R) -> bool>(
    blank: B,
    draw_over: F,
    same: G,
    c: Seq<Vec<CachedPos<S, R>>>,
    n: Seq<Vec<CachedPos<S, R>>>,
    us: Seq<Seq<Option<R>>>,
) -> bool {
    &&& n.len() == c.len()
    &&& us.len() == c.len()
    &&& forall|y: int| 0 <= y < c.len() ==> (#[trigger] n[y])@.len() == c[y]@.len() && us[y].len() == c[y]@.len()
    &&& forall|y: int, x: int|
        0 <= y < c.len() && 0 <= x < c[y]@.len() ==> cell_updated(
            blank,
            draw_over,
            same,
            c[y]@[x],
            #[trigger] n[y]@[x],
            us[y][x],
        )
}

impl<S: Clone, R: Clone> DrawingCache<S, R> {
    /// Applies the draw updates, then gets what to send to the screen: nothing where there were
    /// no updates and no time gradients are cached; otherwise the update of every cell (see
    /// `CachedPos::get_update`), row after row, of those that send something, with their column
    /// and row.
    pub fn update_and_get<
        T: Fn(&S) -> bool,
        B: Fn() -> R,
        F: Fn(&DrawChPos<S>, &R) -> R,
        G: Fn(&R, &R) -> bool,
    >(
        &mut self,
        is_time_effected: &T,
        updates: Vec<DrawUpdate<S>>,
        blank: &B,
        draw_over: &F,
        same: &G,
    ) -> (out: Vec<(usize, usize, R)>)
        requires
            forall|s: &S| is_time_effected.requires((s,)),
            blank.requires(()),
            forall|d: &DrawChPos<S>, x: &R| draw_over.requires((d, x)),
            forall|a: &R, b: &R| same.requires((a, b)),
        ensures
            exists|mid: DrawingCache<S, R>|
                {
                    &&& cache_updated(*old(self), updates@, mid)
                    &&& updates@.len() == 0 && mid.time_grad_count == 0 ==> out@.len() == 0
                        && *final(self) == mid
                    &&& !(updates@.len() == 0 && mid.time_grad_count == 0) ==> {
                        &&& final(self).cached_upd == mid.cached_upd
                        &&& final(self).time_grad_count == mid.time_grad_count
                        &&& exists|us: Seq<Seq<Option<R>>>|
                            cells_updated(*blank, *draw_over, *same, mid.cache_2d@, final(self).cache_2d@, us)
                                && out@ == sent(us)
                    }
                },
    {
        let upd_len = updates.len();
        self.update(is_time_effected, updates);
        let ghost mid = *self;
        if upd_len == 0 && self.time_grad_count == 0 {
            return Vec::new();
        }
        let ghost c = mid.cache_2d@;
        let mut out: Vec<(usize, usize, R)> = Vec::new();
        let ghost mut us: Seq<Seq<Option<R>>> = Seq::empty();
        let mut y: usize = 0;
        while y < self.cache_2d.len()
            invariant
                blank.requires(()),
                forall|d: &DrawChPos<S>, x: &R| draw_over.requires((d, x)),
                forall|a: &R, b: &R| same.requires((a, b)),
                self.cached_upd == mid.cached_upd,
                self.time_grad_count == mid.time_grad_count,
                self.cache_2d@.len() == c.len(),
                y <= c.len(),
                us.len() == y,
                forall|yy: int| y <= yy < c.len() ==> #[trigger] self.cache_2d@[yy] == c[yy],
                forall|yy: int| 0 <= yy < y ==> (#[trigger] self.cache_2d@[yy])@.len() == c[yy]@.len() && us[yy].len() == c[yy]@.len(),
                forall|yy: int, x: int|
                    0 <= yy < y && 0 <= x < c[yy]@.len() ==> cell_updated(
                        *blank,
                        *draw_over,
                        *same,
                        c[yy]@[x],
                        #[trigger] self.cache_2d@[yy]@[x],
                        us[yy][x],
                    ),
                out@ == sent(us),
            decreases c.len() - y,
        {
            let mut row: Vec<CachedPos<S, R>> = Vec::new();
            std::mem::swap(&mut row, &mut self.cache_2d[y]);
            let ghost crow = c[y as int]@;
            let ghost mut row_us: Seq<Option<R>> = Seq::empty();
            let ghost out0 = out@;
            let mut x: usize = 0;
            while x < row.len()
                invariant
                    blank.requires(()),
                    forall|d: &DrawChPos<S>, xx: &R| draw_over.requires((d, xx)),
                    forall|a: &R, b: &R| same.requires((a, b)),
                    row@.len() == crow.len(),
                    x <= crow.len(),
                    row_us.len() == x,
                    forall|xx: int| x <= xx < crow.len() ==> #[trigger] row@[xx] == crow[xx],
                    forall|xx: int|
                        0 <= xx < x ==> cell_updated(*blank, *draw_over, *same, crow[xx], #[trigger] row@[xx], row_us[xx]),
                    out@ == out0 + sent_row(row_us, y as int),
                decreases crow.len() - x,
            {
                let u = row[x].get_update(blank, draw_over, same);
                proof {
                    let t = row_us.push(u);
                    assert(t.drop_last() =~= row_us);
                    row_us = t;
                }
                match u {
                    Some(upd) => {
                        out.push((x, y, upd));
                    },
                    None => {},
                }
                x = x + 1;
            }
            std::mem::swap(&mut row, &mut self.cache_2d[y]);
            proof {
                let t = us.push(row_us);
                assert(t.drop_last() =~= us);
                us = t;
            }
            y = y + 1;
        }
        out
    }
}

impl<S: Clone, R> DrawingCache<S, R> {
    /// Marks every cell dirty and forgets what was last sent to the screen, so that everything
    /// is sent again.
    pub fn clear_screen(&mut self)
        ensures
            final(self).cache_2d@.len() == old(self).cache_2d@.len(),
            forall|y: int| 0 <= y < old(self).cache_2d@.len() ==> (#[trigger] final(self).cache_2d@[y]@).len() == old(self).cache_2d@[y]@.len(),
            forall|y: int, x: int|
                in_cache(old(self).cache_2d@, x, y) ==> {
                    &&& (#[trigger] cell_at(final(self).cache_2d@, x, y)).layers == cell_at(old(self).cache_2d@, x, y).layers
                    &&& cell_at(final(self).cache_2d@, x, y).time_grad_count == cell_at(old(self).cache_2d@, x, y).time_grad_count
                    &&& cell_at(final(self).cache_2d@, x, y).dirty
                    &&& cell_at(final(self).cache_2d@, x, y).last_draw_ch.is_none()
                },
            final(self).cached_upd == old(self).cached_upd,
            final(self).time_grad_count == old(self).time_grad_count,
    {
        let ghost c0 = self.cache_2d@;
        let h = self.cache_2d.len();
        let mut y: usize = 0;
        while y < h
            invariant
                h == c0.len(),
                y <= h,
                self.cache_2d@.len() == h,
                forall|yy: int| 0 <= yy < h ==> (#[trigger] self.cache_2d@[yy]@).len() == c0[yy]@.len(),
                forall|yy: int| y <= yy < h ==> #[trigger] self.cache_2d@[yy] == c0[yy],
                forall|yy: int, xx: int|
                    0 <= yy < y && 0 <= xx < c0[yy]@.len() ==> {
                        &&& (#[trigger] cell_at(self.cache_2d@, xx, yy)).layers == cell_at(c0, xx, yy).layers
                        &&& cell_at(self.cache_2d@, xx, yy).time_grad_count == cell_at(c0, xx, yy).time_grad_count
                        &&& cell_at(self.cache_2d@, xx, yy).dirty
                        &&& cell_at(self.cache_2d@, xx, yy).last_draw_ch.is_none()
                    },
                self.cached_upd == old(self).cached_upd,
                self.time_grad_count == old(self).time_grad_count,
            decreases h - y,
        {
            let ghost cb = self.cache_2d@;
            let mut row: Vec<CachedPos<S, R>> = Vec::new();
            std::mem::swap(&mut row, &mut self.cache_2d[y]);
            let ghost r0 = row@;
            assert(r0 == c0[y as int]@);
            let w = row.len();
            let mut x: usize = 0;
            while x < w
                invariant
                    w == r0.len(),
                    x <= w,
                    row@.len() == w,
                    forall|xx: int| x <= xx < w ==> #[trigger] row@[xx] == r0[xx],
                    forall|xx: int|
                        0 <= xx < x ==> (#[trigger] row@[xx]).layers == r0[xx].layers && row@[xx].time_grad_count
                            == r0[xx].time_grad_count && row@[xx].dirty && row@[xx].last_draw_ch.is_none(),
                decreases w - x,
            {
                let mut cell: CachedPos<S, R> = CachedPos::default();
                std::mem::swap(&mut cell, &mut row[x]);
                cell.last_draw_ch = None;
                cell.dirty = true;
                std::mem::swap(&mut cell, &mut row[x]);
                x = x + 1;
            }
            let ghost rf = row@;
            std::mem::swap(&mut row, &mut self.cache_2d[y]);
            assert(self.cache_2d@[y as int]@ == rf);
            assert forall|yy: int| 0 <= yy < h && yy != y implies #[trigger] self.cache_2d@[yy] == cb[yy] by {}
            assert forall|yy: int, xx: int| 0 <= yy <= y && 0 <= xx < c0[yy]@.len() implies {
                &&& (#[trigger] cell_at(self.cache_2d@, xx, yy)).layers == cell_at(c0, xx, yy).layers
                &&& cell_at(self.cache_2d@, xx, yy).time_grad_count == cell_at(c0, xx, yy).time_grad_count
                &&& cell_at(self.cache_2d@, xx, yy).dirty
                &&& cell_at(self.cache_2d@, xx, yy).last_draw_ch.is_none()
            } by {
                if yy == y {
                    assert(cell_at(self.cache_2d@, xx, yy) == rf[xx]);
                    assert(cell_at(c0, xx, yy) == r0[xx]);
                } else {
                    assert(cell_at(self.cache_2d@, xx, yy) == cell_at(cb, xx, yy));
                }
            }
            y = y + 1;
        }
    }

    /// Applies the draw updates in order. The cached drawings of each element path change as
    /// `after_updates` says; then the drawings taken away are removed from the screen cells,
    /// and the drawings of the updates that add or extend are added to them (as clones), the
    /// cache growing as far as they need. Where each cell held, of each path, as many layers as
    /// the cached drawings of that path have characters there, it still does (`cells_exact`).
    /// Where `is_time_effected` gives one answer for each
    /// style, each cell counts its layers that it reports as time effected, and the cache's count
    /// is the sum of the cells' counts, all this stays so (the sum held at the largest `usize`
    /// should it pass it).
    pub fn update<F: Fn(&S) -> bool>(&mut self, is_time_effected: &F, updates: Vec<DrawUpdate<S>>)
        requires
            forall|s: &S| is_time_effected.requires((s,)),
        ensures
            cache_updated(*old(self), updates@, *final(self)),
            cells_match(old(self).cache_2d@, entries_view(old(self).cached_upd@)) ==> cells_match(
                final(self).cache_2d@,
                entries_view(final(self).cached_upd@),
            ),
            cells_exact(old(self).cache_2d@, entries_view(old(self).cached_upd@)) ==> cells_exact(
                final(self).cache_2d@,
                entries_view(final(self).cached_upd@),
            ),
            deterministic(*is_time_effected) && cells_counted(old(self).cache_2d@, *is_time_effected)
                && old(self).time_grad_count == time_total(old(self).cache_2d@) ==> cells_counted(
                final(self).cache_2d@,
                *is_time_effected,
            ) && final(self).time_grad_count == capped_time_total(final(self).cache_2d@),
    {
        let ghost c0 = entries_view(self.cached_upd@);
        let ghost us = updates@;
        if updates.len() == 0 {
            proof {
                let e = Seq::<(Seq<Seq<char>>, Seq<u32>, Seq<DrawChPos<S>>)>::empty();
                assert(removal_done(self.cache_2d@, self.cache_2d@, after_updates(c0, us).1));
                lemma_adds_none(self.cache_2d@);
                assert(flat_items(e) =~= Seq::empty());
                assert(entries_clone_of(after_updates(c0, us).2, e));
                if cells_match(old(self).cache_2d@, entries_view(old(self).cached_upd@)) {
                    lemma_update_keeps_cells_matched(*old(self), us, *self);
                }
                if cells_exact(old(self).cache_2d@, entries_view(old(self).cached_upd@)) {
                    lemma_update_keeps_cells_exact(*old(self), us, *self);
                }
            }
            return;
        }
        let (rm, add) = self.read_updates(updates);
        self.remove_from_cells(is_time_effected, rm);
        let ghost mid = self.cache_2d@;
        let ghost adds = entries_view(add@);
        self.add_to_cells(is_time_effected, add);
        proof {
            assert(removal_done(old(self).cache_2d@, mid, after_updates(c0, us).1));
            assert(entries_clone_of(after_updates(c0, us).2, adds));
            assert(adds_done(mid, self.cache_2d@, flat_items(adds)));
            assert(cache_updated(*old(self), us, *self));
            if cells_match(old(self).cache_2d@, entries_view(old(self).cached_upd@)) {
                lemma_update_keeps_cells_matched(*old(self), us, *self);
            }
            if cells_exact(old(self).cache_2d@, entries_view(old(self).cached_upd@)) {
                lemma_update_keeps_cells_exact(*old(self), us, *self);
            }
        }
    }
}

// ------------------------------------------------------------------------------------------
// Laws of the cached drawings

/// A clearing, removal or update keeps exactly the drawings it does not take: none that it
/// takes stays, and every other one stays, in order.
pub proof fn lemma_kept_and_taken<S>(
    c: Seq<(Seq<Seq<char>>, Seq<u32>, Seq<DrawChPos<S>>)>,
    prefix: bool,
    sub: Seq<Seq<char>>,
)
    ensures
        kept_entries(c, prefix, sub).len() + taken_entries(c, prefix, sub).len() == c.len(),
        forall|i: int|
            0 <= i < kept_entries(c, prefix, sub).len() ==> !takes(prefix, sub, (#[trigger] kept_entries(c, prefix, sub)[i]).0)
                && c.contains(kept_entries(c, prefix, sub)[i]),
        forall|i: int|
            0 <= i < c.len() && !takes(prefix, sub, (#[trigger] c[i]).0) ==> kept_entries(c, prefix, sub).contains(c[i]),
        forall|i: int|
            0 <= i < taken_entries(c, prefix, sub).len() ==> takes(prefix, sub, (#[trigger] taken_entries(c, prefix, sub)[i]).0),
    decreases c.len(),
{
    if c.len() > 0 {
        let d = c.drop_last();
        lemma_kept_and_taken(d, prefix, sub);
        let k = kept_entries(d, prefix, sub);
        assert forall|i: int|
            0 <= i < kept_entries(c, prefix, sub).len() implies !takes(prefix, sub, (#[trigger] kept_entries(c, prefix, sub)[i]).0)
                && c.contains(kept_entries(c, prefix, sub)[i]) by {
            if !takes(prefix, sub, c.last().0) && i == k.len() {
                assert(c[c.len() - 1] == c.last());
            } else {
                assert(kept_entries(c, prefix, sub)[i] == k[i]);
                let j = choose|j: int| 0 <= j < d.len() && d[j] == k[i];
                assert(c[j] == d[j]);
            }
        }
        assert forall|i: int|
            0 <= i < c.len() && !takes(prefix, sub, (#[trigger] c[i]).0) implies kept_entries(c, prefix, sub).contains(c[i]) by {
            if i < c.len() - 1 {
                assert(c[i] == d[i]);
                let j = choose|j: int| 0 <= j < k.len() && k[j] == d[i];
                assert(kept_entries(c, prefix, sub)[j] == k[j]);
            } else {
                assert(kept_entries(c, prefix, sub)[k.len() as int] == c.last());
            }
        }
        assert forall|i: int|
            0 <= i < taken_entries(c, prefix, sub).len() implies takes(prefix, sub, (#[trigger] taken_entries(c, prefix, sub)[i]).0) by {
            if i < taken_entries(d, prefix, sub).len() {
                assert(taken_entries(c, prefix, sub)[i] == taken_entries(d, prefix, sub)[i]);
            }
        }
    }
}

/// After an update of the path `sub`, exactly one cached drawing belongs to `sub`: the last,
/// holding the update's characters.
pub proof fn lemma_update_leaves_one<S>(
    c: Seq<(Seq<Seq<char>>, Seq<u32>, Seq<DrawChPos<S>>)>,
    rms: Seq<(Seq<Seq<char>>, Seq<DrawChPos<S>>)>,
    adds: Seq<(Seq<Seq<char>>, Seq<u32>, Seq<DrawChPos<S>>)>,
    u: DrawUpdate<S>,
)
    requires
        u.action is Update,
    ensures
        ({
            let c2 = update_step((c, rms, adds), u).0;
            &&& c2.len() > 0
            &&& c2.last() == (ids_view(u.sub_id@), u.z_indicies@, u.action->Update_0@)
            &&& forall|i: int| 0 <= i < c2.len() - 1 ==> (#[trigger] c2[i]).0 != ids_view(u.sub_id@)
        }),
{
    let sub = ids_view(u.sub_id@);
    lemma_kept_and_taken(c, false, sub);
    let k = kept_entries(c, false, sub);
    let c2 = update_step((c, rms, adds), u).0;
    assert forall|i: int| 0 <= i < c2.len() - 1 implies (#[trigger] c2[i]).0 != sub by {
        assert(c2[i] == k[i]);
    }
}

/// Extending a path that has no cached drawing caches the same as updating it.
pub proof fn lemma_extend_new_is_update<S>(
    c: Seq<(Seq<Seq<char>>, Seq<u32>, Seq<DrawChPos<S>>)>,
    sub: Seq<Seq<char>>,
    zs: Seq<u32>,
    d: Seq<DrawChPos<S>>,
)
    requires
        forall|i: int| 0 <= i < c.len() ==> (#[trigger] c[i]).0 != sub,
    ensures
        find_entry(c, sub) == -1,
        kept_entries(c, false, sub) == c,
        taken_entries(c, false, sub).len() == 0,
    decreases c.len(),
{
    if c.len() > 0 {
        let dl = c.drop_last();
        assert forall|i: int| 0 <= i < dl.len() implies (#[trigger] dl[i]).0 != sub by {
            assert(dl[i] == c[i]);
        }
        lemma_extend_new_is_update(dl, sub, zs, d);
        assert(c.last() == c[c.len() - 1]);
        assert(dl.push(c.last()) =~= c);
    }
}

/// A cached drawing of the path `p` has a character at (`x`, `y`).
pub open spec fn held_at<S>(c: Seq<(Seq<Seq<char>>, Seq<u32>, Seq<DrawChPos<S>>)>, p: Seq<Seq<char>>, x: int, y: int) -> bool {
    exists|i: int| 0 <= i < c.len() && c[i].0 == p && #[trigger] hits(c[i].2, x, y)
}

/// A drawing of the path `p` taken away has a character at (`x`, `y`).
pub open spec fn taken_hit<S>(t: Seq<(Seq<Seq<char>>, Seq<DrawChPos<S>>)>, p: Seq<Seq<char>>, x: int, y: int) -> bool {
    exists|i: int| 0 <= i < t.len() && t[i].0 == p && #[trigger] hits(t[i].1, x, y)
}

/// Every layer of every screen cell belongs to a cached drawing of its path with a character
/// at that cell.
pub open spec fn cells_match<S, R>(cells: Seq<Vec<CachedPos<S, R>>>, c: Seq<(Seq<Seq<char>>, Seq<u32>, Seq<DrawChPos<S>>)>) -> bool {
    forall|y: int, x: int, k: int|
        in_cache(cells, x, y) && 0 <= k < cell_at(cells, x, y).layers@.len() ==> held_at(
            c,
            (#[trigger] layers_view(cell_at(cells, x, y).layers@)[k]).0,
            x,
            y,
        )
}

/// Every drawing waiting to be added has each of its characters held by a cached drawing of
/// its path.
pub open spec fn pending_held<S>(
    c: Seq<(Seq<Seq<char>>, Seq<u32>, Seq<DrawChPos<S>>)>,
    pend: Seq<(Seq<Seq<char>>, Seq<u32>, Seq<DrawChPos<S>>)>,
) -> bool {
    forall|j: int, m: int|
        0 <= j < pend.len() && 0 <= m < pend[j].2.len() ==> held_at(c, pend[j].0, (#[trigger] pend[j].2[m]).x as int, pend[j].2[m].y as int)
}

proof fn lemma_taken_contains<S>(c: Seq<(Seq<Seq<char>>, Seq<u32>, Seq<DrawChPos<S>>)>, prefix: bool, sub: Seq<Seq<char>>, i: int)
    requires
        0 <= i < c.len(),
        takes(prefix, sub, c[i].0),
    ensures
        taken_entries(c, prefix, sub).contains((c[i].0, c[i].2)),
    decreases c.len(),
{
    let d = c.drop_last();
    if i < c.len() - 1 {
        assert(c[i] == d[i]);
        lemma_taken_contains(d, prefix, sub, i);
        let t = taken_entries(d, prefix, sub);
        let j = choose|j: int| 0 <= j < t.len() && t[j] == (c[i].0, c[i].2);
        if takes(prefix, sub, c.last().0) {
            assert(taken_entries(c, prefix, sub)[j] == t[j]);
        }
    } else {
        let t = taken_entries(d, prefix, sub);
        assert(taken_entries(c, prefix, sub)[t.len() as int] == (c[i].0, c[i].2));
    }
}

/// A drawing held stays held after a step that takes drawings, or it was taken away.
proof fn lemma_take_held<S>(c: Seq<(Seq<Seq<char>>, Seq<u32>, Seq<DrawChPos<S>>)>, prefix: bool, sub: Seq<Seq<char>>, p: Seq<Seq<char>>, x: int, y: int)
    requires
        held_at(c, p, x, y),
    ensures
        !takes(prefix, sub, p) ==> held_at(kept_entries(c, prefix, sub), p, x, y),
        takes(prefix, sub, p) ==> taken_hit(taken_entries(c, prefix, sub), p, x, y),
{
    let i = choose|i: int| 0 <= i < c.len() && c[i].0 == p && hits(c[i].2, x, y);
    lemma_kept_and_taken(c, prefix, sub);
    let k = kept_entries(c, prefix, sub);
    if takes(prefix, sub, p) {
        lemma_taken_contains(c, prefix, sub, i);
        let t = taken_entries(c, prefix, sub);
        let j = choose|j: int| 0 <= j < t.len() && t[j] == (c[i].0, c[i].2);
        assert(hits(t[j].1, x, y));
    } else {
        assert(k.contains(c[i]));
        let j = choose|j: int| 0 <= j < k.len() && k[j] == c[i];
        assert(hits(k[j].2, x, y));
    }
}

proof fn lemma_hits_append<S>(a: Seq<DrawChPos<S>>, b: Seq<DrawChPos<S>>, x: int, y: int)
    ensures
        hits(a, x, y) ==> hits(a + b, x, y),
        hits(b, x, y) ==> hits(a + b, x, y),
{
    if hits(a, x, y) {
        let j = choose|j: int| 0 <= j < a.len() && a[j].x == x && a[j].y == y;
        assert((a + b)[j] == a[j]);
    }
    if hits(b, x, y) {
        let j = choose|j: int| 0 <= j < b.len() && b[j].x == x && b[j].y == y;
        assert((a + b)[a.len() + j] == b[j]);
    }
}

/// One step keeps a held drawing held, or takes it away.
proof fn lemma_step_held<S>(st: UpdateState<S>, u: DrawUpdate<S>, p: Seq<Seq<char>>, x: int, y: int)
    requires
        held_at(st.0, p, x, y) || taken_hit(st.1, p, x, y),
    ensures
        held_at(update_step(st, u).0, p, x, y) || taken_hit(update_step(st, u).1, p, x, y),
{
    let n = update_step(st, u);
    let sub = ids_view(u.sub_id@);
    if taken_hit(st.1, p, x, y) {
        let i = choose|i: int| 0 <= i < st.1.len() && st.1[i].0 == p && hits(st.1[i].1, x, y);
        match u.action {
            DrawAction::Extend(_) => {},
            _ => {
                assert(n.1[i] == st.1[i]);
            },
        }
    } else {
        match u.action {
            DrawAction::ClearAll => {
                lemma_take_held(st.0, true, sub, p, x, y);
                if takes(true, sub, p) {
                    let t = taken_entries(st.0, true, sub);
                    let j = choose|j: int| 0 <= j < t.len() && t[j].0 == p && hits(t[j].1, x, y);
                    assert(n.1[st.1.len() + j] == t[j]);
                }
            },
            DrawAction::Remove => {
                lemma_take_held(st.0, false, sub, p, x, y);
                if takes(false, sub, p) {
                    let t = taken_entries(st.0, false, sub);
                    let j = choose|j: int| 0 <= j < t.len() && t[j].0 == p && hits(t[j].1, x, y);
                    assert(n.1[st.1.len() + j] == t[j]);
                }
            },
            DrawAction::Update(d) => {
                lemma_take_held(st.0, false, sub, p, x, y);
                if takes(false, sub, p) {
                    let t = taken_entries(st.0, false, sub);
                    let j = choose|j: int| 0 <= j < t.len() && t[j].0 == p && hits(t[j].1, x, y);
                    assert(n.1[st.1.len() + j] == t[j]);
                } else {
                    let k = kept_entries(st.0, false, sub);
                    let j = choose|j: int| 0 <= j < k.len() && k[j].0 == p && hits(k[j].2, x, y);
                    assert(n.0[j] == k[j]);
                }
            },
            DrawAction::Extend(d) => {
                let i = choose|i: int| 0 <= i < st.0.len() && st.0[i].0 == p && hits(st.0[i].2, x, y);
                let f = find_entry(st.0, sub);
                lemma_find_entry_bound(st.0, sub);
                if f >= 0 {
                    if i == f {
                        lemma_hits_append(st.0[i].2, d@, x, y);
                        assert(hits(n.0[i].2, x, y));
                    } else {
                        assert(n.0[i] == st.0[i]);
                    }
                } else {
                    assert(n.0[i] == st.0[i]);
                }
            },
        }
    }
}

/// A drawing held before the updates is held after them, or was taken away on the way.
proof fn lemma_after_held<S>(c: Seq<(Seq<Seq<char>>, Seq<u32>, Seq<DrawChPos<S>>)>, us: Seq<DrawUpdate<S>>, p: Seq<Seq<char>>, x: int, y: int)
    requires
        held_at(c, p, x, y),
    ensures
        held_at(after_updates(c, us).0, p, x, y) || taken_hit(after_updates(c, us).1, p, x, y),
    decreases us.len(),
{
    if us.len() > 0 {
        lemma_after_held(c, us.drop_last(), p, x, y);
        lemma_step_held(after_updates(c, us.drop_last()), us.last(), p, x, y);
    }
}

/// Each step keeps the drawings waiting to be added held by the cached drawings.
proof fn lemma_step_pending<S>(st: UpdateState<S>, u: DrawUpdate<S>)
    requires
        pending_held(st.0, st.2),
    ensures
        pending_held(update_step(st, u).0, update_step(st, u).2),
{
    let n = update_step(st, u);
    let sub = ids_view(u.sub_id@);
    assert forall|j: int, m: int| 0 <= j < n.2.len() && 0 <= m < n.2[j].2.len() implies held_at(
        n.0,
        n.2[j].0,
        (#[trigger] n.2[j].2[m]).x as int,
        n.2[j].2[m].y as int,
    ) by {
        let e = n.2[j];
        let x = e.2[m].x as int;
        let y = e.2[m].y as int;
        match u.action {
            DrawAction::Extend(d) => {
                let f = find_entry(st.0, sub);
                lemma_find_entry_bound(st.0, sub);
                if j < st.2.len() {
                    assert(e == st.2[j]);
                    assert(held_at(st.0, e.0, x, y));
                    let i = choose|i: int| 0 <= i < st.0.len() && st.0[i].0 == e.0 && hits(st.0[i].2, x, y);
                    if f >= 0 && i == f {
                        lemma_hits_append(st.0[i].2, d@, x, y);
                        assert(hits(n.0[i].2, x, y));
                    } else {
                        assert(n.0[i] == st.0[i]);
                    }
                } else {
                    assert(e == (sub, u.z_indicies@, d@));
                    assert(hits(d@, x, y));
                    if f >= 0 {
                        lemma_hits_append(st.0[f].2, d@, x, y);
                        assert(hits(n.0[f].2, x, y));
                    } else {
                        assert(n.0[st.0.len() as int] == e);
                    }
                }
            },
            _ => {
                let prefix = u.action is ClearAll;
                let kp = kept_entries(st.2, prefix, sub);
                lemma_kept_and_taken(st.2, prefix, sub);
                if j < kp.len() {
                    assert(e == kp[j]);
                    let jj = choose|jj: int| 0 <= jj < st.2.len() && st.2[jj] == kp[j];
                    assert(st.2[jj].2[m] == e.2[m]);
                    assert(held_at(st.0, e.0, x, y));
                    assert(!takes(prefix, sub, e.0));
                    lemma_take_held(st.0, prefix, sub, e.0, x, y);
                    let k = kept_entries(st.0, prefix, sub);
                    let i = choose|i: int| 0 <= i < k.len() && k[i].0 == e.0 && hits(k[i].2, x, y);
                    assert(n.0[i] == k[i]);
                } else {
                    assert(u.action is Update);
                    let d = u.action->Update_0;
                    assert(e == (sub, u.z_indicies@, d@));
                    assert(hits(d@, x, y));
                    assert(n.0[n.0.len() - 1] == e);
                }
            },
        }
    }
}

proof fn lemma_after_pending<S>(c: Seq<(Seq<Seq<char>>, Seq<u32>, Seq<DrawChPos<S>>)>, us: Seq<DrawUpdate<S>>)
    ensures
        pending_held(after_updates(c, us).0, after_updates(c, us).2),
    decreases us.len(),
{
    if us.len() > 0 {
        lemma_after_pending(c, us.drop_last());
        lemma_step_pending(after_updates(c, us.drop_last()), us.last());
    }
}

/// A layer left after the removals was there before, and no drawing of its path taken away
/// had a character at that cell.
proof fn lemma_removed_at_left<S>(
    ls: Seq<(Seq<Seq<char>>, Seq<u32>, DrawChPos<S>)>,
    rms: Seq<(Seq<Seq<char>>, Seq<DrawChPos<S>>)>,
    x: int,
    y: int,
    k: int,
)
    requires
        0 <= k < removed_at(ls, rms, x, y).len(),
    ensures
        ls.contains(removed_at(ls, rms, x, y)[k]),
        !taken_hit(rms, removed_at(ls, rms, x, y)[k].0, x, y),
    decreases rms.len(),
{
    let l = removed_at(ls, rms, x, y)[k];
    if rms.len() > 0 {
        let prev = removed_at(ls, rms.drop_last(), x, y);
        if hits(rms.last().1, x, y) {
            let w = layers_without(prev, rms.last().0);
            lemma_without_members(prev, rms.last().0, k);
            let k2 = choose|k2: int| 0 <= k2 < prev.len() && prev[k2] == w[k];
            lemma_removed_at_left(ls, rms.drop_last(), x, y, k2);
        } else {
            lemma_removed_at_left(ls, rms.drop_last(), x, y, k);
        }
        if taken_hit(rms, l.0, x, y) {
            let i = choose|i: int| 0 <= i < rms.len() && rms[i].0 == l.0 && hits(rms[i].1, x, y);
            if i < rms.len() - 1 {
                assert(rms.drop_last()[i] == rms[i]);
            }
        }
    }
}

proof fn lemma_without_members<S>(ls: Seq<(Seq<Seq<char>>, Seq<u32>, DrawChPos<S>)>, ids: Seq<Seq<char>>, k: int)
    requires
        0 <= k < layers_without(ls, ids).len(),
    ensures
        layers_without(ls, ids)[k].0 != ids,
        exists|k2: int| 0 <= k2 < ls.len() && ls[k2] == layers_without(ls, ids)[k],
    decreases ls.len(),
{
    let d = ls.drop_last();
    let w = layers_without(d, ids);
    if ls.last().0 != ids && k == w.len() {
        assert(ls[ls.len() - 1] == ls.last());
    } else {
        assert(layers_without(ls, ids)[k] == w[k]);
        lemma_without_members(d, ids, k);
        let k2 = choose|k2: int| 0 <= k2 < d.len() && d[k2] == w[k];
        assert(ls[k2] == d[k2]);
    }
}

/// A layer added at (`x`, `y`) is one of the layers, placed there.
proof fn lemma_added_at_member<S>(items: Seq<(Seq<Seq<char>>, Seq<u32>, DrawChPos<S>)>, x: int, y: int, k: int)
    requires
        0 <= k < added_at(items, x, y).len(),
    ensures
        items.contains(added_at(items, x, y)[k]),
        added_at(items, x, y)[k].2.x == x && added_at(items, x, y)[k].2.y == y,
    decreases items.len(),
{
    let d = items.drop_last();
    let a = added_at(d, x, y);
    if items.last().2.x == x && items.last().2.y == y && k == a.len() {
        assert(items[items.len() - 1] == items.last());
    } else {
        assert(added_at(items, x, y)[k] == a[k]);
        lemma_added_at_member(d, x, y, k);
        let k2 = choose|k2: int| 0 <= k2 < d.len() && d[k2] == a[k];
        assert(items[k2] == d[k2]);
    }
}

/// A layer that drawings add belongs to one of them: its path and one of its characters.
proof fn lemma_flat_member<S>(adds: Seq<(Seq<Seq<char>>, Seq<u32>, Seq<DrawChPos<S>>)>, k: int)
    requires
        0 <= k < flat_items(adds).len(),
    ensures
        exists|i: int, m: int|
            0 <= i < adds.len() && 0 <= m < adds[i].2.len() && flat_items(adds)[k] == (adds[i].0, adds[i].1, adds[i].2[m]),
    decreases adds.len(),
{
    let d = adds.drop_last();
    let f = flat_items(d);
    if k < f.len() {
        assert(flat_items(adds)[k] == f[k]);
        lemma_flat_member(d, k);
        let (i, m) = choose|i: int, m: int|
            0 <= i < d.len() && 0 <= m < d[i].2.len() && f[k] == (d[i].0, d[i].1, d[i].2[m]);
        assert(adds[i] == d[i]);
    } else {
        let m = k - f.len();
        assert(flat_items(adds)[k] == entry_items(adds.last())[m]);
        assert(adds[adds.len() - 1] == adds.last());
    }
}

/// After an update no screen cell keeps a layer of a path that the cached drawings no longer
/// hold there: where every layer of every cell belonged to a cached drawing of its path with a
/// character at that cell, this still holds afterwards.
pub proof fn lemma_update_keeps_cells_matched<S: Clone, R>(c: DrawingCache<S, R>, us: Seq<DrawUpdate<S>>, n: DrawingCache<S, R>)
    requires
        cells_match(c.cache_2d@, entries_view(c.cached_upd@)),
        cache_updated(c, us, n),
    ensures
        cells_match(n.cache_2d@, entries_view(n.cached_upd@)),
{
    let c0 = entries_view(c.cached_upd@);
    let after = after_updates(c0, us);
    let (mid, adds) = choose|mid: Seq<Vec<CachedPos<S, R>>>, adds: Seq<(Seq<Seq<char>>, Seq<u32>, Seq<DrawChPos<S>>)>|
        {
            &&& removal_done(c.cache_2d@, mid, after.1)
            &&& entries_clone_of(after.2, adds)
            &&& adds_done(mid, n.cache_2d@, flat_items(adds))
        };
    lemma_after_pending(c0, us);
    assert forall|y: int, x: int, k: int|
        in_cache(n.cache_2d@, x, y) && 0 <= k < cell_at(n.cache_2d@, x, y).layers@.len() implies held_at(
        entries_view(n.cached_upd@),
        (#[trigger] layers_view(cell_at(n.cache_2d@, x, y).layers@)[k]).0,
        x,
        y,
    ) by {
        let lv = layers_view(cell_at(n.cache_2d@, x, y).layers@);
        let base = if in_cache(mid, x, y) {
            layers_view(cell_at(mid, x, y).layers@)
        } else {
            Seq::empty()
        };
        let items = flat_items(adds);
        assert(lv == base + added_at(items, x, y));
        let l = lv[k];
        if k < base.len() {
            assert(l == base[k]);
            assert(in_cache(c.cache_2d@, x, y));
            let old_ls = layers_view(cell_at(c.cache_2d@, x, y).layers@);
            lemma_removed_at_left(old_ls, after.1, x, y, k);
            let k0 = choose|k0: int| 0 <= k0 < old_ls.len() && old_ls[k0] == l;
            assert(held_at(c0, old_ls[k0].0, x, y));
            lemma_after_held(c0, us, l.0, x, y);
        } else {
            let ka = k - base.len();
            assert(l == added_at(items, x, y)[ka]);
            lemma_added_at_member(items, x, y, ka);
            let k2 = choose|k2: int| 0 <= k2 < items.len() && items[k2] == l;
            lemma_flat_member(adds, k2);
            let (i, m) = choose|i: int, m: int|
                0 <= i < adds.len() && 0 <= m < adds[i].2.len() && items[k2] == (adds[i].0, adds[i].1, adds[i].2[m]);
            assert(dcp_clone_of(after.2[i].2[m], adds[i].2[m]));
            assert(held_at(after.0, after.2[i].0, after.2[i].2[m].x as int, after.2[i].2[m].y as int));
        }
    }
}

// ------------------------------------------------------------------------------------------
// Counting the layers of each path at each cell

/// The number of the characters that lie at (`x`, `y`).
pub open spec fn hitcount<S>(d: Seq<DrawChPos<S>>, x: int, y: int) -> nat
    decreases d.len(),
{
    if d.len() == 0 {
        0
    } else {
        hitcount(d.drop_last(), x, y) + if d.last().x == x && d.last().y == y { 1nat } else { 0nat }
    }
}

/// The number of characters at (`x`, `y`) of the drawings of the path `p`.
pub open spec fn ccount<S>(c: Seq<(Seq<Seq<char>>, Seq<u32>, Seq<DrawChPos<S>>)>, p: Seq<Seq<char>>, x: int, y: int) -> nat
    decreases c.len(),
{
    if c.len() == 0 {
        0
    } else {
        ccount(c.drop_last(), p, x, y) + if c.last().0 == p { hitcount(c.last().2, x, y) } else { 0nat }
    }
}

/// A drawing of the path `p` was taken away.
pub open spec fn taken_path<S>(t: Seq<(Seq<Seq<char>>, Seq<DrawChPos<S>>)>, p: Seq<Seq<char>>) -> bool {
    exists|i: int| 0 <= i < t.len() && #[trigger] t[i].0 == p
}

/// Each screen cell holds, of each path, as many layers as the cached drawings of that path
/// have characters there; and no cached drawing has a character where the screen has no cell.
pub open spec fn cells_exact<S, R>(cells: Seq<Vec<CachedPos<S, R>>>, c: Seq<(Seq<Seq<char>>, Seq<u32>, Seq<DrawChPos<S>>)>) -> bool {
    &&& forall|y: int, x: int, p: Seq<Seq<char>>|
        in_cache(cells, x, y) ==> #[trigger] count_with(layers_view(cell_at(cells, x, y).layers@), p) == ccount(c, p, x, y)
    &&& forall|y: int, x: int, p: Seq<Seq<char>>|
        0 <= x && 0 <= y && !in_cache(cells, x, y) ==> #[trigger] ccount(c, p, x, y) == 0
}

/// While updates are read: of each path at each cell, the cached drawings have the characters
/// of `c0` (unless a drawing of the path was taken away) and those waiting to be added; and
/// where a drawing of the path was taken away without a character at the cell, `c0` had none
/// there.
pub open spec fn step_counts<S>(c0: Seq<(Seq<Seq<char>>, Seq<u32>, Seq<DrawChPos<S>>)>, st: UpdateState<S>) -> bool {
    forall|p: Seq<Seq<char>>, x: int, y: int|
        {
            &&& #[trigger] ccount(st.0, p, x, y) == (if taken_path(st.1, p) { 0 } else { ccount(c0, p, x, y) }) + ccount(
                st.2,
                p,
                x,
                y,
            )
            &&& taken_path(st.1, p) && !taken_hit(st.1, p, x, y) ==> ccount(c0, p, x, y) == 0
        }
}

proof fn lemma_hitcount_hits<S>(d: Seq<DrawChPos<S>>, x: int, y: int)
    ensures
        hitcount(d, x, y) > 0 <==> hits(d, x, y),
    decreases d.len(),
{
    if d.len() > 0 {
        let e = d.drop_last();
        lemma_hitcount_hits(e, x, y);
        if hits(e, x, y) {
            let j = choose|j: int| 0 <= j < e.len() && e[j].x == x && e[j].y == y;
            assert(d[j] == e[j]);
        }
        if hits(d, x, y) {
            let j = choose|j: int| 0 <= j < d.len() && d[j].x == x && d[j].y == y;
            if j < d.len() - 1 {
                assert(e[j] == d[j]);
            }
        }
    }
}

proof fn lemma_hitcount_append<S>(a: Seq<DrawChPos<S>>, b: Seq<DrawChPos<S>>, x: int, y: int)
    ensures
        hitcount(a + b, x, y) == hitcount(a, x, y) + hitcount(b, x, y),
    decreases b.len(),
{
    if b.len() == 0 {
        assert(a + b =~= a);
    } else {
        lemma_hitcount_append(a, b.drop_last(), x, y);
        assert((a + b).drop_last() =~= a + b.drop_last());
    }
}

proof fn lemma_ccount_kept<S>(c: Seq<(Seq<Seq<char>>, Seq<u32>, Seq<DrawChPos<S>>)>, prefix: bool, sub: Seq<Seq<char>>, p: Seq<Seq<char>>, x: int, y: int)
    ensures
        ccount(kept_entries(c, prefix, sub), p, x, y) == if takes(prefix, sub, p) { 0 } else { ccount(c, p, x, y) },
    decreases c.len(),
{
    if c.len() > 0 {
        lemma_ccount_kept(c.drop_last(), prefix, sub, p, x, y);
        let k = kept_entries(c.drop_last(), prefix, sub);
        if !takes(prefix, sub, c.last().0) {
            assert(k.push(c.last()).drop_last() =~= k);
        }
    }
}

proof fn lemma_taken_of<S>(c: Seq<(Seq<Seq<char>>, Seq<u32>, Seq<DrawChPos<S>>)>, prefix: bool, sub: Seq<Seq<char>>, p: Seq<Seq<char>>, x: int, y: int)
    ensures
        !takes(prefix, sub, p) ==> !taken_path(taken_entries(c, prefix, sub), p),
        takes(prefix, sub, p) && ccount(c, p, x, y) > 0 ==> taken_hit(taken_entries(c, prefix, sub), p, x, y),
    decreases c.len(),
{
    if c.len() > 0 {
        let d = c.drop_last();
        lemma_taken_of(d, prefix, sub, p, x, y);
        let t = taken_entries(d, prefix, sub);
        let e = c.last();
        if takes(prefix, sub, e.0) {
            let t2 = t.push((e.0, e.2));
            if !takes(prefix, sub, p) && taken_path(t2, p) {
                let i = choose|i: int| 0 <= i < t2.len() && #[trigger] t2[i].0 == p;
                assert(i < t.len() ==> t2[i] == t[i]);
            }
            if takes(prefix, sub, p) && ccount(c, p, x, y) > 0 {
                if ccount(d, p, x, y) > 0 {
                    let i = choose|i: int| 0 <= i < t.len() && t[i].0 == p && #[trigger] hits(t[i].1, x, y);
                    assert(t2[i] == t[i]);
                } else {
                    lemma_hitcount_hits(e.2, x, y);
                    assert(t2[t.len() as int] == (e.0, e.2));
                    assert(hits(t2[t.len() as int].1, x, y));
                }
            }
        } else {
            if takes(prefix, sub, p) && ccount(c, p, x, y) > 0 {
                assert(e.0 != p);
            }
        }
    }
}

proof fn lemma_taken_concat<S>(a: Seq<(Seq<Seq<char>>, Seq<DrawChPos<S>>)>, b: Seq<(Seq<Seq<char>>, Seq<DrawChPos<S>>)>, p: Seq<Seq<char>>, x: int, y: int)
    ensures
        taken_path(a + b, p) == (taken_path(a, p) || taken_path(b, p)),
        taken_hit(a + b, p, x, y) == (taken_hit(a, p, x, y) || taken_hit(b, p, x, y)),
{
    let ab = a + b;
    if taken_path(ab, p) {
        let i = choose|i: int| 0 <= i < ab.len() && #[trigger] ab[i].0 == p;
        if i < a.len() {
            assert(ab[i] == a[i]);
        } else {
            assert(ab[i] == b[i - a.len()]);
        }
    }
    if taken_path(a, p) {
        let i = choose|i: int| 0 <= i < a.len() && #[trigger] a[i].0 == p;
        assert(ab[i] == a[i]);
    }
    if taken_path(b, p) {
        let i = choose|i: int| 0 <= i < b.len() && #[trigger] b[i].0 == p;
        assert(ab[i + a.len()] == b[i]);
    }
    if taken_hit(ab, p, x, y) {
        let i = choose|i: int| 0 <= i < ab.len() && ab[i].0 == p && #[trigger] hits(ab[i].1, x, y);
        if i < a.len() {
            assert(ab[i] == a[i]);
        } else {
            assert(ab[i] == b[i - a.len()]);
        }
    }
    if taken_hit(a, p, x, y) {
        let i = choose|i: int| 0 <= i < a.len() && a[i].0 == p && #[trigger] hits(a[i].1, x, y);
        assert(ab[i] == a[i]);
    }
    if taken_hit(b, p, x, y) {
        let i = choose|i: int| 0 <= i < b.len() && b[i].0 == p && #[trigger] hits(b[i].1, x, y);
        assert(ab[i + a.len()] == b[i]);
    }
}

proof fn lemma_ccount_push<S>(c: Seq<(Seq<Seq<char>>, Seq<u32>, Seq<DrawChPos<S>>)>, e: (Seq<Seq<char>>, Seq<u32>, Seq<DrawChPos<S>>), p: Seq<Seq<char>>, x: int, y: int)
    ensures
        ccount(c.push(e), p, x, y) == ccount(c, p, x, y) + if e.0 == p { hitcount(e.2, x, y) } else { 0nat },
{
    assert(c.push(e).drop_last() =~= c);
}

proof fn lemma_ccount_update<S>(
    c: Seq<(Seq<Seq<char>>, Seq<u32>, Seq<DrawChPos<S>>)>,
    i: int,
    zs: Seq<u32>,
    d: Seq<DrawChPos<S>>,
    p: Seq<Seq<char>>,
    x: int,
    y: int,
)
    requires
        0 <= i < c.len(),
    ensures
        ccount(c.update(i, (c[i].0, zs, c[i].2 + d)), p, x, y) == ccount(c, p, x, y) + if c[i].0 == p {
            hitcount(d, x, y)
        } else {
            0nat
        },
    decreases c.len(),
{
    let u = c.update(i, (c[i].0, zs, c[i].2 + d));
    if i == c.len() - 1 {
        assert(u.drop_last() =~= c.drop_last());
        lemma_hitcount_append(c[i].2, d, x, y);
    } else {
        lemma_ccount_update(c.drop_last(), i, zs, d, p, x, y);
        assert(u.drop_last() =~= c.drop_last().update(i, (c[i].0, zs, c[i].2 + d)));
    }
}

proof fn lemma_step_counts<S>(c0: Seq<(Seq<Seq<char>>, Seq<u32>, Seq<DrawChPos<S>>)>, st: UpdateState<S>, u: DrawUpdate<S>)
    requires
        step_counts(c0, st),
    ensures
        step_counts(c0, update_step(st, u)),
{
    let n = update_step(st, u);
    let sub = ids_view(u.sub_id@);
    let zs = u.z_indicies@;
    assert forall|p: Seq<Seq<char>>, x: int, y: int|
        {
            &&& #[trigger] ccount(n.0, p, x, y) == (if taken_path(n.1, p) { 0 } else { ccount(c0, p, x, y) }) + ccount(
                n.2,
                p,
                x,
                y,
            )
            &&& taken_path(n.1, p) && !taken_hit(n.1, p, x, y) ==> ccount(c0, p, x, y) == 0
        } by {
        assert(ccount(st.0, p, x, y) == (if taken_path(st.1, p) { 0 } else { ccount(c0, p, x, y) }) + ccount(st.2, p, x, y));
        assert(taken_path(st.1, p) && !taken_hit(st.1, p, x, y) ==> ccount(c0, p, x, y) == 0);
        match u.action {
            DrawAction::Extend(d) => {
                let i = find_entry(st.0, sub);
                lemma_find_entry_bound(st.0, sub);
                lemma_ccount_push(st.2, (sub, zs, d@), p, x, y);
                if i >= 0 {
                    lemma_ccount_update(st.0, i, zs, d@, p, x, y);
                } else {
                    lemma_ccount_push(st.0, (sub, zs, d@), p, x, y);
                }
            },
            _ => {
                let prefix = u.action is ClearAll;
                let t = taken_entries(st.0, prefix, sub);
                lemma_ccount_kept(st.0, prefix, sub, p, x, y);
                lemma_ccount_kept(st.2, prefix, sub, p, x, y);
                lemma_taken_of(st.0, prefix, sub, p, x, y);
                lemma_taken_concat(st.1, t, p, x, y);
                if let DrawAction::Update(d) = u.action {
                    lemma_ccount_push(kept_entries(st.0, false, sub), (sub, zs, d@), p, x, y);
                    lemma_ccount_push(kept_entries(st.2, false, sub), (sub, zs, d@), p, x, y);
                }
                if takes(prefix, sub, p) && !taken_path(st.1, p) && !taken_path(t, p) {
                    // no drawing of the path was cached, so `c0` had none of its characters
                    assert(ccount(st.0, p, x, y) == 0);
                }
            },
        }
    }
}

proof fn lemma_after_counts<S>(c0: Seq<(Seq<Seq<char>>, Seq<u32>, Seq<DrawChPos<S>>)>, us: Seq<DrawUpdate<S>>)
    ensures
        step_counts(c0, after_updates(c0, us)),
    decreases us.len(),
{
    if us.len() == 0 {
        let st = after_updates(c0, us);
        assert forall|p: Seq<Seq<char>>, x: int, y: int| #[trigger] ccount(st.0, p, x, y) == (if taken_path(st.1, p) {
            0
        } else {
            ccount(c0, p, x, y)
        }) + ccount(st.2, p, x, y) by {
            assert(!taken_path(st.1, p));
        }
    } else {
        lemma_after_counts(c0, us.drop_last());
        lemma_step_counts(c0, after_updates(c0, us.drop_last()), us.last());
    }
}

proof fn lemma_count_without<S>(ls: Seq<(Seq<Seq<char>>, Seq<u32>, DrawChPos<S>)>, ids: Seq<Seq<char>>, p: Seq<Seq<char>>)
    ensures
        count_with(layers_without(ls, ids), p) == if p == ids { 0 } else { count_with(ls, p) },
    decreases ls.len(),
{
    if ls.len() > 0 {
        lemma_count_without(ls.drop_last(), ids, p);
        let w = layers_without(ls.drop_last(), ids);
        if ls.last().0 != ids {
            assert(w.push(ls.last()).drop_last() =~= w);
        }
    }
}

proof fn lemma_count_removed<S>(
    ls: Seq<(Seq<Seq<char>>, Seq<u32>, DrawChPos<S>)>,
    rms: Seq<(Seq<Seq<char>>, Seq<DrawChPos<S>>)>,
    x: int,
    y: int,
    p: Seq<Seq<char>>,
)
    ensures
        count_with(removed_at(ls, rms, x, y), p) == if taken_hit(rms, p, x, y) { 0 } else { count_with(ls, p) },
    decreases rms.len(),
{
    if rms.len() > 0 {
        let d = rms.drop_last();
        let l = rms.last();
        lemma_count_removed(ls, d, x, y, p);
        assert(rms =~= d + seq![l]);
        lemma_taken_concat(d, seq![l], p, x, y);
        let one = seq![l];
        if taken_hit(one, p, x, y) {
            let i = choose|i: int| 0 <= i < one.len() && one[i].0 == p && #[trigger] hits(one[i].1, x, y);
            assert(one[i] == l);
        }
        if l.0 == p && hits(l.1, x, y) {
            assert(hits(one[0].1, x, y));
        }
        if hits(l.1, x, y) {
            lemma_count_without(removed_at(ls, d, x, y), l.0, p);
        }
    }
}

proof fn lemma_count_append<S>(a: Seq<(Seq<Seq<char>>, Seq<u32>, DrawChPos<S>)>, b: Seq<(Seq<Seq<char>>, Seq<u32>, DrawChPos<S>)>, p: Seq<Seq<char>>)
    ensures
        count_with(a + b, p) == count_with(a, p) + count_with(b, p),
    decreases b.len(),
{
    if b.len() == 0 {
        assert(a + b =~= a);
    } else {
        lemma_count_append(a, b.drop_last(), p);
        assert((a + b).drop_last() =~= a + b.drop_last());
    }
}

proof fn lemma_added_at_append<S>(a: Seq<(Seq<Seq<char>>, Seq<u32>, DrawChPos<S>)>, b: Seq<(Seq<Seq<char>>, Seq<u32>, DrawChPos<S>)>, x: int, y: int)
    ensures
        added_at(a + b, x, y) == added_at(a, x, y) + added_at(b, x, y),
    decreases b.len(),
{
    if b.len() == 0 {
        assert(a + b =~= a);
        assert(added_at(a, x, y) + added_at(b, x, y) =~= added_at(a, x, y));
    } else {
        lemma_added_at_append(a, b.drop_last(), x, y);
        assert((a + b).drop_last() =~= a + b.drop_last());
        assert((a + b).last() == b.last());
        if b.last().2.x == x && b.last().2.y == y {
            assert(added_at(a, x, y) + added_at(b.drop_last(), x, y).push(b.last()) =~= (added_at(a, x, y) + added_at(
                b.drop_last(),
                x,
                y,
            )).push(b.last()));
        }
    }
}

proof fn lemma_count_entry_items<S>(e: (Seq<Seq<char>>, Seq<u32>, Seq<DrawChPos<S>>), x: int, y: int, p: Seq<Seq<char>>)
    ensures
        count_with(added_at(entry_items(e), x, y), p) == if e.0 == p { hitcount(e.2, x, y) } else { 0nat },
    decreases e.2.len(),
{
    if e.2.len() > 0 {
        let e2 = (e.0, e.1, e.2.drop_last());
        lemma_count_entry_items(e2, x, y, p);
        let items = entry_items(e);
        assert(items.drop_last() =~= entry_items(e2));
        assert(items.last() == (e.0, e.1, e.2.last()));
        let aa = added_at(entry_items(e2), x, y);
        assert(aa.push(items.last()).drop_last() =~= aa);
    } else {
        assert(entry_items(e).len() == 0);
    }
}

proof fn lemma_count_flat<S>(adds: Seq<(Seq<Seq<char>>, Seq<u32>, Seq<DrawChPos<S>>)>, x: int, y: int, p: Seq<Seq<char>>)
    ensures
        count_with(added_at(flat_items(adds), x, y), p) == ccount(adds, p, x, y),
    decreases adds.len(),
{
    if adds.len() > 0 {
        let d = adds.drop_last();
        lemma_count_flat(d, x, y, p);
        lemma_added_at_append(flat_items(d), entry_items(adds.last()), x, y);
        lemma_count_append(added_at(flat_items(d), x, y), added_at(entry_items(adds.last()), x, y), p);
        lemma_count_entry_items(adds.last(), x, y, p);
    }
}

proof fn lemma_hitcount_clone<S: Clone>(a: Seq<DrawChPos<S>>, b: Seq<DrawChPos<S>>, x: int, y: int)
    requires
        dcps_clone_of(a, b),
    ensures
        hitcount(a, x, y) == hitcount(b, x, y),
    decreases a.len(),
{
    if a.len() > 0 {
        assert(dcp_clone_of(a[a.len() - 1], b[a.len() - 1]));
        lemma_hitcount_clone(a.drop_last(), b.drop_last(), x, y);
    }
}

proof fn lemma_ccount_clone<S: Clone>(a: Seq<(Seq<Seq<char>>, Seq<u32>, Seq<DrawChPos<S>>)>, b: Seq<(Seq<Seq<char>>, Seq<u32>, Seq<DrawChPos<S>>)>, p: Seq<Seq<char>>, x: int, y: int)
    requires
        entries_clone_of(a, b),
    ensures
        ccount(a, p, x, y) == ccount(b, p, x, y),
    decreases a.len(),
{
    if a.len() > 0 {
        let i = a.len() - 1;
        assert(b[i].0 == a[i].0 && dcps_clone_of(a[i].2, b[i].2));
        lemma_hitcount_clone(a[i].2, b[i].2, x, y);
        assert(entries_clone_of(a.drop_last(), b.drop_last()));
        lemma_ccount_clone(a.drop_last(), b.drop_last(), p, x, y);
    }
}

/// An update keeps each screen cell holding, of each path, exactly as many layers as the
/// cached drawings of that path have characters there (so that a drawing taken away leaves no
/// layer behind, and one added shows at each of its characters), and keeps every character of
/// a cached drawing within the screen's cells.
pub proof fn lemma_update_keeps_cells_exact<S: Clone, R>(c: DrawingCache<S, R>, us: Seq<DrawUpdate<S>>, n: DrawingCache<S, R>)
    requires
        cells_exact(c.cache_2d@, entries_view(c.cached_upd@)),
        cache_updated(c, us, n),
    ensures
        cells_exact(n.cache_2d@, entries_view(n.cached_upd@)),
{
    let c0 = entries_view(c.cached_upd@);
    let after = after_updates(c0, us);
    let (mid, adds) = choose|mid: Seq<Vec<CachedPos<S, R>>>, adds: Seq<(Seq<Seq<char>>, Seq<u32>, Seq<DrawChPos<S>>)>|
        {
            &&& removal_done(c.cache_2d@, mid, after.1)
            &&& entries_clone_of(after.2, adds)
            &&& adds_done(mid, n.cache_2d@, flat_items(adds))
        };
    lemma_after_counts(c0, us);
    let items = flat_items(adds);
    assert forall|y: int, x: int, p: Seq<Seq<char>>| in_cache(n.cache_2d@, x, y) implies #[trigger] count_with(
        layers_view(cell_at(n.cache_2d@, x, y).layers@),
        p,
    ) == ccount(entries_view(n.cached_upd@), p, x, y) by {
        assert(ccount(after.0, p, x, y) == (if taken_path(after.1, p) { 0 } else { ccount(c0, p, x, y) }) + ccount(
            after.2,
            p,
            x,
            y,
        ));
        let lv = layers_view(cell_at(n.cache_2d@, x, y).layers@);
        let base = if in_cache(mid, x, y) {
            layers_view(cell_at(mid, x, y).layers@)
        } else {
            Seq::empty()
        };
        assert(lv == base + added_at(items, x, y));
        lemma_count_append(base, added_at(items, x, y), p);
        lemma_count_flat(adds, x, y, p);
        lemma_ccount_clone(after.2, adds, p, x, y);
        if in_cache(mid, x, y) {
            assert(in_cache(c.cache_2d@, x, y));
            let old_ls = layers_view(cell_at(c.cache_2d@, x, y).layers@);
            lemma_count_removed(old_ls, after.1, x, y, p);
            assert(count_with(old_ls, p) == ccount(c0, p, x, y));
        } else {
            assert(!in_cache(c.cache_2d@, x, y));
            assert(ccount(c0, p, x, y) == 0);
        }
    }
    assert forall|y: int, x: int, p: Seq<Seq<char>>| 0 <= x && 0 <= y && !in_cache(n.cache_2d@, x, y) implies #[trigger] ccount(
        entries_view(n.cached_upd@),
        p,
        x,
        y,
    ) == 0 by {
        assert(ccount(after.0, p, x, y) == (if taken_path(after.1, p) { 0 } else { ccount(c0, p, x, y) }) + ccount(
            after.2,
            p,
            x,
            y,
        ));
        lemma_added_at_outside(mid, n.cache_2d@, items, x, y);
        assert(!in_cache(c.cache_2d@, x, y));
        assert(ccount(c0, p, x, y) == 0);
        lemma_count_flat(adds, x, y, p);
        lemma_ccount_clone(after.2, adds, p, x, y);
    }
}

} // verus!
