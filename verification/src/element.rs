use vstd::prelude::*;
use crate::ch::DrawChPos;
use crate::z_order::{keyed, lemma_sorted_by_z_map, sort_by_z_path, sorted_by_z};
use crate::draw_cache::{
    dcp_clone_of, dcps_clone_of, entries_view, entry_view, find_entry, find_entry_index, ids_view, kept_entries,
    lemma_find_entry_bound, take_entries, DrawAction, DrawUpdate,
};

verus! {

/// The cached drawings of an element's sub-elements: each sub-id (path of element ids) with its
/// z-indices and its positioned characters.
#[derive(Clone)]
pub struct DrawingCache<S>(pub Vec<(Vec<String>, Vec<u32>, Vec<DrawChPos<S>>)>);

impl<S> Default for DrawingCache<S> {
    fn default() -> (c: DrawingCache<S>)
        ensures
            c.0@.len() == 0,
    {
        DrawingCache(Vec::new())
    }
}

/// The cached drawings after one more update: a clearing takes every drawing whose path the
/// sub-id starts, a removal the drawing of the sub-id; an update replaces the characters (and
/// z-indices) of the first drawing of the sub-id, an extension adds to them, and either adds a
/// new drawing where the sub-id has none.
pub open spec fn cache_step<S>(
    c: Seq<(Seq<Seq<char>>, Seq<u32>, Seq<DrawChPos<S>>)>,
    u: DrawUpdate<S>,
) -> Seq<(Seq<Seq<char>>, Seq<u32>, Seq<DrawChPos<S>>)> {
    let sub = ids_view(u.sub_id@);
    let zs = u.z_indicies@;
    let i = find_entry(c, sub);
    match u.action {
        DrawAction::ClearAll => kept_entries(c, true, sub),
        DrawAction::Remove => kept_entries(c, false, sub),
        DrawAction::Update(d) => if i >= 0 {
            c.update(i, (c[i].0, zs, d@))
        } else {
            c.push((sub, zs, d@))
        },
        DrawAction::Extend(d) => if i >= 0 {
            c.update(i, (c[i].0, zs, c[i].2 + d@))
        } else {
            c.push((sub, zs, d@))
        },
    }
}

/// The cached drawings after the updates `us`, in order.
pub open spec fn cache_after<S>(
    c: Seq<(Seq<Seq<char>>, Seq<u32>, Seq<DrawChPos<S>>)>,
    us: Seq<DrawUpdate<S>>,
) -> Seq<(Seq<Seq<char>>, Seq<u32>, Seq<DrawChPos<S>>)>
    decreases us.len(),
{
    if us.len() == 0 {
        c
    } else {
        cache_step(cache_after(c, us.drop_last()), us.last())
    }
}

/// The characters of the drawings, one drawing after another.
pub open spec fn all_chars<S>(c: Seq<(Seq<Seq<char>>, Seq<u32>, Seq<DrawChPos<S>>)>) -> Seq<DrawChPos<S>>
    decreases c.len(),
{
    if c.len() == 0 {
        Seq::empty()
    } else {
        all_chars(c.drop_last()) + c.last().2
    }
}

impl<S: Clone> DrawingCache<S> {
    /// Applies the draw updates in order (see `cache_step`).
    pub fn update(&mut self, updates: Vec<DrawUpdate<S>>)
        ensures
            entries_view(final(self).0@) == cache_after(entries_view(old(self).0@), updates@),
    {
        let ghost c0 = entries_view(self.0@);
        let ghost us = updates@;
        for u in it: updates
            invariant
                it.seq() == us,
                entries_view(self.0@) == cache_after(c0, us.take(it.index() as int)),
        {
            proof {
                let t = us.take(it.index() + 1);
                assert(t.drop_last() =~= us.take(it.index() as int));
                assert(t.last() == u);
            }
            let ghost c = entries_view(self.0@);
            let ghost uu = u;
            let DrawUpdate { sub_id, z_indicies, action } = u;
            match action {
                DrawAction::ClearAll => {
                    self.retain_not(true, &sub_id);
                },
                DrawAction::Remove => {
                    self.retain_not(false, &sub_id);
                },
                DrawAction::Update(d) => {
                    match self.find(&sub_id) {
                        Some(i) => {
                            let mut e: (Vec<String>, Vec<u32>, Vec<DrawChPos<S>>) = (Vec::new(), Vec::new(), Vec::new());
                            std::mem::swap(&mut e, &mut self.0[i]);
                            let (ids, _zs, _old) = e;
                            let mut ne = (ids, z_indicies, d);
                            std::mem::swap(&mut ne, &mut self.0[i]);
                            assert(entries_view(self.0@) =~= c.update(i as int, (c[i as int].0, uu.z_indicies@, d@)));
                        },
                        None => {
                            let e = (sub_id, z_indicies, d);
                            let ghost before = self.0@;
                            self.0.push(e);
                            assert(entries_view(self.0@) =~= entries_view(before).push(entry_view(e)));
                        },
                    }
                },
                DrawAction::Extend(d) => {
                    match self.find(&sub_id) {
                        Some(i) => {
                            let mut e: (Vec<String>, Vec<u32>, Vec<DrawChPos<S>>) = (Vec::new(), Vec::new(), Vec::new());
                            std::mem::swap(&mut e, &mut self.0[i]);
                            let (ids, _zs, mut dcps) = e;
                            let mut more = d;
                            dcps.append(&mut more);
                            let mut ne = (ids, z_indicies, dcps);
                            std::mem::swap(&mut ne, &mut self.0[i]);
                            assert(entries_view(self.0@) =~= c.update(
                                i as int,
                                (c[i as int].0, uu.z_indicies@, c[i as int].2 + d@),
                            ));
                        },
                        None => {
                            let e = (sub_id, z_indicies, d);
                            let ghost before = self.0@;
                            self.0.push(e);
                            assert(entries_view(self.0@) =~= entries_view(before).push(entry_view(e)));
                        },
                    }
                },
            }
        }
        proof {
            assert(us.take(us.len() as int) =~= us);
        }
    }

    /// Updates the cache, then gives its drawing (see `get_drawing`).
    pub fn update_and_get(&mut self, updates: Vec<DrawUpdate<S>>) -> (r: Vec<DrawChPos<S>>)
        ensures
            entries_view(final(self).0@) == sorted_by_z(
                cache_after(entries_view(old(self).0@), updates@),
            ),
            dcps_clone_of(all_chars(entries_view(final(self).0@)), r@),
    {
        self.update(updates);
        self.get_drawing()
    }

    /// Sorts the drawings by their z-indices (a stable sort) and gives clones of all their
    /// characters, the lowest drawing first.
    pub fn get_drawing(&mut self) -> (r: Vec<DrawChPos<S>>)
        ensures
            entries_view(final(self).0@) == sorted_by_z(entries_view(old(self).0@)),
            dcps_clone_of(all_chars(entries_view(final(self).0@)), r@),
    {
        let mut entries: Vec<(Vec<String>, Vec<u32>, Vec<DrawChPos<S>>)> = Vec::new();
        std::mem::swap(&mut entries, &mut self.0);
        let ghost before = entries@;
        let sorted = sort_by_z_path(entries);
        proof {
            let m = |e: (Vec<String>, Seq<u32>, Vec<DrawChPos<S>>)| (ids_view(e.0@), e.1, e.2@);
            assert(entries_view(before) =~= keyed(before).map_values(m));
            lemma_sorted_by_z_map(keyed(before), m);
            assert(entries_view(sorted@) =~= keyed(sorted@).map_values(m));
        }
        self.0 = sorted;
        let ghost f = entries_view(self.0@);
        let mut out: Vec<DrawChPos<S>> = Vec::new();
        let mut i: usize = 0;
        while i < self.0.len()
            invariant
                f == entries_view(self.0@),
                i <= f.len(),
                dcps_clone_of(all_chars(f.take(i as int)), out@),
            decreases f.len() - i,
        {
            proof {
                let t = f.take(i + 1);
                assert(t.drop_last() =~= f.take(i as int));
            }
            let ghost pre = all_chars(f.take(i as int));
            let mut j: usize = 0;
            while j < self.0[i].2.len()
                invariant
                    f == entries_view(self.0@),
                    i < f.len(),
                    j <= f[i as int].2.len(),
                    dcps_clone_of(pre + f[i as int].2.take(j as int), out@),
                decreases f[i as int].2.len() - j,
            {
                let d = self.0[i].2[j].clone();
                let ghost o = out@;
                out.push(d);
                proof {
                    assert(pre + f[i as int].2.take(j + 1) =~= (pre + f[i as int].2.take(j as int)).push(f[i as int].2[j as int]));
                    assert forall|k: int| 0 <= k < out@.len() implies dcp_clone_of(
                        (pre + f[i as int].2.take(j + 1))[k],
                        #[trigger] out@[k],
                    ) by {
                        if k < o.len() {
                            assert(out@[k] == o[k]);
                        }
                    }
                }
                j = j + 1;
            }
            proof {
                assert(f[i as int].2.take(f[i as int].2.len() as int) =~= f[i as int].2);
            }
            i = i + 1;
        }
        proof {
            assert(f.take(f.len() as int) =~= f);
        }
        out
    }

    /// Drops the drawings that an action on `sub` takes (see `kept_entries`).
    fn retain_not(&mut self, prefix: bool, sub: &Vec<String>)
        ensures
            entries_view(final(self).0@) == kept_entries(entries_view(old(self).0@), prefix, ids_view(sub@)),
    {
        let _taken = take_entries(&mut self.0, prefix, sub);
    }

    /// The index of the first drawing of `sub`.
    fn find(&self, sub: &Vec<String>) -> (r: Option<usize>)
        ensures
            r matches Some(i) ==> i == find_entry(entries_view(self.0@), ids_view(sub@)) && i < self.0@.len(),
            r is None ==> find_entry(entries_view(self.0@), ids_view(sub@)) == -1,
    {
        proof {
            lemma_find_entry_bound(entries_view(self.0@), ids_view(sub@));
        }
        find_entry_index(&self.0, sub)
    }
}

} // verus!
