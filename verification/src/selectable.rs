use vstd::prelude::*;
use crate::text_style::{transparent_style, TextStyle};

verus! {

/// How an element stands towards selection.
#[derive(Clone, Copy, PartialEq, Eq, Debug, Structural)]
pub enum Selectability {
    /// currently selected
    Selected,
    /// not selected but able to be selected
    Ready,
    /// unselectable
    Unselectable,
}

impl Selectability {
    /// The name of the variant.
    pub fn to_text(&self) -> (s: String)
        ensures
            s@ == match *self {
                Selectability::Selected => "Selected"@,
                Selectability::Ready => "Ready"@,
                Selectability::Unselectable => "Unselectable"@,
            },
    {
        match self {
            Selectability::Selected => String::from_str("Selected"),
            Selectability::Ready => String::from_str("Ready"),
            Selectability::Unselectable => String::from_str("Unselectable"),
        }
    }
}

/// The styles of a selectable element in each of its states.
pub struct SelStyles<S> {
    pub selected_style: S,
    pub ready_style: S,
    pub unselectable_style: S,
}

impl<S> SelStyles<S> {
    pub fn new(selected_style: S, ready_style: S, unselectable_style: S) -> (s: SelStyles<S>)
        ensures
            s.selected_style == selected_style,
            s.ready_style == ready_style,
            s.unselectable_style == unselectable_style,
    {
        SelStyles { selected_style, ready_style, unselectable_style }
    }
}

impl SelStyles<TextStyle> {
    /// Every style fully transparent (see `transparent_style`).
    pub fn transparent() -> (s: SelStyles<TextStyle>)
        ensures
            s.selected_style == transparent_style(),
            s.ready_style == transparent_style(),
            s.unselectable_style == transparent_style(),
    {
        SelStyles {
            selected_style: TextStyle::transparent(),
            ready_style: TextStyle::transparent(),
            unselectable_style: TextStyle::transparent(),
        }
    }
}

/// What an element reports after its selectability was set.
#[derive(Clone, PartialEq, Debug)]
pub struct SelectabilityResp {
    pub sel: Selectability,
    pub id: String,
}

/// An element with this selectability can be moved to: it is selected or ready.
pub open spec fn is_ready(sel: Option<Selectability>) -> bool {
    sel matches Some(s) && s != Selectability::Unselectable
}

/// The position `k` steps away from `s` in a cycle of `n`: forward, or backward.
pub open spec fn cyclic(s: int, k: int, n: int, forward: bool) -> int {
    if forward {
        (s + k) % n
    } else {
        (s - k) % n
    }
}

/// The fewest steps (1 to `k_max`) from `s` to a ready element, or -1 where there is none
/// within `k_max` steps.
pub open spec fn ready_offset(sels: Seq<Option<Selectability>>, s: int, k_max: int, forward: bool) -> int
    decreases k_max,
{
    if k_max <= 0 {
        -1
    } else if ready_offset(sels, s, k_max - 1, forward) >= 1 {
        ready_offset(sels, s, k_max - 1, forward)
    } else if is_ready(sels[cyclic(s, k_max, sels.len() as int, forward)]) {
        k_max
    } else {
        -1
    }
}

/// The index of the first element with the id `id`, or -1 where none has it.
pub open spec fn index_of(ids: Seq<Seq<char>>, id: Seq<char>) -> int
    decreases ids.len(),
{
    if ids.len() == 0 {
        -1
    } else if index_of(ids.drop_last(), id) >= 0 {
        index_of(ids.drop_last(), id)
    } else if ids.last() == id {
        ids.len() - 1
    } else {
        -1
    }
}

/// The ids, each by its text.
pub open spec fn ids_text(ids: Seq<String>) -> Seq<Seq<char>> {
    ids.map_values(|s: String| s@)
}

/// An optional id by its text.
pub open spec fn opt_text(id: Option<String>) -> Option<Seq<char>> {
    match id {
        Some(s) => Some(s@),
        None => None,
    }
}

/// The element that the selection moves to, going forward (or backward) from `start` through
/// the elements `ids` with the selectabilities `sels`, cyclically. Without a start it is the
/// first (or last) element; a start that is not among them counts as the first (or last). The
/// nearest ready element is taken, the start itself last; where none is ready, the start is
/// kept if it is unselectable, and otherwise there is none.
pub open spec fn spec_move_selection(
    ids: Seq<Seq<char>>,
    sels: Seq<Option<Selectability>>,
    start: Option<Seq<char>>,
    forward: bool,
) -> Option<Seq<char>> {
    let n = ids.len() as int;
    if n == 0 {
        None
    } else {
        match start {
            None => Some(if forward { ids[0] } else { ids[n - 1] }),
            Some(st) => {
                let s = if index_of(ids, st) >= 0 {
                    index_of(ids, st)
                } else if forward {
                    0
                } else {
                    n - 1
                };
                let k = ready_offset(sels, s, n, forward);
                if k >= 1 {
                    Some(ids[cyclic(s, k, n, forward)])
                } else if sels[s] == Some(Selectability::Unselectable) {
                    Some(st)
                } else {
                    None
                }
            },
        }
    }
}

proof fn lemma_index_of_bound(ids: Seq<Seq<char>>, id: Seq<char>)
    ensures
        -1 <= index_of(ids, id) < ids.len(),
        index_of(ids, id) >= 0 ==> ids[index_of(ids, id)] == id,
        index_of(ids, id) >= 0 ==> forall|j: int| 0 <= j < index_of(ids, id) ==> ids[j] != id,
        index_of(ids, id) == -1 ==> forall|j: int| 0 <= j < ids.len() ==> ids[j] != id,
    decreases ids.len(),
{
    if ids.len() > 0 {
        lemma_index_of_bound(ids.drop_last(), id);
        if index_of(ids.drop_last(), id) == -1 {
            assert forall|j: int| 0 <= j < ids.len() - 1 implies ids[j] != id by {
                assert(ids[j] == ids.drop_last()[j]);
            }
        } else {
            let i = index_of(ids.drop_last(), id);
            assert forall|j: int| 0 <= j < i implies ids[j] != id by {
                assert(ids[j] == ids.drop_last()[j]);
            }
        }
    }
}

/// The index of the first of `ids` equal to `id`.
fn find_index(ids: &Vec<String>, id: &String) -> (r: Option<usize>)
    ensures
        r matches Some(i) ==> i == index_of(ids_text(ids@), id@),
        r is None ==> index_of(ids_text(ids@), id@) == -1,
{
    let ghost t = ids_text(ids@);
    let mut i: usize = 0;
    while i < ids.len()
        invariant
            t == ids_text(ids@),
            i <= ids@.len(),
            index_of(t.take(i as int), id@) == -1,
        decreases ids@.len() - i,
    {
        proof {
            let p = t.take(i + 1);
            assert(p.drop_last() =~= t.take(i as int));
            assert(p.last() == ids@[i as int]@);
        }
        if ids[i] == *id {
            proof {
                lemma_index_of_prefix(t, id@, (i + 1) as nat);
            }
            return Some(i);
        }
        i = i + 1;
    }
    proof {
        assert(t.take(t.len() as int) =~= t);
    }
    None
}

proof fn lemma_index_of_prefix(ids: Seq<Seq<char>>, id: Seq<char>, n: nat)
    requires
        n <= ids.len(),
        index_of(ids.take(n as int), id) >= 0,
    ensures
        index_of(ids, id) == index_of(ids.take(n as int), id),
    decreases ids.len() - n,
{
    if n < ids.len() {
        let p = ids.take(n as int + 1);
        assert(p.drop_last() =~= ids.take(n as int));
        lemma_index_of_prefix(ids, id, (n + 1) as nat);
    } else {
        assert(ids.take(n as int) =~= ids);
    }
}

/// Moves the selection from `starting_el_id` to the next ready element (forward) or the
/// previous one (backward), as `spec_move_selection` says. `sels` holds the selectability of
/// each element of `selectables` (none where it has none).
fn move_selection(
    selectables: &Vec<String>,
    sels: &Vec<Option<Selectability>>,
    starting_el_id: Option<String>,
    forward: bool,
) -> (r: Option<String>)
    requires
        sels@.len() == selectables@.len(),
    ensures
        opt_text(r) == spec_move_selection(ids_text(selectables@), sels@, opt_text(starting_el_id), forward),
{
    let ghost ids = ids_text(selectables@);
    let ghost start0 = opt_text(starting_el_id);
    let n = selectables.len();
    if n == 0 {
        return None;
    }
    let st = match starting_el_id {
        None => {
            if forward {
                return Some(selectables[0].clone());
            } else {
                return Some(selectables[n - 1].clone());
            }
        },
        Some(st) => st,
    };
    let s = match find_index(selectables, &st) {
        Some(i) => i,
        None => if forward {
            0
        } else {
            n - 1
        },
    };
    proof {
        lemma_index_of_bound(ids, st@);
    }
    let ghost spec_s = if index_of(ids, st@) >= 0 {
        index_of(ids, st@)
    } else if forward {
        0
    } else {
        n - 1
    };
    assert(spec_s == s);
    assert(start0 == Some(st@));
    let mut w = s;
    let mut k: usize = 0;
    proof {
        lemma_mod_is(s as int, n as int, 0, s as int);
        assert(cyclic(s as int, 0, n as int, forward) == s);
    }
    while k < n
        invariant
            n == selectables@.len(),
            n == sels@.len(),
            n == ids.len(),
            ids == ids_text(selectables@),
            s < n,
            spec_s == s,
            spec_s == if index_of(ids, st@) >= 0 {
                index_of(ids, st@)
            } else if forward {
                0
            } else {
                n - 1
            },
            start0 == Some(st@),
            start0 == opt_text(starting_el_id),
            k <= n,
            w == cyclic(s as int, k as int, n as int, forward),
            ready_offset(sels@, s as int, k as int, forward) == -1,
            k == n ==> sels@[s as int] != Some(Selectability::Unselectable),
        decreases n - k,
    {
        proof {
            lemma_cyclic_step(s as int, k + 1, n as int, forward);
            if k + 1 == n {
                lemma_cyclic_full(s as int, n as int, forward);
            }
        }
        w = if forward {
            if w + 1 == n {
                0
            } else {
                w + 1
            }
        } else {
            if w == 0 {
                n - 1
            } else {
                w - 1
            }
        };
        let sel = sels[w];
        match sel {
            Some(v) => {
                if v != Selectability::Unselectable {
                    assert(ready_offset(sels@, s as int, k + 1, forward) == k + 1);
                    proof {
                        lemma_ready_offset_stays(sels@, s as int, k + 1, n as int, forward);
                    }
                    let r = selectables[w].clone();
                    assert(r@ == ids[w as int]);
                    assert(ids[cyclic(s as int, ready_offset(sels@, s as int, n as int, forward), n as int, forward)] == ids[w as int]);
                    assert(ready_offset(sels@, spec_s, ids.len() as int, forward) >= 1);
                    assert(ids[cyclic(spec_s, ready_offset(sels@, spec_s, ids.len() as int, forward), ids.len() as int, forward)] == ids[w as int]);
                    assert(spec_move_selection(ids, sels@, start0, forward) == Some(ids[w as int]));
                    return Some(r);
                }
                if w == s {
                    proof {
                        lemma_no_ready_left(sels@, s as int, k + 1, n as int, forward);
                    }
                    assert(sels@[s as int] == Some(Selectability::Unselectable));
                    return Some(st);
                }
            },
            None => {},
        }
        assert(ready_offset(sels@, s as int, k + 1, forward) == -1);
        k = k + 1;
    }
    None
}

/// Once a ready element is found within `k` steps, looking further finds the same.
proof fn lemma_ready_offset_stays(sels: Seq<Option<Selectability>>, s: int, k: int, m: int, forward: bool)
    requires
        ready_offset(sels, s, k, forward) >= 1,
        k <= m,
    ensures
        ready_offset(sels, s, m, forward) == ready_offset(sels, s, k, forward),
    decreases m - k,
{
    if k < m {
        lemma_ready_offset_stays(sels, s, k, m - 1, forward);
    }
}

/// `x % n` is `r` where `x` is `q * n + r` and `r` lies in `0..n`.
proof fn lemma_mod_is(x: int, n: int, q: int, r: int)
    requires
        n > 0,
        0 <= r < n,
        x == q * n + r,
    ensures
        x % n == r,
{
    vstd::arithmetic::div_mod::lemma_fundamental_div_mod_converse(x, n, q, r);
}

proof fn lemma_cyclic_step(s: int, k: int, n: int, forward: bool)
    requires
        0 <= s < n,
        1 <= k,
    ensures
        0 <= cyclic(s, k - 1, n, forward) < n,
        cyclic(s, k, n, forward) == if forward {
            if cyclic(s, k - 1, n, forward) + 1 == n { 0 } else { cyclic(s, k - 1, n, forward) + 1 }
        } else {
            if cyclic(s, k - 1, n, forward) == 0 { n - 1 } else { cyclic(s, k - 1, n, forward) - 1 }
        },
{
    let a = if forward { s + k - 1 } else { s - (k - 1) };
    let q = a / n;
    let r = a % n;
    vstd::arithmetic::div_mod::lemma_fundamental_div_mod(a, n);
    vstd::arithmetic::div_mod::lemma_mod_bound(a, n);
    assert(a == q * n + r) by (nonlinear_arith)
        requires
            a == n * (a / n) + (a % n),
            q == a / n,
            r == a % n,
    ;
    if forward {
        if r + 1 == n {
            assert(a + 1 == (q + 1) * n + 0) by (nonlinear_arith)
                requires
                    a == q * n + r,
                    r + 1 == n,
            ;
            lemma_mod_is(a + 1, n, q + 1, 0);
        } else {
            assert(a + 1 == q * n + (r + 1));
            lemma_mod_is(a + 1, n, q, r + 1);
        }
    } else {
        if r == 0 {
            assert(a - 1 == (q - 1) * n + (n - 1)) by (nonlinear_arith)
                requires
                    a == q * n + r,
                    r == 0,
            ;
            lemma_mod_is(a - 1, n, q - 1, n - 1);
        } else {
            assert(a - 1 == q * n + (r - 1));
            lemma_mod_is(a - 1, n, q, r - 1);
        }
    }
}

/// After `n` steps the cycle is back at the start.
proof fn lemma_cyclic_full(s: int, n: int, forward: bool)
    requires
        0 <= s < n,
    ensures
        cyclic(s, n, n, forward) == s,
{
    if forward {
        lemma_mod_is(s + n, n, 1, s);
    } else {
        lemma_mod_is(s - n, n, -1, s);
    }
}

/// Only the `n`-th step of a cycle of `n` comes back to the start.
proof fn lemma_no_ready_left(sels: Seq<Option<Selectability>>, s: int, k: int, n: int, forward: bool)
    requires
        0 <= s < n,
        1 <= k <= n,
        n == sels.len(),
        cyclic(s, k, n, forward) == s,
        ready_offset(sels, s, k, forward) == -1,
    ensures
        k == n,
        ready_offset(sels, s, n, forward) == -1,
{
    if k < n {
        if forward {
            if s + k < n {
                lemma_mod_is(s + k, n, 0, s + k);
            } else {
                lemma_mod_is(s + k, n, 1, s + k - n);
            }
        } else {
            if s - k >= 0 {
                lemma_mod_is(s - k, n, 0, s - k);
            } else {
                lemma_mod_is(s - k, n, -1, s - k + n);
            }
        }
    }
}

/// The element that the selection moves to from `starting_el_id` going forward: the next
/// ready one after it, cyclically (see `spec_move_selection`). `sels` holds the selectability
/// of each element of `selectables` (none where it has none).
pub fn next_ready_el_id(
    selectables: &Vec<String>,
    sels: &Vec<Option<Selectability>>,
    starting_el_id: Option<String>,
) -> (r: Option<String>)
    requires
        sels@.len() == selectables@.len(),
    ensures
        opt_text(r) == spec_move_selection(ids_text(selectables@), sels@, opt_text(starting_el_id), true),
{
    move_selection(selectables, sels, starting_el_id, true)
}

/// The element that the selection moves to from `starting_el_id` going backward: the previous
/// ready one before it, cyclically (see `spec_move_selection`).
pub fn prev_ready_el_id(
    selectables: &Vec<String>,
    sels: &Vec<Option<Selectability>>,
    starting_el_id: Option<String>,
) -> (r: Option<String>)
    requires
        sels@.len() == selectables@.len(),
    ensures
        opt_text(r) == spec_move_selection(ids_text(selectables@), sels@, opt_text(starting_el_id), false),
{
    move_selection(selectables, sels, starting_el_id, false)
}

/// The selection after an element reported the selectability it was set to: an element that
/// became selected is the selection (the one selected before, if another, is to be set ready);
/// an element that became ready or unselectable is no longer the selection.
pub open spec fn spec_selection_after(selected: Option<Seq<char>>, sel: Selectability, id: Seq<char>) -> (
    Option<Seq<char>>,
    Option<Seq<char>>,
) {
    match sel {
        Selectability::Selected => (
            Some(id),
            match selected {
                Some(old) => if old != id {
                    Some(old)
                } else {
                    None
                },
                None => None,
            },
        ),
        _ => (if selected == Some(id) {
            None
        } else {
            selected
        }, None),
    }
}

/// The selection after an element reported the selectability it was set to, and the formerly
/// selected element to be set ready, if any (see `spec_selection_after`).
pub fn selection_after_resp(selected: Option<String>, resp: &SelectabilityResp) -> (r: (
    Option<String>,
    Option<String>,
))
    ensures
        (opt_text(r.0), opt_text(r.1)) == spec_selection_after(opt_text(selected), resp.sel, resp.id@),
{
    match resp.sel {
        Selectability::Selected => {
            let deselect = match selected {
                Some(old) => if old != resp.id {
                    Some(old)
                } else {
                    None
                },
                None => None,
            };
            (Some(resp.id.clone()), deselect)
        },
        _ => {
            let keep = match selected {
                Some(old) => if old == resp.id {
                    None
                } else {
                    Some(old)
                },
                None => None,
            };
            (keep, None)
        },
    }
}

/// What switching the selection from one element to another does.
#[derive(PartialEq, Eq, Debug, Clone)]
pub enum SwitchPlan {
    /// Nothing: the two are the same.
    Nothing,
    /// The old element (if any) is set ready; the new one cannot be selected, so the selection
    /// stays as it was and no responses are passed on.
    DeselectOnly(Option<String>),
    /// The old element (if any) is set ready, the new one (if any) is set selected, and the new
    /// one becomes the selection.
    Switch(Option<String>, Option<String>),
}

/// How switching from `old_el_id` to `new_el_id` goes, given the new element's selectability:
/// an element without selectability, or an unselectable one, is not selected.
pub fn switch_plan(
    old_el_id: Option<String>,
    new_el_id: Option<String>,
    new_sel: Option<Selectability>,
) -> (p: SwitchPlan)
    ensures
        opt_text(old_el_id) == opt_text(new_el_id) ==> p == SwitchPlan::Nothing,
        opt_text(old_el_id) != opt_text(new_el_id) && new_el_id is Some && !is_ready(new_sel) ==> (p matches SwitchPlan::DeselectOnly(o) && opt_text(o) == opt_text(old_el_id)),
        opt_text(old_el_id) != opt_text(new_el_id) && (new_el_id is None || is_ready(new_sel)) ==> (p matches SwitchPlan::Switch(o, n) && opt_text(o) == opt_text(old_el_id) && opt_text(n) == opt_text(new_el_id)),
{
    let same = match (&old_el_id, &new_el_id) {
        (Some(a), Some(b)) => *a == *b,
        (None, None) => true,
        _ => false,
    };
    if same {
        return SwitchPlan::Nothing;
    }
    if new_el_id.is_some() {
        let ok = match new_sel {
            Some(s) => s != Selectability::Unselectable,
            None => false,
        };
        if !ok {
            return SwitchPlan::DeselectOnly(old_el_id);
        }
    }
    SwitchPlan::Switch(old_el_id, new_el_id)
}

/// After an element reports that it became selected, it is the selection, and the element
/// selected before (if another) is the one to be set ready: at most one element is left
/// selected.
pub proof fn lemma_one_selected(selected: Option<Seq<char>>, id: Seq<char>)
    ensures
        spec_selection_after(selected, Selectability::Selected, id).0 == Some(id),
        spec_selection_after(selected, Selectability::Selected, id).1 is Some ==> spec_selection_after(
            selected,
            Selectability::Selected,
            id,
        ).1 == selected && selected != Some(id),
{
}

/// Where the selection moves to an element other than its start, that element is ready.
pub proof fn lemma_moves_to_ready(
    ids: Seq<Seq<char>>,
    sels: Seq<Option<Selectability>>,
    start: Seq<char>,
    forward: bool,
)
    requires
        sels.len() == ids.len(),
        spec_move_selection(ids, sels, Some(start), forward) is Some,
        spec_move_selection(ids, sels, Some(start), forward) != Some(start),
    ensures
        exists|i: int|
            0 <= i < ids.len() && Some(#[trigger] ids[i]) == spec_move_selection(ids, sels, Some(start), forward)
                && is_ready(sels[i]),
{
    let n = ids.len() as int;
    lemma_index_of_bound(ids, start);
    let s = if index_of(ids, start) >= 0 {
        index_of(ids, start)
    } else if forward {
        0
    } else {
        n - 1
    };
    let k = ready_offset(sels, s, n, forward);
    lemma_ready_offset_found(sels, s, n, forward);
    let i = cyclic(s, k, n, forward);
    lemma_cyclic_bound(s, k, n, forward);
    assert(Some(ids[i]) == spec_move_selection(ids, sels, Some(start), forward));
}

/// A step count that `ready_offset` finds leads to a ready element.
proof fn lemma_ready_offset_found(sels: Seq<Option<Selectability>>, s: int, k_max: int, forward: bool)
    ensures
        ready_offset(sels, s, k_max, forward) >= 1 ==> 1 <= ready_offset(sels, s, k_max, forward) <= k_max
            && is_ready(sels[cyclic(s, ready_offset(sels, s, k_max, forward), sels.len() as int, forward)]),
    decreases k_max,
{
    if k_max > 0 {
        lemma_ready_offset_found(sels, s, k_max - 1, forward);
    }
}

proof fn lemma_cyclic_bound(s: int, k: int, n: int, forward: bool)
    requires
        n > 0,
    ensures
        0 <= cyclic(s, k, n, forward) < n,
{
    if forward {
        vstd::arithmetic::div_mod::lemma_mod_bound(s + k, n);
    } else {
        vstd::arithmetic::div_mod::lemma_mod_bound(s - k, n);
    }
}

/// Where every element is ready and no two share an id, moving forward from an element and
/// then backward comes back to it.
pub proof fn lemma_next_then_prev(ids: Seq<Seq<char>>, sels: Seq<Option<Selectability>>, start: Seq<char>)
    requires
        sels.len() == ids.len(),
        forall|i: int| 0 <= i < sels.len() ==> is_ready(#[trigger] sels[i]),
        forall|i: int, j: int| 0 <= i < j < ids.len() ==> ids[i] != ids[j],
        ids.contains(start),
    ensures
        spec_move_selection(ids, sels, spec_move_selection(ids, sels, Some(start), true), false) == Some(start),
{
    let n = ids.len() as int;
    lemma_index_of_bound(ids, start);
    let s = index_of(ids, start);
    assert(s >= 0) by {
        let j = choose|j: int| 0 <= j < ids.len() && ids[j] == start;
    }
    lemma_cyclic_bound(s, 1, n, true);
    let t = cyclic(s, 1, n, true);
    assert(is_ready(sels[t]));
    assert(ready_offset(sels, s, 0, true) == -1);
    assert(ready_offset(sels, s, 1, true) == 1);
    lemma_ready_offset_stays(sels, s, 1, n, true);
    let next = ids[t];
    lemma_index_of_bound(ids, next);
    assert(index_of(ids, next) == t) by {
        let m = index_of(ids, next);
        assert(m >= 0) by {
            if m == -1 {
                assert(ids[t] != next);
            }
        }
        if m != t {
            if m < t {
                assert(ids[m] != ids[t]);
            } else {
                assert(ids[t] != next);
            }
        }
    }
    lemma_cyclic_bound(t, 1, n, false);
    assert(is_ready(sels[cyclic(t, 1, n, false)]));
    assert(ready_offset(sels, t, 0, false) == -1);
    assert(ready_offset(sels, t, 1, false) == 1);
    lemma_ready_offset_stays(sels, t, 1, n, false);
    assert(cyclic(t, 1, n, false) == s) by {
        if s + 1 < n {
            lemma_mod_is(s + 1, n, 0, s + 1);
            lemma_mod_is(s, n, 0, s);
        } else {
            lemma_mod_is(s + 1, n, 1, 0);
            lemma_mod_is(-1, n, -1, n - 1);
        }
    }
}

} // verus!
