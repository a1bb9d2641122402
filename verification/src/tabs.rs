use vstd::prelude::*;
use crate::ch::{push_char, str_chars};
use crate::color::{rgb, SolidColor};
use crate::menu::{first_match, lemma_first_match_prefix};
use crate::text_style::{plain_style, TextStyle};

verus! {

/// A tab: the id of the element it shows, its name, and whether its action on being opened is
/// still to run.
pub struct Tab {
    pub id: String,
    pub name: String,
    pub has_open_fn: bool,
}

/// The row of tab names above the tabbed elements.
pub struct TabsTop {
    pub els: Vec<Tab>,
    /// the selected tab
    pub selected: Option<usize>,
    /// the text before each tab name
    pub tab_prefix: String,
    /// the text after each tab name
    pub tab_suffix: String,
    /// the style of the selected tab
    pub highlight_style: TextStyle,
    /// the style of the other tabs
    pub normal_style: TextStyle,
    pub is_dirty: bool,
}

/// The name of a tab as shown: the prefix, the name and the suffix.
pub open spec fn full_name(t: TabsTop, i: int) -> Seq<char> {
    t.tab_prefix@ + t.els@[i].name@ + t.tab_suffix@
}

/// The columns taken by the first `n` tabs.
pub open spec fn names_len(t: TabsTop, n: nat) -> nat
    decreases n,
{
    if n == 0 {
        0
    } else {
        names_len(t, (n - 1) as nat) + full_name(t, n - 1).len()
    }
}

/// The tab shown at column `x`: the one whose name covers it.
pub open spec fn covers(t: TabsTop, i: int, x: int) -> bool {
    names_len(t, i as nat) <= x < names_len(t, (i + 1) as nat)
}

/// The style of the tab at `i`: highlighted where it is the selected one.
pub open spec fn tab_style(t: TabsTop, i: int) -> TextStyle {
    if t.selected == Some(i as usize) {
        t.highlight_style
    } else {
        t.normal_style
    }
}

/// The cells of the first `n` tabs, from the left: each character of each name with the
/// style of its tab.
pub open spec fn tab_cells(t: TabsTop, n: nat) -> Seq<(char, TextStyle)>
    decreases n,
{
    if n == 0 {
        Seq::empty()
    } else {
        let i = n - 1;
        tab_cells(t, i as nat) + Seq::new(full_name(t, i).len(), |k: int| (full_name(t, i)[k], tab_style(t, i)))
    }
}

/// The names fit in a machine word.
pub open spec fn names_fit(t: TabsTop) -> bool {
    names_len(t, t.els@.len()) <= usize::MAX
}

proof fn lemma_names_len_mono(t: TabsTop, a: nat, b: nat)
    requires
        a <= b,
    ensures
        names_len(t, a) <= names_len(t, b),
    decreases b,
{
    if a < b {
        lemma_names_len_mono(t, a, (b - 1) as nat);
    }
}

proof fn lemma_tab_cells_len(t: TabsTop, n: nat)
    ensures
        tab_cells(t, n).len() == names_len(t, n),
    decreases n,
{
    if n > 0 {
        lemma_tab_cells_len(t, (n - 1) as nat);
    }
}

impl TabsTop {
    /// A row of tabs, none selected, each name between single spaces, the selected one black on
    /// light blue and the others black on light yellow.
    pub fn new(els: Vec<Tab>) -> (t: TabsTop)
        ensures
            t.els == els,
            t.selected is None,
            t.tab_prefix@ == seq![' '] && t.tab_suffix@ == seq![' '],
            t.highlight_style == (TextStyle { fg: Some(rgb(0, 0, 0)), bg: Some(rgb(173, 216, 230)), ..plain_style() }),
            t.normal_style == (TextStyle { fg: Some(rgb(0, 0, 0)), bg: Some(rgb(255, 255, 224)), ..plain_style() }),
            t.is_dirty,
    {
        let mut pre = String::new();
        push_char(&mut pre, ' ');
        let mut suf = String::new();
        push_char(&mut suf, ' ');
        TabsTop {
            els,
            selected: None,
            tab_prefix: pre,
            tab_suffix: suf,
            highlight_style: TextStyle::default_const().with_bg(SolidColor::new(173, 216, 230)).with_fg(
                SolidColor::new(0, 0, 0),
            ),
            normal_style: TextStyle::default_const().with_bg(SolidColor::new(255, 255, 224)).with_fg(
                SolidColor::new(0, 0, 0),
            ),
            is_dirty: true,
        }
    }

    /// The names of the tabs with their prefix and suffix.
    pub fn get_full_names(&self) -> (v: Vec<String>)
        ensures
            v@.len() == self.els@.len(),
            forall|i: int| 0 <= i < v@.len() ==> #[trigger] v@[i]@ == full_name(*self, i),
    {
        let mut v: Vec<String> = Vec::new();
        let mut i: usize = 0;
        while i < self.els.len()
            invariant
                i <= self.els@.len(),
                v@.len() == i,
                forall|k: int| 0 <= k < i ==> #[trigger] v@[k]@ == full_name(*self, k),
            decreases self.els@.len() - i,
        {
            let mut n = self.tab_prefix.clone();
            n.append(self.els[i].name.as_str());
            n.append(self.tab_suffix.as_str());
            v.push(n);
            i = i + 1;
        }
        v
    }

    /// Adds a tab at the end.
    pub fn push(&mut self, id: String, name: String, has_open_fn: bool)
        ensures
            final(self).els@.len() == old(self).els@.len() + 1,
            final(self).els@.drop_last() == old(self).els@,
            final(self).els@.last().id == id && final(self).els@.last().name == name,
            final(self).els@.last().has_open_fn == has_open_fn,
            *final(self) == (TabsTop { els: final(self).els, is_dirty: true, ..*old(self) }),
    {
        self.els.push(Tab { id, name, has_open_fn });
        self.is_dirty = true;
        assert(self.els@.drop_last() =~= old(self).els@);
    }

    /// Adds a tab at `idx`, without an action on being opened.
    pub fn insert(&mut self, idx: usize, id: String, name: String)
        requires
            idx <= old(self).els@.len(),
        ensures
            final(self).els@ == old(self).els@.insert(idx as int, Tab { id, name, has_open_fn: false }),
            *final(self) == (TabsTop { els: final(self).els, is_dirty: true, ..*old(self) }),
    {
        self.els.insert(idx, Tab { id, name, has_open_fn: false });
        self.is_dirty = true;
    }

    /// Removes the tab at `idx` and returns the id of its element.
    pub fn remove(&mut self, idx: usize) -> (id: String)
        requires
            idx < old(self).els@.len(),
        ensures
            id == old(self).els@[idx as int].id,
            final(self).els@ == old(self).els@.remove(idx as int),
            *final(self) == (TabsTop { els: final(self).els, is_dirty: true, ..*old(self) }),
    {
        let t = self.els.remove(idx);
        self.is_dirty = true;
        t.id
    }

    /// Removes every tab.
    pub fn clear(&mut self)
        ensures
            final(self).els@.len() == 0,
            *final(self) == (TabsTop { els: final(self).els, is_dirty: true, ..*old(self) }),
    {
        self.is_dirty = true;
        self.els.clear();
    }

    /// The id of the element of the selected tab, where there is one.
    pub fn get_selected_id(&self) -> (r: Option<String>)
        ensures
            match self.selected {
                Some(i) => if i < self.els@.len() {
                    r matches Some(s) && s@ == self.els@[i as int].id@
                } else {
                    r is None
                },
                None => r is None,
            },
    {
        match self.selected {
            Some(i) => {
                if i < self.els.len() {
                    Some(self.els[i].id.clone())
                } else {
                    None
                }
            },
            None => None,
        }
    }

    /// The tab whose name covers column `x` (see `covers`).
    pub fn tab_at(&self, x: usize) -> (r: Option<usize>)
        requires
            names_fit(*self),
        ensures
            r matches Some(i) ==> i < self.els@.len() && covers(*self, i as int, x as int),
            r is None ==> forall|i: int| 0 <= i < self.els@.len() ==> !covers(*self, i, x as int),
    {
        let mut pos: usize = 0;
        let mut i: usize = 0;
        while i < self.els.len()
            invariant
                names_fit(*self),
                i <= self.els@.len(),
                pos == names_len(*self, i as nat),
                x >= pos,
                forall|k: int| 0 <= k < i ==> !covers(*self, k, x as int),
            decreases self.els@.len() - i,
        {
            proof {
                lemma_names_len_mono(*self, (i + 1) as nat, self.els@.len());
            }
            let len = self.tab_prefix.unicode_len() + self.els[i].name.unicode_len() + self.tab_suffix.unicode_len();
            if x < pos + len {
                return Some(i);
            }
            pos = pos + len;
            i = i + 1;
        }
        None
    }

    /// A release of the left mouse button at (`x`, `y`): on the row of names, it selects the
    /// tab under it. Returns whether it selected one.
    pub fn receive_click(&mut self, x: usize, y: usize) -> (hit: bool)
        requires
            names_fit(*old(self)),
        ensures
            hit ==> y == 0 && (final(self).selected matches Some(i) && i < old(self).els@.len() && covers(
                *old(self),
                i as int,
                x as int,
            )) && *final(self) == (TabsTop { selected: final(self).selected, is_dirty: true, ..*old(self) }),
            !hit ==> *final(self) == *old(self) && (y == 0 ==> forall|i: int|
                0 <= i < old(self).els@.len() ==> !covers(*old(self), i, x as int)),
    {
        if y != 0 {
            return false;
        }
        match self.tab_at(x) {
            Some(i) => {
                self.selected = Some(i);
                self.is_dirty = true;
                true
            },
            None => false,
        }
    }

    /// The cells of the row of names (see `tab_cells`), where they are to be drawn anew (or
    /// `force_update` asks for them); it is then no longer to be drawn anew.
    pub fn drawing(&mut self, force_update: bool) -> (r: Option<Vec<(char, TextStyle)>>)
        ensures
            !force_update && !old(self).is_dirty ==> r is None && *final(self) == *old(self),
            force_update || old(self).is_dirty ==> (r matches Some(v) && v@ == tab_cells(
                *old(self),
                old(self).els@.len(),
            )) && *final(self) == (TabsTop { is_dirty: false, ..*old(self) }),
    {
        if !force_update && !self.is_dirty {
            return None;
        }
        let pre = str_chars(self.tab_prefix.as_str());
        let suf = str_chars(self.tab_suffix.as_str());
        let mut out: Vec<(char, TextStyle)> = Vec::new();
        let mut i: usize = 0;
        while i < self.els.len()
            invariant
                pre@ == self.tab_prefix@,
                suf@ == self.tab_suffix@,
                i <= self.els@.len(),
                out@ == tab_cells(*self, i as nat),
            decreases self.els@.len() - i,
        {
            let sty = match self.selected {
                Some(s) => if s == i {
                    self.highlight_style
                } else {
                    self.normal_style
                },
                None => self.normal_style,
            };
            let name = str_chars(self.els[i].name.as_str());
            let ghost before = out@;
            let ghost full = full_name(*self, i as int);
            let mut k: usize = 0;
            while k < pre.len()
                invariant
                    full == full_name(*self, i as int),
                    pre@ == self.tab_prefix@,
                    k <= pre@.len(),
                    out@ == before + Seq::new(k as nat, |j: int| (full[j], sty)),
                decreases pre@.len() - k,
            {
                out.push((pre[k], sty));
                assert(out@ =~= before + Seq::new((k + 1) as nat, |j: int| (full[j], sty)));
                k = k + 1;
            }
            let mut k: usize = 0;
            while k < name.len()
                invariant
                    full == full_name(*self, i as int),
                    pre@ == self.tab_prefix@,
                    name@ == self.els@[i as int].name@,
                    k <= name@.len(),
                    out@ == before + Seq::new((pre@.len() + k) as nat, |j: int| (full[j], sty)),
                decreases name@.len() - k,
            {
                out.push((name[k], sty));
                assert(out@ =~= before + Seq::new((pre@.len() + k + 1) as nat, |j: int| (full[j], sty)));
                k = k + 1;
            }
            let mut k: usize = 0;
            while k < suf.len()
                invariant
                    full == full_name(*self, i as int),
                    pre@ == self.tab_prefix@,
                    suf@ == self.tab_suffix@,
                    name@ == self.els@[i as int].name@,
                    k <= suf@.len(),
                    out@ == before + Seq::new((pre@.len() + name@.len() + k) as nat, |j: int| (full[j], sty)),
                decreases suf@.len() - k,
            {
                out.push((suf[k], sty));
                assert(out@ =~= before + Seq::new(
                    (pre@.len() + name@.len() + k + 1) as nat,
                    |j: int| (full[j], sty),
                ));
                k = k + 1;
            }
            assert(sty == tab_style(*self, i as int));
            assert(out@ =~= tab_cells(*self, (i + 1) as nat));
            i = i + 1;
        }
        self.is_dirty = false;
        Some(out)
    }
}

/// An element below the tabs: its id, and whether it is shown and focused.
pub struct LowerEl {
    pub id: String,
    pub shown: bool,
    pub focused: bool,
}

/// Tabs: the row of names, and below it the elements, one shown at a time.
pub struct Tabs {
    pub top: TabsTop,
    /// the elements, in the order they were added
    pub lower: Vec<LowerEl>,
}

/// The element has the id `id`.
pub open spec fn has_id(id: Seq<char>) -> spec_fn(LowerEl) -> bool {
    |e: LowerEl| e.id@ == id
}

/// The elements with the first one with the id `id` (where there is one) shown or hidden and
/// focused or not as given (`None` keeps it as it is).
pub open spec fn with_el_state(lower: Seq<LowerEl>, id: Seq<char>, shown: bool, focused: Option<bool>) -> Seq<LowerEl> {
    match first_match(lower, has_id(id)) {
        Some(k) => lower.update(
            k,
            LowerEl {
                shown,
                focused: match focused {
                    Some(f) => f,
                    None => lower[k].focused,
                },
                ..lower[k]
            },
        ),
        None => lower,
    }
}

/// The elements after adding `el`: it takes the place of an element with its id, else it
/// goes at the end.
pub open spec fn with_el(lower: Seq<LowerEl>, el: LowerEl) -> Seq<LowerEl> {
    match first_match(lower, has_id(el.id@)) {
        Some(k) => lower.update(k, el),
        None => lower.push(el),
    }
}

/// The elements without the first one with the id `id`.
pub open spec fn without_el(lower: Seq<LowerEl>, id: Seq<char>) -> Seq<LowerEl> {
    match first_match(lower, has_id(id)) {
        Some(k) => lower.remove(k),
        None => lower,
    }
}

/// The elements after switching the view from the tab at `old_idx` to the tab at `new_idx`: the
/// element of the first is hidden and that of the second shown (where those tabs exist).
pub open spec fn switched_lower(els: Seq<Tab>, lower: Seq<LowerEl>, old_idx: Option<usize>, new_idx: Option<usize>) -> Seq<LowerEl> {
    let l1 = match old_idx {
        Some(i) => if i < els.len() { with_el_state(lower, els[i as int].id@, false, None) } else { lower },
        None => lower,
    };
    match new_idx {
        Some(j) => if j < els.len() { with_el_state(l1, els[j as int].id@, true, None) } else { l1 },
        None => l1,
    }
}

/// The tab whose action on being opened runs when the view switches to `new_idx`: that tab, where
/// it exists and its action is still to run.
pub open spec fn opened_tab(els: Seq<Tab>, new_idx: Option<usize>) -> Option<usize> {
    match new_idx {
        Some(j) => if j < els.len() && els[j as int].has_open_fn { Some(j) } else { None },
        None => None,
    }
}

/// The tabs after switching the view to `new_idx`: its action no longer to run.
pub open spec fn switched_els(els: Seq<Tab>, new_idx: Option<usize>) -> Seq<Tab> {
    match opened_tab(els, new_idx) {
        Some(j) => els.update(j as int, Tab { has_open_fn: false, ..els[j as int] }),
        None => els,
    }
}

impl Tabs {
    /// No tabs.
    pub fn new() -> (t: Tabs)
        ensures
            t.top.els@.len() == 0 && t.top.selected is None,
            t.top.tab_prefix@ == seq![' '] && t.top.tab_suffix@ == seq![' '],
            t.lower@.len() == 0,
    {
        Tabs { top: TabsTop::new(Vec::new()), lower: Vec::new() }
    }

    /// The index of the first element with the id `id`.
    fn find_el(&self, id: &String) -> (r: Option<usize>)
        ensures
            match r {
                Some(k) => first_match(self.lower@, has_id(id@)) == Some(k as int) && k < self.lower@.len(),
                None => first_match(self.lower@, has_id(id@)) is None,
            },
    {
        let ghost f = has_id(id@);
        let mut k: usize = 0;
        while k < self.lower.len()
            invariant
                f == has_id(id@),
                k <= self.lower@.len(),
                first_match(self.lower@.take(k as int), f) is None,
            decreases self.lower@.len() - k,
        {
            proof {
                let t = self.lower@.take(k + 1);
                assert(t.drop_last() =~= self.lower@.take(k as int));
            }
            if self.lower[k].id == *id {
                proof {
                    let t = self.lower@.take(k + 1);
                    assert(first_match(t, f) == Some(k as int));
                    lemma_first_match_prefix(self.lower@, f, (k + 1) as nat);
                }
                return Some(k);
            }
            k = k + 1;
        }
        proof {
            assert(self.lower@.take(self.lower@.len() as int) =~= self.lower@);
        }
        None
    }

    /// Shows or hides, and focuses or not, the first element with the id `id` (see
    /// `with_el_state`).
    fn set_el_state(&mut self, id: &String, shown: bool, focused: Option<bool>)
        ensures
            final(self).lower@ == with_el_state(old(self).lower@, id@, shown, focused),
            final(self).top == old(self).top,
    {
        match self.find_el(id) {
            Some(k) => {
                self.lower[k].shown = shown;
                if let Some(f) = focused {
                    self.lower[k].focused = f;
                }
            },
            None => {},
        }
    }

    /// Switches the view from the tab at `old_idx` to the tab at `new_idx` (see `switched_lower`).
    /// Returns the tab whose action on being opened is to run now (see `opened_tab`).
    pub fn set_tab_view_pane(&mut self, old_idx: Option<usize>, new_idx: Option<usize>) -> (ran: Option<usize>)
        ensures
            final(self).lower@ == switched_lower(old(self).top.els@, old(self).lower@, old_idx, new_idx),
            final(self).top.els@ == switched_els(old(self).top.els@, new_idx),
            ran == opened_tab(old(self).top.els@, new_idx),
            final(self).top == (TabsTop { els: final(self).top.els, ..old(self).top }),
    {
        if let Some(i) = old_idx {
            if i < self.top.els.len() {
                let id = self.top.els[i].id.clone();
                self.set_el_state(&id, false, None);
            }
        }
        if let Some(j) = new_idx {
            if j < self.top.els.len() {
                let id = self.top.els[j].id.clone();
                self.set_el_state(&id, true, None);
                if self.top.els[j].has_open_fn {
                    self.top.els[j].has_open_fn = false;
                    return Some(j);
                }
            }
        }
        None
    }

    /// Adds `el` (see `with_el`).
    fn add_element(&mut self, el: LowerEl)
        ensures
            final(self).lower@ == with_el(old(self).lower@, el),
            final(self).top == old(self).top,
    {
        match self.find_el(&el.id) {
            Some(k) => {
                self.lower.set(k, el);
            },
            None => {
                self.lower.push(el);
            },
        }
    }

    /// Adds a tab named `name` for `el` at the end (see `push_with_on_open_fn`).
    pub fn push(&mut self, el: LowerEl, name: String) -> (ran: Option<usize>)
        ensures
            ({
                let n = old(self).top.els@.len();
                let els1 = old(self).top.els@.push(Tab { id: el.id, name, has_open_fn: false });
                let lower1 = with_el(old(self).lower@, el);
                &&& old(self).top.selected is None ==> {
                    &&& final(self).top.selected == Some(n as usize)
                    &&& final(self).lower@ == switched_lower(els1, lower1, None, Some(n as usize))
                    &&& final(self).top.els@ == switched_els(els1, Some(n as usize))
                    &&& ran == opened_tab(els1, Some(n as usize))
                }
                &&& old(self).top.selected is Some ==> {
                    &&& final(self).top.selected == old(self).top.selected
                    &&& final(self).lower@ == with_el_state(lower1, el.id@, false, Some(false))
                    &&& final(self).top.els@ == els1
                    &&& ran is None
                }
                &&& final(self).top == (TabsTop {
                    els: final(self).top.els,
                    selected: final(self).top.selected,
                    is_dirty: true,
                    ..old(self).top
                })
            }),
    {
        self.push_with_on_open_fn(el, name, false)
    }

    /// Adds a tab named `name` for `el` at the end, with an action to run when it is first
    /// opened or not. The first tab is selected and its element shown (its action running);
    /// any other element is hidden and unfocused. Returns the tab whose action is to run now.
    pub fn push_with_on_open_fn(&mut self, el: LowerEl, name: String, has_open_fn: bool) -> (ran: Option<usize>)
        ensures
            ({
                let n = old(self).top.els@.len();
                let els1 = old(self).top.els@.push(Tab { id: el.id, name, has_open_fn });
                let lower1 = with_el(old(self).lower@, el);
                &&& old(self).top.selected is None ==> {
                    &&& final(self).top.selected == Some(n as usize)
                    &&& final(self).lower@ == switched_lower(els1, lower1, None, Some(n as usize))
                    &&& final(self).top.els@ == switched_els(els1, Some(n as usize))
                    &&& ran == opened_tab(els1, Some(n as usize))
                }
                &&& old(self).top.selected is Some ==> {
                    &&& final(self).top.selected == old(self).top.selected
                    &&& final(self).lower@ == with_el_state(lower1, el.id@, false, Some(false))
                    &&& final(self).top.els@ == els1
                    &&& ran is None
                }
                &&& final(self).top == (TabsTop {
                    els: final(self).top.els,
                    selected: final(self).top.selected,
                    is_dirty: true,
                    ..old(self).top
                })
            }),
    {
        let id = el.id.clone();
        let ghost gel = el;
        self.top.push(el.id.clone(), name, has_open_fn);
        proof {
            assert(self.top.els@ =~= old(self).top.els@.push(Tab { id: gel.id, name, has_open_fn }));
        }
        self.add_element(el);
        let idx = self.top.els.len() - 1;
        if self.top.selected.is_none() {
            self.top.selected = Some(idx);
            self.set_tab_view_pane(None, Some(idx))
        } else {
            self.set_el_state(&id, false, Some(false));
            None
        }
    }
}

impl Tabs {
    /// Adds a tab named `name` for `el` at `idx`. Where the selected tab was at `idx`, its
    /// element is hidden and unfocused and the new element shown in its place; the first tab
    /// is selected and shown; any other new element is hidden and unfocused. Returns the tab
    /// whose action is to run now.
    pub fn insert(&mut self, idx: usize, el: LowerEl, name: String) -> (ran: Option<usize>)
        requires
            idx <= old(self).top.els@.len(),
        ensures
            ({
                let els = old(self).top.els@;
                let l0 = if old(self).top.selected == Some(idx) && idx < els.len() {
                    with_el_state(old(self).lower@, els[idx as int].id@, false, Some(false))
                } else {
                    old(self).lower@
                };
                let els1 = els.insert(idx as int, Tab { id: el.id, name, has_open_fn: false });
                let l1 = with_el(l0, el);
                &&& old(self).top.selected is None ==> {
                    &&& final(self).top.selected == Some(idx)
                    &&& final(self).lower@ == switched_lower(els1, l1, None, Some(idx))
                    &&& final(self).top.els@ == switched_els(els1, Some(idx))
                    &&& ran == opened_tab(els1, Some(idx))
                }
                &&& old(self).top.selected is Some ==> {
                    &&& final(self).top.selected == old(self).top.selected
                    &&& final(self).lower@ == (if old(self).top.selected == Some(idx) {
                        with_el_state(l1, el.id@, true, None)
                    } else {
                        with_el_state(l1, el.id@, false, Some(false))
                    })
                    &&& final(self).top.els@ == els1
                    &&& ran is None
                }
                &&& final(self).top == (TabsTop {
                    els: final(self).top.els,
                    selected: final(self).top.selected,
                    is_dirty: true,
                    ..old(self).top
                })
            }),
    {
        if self.top.selected == Some(idx) {
            if let Some(old_id) = self.top.get_selected_id() {
                self.set_el_state(&old_id, false, Some(false));
            }
        }
        let id = el.id.clone();
        let ghost gel = el;
        self.top.insert(idx, el.id.clone(), name);
        proof {
            assert(self.top.els@ =~= old(self).top.els@.insert(idx as int, Tab { id: gel.id, name, has_open_fn: false }));
        }
        self.add_element(el);
        match self.top.selected {
            None => {
                self.top.selected = Some(idx);
                self.set_tab_view_pane(None, Some(idx))
            },
            Some(s) => {
                if s == idx {
                    self.set_el_state(&id, true, None);
                } else {
                    self.set_el_state(&id, false, Some(false));
                }
                None
            },
        }
    }

    /// Removes the tab at `idx` and its element (the selection stays as it is).
    pub fn remove(&mut self, idx: usize)
        requires
            idx < old(self).top.els@.len(),
        ensures
            final(self).top.els@ == old(self).top.els@.remove(idx as int),
            final(self).lower@ == without_el(old(self).lower@, old(self).top.els@[idx as int].id@),
            final(self).top == (TabsTop { els: final(self).top.els, is_dirty: true, ..old(self).top }),
    {
        let id = self.top.remove(idx);
        match self.find_el(&id) {
            Some(k) => {
                self.lower.remove(k);
            },
            None => {},
        }
    }

    /// Removes every tab and element.
    pub fn clear(&mut self)
        ensures
            final(self).top.els@.len() == 0,
            final(self).lower@.len() == 0,
            final(self).top == (TabsTop { els: final(self).top.els, is_dirty: true, ..old(self).top }),
    {
        self.top.clear();
        self.lower.clear();
    }

    /// Selects the tab at `idx`, switching the view to it (see `set_tab_view_pane`). Returns
    /// the tab whose action is to run now.
    pub fn select(&mut self, idx: usize) -> (ran: Option<usize>)
        ensures
            final(self).top.selected == Some(idx),
            final(self).lower@ == switched_lower(old(self).top.els@, old(self).lower@, old(self).top.selected, Some(idx)),
            final(self).top.els@ == switched_els(old(self).top.els@, Some(idx)),
            ran == opened_tab(old(self).top.els@, Some(idx)),
            final(self).top == (TabsTop { els: final(self).top.els, selected: Some(idx), ..old(self).top }),
    {
        let start = self.top.selected;
        self.top.selected = Some(idx);
        self.set_tab_view_pane(start, Some(idx))
    }

    /// A release of the left mouse button at (`x`, `y`) of the row of names (see
    /// `TabsTop::receive_click`); where it selects another tab, the view switches to it.
    /// Returns whether a tab was hit and the tab whose action is to run now.
    pub fn receive_click(&mut self, x: usize, y: usize) -> (r: (bool, Option<usize>))
        requires
            names_fit(old(self).top),
        ensures
            !r.0 ==> *final(self) == *old(self) && r.1 is None && (y == 0 ==> forall|i: int|
                0 <= i < old(self).top.els@.len() ==> !covers(old(self).top, i, x as int)),
            r.0 ==> y == 0 && (final(self).top.selected matches Some(i) && i < old(self).top.els@.len() && covers(
                old(self).top,
                i as int,
                x as int,
            ) && if old(self).top.selected == Some(i) {
                final(self).lower@ == old(self).lower@ && final(self).top.els@ == old(self).top.els@ && r.1 is None
            } else {
                final(self).lower@ == switched_lower(old(self).top.els@, old(self).lower@, old(self).top.selected, Some(i))
                    && final(self).top.els@ == switched_els(old(self).top.els@, Some(i)) && r.1 == opened_tab(
                    old(self).top.els@,
                    Some(i),
                )
            }) && final(self).top == (TabsTop {
                els: final(self).top.els,
                selected: final(self).top.selected,
                is_dirty: true,
                ..old(self).top
            }),
    {
        let start = self.top.selected;
        let hit = self.top.receive_click(x, y);
        if !hit {
            return (false, None);
        }
        let end = self.top.selected;
        if start != end {
            let ran = self.set_tab_view_pane(start, end);
            (true, ran)
        } else {
            (true, None)
        }
    }
}

/// A tab's action on being opened runs at most once: after the view switched to it, switching
/// to it again runs nothing.
pub proof fn lemma_open_fn_runs_once(els: Seq<Tab>, i: usize)
    ensures
        opened_tab(switched_els(els, Some(i)), Some(i)) is None,
        switched_els(els, Some(i)).len() == els.len(),
{
}

} // verus!
