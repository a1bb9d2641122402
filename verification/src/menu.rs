use vstd::prelude::*;
use crate::ch::{push_char, str_chars};
use crate::color::{rgb, SolidColor};
use crate::text_style::{plain_style, TextStyle};

verus! {

/// A path of menu items within a menu tree. For example "nwmod/cool_stuff/blaze" is the item
/// "blaze" in the sub-menu "cool_stuff" of the top-level menu "nwmod".
pub struct MenuPath(pub String);

/// The parts of `s` between the slashes, in order (one empty part for an empty string).
pub open spec fn split_slash(s: Seq<char>) -> Seq<Seq<char>>
    decreases s.len(),
{
    if s.len() == 0 {
        seq![Seq::<char>::empty()]
    } else {
        let rest = split_slash(s.drop_last());
        if s.last() == '/' {
            rest.push(Seq::empty())
        } else {
            rest.update(rest.len() - 1, rest.last().push(s.last()))
        }
    }
}

/// The parts joined with slashes between them.
pub open spec fn join_slash(parts: Seq<Seq<char>>) -> Seq<char>
    decreases parts.len(),
{
    if parts.len() == 0 {
        Seq::empty()
    } else if parts.len() == 1 {
        parts[0]
    } else {
        join_slash(parts.drop_last()) + seq!['/'] + parts.last()
    }
}

/// The folders of a path: all its parts but the last.
pub open spec fn path_folders(s: Seq<char>) -> Seq<Seq<char>> {
    split_slash(s).drop_last()
}

/// The name of a path: its last part.
pub open spec fn path_name(s: Seq<char>) -> Seq<char> {
    split_slash(s).last()
}

/// `a` is the path of a folder that holds `b` directly: `b` starts with `a` and has one part
/// more.
pub open spec fn immediate_parent(a: Seq<char>, b: Seq<char>) -> bool {
    a.len() <= b.len() && b.take(a.len() as int) == a && split_slash(b).len() == split_slash(a).len() + 1
}

/// The paths of the folders that lead to an item, the outermost first: its first folder, its
/// first two folders joined, and so on.
pub open spec fn folder_paths(s: Seq<char>) -> Seq<Seq<char>> {
    let f = path_folders(s);
    Seq::new(f.len(), |i: int| join_slash(f.take(i + 1)))
}

proof fn lemma_split_nonempty(s: Seq<char>)
    ensures
        split_slash(s).len() >= 1,
    decreases s.len(),
{
    if s.len() > 0 {
        lemma_split_nonempty(s.drop_last());
    }
}

/// The parts of a string between its slashes.
fn split_path(s: &String) -> (v: Vec<String>)
    ensures
        v@.map_values(|p: String| p@) == split_slash(s@),
{
    let chars = str_chars(s.as_str());
    let mut out: Vec<String> = Vec::new();
    out.push(String::new());
    let mut i: usize = 0;
    proof {
        assert(out@.map_values(|p: String| p@) =~= split_slash(chars@.take(0)));
    }
    while i < chars.len()
        invariant
            chars@ == s@,
            i <= chars@.len(),
            out@.len() >= 1,
            out@.map_values(|p: String| p@) == split_slash(chars@.take(i as int)),
        decreases chars@.len() - i,
    {
        let c = chars[i];
        let ghost before = out@.map_values(|p: String| p@);
        proof {
            let t = chars@.take(i + 1);
            assert(t.drop_last() =~= chars@.take(i as int));
            assert(t.last() == c);
        }
        if c == '/' {
            out.push(String::new());
            assert(out@.map_values(|p: String| p@) =~= before.push(Seq::empty()));
        } else {
            let last = out.len() - 1;
            let mut p = String::new();
            std::mem::swap(&mut p, &mut out[last]);
            push_char(&mut p, c);
            std::mem::swap(&mut p, &mut out[last]);
            assert(out@.map_values(|p: String| p@) =~= before.update(
                before.len() - 1,
                before.last().push(c),
            ));
        }
        i = i + 1;
    }
    proof {
        assert(chars@.take(chars@.len() as int) =~= chars@);
    }
    out
}

/// `parts` joined with slashes between them.
fn join_parts(parts: &Vec<String>, n: usize) -> (s: String)
    requires
        n <= parts@.len(),
    ensures
        s@ == join_slash(parts@.map_values(|p: String| p@).take(n as int)),
{
    let ghost ps = parts@.map_values(|p: String| p@);
    let mut out = String::new();
    let mut i: usize = 0;
    proof {
        assert(out@ =~= join_slash(ps.take(0)));
    }
    while i < n
        invariant
            ps == parts@.map_values(|p: String| p@),
            n <= parts@.len(),
            i <= n,
            out@ == join_slash(ps.take(i as int)),
        decreases n - i,
    {
        if i > 0 {
            push_char(&mut out, '/');
        }
        let chars = str_chars(parts[i].as_str());
        let ghost mid = out@;
        let mut k: usize = 0;
        while k < chars.len()
            invariant
                out@ == mid + chars@.take(k as int),
                k <= chars@.len(),
            decreases chars@.len() - k,
        {
            push_char(&mut out, chars[k]);
            assert(chars@.take(k + 1) =~= chars@.take(k as int).push(chars@[k as int]));
            k = k + 1;
        }
        proof {
            assert(chars@.take(chars@.len() as int) =~= chars@);
            assert(chars@ == ps[i as int]);
            let t = ps.take(i + 1);
            assert(t.drop_last() =~= ps.take(i as int));
            if i > 0 {
                assert(out@ =~= join_slash(t.drop_last()) + seq!['/'] + t.last());
            } else {
                assert(out@ =~= t[0]);
            }
        }
        i = i + 1;
    }
    out
}

impl MenuPath {
    /// The name of the menu item at the end of the path.
    pub fn name(&self) -> (n: String)
        ensures
            n@ == path_name(self.0@),
    {
        let mut parts = split_path(&self.0);
        proof {
            lemma_split_nonempty(self.0@);
        }
        let last = parts.len() - 1;
        let mut out = String::new();
        std::mem::swap(&mut out, &mut parts[last]);
        out
    }

    /// The folders of the path.
    pub fn folders(&self) -> (f: Vec<String>)
        ensures
            f@.map_values(|p: String| p@) == path_folders(self.0@),
    {
        let mut parts = split_path(&self.0);
        proof {
            lemma_split_nonempty(self.0@);
        }
        let ghost all = parts@.map_values(|p: String| p@);
        let _ = parts.pop();
        assert(parts@.map_values(|p: String| p@) =~= all.drop_last());
        parts
    }

    /// The path is of a top-level item: it holds no slash.
    pub fn is_root(&self) -> (r: bool)
        ensures
            r == !self.0@.contains('/'),
    {
        let chars = str_chars(self.0.as_str());
        let mut i: usize = 0;
        while i < chars.len()
            invariant
                chars@ == self.0@,
                i <= chars@.len(),
                forall|k: int| 0 <= k < i ==> chars@[k] != '/',
            decreases chars@.len() - i,
        {
            if chars[i] == '/' {
                return false;
            }
            i = i + 1;
        }
        true
    }

    /// `other` is this path with one more part: it starts with this path and has one part more.
    pub fn is_immediate_parent_of(&self, other: &MenuPath) -> (r: bool)
        ensures
            r == immediate_parent(self.0@, other.0@),
    {
        let a = str_chars(self.0.as_str());
        let b = str_chars(other.0.as_str());
        let mut starts = a.len() <= b.len();
        let mut i: usize = 0;
        while starts && i < a.len()
            invariant
                a@ == self.0@,
                b@ == other.0@,
                starts ==> a@.len() <= b@.len(),
                i <= a@.len(),
                forall|k: int| 0 <= k < i ==> a@[k] == b@[k],
                !starts ==> (a@.len() > b@.len() || (i < a@.len() && a@[i as int] != b@[i as int])),
            decreases a@.len() - i + (if starts { 1int } else { 0int }),
        {
            if a[i] != b[i] {
                starts = false;
            } else {
                i = i + 1;
            }
        }
        proof {
            if starts {
                assert(b@.take(a@.len() as int) =~= a@);
            } else if a@.len() <= b@.len() {
                assert(b@.take(a@.len() as int)[i as int] != a@[i as int]);
            }
        }
        let sa = split_path(&self.0);
        let sb = split_path(&other.0);
        assert(sa@.len() == split_slash(self.0@).len());
        assert(sb@.len() == split_slash(other.0@).len());
        starts && sb.len() > 0 && sb.len() - 1 == sa.len()
    }

    /// The paths of the folders that lead to this item, the outermost first (see
    /// `folder_paths`).
    pub fn folder_paths(&self) -> (v: Vec<String>)
        ensures
            v@.map_values(|p: String| p@) == folder_paths(self.0@),
    {
        let f = self.folders();
        let ghost fv = f@.map_values(|p: String| p@);
        let mut out: Vec<String> = Vec::new();
        let mut i: usize = 0;
        while i < f.len()
            invariant
                fv == f@.map_values(|p: String| p@),
                fv == path_folders(self.0@),
                i <= f@.len(),
                out@.map_values(|p: String| p@) == Seq::new(i as nat, |k: int| join_slash(fv.take(k + 1))),
            decreases f@.len() - i,
        {
            let p = join_parts(&f, i + 1);
            let ghost before = out@.map_values(|p: String| p@);
            let ghost pv = p@;
            out.push(p);
            assert(out@.map_values(|p: String| p@) =~= before.push(pv));
            assert(out@.map_values(|p: String| p@) =~= Seq::new((i + 1) as nat, |k: int| join_slash(fv.take(k + 1))));
            i = i + 1;
        }
        out
    }
}


// ------------------------------------------------------------------------------------------
// Menu items and the menu bar

/// The direction in which menu items prefer to open.
#[derive(Clone, Copy, PartialEq, Eq, Debug, Structural)]
pub enum OpenDirection {
    Up,
    Down,
    LeftThenDown,
    RightThenDown,
    LeftThenUp,
    RightThenUp,
}

/// How menu items are drawn.
pub struct MenuStyle {
    pub folder_arrow: String,
    /// also including any left padding between the arrow and the menu item
    pub left_padding: usize,
    pub right_padding: usize,
    pub unselected_style: TextStyle,
    pub selected_style: TextStyle,
    pub disabled_style: TextStyle,
}

impl Default for MenuStyle {
    /// A ` ❯` folder arrow, one space of padding on each side, white on grey (white on blue
    /// while selected, on a lighter grey where disabled).
    fn default() -> (s: MenuStyle)
        ensures
            s.folder_arrow@ == seq![' ', '❯'],
            s.left_padding == 1,
            s.right_padding == 1,
            s.selected_style == (TextStyle { fg: Some(rgb(255, 255, 255)), bg: Some(rgb(0, 0, 255)), ..plain_style() }),
            s.unselected_style == (TextStyle { fg: Some(rgb(255, 255, 255)), bg: Some(rgb(100, 100, 105)), ..plain_style() }),
            s.disabled_style == (TextStyle { fg: Some(rgb(255, 255, 255)), bg: Some(rgb(200, 200, 205)), ..plain_style() }),
    {
        let white = SolidColor::new(255, 255, 255);
        let mut arrow = String::new();
        push_char(&mut arrow, ' ');
        push_char(&mut arrow, '❯');
        MenuStyle {
            folder_arrow: arrow,
            left_padding: 1,
            right_padding: 1,
            unselected_style: TextStyle::default_const().with_bg(SolidColor::new(100, 100, 105)).with_fg(white),
            selected_style: TextStyle::default_const().with_bg(SolidColor::new(0, 0, 255)).with_fg(white),
            disabled_style: TextStyle::default_const().with_bg(SolidColor::new(200, 200, 205)).with_fg(white),
        }
    }
}

/// Where a menu item is, relative to the menu bar: columns `start_x..end_x`, rows
/// `start_y..end_y`.
#[derive(Clone, Copy, PartialEq, Eq, Debug, Structural)]
pub struct MenuLoc {
    pub start_x: i32,
    pub end_x: i32,
    pub start_y: i32,
    pub end_y: i32,
}

/// An item of a menu: its path, whether it can be chosen, is selected, is a folder, shows the
/// folder arrow, is shown, and where it is.
pub struct MenuItem {
    pub path: MenuPath,
    pub selectable: bool,
    pub is_selected: bool,
    pub is_folder: bool,
    pub show_folder_arrow: bool,
    pub visible: bool,
    pub loc: MenuLoc,
}

/// The item is a top-level one.
pub open spec fn primary(it: MenuItem) -> bool {
    !it.path.0@.contains('/')
}

/// The width an item needs: its name, the paddings, and the folder arrow where it is a folder
/// (a top-level folder only where top-level folders show the arrow); the sum wraps around on
/// overflow.
pub open spec fn spec_min_width(it: MenuItem, sty: MenuStyle, primary_show_arrow: bool) -> usize {
    let arrow = if it.is_folder && (!primary(it) || primary_show_arrow) {
        sty.folder_arrow@.len() as usize
    } else {
        0usize
    };
    (path_name(it.path.0@).len() as usize).wrapping_add(sty.left_padding).wrapping_add(sty.right_padding).wrapping_add(
        arrow,
    )
}

impl MenuItem {
    /// A selectable item that is not a folder, not selected and not shown.
    pub fn new(path: MenuPath) -> (it: MenuItem)
        ensures
            it.path == path,
            it.selectable && !it.is_selected && !it.is_folder && it.show_folder_arrow && !it.visible,
            it.loc == (MenuLoc { start_x: 0, end_x: 0, start_y: 0, end_y: 0 }),
    {
        MenuItem {
            path,
            selectable: true,
            is_selected: false,
            is_folder: false,
            show_folder_arrow: true,
            visible: false,
            loc: MenuLoc { start_x: 0, end_x: 0, start_y: 0, end_y: 0 },
        }
    }

    /// A folder item.
    pub fn new_folder(path: MenuPath) -> (it: MenuItem)
        ensures
            it.path == path,
            it.selectable && !it.is_selected && it.is_folder && it.show_folder_arrow && !it.visible,
            it.loc == (MenuLoc { start_x: 0, end_x: 0, start_y: 0, end_y: 0 }),
    {
        let mut it = MenuItem::new(path);
        it.is_folder = true;
        it
    }

    /// This item, not selectable (a decoration).
    pub fn with_unselectable(self) -> (it: MenuItem)
        ensures
            it == (MenuItem { selectable: false, ..self }),
    {
        MenuItem { selectable: false, ..self }
    }

    /// This item, selectable.
    pub fn with_selectable(self) -> (it: MenuItem)
        ensures
            it == (MenuItem { selectable: true, ..self }),
    {
        MenuItem { selectable: true, ..self }
    }

    pub fn select(&mut self)
        ensures
            *final(self) == (MenuItem { is_selected: true, ..*old(self) }),
    {
        self.is_selected = true;
    }

    pub fn unselect(&mut self)
        ensures
            *final(self) == (MenuItem { is_selected: false, ..*old(self) }),
    {
        self.is_selected = false;
    }

    pub fn is_primary(&self) -> (r: bool)
        ensures
            r == primary(*self),
    {
        self.path.is_root()
    }

    /// The width the item needs (see `spec_min_width`).
    pub fn min_width(&self, sty: &MenuStyle, primary_show_arrow: bool) -> (w: usize)
        ensures
            w == spec_min_width(*self, *sty, primary_show_arrow),
    {
        let arrow = if self.is_folder && (!self.is_primary() || (self.is_primary() && primary_show_arrow)) {
            sty.folder_arrow.unicode_len()
        } else {
            0
        };
        let name = self.path.name();
        name.unicode_len().wrapping_add(sty.left_padding).wrapping_add(sty.right_padding).wrapping_add(arrow)
    }
}

/// A menu bar (or a right click menu) and its items, in the order they were added.
pub struct MenuBar {
    pub items: Vec<MenuItem>,
    /// is the bar horizontal or vertical
    pub horizontal_bar: bool,
    /// the bar must first be activated with a click before any expansion
    pub activated: bool,
    /// whether or not primary menu items show the expand arrow
    pub primary_has_show_arrow: bool,
    /// used only for the first level of menu items
    pub primary_open_dir: OpenDirection,
    /// used for all other levels of menu items
    pub secondary_open_dir: OpenDirection,
    pub menu_style: MenuStyle,
    /// useful for right click menu
    pub make_invisible_on_closedown: bool,
    /// close the menubar on a click of a primary menu item
    pub close_on_primary_click: bool,
    /// whether the bar itself is shown
    pub visible: bool,
}

/// The index of the first item of `s` for which `f` holds.
pub open spec fn first_match<T>(s: Seq<T>, f: spec_fn(T) -> bool) -> Option<int>
    decreases s.len(),
{
    if s.len() == 0 {
        None
    } else {
        match first_match(s.drop_last(), f) {
            Some(i) => Some(i),
            None => if f(s.last()) {
                Some(s.len() - 1)
            } else {
                None
            },
        }
    }
}

/// The indices of the items of `s` for which `f` holds, in order.
pub open spec fn indices_where<T>(s: Seq<T>, f: spec_fn(T) -> bool) -> Seq<int>
    decreases s.len(),
{
    if s.len() == 0 {
        Seq::empty()
    } else {
        let rest = indices_where(s.drop_last(), f);
        if f(s.last()) {
            rest.push(s.len() - 1)
        } else {
            rest
        }
    }
}

/// The items with the item at `i` selected or not.
pub open spec fn with_selected(items: Seq<MenuItem>, i: int, b: bool) -> Seq<MenuItem> {
    items.update(i, MenuItem { is_selected: b, ..items[i] })
}

/// The items with every item that is not top-level hidden.
pub open spec fn collapsed(items: Seq<MenuItem>) -> Seq<MenuItem> {
    Seq::new(items.len(), |k: int| if primary(items[k]) { items[k] } else { MenuItem { visible: false, ..items[k] } })
}

/// The items with none selected.
pub open spec fn all_unselected(items: Seq<MenuItem>) -> Seq<MenuItem> {
    Seq::new(items.len(), |k: int| MenuItem { is_selected: false, ..items[k] })
}

/// The items after closing the menu down: items that are not top-level (all items, where the
/// menu is made invisible) hidden, the others unselected.
pub open spec fn closed_items(items: Seq<MenuItem>, make_invisible: bool) -> Seq<MenuItem> {
    Seq::new(
        items.len(),
        |k: int|
            if !primary(items[k]) || make_invisible {
                MenuItem { visible: false, ..items[k] }
            } else {
                MenuItem { is_selected: false, ..items[k] }
            },
    )
}

/// The items with every top-level item shown.
pub open spec fn primaries_shown(items: Seq<MenuItem>) -> Seq<MenuItem> {
    Seq::new(items.len(), |k: int| if primary(items[k]) { MenuItem { visible: true, ..items[k] } } else { items[k] })
}

/// The items directly in the folder at `parent`, in order.
pub open spec fn sub_items(items: Seq<MenuItem>, parent: int) -> Seq<int> {
    indices_where(items, |it: MenuItem| immediate_parent(items[parent].path.0@, it.path.0@))
}

/// The largest width that the items at `idxs` need, 0 for none.
pub open spec fn max_min_width(items: Seq<MenuItem>, idxs: Seq<int>, sty: MenuStyle, arrow: bool) -> usize
    decreases idxs.len(),
{
    if idxs.len() == 0 {
        0
    } else {
        let rest = max_min_width(items, idxs.drop_last(), sty, arrow);
        let w = spec_min_width(items[idxs.last()], sty, arrow);
        if w > rest {
            w
        } else {
            rest
        }
    }
}

/// The location after moving the location `l` for the `i`-th item of a folder that opens in
/// `dir`, `w` being the widest item of the folder and `pw` the width of the folder item itself;
/// every item is `w` wide. Coordinates wrap around on overflow.
pub open spec fn next_loc(l: MenuLoc, i: int, dir: OpenDirection, w: i32, pw: i32) -> MenuLoc {
    let ii = i as i32;
    let (x1, y1, y2) = match dir {
        OpenDirection::Up => (l.start_x, l.start_y.wrapping_sub(ii), l.end_y.wrapping_sub(ii)),
        OpenDirection::Down => (l.start_x, l.start_y.wrapping_add(1), l.end_y.wrapping_add(1)),
        OpenDirection::LeftThenDown => if i == 0 {
            (l.start_x.wrapping_sub(w), l.start_y, l.end_y)
        } else {
            (l.start_x, l.start_y.wrapping_add(1), l.end_y.wrapping_add(1))
        },
        OpenDirection::RightThenDown => if i == 0 {
            (l.start_x.wrapping_add(pw), l.start_y, l.end_y)
        } else {
            (l.start_x, l.start_y.wrapping_add(1), l.end_y.wrapping_add(1))
        },
        OpenDirection::LeftThenUp => if i == 0 {
            (l.start_x.wrapping_sub(w), l.start_y, l.end_y)
        } else {
            (l.start_x, l.start_y.wrapping_sub(1), l.end_y.wrapping_sub(1))
        },
        OpenDirection::RightThenUp => if i == 0 {
            (l.start_x.wrapping_add(pw), l.start_y, l.end_y)
        } else {
            (l.start_x, l.start_y.wrapping_sub(1), l.end_y.wrapping_sub(1))
        },
    };
    MenuLoc { start_x: x1, end_x: x1.wrapping_add(w), start_y: y1, end_y: y2 }
}

/// The locations of the `n` items of a folder at `parent` that opens in `dir`, one after the
/// other (see `next_loc`).
pub open spec fn folder_locs(parent: MenuLoc, n: nat, dir: OpenDirection, w: i32) -> Seq<MenuLoc>
    decreases n,
{
    if n == 0 {
        Seq::empty()
    } else {
        let prev = folder_locs(parent, (n - 1) as nat, dir, w);
        let from = if n == 1 { parent } else { prev.last() };
        prev.push(next_loc(from, n - 1, dir, w, parent.end_x.wrapping_sub(parent.start_x)))
    }
}

/// Where the items of a folder opening in `dir` go, each `w` wide and as high as the folder
/// item: downwards the first one row below the folder item; upwards the first on the folder
/// item's row; to the left or right the first beside it, at its left edge less `w` or at its
/// right edge. Each later item lies in the column of the one before, one row below it (down,
/// left then down, right then down), one row above it (left then up, right then up), or, opening
/// up, `k` rows above it for the `k`-th item.
pub proof fn lemma_folder_placement(parent: MenuLoc, n: nat, dir: OpenDirection, w: i32, k: int)
    requires
        0 <= k < n,
    ensures
        ({
            let ls = folder_locs(parent, n, dir, w);
            &&& ls.len() == n
            &&& ls[k].end_x == ls[k].start_x.wrapping_add(w)
            &&& k == 0 ==> match dir {
                OpenDirection::Up => ls[0].start_x == parent.start_x && ls[0].start_y == parent.start_y
                    && ls[0].end_y == parent.end_y,
                OpenDirection::Down => ls[0].start_x == parent.start_x && ls[0].start_y == parent.start_y.wrapping_add(1)
                    && ls[0].end_y == parent.end_y.wrapping_add(1),
                OpenDirection::LeftThenDown | OpenDirection::LeftThenUp => ls[0].start_x == parent.start_x.wrapping_sub(w)
                    && ls[0].start_y == parent.start_y && ls[0].end_y == parent.end_y,
                OpenDirection::RightThenDown | OpenDirection::RightThenUp => ls[0].start_x == parent.end_x
                    && ls[0].start_y == parent.start_y && ls[0].end_y == parent.end_y,
            }
            &&& k >= 1 ==> ls[k].start_x == ls[k - 1].start_x && match dir {
                OpenDirection::Up => ls[k].start_y == ls[k - 1].start_y.wrapping_sub(k as i32) && ls[k].end_y
                    == ls[k - 1].end_y.wrapping_sub(k as i32),
                OpenDirection::Down | OpenDirection::LeftThenDown | OpenDirection::RightThenDown => ls[k].start_y
                    == ls[k - 1].start_y.wrapping_add(1) && ls[k].end_y == ls[k - 1].end_y.wrapping_add(1),
                OpenDirection::LeftThenUp | OpenDirection::RightThenUp => ls[k].start_y == ls[k - 1].start_y.wrapping_sub(1)
                    && ls[k].end_y == ls[k - 1].end_y.wrapping_sub(1),
            }
        }),
    decreases n,
{
    let prev = folder_locs(parent, (n - 1) as nat, dir, w);
    if n > 1 {
        if k < n - 1 {
            lemma_folder_placement(parent, (n - 1) as nat, dir, w, k);
        } else {
            lemma_folder_placement(parent, (n - 1) as nat, dir, w, k - 1);
        }
    }
    if k == 0 {
        let pw = parent.end_x.wrapping_sub(parent.start_x);
        assert(parent.start_x.wrapping_add(pw) == parent.end_x);
    }
}

/// The items with the items at `idxs` shown at the locations `locs`, one after another.
pub open spec fn shown_at(items: Seq<MenuItem>, idxs: Seq<int>, locs: Seq<MenuLoc>) -> Seq<MenuItem>
    decreases idxs.len(),
{
    if idxs.len() == 0 || locs.len() == 0 {
        items
    } else {
        let prev = shown_at(items, idxs.drop_last(), locs.drop_last());
        prev.update(idxs.last(), MenuItem { visible: true, loc: locs.last(), ..prev[idxs.last()] })
    }
}

/// The items after expanding the folder at `parent` in `dir`: its items are shown, one after
/// the other from the folder item (see `folder_locs`), each as wide as the widest of them.
pub open spec fn expanded(items: Seq<MenuItem>, parent: int, dir: OpenDirection, sty: MenuStyle, arrow: bool) -> Seq<MenuItem> {
    let subs = sub_items(items, parent);
    let w = max_min_width(items, subs, sty, arrow) as i32;
    shown_at(items, subs, folder_locs(items[parent].loc, subs.len(), dir, w))
}

/// The item has the path `p`.
pub open spec fn has_path(p: Seq<char>) -> spec_fn(MenuItem) -> bool {
    |it: MenuItem| it.path.0@ == p
}

/// The item is selected.
pub open spec fn is_selected() -> spec_fn(MenuItem) -> bool {
    |it: MenuItem| it.is_selected
}

/// The item is a top-level one.
pub open spec fn is_primary() -> spec_fn(MenuItem) -> bool {
    |it: MenuItem| primary(it)
}

/// The item is directly in the folder with the path `p`.
pub open spec fn child_of(p: Seq<char>) -> spec_fn(MenuItem) -> bool {
    |it: MenuItem| immediate_parent(p, it.path.0@)
}

impl MenuBar {
    /// A horizontal bar at the top: top-level folders open downwards without an arrow, the
    /// others to the right; it is activated by a click and closes on a click of a top-level item.
    pub fn top_menu_bar() -> (b: MenuBar)
        ensures
            b.items@.len() == 0,
            b.horizontal_bar && !b.activated && !b.primary_has_show_arrow,
            b.primary_open_dir == OpenDirection::Down,
            b.secondary_open_dir == OpenDirection::RightThenDown,
            !b.make_invisible_on_closedown && b.close_on_primary_click && b.visible,
    {
        MenuBar {
            items: Vec::new(),
            horizontal_bar: true,
            activated: false,
            primary_has_show_arrow: false,
            primary_open_dir: OpenDirection::Down,
            secondary_open_dir: OpenDirection::RightThenDown,
            menu_style: MenuStyle::default(),
            make_invisible_on_closedown: false,
            close_on_primary_click: true,
            visible: true,
        }
    }

    /// A vertical menu for right clicks: always activated, every folder opens to the right with
    /// an arrow, and it disappears when closed.
    pub fn right_click_menu() -> (b: MenuBar)
        ensures
            b.items@.len() == 0,
            !b.horizontal_bar && b.activated && b.primary_has_show_arrow,
            b.primary_open_dir == OpenDirection::RightThenDown,
            b.secondary_open_dir == OpenDirection::RightThenDown,
            b.make_invisible_on_closedown && !b.close_on_primary_click && b.visible,
    {
        MenuBar {
            items: Vec::new(),
            horizontal_bar: false,
            activated: true,
            primary_has_show_arrow: true,
            primary_open_dir: OpenDirection::RightThenDown,
            secondary_open_dir: OpenDirection::RightThenDown,
            menu_style: MenuStyle::default(),
            make_invisible_on_closedown: true,
            close_on_primary_click: false,
            visible: true,
        }
    }

    /// This bar with the style `style`.
    pub fn with_menu_style(self, style: MenuStyle) -> (b: MenuBar)
        ensures
            b == (MenuBar { menu_style: style, ..self }),
    {
        MenuBar { menu_style: style, ..self }
    }

    /// The first selected item.
    pub fn get_selected_item(&self) -> (r: Option<usize>)
        ensures
            r matches Some(i) ==> first_match(self.items@, is_selected()) == Some(i as int) && i < self.items@.len(),
            r is None ==> first_match(self.items@, is_selected()) is None,
    {
        let ghost f = is_selected();
        let mut i: usize = 0;
        while i < self.items.len()
            invariant
                f == is_selected(),
                i <= self.items@.len(),
                first_match(self.items@.take(i as int), f) is None,
            decreases self.items@.len() - i,
        {
            proof {
                let t = self.items@.take(i + 1);
                assert(t.drop_last() =~= self.items@.take(i as int));
            }
            if self.items[i].is_selected {
                proof {
                    lemma_first_match_prefix(self.items@, f, (i + 1) as nat);
                }
                return Some(i);
            }
            i = i + 1;
        }
        proof {
            assert(self.items@.take(self.items@.len() as int) =~= self.items@);
        }
        None
    }

    /// The first item with the path `path`.
    pub fn get_menu_item_from_path(&self, path: &MenuPath) -> (r: Option<usize>)
        ensures
            r matches Some(i) ==> first_match(self.items@, has_path(path.0@)) == Some(i as int) && i < self.items@.len(),
            r is None ==> first_match(self.items@, has_path(path.0@)) is None,
    {
        let ghost f = has_path(path.0@);
        let mut i: usize = 0;
        while i < self.items.len()
            invariant
                f == has_path(path.0@),
                i <= self.items@.len(),
                first_match(self.items@.take(i as int), f) is None,
            decreases self.items@.len() - i,
        {
            proof {
                let t = self.items@.take(i + 1);
                assert(t.drop_last() =~= self.items@.take(i as int));
            }
            if self.items[i].path.0 == path.0 {
                proof {
                    lemma_first_match_prefix(self.items@, f, (i + 1) as nat);
                }
                return Some(i);
            }
            i = i + 1;
        }
        proof {
            assert(self.items@.take(self.items@.len() as int) =~= self.items@);
        }
        None
    }

    /// Whether an item has the path `path`.
    pub fn contains_menu_item(&self, path: &MenuPath) -> (r: bool)
        ensures
            r == first_match(self.items@, has_path(path.0@)) is Some,
    {
        self.get_menu_item_from_path(path).is_some()
    }

    /// Hides every item that is not top-level.
    pub fn collapse_non_primary(&mut self)
        ensures
            final(self).items@ == collapsed(old(self).items@),
            *final(self) == (MenuBar { items: final(self).items, ..*old(self) }),
    {
        let ghost c = self.items@;
        let mut i: usize = 0;
        while i < self.items.len()
            invariant
                self.items@.len() == c.len(),
                i <= c.len(),
                forall|k: int| 0 <= k < i ==> #[trigger] self.items@[k] == collapsed(c)[k],
                forall|k: int| i <= k < c.len() ==> #[trigger] self.items@[k] == c[k],
                *self == (MenuBar { items: self.items, ..*old(self) }),
            decreases c.len() - i,
        {
            if !self.items[i].is_primary() {
                self.items[i].visible = false;
            }
            i = i + 1;
        }
        assert(self.items@ =~= collapsed(c));
    }

    /// Unselects every item.
    pub fn deselect_all(&mut self)
        ensures
            final(self).items@ == all_unselected(old(self).items@),
            *final(self) == (MenuBar { items: final(self).items, ..*old(self) }),
    {
        let ghost c = self.items@;
        let mut i: usize = 0;
        while i < self.items.len()
            invariant
                self.items@.len() == c.len(),
                i <= c.len(),
                forall|k: int| 0 <= k < i ==> #[trigger] self.items@[k] == all_unselected(c)[k],
                forall|k: int| i <= k < c.len() ==> #[trigger] self.items@[k] == c[k],
                *self == (MenuBar { items: self.items, ..*old(self) }),
            decreases c.len() - i,
        {
            self.items[i].is_selected = false;
            i = i + 1;
        }
        assert(self.items@ =~= all_unselected(c));
    }

    /// Shows every top-level item (for a right click menu).
    pub fn make_primary_visible(&mut self)
        ensures
            final(self).items@ == primaries_shown(old(self).items@),
            *final(self) == (MenuBar { items: final(self).items, ..*old(self) }),
    {
        let ghost c = self.items@;
        let ghost want = Seq::new(
            c.len(),
            |k: int| if primary(c[k]) { MenuItem { visible: true, ..c[k] } } else { c[k] },
        );
        let mut i: usize = 0;
        while i < self.items.len()
            invariant
                self.items@.len() == c.len(),
                want == Seq::new(
                    c.len(),
                    |k: int| if primary(c[k]) { MenuItem { visible: true, ..c[k] } } else { c[k] },
                ),
                i <= c.len(),
                forall|k: int| 0 <= k < i ==> #[trigger] self.items@[k] == want[k],
                forall|k: int| i <= k < c.len() ==> #[trigger] self.items@[k] == c[k],
                *self == (MenuBar { items: self.items, ..*old(self) }),
            decreases c.len() - i,
        {
            if self.items[i].is_primary() {
                self.items[i].visible = true;
            }
            i = i + 1;
        }
        assert(self.items@ =~= want);
    }

    /// Closes the menu down: it is no longer activated, items that are not top-level are hidden
    /// and the others unselected, or, for a menu made invisible on closing, every item and the
    /// bar itself are hidden.
    pub fn closedown(&mut self)
        ensures
            final(self).items@ == closed_items(old(self).items@, old(self).make_invisible_on_closedown),
            *final(self) == (MenuBar {
                items: final(self).items,
                activated: false,
                visible: old(self).visible && !old(self).make_invisible_on_closedown,
                ..*old(self)
            }),
    {
        self.activated = false;
        let make_invis = self.make_invisible_on_closedown;
        let ghost c = self.items@;
        let ghost before = *self;
        let mut i: usize = 0;
        while i < self.items.len()
            invariant
                make_invis == old(self).make_invisible_on_closedown,
                self.items@.len() == c.len(),
                i <= c.len(),
                forall|k: int| 0 <= k < i ==> #[trigger] self.items@[k] == closed_items(c, make_invis)[k],
                forall|k: int| i <= k < c.len() ==> #[trigger] self.items@[k] == c[k],
                *self == (MenuBar { items: self.items, ..before }),
            decreases c.len() - i,
        {
            if !self.items[i].is_primary() || make_invis {
                self.items[i].visible = false;
            } else {
                self.items[i].is_selected = false;
            }
            i = i + 1;
        }
        assert(self.items@ =~= closed_items(c, make_invis));
        if make_invis {
            self.visible = false;
        }
    }

    /// Activates the bar, selecting the first top-level item where none is selected.
    pub fn activate(&mut self)
        ensures
            final(self).activated,
            match (first_match(old(self).items@, is_selected()), first_match(old(self).items@, is_primary())) {
                (None, Some(p)) => final(self).items@ == with_selected(old(self).items@, p, true),
                _ => final(self).items@ == old(self).items@,
            },
            *final(self) == (MenuBar { items: final(self).items, activated: true, ..*old(self) }),
    {
        self.activated = true;
        if self.get_selected_item().is_none() {
            let ghost f = is_primary();
            let mut i: usize = 0;
            while i < self.items.len()
                invariant
                    f == is_primary(),
                    i <= self.items@.len(),
                    self.items@ == old(self).items@,
                    first_match(old(self).items@, is_selected()) is None,
                    first_match(self.items@.take(i as int), f) is None,
                    *self == (MenuBar { items: self.items, activated: true, ..*old(self) }),
                decreases self.items@.len() - i,
            {
                proof {
                    let t = self.items@.take(i + 1);
                    assert(t.drop_last() =~= self.items@.take(i as int));
                }
                if self.items[i].is_primary() {
                    proof {
                        lemma_first_match_prefix(self.items@, f, (i + 1) as nat);
                    }
                    let ghost before = self.items@;
                    self.items[i].is_selected = true;
                    assert(self.items@ == with_selected(before, i as int, true));
                    return;
                }
                i = i + 1;
            }
            proof {
                assert(self.items@.take(self.items@.len() as int) =~= self.items@);
            }
        }
    }

    /// The first item directly in the folder at `parent`.
    pub fn get_first_subitem(&self, parent: usize) -> (r: Option<usize>)
        requires
            parent < self.items@.len(),
        ensures
            r matches Some(i) ==> first_match(self.items@, child_of(self.items@[parent as int].path.0@)) == Some(i as int)
                && i < self.items@.len(),
            r is None ==> first_match(self.items@, child_of(self.items@[parent as int].path.0@)) is None,
    {
        let ghost f = child_of(self.items@[parent as int].path.0@);
        let mut i: usize = 0;
        while i < self.items.len()
            invariant
                parent < self.items@.len(),
                f == child_of(self.items@[parent as int].path.0@),
                i <= self.items@.len(),
                first_match(self.items@.take(i as int), f) is None,
            decreases self.items@.len() - i,
        {
            proof {
                let t = self.items@.take(i + 1);
                assert(t.drop_last() =~= self.items@.take(i as int));
            }
            if self.items[parent].path.is_immediate_parent_of(&self.items[i].path) {
                proof {
                    lemma_first_match_prefix(self.items@, f, (i + 1) as nat);
                }
                return Some(i);
            }
            i = i + 1;
        }
        proof {
            assert(self.items@.take(self.items@.len() as int) =~= self.items@);
        }
        None
    }
}

/// Where the first match of a prefix is found by its last item, that is the first match of the
/// whole sequence.
pub(crate) proof fn lemma_first_match_prefix<T>(s: Seq<T>, f: spec_fn(T) -> bool, n: nat)
    requires
        0 < n <= s.len(),
        first_match(s.take(n - 1), f) is None,
        f(s[n - 1]),
    ensures
        first_match(s, f) == Some((n - 1) as int),
    decreases s.len() - n,
{
    let t = s.take(n as int);
    assert(t.drop_last() =~= s.take(n - 1));
    if n < s.len() {
        lemma_first_match_extend(s, f, n);
    } else {
        assert(t =~= s);
    }
}

/// A match found in a prefix stays the first match of the whole sequence.
proof fn lemma_first_match_extend<T>(s: Seq<T>, f: spec_fn(T) -> bool, n: nat)
    requires
        n <= s.len(),
        first_match(s.take(n as int), f) is Some,
    ensures
        first_match(s, f) == first_match(s.take(n as int), f),
    decreases s.len() - n,
{
    if n < s.len() {
        let t = s.take(n as int + 1);
        assert(t.drop_last() =~= s.take(n as int));
        lemma_first_match_extend(s, f, (n + 1) as nat);
    } else {
        assert(s.take(n as int) =~= s);
    }
}


/// The item is shown and in the folders `f`.
pub open spec fn sibling_of(f: Seq<Seq<char>>) -> spec_fn(MenuItem) -> bool {
    |it: MenuItem| it.visible && path_folders(it.path.0@) == f
}

/// The direction in which the folder `it` of the bar opens.
pub open spec fn open_dir(bar: MenuBar, it: MenuItem) -> OpenDirection {
    if primary(it) {
        bar.primary_open_dir
    } else {
        bar.secondary_open_dir
    }
}

/// The items after expanding the folder at `k` in its direction.
pub open spec fn expand_in(bar: MenuBar, items: Seq<MenuItem>, k: int) -> Seq<MenuItem> {
    expanded(items, k, open_dir(bar, items[k]), bar.menu_style, bar.primary_has_show_arrow)
}

/// The items after expanding, in turn, the first item with each of the `paths` (where there is
/// one).
pub open spec fn expand_along(bar: MenuBar, items: Seq<MenuItem>, paths: Seq<Seq<char>>) -> Seq<MenuItem>
    decreases paths.len(),
{
    if paths.len() == 0 {
        items
    } else {
        let prev = expand_along(bar, items, paths.drop_last());
        match first_match(prev, has_path(paths.last())) {
            Some(j) => expand_in(bar, prev, j),
            None => prev,
        }
    }
}

/// `b` has the items of `a` with the same paths and kinds (only where they are shown, whether
/// they are selected, and their locations may differ).
pub open spec fn same_items(a: Seq<MenuItem>, b: Seq<MenuItem>) -> bool {
    &&& b.len() == a.len()
    &&& forall|k: int|
        0 <= k < a.len() ==> {
            &&& (#[trigger] b[k]).path == a[k].path
            &&& b[k].is_folder == a[k].is_folder
            &&& b[k].selectable == a[k].selectable
            &&& b[k].show_folder_arrow == a[k].show_folder_arrow
        }
}

/// The items after selecting the item at `new` (unselecting the one at `old`): every menu that
/// is not top-level is closed, then the folders leading to the item are expanded, then the item
/// itself where it is a folder.
pub open spec fn select_expand(bar: MenuBar, items: Seq<MenuItem>, new: int, old: Option<int>) -> Seq<MenuItem> {
    let a = match old {
        Some(o) => with_selected(items, o, false),
        None => items,
    };
    let b = collapsed(with_selected(a, new, true));
    let c = expand_along(bar, b, folder_paths(b[new].path.0@));
    if c[new].is_folder {
        expand_in(bar, c, new)
    } else {
        c
    }
}

/// The top-level items, in order.
pub open spec fn primaries(items: Seq<MenuItem>) -> Seq<int> {
    indices_where(items, is_primary())
}

/// The value is `k`.
pub open spec fn equals(k: int) -> spec_fn(int) -> bool {
    |x: int| x == k
}

/// The first position of `k` among `idxs`, 0 where it is not there.
pub open spec fn pos_in(idxs: Seq<int>, k: int) -> int {
    match first_match(idxs, equals(k)) {
        Some(i) => i,
        None => 0,
    }
}

/// The items after selecting the top-level item after (or before) the selected one, going
/// around; where it is a folder it is expanded in the top-level direction.
pub open spec fn primary_step(bar: MenuBar, items: Seq<MenuItem>, forward: bool) -> Seq<MenuItem> {
    let ps = primaries(items);
    if ps.len() == 0 {
        items
    } else {
        let (cur, a) = match first_match(items, is_selected()) {
            Some(c) => (pos_in(ps, c), with_selected(items, c, false)),
            None => (0int, items),
        };
        let n = if forward {
            (cur + 1) % (ps.len() as int)
        } else if cur == 0 {
            ps.len() - 1
        } else {
            cur - 1
        };
        let b = collapsed(with_selected(a, ps[n], true));
        if b[ps[n]].is_folder {
            expanded(b, ps[n], bar.primary_open_dir, bar.menu_style, bar.primary_has_show_arrow)
        } else {
            b
        }
    }
}

/// The items after expanding the selected item where it is a folder.
pub open spec fn expand_current(bar: MenuBar, items: Seq<MenuItem>) -> Seq<MenuItem> {
    match first_match(items, is_selected()) {
        Some(c) => if items[c].is_folder {
            expand_in(bar, items, c)
        } else {
            items
        },
        None => items,
    }
}

proof fn lemma_folder_locs_len(parent: MenuLoc, n: nat, dir: OpenDirection, w: i32)
    ensures
        folder_locs(parent, n, dir, w).len() == n,
    decreases n,
{
    if n > 0 {
        lemma_folder_locs_len(parent, (n - 1) as nat, dir, w);
    }
}

/// The two bars open and measure their menus the same way.
pub open spec fn same_config(a: MenuBar, b: MenuBar) -> bool {
    &&& a.primary_open_dir == b.primary_open_dir
    &&& a.secondary_open_dir == b.secondary_open_dir
    &&& a.menu_style == b.menu_style
    &&& a.primary_has_show_arrow == b.primary_has_show_arrow
}

proof fn lemma_expand_along_config(a: MenuBar, b: MenuBar, items: Seq<MenuItem>, paths: Seq<Seq<char>>)
    requires
        same_config(a, b),
    ensures
        expand_along(a, items, paths) == expand_along(b, items, paths),
    decreases paths.len(),
{
    if paths.len() > 0 {
        lemma_expand_along_config(a, b, items, paths.drop_last());
    }
}

proof fn lemma_select_expand_config(a: MenuBar, b: MenuBar, items: Seq<MenuItem>, new: int, old: Option<int>)
    requires
        same_config(a, b),
    ensures
        select_expand(a, items, new, old) == select_expand(b, items, new, old),
{
    let x = match old {
        Some(o) => with_selected(items, o, false),
        None => items,
    };
    let y = collapsed(with_selected(x, new, true));
    lemma_expand_along_config(a, b, y, folder_paths(y[new].path.0@));
}

proof fn lemma_folder_locs_prefix(parent: MenuLoc, m: nat, n: nat, dir: OpenDirection, w: i32)
    requires
        n <= m,
    ensures
        folder_locs(parent, m, dir, w).take(n as int) == folder_locs(parent, n, dir, w),
    decreases m,
{
    lemma_folder_locs_len(parent, m, dir, w);
    lemma_folder_locs_len(parent, n, dir, w);
    if n < m {
        lemma_folder_locs_prefix(parent, (m - 1) as nat, n, dir, w);
        let f = folder_locs(parent, m, dir, w);
        assert(f.take(n as int) =~= f.drop_last().take(n as int));
    } else {
        assert(folder_locs(parent, m, dir, w).take(n as int) =~= folder_locs(parent, m, dir, w));
    }
}

proof fn lemma_indices_where<T>(s: Seq<T>, f: spec_fn(T) -> bool)
    ensures
        forall|i: int| 0 <= i < indices_where(s, f).len() ==> 0 <= #[trigger] indices_where(s, f)[i] < s.len(),
        forall|i: int| 0 <= i < indices_where(s, f).len() ==> f(s[#[trigger] indices_where(s, f)[i]]),
    decreases s.len(),
{
    if s.len() > 0 {
        lemma_indices_where(s.drop_last(), f);
        let r = indices_where(s.drop_last(), f);
        assert forall|i: int| 0 <= i < r.len() implies s[r[i]] == s.drop_last()[r[i]] by {}
    }
}

proof fn lemma_first_match_bound<T>(s: Seq<T>, f: spec_fn(T) -> bool)
    ensures
        first_match(s, f) matches Some(i) ==> 0 <= i < s.len() && f(s[i]),
    decreases s.len(),
{
    if s.len() > 0 {
        lemma_first_match_bound(s.drop_last(), f);
    }
}

proof fn lemma_shown_at_same(items: Seq<MenuItem>, idxs: Seq<int>, locs: Seq<MenuLoc>)
    requires
        forall|i: int| 0 <= i < idxs.len() ==> 0 <= #[trigger] idxs[i] < items.len(),
    ensures
        same_items(items, shown_at(items, idxs, locs)),
    decreases idxs.len(),
{
    if idxs.len() > 0 && locs.len() > 0 {
        lemma_shown_at_same(items, idxs.drop_last(), locs.drop_last());
    }
}

proof fn lemma_expanded_same(items: Seq<MenuItem>, parent: int, dir: OpenDirection, sty: MenuStyle, arrow: bool)
    ensures
        same_items(items, expanded(items, parent, dir, sty, arrow)),
{
    let subs = sub_items(items, parent);
    lemma_indices_where(items, child_of(items[parent].path.0@));
    assert(subs == indices_where(items, child_of(items[parent].path.0@)));
    let w = max_min_width(items, subs, sty, arrow) as i32;
    lemma_shown_at_same(items, subs, folder_locs(items[parent].loc, subs.len(), dir, w));
}

proof fn lemma_same_items_trans(a: Seq<MenuItem>, b: Seq<MenuItem>, c: Seq<MenuItem>)
    requires
        same_items(a, b),
        same_items(b, c),
    ensures
        same_items(a, c),
{
    assert forall|k: int| 0 <= k < a.len() implies (#[trigger] c[k]).path == a[k].path && c[k].is_folder
        == a[k].is_folder && c[k].selectable == a[k].selectable && c[k].show_folder_arrow
        == a[k].show_folder_arrow by {
        assert(b[k].path == a[k].path);
        assert(c[k].path == b[k].path);
    }
}

proof fn lemma_expand_along_same(bar: MenuBar, items: Seq<MenuItem>, paths: Seq<Seq<char>>)
    ensures
        same_items(items, expand_along(bar, items, paths)),
    decreases paths.len(),
{
    if paths.len() > 0 {
        lemma_expand_along_same(bar, items, paths.drop_last());
        let prev = expand_along(bar, items, paths.drop_last());
        match first_match(prev, has_path(paths.last())) {
            Some(j) => {
                lemma_expanded_same(prev, j, open_dir(bar, prev[j]), bar.menu_style, bar.primary_has_show_arrow);
                lemma_same_items_trans(items, prev, expand_along(bar, items, paths));
            },
            None => {},
        }
    }
}


/// The location of the `i`-th item of a folder after `l` (see `next_loc`).
fn step_loc(l: MenuLoc, i: usize, dir: OpenDirection, w: i32, pw: i32) -> (r: MenuLoc)
    ensures
        r == next_loc(l, i as int, dir, w, pw),
{
    let ii = i as i32;
    let (x1, y1, y2) = match dir {
        OpenDirection::Up => (l.start_x, l.start_y.wrapping_sub(ii), l.end_y.wrapping_sub(ii)),
        OpenDirection::Down => (l.start_x, l.start_y.wrapping_add(1), l.end_y.wrapping_add(1)),
        OpenDirection::LeftThenDown => if i == 0 {
            (l.start_x.wrapping_sub(w), l.start_y, l.end_y)
        } else {
            (l.start_x, l.start_y.wrapping_add(1), l.end_y.wrapping_add(1))
        },
        OpenDirection::RightThenDown => if i == 0 {
            (l.start_x.wrapping_add(pw), l.start_y, l.end_y)
        } else {
            (l.start_x, l.start_y.wrapping_add(1), l.end_y.wrapping_add(1))
        },
        OpenDirection::LeftThenUp => if i == 0 {
            (l.start_x.wrapping_sub(w), l.start_y, l.end_y)
        } else {
            (l.start_x, l.start_y.wrapping_sub(1), l.end_y.wrapping_sub(1))
        },
        OpenDirection::RightThenUp => if i == 0 {
            (l.start_x.wrapping_add(pw), l.start_y, l.end_y)
        } else {
            (l.start_x, l.start_y.wrapping_sub(1), l.end_y.wrapping_sub(1))
        },
    };
    MenuLoc { start_x: x1, end_x: x1.wrapping_add(w), start_y: y1, end_y: y2 }
}

/// One more item shown: the items shown at the first `n + 1` locations.
proof fn lemma_shown_at_step(items: Seq<MenuItem>, idxs: Seq<int>, locs: Seq<MenuLoc>, n: int)
    requires
        0 <= n < idxs.len(),
        n < locs.len(),
    ensures
        shown_at(items, idxs.take(n + 1), locs.take(n + 1)) == ({
            let prev = shown_at(items, idxs.take(n), locs.take(n));
            prev.update(idxs[n], MenuItem { visible: true, loc: locs[n], ..prev[idxs[n]] })
        }),
{
    let t = idxs.take(n + 1);
    let l = locs.take(n + 1);
    assert(t.drop_last() =~= idxs.take(n));
    assert(l.drop_last() =~= locs.take(n));
}

/// Whether the two lists of strings are the same.
fn same_strings(a: &Vec<String>, b: &Vec<String>) -> (r: bool)
    ensures
        r == (a@.map_values(|p: String| p@) == b@.map_values(|p: String| p@)),
{
    let ghost av = a@.map_values(|p: String| p@);
    let ghost bv = b@.map_values(|p: String| p@);
    if a.len() != b.len() {
        assert(av.len() != bv.len());
        return false;
    }
    let mut i: usize = 0;
    while i < a.len()
        invariant
            av == a@.map_values(|p: String| p@),
            bv == b@.map_values(|p: String| p@),
            a@.len() == b@.len(),
            i <= a@.len(),
            forall|k: int| 0 <= k < i ==> av[k] == bv[k],
        decreases a@.len() - i,
    {
        if a[i] != b[i] {
            assert(av[i as int] != bv[i as int]);
            return false;
        }
        i = i + 1;
    }
    assert(av =~= bv);
    true
}

impl MenuBar {
    /// The shown items in the same folders as the item at `cur`, in order.
    pub fn get_visible_siblings(&self, cur: usize) -> (r: Vec<usize>)
        requires
            cur < self.items@.len(),
        ensures
            r@.map_values(|i: usize| i as int) == indices_where(
                self.items@,
                sibling_of(path_folders(self.items@[cur as int].path.0@)),
            ),
    {
        let f = self.items[cur].path.folders();
        let ghost fv = path_folders(self.items@[cur as int].path.0@);
        let ghost g = sibling_of(fv);
        let mut out: Vec<usize> = Vec::new();
        let mut i: usize = 0;
        while i < self.items.len()
            invariant
                f@.map_values(|p: String| p@) == fv,
                g == sibling_of(fv),
                i <= self.items@.len(),
                out@.map_values(|i: usize| i as int) == indices_where(self.items@.take(i as int), g),
            decreases self.items@.len() - i,
        {
            proof {
                let t = self.items@.take(i + 1);
                assert(t.drop_last() =~= self.items@.take(i as int));
            }
            let ghost before = out@;
            if self.items[i].visible {
                let fi = self.items[i].path.folders();
                if same_strings(&fi, &f) {
                    out.push(i);
                    assert(out@.map_values(|i: usize| i as int) =~= before.map_values(|i: usize| i as int).push(i as int));
                }
            }
            i = i + 1;
        }
        proof {
            assert(self.items@.take(self.items@.len() as int) =~= self.items@);
        }
        out
    }

    /// The direction in which the folder at `k` opens.
    fn dir_of(&self, k: usize) -> (d: OpenDirection)
        requires
            k < self.items@.len(),
        ensures
            d == open_dir(*self, self.items@[k as int]),
    {
        if self.items[k].is_primary() {
            self.primary_open_dir
        } else {
            self.secondary_open_dir
        }
    }

    /// Shows the items directly in the folder at `parent`, one after the other from it in the
    /// direction `dir`, each as wide as the widest of them (see `expanded`).
    pub fn expand_folder(&mut self, parent: usize, dir: OpenDirection)
        requires
            parent < old(self).items@.len(),
        ensures
            final(self).items@ == expanded(
                old(self).items@,
                parent as int,
                dir,
                old(self).menu_style,
                old(self).primary_has_show_arrow,
            ),
            *final(self) == (MenuBar { items: final(self).items, ..*old(self) }),
    {
        let ghost items0 = self.items@;
        let ghost fchild = child_of(items0[parent as int].path.0@);
        let mut subs: Vec<usize> = Vec::new();
        let mut i: usize = 0;
        while i < self.items.len()
            invariant
                self.items@ == items0,
                parent < items0.len(),
                fchild == child_of(items0[parent as int].path.0@),
                i <= items0.len(),
                subs@.map_values(|i: usize| i as int) == indices_where(items0.take(i as int), fchild),
            decreases items0.len() - i,
        {
            proof {
                let t = items0.take(i + 1);
                assert(t.drop_last() =~= items0.take(i as int));
            }
            let ghost before = subs@;
            if self.items[parent].path.is_immediate_parent_of(&self.items[i].path) {
                subs.push(i);
                assert(subs@.map_values(|i: usize| i as int) =~= before.map_values(|i: usize| i as int).push(i as int));
            }
            i = i + 1;
        }
        let ghost sv = subs@.map_values(|i: usize| i as int);
        proof {
            assert(items0.take(items0.len() as int) =~= items0);
            assert(sv == sub_items(items0, parent as int));
            lemma_indices_where(items0, fchild);
        }
        let arrow = self.primary_has_show_arrow;
        let mut w: usize = 0;
        let mut k: usize = 0;
        while k < subs.len()
            invariant
                self.items@ == items0,
                sv == subs@.map_values(|i: usize| i as int),
                sv == sub_items(items0, parent as int),
                forall|ii: int| 0 <= ii < sv.len() ==> 0 <= #[trigger] sv[ii] < items0.len(),
                arrow == self.primary_has_show_arrow,
                k <= sv.len(),
                w == max_min_width(items0, sv.take(k as int), self.menu_style, arrow),
            decreases sv.len() - k,
        {
            proof {
                let t = sv.take(k + 1);
                assert(t.drop_last() =~= sv.take(k as int));
                assert(sv[k as int] == subs@[k as int] as int);
            }
            let mw = self.items[subs[k]].min_width(&self.menu_style, arrow);
            if mw > w {
                w = mw;
            }
            k = k + 1;
        }
        proof {
            assert(sv.take(sv.len() as int) =~= sv);
        }
        let w32 = w as i32;
        let ploc = self.items[parent].loc;
        let pw = ploc.end_x.wrapping_sub(ploc.start_x);
        let mut loc = ploc;
        let ghost before = *self;
        let ghost all_locs = folder_locs(ploc, sv.len(), dir, w32);
        proof {
            lemma_folder_locs_len(ploc, sv.len(), dir, w32);
            assert(sv.take(0) =~= Seq::<int>::empty());
            assert(all_locs.take(0) =~= Seq::<MenuLoc>::empty());
        }
        let mut n: usize = 0;
        while n < subs.len()
            invariant
                sv == subs@.map_values(|i: usize| i as int),
                sv == sub_items(items0, parent as int),
                forall|ii: int| 0 <= ii < sv.len() ==> 0 <= #[trigger] sv[ii] < items0.len(),
                parent < items0.len(),
                ploc == items0[parent as int].loc,
                pw == ploc.end_x.wrapping_sub(ploc.start_x),
                w32 == max_min_width(items0, sv, before.menu_style, before.primary_has_show_arrow) as i32,
                all_locs == folder_locs(ploc, sv.len(), dir, w32),
                all_locs.len() == sv.len(),
                n <= sv.len(),
                loc == (if n == 0 { ploc } else { all_locs[n - 1] }),
                self.items@ == shown_at(items0, sv.take(n as int), all_locs.take(n as int)),
                self.items@.len() == items0.len(),
                *self == (MenuBar { items: self.items, ..before }),
                before == (MenuBar { items: before.items, ..*old(self) }),
            decreases sv.len() - n,
        {
            proof {
                lemma_folder_locs_prefix(ploc, sv.len(), (n + 1) as nat, dir, w32);
                lemma_folder_locs_prefix(ploc, sv.len(), n as nat, dir, w32);
                lemma_folder_locs_len(ploc, n as nat, dir, w32);
                let fl = folder_locs(ploc, (n + 1) as nat, dir, w32);
                assert(fl.drop_last() == folder_locs(ploc, n as nat, dir, w32));
                if n > 0 {
                    assert(folder_locs(ploc, n as nat, dir, w32).last() == all_locs[n - 1]);
                }
                assert(fl.last() == all_locs[n as int]);
            }
            loc = step_loc(loc, n, dir, w32, pw);
            let k = subs[n];
            assert(k as int == sv[n as int]);
            self.items[k].loc = loc;
            self.items[k].visible = true;
            proof {
                lemma_shown_at_step(items0, sv, all_locs, n as int);
                lemma_shown_at_same(items0, sv.take(n + 1), all_locs.take(n + 1));
            }
            n = n + 1;
        }
        proof {
            assert(sv.take(sv.len() as int) =~= sv);
            assert(all_locs.take(sv.len() as int) =~= all_locs);
        }
    }
}


impl MenuBar {
    /// Expands every folder that leads to the item at `k`, the outermost first, each in its own
    /// direction (see `expand_along`).
    pub fn expand_up_to_item(&mut self, k: usize)
        requires
            k < old(self).items@.len(),
        ensures
            final(self).items@ == expand_along(
                *old(self),
                old(self).items@,
                folder_paths(old(self).items@[k as int].path.0@),
            ),
            *final(self) == (MenuBar { items: final(self).items, ..*old(self) }),
    {
        let fps = self.items[k].path.folder_paths();
        let ghost ps = fps@.map_values(|p: String| p@);
        let ghost items0 = self.items@;
        let ghost bar0 = *self;
        let mut i: usize = 0;
        while i < fps.len()
            invariant
                ps == fps@.map_values(|p: String| p@),
                bar0 == *old(self),
                i <= ps.len(),
                self.items@ == expand_along(bar0, items0, ps.take(i as int)),
                *self == (MenuBar { items: self.items, ..bar0 }),
            decreases ps.len() - i,
        {
            proof {
                let t = ps.take(i + 1);
                assert(t.drop_last() =~= ps.take(i as int));
                assert(t.last() == fps@[i as int]@);
            }
            let mp = MenuPath(fps[i].clone());
            match self.get_menu_item_from_path(&mp) {
                Some(j) => {
                    proof {
                        lemma_first_match_bound(self.items@, has_path(mp.0@));
                        assert(mp.0@ == ps[i as int]);
                    }
                    let d = self.dir_of(j);
                    let ghost cur = self.items@;
                    self.expand_folder(j, d);
                    proof {
                        let t = ps.take(i + 1);
                        assert(first_match(cur, has_path(t.last())) == Some(j as int));
                        assert(self.items@ == expand_in(bar0, cur, j as int));
                    }
                },
                None => {},
            }
            i = i + 1;
        }
        proof {
            assert(ps.take(ps.len() as int) =~= ps);
        }
    }

    /// Selects the item at `new` (unselecting the one at `prev`) and opens the menus up to it
    /// (see `select_expand`).
    pub fn select_and_expand_item(&mut self, new: usize, prev: Option<usize>)
        requires
            new < old(self).items@.len(),
            prev matches Some(o) ==> o < old(self).items@.len(),
        ensures
            final(self).items@ == select_expand(
                *old(self),
                old(self).items@,
                new as int,
                match prev {
                    Some(o) => Some(o as int),
                    None => None,
                },
            ),
            *final(self) == (MenuBar { items: final(self).items, ..*old(self) }),
    {
        let ghost bar0 = *self;
        if let Some(o) = prev {
            self.items[o].is_selected = false;
        }
        self.items[new].is_selected = true;
        self.collapse_non_primary();
        let ghost b = self.items@;
        let ghost bar1 = *self;
        self.expand_up_to_item(new);
        proof {
            lemma_expand_along_same(bar1, b, folder_paths(b[new as int].path.0@));
            lemma_expand_along_config(bar0, bar1, b, folder_paths(b[new as int].path.0@));
        }
        if self.items[new].is_folder {
            let d = self.dir_of(new);
            self.expand_folder(new, d);
        }
    }

    /// Expands the selected item where it is a folder (see `expand_current`).
    pub fn expand_current_submenu(&mut self)
        ensures
            final(self).items@ == expand_current(*old(self), old(self).items@),
            *final(self) == (MenuBar { items: final(self).items, ..*old(self) }),
    {
        match self.get_selected_item() {
            Some(c) => {
                proof {
                    lemma_first_match_bound(self.items@, is_selected());
                }
                if self.items[c].is_folder {
                    let d = self.dir_of(c);
                    self.expand_folder(c, d);
                }
            },
            None => {},
        }
    }

    /// The top-level items, in order.
    fn primary_items(&self) -> (r: Vec<usize>)
        ensures
            r@.map_values(|i: usize| i as int) == primaries(self.items@),
            forall|i: int| 0 <= i < r@.len() ==> (#[trigger] r@[i]) < self.items@.len(),
    {
        let mut out: Vec<usize> = Vec::new();
        let mut i: usize = 0;
        while i < self.items.len()
            invariant
                i <= self.items@.len(),
                out@.map_values(|i: usize| i as int) == indices_where(self.items@.take(i as int), is_primary()),
                forall|k: int| 0 <= k < out@.len() ==> (#[trigger] out@[k]) < i,
            decreases self.items@.len() - i,
        {
            proof {
                let t = self.items@.take(i + 1);
                assert(t.drop_last() =~= self.items@.take(i as int));
            }
            let ghost before = out@;
            if self.items[i].is_primary() {
                out.push(i);
                assert(out@.map_values(|i: usize| i as int) =~= before.map_values(|i: usize| i as int).push(i as int));
            }
            i = i + 1;
        }
        proof {
            assert(self.items@.take(self.items@.len() as int) =~= self.items@);
        }
        out
    }

    /// Unselects the selected item and gives its position among the top-level items `ps` (0
    /// where there is none or it is not top-level).
    fn unselect_current(&mut self, ps: &Vec<usize>) -> (cur: usize)
        requires
            ps@.map_values(|i: usize| i as int) == primaries(old(self).items@),
            ps@.len() > 0,
        ensures
            cur < ps@.len(),
            final(self).items@.len() == old(self).items@.len(),
            match first_match(old(self).items@, is_selected()) {
                Some(c) => cur == pos_in(primaries(old(self).items@), c) && final(self).items@ == with_selected(
                    old(self).items@,
                    c,
                    false,
                ),
                None => cur == 0 && final(self).items@ == old(self).items@,
            },
            *final(self) == (MenuBar { items: final(self).items, ..*old(self) }),
    {
        let ghost psv = ps@.map_values(|i: usize| i as int);
        match self.get_selected_item() {
            Some(c) => {
                self.items[c].is_selected = false;
                let mut p: usize = 0;
                let mut found = false;
                let ghost eq = equals(c as int);
                while p < ps.len() && !found
                    invariant
                        psv == ps@.map_values(|i: usize| i as int),
                        eq == equals(c as int),
                        p <= ps@.len(),
                        first_match(psv.take(p as int), eq) is None,
                        found ==> p < ps@.len() && psv[p as int] == c as int,
                    decreases ps@.len() - p + (if found { 0int } else { 1int }),
                {
                    if ps[p] == c {
                        found = true;
                    } else {
                        proof {
                            let t = psv.take(p + 1);
                            assert(t.drop_last() =~= psv.take(p as int));
                        }
                        p = p + 1;
                    }
                }
                proof {
                    if found {
                        lemma_first_match_prefix(psv, eq, (p + 1) as nat);
                    } else {
                        assert(psv.take(psv.len() as int) =~= psv);
                    }
                }
                if found { p } else { 0 }
            },
            None => 0,
        }
    }

    /// Selects the top-level item after (`forward`) or before the selected one, going around,
    /// and expands it where it is a folder (see `primary_step`).
    #[verifier::spinoff_prover]
    #[verifier::rlimit(60)]
    fn step_primary(&mut self, forward: bool)
        ensures
            final(self).items@ == primary_step(*old(self), old(self).items@, forward),
            *final(self) == (MenuBar { items: final(self).items, ..*old(self) }),
    {
        let ps = self.primary_items();
        if ps.len() == 0 {
            return;
        }
        let ghost psv = ps@.map_values(|i: usize| i as int);
        let cur = self.unselect_current(&ps);
        let n = if forward {
            (cur + 1) % ps.len()
        } else if cur == 0 {
            ps.len() - 1
        } else {
            cur - 1
        };
        let k = ps[n];
        assert(k as int == psv[n as int]);
        assert(k < self.items@.len());
        self.items[k].is_selected = true;
        self.collapse_non_primary();
        assert(k < self.items@.len());
        if self.items[k].is_folder {
            let d = self.primary_open_dir;
            self.expand_folder(k, d);
        }
    }

    /// Selects the top-level item before the selected one, going around.
    pub fn select_prev_primary(&mut self)
        ensures
            final(self).items@ == primary_step(*old(self), old(self).items@, false),
            *final(self) == (MenuBar { items: final(self).items, ..*old(self) }),
    {
        self.step_primary(false)
    }

    /// Selects the top-level item after the selected one, going around.
    pub fn select_next_primary(&mut self)
        ensures
            final(self).items@ == primary_step(*old(self), old(self).items@, true),
            *final(self) == (MenuBar { items: final(self).items, ..*old(self) }),
    {
        self.step_primary(true)
    }
}


/// A key that a menu bar reacts to.
#[derive(Clone, Copy, PartialEq, Eq, Debug, Structural)]
pub enum MenuKey {
    Left,
    Right,
    Up,
    Down,
    Enter,
    Esc,
    Other,
}

/// The index as an integer.
pub open spec fn opt_int(o: Option<usize>) -> Option<int> {
    match o {
        Some(i) => Some(i as int),
        None => None,
    }
}

/// The item of the folder that holds the item at `c`, where there is one.
pub open spec fn parent_of(items: Seq<MenuItem>, c: int) -> Option<int> {
    let f = path_folders(items[c].path.0@);
    if f.len() == 0 {
        None
    } else {
        first_match(items, has_path(join_slash(f)))
    }
}

/// The items after going into the selected folder `c`: it is expanded and its first item
/// selected (where it has one).
pub open spec fn enter_folder(bar: MenuBar, items: Seq<MenuItem>, c: int) -> Seq<MenuItem> {
    let a = expand_current(bar, items);
    match first_match(a, child_of(a[c].path.0@)) {
        Some(s) => select_expand(bar, a, s, Some(c)),
        None => a,
    }
}

/// The items after the left key, `cur` being the selected item and `isp` whether it is
/// top-level (or there is none): on a horizontal bar at the top level the previous top-level
/// item is selected; below the top level, the folder holding the item is selected (but not a
/// top-level one on a horizontal bar).
pub open spec fn left_step(bar: MenuBar, items: Seq<MenuItem>, cur: Option<int>, isp: bool) -> Seq<MenuItem> {
    if bar.horizontal_bar && isp {
        primary_step(bar, items, false)
    } else {
        match cur {
            None => items,
            Some(c) => if isp {
                items
            } else {
                match parent_of(items, c) {
                    None => items,
                    Some(p) => if primary(items[p]) && bar.horizontal_bar {
                        items
                    } else {
                        select_expand(bar, items, p, Some(c))
                    },
                }
            },
        }
    }
}

/// The items after the right key: on a horizontal bar at the top level the next top-level
/// item is selected; otherwise a selected folder is entered.
pub open spec fn right_step(bar: MenuBar, items: Seq<MenuItem>, cur: Option<int>, isp: bool) -> Seq<MenuItem> {
    if bar.horizontal_bar && isp {
        primary_step(bar, items, true)
    } else {
        match cur {
            None => items,
            Some(c) => if !items[c].is_folder {
                items
            } else {
                enter_folder(bar, items, c)
            },
        }
    }
}

/// The items after the up key: at the top level of a vertical bar the previous top-level item
/// is selected; below it, the first item of a top-level folder of a horizontal bar goes back
/// to the folder, and any other item selects the shown item before it in its folder (not going
/// around).
pub open spec fn up_step(bar: MenuBar, items: Seq<MenuItem>, cur: Option<int>, isp: bool) -> Seq<MenuItem> {
    if isp {
        if !bar.horizontal_bar {
            primary_step(bar, items, false)
        } else {
            items
        }
    } else {
        match cur {
            None => items,
            Some(c) => {
                let back = if bar.horizontal_bar {
                    match parent_of(items, c) {
                        Some(p) => if primary(items[p]) && first_match(items, child_of(items[p].path.0@)) == Some(c) {
                            Some(p)
                        } else {
                            None
                        },
                        None => None,
                    }
                } else {
                    None
                };
                match back {
                    Some(p) => select_expand(bar, items, p, Some(c)),
                    None => {
                        let sib = indices_where(items, sibling_of(path_folders(items[c].path.0@)));
                        let ci = pos_in(sib, c);
                        if sib.len() == 0 || ci == 0 {
                            items
                        } else {
                            select_expand(bar, items, sib[ci - 1], Some(c))
                        }
                    },
                }
            },
        }
    }
}

/// The items after the down key: at the top level of a horizontal bar a selected folder is
/// entered, at the top level of a vertical bar the next top-level item is selected; below it,
/// the shown item after the selected one in its folder is selected (not going around).
pub open spec fn down_step(bar: MenuBar, items: Seq<MenuItem>, cur: Option<int>, isp: bool) -> Seq<MenuItem> {
    if isp {
        if bar.horizontal_bar {
            match cur {
                None => items,
                Some(c) => if !items[c].is_folder {
                    items
                } else {
                    enter_folder(bar, items, c)
                },
            }
        } else {
            primary_step(bar, items, true)
        }
    } else {
        match cur {
            None => items,
            Some(c) => {
                let sib = indices_where(items, sibling_of(path_folders(items[c].path.0@)));
                let ci = pos_in(sib, c);
                if sib.len() == 0 || ci + 1 >= sib.len() {
                    items
                } else {
                    select_expand(bar, items, sib[ci + 1], Some(c))
                }
            },
        }
    }
}

/// The items after closing every menu below the top level and unselecting every item.
pub open spec fn reset_items(items: Seq<MenuItem>) -> Seq<MenuItem> {
    all_unselected(collapsed(items))
}

/// What a key does to an activated bar (see `MenuBar::receive_key_event`): the items after it,
/// whether the bar stays activated, and the item chosen (whose action is to run).
pub open spec fn key_step(bar: MenuBar, key: MenuKey) -> (Seq<MenuItem>, bool, Option<int>) {
    let items = bar.items@;
    let cur = first_match(items, is_selected());
    let isp = match cur {
        Some(c) => primary(items[c]),
        None => true,
    };
    match key {
        MenuKey::Left => (left_step(bar, items, cur, isp), true, None),
        MenuKey::Right => (right_step(bar, items, cur, isp), true, None),
        MenuKey::Up => (up_step(bar, items, cur, isp), true, None),
        MenuKey::Down => (down_step(bar, items, cur, isp), true, None),
        MenuKey::Enter => match cur {
            None => (items, true, None),
            Some(c) => if items[c].is_folder {
                (
                    if bar.horizontal_bar && isp {
                        enter_folder(bar, items, c)
                    } else {
                        expand_current(bar, items)
                    },
                    true,
                    None,
                )
            } else if !items[c].selectable {
                (items, true, None)
            } else {
                (reset_items(items), false, Some(c))
            },
        },
        MenuKey::Esc => (reset_items(items), false, None),
        MenuKey::Other => (items, true, None),
    }
}


impl MenuBar {
    /// The item of the folder that holds the item at `c` (see `parent_of`).
    fn parent_item(&self, c: usize) -> (r: Option<usize>)
        requires
            c < self.items@.len(),
        ensures
            opt_int(r) == parent_of(self.items@, c as int),
            r matches Some(p) ==> p < self.items@.len(),
    {
        let f = self.items[c].path.folders();
        if f.len() == 0 {
            return None;
        }
        let pp = join_parts(&f, f.len());
        proof {
            let fv = f@.map_values(|p: String| p@);
            assert(fv.take(fv.len() as int) =~= fv);
        }
        let r = self.get_menu_item_from_path(&MenuPath(pp));
        r
    }

    /// Expands the selected folder at `c` and selects its first item, where it has one (see
    /// `enter_folder`).
    fn enter_folder(&mut self, c: usize)
        requires
            c < old(self).items@.len(),
            first_match(old(self).items@, is_selected()) == Some(c as int),
        ensures
            final(self).items@ == enter_folder(*old(self), old(self).items@, c as int),
            *final(self) == (MenuBar { items: final(self).items, ..*old(self) }),
    {
        let ghost bar0 = *self;
        self.expand_current_submenu();
        proof {
            lemma_first_match_bound(bar0.items@, is_selected());
            if bar0.items@[c as int].is_folder {
                lemma_expanded_same(
                    bar0.items@,
                    c as int,
                    open_dir(bar0, bar0.items@[c as int]),
                    bar0.menu_style,
                    bar0.primary_has_show_arrow,
                );
            }
        }
        match self.get_first_subitem(c) {
            Some(sub) => {
                let ghost a = self.items@;
                let ghost bar1 = *self;
                self.select_and_expand_item(sub, Some(c));
                proof {
                    lemma_select_expand_config(bar0, bar1, a, sub as int, Some(c as int));
                }
            },
            None => {},
        }
    }

    /// Closes every menu below the top level and unselects every item.
    fn reset_items(&mut self)
        ensures
            final(self).items@ == reset_items(old(self).items@),
            *final(self) == (MenuBar { items: final(self).items, ..*old(self) }),
    {
        self.collapse_non_primary();
        self.deselect_all();
    }

    fn handle_left_key(&mut self, cur: Option<usize>, isp: bool)
        requires
            opt_int(cur) == first_match(old(self).items@, is_selected()),
            cur matches Some(c) ==> c < old(self).items@.len(),
        ensures
            final(self).items@ == left_step(*old(self), old(self).items@, opt_int(cur), isp),
            *final(self) == (MenuBar { items: final(self).items, ..*old(self) }),
    {
        if self.horizontal_bar && isp {
            self.select_prev_primary();
            return;
        }
        let c = match cur {
            Some(c) => c,
            None => return,
        };
        if isp {
            return;
        }
        match self.parent_item(c) {
            None => {},
            Some(p) => {
                if self.items[p].is_primary() && self.horizontal_bar {
                    return;
                }
                self.select_and_expand_item(p, Some(c));
            },
        }
    }

    fn handle_right_key(&mut self, cur: Option<usize>, isp: bool)
        requires
            opt_int(cur) == first_match(old(self).items@, is_selected()),
            cur matches Some(c) ==> c < old(self).items@.len(),
        ensures
            final(self).items@ == right_step(*old(self), old(self).items@, opt_int(cur), isp),
            *final(self) == (MenuBar { items: final(self).items, ..*old(self) }),
    {
        if self.horizontal_bar && isp {
            self.select_next_primary();
            return;
        }
        let c = match cur {
            Some(c) => c,
            None => return,
        };
        if !self.items[c].is_folder {
            return;
        }
        self.enter_folder(c);
    }

    /// The position of `c` among `sib`, 0 where it is not there.
    fn position_of(sib: &Vec<usize>, c: usize) -> (r: usize)
        ensures
            r as int == pos_in(sib@.map_values(|i: usize| i as int), c as int),
            sib@.len() > 0 ==> r < sib@.len(),
    {
        let ghost sv = sib@.map_values(|i: usize| i as int);
        let ghost eq = equals(c as int);
        let mut p: usize = 0;
        while p < sib.len()
            invariant
                sv == sib@.map_values(|i: usize| i as int),
                eq == equals(c as int),
                p <= sib@.len(),
                first_match(sv.take(p as int), eq) is None,
            decreases sib@.len() - p,
        {
            if sib[p] == c {
                proof {
                    lemma_first_match_prefix(sv, eq, (p + 1) as nat);
                }
                return p;
            }
            proof {
                let t = sv.take(p + 1);
                assert(t.drop_last() =~= sv.take(p as int));
            }
            p = p + 1;
        }
        proof {
            assert(sv.take(sv.len() as int) =~= sv);
        }
        0
    }

    fn handle_up_key(&mut self, cur: Option<usize>, isp: bool)
        requires
            opt_int(cur) == first_match(old(self).items@, is_selected()),
            cur matches Some(c) ==> c < old(self).items@.len(),
        ensures
            final(self).items@ == up_step(*old(self), old(self).items@, opt_int(cur), isp),
            *final(self) == (MenuBar { items: final(self).items, ..*old(self) }),
    {
        if isp {
            if !self.horizontal_bar {
                self.select_prev_primary();
            }
            return;
        }
        let c = match cur {
            Some(c) => c,
            None => return,
        };
        if self.horizontal_bar {
            match self.parent_item(c) {
                Some(p) => {
                    if self.items[p].is_primary() {
                        let first = self.get_first_subitem(p);
                        let is_first = match first {
                            Some(f) => f == c,
                            None => false,
                        };
                        if is_first {
                            self.select_and_expand_item(p, Some(c));
                            return;
                        }
                    }
                },
                None => {},
            }
        }
        let sib = self.get_visible_siblings(c);
        if sib.len() == 0 {
            return;
        }
        let ci = MenuBar::position_of(&sib, c);
        if ci == 0 {
            return;
        }
        let ghost sv = sib@.map_values(|i: usize| i as int);
        proof {
            lemma_indices_where(self.items@, sibling_of(path_folders(self.items@[c as int].path.0@)));
            assert(sv[ci - 1] == sib@[ci - 1] as int);
        }
        let new = sib[ci - 1];
        self.select_and_expand_item(new, Some(c));
    }

    fn handle_down_key(&mut self, cur: Option<usize>, isp: bool)
        requires
            opt_int(cur) == first_match(old(self).items@, is_selected()),
            cur matches Some(c) ==> c < old(self).items@.len(),
        ensures
            final(self).items@ == down_step(*old(self), old(self).items@, opt_int(cur), isp),
            *final(self) == (MenuBar { items: final(self).items, ..*old(self) }),
    {
        if isp {
            if self.horizontal_bar {
                let c = match cur {
                    Some(c) => c,
                    None => return,
                };
                if !self.items[c].is_folder {
                    return;
                }
                self.enter_folder(c);
            } else {
                self.select_next_primary();
            }
            return;
        }
        let c = match cur {
            Some(c) => c,
            None => return,
        };
        let sib = self.get_visible_siblings(c);
        if sib.len() == 0 {
            return;
        }
        let ci = MenuBar::position_of(&sib, c);
        if ci + 1 >= sib.len() {
            return;
        }
        let ghost sv = sib@.map_values(|i: usize| i as int);
        proof {
            lemma_indices_where(self.items@, sibling_of(path_folders(self.items@[c as int].path.0@)));
            assert(sv[ci + 1] == sib@[ci + 1] as int);
        }
        let new = sib[ci + 1];
        self.select_and_expand_item(new, Some(c));
    }

    /// Reacts to a key (see `key_step`): a bar that is not activated ignores it. Returns the
    /// item chosen with enter, whose action is to run.
    pub fn receive_key_event(&mut self, key: MenuKey) -> (r: Option<usize>)
        ensures
            !old(self).activated ==> *final(self) == *old(self) && r is None,
            old(self).activated ==> ({
                let (items, act, click) = key_step(*old(self), key);
                &&& final(self).items@ == items
                &&& final(self).activated == act
                &&& opt_int(r) == click
                &&& *final(self) == (MenuBar { items: final(self).items, activated: act, ..*old(self) })
            }),
    {
        if !self.activated {
            return None;
        }
        let cur = self.get_selected_item();
        let isp = match cur {
            Some(c) => self.items[c].is_primary(),
            None => true,
        };
        match key {
            MenuKey::Left => {
                self.handle_left_key(cur, isp);
                None
            },
            MenuKey::Right => {
                self.handle_right_key(cur, isp);
                None
            },
            MenuKey::Up => {
                self.handle_up_key(cur, isp);
                None
            },
            MenuKey::Down => {
                self.handle_down_key(cur, isp);
                None
            },
            MenuKey::Enter => {
                let c = match cur {
                    Some(c) => c,
                    None => return None,
                };
                if self.items[c].is_folder {
                    if self.horizontal_bar && isp {
                        self.enter_folder(c);
                    } else {
                        self.expand_current_submenu();
                    }
                    return None;
                }
                if !self.items[c].selectable {
                    return None;
                }
                self.activated = false;
                self.reset_items();
                Some(c)
            },
            MenuKey::Esc => {
                self.activated = false;
                self.reset_items();
                None
            },
            MenuKey::Other => None,
        }
    }
}


/// A mouse event as a menu bar sees it.
#[derive(Clone, Copy, PartialEq, Eq, Debug, Structural)]
pub enum MenuMouse {
    /// a button went down
    Down,
    /// the left button went up
    LeftUp,
    /// another button went up
    Up,
    /// the mouse moved with a button down
    Drag,
    /// anything else (moving, scrolling)
    Other,
}

/// What a mouse event on the bar does (see `MenuBar::receive_mouse_event`), `hit` being the item
/// under the mouse: the items after it, whether the bar is activated and shown, and the item
/// chosen (whose action is to run).
pub open spec fn mouse_step(bar: MenuBar, kind: MenuMouse, hit: Option<int>) -> (Seq<MenuItem>, bool, bool, Option<int>) {
    let items = bar.items@;
    let clicked = kind is Down;
    let mi = bar.make_invisible_on_closedown;
    if !(bar.activated || clicked) {
        (items, false, bar.visible, None)
    } else {
        match hit {
            None => if clicked {
                (closed_items(items, mi), false, bar.visible && !mi, None)
            } else {
                (items, true, bar.visible, None)
            },
            Some(h) => {
                let it = items[h];
                let click = if kind is LeftUp { Some(h) } else { None };
                if ((kind is LeftUp || kind is Up) && !it.is_folder && it.selectable) || (bar.close_on_primary_click
                    && bar.activated && clicked && primary(it)) {
                    (closed_items(with_selected(items, h, true), mi), false, bar.visible && !mi, click)
                } else {
                    (select_expand(bar, items, h, None), true, bar.visible, click)
                }
            },
        }
    }
}

/// The largest end column of the top-level items, where there is one.
pub open spec fn max_end_x(items: Seq<MenuItem>) -> Option<i32>
    decreases items.len(),
{
    if items.len() == 0 {
        None
    } else {
        let p = max_end_x(items.drop_last());
        let e = items.last().loc.end_x;
        if primary(items.last()) {
            match p {
                Some(m) => Some(if e > m { e } else { m }),
                None => Some(e),
            }
        } else {
            p
        }
    }
}

/// The largest end row of the top-level items, where there is one.
pub open spec fn max_end_y(items: Seq<MenuItem>) -> Option<i32>
    decreases items.len(),
{
    if items.len() == 0 {
        None
    } else {
        let p = max_end_y(items.drop_last());
        let e = items.last().loc.end_y;
        if primary(items.last()) {
            match p {
                Some(m) => Some(if e > m { e } else { m }),
                None => Some(e),
            }
        } else {
            p
        }
    }
}

/// The value held, or 0.
pub open spec fn or_zero(o: Option<i32>) -> i32 {
    match o {
        Some(v) => v,
        None => 0,
    }
}

/// The items with every top-level item `w` wide.
pub open spec fn widened(items: Seq<MenuItem>, w: i32) -> Seq<MenuItem> {
    Seq::new(
        items.len(),
        |k: int|
            if primary(items[k]) {
                MenuItem { loc: MenuLoc { end_x: items[k].loc.start_x.wrapping_add(w), ..items[k].loc }, ..items[k] }
            } else {
                items[k]
            },
    )
}

/// What adding an item depends on: whether the bar is horizontal, whether top-level folders show
/// the arrow, and the menu style.
pub open spec fn layout(bar: MenuBar) -> (bool, bool, MenuStyle) {
    (bar.horizontal_bar, bar.primary_has_show_arrow, bar.menu_style)
}

/// The items after adding `item` to the bar: a top-level item goes after the last top-level one
/// (to its right on a horizontal bar, below it on a vertical one, on a vertical bar making every
/// top-level item as wide as the widest) and is shown, without the folder arrow where top-level
/// folders show none; any other item is hidden until its folder opens.
pub open spec fn add_spec(cfg: (bool, bool, MenuStyle), items: Seq<MenuItem>, item: MenuItem) -> Seq<MenuItem> {
    let isp = primary(item);
    let arrow = cfg.1;
    let it1 = if isp && !arrow { MenuItem { show_folder_arrow: false, ..item } } else { item };
    let w = spec_min_width(it1, cfg.2, arrow) as i32;
    let it2 = if isp {
        if cfg.0 {
            let x = or_zero(max_end_x(items));
            MenuItem { loc: MenuLoc { start_x: x, end_x: x.wrapping_add(w), start_y: 0, end_y: 1 }, visible: true, ..it1 }
        } else {
            let y = or_zero(max_end_y(items));
            MenuItem { loc: MenuLoc { start_x: 0, end_x: w, start_y: y, end_y: y.wrapping_add(1) }, visible: true, ..it1 }
        }
    } else {
        MenuItem { loc: MenuLoc { start_x: 0, end_x: 0, start_y: 0, end_y: 0 }, visible: false, ..it1 }
    };
    let pushed = items.push(it2);
    if isp && !cfg.0 {
        widened(pushed, max_min_width(pushed, primaries(pushed), cfg.2, arrow) as i32)
    } else {
        pushed
    }
}

/// `it` is a new item with the path `p`: not selected, not shown, at the origin, showing the
/// folder arrow, a folder or not and selectable or not as given.
pub open spec fn new_item_for(it: MenuItem, p: Seq<char>, folder: bool, selectable: bool) -> bool {
    &&& it.path.0@ == p
    &&& it.selectable == selectable
    &&& !it.is_selected
    &&& it.is_folder == folder
    &&& it.show_folder_arrow
    &&& !it.visible
    &&& it.loc == (MenuLoc { start_x: 0, end_x: 0, start_y: 0, end_y: 0 })
}

/// `out` are the items after making sure that an item with the path `p` exists: the items
/// unchanged where one does, else with a new folder item for `p` added.
pub open spec fn ensure_one(cfg: (bool, bool, MenuStyle), items: Seq<MenuItem>, p: Seq<char>, out: Seq<MenuItem>) -> bool {
    if first_match(items, has_path(p)) is Some {
        out == items
    } else {
        exists|it: MenuItem| new_item_for(it, p, true, true) && out == #[trigger] add_spec(cfg, items, it)
    }
}

/// `states` runs from one list of items to the next, making sure, in turn, that an item exists
/// for each of the `paths` (see `ensure_one`).
pub open spec fn ensure_run(cfg: (bool, bool, MenuStyle), paths: Seq<Seq<char>>, states: Seq<Seq<MenuItem>>) -> bool {
    &&& states.len() == paths.len() + 1
    &&& forall|k: int| 0 <= k < paths.len() ==> #[trigger] ensure_one(cfg, states[k], paths[k], states[k + 1])
}

/// `out` are the items after making sure, in order, that an item exists for each of the
/// `paths` (see `ensure_one`).
pub open spec fn ensured(cfg: (bool, bool, MenuStyle), items: Seq<MenuItem>, paths: Seq<Seq<char>>, out: Seq<MenuItem>) -> bool {
    exists|states: Seq<Seq<MenuItem>>|
        #[trigger] ensure_run(cfg, paths, states) && states[0] == items && states.last() == out
}

impl MenuBar {
    /// The furthest end column of the top-level items, where there is one.
    pub fn max_primary_x(&self) -> (r: Option<i32>)
        ensures
            r == max_end_x(self.items@),
    {
        let mut r: Option<i32> = None;
        let mut i: usize = 0;
        while i < self.items.len()
            invariant
                i <= self.items@.len(),
                r == max_end_x(self.items@.take(i as int)),
            decreases self.items@.len() - i,
        {
            proof {
                let t = self.items@.take(i + 1);
                assert(t.drop_last() =~= self.items@.take(i as int));
            }
            if self.items[i].is_primary() {
                let e = self.items[i].loc.end_x;
                r = match r {
                    Some(m) => Some(if e > m { e } else { m }),
                    None => Some(e),
                };
            }
            i = i + 1;
        }
        proof {
            assert(self.items@.take(self.items@.len() as int) =~= self.items@);
        }
        r
    }

    /// The furthest end row of the top-level items, where there is one.
    pub fn max_primary_y(&self) -> (r: Option<i32>)
        ensures
            r == max_end_y(self.items@),
    {
        let mut r: Option<i32> = None;
        let mut i: usize = 0;
        while i < self.items.len()
            invariant
                i <= self.items@.len(),
                r == max_end_y(self.items@.take(i as int)),
            decreases self.items@.len() - i,
        {
            proof {
                let t = self.items@.take(i + 1);
                assert(t.drop_last() =~= self.items@.take(i as int));
            }
            if self.items[i].is_primary() {
                let e = self.items[i].loc.end_y;
                r = match r {
                    Some(m) => Some(if e > m { e } else { m }),
                    None => Some(e),
                };
            }
            i = i + 1;
        }
        proof {
            assert(self.items@.take(self.items@.len() as int) =~= self.items@);
        }
        r
    }

    /// The largest width that the top-level items need.
    fn primary_width(&self) -> (w: usize)
        ensures
            w == max_min_width(self.items@, primaries(self.items@), self.menu_style, self.primary_has_show_arrow),
    {
        let ghost f = is_primary();
        let arrow = self.primary_has_show_arrow;
        let mut w: usize = 0;
        let mut i: usize = 0;
        while i < self.items.len()
            invariant
                f == is_primary(),
                arrow == self.primary_has_show_arrow,
                i <= self.items@.len(),
                w == max_min_width(self.items@, indices_where(self.items@.take(i as int), f), self.menu_style, arrow),
            decreases self.items@.len() - i,
        {
            proof {
                let t = self.items@.take(i + 1);
                assert(t.drop_last() =~= self.items@.take(i as int));
                assert(t.last() == self.items@[i as int]);
            }
            if self.items[i].is_primary() {
                let mw = self.items[i].min_width(&self.menu_style, arrow);
                proof {
                    let idx = indices_where(self.items@.take(i as int), f);
                    assert(indices_where(self.items@.take(i + 1), f) == idx.push(i as int));
                    assert(idx.push(i as int).drop_last() =~= idx);
                }
                if mw > w {
                    w = mw;
                }
            }
            i = i + 1;
        }
        proof {
            assert(self.items@.take(self.items@.len() as int) =~= self.items@);
        }
        w
    }

    /// Adds the item after the others (see `add_spec`).
    fn add_item_inner(&mut self, item: MenuItem)
        ensures
            final(self).items@ == add_spec(layout(*old(self)), old(self).items@, item),
            *final(self) == (MenuBar { items: final(self).items, ..*old(self) }),
    {
        let mut item = item;
        let isp = item.is_primary();
        let arrow = self.primary_has_show_arrow;
        if isp && !arrow {
            item.show_folder_arrow = false;
        }
        if isp {
            let w = item.min_width(&self.menu_style, arrow) as i32;
            if self.horizontal_bar {
                let x = match self.max_primary_x() {
                    Some(x) => x,
                    None => 0,
                };
                item.loc = MenuLoc { start_x: x, end_x: x.wrapping_add(w), start_y: 0, end_y: 1 };
            } else {
                let y = match self.max_primary_y() {
                    Some(y) => y,
                    None => 0,
                };
                item.loc = MenuLoc { start_x: 0, end_x: w, start_y: y, end_y: y.wrapping_add(1) };
            }
            item.visible = true;
        } else {
            item.loc = MenuLoc { start_x: 0, end_x: 0, start_y: 0, end_y: 0 };
            item.visible = false;
        }
        self.items.push(item);
        if isp && !self.horizontal_bar {
            let w = self.primary_width() as i32;
            let ghost pushed = self.items@;
            let ghost before = *self;
            let mut k: usize = 0;
            while k < self.items.len()
                invariant
                    k <= pushed.len(),
                    self.items@.len() == pushed.len(),
                    forall|j: int| 0 <= j < k ==> #[trigger] self.items@[j] == widened(pushed, w)[j],
                    forall|j: int| k <= j < pushed.len() ==> #[trigger] self.items@[j] == pushed[j],
                    *self == (MenuBar { items: self.items, ..before }),
                decreases pushed.len() - k,
            {
                if self.items[k].is_primary() {
                    let sx = self.items[k].loc.start_x;
                    self.items[k].loc.end_x = sx.wrapping_add(w);
                }
                k = k + 1;
            }
            assert(self.items@ =~= widened(pushed, w));
        }
    }
}

/// `out` are the items after adding a new item that is not a folder, with the path `p` (see
/// `new_item_for`), once items exist for the folders leading to it (see `ensured`).
pub open spec fn added(cfg: (bool, bool, MenuStyle), items: Seq<MenuItem>, p: Seq<char>, selectable: bool, out: Seq<MenuItem>) -> bool {
    exists|mid: Seq<MenuItem>, it: MenuItem|
        #![trigger add_spec(cfg, mid, it)]
        ensured(cfg, items, folder_paths(p), mid) && new_item_for(it, p, false, selectable) && out == add_spec(
            cfg,
            mid,
            it,
        )
}

/// `after` are the items after adding `it` to `before`, once items exist for the folders
/// leading to it (`mid` being the items then).
pub open spec fn add_step(
    cfg: (bool, bool, MenuStyle),
    before: Seq<MenuItem>,
    it: MenuItem,
    mid: Seq<MenuItem>,
    after: Seq<MenuItem>,
) -> bool {
    ensured(cfg, before, folder_paths(it.path.0@), mid) && after == add_spec(cfg, mid, it)
}

/// `states` runs from one list of items to the next, adding each of `new` in turn (see
/// `add_step`).
pub open spec fn add_run(
    cfg: (bool, bool, MenuStyle),
    new: Seq<MenuItem>,
    states: Seq<Seq<MenuItem>>,
    mids: Seq<Seq<MenuItem>>,
) -> bool {
    &&& states.len() == new.len() + 1
    &&& mids.len() == new.len()
    &&& forall|k: int| 0 <= k < new.len() ==> #[trigger] add_step(cfg, states[k], new[k], mids[k], states[k + 1])
}

/// `out` are the items after adding each of `new` in turn, once items exist for the folders
/// leading to it (see `add_step`).
pub open spec fn all_added(cfg: (bool, bool, MenuStyle), items: Seq<MenuItem>, new: Seq<MenuItem>, out: Seq<MenuItem>) -> bool {
    exists|states: Seq<Seq<MenuItem>>, mids: Seq<Seq<MenuItem>>|
        #[trigger] add_run(cfg, new, states, mids) && states[0] == items && states.last() == out
}

impl MenuBar {
    /// Makes sure that an item exists for each folder leading to `path`, the outermost first,
    /// adding a folder item where none does (see `ensured`).
    pub fn ensure_folders(&mut self, path: &MenuPath)
        ensures
            ensured(layout(*old(self)), old(self).items@, folder_paths(path.0@), final(self).items@),
            *final(self) == (MenuBar { items: final(self).items, ..*old(self) }),
    {
        let fps = path.folder_paths();
        let ghost ps = fps@.map_values(|p: String| p@);
        let ghost bar0 = *self;
        let ghost cfg = layout(bar0);
        let ghost mut states: Seq<Seq<MenuItem>> = seq![bar0.items@];
        let mut i: usize = 0;
        while i < fps.len()
            invariant
                ps == fps@.map_values(|p: String| p@),
                ps == folder_paths(path.0@),
                bar0 == *old(self),
                cfg == layout(bar0),
                i <= ps.len(),
                ensure_run(cfg, ps.take(i as int), states),
                states[0] == bar0.items@,
                states.last() == self.items@,
                *self == (MenuBar { items: self.items, ..bar0 }),
            decreases ps.len() - i,
        {
            let ghost mid = self.items@;
            let fp = MenuPath(fps[i].clone());
            assert(fp.0@ == ps[i as int]);
            if !self.contains_menu_item(&fp) {
                let it = MenuItem::new_folder(fp);
                let ghost g = it;
                assert(layout(*self) == cfg);
                self.add_item_inner(it);
                assert(new_item_for(g, ps[i as int], true, true));
                assert(self.items@ == add_spec(cfg, mid, g));
            }
            assert(ensure_one(cfg, mid, ps[i as int], self.items@));
            proof {
                let old_states = states;
                states = states.push(self.items@);
                let t = ps.take(i + 1);
                assert forall|k: int| 0 <= k < t.len() implies #[trigger] ensure_one(cfg, states[k], t[k], states[k + 1]) by {
                    if k < i {
                        assert(ensure_one(cfg, old_states[k], ps.take(i as int)[k], old_states[k + 1]));
                    }
                }
            }
            i = i + 1;
        }
        proof {
            assert(ps.take(ps.len() as int) =~= ps);
            assert(ensure_run(cfg, ps, states));
        }
    }

    /// Adds a new item, that is not a folder, with the path `menu_path`, first making sure that
    /// the folders leading to it exist (see `added`).
    pub fn add_item(&mut self, menu_path: String)
        ensures
            added(layout(*old(self)), old(self).items@, menu_path@, true, final(self).items@),
            *final(self) == (MenuBar { items: final(self).items, ..*old(self) }),
    {
        let mp = MenuPath(menu_path);
        let ghost bar0 = *self;
        self.ensure_folders(&mp);
        let ghost mid = self.items@;
        assert(layout(*self) == layout(bar0));
        let it = MenuItem::new(mp);
        let ghost g = it;
        self.add_item_inner(it);
        assert(new_item_for(g, menu_path@, false, true));
        assert(self.items@ == add_spec(layout(bar0), mid, g));
    }

    /// This bar with a new item with the path `menu_path` (see `add_item`).
    pub fn with_item(self, menu_path: String) -> (b: MenuBar)
        ensures
            added(layout(self), self.items@, menu_path@, true, b.items@),
            b == (MenuBar { items: b.items, ..self }),
    {
        let mut b = self;
        b.add_item(menu_path);
        b
    }

    /// Adds an item that cannot be chosen, as a decoration (see `added`).
    pub fn add_decor(&mut self, menu_path: String)
        ensures
            added(layout(*old(self)), old(self).items@, menu_path@, false, final(self).items@),
            *final(self) == (MenuBar { items: final(self).items, ..*old(self) }),
    {
        let mp = MenuPath(menu_path);
        let ghost bar0 = *self;
        self.ensure_folders(&mp);
        let ghost mid = self.items@;
        assert(layout(*self) == layout(bar0));
        let it = MenuItem::new(mp).with_unselectable();
        let ghost g = it;
        self.add_item_inner(it);
        assert(new_item_for(g, menu_path@, false, false));
        assert(self.items@ == add_spec(layout(bar0), mid, g));
    }

    /// Adds each of `items` in turn, first making sure that the folders leading to it exist
    /// (see `all_added`).
    pub fn set_items(&mut self, items: Vec<MenuItem>)
        ensures
            all_added(layout(*old(self)), old(self).items@, items@, final(self).items@),
            *final(self) == (MenuBar { items: final(self).items, ..*old(self) }),
    {
        let ghost all = items@;
        let ghost bar0 = *self;
        let ghost cfg = layout(bar0);
        let total: usize = items.len();
        assert(all.len() == total);
        let ghost mut states: Seq<Seq<MenuItem>> = seq![bar0.items@];
        let ghost mut mids: Seq<Seq<MenuItem>> = Seq::empty();
        let mut rest = items;
        let mut done: usize = 0;
        proof {
            assert(rest@ =~= all.skip(0));
        }
        while rest.len() > 0
            invariant
                bar0 == *old(self),
                cfg == layout(bar0),
                done <= all.len(),
                all.len() <= usize::MAX,
                rest@ == all.skip(done as int),
                add_run(cfg, all.take(done as int), states, mids),
                states[0] == bar0.items@,
                states.last() == self.items@,
                *self == (MenuBar { items: self.items, ..bar0 }),
            decreases rest@.len(),
        {
            let ghost before = self.items@;
            assert(rest@.len() == all.len() - done);
            let it = rest.remove(0);
            assert(it == all[done as int]);
            assert(layout(*self) == cfg);
            self.ensure_folders(&it.path);
            let ghost mid2 = self.items@;
            let ghost g = it;
            self.add_item_inner(it);
            assert(add_step(cfg, before, g, mid2, self.items@));
            proof {
                let old_states = states;
                let old_mids = mids;
                states = states.push(self.items@);
                mids = mids.push(mid2);
                let t = all.take(done + 1);
                assert forall|k: int| 0 <= k < t.len() implies #[trigger] add_step(cfg, states[k], t[k], mids[k], states[k + 1]) by {
                    if k < done {
                        assert(add_step(cfg, old_states[k], all.take(done as int)[k], old_mids[k], old_states[k + 1]));
                    }
                }
                assert(rest@ =~= all.skip(done + 1));
            }
            done = done + 1;
        }
        proof {
            assert(all.take(done as int) =~= all);
            assert(add_run(cfg, all, states, mids));
        }
    }

    /// Reacts to a mouse event on the bar (see `mouse_step`), `hit` being the item under the
    /// mouse. Returns the item chosen, whose action is to run.
    pub fn receive_mouse_event(&mut self, kind: MenuMouse, hit: Option<usize>) -> (r: Option<usize>)
        requires
            hit matches Some(h) ==> h < old(self).items@.len(),
        ensures
            ({
                let (items, act, vis, click) = mouse_step(*old(self), kind, opt_int(hit));
                &&& final(self).items@ == items
                &&& opt_int(r) == click
                &&& *final(self) == (MenuBar { items: final(self).items, activated: act, visible: vis, ..*old(self) })
            }),
    {
        let clicked = match kind {
            MenuMouse::Down => true,
            _ => false,
        };
        let active_at_start = self.activated;
        if !self.activated && !clicked {
            return None;
        }
        match hit {
            None => {
                if clicked {
                    self.closedown();
                } else {
                    self.activated = true;
                }
                None
            },
            Some(h) => {
                let ghost bar0 = *self;
                self.activated = true;
                let click = match kind {
                    MenuMouse::LeftUp => Some(h),
                    _ => None,
                };
                let up = match kind {
                    MenuMouse::LeftUp | MenuMouse::Up => true,
                    _ => false,
                };
                let it_folder = self.items[h].is_folder;
                let it_sel = self.items[h].selectable;
                let it_primary = self.items[h].is_primary();
                if (up && !it_folder && it_sel) || (self.close_on_primary_click && active_at_start && clicked
                    && it_primary) {
                    self.items[h].is_selected = true;
                    self.closedown();
                    return click;
                }
                let ghost bar1 = *self;
                self.select_and_expand_item(h, None);
                proof {
                    lemma_select_expand_config(bar0, bar1, bar0.items@, h as int, None);
                }
                click
            },
        }
    }

    /// Reacts to a mouse event outside the bar: a press, release or drag closes the menu down
    /// (see `closedown`). Returns whether the event was taken.
    pub fn receive_external_mouse_event(&mut self, kind: MenuMouse) -> (taken: bool)
        ensures
            taken == !(kind is Other),
            taken ==> final(self).items@ == closed_items(old(self).items@, old(self).make_invisible_on_closedown)
                && *final(self) == (MenuBar {
                items: final(self).items,
                activated: false,
                visible: old(self).visible && !old(self).make_invisible_on_closedown,
                ..*old(self)
            }),
            !taken ==> *final(self) == *old(self),
    {
        match kind {
            MenuMouse::Other => false,
            _ => {
                self.closedown();
                true
            },
        }
    }
}

/// The item is shown and covers the cell (`x`, `y`).
pub open spec fn covers_point(x: i32, y: i32) -> spec_fn(MenuItem) -> bool {
    |it: MenuItem| it.visible && it.loc.start_x <= x < it.loc.end_x && it.loc.start_y <= y < it.loc.end_y
}

impl MenuBar {
    /// The first shown item that covers the cell (`x`, `y`) of the bar, where there is one.
    pub fn item_at(&self, x: i32, y: i32) -> (r: Option<usize>)
        ensures
            opt_int(r) == first_match(self.items@, covers_point(x, y)),
            r matches Some(i) ==> i < self.items@.len(),
    {
        let ghost f = covers_point(x, y);
        let mut i: usize = 0;
        while i < self.items.len()
            invariant
                f == covers_point(x, y),
                i <= self.items@.len(),
                first_match(self.items@.take(i as int), f) is None,
            decreases self.items@.len() - i,
        {
            proof {
                let t = self.items@.take(i + 1);
                assert(t.drop_last() =~= self.items@.take(i as int));
            }
            let l = self.items[i].loc;
            if self.items[i].visible && l.start_x <= x && x < l.end_x && l.start_y <= y && y < l.end_y {
                proof {
                    lemma_first_match_prefix(self.items@, f, (i + 1) as nat);
                }
                return Some(i);
            }
            i = i + 1;
        }
        proof {
            assert(self.items@.take(self.items@.len() as int) =~= self.items@);
        }
        None
    }

    /// Reacts to a mouse event at the cell (`x`, `y`) of the bar: the item under it is the
    /// first shown item covering that cell (see `item_at`, `receive_mouse_event`).
    pub fn receive_mouse_event_at(&mut self, kind: MenuMouse, x: i32, y: i32) -> (r: Option<usize>)
        ensures
            ({
                let hit = first_match(old(self).items@, covers_point(x, y));
                let (items, act, vis, click) = mouse_step(*old(self), kind, hit);
                &&& final(self).items@ == items
                &&& opt_int(r) == click
                &&& *final(self) == (MenuBar { items: final(self).items, activated: act, visible: vis, ..*old(self) })
            }),
    {
        let hit = self.item_at(x, y);
        self.receive_mouse_event(kind, hit)
    }
}

/// A mouse event as a right click menu sees it.
#[derive(Clone, Copy, PartialEq, Eq, Debug, Structural)]
pub enum ClickKind {
    /// the right button went up
    RightUp,
    /// any other mouse event
    Other,
}

/// A menu that opens where the right mouse button is released.
pub struct RightClickMenu {
    pub menu: MenuBar,
    /// where the mouse was released
    pub pos_x: i32,
    pub pos_y: i32,
    /// where the menu is: one row below the mouse
    pub loc_x: i32,
    pub loc_y: i32,
    /// the menu was just opened (the first mouse event outside it is ignored)
    pub just_created: bool,
}

impl RightClickMenu {
    /// A right click menu with the style `sty`, not yet placed.
    pub fn new(sty: MenuStyle) -> (m: RightClickMenu)
        ensures
            m.menu.items@.len() == 0,
            !m.menu.horizontal_bar && m.menu.activated && m.menu.primary_has_show_arrow,
            m.menu.primary_open_dir == OpenDirection::RightThenDown,
            m.menu.secondary_open_dir == OpenDirection::RightThenDown,
            m.menu.make_invisible_on_closedown && !m.menu.close_on_primary_click && m.menu.visible,
            m.menu.menu_style == sty,
            m.pos_x == 0 && m.pos_y == 0 && m.loc_x == 0 && m.loc_y == 0,
            m.just_created,
    {
        RightClickMenu {
            menu: MenuBar::right_click_menu().with_menu_style(sty),
            pos_x: 0,
            pos_y: 0,
            loc_x: 0,
            loc_y: 0,
            just_created: true,
        }
    }

    /// This menu with `items` added (see `MenuBar::set_items`).
    pub fn with_menu_items(self, items: Vec<MenuItem>) -> (m: RightClickMenu)
        ensures
            all_added(layout(self.menu), self.menu.items@, items@, m.menu.items@),
            m.menu == (MenuBar { items: m.menu.items, ..self.menu }),
            m == (RightClickMenu { menu: m.menu, ..self }),
    {
        let mut m = self;
        m.menu.set_items(items);
        m
    }

    /// Sets where the mouse was released.
    pub fn set_menu_pos(&mut self, x: i32, y: i32)
        ensures
            *final(self) == (RightClickMenu { pos_x: x, pos_y: y, ..*old(self) }),
    {
        self.pos_x = x;
        self.pos_y = y;
    }

    /// Opens the menu one row below where the right button was released: it is activated and
    /// shown with only its top-level items, none selected. Returns whether it opened (only a
    /// release of the right button opens it).
    pub fn create_menu_if_right_click(&mut self, kind: ClickKind, x: i32, y: i32) -> (opened: bool)
        requires
            y < i32::MAX,
        ensures
            opened == (kind is RightUp),
            !opened ==> *final(self) == *old(self),
            opened ==> {
                &&& final(self).menu.items@ == primaries_shown(collapsed(all_unselected(old(self).menu.items@)))
                &&& final(self).menu == (MenuBar {
                    items: final(self).menu.items,
                    activated: true,
                    visible: true,
                    ..old(self).menu
                })
                &&& *final(self) == (RightClickMenu {
                    menu: final(self).menu,
                    pos_x: x,
                    pos_y: y,
                    loc_x: x,
                    loc_y: (y + 1) as i32,
                    just_created: true,
                })
            },
    {
        match kind {
            ClickKind::Other => return false,
            ClickKind::RightUp => {},
        }
        self.pos_x = x;
        self.pos_y = y;
        self.loc_x = x;
        self.loc_y = y + 1;
        let ghost before = self.menu.items@;
        self.menu.activate();
        let ghost act = self.menu.items@;
        self.menu.deselect_all();
        proof {
            lemma_first_match_bound(before, is_primary());
            assert(all_unselected(act) =~= all_unselected(before));
        }
        self.menu.collapse_non_primary();
        self.menu.make_primary_visible();
        self.menu.visible = true;
        self.just_created = true;
        true
    }

    /// Passes a mouse event on the menu to it (see `MenuBar::receive_mouse_event`).
    pub fn receive_mouse_event(&mut self, kind: MenuMouse, hit: Option<usize>) -> (r: Option<usize>)
        requires
            hit matches Some(h) ==> h < old(self).menu.items@.len(),
        ensures
            ({
                let (items, act, vis, click) = mouse_step(old(self).menu, kind, opt_int(hit));
                &&& final(self).menu.items@ == items
                &&& opt_int(r) == click
                &&& final(self).menu == (MenuBar {
                    items: final(self).menu.items,
                    activated: act,
                    visible: vis,
                    ..old(self).menu
                })
                &&& *final(self) == (RightClickMenu { menu: final(self).menu, ..*old(self) })
            }),
    {
        self.menu.receive_mouse_event(kind, hit)
    }

    /// Passes a mouse event outside the menu to it, except the first one after it opened,
    /// which is taken and ignored. Returns whether the event was taken.
    pub fn receive_external_mouse_event(&mut self, kind: MenuMouse) -> (taken: bool)
        ensures
            old(self).just_created ==> taken && *final(self) == (RightClickMenu { just_created: false, ..*old(self) }),
            !old(self).just_created ==> {
                &&& taken == !(kind is Other)
                &&& taken ==> final(self).menu.items@ == closed_items(old(self).menu.items@, old(self).menu.make_invisible_on_closedown)
                    && final(self).menu == (MenuBar {
                    items: final(self).menu.items,
                    activated: false,
                    visible: old(self).menu.visible && !old(self).menu.make_invisible_on_closedown,
                    ..old(self).menu
                })
                &&& !taken ==> final(self).menu == old(self).menu
                &&& *final(self) == (RightClickMenu { menu: final(self).menu, ..*old(self) })
            },
    {
        if self.just_created {
            self.just_created = false;
            return true;
        }
        self.menu.receive_external_mouse_event(kind)
    }
}

/// Closing a menu down leaves no item below the top level shown, and, where the menu is made
/// invisible on closing, no item at all; it keeps every item's path and kind.
pub proof fn lemma_closedown_hides_submenus(items: Seq<MenuItem>, make_invisible: bool)
    ensures
        forall|k: int|
            0 <= k < items.len() && (!primary(items[k]) || make_invisible) ==> !(#[trigger] closed_items(items, make_invisible)[k]).visible,
        forall|k: int|
            0 <= k < items.len() && primary(items[k]) && !make_invisible ==> !(#[trigger] closed_items(items, make_invisible)[k]).is_selected,
        same_items(items, closed_items(items, make_invisible)),
{
}

/// After escape (or a choice) no item is selected and no item below the top level is shown.
pub proof fn lemma_reset_clears(items: Seq<MenuItem>)
    ensures
        first_match(reset_items(items), is_selected()) is None,
        forall|k: int| 0 <= k < items.len() && !primary(items[k]) ==> !(#[trigger] reset_items(items)[k]).visible,
{
    lemma_first_match_none(reset_items(items), is_selected());
}

proof fn lemma_first_match_none(s: Seq<MenuItem>, f: spec_fn(MenuItem) -> bool)
    requires
        forall|k: int| 0 <= k < s.len() ==> !f(#[trigger] s[k]),
    ensures
        first_match(s, f) is None,
    decreases s.len(),
{
    if s.len() > 0 {
        lemma_first_match_none(s.drop_last(), f);
    }
}

} // verus!
