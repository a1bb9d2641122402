use vstd::prelude::*;
use crate::geom::Size;

verus! {

/// What a cell shows: more than a plain character.
#[derive(Debug, PartialEq)]
pub enum ChPlus {
    /// no character, ch taken from underneath (NOTE fg and bg are still applied)
    Transparent,
    /// regular character
    Char(char),
    /// more complex display information (useful for image protocols)
    Str(String),
    /// skip this character entirely, useful for image viewers / mirroring another buffer
    Skip,
}

impl Clone for ChPlus {
    fn clone(&self) -> (r: ChPlus)
        ensures
            r == *self,
    {
        match self {
            ChPlus::Transparent => ChPlus::Transparent,
            ChPlus::Char(c) => ChPlus::Char(*c),
            ChPlus::Str(s) => ChPlus::Str(s.clone()),
            ChPlus::Skip => ChPlus::Skip,
        }
    }
}

impl Default for ChPlus {
    fn default() -> (r: ChPlus)
        ensures
            r == ChPlus::Char(' '),
    {
        ChPlus::Char(' ')
    }
}

/// The text a cell contributes when the characters are written out.
pub open spec fn ch_text(c: ChPlus) -> Seq<char> {
    match c {
        ChPlus::Transparent => Seq::empty(),
        ChPlus::Char(ch) => seq![ch],
        ChPlus::Str(s) => s@,
        ChPlus::Skip => Seq::empty(),
    }
}

impl ChPlus {
    /// The text of this cell: its character or string; nothing for a transparent or skipped
    /// cell.
    pub fn to_text(&self) -> (s: String)
        ensures
            s@ == ch_text(*self),
    {
        let mut out = String::new();
        match self {
            ChPlus::Char(c) => push_char(&mut out, *c),
            ChPlus::Str(s) => out.append(s.as_str()),
            _ => {},
        }
        out
    }
}

/// Appends a character to a string.
///
/// Calls `String::push`, which by its documentation appends the given char to the end of the
/// string; the contract states just that.
#[verifier::external_body]
pub(crate) fn push_char(s: &mut String, c: char)
    ensures
        final(s)@ == old(s)@.push(c),
{
    s.push(c);
}

/// The characters of a string slice, in order.
pub(crate) fn str_chars(s: &str) -> (v: Vec<char>)
    ensures
        v@ == s@,
{
    let mut out: Vec<char> = Vec::new();
    let n = s.unicode_len();
    let mut i: usize = 0;
    while i < n
        invariant
            n == s@.len(),
            i <= n,
            out@ == s@.take(i as int),
        decreases n - i,
    {
        out.push(s.get_char(i));
        proof {
            assert(s@.take(i + 1) =~= s@.take(i as int).push(s@[i as int]));
        }
        i = i + 1;
    }
    proof {
        assert(s@.take(n as int) =~= s@);
    }
    out
}

/// The character at index `i`.
pub(crate) fn char_at(v: &Vec<char>, i: usize) -> (c: char)
    requires
        i < v@.len(),
    ensures
        c == v@[i as int],
{
    v[i]
}

/// A character drawn with a style. The style type is a parameter: drawing code elsewhere
/// decides what a style holds; this module only moves styled characters around.
#[derive(Debug, PartialEq)]
pub struct DrawCh<S> {
    pub ch: ChPlus,
    pub style: S,
}

/// `c` is a copy of `orig` made by cloning: the same character, with a clone of its style.
pub open spec fn clone_of<S: Clone>(orig: DrawCh<S>, c: DrawCh<S>) -> bool {
    c.ch == orig.ch && cloned(orig.style, c.style)
}

impl<S: Clone> Clone for DrawCh<S> {
    fn clone(&self) -> (r: DrawCh<S>)
        ensures
            r.ch == self.ch,
            cloned(self.style, r.style),
    {
        DrawCh { ch: self.ch.clone(), style: self.style.clone() }
    }
}

/// What `cloned` tells of two styled characters.
pub proof fn lemma_cloned_draw_ch<S: Clone>(a: DrawCh<S>, b: DrawCh<S>)
    requires
        cloned(a, b),
    ensures
        clone_of(a, b),
{
}

impl<S: Clone> DrawCh<S> {
    pub fn new(ch: ChPlus, style: S) -> (d: DrawCh<S>)
        ensures
            d.ch == ch,
            d.style == style,
    {
        DrawCh { ch, style }
    }

    /// This character placed at a position.
    pub fn at(self, x: u16, y: u16) -> (p: DrawChPos<S>)
        ensures
            p.ch == self,
            p.x == x,
            p.y == y,
    {
        DrawChPos { ch: self, x, y }
    }

    /// One styled character for each character of `s`, each with a clone of `sty`.
    pub fn str_to_draw_chs(s: &str, sty: S) -> (v: Vec<DrawCh<S>>)
        ensures
            v@.len() == s@.len(),
            forall|i: int|
                0 <= i < s@.len() ==> (#[trigger] v@[i]).ch == ChPlus::Char(s@[i]) && cloned(
                    sty,
                    v@[i].style,
                ),
    {
        let chars = str_chars(s);
        let mut out: Vec<DrawCh<S>> = Vec::new();
        let mut i: usize = 0;
        while i < chars.len()
            invariant
                chars@ == s@,
                i <= chars@.len(),
                out@.len() == i,
                forall|j: int|
                    0 <= j < i ==> (#[trigger] out@[j]).ch == ChPlus::Char(s@[j]) && cloned(
                        sty,
                        out@[j].style,
                    ),
            decreases chars@.len() - i,
        {
            out.push(DrawCh { ch: ChPlus::Char(char_at(&chars, i)), style: sty.clone() });
            i = i + 1;
        }
        out
    }
}

/// A styled character at a position local to an element: x counts right and y counts down,
/// both from zero.
#[derive(Debug, PartialEq)]
pub struct DrawChPos<S> {
    pub ch: DrawCh<S>,
    pub x: u16,
    pub y: u16,
}

impl<S: Clone> Clone for DrawChPos<S> {
    fn clone(&self) -> (r: DrawChPos<S>)
        ensures
            clone_of(self.ch, r.ch),
            r.x == self.x,
            r.y == self.y,
    {
        DrawChPos { ch: self.ch.clone(), x: self.x, y: self.y }
    }
}

impl<S: Clone> DrawChPos<S> {
    pub fn new(ch: DrawCh<S>, x: u16, y: u16) -> (p: DrawChPos<S>)
        ensures
            p.ch == ch,
            p.x == x,
            p.y == y,
    {
        DrawChPos { ch, x, y }
    }

    /// The lines of `s` laid out as `DrawChs2D::from_string` lays them out, with the top left
    /// corner at (`start_x`, `start_y`). Each style is a clone of a clone of `sty`.
    pub fn new_from_string(s: String, start_x: u16, start_y: u16, sty: S) -> (v: Vec<DrawChPos<S>>)
        requires
            forall|y: int, x: int|
                0 <= y < text_lines(s@).len() && 0 <= x < max_line_len(text_lines(s@)) ==> #[trigger] fits_at(
                    start_x,
                    start_y,
                    x,
                    y,
                ),
        ensures
            v@.len() == placed(text_grid(s@), start_x, start_y).len(),
            forall|k: int|
                0 <= k < v@.len() ==> {
                    let p = #[trigger] placed(text_grid(s@), start_x, start_y)[k];
                    &&& v@[k].ch.ch == p.0
                    &&& v@[k].x == p.1
                    &&& v@[k].y == p.2
                    &&& exists|m: S| cloned(sty, m) && cloned(m, v@[k].ch.style)
                },
    {
        let ghost tg = text_grid(s@);
        let g = DrawChs2D::from_string(s, sty);
        proof {
            lemma_text_grid_shape(g@, tg, s@);
            assert forall|y: int, x: int| 0 <= y < g@.len() && 0 <= x < g@[y].len() implies #[trigger] fits_at(
                start_x,
                start_y,
                x,
                y,
            ) by {}
        }
        let v = g.to_draw_ch_pos(start_x, start_y);
        proof {
            lemma_placed_chs(g@, tg, start_x, start_y);
            let f = |d: DrawCh<S>| cloned(sty, d.style);
            lemma_placed_all(g@, f, start_x, start_y);
            assert forall|k: int| 0 <= k < v@.len() implies exists|m: S|
                cloned(sty, m) && cloned(m, (#[trigger] v@[k]).ch.style) by {
                let m = placed(g@, start_x, start_y)[k].0.style;
                assert(f(placed(g@, start_x, start_y)[k].0));
                assert(clone_of(placed(g@, start_x, start_y)[k].0, v@[k].ch));
            }
        }
        v
    }

    /// `height` copies of `ch` going down from (`start_x`, `start_y`).
    pub fn new_repeated_vertical(ch: DrawCh<S>, start_x: u16, start_y: u16, height: u16) -> (v: Vec<
        DrawChPos<S>,
    >)
        requires
            start_y + height <= 0x1_0000,
        ensures
            v@.len() == height,
            forall|i: int|
                0 <= i < height ==> clone_of(ch, (#[trigger] v@[i]).ch) && v@[i].x == start_x
                    && v@[i].y == start_y + i,
    {
        let mut out: Vec<DrawChPos<S>> = Vec::new();
        let mut y: u16 = 0;
        while y < height
            invariant
                start_y + height <= 0x1_0000,
                y <= height,
                out@.len() == y,
                forall|i: int|
                    0 <= i < y ==> clone_of(ch, (#[trigger] out@[i]).ch) && out@[i].x == start_x
                        && out@[i].y == start_y + i,
            decreases height - y,
        {
            out.push(DrawChPos { ch: ch.clone(), x: start_x, y: start_y + y });
            y = y + 1;
        }
        out
    }

    /// `width` copies of `ch` going right from (`start_x`, `start_y`).
    pub fn new_repeated_horizontal(ch: DrawCh<S>, start_x: u16, start_y: u16, width: u16) -> (v: Vec<
        DrawChPos<S>,
    >)
        requires
            start_x + width <= 0x1_0000,
        ensures
            v@.len() == width,
            forall|i: int|
                0 <= i < width ==> clone_of(ch, (#[trigger] v@[i]).ch) && v@[i].x == start_x + i
                    && v@[i].y == start_y,
    {
        let mut out: Vec<DrawChPos<S>> = Vec::new();
        let mut x: u16 = 0;
        while x < width
            invariant
                start_x + width <= 0x1_0000,
                x <= width,
                out@.len() == x,
                forall|i: int|
                    0 <= i < x ==> clone_of(ch, (#[trigger] out@[i]).ch) && out@[i].x == start_x + i
                        && out@[i].y == start_y,
            decreases width - x,
        {
            out.push(DrawChPos { ch: ch.clone(), x: start_x + x, y: start_y });
            x = x + 1;
        }
        out
    }
}

/// A list of positioned characters.
pub struct DrawChPosVec<S>(pub Vec<DrawChPos<S>>);

impl<S> DrawChPosVec<S> {
    pub fn new(chs: Vec<DrawChPos<S>>) -> (r: DrawChPosVec<S>)
        ensures
            r.0 == chs,
    {
        DrawChPosVec(chs)
    }
}

// ----------------------------------------------------

/// Rows of styled characters, the top row first; each row lists its cells from the left.
#[derive(Debug, PartialEq)]
pub struct DrawChs2D<S>(pub Vec<Vec<DrawCh<S>>>);

impl<S> View for DrawChs2D<S> {
    type V = Seq<Seq<DrawCh<S>>>;

    open spec fn view(&self) -> Seq<Seq<DrawCh<S>>> {
        self.0@.map_values(|r: Vec<DrawCh<S>>| r@)
    }
}

/// Row `b` is a cell-by-cell clone of row `a`.
pub open spec fn row_clone_of<S: Clone>(a: Seq<DrawCh<S>>, b: Seq<DrawCh<S>>) -> bool {
    b.len() == a.len() && forall|x: int| 0 <= x < a.len() ==> clone_of(a[x], #[trigger] b[x])
}

/// Grid `b` is a cell-by-cell clone of grid `a`.
pub open spec fn grid_clone_of<S: Clone>(a: Seq<Seq<DrawCh<S>>>, b: Seq<Seq<DrawCh<S>>>) -> bool {
    b.len() == a.len() && forall|y: int| 0 <= y < a.len() ==> row_clone_of(a[y], #[trigger] b[y])
}

/// The width of a grid: the length of its top row, zero where it has no rows.
pub open spec fn grid_width<S>(g: Seq<Seq<DrawCh<S>>>) -> nat {
    if g.len() == 0 {
        0
    } else {
        g[0].len()
    }
}

/// The grid with the cell at (`x`, `y`) replaced by `c`, where there is such a cell.
pub open spec fn with_ch<S>(g: Seq<Seq<DrawCh<S>>>, x: int, y: int, c: DrawCh<S>) -> Seq<
    Seq<DrawCh<S>>,
> {
    if 0 <= y < g.len() && 0 <= x < g[y].len() {
        g.update(y, g[y].update(x, c))
    } else {
        g
    }
}

/// The grid after placing each positioned character in turn.
pub open spec fn applied<S>(g: Seq<Seq<DrawCh<S>>>, chs: Seq<DrawChPos<S>>) -> Seq<
    Seq<DrawCh<S>>,
>
    decreases chs.len(),
{
    if chs.len() == 0 {
        g
    } else {
        let p = chs.last();
        with_ch(applied(g, chs.drop_last()), p.x as int, p.y as int, p.ch)
    }
}

/// A clone of a row of styled characters.
fn clone_row<S: Clone>(row: &Vec<DrawCh<S>>) -> (r: Vec<DrawCh<S>>)
    ensures
        row_clone_of(row@, r@),
{
    let mut out: Vec<DrawCh<S>> = Vec::new();
    let mut x: usize = 0;
    while x < row.len()
        invariant
            x <= row@.len(),
            out@.len() == x,
            forall|i: int| 0 <= i < x ==> clone_of(row@[i], #[trigger] out@[i]),
        decreases row@.len() - x,
    {
        out.push(row[x].clone());
        x = x + 1;
    }
    out
}

/// `n` clones of `ch`.
fn repeated<S: Clone>(ch: &DrawCh<S>, n: usize) -> (r: Vec<DrawCh<S>>)
    ensures
        r@.len() == n,
        forall|i: int| 0 <= i < n ==> clone_of(*ch, #[trigger] r@[i]),
{
    let mut out: Vec<DrawCh<S>> = Vec::new();
    let mut x: usize = 0;
    while x < n
        invariant
            x <= n,
            out@.len() == x,
            forall|i: int| 0 <= i < x ==> clone_of(*ch, #[trigger] out@[i]),
        decreases n - x,
    {
        out.push(ch.clone());
        x = x + 1;
    }
    out
}

impl<S: Clone> Clone for DrawChs2D<S> {
    fn clone(&self) -> (r: DrawChs2D<S>)
        ensures
            grid_clone_of(self@, r@),
    {
        let mut out: Vec<Vec<DrawCh<S>>> = Vec::new();
        let mut y: usize = 0;
        while y < self.0.len()
            invariant
                y <= self@.len(),
                out@.len() == y,
                forall|j: int| 0 <= j < y ==> row_clone_of(self@[j], #[trigger] out@[j]@),
            decreases self@.len() - y,
        {
            out.push(clone_row(&self.0[y]));
            y = y + 1;
        }
        let r = DrawChs2D(out);
        assert forall|j: int| 0 <= j < self@.len() implies row_clone_of(self@[j], #[trigger] r@[j]) by {
            assert(r@[j] == out@[j]@);
        }
        r
    }
}

impl<S> Default for DrawChs2D<S> {
    fn default() -> (r: DrawChs2D<S>)
        ensures
            r@.len() == 0,
    {
        DrawChs2D(Vec::new())
    }
}

impl<S: Clone> DrawChs2D<S> {
    pub fn new(chs: Vec<Vec<DrawCh<S>>>) -> (r: DrawChs2D<S>)
        ensures
            r.0 == chs,
    {
        DrawChs2D(chs)
    }

    /// `height` rows of `width` spaces, each with a clone of `sty`.
    pub fn new_empty_of_size(width: usize, height: usize, sty: S) -> (r: DrawChs2D<S>)
        ensures
            r@.len() == height,
            forall|y: int| 0 <= y < height ==> (#[trigger] r@[y]).len() == width,
            forall|y: int, x: int|
                0 <= y < height && 0 <= x < width ==> (#[trigger] r@[y][x]).ch == ChPlus::Char(' ')
                    && cloned(sty, r@[y][x].style),
    {
        let blank = DrawCh { ch: ChPlus::Char(' '), style: sty };
        let mut out: Vec<Vec<DrawCh<S>>> = Vec::new();
        let mut y: usize = 0;
        while y < height
            invariant
                y <= height,
                blank.ch == ChPlus::Char(' '),
                blank.style == sty,
                out@.len() == y,
                forall|j: int| 0 <= j < y ==> (#[trigger] out@[j]@).len() == width,
                forall|j: int, x: int|
                    0 <= j < y && 0 <= x < width ==> clone_of(blank, #[trigger] out@[j]@[x]),
            decreases height - y,
        {
            out.push(repeated(&blank, width));
            y = y + 1;
        }
        let r = DrawChs2D(out);
        assert forall|j: int| 0 <= j < height implies (#[trigger] r@[j]).len() == width by {
            assert(r@[j] == out@[j]@);
        }
        assert forall|j: int, x: int| 0 <= j < height && 0 <= x < width implies (#[trigger] r@[j][x]).ch
            == ChPlus::Char(' ') && cloned(sty, r@[j][x].style) by {
            assert(r@[j] == out@[j]@);
            assert(clone_of(blank, out@[j]@[x]));
        }
        r
    }

    /// A grid of the one character `ch` with the style `sty`.
    pub fn from_char(ch: char, sty: S) -> (r: DrawChs2D<S>)
        ensures
            r@ == seq![seq![DrawCh { ch: ChPlus::Char(ch), style: sty }]],
    {
        let d = DrawCh { ch: ChPlus::Char(ch), style: sty };
        let row = vec![d];
        assert(row@ =~= seq![d]);
        let r = DrawChs2D(vec![row]);
        assert(r@[0] == row@);
        assert(r@ =~= seq![seq![d]]);
        r
    }

    /// One row holding the given characters.
    pub fn from_draw_chs_horizontal(chs: Vec<DrawCh<S>>) -> (r: DrawChs2D<S>)
        ensures
            r@ == seq![chs@],
    {
        let ghost c = chs@;
        let r = DrawChs2D(vec![chs]);
        assert(r@ =~= seq![c]);
        r
    }

    /// One column holding the given characters, the first on top.
    pub fn from_draw_chs_vertical(chs: Vec<DrawCh<S>>) -> (r: DrawChs2D<S>)
        ensures
            r@.len() == chs@.len(),
            forall|y: int| 0 <= y < chs@.len() ==> #[trigger] r@[y] == seq![chs@[y]],
    {
        let ghost c = chs@;
        let mut out: Vec<Vec<DrawCh<S>>> = Vec::new();
        for ch in it: chs
            invariant
                it.seq() == c,
                out@.len() == it.index(),
                forall|j: int| 0 <= j < it.index() ==> #[trigger] out@[j]@ == seq![c[j]],
        {
            let row = vec![ch];
            assert(row@ =~= seq![ch]);
            out.push(row);
        }
        let r = DrawChs2D(out);
        assert forall|j: int| 0 <= j < c.len() implies #[trigger] r@[j] == seq![c[j]] by {
            assert(r@[j] == out@[j]@);
        }
        r
    }

    /// The length of the top row, or zero where there are no rows.
    pub fn width(&self) -> (w: usize)
        ensures
            w == grid_width(self@),
    {
        if self.0.len() == 0 {
            return 0;
        }
        self.0[0].len()
    }

    pub fn height(&self) -> (h: usize)
        ensures
            h == self@.len(),
    {
        self.0.len()
    }

    /// Width and height, each cut to 16 bits.
    pub fn size(&self) -> (s: Size)
        ensures
            s.width == grid_width(self@) as u16,
            s.height == self@.len() as u16,
    {
        Size::new(self.width() as u16, self.height() as u16)
    }

    /// Replaces the cell at (`x`, `y`) by `ch`; outside the grid nothing changes.
    pub fn set_ch(&mut self, x: usize, y: usize, ch: DrawCh<S>)
        ensures
            final(self)@ == with_ch(old(self)@, x as int, y as int, ch),
    {
        if y >= self.0.len() {
            return;
        }
        if x >= self.0[y].len() {
            return;
        }
        let mut row = self.take_row(y);
        row.set(x, ch);
        self.put_row(y, row);
        assert(self@ =~= with_ch(old(self)@, x as int, y as int, ch));
    }

    /// Places a positioned character; outside the grid nothing changes.
    pub fn apply_draw_ch_pos(&mut self, ch: DrawChPos<S>)
        ensures
            final(self)@ == with_ch(old(self)@, ch.x as int, ch.y as int, ch.ch),
    {
        self.set_ch(ch.x as usize, ch.y as usize, ch.ch);
    }

    /// Places each positioned character in turn; a later one overwrites an earlier one at the
    /// same position.
    pub fn apply_vec_draw_ch_pos(&mut self, chs: Vec<DrawChPos<S>>)
        ensures
            final(self)@ == applied(old(self)@, chs@),
    {
        let ghost c = chs@;
        let ghost g0 = self@;
        for ch in it: chs
            invariant
                it.seq() == c,
                self@ == applied(g0, c.take(it.index() as int)),
        {
            proof {
                assert(c.take(it.index() + 1).drop_last() =~= c.take(it.index() as int));
            }
            self.apply_draw_ch_pos(ch);
        }
        proof {
            assert(c.take(c.len() as int) =~= c);
        }
    }

    /// Takes row `y` out, leaving an empty row in its place.
    fn take_row(&mut self, y: usize) -> (r: Vec<DrawCh<S>>)
        requires
            y < old(self)@.len(),
        ensures
            r@ == old(self)@[y as int],
            final(self)@ == old(self)@.update(y as int, Seq::empty()),
    {
        let mut r: Vec<DrawCh<S>> = Vec::new();
        std::mem::swap(&mut r, &mut self.0[y]);
        assert(self@ =~= old(self)@.update(y as int, Seq::empty()));
        r
    }

    /// Puts `row` in place of row `y`.
    fn put_row(&mut self, y: usize, row: Vec<DrawCh<S>>)
        requires
            y < old(self)@.len(),
        ensures
            final(self)@ == old(self)@.update(y as int, row@),
    {
        let mut r = row;
        std::mem::swap(&mut r, &mut self.0[y]);
        assert(self@ =~= old(self)@.update(y as int, row@));
    }

    /// Adds `amount` clones of `ch` to the left of every row.
    pub fn pad_left(&mut self, ch: DrawCh<S>, amount: usize)
        ensures
            padded_left(old(self)@, final(self)@, ch, amount as nat),
    {
        let ghost g0 = self@;
        let h = self.0.len();
        let mut y: usize = 0;
        while y < h
            invariant
                h == g0.len(),
                self@.len() == h,
                y <= h,
                forall|j: int| y <= j < h ==> #[trigger] self@[j] == g0[j],
                forall|j: int|
                    0 <= j < y ==> {
                        &&& (#[trigger] self@[j]).len() == g0[j].len() + amount
                        &&& forall|x: int| 0 <= x < amount ==> clone_of(ch, #[trigger] self@[j][x])
                        &&& self@[j].subrange(amount as int, self@[j].len() as int) == g0[j]
                    },
            decreases h - y,
        {
            let mut row = self.take_row(y);
            let mut new_row = repeated(&ch, amount);
            let ghost old_row = row@;
            new_row.append(&mut row);
            assert(new_row@.subrange(amount as int, new_row@.len() as int) =~= old_row);
            self.put_row(y, new_row);
            y = y + 1;
        }
    }

    /// Adds `amount` clones of `ch` to the right of every row.
    pub fn pad_right(&mut self, ch: DrawCh<S>, amount: usize)
        ensures
            padded_right(old(self)@, final(self)@, ch, amount as nat),
    {
        let ghost g0 = self@;
        let h = self.0.len();
        let mut y: usize = 0;
        while y < h
            invariant
                h == g0.len(),
                self@.len() == h,
                y <= h,
                forall|j: int| y <= j < h ==> #[trigger] self@[j] == g0[j],
                forall|j: int|
                    0 <= j < y ==> {
                        &&& (#[trigger] self@[j]).len() == g0[j].len() + amount
                        &&& self@[j].subrange(0, g0[j].len() as int) == g0[j]
                        &&& forall|x: int|
                            g0[j].len() <= x < self@[j].len() ==> clone_of(ch, #[trigger] self@[j][x])
                    },
            decreases h - y,
        {
            let mut row = self.take_row(y);
            let ghost old_row = row@;
            let mut tail = repeated(&ch, amount);
            row.append(&mut tail);
            assert(row@.subrange(0, old_row.len() as int) =~= old_row);
            self.put_row(y, row);
            y = y + 1;
        }
    }

    /// Adds `amount` rows on top, each of as many clones of `ch` as the grid was wide.
    pub fn pad_top(&mut self, ch: DrawCh<S>, amount: usize)
        ensures
            padded_top(old(self)@, final(self)@, ch, amount as nat),
    {
        let w = self.width();
        let mut top = new_rows(&ch, w, amount);
        let ghost g0 = self@;
        let ghost t = top@;
        top.append(&mut self.0);
        std::mem::swap(&mut top, &mut self.0);
        assert(self@.subrange(amount as int, self@.len() as int) =~= g0);
        assert forall|y: int| 0 <= y < amount implies #[trigger] self@[y] == t[y]@ by {}
    }

    /// Adds `amount` rows at the bottom, each of as many clones of `ch` as the grid was wide.
    pub fn pad_bottom(&mut self, ch: DrawCh<S>, amount: usize)
        ensures
            padded_bottom(old(self)@, final(self)@, ch, amount as nat),
    {
        let w = self.width();
        let mut bottom = new_rows(&ch, w, amount);
        let ghost g0 = self@;
        let ghost b = bottom@;
        self.0.append(&mut bottom);
        assert(self@.subrange(0, g0.len() as int) =~= g0);
        assert forall|y: int| g0.len() <= y < self@.len() implies #[trigger] self@[y] == b[y - g0.len()]@ by {}
    }

    /// Removes the leftmost `amount` cells of every row; every row must have that many.
    pub fn remove_left(&mut self, amount: usize)
        requires
            forall|y: int| 0 <= y < old(self)@.len() ==> amount <= (#[trigger] old(self)@[y]).len(),
        ensures
            final(self)@ == cut_left(old(self)@, amount as nat),
    {
        let ghost g0 = self@;
        let h = self.0.len();
        let mut y: usize = 0;
        while y < h
            invariant
                h == g0.len(),
                self@.len() == h,
                y <= h,
                forall|j: int| 0 <= j < h ==> amount <= (#[trigger] g0[j]).len(),
                forall|j: int| y <= j < h ==> #[trigger] self@[j] == g0[j],
                forall|j: int|
                    0 <= j < y ==> #[trigger] self@[j] == g0[j].subrange(amount as int, g0[j].len() as int),
            decreases h - y,
        {
            let mut row = self.take_row(y);
            let rest = row.split_off(amount);
            self.put_row(y, rest);
            y = y + 1;
        }
    }

    /// Removes the rightmost `amount` cells of every row; a shorter row becomes empty.
    pub fn remove_right(&mut self, amount: usize)
        ensures
            final(self)@ == cut_right(old(self)@, amount as nat),
    {
        let ghost g0 = self@;
        let h = self.0.len();
        let mut y: usize = 0;
        while y < h
            invariant
                h == g0.len(),
                self@.len() == h,
                y <= h,
                forall|j: int| y <= j < h ==> #[trigger] self@[j] == g0[j],
                forall|j: int|
                    0 <= j < y ==> #[trigger] self@[j] == g0[j].subrange(
                        0,
                        if g0[j].len() >= amount { g0[j].len() - amount } else { 0 },
                    ),
            decreases h - y,
        {
            let mut row = self.take_row(y);
            let keep = row.len().saturating_sub(amount);
            row.truncate(keep);
            self.put_row(y, row);
            y = y + 1;
        }
    }

    /// Removes the top `amount` rows; the grid must have that many.
    pub fn remove_top(&mut self, amount: usize)
        requires
            amount <= old(self)@.len(),
        ensures
            final(self)@ == cut_top(old(self)@, amount as nat),
    {
        let rest = self.0.split_off(amount);
        self.0 = rest;
        assert(self@ =~= cut_top(old(self)@, amount as nat));
    }

    /// Removes the bottom `amount` rows; a grid with fewer rows becomes empty.
    pub fn remove_bottom(&mut self, amount: usize)
        ensures
            final(self)@ == cut_bottom(old(self)@, amount as nat),
    {
        let keep = self.0.len().saturating_sub(amount);
        self.0.truncate(keep);
        assert(self@ =~= cut_bottom(old(self)@, amount as nat));
    }

    /// Removes the rows at the bottom that hold nothing but spaces.
    pub fn trim_bottom_whitespace(&mut self)
        ensures
            trailing_blank_rows(old(self)@) <= old(self)@.len(),
            final(self)@ == old(self)@.subrange(0, old(self)@.len() - trailing_blank_rows(old(self)@)),
    {
        let ghost g = self@;
        let h = self.0.len();
        let mut trim: usize = 0;
        proof {
            assert(g.subrange(0, h as int) =~= g);
        }
        while trim < h && is_blank_row(&self.0[h - 1 - trim])
            invariant
                g == self@,
                h == g.len(),
                trim <= h,
                trailing_blank_rows(g) == trim + trailing_blank_rows(g.subrange(0, h - trim)),
            decreases h - trim,
        {
            proof {
                lemma_trailing_blank_rows_step(g, (h - trim) as nat);
            }
            trim = trim + 1;
        }
        proof {
            if trim < h {
                lemma_trailing_blank_rows_step(g, (h - trim) as nat);
            } else {
                assert(g.subrange(0, 0) =~= Seq::<Seq<DrawCh<S>>>::empty());
            }
        }
        self.remove_bottom(trim);
    }

    /// Removes the rows at the top that hold nothing but spaces.
    pub fn trim_top_whitespace(&mut self)
        ensures
            leading_blank_rows(old(self)@) <= old(self)@.len(),
            final(self)@ == old(self)@.subrange(leading_blank_rows(old(self)@) as int, old(self)@.len() as int),
    {
        let ghost g = self@;
        let h = self.0.len();
        let mut trim: usize = 0;
        proof {
            assert(g.subrange(0, h as int) =~= g);
        }
        while trim < h && is_blank_row(&self.0[trim])
            invariant
                g == self@,
                h == g.len(),
                trim <= h,
                leading_blank_rows(g) == trim + leading_blank_rows(g.subrange(trim as int, h as int)),
            decreases h - trim,
        {
            proof {
                lemma_leading_blank_rows_step(g, trim as nat);
            }
            trim = trim + 1;
        }
        proof {
            if trim < h {
                lemma_leading_blank_rows_step(g, trim as nat);
            } else {
                assert(g.subrange(h as int, h as int) =~= Seq::<Seq<DrawCh<S>>>::empty());
            }
        }
        self.remove_top(trim);
    }

    /// Puts `chs2` to the right of this grid. An empty grid gives (a clone of) the other one;
    /// otherwise both must have the same height, else `HeightMismatch`.
    pub fn concat_left_right(&self, chs2: DrawChs2D<S>) -> (r: Result<DrawChs2D<S>, ChsError>)
        ensures
            r is Ok <==> (self@.len() == 0 || chs2@.len() == 0 || self@.len() == chs2@.len()),
            r matches Ok(g) ==> grid_clone_of(side_by_side(self@, chs2@), g@),
            r matches Err(e) ==> e == ChsError::HeightMismatch,
    {
        if self.0.len() == 0 && chs2.0.len() != 0 {
            return Ok(chs2.clone());
        }
        if self.0.len() != 0 && chs2.0.len() == 0 {
            return Ok(self.clone());
        }
        if self.height() != chs2.height() {
            return Err(ChsError::HeightMismatch);
        }
        let ghost a = self@;
        let ghost b = chs2@;
        let h = self.0.len();
        let mut out: Vec<Vec<DrawCh<S>>> = Vec::new();
        let mut y: usize = 0;
        while y < h
            invariant
                a == self@,
                b == chs2@,
                h == a.len(),
                h == b.len(),
                y <= h,
                out@.len() == y,
                forall|j: int| 0 <= j < y ==> row_clone_of(a[j] + b[j], #[trigger] out@[j]@),
            decreases h - y,
        {
            let mut row = clone_row(&self.0[y]);
            let mut right = clone_row(&chs2.0[y]);
            let ghost r1 = row@;
            let ghost r2 = right@;
            row.append(&mut right);
            assert forall|x: int| 0 <= x < a[y as int].len() + b[y as int].len() implies clone_of(
                (a[y as int] + b[y as int])[x],
                #[trigger] row@[x],
            ) by {
                if x < a[y as int].len() {
                    assert(row@[x] == r1[x]);
                } else {
                    assert(row@[x] == r2[x - a[y as int].len()]);
                }
            }
            out.push(row);
            y = y + 1;
        }
        let g = DrawChs2D(out);
        assert(side_by_side(a, b).len() == h);
        assert forall|j: int| 0 <= j < h implies row_clone_of(
            #[trigger] side_by_side(a, b)[j],
            g@[j],
        ) by {
            assert(g@[j] == out@[j]@);
        }
        Ok(g)
    }

    /// Puts `chs2` below this grid.
    pub fn concat_top_bottom(&self, chs2: DrawChs2D<S>) -> (r: DrawChs2D<S>)
        ensures
            grid_clone_of(self@ + chs2@, r@),
    {
        if self.0.len() == 0 && chs2.0.len() != 0 {
            assert(self@ + chs2@ =~= chs2@);
            return chs2.clone();
        }
        if self.0.len() != 0 && chs2.0.len() == 0 {
            assert(self@ + chs2@ =~= self@);
            return self.clone();
        }
        let mut top = self.clone();
        let mut bottom = chs2.clone();
        let ghost t = top@;
        let ghost bt = bottom@;
        top.0.append(&mut bottom.0);
        assert(top@ =~= t + bt);
        top
    }

    /// Gives the cell at (`x`, `y`) the style `sty`; outside the grid nothing changes.
    pub fn change_style_at_xy(&mut self, x: usize, y: usize, sty: S)
        ensures
            final(self)@ == if y < old(self)@.len() && x < old(self)@[y as int].len() {
                old(self)@.update(
                    y as int,
                    old(self)@[y as int].update(
                        x as int,
                        DrawCh { ch: old(self)@[y as int][x as int].ch, style: sty },
                    ),
                )
            } else {
                old(self)@
            },
    {
        if y >= self.0.len() {
            return;
        }
        if x >= self.0[y].len() {
            return;
        }
        let mut row = self.take_row(y);
        let c = row[x].ch.clone();
        row.set(x, DrawCh { ch: c, style: sty });
        self.put_row(y, row);
        assert(self@ =~= old(self)@.update(
            y as int,
            old(self)@[y as int].update(
                x as int,
                DrawCh { ch: old(self)@[y as int][x as int].ch, style: sty },
            ),
        ));
    }

    /// Gives every cell of row `y` a clone of `sty`; outside the grid nothing changes.
    pub fn change_style_along_y(&mut self, y: usize, sty: S)
        ensures
            final(self)@.len() == old(self)@.len(),
            forall|j: int| 0 <= j < old(self)@.len() && j != y ==> #[trigger] final(self)@[j] == old(self)@[j],
            y < old(self)@.len() ==> restyled(old(self)@[y as int], final(self)@[y as int], sty),
    {
        if y >= self.0.len() {
            return;
        }
        let row = self.take_row(y);
        let new_row = restyle_row(&row, &sty);
        self.put_row(y, new_row);
    }

    /// Gives the cell in column `x` of every row a clone of `sty`, where `x` lies within the
    /// top row; every row must then reach column `x`. The grid must have a row.
    pub fn change_style_along_x(&mut self, x: usize, sty: S)
        requires
            old(self)@.len() > 0,
            x < old(self)@[0].len() ==> forall|j: int|
                0 <= j < old(self)@.len() ==> x < (#[trigger] old(self)@[j]).len(),
        ensures
            x >= old(self)@[0].len() ==> final(self)@ == old(self)@,
            final(self)@.len() == old(self)@.len(),
            forall|j: int| 0 <= j < old(self)@.len() ==> (#[trigger] final(self)@[j]).len() == old(self)@[j].len(),
            forall|j: int, i: int|
                0 <= j < old(self)@.len() && 0 <= i < old(self)@[j].len() && i != x
                    ==> #[trigger] final(self)@[j][i] == old(self)@[j][i],
            x < old(self)@[0].len() ==> forall|j: int|
                0 <= j < old(self)@.len() ==> (#[trigger] final(self)@[j][x as int]).ch == old(self)@[j][x as int].ch
                    && cloned(sty, final(self)@[j][x as int].style),
    {
        if x >= self.0[0].len() {
            return;
        }
        let ghost g0 = self@;
        let h = self.0.len();
        let mut y: usize = 0;
        while y < h
            invariant
                h == g0.len(),
                self@.len() == h,
                y <= h,
                forall|j: int| 0 <= j < h ==> x < (#[trigger] g0[j]).len(),
                forall|j: int| y <= j < h ==> #[trigger] self@[j] == g0[j],
                forall|j: int| 0 <= j < h ==> (#[trigger] self@[j]).len() == g0[j].len(),
                forall|j: int, i: int|
                    0 <= j < h && 0 <= i < g0[j].len() && i != x ==> #[trigger] self@[j][i] == g0[j][i],
                forall|j: int|
                    0 <= j < y ==> (#[trigger] self@[j][x as int]).ch == g0[j][x as int].ch && cloned(
                        sty,
                        self@[j][x as int].style,
                    ),
            decreases h - y,
        {
            let mut row = self.take_row(y);
            let c = row[x].ch.clone();
            row.set(x, DrawCh { ch: c, style: sty.clone() });
            self.put_row(y, row);
            y = y + 1;
        }
    }

    /// Gives every cell a clone of `sty`.
    pub fn change_all_styles(&mut self, sty: S)
        ensures
            final(self)@.len() == old(self)@.len(),
            forall|j: int| 0 <= j < old(self)@.len() ==> restyled(old(self)@[j], #[trigger] final(self)@[j], sty),
    {
        let ghost g0 = self@;
        let h = self.0.len();
        let mut y: usize = 0;
        while y < h
            invariant
                h == g0.len(),
                self@.len() == h,
                y <= h,
                forall|j: int| y <= j < h ==> #[trigger] self@[j] == g0[j],
                forall|j: int| 0 <= j < y ==> restyled(g0[j], #[trigger] self@[j], sty),
            decreases h - y,
        {
            let row = self.take_row(y);
            let new_row = restyle_row(&row, &sty);
            self.put_row(y, new_row);
            y = y + 1;
        }
    }

    /// The grid turned on its diagonal: row `x` of the result is column `x` of this grid. Every
    /// row must be at least as long as the top row.
    pub fn rotate_90_deg(&self) -> (r: DrawChs2D<S>)
        requires
            forall|j: int| 0 <= j < self@.len() ==> grid_width(self@) <= (#[trigger] self@[j]).len(),
        ensures
            rotated(self@, r@),
    {
        let w = self.width();
        let h = self.height();
        let mut out: Vec<Vec<DrawCh<S>>> = Vec::new();
        let mut x: usize = 0;
        while x < w
            invariant
                w == grid_width(self@),
                h == self@.len(),
                forall|j: int| 0 <= j < h ==> w <= (#[trigger] self@[j]).len(),
                x <= w,
                out@.len() == x,
                forall|i: int| 0 <= i < x ==> (#[trigger] out@[i]@).len() == h,
                forall|i: int, j: int|
                    0 <= i < x && 0 <= j < h ==> clone_of(self@[j][i], #[trigger] out@[i]@[j]),
            decreases w - x,
        {
            let mut col: Vec<DrawCh<S>> = Vec::new();
            let mut y: usize = 0;
            while y < h
                invariant
                    h == self@.len(),
                    forall|j: int| 0 <= j < h ==> w <= (#[trigger] self@[j]).len(),
                    x < w,
                    y <= h,
                    col@.len() == y,
                    forall|j: int| 0 <= j < y ==> clone_of(self@[j][x as int], #[trigger] col@[j]),
                decreases h - y,
            {
                assert(x < self@[y as int].len());
                col.push(self.0[y][x].clone());
                y = y + 1;
            }
            out.push(col);
            x = x + 1;
        }
        let r = DrawChs2D(out);
        assert forall|i: int| 0 <= i < w implies #[trigger] r@[i] == out@[i]@ by {}
        r
    }

    /// The characters of each row written out, the rows separated by newlines.
    pub fn to_text(&self) -> (s: String)
        ensures
            s@ == grid_text(self@),
    {
        let mut out = String::new();
        let h = self.0.len();
        let mut y: usize = 0;
        while y < h
            invariant
                h == self@.len(),
                y <= h,
                out@ == grid_text(self@.take(y as int)),
            decreases h - y,
        {
            proof {
                reveal_strlit("\n");
            }
            if y != 0 {
                out.append("\n");
            }
            let row_s = row_to_text(&self.0[y]);
            out.append(row_s.as_str());
            proof {
                let t = self@.take(y + 1);
                assert(t.drop_last() =~= self@.take(y as int));
                assert(t.last() == self@[y as int]);
                if y == 0 {
                    assert(t.len() == 1);
                }
            }
            y = y + 1;
        }
        proof {
            assert(self@.take(h as int) =~= self@);
        }
        out
    }

    /// One row for each row of `text`, each character with a clone of `sty`.
    pub fn from_runes(text: &[Vec<char>], sty: S) -> (r: DrawChs2D<S>)
        ensures
            r@.len() == text@.len(),
            forall|y: int| 0 <= y < text@.len() ==> (#[trigger] r@[y]).len() == text@[y]@.len(),
            forall|y: int, x: int|
                0 <= y < text@.len() && 0 <= x < text@[y]@.len() ==> (#[trigger] r@[y][x]).ch
                    == ChPlus::Char(text@[y]@[x]) && cloned(sty, r@[y][x].style),
    {
        let mut out: Vec<Vec<DrawCh<S>>> = Vec::new();
        let mut y: usize = 0;
        while y < text.len()
            invariant
                y <= text@.len(),
                out@.len() == y,
                forall|j: int| 0 <= j < y ==> (#[trigger] out@[j]@).len() == text@[j]@.len(),
                forall|j: int, x: int|
                    0 <= j < y && 0 <= x < text@[j]@.len() ==> (#[trigger] out@[j]@[x]).ch
                        == ChPlus::Char(text@[j]@[x]) && cloned(sty, out@[j]@[x].style),
            decreases text@.len() - y,
        {
            let line = &text[y];
            let mut row: Vec<DrawCh<S>> = Vec::new();
            let mut x: usize = 0;
            while x < line.len()
                invariant
                    x <= line@.len(),
                    row@.len() == x,
                    forall|i: int|
                        0 <= i < x ==> (#[trigger] row@[i]).ch == ChPlus::Char(line@[i]) && cloned(
                            sty,
                            row@[i].style,
                        ),
                decreases line@.len() - x,
            {
                row.push(DrawCh { ch: ChPlus::Char(char_at(line, x)), style: sty.clone() });
                x = x + 1;
            }
            out.push(row);
            y = y + 1;
        }
        let r = DrawChs2D(out);
        assert forall|j: int| 0 <= j < text@.len() implies #[trigger] r@[j] == out@[j]@ by {}
        r
    }

    /// The lines of `text` (as `str::lines` splits them), each padded with spaces to the
    /// length of the longest line; every cell has a clone of `sty`.
    pub fn from_string(text: String, sty: S) -> (r: DrawChs2D<S>)
        ensures
            r@.len() == text_lines(text@).len(),
            forall|y: int|
                0 <= y < r@.len() ==> (#[trigger] r@[y]).len() == max_line_len(text_lines(text@)),
            forall|y: int, x: int|
                0 <= y < r@.len() && 0 <= x < r@[y].len() ==> (#[trigger] r@[y][x]).ch == text_cell(
                    text_lines(text@),
                    y,
                    x,
                ) && cloned(sty, r@[y][x].style),
    {
        let chars = str_chars(text.as_str());
        let lines = split_lines(&chars);
        let ghost ls = text_lines(text@);
        let w = longest_line(&lines);
        let h = lines.len();
        let mut out: Vec<Vec<DrawCh<S>>> = Vec::new();
        let mut y: usize = 0;
        while y < h
            invariant
                ls == lines_view(lines@),
                h == ls.len(),
                w == max_line_len(ls),
                y <= h,
                out@.len() == y,
                forall|j: int| 0 <= j < y ==> (#[trigger] out@[j]@).len() == w,
                forall|j: int, x: int|
                    0 <= j < y && 0 <= x < w ==> (#[trigger] out@[j]@[x]).ch == text_cell(ls, j, x)
                        && cloned(sty, out@[j]@[x].style),
            decreases h - y,
        {
            let line = &lines[y];
            assert(line@ == ls[y as int]);
            let mut row: Vec<DrawCh<S>> = Vec::new();
            let mut x: usize = 0;
            while x < w
                invariant
                    line@ == ls[y as int],
                    0 <= y < ls.len(),
                    x <= w,
                    row@.len() == x,
                    forall|i: int|
                        0 <= i < x ==> (#[trigger] row@[i]).ch == text_cell(ls, y as int, i) && cloned(
                            sty,
                            row@[i].style,
                        ),
                decreases w - x,
            {
                let c = if x < line.len() {
                    char_at(line, x)
                } else {
                    ' '
                };
                row.push(DrawCh { ch: ChPlus::Char(c), style: sty.clone() });
                x = x + 1;
            }
            out.push(row);
            y = y + 1;
        }
        let r = DrawChs2D(out);
        assert forall|j: int| 0 <= j < h implies #[trigger] r@[j] == out@[j]@ by {}
        r
    }

    /// Every cell with its position, row by row from the top, each row from the left; the cell
    /// in column `x` of row `y` is placed at (`start_x + x`, `start_y + y`), the offsets taken
    /// as 16-bit numbers. No coordinate may pass 65535.
    pub fn to_draw_ch_pos(&self, start_x: u16, start_y: u16) -> (v: Vec<DrawChPos<S>>)
        requires
            forall|y: int, x: int|
                0 <= y < self@.len() && 0 <= x < self@[y].len() ==> #[trigger] fits_at(
                    start_x,
                    start_y,
                    x,
                    y,
                ),
        ensures
            v@.len() == placed(self@, start_x, start_y).len(),
            forall|k: int|
                0 <= k < v@.len() ==> clone_of(placed(self@, start_x, start_y)[k].0, (#[trigger] v@[k]).ch)
                    && v@[k].x == placed(self@, start_x, start_y)[k].1 && v@[k].y == placed(
                    self@,
                    start_x,
                    start_y,
                )[k].2,
    {
        let ghost g = self@;
        let mut out: Vec<DrawChPos<S>> = Vec::new();
        let h = self.0.len();
        let mut y: usize = 0;
        while y < h
            invariant
                g == self@,
                h == g.len(),
                y <= h,
                forall|j: int, x: int|
                    0 <= j < g.len() && 0 <= x < g[j].len() ==> #[trigger] fits_at(start_x, start_y, x, j),
                out@.len() == placed(g.take(y as int), start_x, start_y).len(),
                forall|k: int|
                    0 <= k < out@.len() ==> clone_of(placed(g.take(y as int), start_x, start_y)[k].0, (#[trigger] out@[k]).ch)
                        && out@[k].x == placed(g.take(y as int), start_x, start_y)[k].1 && out@[k].y
                        == placed(g.take(y as int), start_x, start_y)[k].2,
            decreases h - y,
        {
            let ghost before = placed(g.take(y as int), start_x, start_y);
            let ghost base = out@.len();
            let row = &self.0[y];
            assert(row@ == g[y as int]);
            let mut x: usize = 0;
            while x < row.len()
                invariant
                    g == self@,
                    row@ == g[y as int],
                    0 <= y < g.len(),
                    x <= row@.len(),
                    forall|j: int, i: int|
                        0 <= j < g.len() && 0 <= i < g[j].len() ==> #[trigger] fits_at(start_x, start_y, i, j),
                    out@.len() == base + x,
                    base == before.len(),
                    forall|k: int|
                        0 <= k < base ==> clone_of(before[k].0, (#[trigger] out@[k]).ch)
                            && out@[k].x == before[k].1 && out@[k].y == before[k].2,
                    forall|k: int|
                        base <= k < out@.len() ==> clone_of(row@[k - base], (#[trigger] out@[k]).ch)
                            && out@[k].x == start_x + (#[verifier::truncate] ((k - base) as u16)) && out@[k].y == start_y
                            + (y as u16),
                decreases row@.len() - x,
            {
                assert(fits_at(start_x, start_y, x as int, y as int));
                #[verifier::truncate]
                let xo = x as u16;
                #[verifier::truncate]
                let yo = y as u16;
                out.push(DrawChPos { ch: row[x].clone(), x: start_x + xo, y: start_y + yo });
                x = x + 1;
            }
            proof {
                let t = g.take(y + 1);
                assert(t.drop_last() =~= g.take(y as int));
                assert(t.last() == g[y as int]);
                assert(t.len() - 1 == y);
            }
            y = y + 1;
        }
        proof {
            assert(g.take(h as int) =~= g);
        }
        out
    }

    /// A grid large enough to hold every positioned character: as wide as one past the largest
    /// x and as high as one past the largest y. A cell holds a clone of the last of `chs` at its
    /// position, or a clone of `default_ch` where there is none.
    pub fn from_vec_draw_ch_pos(chs: Vec<DrawChPos<S>>, default_ch: DrawCh<S>) -> (r: DrawChs2D<S>)
        ensures
            r@.len() == max_y(chs@) + 1,
            forall|y: int| 0 <= y < r@.len() ==> (#[trigger] r@[y]).len() == max_x(chs@) + 1,
            forall|y: int, x: int|
                0 <= y < r@.len() && 0 <= x < r@[y].len() ==> if last_at(chs@, x, y) >= 0 {
                    clone_of(chs@[last_at(chs@, x, y)].ch, #[trigger] r@[y][x])
                } else {
                    clone_of(default_ch, r@[y][x])
                },
    {
        let mut mx: u16 = 0;
        let mut my: u16 = 0;
        let mut i: usize = 0;
        while i < chs.len()
            invariant
                i <= chs@.len(),
                mx == max_x(chs@.take(i as int)),
                my == max_y(chs@.take(i as int)),
            decreases chs@.len() - i,
        {
            proof {
                assert(chs@.take(i + 1).drop_last() =~= chs@.take(i as int));
            }
            if chs[i].x > mx {
                mx = chs[i].x;
            }
            if chs[i].y > my {
                my = chs[i].y;
            }
            i = i + 1;
        }
        proof {
            assert(chs@.take(chs@.len() as int) =~= chs@);
        }
        let w: usize = mx as usize + 1;
        let h: usize = my as usize + 1;
        let mut out = DrawChs2D(new_rows(&default_ch, w, h));
        assert forall|y: int| 0 <= y < h implies #[trigger] out@[y] == out.0@[y]@ by {}
        let mut k: usize = 0;
        while k < chs.len()
            invariant
                k <= chs@.len(),
                out@.len() == h,
                forall|y: int| 0 <= y < h ==> (#[trigger] out@[y]).len() == w,
                forall|y: int, x: int|
                    0 <= y < h && 0 <= x < w ==> if last_at(chs@.take(k as int), x, y) >= 0 {
                        clone_of(chs@[last_at(chs@.take(k as int), x, y)].ch, #[trigger] out@[y][x])
                    } else {
                        clone_of(default_ch, out@[y][x])
                    },
            decreases chs@.len() - k,
        {
            let c = chs[k].ch.clone();
            let px = chs[k].x as usize;
            let py = chs[k].y as usize;
            out.set_ch(px, py, c);
            proof {
                let t = chs@.take(k + 1);
                assert(t.drop_last() =~= chs@.take(k as int));
                assert(t.last() == chs@[k as int]);
                assert forall|y: int, x: int| 0 <= y < h && 0 <= x < w implies #[trigger] last_at(t, x, y) == if chs@[k as int].x == x && chs@[k as int].y == y {
                    k as int
                } else {
                    last_at(chs@.take(k as int), x, y)
                } by {}
                assert forall|y: int, x: int| 0 <= y < h && 0 <= x < w && last_at(t, x, y) >= 0 implies last_at(t, x, y) < k + 1 && chs@[last_at(t, x, y)] == t[last_at(t, x, y)] by {
                    lemma_last_at_bound(t, x, y);
                }
            }
            k = k + 1;
        }
        proof {
            assert(chs@.take(chs@.len() as int) =~= chs@);
            lemma_max_bounds(chs@);
        }
        out
    }
}

/// A line as `str::lines` gives it: a carriage return before the newline is dropped.
pub open spec fn strip_cr(l: Seq<char>) -> Seq<char> {
    if l.len() > 0 && l.last() == '\r' {
        l.drop_last()
    } else {
        l
    }
}

/// The finished lines and the line being read, after reading `s` from the start.
pub open spec fn lines_state(s: Seq<char>) -> (Seq<Seq<char>>, Seq<char>)
    decreases s.len(),
{
    if s.len() == 0 {
        (Seq::empty(), Seq::empty())
    } else {
        let st = lines_state(s.drop_last());
        if s.last() == '\n' {
            (st.0.push(strip_cr(st.1)), Seq::empty())
        } else {
            (st.0, st.1.push(s.last()))
        }
    }
}

/// The lines of a text as `str::lines` splits them: at each newline, a carriage return
/// before it dropped; a last line without a newline counts where it is not empty.
pub open spec fn text_lines(s: Seq<char>) -> Seq<Seq<char>> {
    let st = lines_state(s);
    if st.1.len() == 0 {
        st.0
    } else {
        st.0.push(st.1)
    }
}

/// The length of the longest line, zero where there is none.
pub open spec fn max_line_len(ls: Seq<Seq<char>>) -> nat
    decreases ls.len(),
{
    if ls.len() == 0 {
        0
    } else {
        let m = max_line_len(ls.drop_last());
        if ls.last().len() > m {
            ls.last().len()
        } else {
            m
        }
    }
}

/// The character of a text grid at column `x` of line `y`: the line's character, or a space
/// past its end.
pub open spec fn text_cell(ls: Seq<Seq<char>>, y: int, x: int) -> ChPlus {
    if x < ls[y].len() {
        ChPlus::Char(ls[y][x])
    } else {
        ChPlus::Char(' ')
    }
}

/// The characters of each line.
pub open spec fn lines_view(ls: Seq<Vec<char>>) -> Seq<Seq<char>> {
    ls.map_values(|l: Vec<char>| l@)
}

/// Splits a text into lines as `str::lines` does.
pub(crate) fn split_lines(text: &Vec<char>) -> (r: Vec<Vec<char>>)
    ensures
        lines_view(r@) == text_lines(text@),
{
    let mut done: Vec<Vec<char>> = Vec::new();
    let mut cur: Vec<char> = Vec::new();
    let mut i: usize = 0;
    while i < text.len()
        invariant
            i <= text@.len(),
            (lines_view(done@), cur@) == lines_state(text@.take(i as int)),
        decreases text@.len() - i,
    {
        let c = char_at(text, i);
        proof {
            assert(text@.take(i + 1).drop_last() =~= text@.take(i as int));
            assert(text@.take(i + 1).last() == c);
        }
        if c == '\n' {
            if cur.len() > 0 && char_at(&cur, cur.len() - 1) == '\r' {
                cur.pop();
            }
            let mut line: Vec<char> = Vec::new();
            std::mem::swap(&mut line, &mut cur);
            let ghost before = done@;
            done.push(line);
            assert(lines_view(done@) =~= lines_view(before).push(line@));
        } else {
            cur.push(c);
        }
        i = i + 1;
    }
    proof {
        assert(text@.take(text@.len() as int) =~= text@);
    }
    if cur.len() > 0 {
        let ghost before = done@;
        done.push(cur);
        assert(lines_view(done@) =~= lines_view(before).push(cur@));
    }
    done
}

/// The length of the longest line.
pub(crate) fn longest_line(lines: &Vec<Vec<char>>) -> (m: usize)
    ensures
        m == max_line_len(lines_view(lines@)),
{
    let mut m: usize = 0;
    let mut i: usize = 0;
    while i < lines.len()
        invariant
            i <= lines@.len(),
            m == max_line_len(lines_view(lines@).take(i as int)),
        decreases lines@.len() - i,
    {
        proof {
            let t = lines_view(lines@).take(i + 1);
            assert(t.drop_last() =~= lines_view(lines@).take(i as int));
            assert(t.last() == lines@[i as int]@);
        }
        if lines[i].len() > m {
            m = lines[i].len();
        }
        i = i + 1;
    }
    proof {
        assert(lines_view(lines@).take(lines@.len() as int) =~= lines_view(lines@));
    }
    m
}

/// Every cell of a grid with its position, row by row from the top and each row from the
/// left: column `x` of row `y` is placed at (`sx + x`, `sy + y`), the offsets taken as 16-bit
/// numbers.
pub open spec fn placed<T>(g: Seq<Seq<T>>, sx: u16, sy: u16) -> Seq<(T, int, int)>
    decreases g.len(),
{
    if g.len() == 0 {
        Seq::empty()
    } else {
        let y = g.len() - 1;
        placed(g.drop_last(), sx, sy) + Seq::new(
            g.last().len(),
            |x: int| (g.last()[x], sx + (x as u16), sy + (y as u16)),
        )
    }
}

/// (`sx`, `sy`) moved on by `x` and `y` (each taken as a 16-bit number) is still a pair of
/// 16-bit numbers.
pub open spec fn fits_at(sx: u16, sy: u16, x: int, y: int) -> bool {
    sx + (x as u16) <= u16::MAX && sy + (y as u16) <= u16::MAX
}

/// The characters `DrawChs2D::from_string` gives a text: its lines, each padded with spaces to
/// the length of the longest.
pub open spec fn text_grid(s: Seq<char>) -> Seq<Seq<ChPlus>> {
    let ls = text_lines(s);
    Seq::new(ls.len(), |y: int| Seq::new(max_line_len(ls), |x: int| text_cell(ls, y, x)))
}

proof fn lemma_text_grid_shape<S>(g: Seq<Seq<DrawCh<S>>>, tg: Seq<Seq<ChPlus>>, s: Seq<char>)
    requires
        tg == text_grid(s),
        g.len() == text_lines(s).len(),
        forall|y: int| 0 <= y < g.len() ==> (#[trigger] g[y]).len() == max_line_len(text_lines(s)),
        forall|y: int, x: int|
            0 <= y < g.len() && 0 <= x < g[y].len() ==> (#[trigger] g[y][x]).ch == text_cell(
                text_lines(s),
                y,
                x,
            ),
    ensures
        g.len() == tg.len(),
        forall|y: int| 0 <= y < g.len() ==> (#[trigger] g[y]).len() == tg[y].len(),
        forall|y: int, x: int| 0 <= y < g.len() && 0 <= x < g[y].len() ==> (#[trigger] g[y][x]).ch == tg[y][x],
{
}

/// Placing a grid and placing its characters give the same characters at the same positions.
proof fn lemma_placed_chs<S>(g: Seq<Seq<DrawCh<S>>>, tg: Seq<Seq<ChPlus>>, sx: u16, sy: u16)
    requires
        g.len() == tg.len(),
        forall|y: int| 0 <= y < g.len() ==> (#[trigger] g[y]).len() == tg[y].len(),
        forall|y: int, x: int| 0 <= y < g.len() && 0 <= x < g[y].len() ==> (#[trigger] g[y][x]).ch == tg[y][x],
    ensures
        placed(g, sx, sy).len() == placed(tg, sx, sy).len(),
        forall|k: int|
            0 <= k < placed(g, sx, sy).len() ==> (#[trigger] placed(g, sx, sy)[k]).0.ch == placed(tg, sx, sy)[k].0
                && placed(g, sx, sy)[k].1 == placed(tg, sx, sy)[k].1 && placed(g, sx, sy)[k].2
                == placed(tg, sx, sy)[k].2,
    decreases g.len(),
{
    if g.len() > 0 {
        lemma_placed_chs(g.drop_last(), tg.drop_last(), sx, sy);
        let a = placed(g.drop_last(), sx, sy);
        let b = placed(tg.drop_last(), sx, sy);
        assert forall|k: int| 0 <= k < placed(g, sx, sy).len() implies (#[trigger] placed(g, sx, sy)[k]).0.ch
            == placed(tg, sx, sy)[k].0 && placed(g, sx, sy)[k].1 == placed(tg, sx, sy)[k].1
            && placed(g, sx, sy)[k].2 == placed(tg, sx, sy)[k].2 by {
            if k < a.len() {
                assert(placed(g, sx, sy)[k] == a[k]);
                assert(placed(tg, sx, sy)[k] == b[k]);
            } else {
                assert(g.last() == g[g.len() - 1]);
                assert(tg.last() == tg[tg.len() - 1]);
            }
        }
    }
}

/// A property of every cell of a grid holds of every placed cell.
proof fn lemma_placed_all<S>(g: Seq<Seq<DrawCh<S>>>, f: spec_fn(DrawCh<S>) -> bool, sx: u16, sy: u16)
    requires
        forall|y: int, x: int| 0 <= y < g.len() && 0 <= x < g[y].len() ==> f(#[trigger] g[y][x]),
    ensures
        forall|k: int| 0 <= k < placed(g, sx, sy).len() ==> f((#[trigger] placed(g, sx, sy)[k]).0),
    decreases g.len(),
{
    if g.len() > 0 {
        let d = g.drop_last();
        assert forall|y: int, x: int| 0 <= y < d.len() && 0 <= x < d[y].len() implies f(#[trigger] d[y][x]) by {
            assert(d[y] == g[y]);
        }
        lemma_placed_all(d, f, sx, sy);
        let a = placed(d, sx, sy);
        assert forall|k: int| 0 <= k < placed(g, sx, sy).len() implies f((#[trigger] placed(g, sx, sy)[k]).0) by {
            if k < a.len() {
                assert(placed(g, sx, sy)[k] == a[k]);
            } else {
                let x = k - a.len();
                assert(g.last() == g[g.len() - 1]);
                assert(f(g[g.len() - 1][x]));
            }
        }
    }
}

/// The largest x of the positioned characters, zero where there are none.
pub open spec fn max_x<S>(chs: Seq<DrawChPos<S>>) -> u16
    decreases chs.len(),
{
    if chs.len() == 0 {
        0
    } else if chs.last().x > max_x(chs.drop_last()) {
        chs.last().x
    } else {
        max_x(chs.drop_last())
    }
}

/// The largest y of the positioned characters, zero where there are none.
pub open spec fn max_y<S>(chs: Seq<DrawChPos<S>>) -> u16
    decreases chs.len(),
{
    if chs.len() == 0 {
        0
    } else if chs.last().y > max_y(chs.drop_last()) {
        chs.last().y
    } else {
        max_y(chs.drop_last())
    }
}

/// The index of the last of `chs` at (`x`, `y`), or -1 where none is.
pub open spec fn last_at<S>(chs: Seq<DrawChPos<S>>, x: int, y: int) -> int
    decreases chs.len(),
{
    if chs.len() == 0 {
        -1
    } else if chs.last().x == x && chs.last().y == y {
        chs.len() - 1
    } else {
        last_at(chs.drop_last(), x, y)
    }
}

proof fn lemma_last_at_bound<S>(chs: Seq<DrawChPos<S>>, x: int, y: int)
    ensures
        -1 <= last_at(chs, x, y) < chs.len(),
        last_at(chs, x, y) >= 0 ==> chs[last_at(chs, x, y)].x == x && chs[last_at(chs, x, y)].y == y,
    decreases chs.len(),
{
    if chs.len() > 0 {
        lemma_last_at_bound(chs.drop_last(), x, y);
    }
}

proof fn lemma_max_bounds<S>(chs: Seq<DrawChPos<S>>)
    ensures
        forall|i: int| 0 <= i < chs.len() ==> (#[trigger] chs[i]).x <= max_x(chs) && chs[i].y <= max_y(chs),
    decreases chs.len(),
{
    if chs.len() > 0 {
        lemma_max_bounds(chs.drop_last());
        assert forall|i: int| 0 <= i < chs.len() implies (#[trigger] chs[i]).x <= max_x(chs) && chs[i].y <= max_y(chs) by {
            if i < chs.len() - 1 {
                assert(chs[i] == chs.drop_last()[i]);
            }
        }
    }
}

/// `r` is `g` turned on its diagonal: row `x` of `r` holds clones of column `x` of `g`, for
/// each column of the top row of `g`.
pub open spec fn rotated<S: Clone>(g: Seq<Seq<DrawCh<S>>>, r: Seq<Seq<DrawCh<S>>>) -> bool {
    &&& r.len() == grid_width(g)
    &&& forall|x: int| 0 <= x < grid_width(g) ==> (#[trigger] r[x]).len() == g.len()
    &&& forall|x: int, y: int|
        0 <= x < grid_width(g) && 0 <= y < g.len() ==> clone_of(g[y][x], #[trigger] r[x][y])
}

/// Turning a grid whose rows all have the top row's (non-zero) length twice gives back its
/// characters, in a grid of its shape; the first turn meets what the second asks.
pub proof fn lemma_rotate_twice<S: Clone>(g: Seq<Seq<DrawCh<S>>>, r: Seq<Seq<DrawCh<S>>>, r2: Seq<Seq<DrawCh<S>>>)
    requires
        grid_width(g) > 0,
        forall|y: int| 0 <= y < g.len() ==> (#[trigger] g[y]).len() == grid_width(g),
        rotated(g, r),
        rotated(r, r2),
    ensures
        forall|x: int| 0 <= x < r.len() ==> grid_width(r) <= (#[trigger] r[x]).len(),
        r2.len() == g.len(),
        forall|y: int| 0 <= y < g.len() ==> (#[trigger] r2[y]).len() == g[y].len(),
        forall|y: int, x: int| 0 <= y < g.len() && 0 <= x < g[y].len() ==> (#[trigger] r2[y][x]).ch == g[y][x].ch,
{
    assert(r.len() > 0);
    assert(grid_width(r) == g.len());
    assert forall|y: int, x: int| 0 <= y < g.len() && 0 <= x < g[y].len() implies (#[trigger] r2[y][x]).ch == g[y][x].ch by {
        assert(clone_of(g[y][x], r[x][y]));
        assert(clone_of(r[x][y], r2[y][x]));
    }
}

/// Putting one grid below another: the result has the rows of both, the first grid's on top.
pub proof fn lemma_concat_top_bottom_rows<S: Clone>(a: Seq<Seq<DrawCh<S>>>, b: Seq<Seq<DrawCh<S>>>, r: Seq<Seq<DrawCh<S>>>)
    requires
        grid_clone_of(a + b, r),
    ensures
        r.len() == a.len() + b.len(),
        forall|y: int| 0 <= y < a.len() ==> row_clone_of(a[y], #[trigger] r[y]),
        forall|y: int| 0 <= y < b.len() ==> row_clone_of(b[y], #[trigger] r[a.len() + y]),
{
    assert forall|y: int| 0 <= y < a.len() implies row_clone_of(a[y], #[trigger] r[y]) by {
        assert((a + b)[y] == a[y]);
    }
    assert forall|y: int| 0 <= y < b.len() implies row_clone_of(b[y], #[trigger] r[a.len() + y]) by {
        assert((a + b)[a.len() + y] == b[y]);
    }
}

/// Putting two grids of one height side by side gives a grid of that height, each row as long
/// as the two rows together.
pub proof fn lemma_concat_left_right_shape<S: Clone>(a: Seq<Seq<DrawCh<S>>>, b: Seq<Seq<DrawCh<S>>>, r: Seq<Seq<DrawCh<S>>>)
    requires
        a.len() == b.len(),
        grid_clone_of(side_by_side(a, b), r),
    ensures
        r.len() == a.len(),
        forall|y: int| 0 <= y < a.len() ==> (#[trigger] r[y]).len() == a[y].len() + b[y].len(),
{
    assert forall|y: int| 0 <= y < a.len() implies (#[trigger] r[y]).len() == a[y].len() + b[y].len() by {
        if a.len() > 0 {
            assert(side_by_side(a, b)[y] == a[y] + b[y]);
        }
    }
}

/// After the blank rows at the bottom are removed, the bottom row is not blank.
pub proof fn lemma_trim_bottom_done<S>(g: Seq<Seq<DrawCh<S>>>)
    ensures
        trailing_blank_rows(g) <= g.len(),
        trailing_blank_rows(g.subrange(0, g.len() - trailing_blank_rows(g))) == 0,
    decreases g.len(),
{
    if g.len() > 0 {
        lemma_trim_bottom_done(g.drop_last());
        if blank_row(g.last()) {
            assert(g.subrange(0, g.len() - trailing_blank_rows(g)) =~= g.drop_last().subrange(
                0,
                g.drop_last().len() - trailing_blank_rows(g.drop_last()),
            ));
        } else {
            assert(g.subrange(0, g.len() as int) =~= g);
        }
    }
}

/// After the blank rows at the top are removed, the top row is not blank.
pub proof fn lemma_trim_top_done<S>(g: Seq<Seq<DrawCh<S>>>)
    ensures
        leading_blank_rows(g) <= g.len(),
        leading_blank_rows(g.subrange(leading_blank_rows(g) as int, g.len() as int)) == 0,
    decreases g.len(),
{
    if g.len() > 0 {
        lemma_trim_top_done(g.drop_first());
        if blank_row(g[0]) {
            assert(g.subrange(leading_blank_rows(g) as int, g.len() as int) =~= g.drop_first().subrange(
                leading_blank_rows(g.drop_first()) as int,
                g.drop_first().len() as int,
            ));
        } else {
            assert(g.subrange(0, g.len() as int) =~= g);
        }
    }
}

/// What went wrong when joining two grids.
#[derive(Debug, Clone, Copy, PartialEq, Eq, Structural)]
pub enum ChsError {
    /// Grids put side by side had different heights.
    HeightMismatch,
}

impl ChsError {
    /// A description of the error.
    pub fn to_text(&self) -> (s: String)
        ensures
            s@ == "DrawChs2D ConcatRuneMatrices: chs.len() != chs2.len()"@,
    {
        String::from_str("DrawChs2D ConcatRuneMatrices: chs.len() != chs2.len()")
    }
}

/// Two grids side by side: an empty one gives the other; otherwise row `y` of the result is
/// row `y` of `a` followed by row `y` of `b`.
pub open spec fn side_by_side<S>(a: Seq<Seq<DrawCh<S>>>, b: Seq<Seq<DrawCh<S>>>) -> Seq<
    Seq<DrawCh<S>>,
> {
    if a.len() == 0 {
        b
    } else if b.len() == 0 {
        a
    } else {
        Seq::new(a.len(), |y: int| a[y] + b[y])
    }
}

/// Row `b` holds the characters of row `a`, each with a clone of `sty`.
pub open spec fn restyled<S: Clone>(a: Seq<DrawCh<S>>, b: Seq<DrawCh<S>>, sty: S) -> bool {
    b.len() == a.len() && forall|x: int|
        0 <= x < a.len() ==> (#[trigger] b[x]).ch == a[x].ch && cloned(sty, b[x].style)
}

/// The characters of `row`, each with a clone of `sty`.
fn restyle_row<S: Clone>(row: &Vec<DrawCh<S>>, sty: &S) -> (r: Vec<DrawCh<S>>)
    ensures
        restyled(row@, r@, *sty),
{
    let mut out: Vec<DrawCh<S>> = Vec::new();
    let mut x: usize = 0;
    while x < row.len()
        invariant
            x <= row@.len(),
            out@.len() == x,
            forall|i: int| 0 <= i < x ==> (#[trigger] out@[i]).ch == row@[i].ch && cloned(*sty, out@[i].style),
        decreases row@.len() - x,
    {
        out.push(DrawCh { ch: row[x].ch.clone(), style: sty.clone() });
        x = x + 1;
    }
    out
}

/// The text of a row: the text of each of its cells, in order.
pub open spec fn row_text<S>(r: Seq<DrawCh<S>>) -> Seq<char>
    decreases r.len(),
{
    if r.len() == 0 {
        Seq::empty()
    } else {
        row_text(r.drop_last()) + ch_text(r.last().ch)
    }
}

/// The text of a grid: the text of each row, with a newline between each two.
pub open spec fn grid_text<S>(g: Seq<Seq<DrawCh<S>>>) -> Seq<char>
    decreases g.len(),
{
    if g.len() == 0 {
        Seq::empty()
    } else if g.len() == 1 {
        row_text(g[0])
    } else {
        grid_text(g.drop_last()) + seq!['\n'] + row_text(g.last())
    }
}

/// The text of a row.
fn row_to_text<S>(row: &Vec<DrawCh<S>>) -> (s: String)
    ensures
        s@ == row_text(row@),
{
    let mut out = String::new();
    let mut x: usize = 0;
    while x < row.len()
        invariant
            x <= row@.len(),
            out@ == row_text(row@.take(x as int)),
        decreases row@.len() - x,
    {
        let t = row[x].ch.to_text();
        out.append(t.as_str());
        proof {
            let p = row@.take(x + 1);
            assert(p.drop_last() =~= row@.take(x as int));
        }
        x = x + 1;
    }
    proof {
        assert(row@.take(row@.len() as int) =~= row@);
    }
    out
}

/// `g1` is `g0` with `n` clones of `ch` added to the left of every row.
pub open spec fn padded_left<S: Clone>(g0: Seq<Seq<DrawCh<S>>>, g1: Seq<Seq<DrawCh<S>>>, ch: DrawCh<S>, n: nat) -> bool {
    &&& g1.len() == g0.len()
    &&& forall|y: int|
        0 <= y < g0.len() ==> {
            &&& (#[trigger] g1[y]).len() == g0[y].len() + n
            &&& forall|x: int| 0 <= x < n ==> clone_of(ch, #[trigger] g1[y][x])
            &&& g1[y].subrange(n as int, g1[y].len() as int) == g0[y]
        }
}

/// `g1` is `g0` with `n` clones of `ch` added to the right of every row.
pub open spec fn padded_right<S: Clone>(g0: Seq<Seq<DrawCh<S>>>, g1: Seq<Seq<DrawCh<S>>>, ch: DrawCh<S>, n: nat) -> bool {
    &&& g1.len() == g0.len()
    &&& forall|y: int|
        0 <= y < g0.len() ==> {
            &&& (#[trigger] g1[y]).len() == g0[y].len() + n
            &&& g1[y].subrange(0, g0[y].len() as int) == g0[y]
            &&& forall|x: int| g0[y].len() <= x < g1[y].len() ==> clone_of(ch, #[trigger] g1[y][x])
        }
}

/// `g1` is `g0` with `n` rows on top, each of as many clones of `ch` as `g0` is wide.
pub open spec fn padded_top<S: Clone>(g0: Seq<Seq<DrawCh<S>>>, g1: Seq<Seq<DrawCh<S>>>, ch: DrawCh<S>, n: nat) -> bool {
    &&& g1.len() == g0.len() + n
    &&& g1.subrange(n as int, g1.len() as int) == g0
    &&& forall|y: int| 0 <= y < n ==> (#[trigger] g1[y]).len() == grid_width(g0)
    &&& forall|y: int, x: int| 0 <= y < n && 0 <= x < grid_width(g0) ==> clone_of(ch, #[trigger] g1[y][x])
}

/// `g1` is `g0` with `n` rows at the bottom, each of as many clones of `ch` as `g0` is wide.
pub open spec fn padded_bottom<S: Clone>(g0: Seq<Seq<DrawCh<S>>>, g1: Seq<Seq<DrawCh<S>>>, ch: DrawCh<S>, n: nat) -> bool {
    &&& g1.len() == g0.len() + n
    &&& g1.subrange(0, g0.len() as int) == g0
    &&& forall|y: int| g0.len() <= y < g1.len() ==> (#[trigger] g1[y]).len() == grid_width(g0)
    &&& forall|y: int, x: int|
        g0.len() <= y < g1.len() && 0 <= x < grid_width(g0) ==> clone_of(ch, #[trigger] g1[y][x])
}

/// Every row without its leftmost `n` cells.
pub open spec fn cut_left<S>(g: Seq<Seq<DrawCh<S>>>, n: nat) -> Seq<Seq<DrawCh<S>>> {
    Seq::new(g.len(), |y: int| g[y].subrange(n as int, g[y].len() as int))
}

/// Every row without its rightmost `n` cells (all of them where it has fewer).
pub open spec fn cut_right<S>(g: Seq<Seq<DrawCh<S>>>, n: nat) -> Seq<Seq<DrawCh<S>>> {
    Seq::new(g.len(), |y: int| g[y].subrange(0, if g[y].len() >= n { g[y].len() - n } else { 0 }))
}

/// The grid without its top `n` rows.
pub open spec fn cut_top<S>(g: Seq<Seq<DrawCh<S>>>, n: nat) -> Seq<Seq<DrawCh<S>>> {
    g.subrange(n as int, g.len() as int)
}

/// The grid without its bottom `n` rows (all of them where it has fewer).
pub open spec fn cut_bottom<S>(g: Seq<Seq<DrawCh<S>>>, n: nat) -> Seq<Seq<DrawCh<S>>> {
    g.subrange(0, if g.len() >= n { g.len() - n } else { 0 })
}

/// Adding `n` cells to the left of every row and then removing the leftmost `n` cells gives
/// back the grid; the padded grid meets what the removal asks.
pub proof fn lemma_pad_left_then_remove<S: Clone>(g0: Seq<Seq<DrawCh<S>>>, g1: Seq<Seq<DrawCh<S>>>, ch: DrawCh<S>, n: nat)
    requires
        padded_left(g0, g1, ch, n),
    ensures
        forall|y: int| 0 <= y < g1.len() ==> n <= (#[trigger] g1[y]).len(),
        cut_left(g1, n) == g0,
{
    assert(cut_left(g1, n) =~= g0);
}

/// Adding `n` cells to the right of every row and then removing the rightmost `n` cells gives
/// back the grid.
pub proof fn lemma_pad_right_then_remove<S: Clone>(g0: Seq<Seq<DrawCh<S>>>, g1: Seq<Seq<DrawCh<S>>>, ch: DrawCh<S>, n: nat)
    requires
        padded_right(g0, g1, ch, n),
    ensures
        cut_right(g1, n) == g0,
{
    assert(cut_right(g1, n) =~= g0);
}

/// Adding `n` rows on top and then removing the top `n` rows gives back the grid; the padded
/// grid has the rows that the removal asks for.
pub proof fn lemma_pad_top_then_remove<S: Clone>(g0: Seq<Seq<DrawCh<S>>>, g1: Seq<Seq<DrawCh<S>>>, ch: DrawCh<S>, n: nat)
    requires
        padded_top(g0, g1, ch, n),
    ensures
        n <= g1.len(),
        cut_top(g1, n) == g0,
{
}

/// Adding `n` rows at the bottom and then removing the bottom `n` rows gives back the grid.
pub proof fn lemma_pad_bottom_then_remove<S: Clone>(g0: Seq<Seq<DrawCh<S>>>, g1: Seq<Seq<DrawCh<S>>>, ch: DrawCh<S>, n: nat)
    requires
        padded_bottom(g0, g1, ch, n),
    ensures
        cut_bottom(g1, n) == g0,
{
}

/// `amount` rows, each of `width` clones of `ch`.
fn new_rows<S: Clone>(ch: &DrawCh<S>, width: usize, amount: usize) -> (r: Vec<Vec<DrawCh<S>>>)
    ensures
        r@.len() == amount,
        forall|y: int| 0 <= y < amount ==> (#[trigger] r@[y]@).len() == width,
        forall|y: int, x: int| 0 <= y < amount && 0 <= x < width ==> clone_of(*ch, #[trigger] r@[y]@[x]),
{
    let mut out: Vec<Vec<DrawCh<S>>> = Vec::new();
    let mut y: usize = 0;
    while y < amount
        invariant
            y <= amount,
            out@.len() == y,
            forall|j: int| 0 <= j < y ==> (#[trigger] out@[j]@).len() == width,
            forall|j: int, x: int| 0 <= j < y && 0 <= x < width ==> clone_of(*ch, #[trigger] out@[j]@[x]),
        decreases amount - y,
    {
        out.push(repeated(ch, width));
        y = y + 1;
    }
    out
}

/// A row holding nothing but spaces (an empty row too).
pub open spec fn blank_row<S>(r: Seq<DrawCh<S>>) -> bool {
    forall|x: int| 0 <= x < r.len() ==> (#[trigger] r[x]).ch == ChPlus::Char(' ')
}

/// The number of rows at the bottom of `g` that hold nothing but spaces.
pub open spec fn trailing_blank_rows<S>(g: Seq<Seq<DrawCh<S>>>) -> nat
    decreases g.len(),
{
    if g.len() == 0 {
        0
    } else if blank_row(g.last()) {
        1 + trailing_blank_rows(g.drop_last())
    } else {
        0
    }
}

/// The number of rows at the top of `g` that hold nothing but spaces.
pub open spec fn leading_blank_rows<S>(g: Seq<Seq<DrawCh<S>>>) -> nat
    decreases g.len(),
{
    if g.len() == 0 {
        0
    } else if blank_row(g[0]) {
        1 + leading_blank_rows(g.drop_first())
    } else {
        0
    }
}

/// Whether a row holds nothing but spaces.
fn is_blank_row<S>(row: &Vec<DrawCh<S>>) -> (b: bool)
    ensures
        b == blank_row(row@),
{
    let mut x: usize = 0;
    while x < row.len()
        invariant
            x <= row@.len(),
            forall|i: int| 0 <= i < x ==> (#[trigger] row@[i]).ch == ChPlus::Char(' '),
        decreases row@.len() - x,
    {
        let is_space = match &row[x].ch {
            ChPlus::Char(c) => *c == ' ',
            _ => false,
        };
        if !is_space {
            return false;
        }
        x = x + 1;
    }
    true
}

proof fn lemma_leading_blank_rows_step<S>(g: Seq<Seq<DrawCh<S>>>, n: nat)
    requires
        n < g.len(),
    ensures
        leading_blank_rows(g.subrange(n as int, g.len() as int)) == if blank_row(g[n as int]) {
            1 + leading_blank_rows(g.subrange(n as int + 1, g.len() as int))
        } else {
            0
        },
{
    let p = g.subrange(n as int, g.len() as int);
    assert(p.drop_first() =~= g.subrange(n as int + 1, g.len() as int));
    assert(p[0] == g[n as int]);
}

proof fn lemma_trailing_blank_rows_step<S>(g: Seq<Seq<DrawCh<S>>>, n: nat)
    requires
        0 < n <= g.len(),
    ensures
        trailing_blank_rows(g.subrange(0, n as int)) == if blank_row(g[n - 1]) {
            1 + trailing_blank_rows(g.subrange(0, n - 1))
        } else {
            0
        },
{
    let p = g.subrange(0, n as int);
    assert(p.drop_last() =~= g.subrange(0, n - 1));
    assert(p.last() == g[n - 1]);
}

} // verus!
