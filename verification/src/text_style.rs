use vstd::prelude::*;
use crate::ansi::{
    cells_within, codes_are, is_code_for, item_is, items_are, layout_ansi_text, named_code, rows_view, scan,
    AnsiCell, AnsiCode, AnsiItem, RawItem,
};
use crate::ch::{ChPlus, DrawCh, DrawChs2D};
use crate::color::{AnsiColor, Rgba, SolidColor};

verus! {

/// The attributes of terminal text that SGR codes turn on and off.
#[derive(Clone, Copy, Debug, PartialEq, Eq, Structural)]
pub struct TextAttributes {
    pub bold: bool,
    pub faded: bool,
    pub italic: bool,
    pub underlined: bool,
    pub slowblink: bool,
    pub rapidblink: bool,
    pub reverse: bool,
    pub hidden: bool,
    pub crossedout: bool,
    pub fraktur: bool,
    pub framed: bool,
    pub encircled: bool,
    pub overlined: bool,
}

/// The style of terminal text: its foreground, background and underline colors (`None`: not
/// set) and its attributes.
#[derive(Clone, Copy, Debug, PartialEq, Eq, Structural)]
pub struct TextStyle {
    pub fg: Option<SolidColor>,
    pub bg: Option<SolidColor>,
    pub ul: Option<SolidColor>,
    pub attr: TextAttributes,
}

/// No attribute set.
pub open spec fn no_attributes() -> TextAttributes {
    TextAttributes {
        bold: false,
        faded: false,
        italic: false,
        underlined: false,
        slowblink: false,
        rapidblink: false,
        reverse: false,
        hidden: false,
        crossedout: false,
        fraktur: false,
        framed: false,
        encircled: false,
        overlined: false,
    }
}

/// The plain style: no color set and no attribute.
pub open spec fn plain_style() -> TextStyle {
    TextStyle { fg: None, bg: None, ul: None, attr: no_attributes() }
}

/// The fully transparent style: foreground and background fully transparent, no underline
/// color, no attribute.
pub open spec fn transparent_style() -> TextStyle {
    let t = SolidColor::Rgba(Rgba { r: 0, g: 0, b: 0, a: 0 });
    TextStyle { fg: Some(t), bg: Some(t), ul: None, attr: no_attributes() }
}

/// The color that the default foreground and background codes set.
pub open spec fn reset_color() -> SolidColor {
    SolidColor::ANSI(AnsiColor::Reset)
}

/// The style `st` after the SGR code `code` (with the extended color `color` that followed a
/// 38 or 48): a reset gives the plain style, the attribute codes set or clear their
/// attributes, the color codes set a color (an extended color code without its color changes
/// nothing), and every other code leaves the style as it is.
pub open spec fn code_step(st: TextStyle, code: AnsiCode, color: Option<SolidColor>) -> TextStyle {
    let a = st.attr;
    match code {
        AnsiCode::Reset => plain_style(),
        AnsiCode::Bold => TextStyle { attr: TextAttributes { bold: true, ..a }, ..st },
        AnsiCode::Faded => TextStyle { attr: TextAttributes { faded: true, ..a }, ..st },
        AnsiCode::Normal => TextStyle { attr: TextAttributes { bold: false, faded: false, ..a }, ..st },
        AnsiCode::Italic => TextStyle { attr: TextAttributes { italic: true, ..a }, ..st },
        AnsiCode::NotItalic => TextStyle { attr: TextAttributes { italic: false, ..a }, ..st },
        AnsiCode::Underline => TextStyle { attr: TextAttributes { underlined: true, ..a }, ..st },
        AnsiCode::UnderlineOff => TextStyle { attr: TextAttributes { underlined: false, ..a }, ..st },
        AnsiCode::SlowBlink => TextStyle { attr: TextAttributes { slowblink: true, ..a }, ..st },
        AnsiCode::RapidBlink => TextStyle { attr: TextAttributes { rapidblink: true, ..a }, ..st },
        AnsiCode::BlinkOff => TextStyle {
            attr: TextAttributes { slowblink: false, rapidblink: false, ..a },
            ..st
        },
        AnsiCode::Reverse => TextStyle { attr: TextAttributes { reverse: true, ..a }, ..st },
        AnsiCode::Hidden => TextStyle { attr: TextAttributes { hidden: true, ..a }, ..st },
        AnsiCode::Reveal => TextStyle { attr: TextAttributes { hidden: false, ..a }, ..st },
        AnsiCode::CrossedOut => TextStyle { attr: TextAttributes { crossedout: true, ..a }, ..st },
        AnsiCode::CrossedOutOff => TextStyle { attr: TextAttributes { crossedout: false, ..a }, ..st },
        AnsiCode::Fraktur => TextStyle { attr: TextAttributes { fraktur: true, ..a }, ..st },
        AnsiCode::Framed => TextStyle { attr: TextAttributes { framed: true, ..a }, ..st },
        AnsiCode::Encircled => TextStyle { attr: TextAttributes { encircled: true, ..a }, ..st },
        AnsiCode::Overlined => TextStyle { attr: TextAttributes { overlined: true, ..a }, ..st },
        AnsiCode::DefaultForegroundColor => TextStyle { fg: Some(reset_color()), ..st },
        AnsiCode::DefaultBackgroundColor => TextStyle { bg: Some(reset_color()), ..st },
        AnsiCode::SetForegroundColor => match color {
            Some(c) => TextStyle { fg: Some(c), ..st },
            None => st,
        },
        AnsiCode::SetBackgroundColor => match color {
            Some(c) => TextStyle { bg: Some(c), ..st },
            None => st,
        },
        AnsiCode::ForegroundColor(c) => TextStyle { fg: Some(c), ..st },
        AnsiCode::BackgroundColor(c) => TextStyle { bg: Some(c), ..st },
        _ => st,
    }
}

/// The style `st` after the parameters `items` of one SGR code, in order.
pub open spec fn items_step(st: TextStyle, items: Seq<AnsiItem>) -> TextStyle
    decreases items.len(),
{
    if items.len() == 0 {
        st
    } else {
        let last = items.last();
        code_step(items_step(st, items.drop_last()), last.code, last.color)
    }
}

/// The style `st` after one SGR code with the parameters `items`: a code without parameters
/// (`ESC [ m`) resets the style.
pub open spec fn after_sgr(st: TextStyle, items: Seq<AnsiItem>) -> TextStyle {
    if items.len() == 0 {
        plain_style()
    } else {
        items_step(st, items)
    }
}

/// The style `st` after the parameter read as the raw parameter `raw` (a parameter without a
/// name changes nothing).
pub open spec fn raw_step(st: TextStyle, raw: RawItem) -> TextStyle {
    match named_code(raw.0) {
        Some(code) => code_step(st, code, raw.1),
        None => st,
    }
}

/// The style `st` after the raw parameters `raws` of one SGR code, in order.
pub open spec fn raws_step(st: TextStyle, raws: Seq<RawItem>) -> TextStyle
    decreases raws.len(),
{
    if raws.len() == 0 {
        st
    } else {
        raw_step(raws_step(st, raws.drop_last()), raws.last())
    }
}

/// The style `st` after one SGR code with the raw parameters `raws`.
pub open spec fn after_raw_sgr(st: TextStyle, raws: Seq<RawItem>) -> TextStyle {
    if raws.len() == 0 {
        plain_style()
    } else {
        raws_step(st, raws)
    }
}

/// The style of a cell that follows the first `k` of the SGR codes `codes`, starting from the
/// base style `base`.
pub open spec fn style_after(base: TextStyle, codes: Seq<Seq<RawItem>>, k: int) -> TextStyle
    decreases k,
{
    if k <= 0 {
        base
    } else {
        after_raw_sgr(style_after(base, codes, k - 1), codes[k - 1])
    }
}

/// The styled character of a laid out cell: its character in the style after the codes read
/// before it.
pub open spec fn styled_cell(base: TextStyle, codes: Seq<Seq<RawItem>>, c: AnsiCell) -> DrawCh<TextStyle> {
    DrawCh { ch: ChPlus::Char(c.0), style: style_after(base, codes, c.1 as int) }
}

/// Reading a parameter as its item does not change what it does to a style.
proof fn lemma_items_step_is_raws_step(st: TextStyle, items: Seq<AnsiItem>, raws: Seq<RawItem>)
    requires
        items_are(items, raws),
    ensures
        items_step(st, items) == raws_step(st, raws),
    decreases items.len(),
{
    if items.len() > 0 {
        let n = items.len() - 1;
        assert(item_is(items[n], raws[n]));
        assert(items_are(items.drop_last(), raws.drop_last())) by {
            assert forall|k: int| 0 <= k < items.drop_last().len() implies #[trigger] item_is(
                items.drop_last()[k],
                raws.drop_last()[k],
            ) by {
                assert(item_is(items[k], raws[k]));
            }
        }
        lemma_items_step_is_raws_step(st, items.drop_last(), raws.drop_last());
    }
}

impl TextAttributes {
    /// No attribute set.
    pub fn none() -> (a: TextAttributes)
        ensures
            a == no_attributes(),
    {
        TextAttributes {
            bold: false,
            faded: false,
            italic: false,
            underlined: false,
            slowblink: false,
            rapidblink: false,
            reverse: false,
            hidden: false,
            crossedout: false,
            fraktur: false,
            framed: false,
            encircled: false,
            overlined: false,
        }
    }
}

impl TextStyle {
    /// The plain style: no color set and no attribute.
    pub fn default_const() -> (s: TextStyle)
        ensures
            s == plain_style(),
    {
        TextStyle { fg: None, bg: None, ul: None, attr: TextAttributes::none() }
    }

    /// The fully transparent style: a transparent foreground and background, no attribute.
    pub fn transparent() -> (s: TextStyle)
        ensures
            s == transparent_style(),
    {
        let t = SolidColor::new_with_alpha(0, 0, 0, 0);
        TextStyle { fg: Some(t), bg: Some(t), ul: None, attr: TextAttributes::none() }
    }

    /// This style with the foreground `c`.
    pub fn with_fg(self, c: SolidColor) -> (r: TextStyle)
        ensures
            r == (TextStyle { fg: Some(c), ..self }),
    {
        TextStyle { fg: Some(c), ..self }
    }

    /// This style with the background `c`.
    pub fn with_bg(self, c: SolidColor) -> (r: TextStyle)
        ensures
            r == (TextStyle { bg: Some(c), ..self }),
    {
        TextStyle { bg: Some(c), ..self }
    }

    /// This style with the underline color `c`.
    pub fn with_underline_color(self, c: SolidColor) -> (r: TextStyle)
        ensures
            r == (TextStyle { ul: Some(c), ..self }),
    {
        TextStyle { ul: Some(c), ..self }
    }

    /// This style after one SGR code (see `code_step`).
    #[verifier::rlimit(50)]
    fn with_code(self, code: &AnsiCode, color: Option<SolidColor>) -> (r: TextStyle)
        ensures
            r == code_step(self, *code, color),
    {
        let a = self.attr;
        match code {
            AnsiCode::Reset => TextStyle::default_const(),
            AnsiCode::Bold => TextStyle { attr: TextAttributes { bold: true, ..a }, ..self },
            AnsiCode::Faded => TextStyle { attr: TextAttributes { faded: true, ..a }, ..self },
            AnsiCode::Normal => TextStyle {
                attr: TextAttributes { bold: false, faded: false, ..a },
                ..self
            },
            AnsiCode::Italic => TextStyle { attr: TextAttributes { italic: true, ..a }, ..self },
            AnsiCode::NotItalic => TextStyle { attr: TextAttributes { italic: false, ..a }, ..self },
            AnsiCode::Underline => TextStyle {
                attr: TextAttributes { underlined: true, ..a },
                ..self
            },
            AnsiCode::UnderlineOff => TextStyle {
                attr: TextAttributes { underlined: false, ..a },
                ..self
            },
            AnsiCode::SlowBlink => TextStyle { attr: TextAttributes { slowblink: true, ..a }, ..self },
            AnsiCode::RapidBlink => TextStyle {
                attr: TextAttributes { rapidblink: true, ..a },
                ..self
            },
            AnsiCode::BlinkOff => TextStyle {
                attr: TextAttributes { slowblink: false, rapidblink: false, ..a },
                ..self
            },
            AnsiCode::Reverse => TextStyle { attr: TextAttributes { reverse: true, ..a }, ..self },
            AnsiCode::Hidden => TextStyle { attr: TextAttributes { hidden: true, ..a }, ..self },
            AnsiCode::Reveal => TextStyle { attr: TextAttributes { hidden: false, ..a }, ..self },
            AnsiCode::CrossedOut => TextStyle {
                attr: TextAttributes { crossedout: true, ..a },
                ..self
            },
            AnsiCode::CrossedOutOff => TextStyle {
                attr: TextAttributes { crossedout: false, ..a },
                ..self
            },
            AnsiCode::Fraktur => TextStyle { attr: TextAttributes { fraktur: true, ..a }, ..self },
            AnsiCode::Framed => TextStyle { attr: TextAttributes { framed: true, ..a }, ..self },
            AnsiCode::Encircled => TextStyle { attr: TextAttributes { encircled: true, ..a }, ..self },
            AnsiCode::Overlined => TextStyle { attr: TextAttributes { overlined: true, ..a }, ..self },
            AnsiCode::DefaultForegroundColor => TextStyle {
                fg: Some(SolidColor::ANSI(AnsiColor::Reset)),
                ..self
            },
            AnsiCode::DefaultBackgroundColor => TextStyle {
                bg: Some(SolidColor::ANSI(AnsiColor::Reset)),
                ..self
            },
            AnsiCode::SetForegroundColor => match color {
                Some(c) => TextStyle { fg: Some(c), ..self },
                None => self,
            },
            AnsiCode::SetBackgroundColor => match color {
                Some(c) => TextStyle { bg: Some(c), ..self },
                None => self,
            },
            AnsiCode::ForegroundColor(c) => TextStyle { fg: Some(*c), ..self },
            AnsiCode::BackgroundColor(c) => TextStyle { bg: Some(*c), ..self },
            _ => self,
        }
    }

    /// This style after one SGR code with the parameters `items`, applied in order; a code
    /// without parameters resets the style.
    pub fn with_sgr(self, items: &Vec<AnsiItem>) -> (r: TextStyle)
        ensures
            r == after_sgr(self, items@),
    {
        if items.len() == 0 {
            return TextStyle::default_const();
        }
        let mut st = self;
        let mut i: usize = 0;
        while i < items.len()
            invariant
                i <= items@.len(),
                st == items_step(self, items@.take(i as int)),
            decreases items@.len() - i,
        {
            proof {
                let t = items@.take(i + 1);
                assert(t.drop_last() =~= items@.take(i as int));
            }
            st = st.with_code(&items[i].code, items[i].color);
            i = i + 1;
        }
        proof {
            assert(items@.take(items@.len() as int) =~= items@);
        }
        st
    }
}

/// Lays out `s` on a grid of styled characters: SGR codes change the style of the characters
/// that follow them (other escape sequences are skipped), newlines start a new line, and every
/// other character takes the next cell of its line, lines being padded with spaces of the base
/// style `sty` where needed. A byte is skipped where the remaining bytes are not all valid UTF-8.
pub fn get_chs_2d(s: &[u8], sty: TextStyle) -> (out: DrawChs2D<TextStyle>)
    ensures
        ({
            let (rows, raws) = scan(s@, 0, 0, 0, Seq::empty(), Seq::empty());
            &&& out@.len() == rows.len()
            &&& forall|y: int| 0 <= y < rows.len() ==> (#[trigger] out@[y]).len() == rows[y].len()
            &&& forall|y: int, x: int|
                0 <= y < rows.len() && 0 <= x < rows[y].len() ==> (#[trigger] out@[y][x]) == styled_cell(sty, raws, rows[y][x])
        }),
{
    let text = layout_ansi_text(s);
    let ghost rows = scan(s@, 0, 0, 0, Seq::empty(), Seq::empty()).0;
    let ghost raws = scan(s@, 0, 0, 0, Seq::empty(), Seq::empty()).1;
    let mut styles: Vec<TextStyle> = Vec::new();
    styles.push(sty);
    let mut k: usize = 0;
    while k < text.sgr_codes.len()
        invariant
            codes_are(text.sgr_codes@, raws),
            k <= text.sgr_codes@.len(),
            styles@.len() == k + 1,
            forall|j: int| 0 <= j <= k ==> #[trigger] styles@[j] == style_after(sty, raws, j),
        decreases text.sgr_codes@.len() - k,
    {
        assert(items_are(text.sgr_codes@[k as int]@, raws[k as int]));
        let next = styles[k].with_sgr(&text.sgr_codes[k]);
        proof {
            let st = styles@[k as int];
            lemma_items_step_is_raws_step(st, text.sgr_codes@[k as int]@, raws[k as int]);
        }
        styles.push(next);
        k = k + 1;
    }
    let mut out: Vec<Vec<DrawCh<TextStyle>>> = Vec::new();
    let mut y: usize = 0;
    while y < text.rows.len()
        invariant
            rows_view(text.rows@) == rows,
            cells_within(rows, text.sgr_codes@.len()),
            styles@.len() == text.sgr_codes@.len() + 1,
            forall|j: int| 0 <= j < styles@.len() ==> #[trigger] styles@[j] == style_after(sty, raws, j),
            y <= rows.len(),
            out@.len() == y,
            forall|yy: int| 0 <= yy < y ==> (#[trigger] out@[yy])@.len() == rows[yy].len(),
            forall|yy: int, x: int|
                0 <= yy < y && 0 <= x < rows[yy].len() ==> (#[trigger] out@[yy]@[x]) == styled_cell(sty, raws, rows[yy][x]),
        decreases rows.len() - y,
    {
        let mut row: Vec<DrawCh<TextStyle>> = Vec::new();
        let mut x: usize = 0;
        assert(text.rows@[y as int]@ == rows[y as int]);
        while x < text.rows[y].len()
            invariant
                rows_view(text.rows@) == rows,
                cells_within(rows, text.sgr_codes@.len()),
                styles@.len() == text.sgr_codes@.len() + 1,
                forall|j: int| 0 <= j < styles@.len() ==> #[trigger] styles@[j] == style_after(sty, raws, j),
                y < rows.len(),
                text.rows@[y as int]@ == rows[y as int],
                x <= rows[y as int].len(),
                row@.len() == x,
                forall|xx: int| 0 <= xx < x ==> (#[trigger] row@[xx]) == styled_cell(sty, raws, rows[y as int][xx]),
            decreases rows[y as int].len() - x,
        {
            let cell: AnsiCell = text.rows[y][x];
            assert(cell == rows[y as int][x as int]);
            assert(cell.1 <= text.sgr_codes@.len());
            let st = styles[cell.1];
            let ghost before = row@;
            row.push(DrawCh { ch: ChPlus::Char(cell.0), style: st });
            proof {
                assert(row@ == before.push(styled_cell(sty, raws, cell)));
            }
            x = x + 1;
        }
        out.push(row);
        y = y + 1;
    }
    let r = DrawChs2D(out);
    proof {
        assert forall|yy: int| 0 <= yy < rows.len() implies (#[trigger] r@[yy]).len() == rows[yy].len() by {
            assert(r@[yy] == out@[yy]@);
        }
        assert forall|yy: int, x: int| 0 <= yy < rows.len() && 0 <= x < rows[yy].len() implies (
        #[trigger] r@[yy][x]) == styled_cell(sty, raws, rows[yy][x]) by {
            assert(r@[yy] == out@[yy]@);
            assert(out@[yy]@[x] == r@[yy][x]);
        }
    }
    r
}

/// The attributes of a style as flags, in the order bold, faded, italic, underlined, slow
/// blink, rapid blink, reverse, hidden, crossed out, fraktur, framed, encircled, overlined.
pub open spec fn attr_flags(a: TextAttributes) -> Seq<bool> {
    seq![
        a.bold,
        a.faded,
        a.italic,
        a.underlined,
        a.slowblink,
        a.rapidblink,
        a.reverse,
        a.hidden,
        a.crossedout,
        a.fraktur,
        a.framed,
        a.encircled,
        a.overlined,
    ]
}

/// `r` is `st` with the attribute flags `f` and nothing else changed: the same colors.
pub open spec fn flags_only(st: TextStyle, r: TextStyle, f: Seq<bool>) -> bool {
    &&& attr_flags(r.attr) == f
    &&& r.fg == st.fg && r.bg == st.bg && r.ul == st.ul
}

proof fn lemma_code_bold(st: TextStyle, color: Option<SolidColor>)
    ensures
        flags_only(st, code_step(st, AnsiCode::Bold, color), attr_flags(st.attr).update(0, true)),
{
    assert(attr_flags(code_step(st, AnsiCode::Bold, color).attr) =~= attr_flags(st.attr).update(0, true));
}

proof fn lemma_code_faded(st: TextStyle, color: Option<SolidColor>)
    ensures
        flags_only(st, code_step(st, AnsiCode::Faded, color), attr_flags(st.attr).update(1, true)),
{
    assert(attr_flags(code_step(st, AnsiCode::Faded, color).attr) =~= attr_flags(st.attr).update(1, true));
}

proof fn lemma_code_italic(st: TextStyle, color: Option<SolidColor>)
    ensures
        flags_only(st, code_step(st, AnsiCode::Italic, color), attr_flags(st.attr).update(2, true)),
{
    assert(attr_flags(code_step(st, AnsiCode::Italic, color).attr) =~= attr_flags(st.attr).update(2, true));
}

proof fn lemma_code_underline(st: TextStyle, color: Option<SolidColor>)
    ensures
        flags_only(st, code_step(st, AnsiCode::Underline, color), attr_flags(st.attr).update(3, true)),
{
    assert(attr_flags(code_step(st, AnsiCode::Underline, color).attr) =~= attr_flags(st.attr).update(3, true));
}

proof fn lemma_code_slow_blink(st: TextStyle, color: Option<SolidColor>)
    ensures
        flags_only(st, code_step(st, AnsiCode::SlowBlink, color), attr_flags(st.attr).update(4, true)),
{
    assert(attr_flags(code_step(st, AnsiCode::SlowBlink, color).attr) =~= attr_flags(st.attr).update(4, true));
}

proof fn lemma_code_rapid_blink(st: TextStyle, color: Option<SolidColor>)
    ensures
        flags_only(st, code_step(st, AnsiCode::RapidBlink, color), attr_flags(st.attr).update(5, true)),
{
    assert(attr_flags(code_step(st, AnsiCode::RapidBlink, color).attr) =~= attr_flags(st.attr).update(5, true));
}

proof fn lemma_code_reverse(st: TextStyle, color: Option<SolidColor>)
    ensures
        flags_only(st, code_step(st, AnsiCode::Reverse, color), attr_flags(st.attr).update(6, true)),
{
    assert(attr_flags(code_step(st, AnsiCode::Reverse, color).attr) =~= attr_flags(st.attr).update(6, true));
}

proof fn lemma_code_hidden(st: TextStyle, color: Option<SolidColor>)
    ensures
        flags_only(st, code_step(st, AnsiCode::Hidden, color), attr_flags(st.attr).update(7, true)),
{
    assert(attr_flags(code_step(st, AnsiCode::Hidden, color).attr) =~= attr_flags(st.attr).update(7, true));
}

proof fn lemma_code_crossed_out(st: TextStyle, color: Option<SolidColor>)
    ensures
        flags_only(st, code_step(st, AnsiCode::CrossedOut, color), attr_flags(st.attr).update(8, true)),
{
    assert(attr_flags(code_step(st, AnsiCode::CrossedOut, color).attr) =~= attr_flags(st.attr).update(8, true));
}

proof fn lemma_code_fraktur(st: TextStyle, color: Option<SolidColor>)
    ensures
        flags_only(st, code_step(st, AnsiCode::Fraktur, color), attr_flags(st.attr).update(9, true)),
{
    assert(attr_flags(code_step(st, AnsiCode::Fraktur, color).attr) =~= attr_flags(st.attr).update(9, true));
}

proof fn lemma_code_framed(st: TextStyle, color: Option<SolidColor>)
    ensures
        flags_only(st, code_step(st, AnsiCode::Framed, color), attr_flags(st.attr).update(10, true)),
{
    assert(attr_flags(code_step(st, AnsiCode::Framed, color).attr) =~= attr_flags(st.attr).update(10, true));
}

proof fn lemma_code_encircled(st: TextStyle, color: Option<SolidColor>)
    ensures
        flags_only(st, code_step(st, AnsiCode::Encircled, color), attr_flags(st.attr).update(11, true)),
{
    assert(attr_flags(code_step(st, AnsiCode::Encircled, color).attr) =~= attr_flags(st.attr).update(11, true));
}

proof fn lemma_code_overlined(st: TextStyle, color: Option<SolidColor>)
    ensures
        flags_only(st, code_step(st, AnsiCode::Overlined, color), attr_flags(st.attr).update(12, true)),
{
    assert(attr_flags(code_step(st, AnsiCode::Overlined, color).attr) =~= attr_flags(st.attr).update(12, true));
}

proof fn lemma_code_normal(st: TextStyle, color: Option<SolidColor>)
    ensures
        flags_only(st, code_step(st, AnsiCode::Normal, color), attr_flags(st.attr).update(0, false).update(1, false)),
{
    assert(attr_flags(code_step(st, AnsiCode::Normal, color).attr) =~= attr_flags(st.attr).update(0, false).update(1, false));
}

proof fn lemma_code_not_italic(st: TextStyle, color: Option<SolidColor>)
    ensures
        flags_only(st, code_step(st, AnsiCode::NotItalic, color), attr_flags(st.attr).update(2, false)),
{
    assert(attr_flags(code_step(st, AnsiCode::NotItalic, color).attr) =~= attr_flags(st.attr).update(2, false));
}

proof fn lemma_code_underline_off(st: TextStyle, color: Option<SolidColor>)
    ensures
        flags_only(st, code_step(st, AnsiCode::UnderlineOff, color), attr_flags(st.attr).update(3, false)),
{
    assert(attr_flags(code_step(st, AnsiCode::UnderlineOff, color).attr) =~= attr_flags(st.attr).update(3, false));
}

proof fn lemma_code_blink_off(st: TextStyle, color: Option<SolidColor>)
    ensures
        flags_only(st, code_step(st, AnsiCode::BlinkOff, color), attr_flags(st.attr).update(4, false).update(5, false)),
{
    assert(attr_flags(code_step(st, AnsiCode::BlinkOff, color).attr) =~= attr_flags(st.attr).update(4, false).update(5, false));
}

proof fn lemma_code_reveal(st: TextStyle, color: Option<SolidColor>)
    ensures
        flags_only(st, code_step(st, AnsiCode::Reveal, color), attr_flags(st.attr).update(7, false)),
{
    assert(attr_flags(code_step(st, AnsiCode::Reveal, color).attr) =~= attr_flags(st.attr).update(7, false));
}

proof fn lemma_code_crossed_out_off(st: TextStyle, color: Option<SolidColor>)
    ensures
        flags_only(st, code_step(st, AnsiCode::CrossedOutOff, color), attr_flags(st.attr).update(8, false)),
{
    assert(attr_flags(code_step(st, AnsiCode::CrossedOutOff, color).attr) =~= attr_flags(st.attr).update(8, false));
}

/// Each attribute code sets or clears its own attributes and changes nothing else: bold,
/// faded, italic, underline, slow and rapid blink, reverse, hidden, crossed out, fraktur,
/// framed, encircled and overlined each set their attribute; normal clears bold and faded, and
/// the "off" codes clear theirs.
pub proof fn lemma_attribute_codes(st: TextStyle, color: Option<SolidColor>)
    ensures
        ({
            let f = attr_flags(st.attr);
            &&& flags_only(st, code_step(st, AnsiCode::Bold, color), f.update(0, true))
            &&& flags_only(st, code_step(st, AnsiCode::Faded, color), f.update(1, true))
            &&& flags_only(st, code_step(st, AnsiCode::Italic, color), f.update(2, true))
            &&& flags_only(st, code_step(st, AnsiCode::Underline, color), f.update(3, true))
            &&& flags_only(st, code_step(st, AnsiCode::SlowBlink, color), f.update(4, true))
            &&& flags_only(st, code_step(st, AnsiCode::RapidBlink, color), f.update(5, true))
            &&& flags_only(st, code_step(st, AnsiCode::Reverse, color), f.update(6, true))
            &&& flags_only(st, code_step(st, AnsiCode::Hidden, color), f.update(7, true))
            &&& flags_only(st, code_step(st, AnsiCode::CrossedOut, color), f.update(8, true))
            &&& flags_only(st, code_step(st, AnsiCode::Fraktur, color), f.update(9, true))
            &&& flags_only(st, code_step(st, AnsiCode::Framed, color), f.update(10, true))
            &&& flags_only(st, code_step(st, AnsiCode::Encircled, color), f.update(11, true))
            &&& flags_only(st, code_step(st, AnsiCode::Overlined, color), f.update(12, true))
            &&& flags_only(st, code_step(st, AnsiCode::Normal, color), f.update(0, false).update(1, false))
            &&& flags_only(st, code_step(st, AnsiCode::NotItalic, color), f.update(2, false))
            &&& flags_only(st, code_step(st, AnsiCode::UnderlineOff, color), f.update(3, false))
            &&& flags_only(st, code_step(st, AnsiCode::BlinkOff, color), f.update(4, false).update(5, false))
            &&& flags_only(st, code_step(st, AnsiCode::Reveal, color), f.update(7, false))
            &&& flags_only(st, code_step(st, AnsiCode::CrossedOutOff, color), f.update(8, false))
        }),
{
    lemma_code_bold(st, color);
    lemma_code_faded(st, color);
    lemma_code_italic(st, color);
    lemma_code_underline(st, color);
    lemma_code_slow_blink(st, color);
    lemma_code_rapid_blink(st, color);
    lemma_code_reverse(st, color);
    lemma_code_hidden(st, color);
    lemma_code_crossed_out(st, color);
    lemma_code_fraktur(st, color);
    lemma_code_framed(st, color);
    lemma_code_encircled(st, color);
    lemma_code_overlined(st, color);
    lemma_code_normal(st, color);
    lemma_code_not_italic(st, color);
    lemma_code_underline_off(st, color);
    lemma_code_blink_off(st, color);
    lemma_code_reveal(st, color);
    lemma_code_crossed_out_off(st, color);
}

/// What each SGR parameter number does to a style: 0 resets it to the plain style; 1 to 9
/// set bold, faded, italic, underlined, slow blink, rapid blink, reverse, hidden and crossed
/// out, 20 fraktur, 51 to 53 framed, encircled and overlined; 22 clears bold and faded, 23
/// italic, 24 underlined, 25 both blinks, 28 hidden, 29 crossed out; 39 and 49 set the
/// default foreground and background. None of these touches anything else.
pub proof fn lemma_sgr_parameters(st: TextStyle, code: AnsiCode, n: u8, color: Option<SolidColor>)
    requires
        is_code_for(code, n),
    ensures
        ({
            let f = attr_flags(st.attr);
            let r = code_step(st, code, color);
            &&& n == 0 ==> r == plain_style()
            &&& n == 1 ==> flags_only(st, r, f.update(0, true))
            &&& n == 2 ==> flags_only(st, r, f.update(1, true))
            &&& n == 3 ==> flags_only(st, r, f.update(2, true))
            &&& n == 4 ==> flags_only(st, r, f.update(3, true))
            &&& n == 5 ==> flags_only(st, r, f.update(4, true))
            &&& n == 6 ==> flags_only(st, r, f.update(5, true))
            &&& n == 7 ==> flags_only(st, r, f.update(6, true))
            &&& n == 8 ==> flags_only(st, r, f.update(7, true))
            &&& n == 9 ==> flags_only(st, r, f.update(8, true))
            &&& n == 20 ==> flags_only(st, r, f.update(9, true))
            &&& n == 51 ==> flags_only(st, r, f.update(10, true))
            &&& n == 52 ==> flags_only(st, r, f.update(11, true))
            &&& n == 53 ==> flags_only(st, r, f.update(12, true))
            &&& n == 22 ==> flags_only(st, r, f.update(0, false).update(1, false))
            &&& n == 23 ==> flags_only(st, r, f.update(2, false))
            &&& n == 24 ==> flags_only(st, r, f.update(3, false))
            &&& n == 25 ==> flags_only(st, r, f.update(4, false).update(5, false))
            &&& n == 28 ==> flags_only(st, r, f.update(7, false))
            &&& n == 29 ==> flags_only(st, r, f.update(8, false))
            &&& n == 39 ==> r.fg == Some(SolidColor::ANSI(AnsiColor::Reset)) && r.bg == st.bg && r.attr == st.attr
            &&& n == 49 ==> r.bg == Some(SolidColor::ANSI(AnsiColor::Reset)) && r.fg == st.fg && r.attr == st.attr
        }),
{
    lemma_attribute_codes(st, color);
}

/// What the color codes do: a reset gives the plain style; a foreground (or background)
/// color code, and 38 (or 48) followed by a color, set that color and nothing else; 38 or 48
/// without a color, and the codes that this layout does not follow (fonts, bold off, invert
/// off, neither framed nor encircled, not overlined, unknown codes), leave the style as it is.
pub proof fn lemma_color_codes(st: TextStyle, code: AnsiCode, color: Option<SolidColor>)
    ensures
        ({
            let r = code_step(st, code, color);
            &&& code is Reset ==> r == plain_style()
            &&& code matches AnsiCode::ForegroundColor(c) ==> r == TextStyle { fg: Some(c), ..st }
            &&& code matches AnsiCode::BackgroundColor(c) ==> r == TextStyle { bg: Some(c), ..st }
            &&& (code is SetForegroundColor && color is Some) ==> r.fg == color && r.bg == st.bg && r.ul == st.ul
                && r.attr == st.attr
            &&& (code is SetBackgroundColor && color is Some) ==> r.bg == color && r.fg == st.fg && r.ul == st.ul
                && r.attr == st.attr
            &&& ((code is SetForegroundColor || code is SetBackgroundColor) && color is None) ==> r == st
            &&& (code is PrimaryFont || code is AlternateFont || code is AlternateFonts || code is BoldOff
                || code is InvertOff || code is NeitherFramedNorEncircled || code is NotOverlined || code is Code) ==> r
                == st
        }),
{
}

} // verus!
