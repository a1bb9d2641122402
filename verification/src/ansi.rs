use vstd::prelude::*;
use vstd::utf8::*;
use crate::color::{AnsiColor, Rgba, SolidColor, rgb};

verus! {

/// What one SGR (select graphic rendition) parameter of an ANSI escape sequence does.
#[derive(Debug, PartialEq, Clone)]
pub enum AnsiCode {
    /// Reset the terminal
    Reset,
    /// Set font to bold
    Bold,
    /// Set font to faint
    Faded,
    /// Set font to italic
    Italic,
    /// Set font to underline
    Underline,
    /// Set cursor to slowblink
    SlowBlink,
    /// Set cursor to rapidblink
    RapidBlink,
    /// Invert the colors
    Reverse,
    /// Hidden text
    Hidden,
    /// Display crossed out text
    CrossedOut,
    /// Choose primary font
    PrimaryFont,
    /// Choose alternate font
    AlternateFont,
    /// Choose alternate fonts 1-9
    AlternateFonts(u8),
    /// Fraktur
    Fraktur,
    /// Turn off bold
    BoldOff,
    /// Set text to normal
    Normal,
    /// Turn off Italic
    NotItalic,
    /// Turn off underline
    UnderlineOff,
    /// Turn off blinking
    BlinkOff,
    /// Don't invert colors
    InvertOff,
    /// Reveal text
    Reveal,
    /// Turn off Crossedout text
    CrossedOutOff,
    Framed,
    Encircled,
    Overlined,
    NeitherFramedNorEncircled,
    NotOverlined,
    /// Set foreground color (4-bit)
    ForegroundColor(SolidColor),
    /// Set foreground color (8-bit and 24-bit)
    SetForegroundColor,
    /// Default foreground color
    DefaultForegroundColor,
    /// Set background color (4-bit)
    BackgroundColor(SolidColor),
    /// Set background color (8-bit and 24-bit)
    SetBackgroundColor,
    /// Default background color
    DefaultBackgroundColor,
    /// Other / non supported escape codes
    Code(Vec<u8>),
}

/// The kind of an extended color: 8-bit (`5;n`) or true color (`2;r;g;b`).
#[derive(Debug, Clone, Copy, PartialEq, Eq, Structural)]
pub enum ColorType {
    /// Eight bit color
    EightBit,
    /// 24-bit color or true color
    TrueColor,
}

/// One parameter of an SGR code, with the extended color that follows 38 and 48.
#[derive(Debug, Clone, PartialEq)]
pub struct AnsiItem {
    pub code: AnsiCode,
    pub color: Option<SolidColor>,
}

/// An SGR parameter as read: its number and its extended color, if any.
pub type RawItem = (u8, Option<SolidColor>);

/// The code that sets the foreground to a palette color.
pub open spec fn fg(c: AnsiColor) -> Option<AnsiCode> {
    Some(AnsiCode::ForegroundColor(SolidColor::ANSI(c)))
}

/// The code that sets the background to a palette color.
pub open spec fn bg(c: AnsiColor) -> Option<AnsiCode> {
    Some(AnsiCode::BackgroundColor(SolidColor::ANSI(c)))
}

/// The code that parameter `c` names, or `None` for a parameter without a name (which becomes
/// `AnsiCode::Code` holding the parameter).
pub open spec fn named_code(c: u8) -> Option<AnsiCode> {
    match c {
        0 => Some(AnsiCode::Reset),
        1 => Some(AnsiCode::Bold),
        2 => Some(AnsiCode::Faded),
        3 => Some(AnsiCode::Italic),
        4 => Some(AnsiCode::Underline),
        5 => Some(AnsiCode::SlowBlink),
        6 => Some(AnsiCode::RapidBlink),
        7 => Some(AnsiCode::Reverse),
        8 => Some(AnsiCode::Hidden),
        9 => Some(AnsiCode::CrossedOut),
        10 => Some(AnsiCode::PrimaryFont),
        11 => Some(AnsiCode::AlternateFont),
        20 => Some(AnsiCode::Fraktur),
        21 => Some(AnsiCode::BoldOff),
        22 => Some(AnsiCode::Normal),
        23 => Some(AnsiCode::NotItalic),
        24 => Some(AnsiCode::UnderlineOff),
        25 => Some(AnsiCode::BlinkOff),
        27 => Some(AnsiCode::InvertOff),
        28 => Some(AnsiCode::Reveal),
        29 => Some(AnsiCode::CrossedOutOff),
        30 => fg(AnsiColor::Black),
        31 => fg(AnsiColor::DarkRed),
        32 => fg(AnsiColor::DarkGreen),
        33 => fg(AnsiColor::DarkYellow),
        34 => fg(AnsiColor::DarkBlue),
        35 => fg(AnsiColor::DarkMagenta),
        36 => fg(AnsiColor::DarkCyan),
        37 => fg(AnsiColor::Grey),
        38 => Some(AnsiCode::SetForegroundColor),
        39 => Some(AnsiCode::DefaultForegroundColor),
        40 => bg(AnsiColor::Black),
        41 => bg(AnsiColor::DarkRed),
        42 => bg(AnsiColor::DarkGreen),
        43 => bg(AnsiColor::DarkYellow),
        44 => bg(AnsiColor::DarkBlue),
        45 => bg(AnsiColor::DarkMagenta),
        46 => bg(AnsiColor::DarkCyan),
        47 => bg(AnsiColor::Grey),
        48 => Some(AnsiCode::SetBackgroundColor),
        49 => Some(AnsiCode::DefaultBackgroundColor),
        51 => Some(AnsiCode::Framed),
        52 => Some(AnsiCode::Encircled),
        53 => Some(AnsiCode::Overlined),
        54 => Some(AnsiCode::NeitherFramedNorEncircled),
        55 => Some(AnsiCode::NotOverlined),
        90 => fg(AnsiColor::DarkGrey),
        91 => fg(AnsiColor::Red),
        92 => fg(AnsiColor::Green),
        93 => fg(AnsiColor::Yellow),
        94 => fg(AnsiColor::Blue),
        95 => fg(AnsiColor::Magenta),
        96 => fg(AnsiColor::Cyan),
        97 => fg(AnsiColor::White),
        100 => bg(AnsiColor::DarkGrey),
        101 => bg(AnsiColor::Red),
        102 => bg(AnsiColor::Green),
        103 => bg(AnsiColor::Yellow),
        104 => bg(AnsiColor::Blue),
        105 => bg(AnsiColor::Magenta),
        106 => bg(AnsiColor::Cyan),
        107 => bg(AnsiColor::White),
        _ => None,
    }
}

/// `code` is what the parameter number `c` reads as: its named code, or else the number kept
/// as it is.
pub open spec fn is_code_for(code: AnsiCode, c: u8) -> bool {
    match named_code(c) {
        Some(k) => code == k,
        None => code matches AnsiCode::Code(v) && v@ == seq![c],
    }
}

/// `item` is the item read as the raw parameter `raw`.
pub open spec fn item_is(item: AnsiItem, raw: RawItem) -> bool {
    is_code_for(item.code, raw.0) && item.color == raw.1
}

/// `items` are the items read as the raw parameters `raws`, in order.
pub open spec fn items_are(items: Seq<AnsiItem>, raws: Seq<RawItem>) -> bool {
    items.len() == raws.len() && forall|k: int| 0 <= k < items.len() ==> #[trigger] item_is(items[k], raws[k])
}

impl AnsiCode {
    /// The code that SGR parameter `code` stands for.
    pub fn from_code(code: u8) -> (out: AnsiCode)
        ensures
            is_code_for(out, code),
    {
        match code {
            0 => AnsiCode::Reset,
            1 => AnsiCode::Bold,
            2 => AnsiCode::Faded,
            3 => AnsiCode::Italic,
            4 => AnsiCode::Underline,
            5 => AnsiCode::SlowBlink,
            6 => AnsiCode::RapidBlink,
            7 => AnsiCode::Reverse,
            8 => AnsiCode::Hidden,
            9 => AnsiCode::CrossedOut,
            10 => AnsiCode::PrimaryFont,
            11 => AnsiCode::AlternateFont,
            20 => AnsiCode::Fraktur,
            21 => AnsiCode::BoldOff,
            22 => AnsiCode::Normal,
            23 => AnsiCode::NotItalic,
            24 => AnsiCode::UnderlineOff,
            25 => AnsiCode::BlinkOff,
            27 => AnsiCode::InvertOff,
            28 => AnsiCode::Reveal,
            29 => AnsiCode::CrossedOutOff,
            30 => AnsiCode::ForegroundColor(SolidColor::ANSI(AnsiColor::Black)),
            31 => AnsiCode::ForegroundColor(SolidColor::ANSI(AnsiColor::DarkRed)),
            32 => AnsiCode::ForegroundColor(SolidColor::ANSI(AnsiColor::DarkGreen)),
            33 => AnsiCode::ForegroundColor(SolidColor::ANSI(AnsiColor::DarkYellow)),
            34 => AnsiCode::ForegroundColor(SolidColor::ANSI(AnsiColor::DarkBlue)),
            35 => AnsiCode::ForegroundColor(SolidColor::ANSI(AnsiColor::DarkMagenta)),
            36 => AnsiCode::ForegroundColor(SolidColor::ANSI(AnsiColor::DarkCyan)),
            37 => AnsiCode::ForegroundColor(SolidColor::ANSI(AnsiColor::Grey)),
            38 => AnsiCode::SetForegroundColor,
            39 => AnsiCode::DefaultForegroundColor,
            40 => AnsiCode::BackgroundColor(SolidColor::ANSI(AnsiColor::Black)),
            41 => AnsiCode::BackgroundColor(SolidColor::ANSI(AnsiColor::DarkRed)),
            42 => AnsiCode::BackgroundColor(SolidColor::ANSI(AnsiColor::DarkGreen)),
            43 => AnsiCode::BackgroundColor(SolidColor::ANSI(AnsiColor::DarkYellow)),
            44 => AnsiCode::BackgroundColor(SolidColor::ANSI(AnsiColor::DarkBlue)),
            45 => AnsiCode::BackgroundColor(SolidColor::ANSI(AnsiColor::DarkMagenta)),
            46 => AnsiCode::BackgroundColor(SolidColor::ANSI(AnsiColor::DarkCyan)),
            47 => AnsiCode::BackgroundColor(SolidColor::ANSI(AnsiColor::Grey)),
            48 => AnsiCode::SetBackgroundColor,
            49 => AnsiCode::DefaultBackgroundColor,
            51 => AnsiCode::Framed,
            52 => AnsiCode::Encircled,
            53 => AnsiCode::Overlined,
            54 => AnsiCode::NeitherFramedNorEncircled,
            55 => AnsiCode::NotOverlined,
            90 => AnsiCode::ForegroundColor(SolidColor::ANSI(AnsiColor::DarkGrey)),
            91 => AnsiCode::ForegroundColor(SolidColor::ANSI(AnsiColor::Red)),
            92 => AnsiCode::ForegroundColor(SolidColor::ANSI(AnsiColor::Green)),
            93 => AnsiCode::ForegroundColor(SolidColor::ANSI(AnsiColor::Yellow)),
            94 => AnsiCode::ForegroundColor(SolidColor::ANSI(AnsiColor::Blue)),
            95 => AnsiCode::ForegroundColor(SolidColor::ANSI(AnsiColor::Magenta)),
            96 => AnsiCode::ForegroundColor(SolidColor::ANSI(AnsiColor::Cyan)),
            97 => AnsiCode::ForegroundColor(SolidColor::ANSI(AnsiColor::White)),
            100 => AnsiCode::BackgroundColor(SolidColor::ANSI(AnsiColor::DarkGrey)),
            101 => AnsiCode::BackgroundColor(SolidColor::ANSI(AnsiColor::Red)),
            102 => AnsiCode::BackgroundColor(SolidColor::ANSI(AnsiColor::Green)),
            103 => AnsiCode::BackgroundColor(SolidColor::ANSI(AnsiColor::Yellow)),
            104 => AnsiCode::BackgroundColor(SolidColor::ANSI(AnsiColor::Blue)),
            105 => AnsiCode::BackgroundColor(SolidColor::ANSI(AnsiColor::Magenta)),
            106 => AnsiCode::BackgroundColor(SolidColor::ANSI(AnsiColor::Cyan)),
            107 => AnsiCode::BackgroundColor(SolidColor::ANSI(AnsiColor::White)),
            _ => {
                let mut v: Vec<u8> = Vec::new();
                v.push(code);
                proof {
                    assert(v@ =~= seq![code]);
                }
                AnsiCode::Code(v)
            },
        }
    }
}

// ------------------------------------------------------------------------------------------
// The grammar, over the input bytes `s` from position `i`; each rule gives what it reads and
// the position after it.

/// An ASCII digit.
pub open spec fn is_digit(b: u8) -> bool {
    48 <= b <= 57
}

/// `s[j]` exists and is `b`.
pub open spec fn at(s: Seq<u8>, j: int, b: u8) -> bool {
    0 <= j < s.len() && s[j] == b
}

/// The position after an optional `;` at `j`.
pub open spec fn skip_semi(s: Seq<u8>, j: int) -> int {
    if at(s, j, 59) { j + 1 } else { j }
}

/// The end of the run of ASCII digits that starts at `i`.
pub open spec fn digits_end(s: Seq<u8>, i: int) -> int
    decreases s.len() - i,
{
    if 0 <= i < s.len() && is_digit(s[i]) { digits_end(s, i + 1) } else { i }
}

/// The decimal value of the digits `s[i..j]`.
pub open spec fn digits_value(s: Seq<u8>, i: int, j: int) -> int
    decreases j - i,
{
    if j <= i { 0 } else { digits_value(s, i, j - 1) * 10 + (s[j - 1] - 48) }
}

/// A decimal number from 0 to 255 (`nom::character::complete::u8`): at least one digit, and
/// all the digits that follow, of value at most 255.
pub open spec fn spec_u8(s: Seq<u8>, i: int) -> Option<(u8, int)> {
    let j = digits_end(s, i);
    if i < j && digits_value(s, i, j) <= 255 { Some((digits_value(s, i, j) as u8, j)) } else { None }
}

/// The kind of an extended color: a decimal integer with an optional sign that equals 2 (true
/// color) or 5 (8-bit), followed by `;`.
pub open spec fn spec_color_type(s: Seq<u8>, i: int) -> Option<(ColorType, int)> {
    let signed = at(s, i, 45) || at(s, i, 43);
    let k = if signed { i + 1 } else { i };
    let j = digits_end(s, k);
    if k < j && !at(s, i, 45) && at(s, j, 59) {
        if digits_value(s, k, j) == 2 {
            Some((ColorType::TrueColor, j + 1))
        } else if digits_value(s, k, j) == 5 {
            Some((ColorType::EightBit, j + 1))
        } else {
            None
        }
    } else {
        None
    }
}

/// An extended color: `2;r;g;b` or `5;n` (an optional `;` may follow the kind's `;`).
pub open spec fn spec_color(s: Seq<u8>, i: int) -> Option<(SolidColor, int)> {
    match spec_color_type(s, i) {
        None => None,
        Some((t, j0)) => {
            let j = skip_semi(s, j0);
            match t {
                ColorType::TrueColor => match spec_u8(s, j) {
                    None => None,
                    Some((r, j1)) => if !at(s, j1, 59) {
                        None
                    } else {
                        match spec_u8(s, j1 + 1) {
                            None => None,
                            Some((g, j2)) => if !at(s, j2, 59) {
                                None
                            } else {
                                match spec_u8(s, j2 + 1) {
                                    None => None,
                                    Some((b, j3)) => Some((rgb(r, g, b), j3)),
                                }
                            },
                        }
                    },
                },
                ColorType::EightBit => match spec_u8(s, j) {
                    None => None,
                    Some((n, j1)) => Some((SolidColor::ANSI(AnsiColor::AnsiValue(n)), j1)),
                },
            }
        },
    }
}

/// One SGR parameter: a number, for 38 and 48 an optional `;` and a color, then an optional `;`.
pub open spec fn spec_sgr_item(s: Seq<u8>, i: int) -> Option<(RawItem, int)> {
    match spec_u8(s, i) {
        None => None,
        Some((c, j)) => if c == 38 || c == 48 {
            match spec_color(s, skip_semi(s, j)) {
                None => None,
                Some((col, j2)) => Some(((c, Some(col)), skip_semi(s, j2))),
            }
        } else {
            Some(((c, None), skip_semi(s, j)))
        },
    }
}

/// As many SGR parameters as follow one another from `i`.
pub open spec fn spec_sgr_items(s: Seq<u8>, i: int) -> (Seq<RawItem>, int)
    decreases s.len() - i,
{
    match spec_sgr_item(s, i) {
        Some((it, j)) => if i < j <= s.len() {
            let (rest, k) = spec_sgr_items(s, j);
            (seq![it] + rest, k)
        } else {
            (Seq::empty(), i)
        },
        None => (Seq::empty(), i),
    }
}

/// A complete SGR code: `ESC [`, the parameters, `m`.
pub open spec fn spec_sgr_code(s: Seq<u8>, i: int) -> Option<(Seq<RawItem>, int)> {
    if at(s, i, 27) && at(s, i + 1, 91) {
        let (items, k) = spec_sgr_items(s, i + 2);
        if at(s, k, 109) { Some((items, k + 1)) } else { None }
    } else {
        None
    }
}

/// The first position at or after `j` holding an ASCII letter, or the end.
pub open spec fn alpha_from(s: Seq<u8>, j: int) -> int
    decreases s.len() - j,
{
    if 0 <= j < s.len() && !((65 <= s[j] <= 90) || (97 <= s[j] <= 122)) { alpha_from(s, j + 1) } else { j }
}

/// The first position at or after `j` holding a bell (0x07), or the end.
pub open spec fn bell_from(s: Seq<u8>, j: int) -> int
    decreases s.len() - j,
{
    if 0 <= j < s.len() && s[j] != 7 { bell_from(s, j + 1) } else { j }
}

/// Any other escape sequence, from the escape at `i`: `ESC [` up to and including the next
/// letter, `ESC ]` up to and including the next bell, or else the escape alone.
pub open spec fn spec_any_escape(s: Seq<u8>, i: int) -> int {
    if at(s, i + 1, 91) {
        let k = alpha_from(s, i + 2);
        if k < s.len() { k + 1 } else { k }
    } else if at(s, i + 1, 93) {
        let k = bell_from(s, i + 2);
        if k < s.len() { k + 1 } else { k }
    } else {
        i + 1
    }
}

/// An escape sequence at `i` (which holds an escape): the parameters of an SGR code, or `None`
/// for any other sequence, and the position after it.
pub open spec fn spec_style_f(s: Seq<u8>, i: int) -> (Option<Seq<RawItem>>, int) {
    match spec_sgr_code(s, i) {
        Some((items, k)) => (Some(items), k),
        None => (None, spec_any_escape(s, i)),
    }
}

// ------------------------------------------------------------------------------------------

proof fn lemma_digits_end_bounds(s: Seq<u8>, i: int)
    requires
        0 <= i <= s.len(),
    ensures
        i <= digits_end(s, i) <= s.len(),
        forall|k: int| i <= k < digits_end(s, i) ==> is_digit(#[trigger] s[k]),
    decreases s.len() - i,
{
    if i < s.len() && is_digit(s[i]) {
        lemma_digits_end_bounds(s, i + 1);
    }
}

/// Reads the run of digits at `i`: its end, and its value held at 1000 (larger values are
/// reported as 1000).
fn scan_digits(s: &[u8], i: usize) -> (r: (usize, u32))
    requires
        i <= s@.len(),
    ensures
        r.0 == digits_end(s@, i as int),
        r.1 == if digits_value(s@, i as int, r.0 as int) > 1000 { 1000 } else { digits_value(s@, i as int, r.0 as int) },
{
    let mut p = i;
    let mut v: u32 = 0;
    while p < s.len() && s[p] >= 48 && s[p] <= 57
        invariant
            i <= p <= s@.len(),
            digits_end(s@, i as int) == digits_end(s@, p as int),
            v == if digits_value(s@, i as int, p as int) > 1000 { 1000 } else { digits_value(s@, i as int, p as int) },
            digits_value(s@, i as int, p as int) >= 0,
        decreases s@.len() - p,
    {
        let d = (s[p] - 48) as u32;
        assert(digits_value(s@, i as int, p + 1) == digits_value(s@, i as int, p as int) * 10 + d);
        if v >= 1000 {
            v = 1000;
        } else {
            let w = v * 10 + d;
            v = if w > 1000 { 1000 } else { w };
        }
        p = p + 1;
    }
    (p, v)
}

/// `nom::character::complete::u8` at `i`.
pub fn parse_u8(s: &[u8], i: usize) -> (r: Option<(u8, usize)>)
    requires
        i <= s@.len(),
    ensures
        r matches Some((v, j)) ==> spec_u8(s@, i as int) == Some((v, j as int)),
        r is None ==> spec_u8(s@, i as int) is None,
        r matches Some((v, j)) ==> j <= s@.len(),
{
    proof {
        lemma_digits_end_bounds(s@, i as int);
    }
    let (j, v) = scan_digits(s, i);
    if i < j && v <= 255 {
        Some((v as u8, j))
    } else {
        None
    }
}

fn is_at(s: &[u8], j: usize, b: u8) -> (r: bool)
    ensures
        r == at(s@, j as int, b),
        s@.len() <= usize::MAX,
{
    j < s.len() && s[j] == b
}

fn skip_semicolon(s: &[u8], j: usize) -> (r: usize)
    requires
        j <= s@.len(),
    ensures
        r == skip_semi(s@, j as int),
        r <= s@.len(),
{
    if is_at(s, j, 59) { j + 1 } else { j }
}

/// The kind of an extended color at `i`.
pub fn color_type(s: &[u8], i: usize) -> (r: Option<(ColorType, usize)>)
    requires
        i <= s@.len(),
    ensures
        r matches Some((t, j)) ==> spec_color_type(s@, i as int) == Some((t, j as int)) && j <= s@.len(),
        r is None ==> spec_color_type(s@, i as int) is None,
{
    let neg = is_at(s, i, 45);
    let signed = neg || is_at(s, i, 43);
    let k = if signed { i + 1 } else { i };
    proof {
        lemma_digits_end_bounds(s@, k as int);
    }
    let (j, v) = scan_digits(s, k);
    if k < j && !neg && is_at(s, j, 59) {
        if v == 2 {
            Some((ColorType::TrueColor, j + 1))
        } else if v == 5 {
            Some((ColorType::EightBit, j + 1))
        } else {
            None
        }
    } else {
        None
    }
}

/// An extended color at `i`: `2;r;g;b` or `5;n`.
pub fn color(s: &[u8], i: usize) -> (r: Option<(SolidColor, usize)>)
    requires
        i <= s@.len(),
    ensures
        r matches Some((c, j)) ==> spec_color(s@, i as int) == Some((c, j as int)) && j <= s@.len(),
        r is None ==> spec_color(s@, i as int) is None,
{
    let (t, j0) = match color_type(s, i) {
        None => return None,
        Some(x) => x,
    };
    let j = skip_semicolon(s, j0);
    match t {
        ColorType::TrueColor => {
            let (r, j1) = match parse_u8(s, j) {
                None => return None,
                Some(x) => x,
            };
            if !is_at(s, j1, 59) {
                return None;
            }
            let (g, j2) = match parse_u8(s, j1 + 1) {
                None => return None,
                Some(x) => x,
            };
            if !is_at(s, j2, 59) {
                return None;
            }
            let (b, j3) = match parse_u8(s, j2 + 1) {
                None => return None,
                Some(x) => x,
            };
            Some((SolidColor::Rgba(Rgba::new(r, g, b)), j3))
        },
        ColorType::EightBit => {
            let (n, j1) = match parse_u8(s, j) {
                None => return None,
                Some(x) => x,
            };
            Some((SolidColor::ANSI(AnsiColor::AnsiValue(n)), j1))
        },
    }
}

/// One SGR parameter at `i`.
pub fn ansi_sgr_item(s: &[u8], i: usize) -> (r: Option<(AnsiItem, usize)>)
    requires
        i <= s@.len(),
    ensures
        r matches Some((it, j)) ==> {
            &&& spec_sgr_item(s@, i as int) matches Some((raw, sj))
            &&& item_is(it, raw)
            &&& sj == j
            &&& i < j <= s@.len()
        },
        r is None ==> spec_sgr_item(s@, i as int) is None,
{
    let (c, j) = match parse_u8(s, i) {
        None => return None,
        Some(x) => x,
    };
    proof {
        lemma_digits_end_bounds(s@, i as int);
    }
    let code = AnsiCode::from_code(c);
    if c == 38 || c == 48 {
        let j1 = skip_semicolon(s, j);
        let (col, j2) = match color(s, j1) {
            None => return None,
            Some(x) => x,
        };
        let k = skip_semicolon(s, j2);
        Some((AnsiItem { code, color: Some(col) }, k))
    } else {
        let k = skip_semicolon(s, j);
        Some((AnsiItem { code, color: None }, k))
    }
}

/// A complete SGR code at `i`: its parameters and the position after the closing `m`.
pub fn ansi_sgr_code(s: &[u8], i: usize) -> (r: Option<(Vec<AnsiItem>, usize)>)
    requires
        i <= s@.len(),
    ensures
        r matches Some((items, j)) ==> {
            &&& spec_sgr_code(s@, i as int) matches Some((raws, sj))
            &&& items_are(items@, raws)
            &&& sj == j
            &&& i < j <= s@.len()
        },
        r is None ==> spec_sgr_code(s@, i as int) is None,
{
    if !is_at(s, i, 27) {
        return None;
    }
    if !is_at(s, i + 1, 91) {
        return None;
    }
    let mut items: Vec<AnsiItem> = Vec::new();
    let mut p = i + 2;
    let ghost mut raws: Seq<RawItem> = Seq::empty();
    loop
        invariant
            i + 2 <= p <= s@.len(),
            items_are(items@, raws),
            spec_sgr_items(s@, i + 2) == ({
                let (rest, k) = spec_sgr_items(s@, p as int);
                (raws + rest, k)
            }),
        ensures
            i + 2 <= p <= s@.len(),
            items_are(items@, raws),
            spec_sgr_items(s@, i + 2) == ({
                let (rest, k) = spec_sgr_items(s@, p as int);
                (raws + rest, k)
            }),
            spec_sgr_item(s@, p as int) is None,
        decreases s@.len() - p,
    {
        match ansi_sgr_item(s, p) {
            Some((it, j)) => {
                proof {
                    let (raw, _) = spec_sgr_item(s@, p as int).unwrap();
                    let (rest, k) = spec_sgr_items(s@, j as int);
                    assert(spec_sgr_items(s@, p as int) == (seq![raw] + rest, k));
                    assert(raws + (seq![raw] + rest) =~= (raws.push(raw)) + rest);
                    raws = raws.push(raw);
                }
                items.push(it);
                p = j;
            },
            None => {
                break;
            },
        }
    }
    proof {
        assert(spec_sgr_items(s@, p as int) == (Seq::<RawItem>::empty(), p as int));
        assert(raws + Seq::<RawItem>::empty() =~= raws);
    }
    if is_at(s, p, 109) {
        Some((items, p + 1))
    } else {
        None
    }
}

proof fn lemma_alpha_from_bounds(s: Seq<u8>, j: int)
    requires
        0 <= j <= s.len(),
    ensures
        j <= alpha_from(s, j) <= s.len(),
    decreases s.len() - j,
{
    if j < s.len() && !((65 <= s[j] <= 90) || (97 <= s[j] <= 122)) {
        lemma_alpha_from_bounds(s, j + 1);
    }
}

proof fn lemma_bell_from_bounds(s: Seq<u8>, j: int)
    requires
        0 <= j <= s.len(),
    ensures
        j <= bell_from(s, j) <= s.len(),
    decreases s.len() - j,
{
    if j < s.len() && s[j] != 7 {
        lemma_bell_from_bounds(s, j + 1);
    }
}

/// Any escape sequence at the escape at `i`: the position after it.
pub fn any_escape_sequence(s: &[u8], i: usize) -> (r: usize)
    requires
        i < s@.len(),
        s@[i as int] == 27,
    ensures
        r == spec_any_escape(s@, i as int),
        i < r <= s@.len(),
{
    let _ = is_at(s, i, 27);
    if is_at(s, i + 1, 91) {
        let mut k = i + 2;
        proof {
            lemma_alpha_from_bounds(s@, k as int);
        }
        while k < s.len() && !((s[k] >= 65 && s[k] <= 90) || (s[k] >= 97 && s[k] <= 122))
            invariant
                i + 2 <= k <= s@.len(),
                alpha_from(s@, i + 2) == alpha_from(s@, k as int),
            decreases s@.len() - k,
        {
            k = k + 1;
        }
        if k < s.len() { k + 1 } else { k }
    } else if is_at(s, i + 1, 93) {
        let mut k = i + 2;
        proof {
            lemma_bell_from_bounds(s@, k as int);
        }
        while k < s.len() && s[k] != 7
            invariant
                i + 2 <= k <= s@.len(),
                bell_from(s@, i + 2) == bell_from(s@, k as int),
            decreases s@.len() - k,
        {
            k = k + 1;
        }
        if k < s.len() { k + 1 } else { k }
    } else {
        i + 1
    }
}

/// The escape sequence at the escape at `i`: the items of an SGR code (`None` for any other
/// sequence), and the position after it.
pub fn style_f(s: &[u8], i: usize) -> (r: (Option<Vec<AnsiItem>>, usize))
    requires
        i < s@.len(),
        s@[i as int] == 27,
    ensures
        i < r.1 <= s@.len(),
        r.1 == spec_style_f(s@, i as int).1,
        match (r.0, spec_style_f(s@, i as int).0) {
            (Some(items), Some(raws)) => items_are(items@, raws),
            (None, None) => true,
            _ => false,
        },
{
    match ansi_sgr_code(s, i) {
        Some((items, j)) => (Some(items), j),
        None => (None, any_escape_sequence(s, i)),
    }
}


// ------------------------------------------------------------------------------------------
// Text with SGR codes laid out on a grid of cells.

/// A cell of laid out text: its character and the number of SGR codes read before it. The
/// style of the cell is the base style with that many of the codes applied in order (0: the base
/// style itself, which is also the style of the spaces that pad a line).
pub type AnsiCell = (char, usize);

/// Text laid out on a grid: `rows[y][x]` is the cell at column `x` of line `y`, and
/// `sgr_codes` holds, in order, the parameters of every SGR code read.
pub struct AnsiText {
    pub rows: Vec<Vec<AnsiCell>>,
    pub sgr_codes: Vec<Vec<AnsiItem>>,
}

/// `row` padded with spaces of the base style until column `x` exists.
pub open spec fn pad_row(row: Seq<AnsiCell>, x: int) -> Seq<AnsiCell> {
    if row.len() > x {
        row
    } else {
        row + Seq::new((x + 1 - row.len()) as nat, |k: int| (' ', 0usize))
    }
}

/// `rows` extended with empty lines until line `y` exists.
pub open spec fn ensure_rows(rows: Seq<Seq<AnsiCell>>, y: int) -> Seq<Seq<AnsiCell>> {
    if rows.len() > y {
        rows
    } else {
        rows + Seq::new((y + 1 - rows.len()) as nat, |k: int| Seq::<AnsiCell>::empty())
    }
}

/// `rows` with cell `c` written at column `x` of line `y`.
pub open spec fn put_cell(rows: Seq<Seq<AnsiCell>>, x: int, y: int, c: AnsiCell) -> Seq<Seq<AnsiCell>> {
    let r = ensure_rows(rows, y);
    r.update(y, pad_row(r[y], x).update(x, c))
}

/// The bytes of `s` from `i`.
pub open spec fn rest(s: Seq<u8>, i: int) -> Seq<u8> {
    s.subrange(i, s.len() as int)
}

/// The layout of `s` from position `i`, with the cursor at (`x`, `y`), the lines laid out so far
/// and the codes read so far: an escape followed by `[` starts an escape sequence, which is
/// skipped (an SGR code is recorded); a newline moves to the start of the next line; the next
/// character is written at the cursor, which moves right, as long as all of the remaining bytes
/// are valid UTF-8; otherwise the byte is skipped.
pub open spec fn scan(
    s: Seq<u8>,
    i: int,
    x: int,
    y: int,
    rows: Seq<Seq<AnsiCell>>,
    codes: Seq<Seq<RawItem>>,
) -> (Seq<Seq<AnsiCell>>, Seq<Seq<RawItem>>)
    decreases s.len() - i,
{
    if !(0 <= i < s.len()) {
        (rows, codes)
    } else if s[i] == 27 && at(s, i + 1, 91) {
        let (found, k) = spec_style_f(s, i);
        let codes2 = match found {
            Some(items) => codes.push(items),
            None => codes,
        };
        if i < k <= s.len() {
            scan(s, k, x, y, rows, codes2)
        } else {
            (rows, codes2)
        }
    } else if s[i] == 10 {
        scan(s, i + 1, 0, y + 1, rows, codes)
    } else if valid_utf8(rest(s, i)) {
        let t = rest(s, i);
        let c = (decode_first_scalar(t) as char, codes.len() as usize);
        scan(s, i + length_of_first_scalar(t), x + 1, y, put_cell(rows, x, y, c), codes)
    } else {
        scan(s, i + 1, x, y, rows, codes)
    }
}

/// The lines of `rows` as sequences.
pub open spec fn rows_view(rows: Seq<Vec<AnsiCell>>) -> Seq<Seq<AnsiCell>> {
    rows.map_values(|r: Vec<AnsiCell>| r@)
}

/// `codes` are the items read as the raw codes `raws`.
pub open spec fn codes_are(codes: Seq<Vec<AnsiItem>>, raws: Seq<Seq<RawItem>>) -> bool {
    codes.len() == raws.len() && forall|k: int| 0 <= k < codes.len() ==> items_are(#[trigger] codes[k]@, raws[k])
}

/// Calls `core::str::from_utf8` on the bytes of `s` from `start`. Claimed, as its documentation
/// states: it succeeds exactly when those bytes are valid UTF-8, and the string then holds the
/// characters that they encode.
#[verifier::external_body]
fn str_from_utf8(s: &[u8], start: usize) -> (r: Option<&str>)
    requires
        start <= s@.len(),
    ensures
        r.is_some() <==> valid_utf8(rest(s@, start as int)),
        r matches Some(t) ==> t@ == decode_utf8(rest(s@, start as int)),
{
    core::str::from_utf8(&s[start..]).ok()
}

/// The length of the UTF-8 encoding that starts with `lead`.
fn utf8_width(lead: u8) -> (n: usize)
    ensures
        1 <= n <= 4,
        is_leading_byte_width_1(lead) ==> n == 1,
        is_leading_byte_width_2(lead) ==> n == 2,
        is_leading_byte_width_3(lead) ==> n == 3,
        is_leading_byte_width_4(lead) ==> n == 4,
{
    if lead <= 0x7f {
        1
    } else if lead <= 0xdf {
        2
    } else if lead <= 0xef {
        3
    } else {
        4
    }
}

proof fn lemma_first_scalar(t: Seq<u8>)
    requires
        valid_utf8(t),
        t.len() > 0,
    ensures
        valid_first_scalar(t),
        1 <= length_of_first_scalar(t) <= t.len(),
        decode_utf8(t).len() > 0,
        decode_utf8(t)[0] == decode_first_scalar(t) as char,
{
    assert(decode_utf8(t) == seq![decode_first_scalar(t) as char] + decode_utf8(pop_first_scalar(t)));
}

/// Every cell of `rows` counts at most `n` codes before it.
pub open spec fn cells_within(rows: Seq<Seq<AnsiCell>>, n: nat) -> bool {
    forall|y: int, x: int| 0 <= y < rows.len() && 0 <= x < rows[y].len() ==> (#[trigger] rows[y][x]).1 <= n
}

/// Lays out `s` on a grid: SGR codes are recorded (other escape sequences skipped), newlines
/// start a new line, and every other character takes the next cell of its line, lines being
/// padded with spaces of the base style where needed. A byte is skipped where the remaining bytes
/// are not all valid UTF-8.
pub fn layout_ansi_text(s: &[u8]) -> (out: AnsiText)
    ensures
        ({
            let (rows, raws) = scan(s@, 0, 0, 0, Seq::empty(), Seq::empty());
            rows_view(out.rows@) == rows && codes_are(out.sgr_codes@, raws)
        }),
        cells_within(rows_view(out.rows@), out.sgr_codes@.len()),
{
    let mut rows: Vec<Vec<AnsiCell>> = Vec::new();
    let mut codes: Vec<Vec<AnsiItem>> = Vec::new();
    let ghost mut raws: Seq<Seq<RawItem>> = Seq::empty();
    let mut x: usize = 0;
    let mut y: usize = 0;
    let mut i: usize = 0;
    let n = s.len();
    proof {
        assert(rows_view(rows@) =~= Seq::<Seq<AnsiCell>>::empty());
    }
    while i < n
        invariant
            n == s@.len(),
            i <= n,
            x <= i,
            y <= i,
            codes_are(codes@, raws),
            cells_within(rows_view(rows@), codes@.len()),
            scan(s@, 0, 0, 0, Seq::empty(), Seq::empty()) == scan(
                s@,
                i as int,
                x as int,
                y as int,
                rows_view(rows@),
                raws,
            ),
        decreases n - i,
    {
        if s[i] == 27 && i + 1 < n && s[i + 1] == 91 {
            let (found, k) = style_f(s, i);
            match found {
                Some(items) => {
                    proof {
                        let r = spec_style_f(s@, i as int).0.unwrap();
                        assert(codes_are(codes@.push(items), raws.push(r)));
                        raws = raws.push(r);
                    }
                    codes.push(items);
                },
                None => {},
            }
            i = k;
        } else if s[i] == 10 {
            y = y + 1;
            x = 0;
            i = i + 1;
        } else {
            match str_from_utf8(s, i) {
                Some(txt) => {
                    let ghost t = rest(s@, i as int);
                    proof {
                        assert(t[0] == s@[i as int]);
                        lemma_first_scalar(t);
                    }
                    let ch = txt.get_char(0);
                    let w = utf8_width(s[i]);
                    let ghost old_rows = rows_view(rows@);
                    let cell: AnsiCell = (ch, codes.len());
                    while rows.len() <= y
                        invariant
                            ensure_rows(old_rows, y as int) == ensure_rows(rows_view(rows@), y as int),
                            rows_view(rows@).len() >= old_rows.len(),
                            cells_within(rows_view(rows@), codes@.len()),
                        decreases y + 1 - rows.len(),
                    {
                        let ghost rv = rows_view(rows@);
                        rows.push(Vec::new());
                        proof {
                            let e = Seq::<AnsiCell>::empty();
                            assert(rows_view(rows@) =~= rv.push(e));
                            assert(ensure_rows(rv, y as int) =~= ensure_rows(rv.push(e), y as int));
                        }
                    }
                    let ghost mid_rows = rows_view(rows@);
                    proof {
                        assert(mid_rows == ensure_rows(old_rows, y as int));
                    }
                    while rows[y].len() <= x
                        invariant
                            y < rows@.len(),
                            rows@.len() == mid_rows.len(),
                            forall|k: int| 0 <= k < rows@.len() && k != y ==> rows@[k]@ == mid_rows[k],
                            pad_row(mid_rows[y as int], x as int) == pad_row(rows@[y as int]@, x as int),
                            rows@[y as int]@.len() >= mid_rows[y as int].len(),
                            cells_within(rows_view(rows@), codes@.len()),
                        decreases x + 1 - rows@[y as int]@.len(),
                    {
                        proof {
                            let r = rows@[y as int]@;
                            assert(pad_row(r, x as int) =~= pad_row(r.push((' ', 0usize)), x as int));
                        }
                        let ghost before = rows_view(rows@);
                        rows[y].push((' ', 0));
                        proof {
                            let after = rows_view(rows@);
                            assert forall|yy: int, xx: int|
                                0 <= yy < after.len() && 0 <= xx < after[yy].len() implies (
                                #[trigger] after[yy][xx]).1 <= codes@.len() by {
                                if yy != y as int {
                                    assert(after[yy] == before[yy]);
                                } else if xx < before[yy].len() {
                                    assert(after[yy][xx] == before[yy][xx]);
                                }
                            }
                        }
                    }
                    rows[y].set(x, cell);
                    proof {
                        assert(rows_view(rows@) =~= put_cell(old_rows, x as int, y as int, cell));
                    }
                    x = x + 1;
                    i = i + w;
                },
                None => {
                    i = i + 1;
                },
            }
        }
    }
    AnsiText { rows, sgr_codes: codes }
}

} // verus!
