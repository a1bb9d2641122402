use vstd::prelude::*;
use crate::ch::{char_at, str_chars};
use crate::color::{Rgba, SolidColor};

verus! {

/// The lowercase form of a text, as `str::to_lowercase` gives it (by the Unicode property
/// Lowercase).
pub uninterp spec fn lowercase(s: Seq<char>) -> Seq<char>;

/// Lowercases a text.
///
/// Calls `str::to_lowercase`; the contract says that the result is the lowercase form of the
/// argument, a function of the argument alone, and nothing of what that form is.
#[verifier::external_body]
fn to_lowercase(s: &str) -> (r: String)
    ensures
        r@ == lowercase(s@),
{
    s.to_lowercase()
}

/// The text with each space replaced by an underscore.
pub open spec fn underscored(s: Seq<char>) -> Seq<char> {
    s.map_values(|c: char| if c == ' ' { '_' } else { c })
}

/// The CSS colour of a name (lowercase, words joined by underscores), or none where the name is
/// not one of them.
pub open spec fn css_color(key: Seq<char>) -> Option<Rgba> {
    if key == "maroon"@ {
        Some(Rgba { r: 128, g: 0, b: 0, a: 255 })
    } else if key == "dark_red"@ {
        Some(Rgba { r: 139, g: 0, b: 0, a: 255 })
    } else if key == "brown"@ {
        Some(Rgba { r: 165, g: 42, b: 42, a: 255 })
    } else if key == "firebrick"@ {
        Some(Rgba { r: 178, g: 34, b: 34, a: 255 })
    } else if key == "crimson"@ {
        Some(Rgba { r: 220, g: 20, b: 60, a: 255 })
    } else if key == "red"@ {
        Some(Rgba { r: 255, g: 0, b: 0, a: 255 })
    } else if key == "tomato"@ {
        Some(Rgba { r: 255, g: 99, b: 71, a: 255 })
    } else if key == "coral"@ {
        Some(Rgba { r: 255, g: 127, b: 80, a: 255 })
    } else if key == "indian_red"@ {
        Some(Rgba { r: 205, g: 92, b: 92, a: 255 })
    } else if key == "light_coral"@ {
        Some(Rgba { r: 240, g: 128, b: 128, a: 255 })
    } else if key == "dark_salmon"@ {
        Some(Rgba { r: 233, g: 150, b: 122, a: 255 })
    } else if key == "salmon"@ {
        Some(Rgba { r: 250, g: 128, b: 114, a: 255 })
    } else if key == "light_salmon"@ {
        Some(Rgba { r: 255, g: 160, b: 122, a: 255 })
    } else if key == "orange_red"@ {
        Some(Rgba { r: 255, g: 69, b: 0, a: 255 })
    } else if key == "dark_orange"@ {
        Some(Rgba { r: 255, g: 140, b: 0, a: 255 })
    } else if key == "orange"@ {
        Some(Rgba { r: 255, g: 165, b: 0, a: 255 })
    } else if key == "gold"@ {
        Some(Rgba { r: 255, g: 215, b: 0, a: 255 })
    } else if key == "dark_golden_rod"@ {
        Some(Rgba { r: 184, g: 134, b: 11, a: 255 })
    } else if key == "golden_rod"@ {
        Some(Rgba { r: 218, g: 165, b: 32, a: 255 })
    } else if key == "pale_golden_rod"@ {
        Some(Rgba { r: 238, g: 232, b: 170, a: 255 })
    } else if key == "dark_khaki"@ {
        Some(Rgba { r: 189, g: 183, b: 107, a: 255 })
    } else if key == "khaki"@ {
        Some(Rgba { r: 240, g: 230, b: 140, a: 255 })
    } else if key == "olive"@ {
        Some(Rgba { r: 128, g: 128, b: 0, a: 255 })
    } else if key == "yellow"@ {
        Some(Rgba { r: 255, g: 255, b: 0, a: 255 })
    } else if key == "yellow_green"@ {
        Some(Rgba { r: 154, g: 205, b: 50, a: 255 })
    } else if key == "dark_olive_green"@ {
        Some(Rgba { r: 85, g: 107, b: 47, a: 255 })
    } else if key == "olive_drab"@ {
        Some(Rgba { r: 107, g: 142, b: 35, a: 255 })
    } else if key == "lawn_green"@ {
        Some(Rgba { r: 124, g: 252, b: 0, a: 255 })
    } else if key == "chartreuse"@ {
        Some(Rgba { r: 127, g: 255, b: 0, a: 255 })
    } else if key == "green_yellow"@ {
        Some(Rgba { r: 173, g: 255, b: 47, a: 255 })
    } else if key == "dark_green"@ {
        Some(Rgba { r: 0, g: 100, b: 0, a: 255 })
    } else if key == "green"@ {
        Some(Rgba { r: 0, g: 128, b: 0, a: 255 })
    } else if key == "forest_green"@ {
        Some(Rgba { r: 34, g: 139, b: 34, a: 255 })
    } else if key == "lime"@ {
        Some(Rgba { r: 0, g: 255, b: 0, a: 255 })
    } else if key == "lime_green"@ {
        Some(Rgba { r: 50, g: 205, b: 50, a: 255 })
    } else if key == "light_green"@ {
        Some(Rgba { r: 144, g: 238, b: 144, a: 255 })
    } else if key == "pale_green"@ {
        Some(Rgba { r: 152, g: 251, b: 152, a: 255 })
    } else if key == "dark_sea_green"@ {
        Some(Rgba { r: 143, g: 188, b: 143, a: 255 })
    } else if key == "medium_spring_green"@ {
        Some(Rgba { r: 0, g: 250, b: 154, a: 255 })
    } else if key == "spring_green"@ {
        Some(Rgba { r: 0, g: 255, b: 127, a: 255 })
    } else if key == "sea_green"@ {
        Some(Rgba { r: 46, g: 139, b: 87, a: 255 })
    } else if key == "medium_aqua_marine"@ {
        Some(Rgba { r: 102, g: 205, b: 170, a: 255 })
    } else if key == "medium_sea_green"@ {
        Some(Rgba { r: 60, g: 179, b: 113, a: 255 })
    } else if key == "light_sea_green"@ {
        Some(Rgba { r: 32, g: 178, b: 170, a: 255 })
    } else if key == "dark_slate_gray"@ {
        Some(Rgba { r: 47, g: 79, b: 79, a: 255 })
    } else if key == "teal"@ {
        Some(Rgba { r: 0, g: 128, b: 128, a: 255 })
    } else if key == "dark_cyan"@ {
        Some(Rgba { r: 0, g: 139, b: 139, a: 255 })
    } else if key == "aqua"@ {
        Some(Rgba { r: 0, g: 255, b: 255, a: 255 })
    } else if key == "cyan"@ {
        Some(Rgba { r: 0, g: 255, b: 255, a: 255 })
    } else if key == "light_cyan"@ {
        Some(Rgba { r: 224, g: 255, b: 255, a: 255 })
    } else if key == "dark_turquoise"@ {
        Some(Rgba { r: 0, g: 206, b: 209, a: 255 })
    } else if key == "turquoise"@ {
        Some(Rgba { r: 64, g: 224, b: 208, a: 255 })
    } else if key == "medium_turquoise"@ {
        Some(Rgba { r: 72, g: 209, b: 204, a: 255 })
    } else if key == "pale_turquoise"@ {
        Some(Rgba { r: 175, g: 238, b: 238, a: 255 })
    } else if key == "aqua_marine"@ {
        Some(Rgba { r: 127, g: 255, b: 212, a: 255 })
    } else if key == "powder_blue"@ {
        Some(Rgba { r: 176, g: 224, b: 230, a: 255 })
    } else if key == "cadet_blue"@ {
        Some(Rgba { r: 95, g: 158, b: 160, a: 255 })
    } else if key == "steel_blue"@ {
        Some(Rgba { r: 70, g: 130, b: 180, a: 255 })
    } else if key == "cornflower_blue"@ {
        Some(Rgba { r: 100, g: 149, b: 237, a: 255 })
    } else if key == "deep_sky_blue"@ {
        Some(Rgba { r: 0, g: 191, b: 255, a: 255 })
    } else if key == "dodger_blue"@ {
        Some(Rgba { r: 30, g: 144, b: 255, a: 255 })
    } else if key == "light_blue"@ {
        Some(Rgba { r: 173, g: 216, b: 230, a: 255 })
    } else if key == "sky_blue"@ {
        Some(Rgba { r: 135, g: 206, b: 235, a: 255 })
    } else if key == "light_sky_blue"@ {
        Some(Rgba { r: 135, g: 206, b: 250, a: 255 })
    } else if key == "midnight_blue"@ {
        Some(Rgba { r: 25, g: 25, b: 112, a: 255 })
    } else if key == "navy"@ {
        Some(Rgba { r: 0, g: 0, b: 128, a: 255 })
    } else if key == "dark_blue"@ {
        Some(Rgba { r: 0, g: 0, b: 139, a: 255 })
    } else if key == "medium_blue"@ {
        Some(Rgba { r: 0, g: 0, b: 205, a: 255 })
    } else if key == "blue"@ {
        Some(Rgba { r: 0, g: 0, b: 255, a: 255 })
    } else if key == "royal_blue"@ {
        Some(Rgba { r: 65, g: 105, b: 225, a: 255 })
    } else if key == "blue_violet"@ {
        Some(Rgba { r: 138, g: 43, b: 226, a: 255 })
    } else if key == "indigo"@ {
        Some(Rgba { r: 75, g: 0, b: 130, a: 255 })
    } else if key == "dark_slate_blue"@ {
        Some(Rgba { r: 72, g: 61, b: 139, a: 255 })
    } else if key == "slate_blue"@ {
        Some(Rgba { r: 106, g: 90, b: 205, a: 255 })
    } else if key == "medium_slate_blue"@ {
        Some(Rgba { r: 123, g: 104, b: 238, a: 255 })
    } else if key == "medium_purple"@ {
        Some(Rgba { r: 147, g: 112, b: 219, a: 255 })
    } else if key == "dark_magenta"@ {
        Some(Rgba { r: 139, g: 0, b: 139, a: 255 })
    } else if key == "dark_violet"@ {
        Some(Rgba { r: 148, g: 0, b: 211, a: 255 })
    } else if key == "dark_orchid"@ {
        Some(Rgba { r: 153, g: 50, b: 204, a: 255 })
    } else if key == "medium_orchid"@ {
        Some(Rgba { r: 186, g: 85, b: 211, a: 255 })
    } else if key == "purple"@ {
        Some(Rgba { r: 128, g: 0, b: 128, a: 255 })
    } else if key == "thistle"@ {
        Some(Rgba { r: 216, g: 191, b: 216, a: 255 })
    } else if key == "plum"@ {
        Some(Rgba { r: 221, g: 160, b: 221, a: 255 })
    } else if key == "violet"@ {
        Some(Rgba { r: 238, g: 130, b: 238, a: 255 })
    } else if key == "magenta"@ {
        Some(Rgba { r: 255, g: 0, b: 255, a: 255 })
    } else if key == "fuchsia"@ {
        Some(Rgba { r: 255, g: 0, b: 255, a: 255 })
    } else if key == "orchid"@ {
        Some(Rgba { r: 218, g: 112, b: 214, a: 255 })
    } else if key == "medium_violet_red"@ {
        Some(Rgba { r: 199, g: 21, b: 133, a: 255 })
    } else if key == "pale_violet_red"@ {
        Some(Rgba { r: 219, g: 112, b: 147, a: 255 })
    } else if key == "deep_pink"@ {
        Some(Rgba { r: 255, g: 20, b: 147, a: 255 })
    } else if key == "hot_pink"@ {
        Some(Rgba { r: 255, g: 105, b: 180, a: 255 })
    } else if key == "light_pink"@ {
        Some(Rgba { r: 255, g: 182, b: 193, a: 255 })
    } else if key == "pink"@ {
        Some(Rgba { r: 255, g: 192, b: 203, a: 255 })
    } else if key == "antique_white"@ {
        Some(Rgba { r: 250, g: 235, b: 215, a: 255 })
    } else if key == "beige"@ {
        Some(Rgba { r: 245, g: 245, b: 220, a: 255 })
    } else if key == "bisque"@ {
        Some(Rgba { r: 255, g: 228, b: 196, a: 255 })
    } else if key == "blanched_almond"@ {
        Some(Rgba { r: 255, g: 235, b: 205, a: 255 })
    } else if key == "wheat"@ {
        Some(Rgba { r: 245, g: 222, b: 179, a: 255 })
    } else if key == "corn_silk"@ {
        Some(Rgba { r: 255, g: 248, b: 220, a: 255 })
    } else if key == "lemon_chiffon"@ {
        Some(Rgba { r: 255, g: 250, b: 205, a: 255 })
    } else if key == "light_golden_rod_yellow"@ {
        Some(Rgba { r: 250, g: 250, b: 210, a: 255 })
    } else if key == "light_yellow"@ {
        Some(Rgba { r: 255, g: 255, b: 224, a: 255 })
    } else if key == "saddle_brown"@ {
        Some(Rgba { r: 139, g: 69, b: 19, a: 255 })
    } else if key == "sienna"@ {
        Some(Rgba { r: 160, g: 82, b: 45, a: 255 })
    } else if key == "chocolate"@ {
        Some(Rgba { r: 210, g: 105, b: 30, a: 255 })
    } else if key == "peru"@ {
        Some(Rgba { r: 205, g: 133, b: 63, a: 255 })
    } else if key == "sandy_brown"@ {
        Some(Rgba { r: 244, g: 164, b: 96, a: 255 })
    } else if key == "burly_wood"@ {
        Some(Rgba { r: 222, g: 184, b: 135, a: 255 })
    } else if key == "tan"@ {
        Some(Rgba { r: 210, g: 180, b: 140, a: 255 })
    } else if key == "rosy_brown"@ {
        Some(Rgba { r: 188, g: 143, b: 143, a: 255 })
    } else if key == "moccasin"@ {
        Some(Rgba { r: 255, g: 228, b: 181, a: 255 })
    } else if key == "navajo_white"@ {
        Some(Rgba { r: 255, g: 222, b: 173, a: 255 })
    } else if key == "peach_puff"@ {
        Some(Rgba { r: 255, g: 218, b: 185, a: 255 })
    } else if key == "misty_rose"@ {
        Some(Rgba { r: 255, g: 228, b: 225, a: 255 })
    } else if key == "lavender_blush"@ {
        Some(Rgba { r: 255, g: 240, b: 245, a: 255 })
    } else if key == "linen"@ {
        Some(Rgba { r: 250, g: 240, b: 230, a: 255 })
    } else if key == "old_lace"@ {
        Some(Rgba { r: 253, g: 245, b: 230, a: 255 })
    } else if key == "papaya_whip"@ {
        Some(Rgba { r: 255, g: 239, b: 213, a: 255 })
    } else if key == "sea_shell"@ {
        Some(Rgba { r: 255, g: 245, b: 238, a: 255 })
    } else if key == "mint_cream"@ {
        Some(Rgba { r: 245, g: 255, b: 250, a: 255 })
    } else if key == "slate_gray"@ {
        Some(Rgba { r: 112, g: 128, b: 144, a: 255 })
    } else if key == "light_slate_gray"@ {
        Some(Rgba { r: 119, g: 136, b: 153, a: 255 })
    } else if key == "light_steel_blue"@ {
        Some(Rgba { r: 176, g: 196, b: 222, a: 255 })
    } else if key == "lavender"@ {
        Some(Rgba { r: 230, g: 230, b: 250, a: 255 })
    } else if key == "floral_white"@ {
        Some(Rgba { r: 255, g: 250, b: 240, a: 255 })
    } else if key == "alice_blue"@ {
        Some(Rgba { r: 240, g: 248, b: 255, a: 255 })
    } else if key == "ghost_white"@ {
        Some(Rgba { r: 248, g: 248, b: 255, a: 255 })
    } else if key == "honeydew"@ {
        Some(Rgba { r: 240, g: 255, b: 240, a: 255 })
    } else if key == "ivory"@ {
        Some(Rgba { r: 255, g: 255, b: 240, a: 255 })
    } else if key == "azure"@ {
        Some(Rgba { r: 240, g: 255, b: 255, a: 255 })
    } else if key == "snow"@ {
        Some(Rgba { r: 255, g: 250, b: 250, a: 255 })
    } else if key == "black"@ {
        Some(Rgba { r: 0, g: 0, b: 0, a: 255 })
    } else if key == "space_gray"@ {
        Some(Rgba { r: 105, g: 105, b: 105, a: 255 })
    } else if key == "space_grey"@ {
        Some(Rgba { r: 105, g: 105, b: 105, a: 255 })
    } else if key == "gray"@ {
        Some(Rgba { r: 128, g: 128, b: 128, a: 255 })
    } else if key == "grey"@ {
        Some(Rgba { r: 128, g: 128, b: 128, a: 255 })
    } else if key == "dark_gray"@ {
        Some(Rgba { r: 169, g: 169, b: 169, a: 255 })
    } else if key == "dark_grey"@ {
        Some(Rgba { r: 169, g: 169, b: 169, a: 255 })
    } else if key == "silver"@ {
        Some(Rgba { r: 192, g: 192, b: 192, a: 255 })
    } else if key == "light_gray"@ {
        Some(Rgba { r: 211, g: 211, b: 211, a: 255 })
    } else if key == "light_grey"@ {
        Some(Rgba { r: 211, g: 211, b: 211, a: 255 })
    } else if key == "gainsboro"@ {
        Some(Rgba { r: 220, g: 220, b: 220, a: 255 })
    } else if key == "white_smoke"@ {
        Some(Rgba { r: 245, g: 245, b: 245, a: 255 })
    } else if key == "white"@ {
        Some(Rgba { r: 255, g: 255, b: 255, a: 255 })
    } else {
        None
    }
}

/// Whether the characters `key` spell `s`.
fn is_key(key: &Vec<char>, s: &str) -> (b: bool)
    ensures
        b == (key@ == s@),
{
    let n = s.unicode_len();
    if key.len() != n {
        return false;
    }
    let mut i: usize = 0;
    while i < n
        invariant
            n == s@.len(),
            key@.len() == n,
            i <= n,
            forall|j: int| 0 <= j < i ==> key@[j] == s@[j],
        decreases n - i,
    {
        if char_at(key, i) != s.get_char(i) {
            return false;
        }
        i = i + 1;
    }
    assert(key@ =~= s@);
    true
}

/// The CSS colour named by `key`.
fn css_color_of(key: &Vec<char>) -> (c: Option<Rgba>)
    ensures
        c == css_color(key@),
{
    if is_key(key, "maroon") {
        Some(Rgba::new(128, 0, 0))
    } else if is_key(key, "dark_red") {
        Some(Rgba::new(139, 0, 0))
    } else if is_key(key, "brown") {
        Some(Rgba::new(165, 42, 42))
    } else if is_key(key, "firebrick") {
        Some(Rgba::new(178, 34, 34))
    } else if is_key(key, "crimson") {
        Some(Rgba::new(220, 20, 60))
    } else if is_key(key, "red") {
        Some(Rgba::new(255, 0, 0))
    } else if is_key(key, "tomato") {
        Some(Rgba::new(255, 99, 71))
    } else if is_key(key, "coral") {
        Some(Rgba::new(255, 127, 80))
    } else if is_key(key, "indian_red") {
        Some(Rgba::new(205, 92, 92))
    } else if is_key(key, "light_coral") {
        Some(Rgba::new(240, 128, 128))
    } else if is_key(key, "dark_salmon") {
        Some(Rgba::new(233, 150, 122))
    } else if is_key(key, "salmon") {
        Some(Rgba::new(250, 128, 114))
    } else if is_key(key, "light_salmon") {
        Some(Rgba::new(255, 160, 122))
    } else if is_key(key, "orange_red") {
        Some(Rgba::new(255, 69, 0))
    } else if is_key(key, "dark_orange") {
        Some(Rgba::new(255, 140, 0))
    } else if is_key(key, "orange") {
        Some(Rgba::new(255, 165, 0))
    } else if is_key(key, "gold") {
        Some(Rgba::new(255, 215, 0))
    } else if is_key(key, "dark_golden_rod") {
        Some(Rgba::new(184, 134, 11))
    } else if is_key(key, "golden_rod") {
        Some(Rgba::new(218, 165, 32))
    } else if is_key(key, "pale_golden_rod") {
        Some(Rgba::new(238, 232, 170))
    } else if is_key(key, "dark_khaki") {
        Some(Rgba::new(189, 183, 107))
    } else if is_key(key, "khaki") {
        Some(Rgba::new(240, 230, 140))
    } else if is_key(key, "olive") {
        Some(Rgba::new(128, 128, 0))
    } else if is_key(key, "yellow") {
        Some(Rgba::new(255, 255, 0))
    } else if is_key(key, "yellow_green") {
        Some(Rgba::new(154, 205, 50))
    } else if is_key(key, "dark_olive_green") {
        Some(Rgba::new(85, 107, 47))
    } else if is_key(key, "olive_drab") {
        Some(Rgba::new(107, 142, 35))
    } else if is_key(key, "lawn_green") {
        Some(Rgba::new(124, 252, 0))
    } else if is_key(key, "chartreuse") {
        Some(Rgba::new(127, 255, 0))
    } else if is_key(key, "green_yellow") {
        Some(Rgba::new(173, 255, 47))
    } else if is_key(key, "dark_green") {
        Some(Rgba::new(0, 100, 0))
    } else if is_key(key, "green") {
        Some(Rgba::new(0, 128, 0))
    } else if is_key(key, "forest_green") {
        Some(Rgba::new(34, 139, 34))
    } else if is_key(key, "lime") {
        Some(Rgba::new(0, 255, 0))
    } else if is_key(key, "lime_green") {
        Some(Rgba::new(50, 205, 50))
    } else if is_key(key, "light_green") {
        Some(Rgba::new(144, 238, 144))
    } else if is_key(key, "pale_green") {
        Some(Rgba::new(152, 251, 152))
    } else if is_key(key, "dark_sea_green") {
        Some(Rgba::new(143, 188, 143))
    } else if is_key(key, "medium_spring_green") {
        Some(Rgba::new(0, 250, 154))
    } else if is_key(key, "spring_green") {
        Some(Rgba::new(0, 255, 127))
    } else if is_key(key, "sea_green") {
        Some(Rgba::new(46, 139, 87))
    } else if is_key(key, "medium_aqua_marine") {
        Some(Rgba::new(102, 205, 170))
    } else if is_key(key, "medium_sea_green") {
        Some(Rgba::new(60, 179, 113))
    } else if is_key(key, "light_sea_green") {
        Some(Rgba::new(32, 178, 170))
    } else if is_key(key, "dark_slate_gray") {
        Some(Rgba::new(47, 79, 79))
    } else if is_key(key, "teal") {
        Some(Rgba::new(0, 128, 128))
    } else if is_key(key, "dark_cyan") {
        Some(Rgba::new(0, 139, 139))
    } else if is_key(key, "aqua") {
        Some(Rgba::new(0, 255, 255))
    } else if is_key(key, "cyan") {
        Some(Rgba::new(0, 255, 255))
    } else if is_key(key, "light_cyan") {
        Some(Rgba::new(224, 255, 255))
    } else if is_key(key, "dark_turquoise") {
        Some(Rgba::new(0, 206, 209))
    } else if is_key(key, "turquoise") {
        Some(Rgba::new(64, 224, 208))
    } else if is_key(key, "medium_turquoise") {
        Some(Rgba::new(72, 209, 204))
    } else if is_key(key, "pale_turquoise") {
        Some(Rgba::new(175, 238, 238))
    } else if is_key(key, "aqua_marine") {
        Some(Rgba::new(127, 255, 212))
    } else if is_key(key, "powder_blue") {
        Some(Rgba::new(176, 224, 230))
    } else if is_key(key, "cadet_blue") {
        Some(Rgba::new(95, 158, 160))
    } else if is_key(key, "steel_blue") {
        Some(Rgba::new(70, 130, 180))
    } else if is_key(key, "cornflower_blue") {
        Some(Rgba::new(100, 149, 237))
    } else if is_key(key, "deep_sky_blue") {
        Some(Rgba::new(0, 191, 255))
    } else if is_key(key, "dodger_blue") {
        Some(Rgba::new(30, 144, 255))
    } else if is_key(key, "light_blue") {
        Some(Rgba::new(173, 216, 230))
    } else if is_key(key, "sky_blue") {
        Some(Rgba::new(135, 206, 235))
    } else if is_key(key, "light_sky_blue") {
        Some(Rgba::new(135, 206, 250))
    } else if is_key(key, "midnight_blue") {
        Some(Rgba::new(25, 25, 112))
    } else if is_key(key, "navy") {
        Some(Rgba::new(0, 0, 128))
    } else if is_key(key, "dark_blue") {
        Some(Rgba::new(0, 0, 139))
    } else if is_key(key, "medium_blue") {
        Some(Rgba::new(0, 0, 205))
    } else if is_key(key, "blue") {
        Some(Rgba::new(0, 0, 255))
    } else if is_key(key, "royal_blue") {
        Some(Rgba::new(65, 105, 225))
    } else if is_key(key, "blue_violet") {
        Some(Rgba::new(138, 43, 226))
    } else if is_key(key, "indigo") {
        Some(Rgba::new(75, 0, 130))
    } else if is_key(key, "dark_slate_blue") {
        Some(Rgba::new(72, 61, 139))
    } else if is_key(key, "slate_blue") {
        Some(Rgba::new(106, 90, 205))
    } else if is_key(key, "medium_slate_blue") {
        Some(Rgba::new(123, 104, 238))
    } else if is_key(key, "medium_purple") {
        Some(Rgba::new(147, 112, 219))
    } else if is_key(key, "dark_magenta") {
        Some(Rgba::new(139, 0, 139))
    } else if is_key(key, "dark_violet") {
        Some(Rgba::new(148, 0, 211))
    } else if is_key(key, "dark_orchid") {
        Some(Rgba::new(153, 50, 204))
    } else if is_key(key, "medium_orchid") {
        Some(Rgba::new(186, 85, 211))
    } else if is_key(key, "purple") {
        Some(Rgba::new(128, 0, 128))
    } else if is_key(key, "thistle") {
        Some(Rgba::new(216, 191, 216))
    } else if is_key(key, "plum") {
        Some(Rgba::new(221, 160, 221))
    } else if is_key(key, "violet") {
        Some(Rgba::new(238, 130, 238))
    } else if is_key(key, "magenta") {
        Some(Rgba::new(255, 0, 255))
    } else if is_key(key, "fuchsia") {
        Some(Rgba::new(255, 0, 255))
    } else if is_key(key, "orchid") {
        Some(Rgba::new(218, 112, 214))
    } else if is_key(key, "medium_violet_red") {
        Some(Rgba::new(199, 21, 133))
    } else if is_key(key, "pale_violet_red") {
        Some(Rgba::new(219, 112, 147))
    } else if is_key(key, "deep_pink") {
        Some(Rgba::new(255, 20, 147))
    } else if is_key(key, "hot_pink") {
        Some(Rgba::new(255, 105, 180))
    } else if is_key(key, "light_pink") {
        Some(Rgba::new(255, 182, 193))
    } else if is_key(key, "pink") {
        Some(Rgba::new(255, 192, 203))
    } else if is_key(key, "antique_white") {
        Some(Rgba::new(250, 235, 215))
    } else if is_key(key, "beige") {
        Some(Rgba::new(245, 245, 220))
    } else if is_key(key, "bisque") {
        Some(Rgba::new(255, 228, 196))
    } else if is_key(key, "blanched_almond") {
        Some(Rgba::new(255, 235, 205))
    } else if is_key(key, "wheat") {
        Some(Rgba::new(245, 222, 179))
    } else if is_key(key, "corn_silk") {
        Some(Rgba::new(255, 248, 220))
    } else if is_key(key, "lemon_chiffon") {
        Some(Rgba::new(255, 250, 205))
    } else if is_key(key, "light_golden_rod_yellow") {
        Some(Rgba::new(250, 250, 210))
    } else if is_key(key, "light_yellow") {
        Some(Rgba::new(255, 255, 224))
    } else if is_key(key, "saddle_brown") {
        Some(Rgba::new(139, 69, 19))
    } else if is_key(key, "sienna") {
        Some(Rgba::new(160, 82, 45))
    } else if is_key(key, "chocolate") {
        Some(Rgba::new(210, 105, 30))
    } else if is_key(key, "peru") {
        Some(Rgba::new(205, 133, 63))
    } else if is_key(key, "sandy_brown") {
        Some(Rgba::new(244, 164, 96))
    } else if is_key(key, "burly_wood") {
        Some(Rgba::new(222, 184, 135))
    } else if is_key(key, "tan") {
        Some(Rgba::new(210, 180, 140))
    } else if is_key(key, "rosy_brown") {
        Some(Rgba::new(188, 143, 143))
    } else if is_key(key, "moccasin") {
        Some(Rgba::new(255, 228, 181))
    } else if is_key(key, "navajo_white") {
        Some(Rgba::new(255, 222, 173))
    } else if is_key(key, "peach_puff") {
        Some(Rgba::new(255, 218, 185))
    } else if is_key(key, "misty_rose") {
        Some(Rgba::new(255, 228, 225))
    } else if is_key(key, "lavender_blush") {
        Some(Rgba::new(255, 240, 245))
    } else if is_key(key, "linen") {
        Some(Rgba::new(250, 240, 230))
    } else if is_key(key, "old_lace") {
        Some(Rgba::new(253, 245, 230))
    } else if is_key(key, "papaya_whip") {
        Some(Rgba::new(255, 239, 213))
    } else if is_key(key, "sea_shell") {
        Some(Rgba::new(255, 245, 238))
    } else if is_key(key, "mint_cream") {
        Some(Rgba::new(245, 255, 250))
    } else if is_key(key, "slate_gray") {
        Some(Rgba::new(112, 128, 144))
    } else if is_key(key, "light_slate_gray") {
        Some(Rgba::new(119, 136, 153))
    } else if is_key(key, "light_steel_blue") {
        Some(Rgba::new(176, 196, 222))
    } else if is_key(key, "lavender") {
        Some(Rgba::new(230, 230, 250))
    } else if is_key(key, "floral_white") {
        Some(Rgba::new(255, 250, 240))
    } else if is_key(key, "alice_blue") {
        Some(Rgba::new(240, 248, 255))
    } else if is_key(key, "ghost_white") {
        Some(Rgba::new(248, 248, 255))
    } else if is_key(key, "honeydew") {
        Some(Rgba::new(240, 255, 240))
    } else if is_key(key, "ivory") {
        Some(Rgba::new(255, 255, 240))
    } else if is_key(key, "azure") {
        Some(Rgba::new(240, 255, 255))
    } else if is_key(key, "snow") {
        Some(Rgba::new(255, 250, 250))
    } else if is_key(key, "black") {
        Some(Rgba::new(0, 0, 0))
    } else if is_key(key, "space_gray") {
        Some(Rgba::new(105, 105, 105))
    } else if is_key(key, "space_grey") {
        Some(Rgba::new(105, 105, 105))
    } else if is_key(key, "gray") {
        Some(Rgba::new(128, 128, 128))
    } else if is_key(key, "grey") {
        Some(Rgba::new(128, 128, 128))
    } else if is_key(key, "dark_gray") {
        Some(Rgba::new(169, 169, 169))
    } else if is_key(key, "dark_grey") {
        Some(Rgba::new(169, 169, 169))
    } else if is_key(key, "silver") {
        Some(Rgba::new(192, 192, 192))
    } else if is_key(key, "light_gray") {
        Some(Rgba::new(211, 211, 211))
    } else if is_key(key, "light_grey") {
        Some(Rgba::new(211, 211, 211))
    } else if is_key(key, "gainsboro") {
        Some(Rgba::new(220, 220, 220))
    } else if is_key(key, "white_smoke") {
        Some(Rgba::new(245, 245, 245))
    } else if is_key(key, "white") {
        Some(Rgba::new(255, 255, 255))
    } else {
        None
    }
}

/// The text with each space replaced by an underscore.
fn replace_spaces(s: &str) -> (r: Vec<char>)
    ensures
        r@ == underscored(s@),
{
    let chars = str_chars(s);
    let mut out: Vec<char> = Vec::new();
    let mut i: usize = 0;
    while i < chars.len()
        invariant
            chars@ == s@,
            i <= chars@.len(),
            out@ == underscored(s@).take(i as int),
        decreases chars@.len() - i,
    {
        let c = char_at(&chars, i);
        let d = if c == ' ' {
            '_'
        } else {
            c
        };
        out.push(d);
        assert(underscored(s@).take(i + 1) =~= underscored(s@).take(i as int).push(d));
        i = i + 1;
    }
    assert(underscored(s@).take(chars@.len() as int) =~= underscored(s@));
    out
}

/// The colour a name gives once lowercased: its CSS colour, with spaces read as underscores;
/// white where the name is none of them.
pub open spec fn named_color(lowered: Seq<char>) -> SolidColor {
    match css_color(underscored(lowered)) {
        Some(c) => SolidColor::Rgba(c),
        None => SolidColor::Rgba(Rgba { r: 255, g: 255, b: 255, a: 255 }),
    }
}

impl SolidColor {
    /// The colour of a CSS colour name that is already lowercase (spaces may stand for
    /// underscores); white for an unknown name.
    pub fn from_lowercase_name(lowered: &str) -> (c: SolidColor)
        ensures
            c == named_color(lowered@),
    {
        let key = replace_spaces(lowered);
        match css_color_of(&key) {
            Some(c) => SolidColor::Rgba(c),
            None => SolidColor::Rgba(Rgba::new(255, 255, 255)),
        }
    }

    /// The colour of a CSS colour name, in any case, spaces standing for underscores; white for
    /// an unknown name.
    pub fn from_name(name: &str) -> (c: SolidColor)
        ensures
            c == named_color(lowercase(name@)),
    {
        let lower = to_lowercase(name);
        Self::from_lowercase_name(lower.as_str())
    }
}

} // verus!
