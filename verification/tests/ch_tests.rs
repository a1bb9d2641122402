use yeehaw::ch::{ChPlus, ChsError, DrawCh, DrawChPos, DrawChs2D};
use yeehaw::Size;

fn text_of(g: &DrawChs2D<u8>) -> String {
    g.to_text()
}

fn grid(rows: &[&str]) -> DrawChs2D<u8> {
    DrawChs2D::new(
        rows.iter()
            .map(|r| r.chars().map(|c| DrawCh::new(ChPlus::Char(c), 0u8)).collect())
            .collect(),
    )
}

#[test]
fn test_draw_chs2d() {
    let chs = DrawChs2D::from_string("abc\ndef".to_string(), 0u8);
    assert_eq!(chs.width(), 3);
    assert_eq!(chs.height(), 2);
    assert_eq!(chs.size(), Size::new(3, 2));
    assert_eq!(chs.to_text(), "abc\ndef");

    let chs2 = DrawChs2D::from_string("123\n456".to_string(), 0u8);
    assert_eq!(chs2.width(), 3);
    assert_eq!(chs2.height(), 2);
    assert_eq!(chs2.size(), Size::new(3, 2));
    assert_eq!(chs2.to_text(), "123\n456");

    let chs3 = chs.concat_top_bottom(chs2);
    assert_eq!(chs3.width(), 3);
    assert_eq!(chs3.height(), 4);
    assert_eq!(chs3.size(), Size::new(3, 4));
    assert_eq!(chs3.to_text(), "abc\ndef\n123\n456");
}

#[test]
fn from_string_pads_and_splits_lines() {
    let g = DrawChs2D::from_string("ab\r\nc\n".to_string(), 7u8);
    assert_eq!(g.height(), 2);
    assert_eq!(g.width(), 2);
    assert_eq!(text_of(&g), "ab\nc ");
    assert!(g.0.iter().flatten().all(|d| d.style == 7));
    let empty = DrawChs2D::from_string(String::new(), 0u8);
    assert_eq!(empty.height(), 0);
    assert_eq!(empty.width(), 0);
    let blank = DrawChs2D::from_string("\n".to_string(), 0u8);
    assert_eq!(blank.height(), 1);
    assert_eq!(blank.width(), 0);
}

#[test]
fn pad_then_remove_gives_back_the_grid() {
    let g = grid(&["ab", "cd"]);
    let mut h = g.clone();
    h.pad_left(DrawCh::new(ChPlus::Char('.'), 1), 2);
    assert_eq!(text_of(&h), "..ab\n..cd");
    h.remove_left(2);
    assert_eq!(h, g);
    h.pad_right(DrawCh::new(ChPlus::Char('.'), 1), 1);
    assert_eq!(text_of(&h), "ab.\ncd.");
    h.remove_right(1);
    assert_eq!(h, g);
    h.pad_top(DrawCh::new(ChPlus::Char('-'), 1), 1);
    assert_eq!(text_of(&h), "--\nab\ncd");
    h.remove_top(1);
    assert_eq!(h, g);
    h.pad_bottom(DrawCh::new(ChPlus::Char('-'), 1), 2);
    assert_eq!(text_of(&h), "ab\ncd\n--\n--");
    h.remove_bottom(2);
    assert_eq!(h, g);
}

#[test]
fn remove_more_than_there_is() {
    let mut g = grid(&["abc", "d"]);
    g.remove_right(2);
    assert_eq!(text_of(&g), "a\n");
    g.remove_bottom(5);
    assert_eq!(g.height(), 0);
}

#[test]
fn trim_whitespace_rows() {
    let mut g = grid(&["  ", "ab", " ", "cd", "", "   "]);
    g.trim_bottom_whitespace();
    assert_eq!(text_of(&g), "  \nab\n \ncd");
    g.trim_top_whitespace();
    assert_eq!(text_of(&g), "ab\n \ncd");
    let mut all_blank = grid(&[" ", "  "]);
    all_blank.trim_top_whitespace();
    assert_eq!(all_blank.height(), 0);
}

#[test]
fn concat_left_right_cases() {
    let a = grid(&["ab", "cd"]);
    let b = grid(&["1", "2"]);
    let r = a.concat_left_right(b.clone()).unwrap();
    assert_eq!(text_of(&r), "ab1\ncd2");
    let empty: DrawChs2D<u8> = DrawChs2D::default();
    assert_eq!(empty.concat_left_right(b.clone()).unwrap(), b);
    assert_eq!(a.concat_left_right(empty.clone()).unwrap(), a);
    let c = grid(&["x"]);
    let err = a.concat_left_right(c).unwrap_err();
    assert_eq!(err, ChsError::HeightMismatch);
    assert_eq!(err.to_text(), "DrawChs2D ConcatRuneMatrices: chs.len() != chs2.len()");
}

#[test]
fn rotate_swaps_rows_and_columns() {
    let g = grid(&["abc", "def"]);
    let r = g.rotate_90_deg();
    assert_eq!(text_of(&r), "ad\nbe\ncf");
    assert_eq!(r.rotate_90_deg(), g);
}

#[test]
fn set_and_change_styles() {
    let mut g = grid(&["ab", "cd"]);
    g.set_ch(1, 1, DrawCh::new(ChPlus::Char('Z'), 3));
    g.set_ch(5, 0, DrawCh::new(ChPlus::Char('Q'), 3));
    assert_eq!(text_of(&g), "ab\ncZ");
    g.change_style_at_xy(0, 0, 9);
    assert_eq!(g.0[0][0].style, 9);
    g.change_style_along_y(1, 4);
    assert_eq!(g.0[1][0].style, 4);
    assert_eq!(g.0[1][1].style, 4);
    assert_eq!(g.0[1][1].ch, ChPlus::Char('Z'));
    g.change_style_along_x(1, 6);
    assert_eq!(g.0[0][1].style, 6);
    assert_eq!(g.0[1][1].style, 6);
    assert_eq!(g.0[0][0].style, 9);
    g.change_all_styles(2);
    assert!(g.0.iter().flatten().all(|d| d.style == 2));
    assert_eq!(text_of(&g), "ab\ncZ");
}

#[test]
fn positions_round_trip() {
    let g = grid(&["ab", "cd"]);
    let ps = g.to_draw_ch_pos(3, 5);
    assert_eq!(ps.len(), 4);
    assert_eq!((ps[0].x, ps[0].y), (3, 5));
    assert_eq!((ps[3].x, ps[3].y), (4, 6));
    assert_eq!(ps[3].ch.ch, ChPlus::Char('d'));
    let back = g.to_draw_ch_pos(0, 0);
    let h = DrawChs2D::from_vec_draw_ch_pos(back, DrawCh::new(ChPlus::Char(' '), 0));
    assert_eq!(h, g);
}

#[test]
fn from_vec_draw_ch_pos_later_wins_and_default_fills() {
    let chs = vec![
        DrawChPos::new(DrawCh::new(ChPlus::Char('a'), 0u8), 2, 1),
        DrawChPos::new(DrawCh::new(ChPlus::Char('b'), 0u8), 2, 1),
    ];
    let g = DrawChs2D::from_vec_draw_ch_pos(chs, DrawCh::new(ChPlus::Char('.'), 0));
    assert_eq!(text_of(&g), "...\n..b");
}

#[test]
fn apply_positions_in_order() {
    let mut g = grid(&["...", "..."]);
    g.apply_vec_draw_ch_pos(vec![
        DrawChPos::new(DrawCh::new(ChPlus::Char('x'), 0), 0, 0),
        DrawChPos::new(DrawCh::new(ChPlus::Char('y'), 0), 0, 0),
        DrawChPos::new(DrawCh::new(ChPlus::Char('z'), 0), 9, 9),
    ]);
    assert_eq!(text_of(&g), "y..\n...");
}

#[test]
fn repeated_positions() {
    let v = DrawChPos::new_repeated_vertical(DrawCh::new(ChPlus::Char('|'), 0u8), 4, 2, 3);
    assert_eq!(v.iter().map(|p| (p.x, p.y)).collect::<Vec<_>>(), vec![(4, 2), (4, 3), (4, 4)]);
    let h = DrawChPos::new_repeated_horizontal(DrawCh::new(ChPlus::Char('-'), 0u8), 1, 7, 2);
    assert_eq!(h.iter().map(|p| (p.x, p.y)).collect::<Vec<_>>(), vec![(1, 7), (2, 7)]);
}

#[test]
fn new_from_string_places_text() {
    let v = DrawChPos::new_from_string("ab\nc".to_string(), 10, 20, 0u8);
    let got: Vec<(ChPlus, u16, u16)> = v.iter().map(|p| (p.ch.ch.clone(), p.x, p.y)).collect();
    assert_eq!(
        got,
        vec![
            (ChPlus::Char('a'), 10, 20),
            (ChPlus::Char('b'), 11, 20),
            (ChPlus::Char('c'), 10, 21),
            (ChPlus::Char(' '), 11, 21),
        ]
    );
}

#[test]
fn small_constructors() {
    let c = DrawChs2D::from_char('q', 5u8);
    assert_eq!(text_of(&c), "q");
    let v = DrawChs2D::from_draw_chs_vertical(vec![
        DrawCh::new(ChPlus::Char('1'), 0u8),
        DrawCh::new(ChPlus::Char('2'), 0u8),
    ]);
    assert_eq!(text_of(&v), "1\n2");
    let h = DrawChs2D::from_draw_chs_horizontal(vec![
        DrawCh::new(ChPlus::Char('1'), 0u8),
        DrawCh::new(ChPlus::Char('2'), 0u8),
    ]);
    assert_eq!(text_of(&h), "12");
    let e = DrawChs2D::new_empty_of_size(2, 3, 1u8);
    assert_eq!(text_of(&e), "  \n  \n  ");
    let mut runes = vec![vec!['x', 'y'], vec!['z']];
    let r = DrawChs2D::from_runes(&mut runes, 0u8);
    assert_eq!(text_of(&r), "xy\nz");
    let s = DrawCh::str_to_draw_chs("hé", 2u8);
    assert_eq!(s.len(), 2);
    assert_eq!(s[1].ch, ChPlus::Char('é'));
}

#[test]
fn cell_text() {
    assert_eq!(ChPlus::Char('x').to_text(), "x");
    assert_eq!(ChPlus::Str("ab".to_string()).to_text(), "ab");
    assert_eq!(ChPlus::Transparent.to_text(), "");
    assert_eq!(ChPlus::Skip.to_text(), "");
    assert_eq!(ChPlus::default(), ChPlus::Char(' '));
}
