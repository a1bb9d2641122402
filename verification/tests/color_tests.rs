use yeehaw::color::{
    ansi_to_rgb_color, crossterm_to_rgb, darken_ansi, gradient_segment, lighten_ansi,
    loop_gradient_pos, loop_time, tiles_pattern, AnsiColor, Pattern, Rgba, SolidColor,
};

#[test]
fn rgba_constructors() {
    assert_eq!(Rgba::new(1, 2, 3), Rgba { r: 1, g: 2, b: 3, a: 255 });
    assert_eq!(Rgba::new_with_alpha(1, 2, 3, 4).to_tuple(), (1, 2, 3, 4));
    assert_eq!(Rgba::default(), Rgba::new(0, 0, 0));
}

#[test]
fn ansi_palette_to_rgb() {
    // the 16 system colors
    assert_eq!(ansi_to_rgb_color(0), SolidColor::new(0, 0, 0));
    assert_eq!(ansi_to_rgb_color(1), SolidColor::new(128, 0, 0));
    assert_eq!(ansi_to_rgb_color(9), SolidColor::new(255, 0, 0));
    assert_eq!(ansi_to_rgb_color(15), SolidColor::new(255, 255, 255));
    // the 6x6x6 cube
    assert_eq!(ansi_to_rgb_color(16), SolidColor::new(0, 0, 0));
    assert_eq!(ansi_to_rgb_color(21), SolidColor::new(0, 0, 255));
    assert_eq!(ansi_to_rgb_color(196), SolidColor::new(255, 0, 0));
    assert_eq!(ansi_to_rgb_color(231), SolidColor::new(255, 255, 255));
    // the grey ramp
    assert_eq!(ansi_to_rgb_color(232), SolidColor::new(8, 8, 8));
    assert_eq!(ansi_to_rgb_color(255), SolidColor::new(238, 238, 238));
}

#[test]
fn named_ansi_to_rgb() {
    assert_eq!(crossterm_to_rgb(AnsiColor::Reset), SolidColor::ANSI(AnsiColor::Reset));
    assert_eq!(crossterm_to_rgb(AnsiColor::Red), SolidColor::new(255, 0, 0));
    assert_eq!(crossterm_to_rgb(AnsiColor::Rgb { r: 1, g: 2, b: 3 }), SolidColor::new(1, 2, 3));
    assert_eq!(crossterm_to_rgb(AnsiColor::AnsiValue(232)), ansi_to_rgb_color(232));
}

#[test]
fn darken_and_lighten() {
    assert_eq!(darken_ansi(AnsiColor::Red), SolidColor::ANSI(AnsiColor::DarkRed));
    assert_eq!(lighten_ansi(AnsiColor::DarkRed), SolidColor::ANSI(AnsiColor::Red));
    // darkening then lightening a bright palette color gives it back
    for c in [
        AnsiColor::Red,
        AnsiColor::Green,
        AnsiColor::Yellow,
        AnsiColor::Blue,
        AnsiColor::Magenta,
        AnsiColor::Cyan,
        AnsiColor::Grey,
        AnsiColor::White,
    ] {
        match darken_ansi(c) {
            SolidColor::ANSI(d) => assert_eq!(lighten_ansi(d), SolidColor::ANSI(c)),
            other => panic!("unexpected {:?}", other),
        }
    }
    assert_eq!(SolidColor::new(100, 50, 201).darken(), SolidColor::new(50, 25, 100));
    assert_eq!(SolidColor::new(100, 50, 201).lighten(), SolidColor::new(150, 75, 255));
    // darkening never brightens, lightening never darkens
    for v in [0u8, 1, 127, 128, 200, 255] {
        let d = SolidColor::new(v, v, v).darken().to_rgba();
        let l = SolidColor::new(v, v, v).lighten().to_rgba();
        assert!(d.r <= v && l.r >= v);
    }
}

#[test]
fn with_alpha_of_colors() {
    assert_eq!(SolidColor::new(1, 2, 3).with_alpha(9), SolidColor::new_with_alpha(1, 2, 3, 9));
    assert_eq!(
        SolidColor::ANSI(AnsiColor::Red).with_alpha(7),
        SolidColor::new_with_alpha(255, 0, 0, 7)
    );
}

#[test]
fn random_colors_stay_in_range() {
    for _ in 0..50 {
        match SolidColor::random_light() {
            SolidColor::Rgba(c) => assert!(c.r >= 150 && c.g >= 150 && c.b >= 150 && c.a == 255),
            _ => panic!("not a true color"),
        }
        match SolidColor::random_dark() {
            SolidColor::Rgba(c) => assert!(c.r < 150 && c.g < 150 && c.b < 150 && c.a == 255),
            _ => panic!("not a true color"),
        }
    }
}

#[test]
fn from_name_normalizes() {
    assert_eq!(SolidColor::from_name("Dark Red"), SolidColor::new(139, 0, 0));
    assert_eq!(SolidColor::from_name("dark_red"), SolidColor::new(139, 0, 0));
    assert_eq!(SolidColor::from_name("ALICE BLUE"), SolidColor::new(240, 248, 255));
    assert_eq!(SolidColor::from_name("space_gray"), SolidColor::new(105, 105, 105));
    assert_eq!(SolidColor::from_name("no such colour"), SolidColor::new(255, 255, 255));
    assert_eq!(SolidColor::from_lowercase_name("light golden rod yellow"), SolidColor::new(250, 250, 210));
}

#[test]
fn pattern_offsets_and_lookup() {
    let mut p = Pattern { pattern_id: 3, offset: (0, 0) };
    p.add_to_offset(2, -1);
    assert_eq!(p.offset, (2, -1));
    let rows = tiles_pattern(1, 2, 'a', 'b');
    assert_eq!(rows, vec![vec!['a', 'b'], vec!['a', 'b'], vec!['b', 'a'], vec!['b', 'a']]);
    let q = Pattern { pattern_id: 0, offset: (0, 0) };
    assert_eq!(q.to_color(&rows, 0, 0), Some('a'));
    assert_eq!(q.to_color(&rows, 3, 2), Some('a'));
    assert_eq!(q.to_color(&rows, 1, 5), Some('b'));
    let empty: Vec<Vec<char>> = Vec::new();
    assert_eq!(q.to_color(&empty, 1, 1), None);
}

#[test]
fn gradient_positions_loop() {
    assert_eq!(loop_gradient_pos(5, 10), 5);
    assert_eq!(loop_gradient_pos(-3, 10), 7);
    assert_eq!(loop_gradient_pos(-10, 10), 0);
    assert_eq!(loop_gradient_pos(25, 10), 5);
    assert_eq!(loop_gradient_pos(20, 10), 10);
    assert_eq!(loop_gradient_pos(10, 10), 10);
}

#[test]
fn gradient_segments() {
    let stops = vec![0i128, 10, 20];
    assert_eq!(gradient_segment(&stops, 0), (0, 1));
    assert_eq!(gradient_segment(&stops, 15), (1, 2));
    assert_eq!(gradient_segment(&stops, 20), (0, 2));
    assert_eq!(gradient_segment(&stops, -5), (0, 2));
    assert_eq!(gradient_segment(&vec![7i128], 7), (0, 0));
}

#[test]
fn time_loops() {
    assert_eq!(loop_time(25, 10), 5);
    assert_eq!(loop_time(9, 10), 9);
    assert_eq!(loop_time(30, 10), 0);
}

#[test]
fn reset_and_zero_length_time() {
    assert_eq!(SolidColor::ANSI(AnsiColor::Reset).to_rgba(), Rgba { r: 0, g: 0, b: 0, a: 0 });
    assert_eq!(SolidColor::ANSI(AnsiColor::Reset).with_alpha(7), SolidColor::Rgba(Rgba { r: 0, g: 0, b: 0, a: 7 }));
    assert_eq!(loop_time(12, 0), 0);
    assert_eq!(loop_time(12, 5), 2);
}
