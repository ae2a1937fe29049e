use mnml_tickets_linear::theme::{
    parse_hex, project, remap, theme_is_readable, Color, Palette, ThemeState,
};

fn defaults() -> Palette {
    Palette {
        fg: Color::Gray,
        dim: Color::DarkGray,
        bg: Color::Reset,
        red: Color::Red,
        green: Color::Green,
        yellow: Color::Yellow,
        blue: Color::Blue,
        cyan: Color::Cyan,
        purple: Color::Magenta,
    }
}

#[test]
fn parse_hex_reads_rgb() {
    assert_eq!(parse_hex("#1e222a"), Some(Color::Rgb(0x1e, 0x22, 0x2a)));
    assert_eq!(parse_hex("  #FFaa00 "), Some(Color::Rgb(255, 170, 0)));
}

#[test]
fn parse_hex_rejects_other_text() {
    assert_eq!(parse_hex("1e222a"), None);
    assert_eq!(parse_hex("#1e222"), None);
    assert_eq!(parse_hex("#1e222aa"), None);
    assert_eq!(parse_hex("#1g222a"), None);
    assert_eq!(parse_hex(""), None);
    assert_eq!(parse_hex("#"), None);
}

#[test]
fn parse_hex_accepts_plus_signed_pairs() {
    // Each pair is read by u8::from_str_radix, which takes a leading '+'.
    assert_eq!(parse_hex("#+f+f+f"), Some(Color::Rgb(15, 15, 15)));
    assert_eq!(parse_hex("#-f0000"), None);
}

#[test]
fn parse_hex_multibyte_value_without_panic() {
    // Six bytes made of three two-byte characters: the slices fall on
    // character boundaries and the pieces are not hex.
    assert_eq!(parse_hex("#ééé"), None);
    assert!(theme_is_readable("[base_30]\nred = \"#ééé\"\n"));
    assert!(!theme_is_readable("[base_30]\nred = \"#€abc\"\n"));
}

#[test]
fn project_reads_base30_table() {
    let src = r##"
# mnml theme
name = "onedark"

[base_30]
white = "#abb2bf"
light_grey = "#6f737b"
red = "#e06c75"
green = "#98c379"
one_bg = "#282c34"
blue = "#61afef"
purple = "#de98fd"

[base_16]
base00 = "#1e222a"
red = "#000000"
"##;
    let p = project(src);
    assert_eq!(p.fg, Color::Rgb(0xab, 0xb2, 0xbf));
    assert_eq!(p.dim, Color::Rgb(0x6f, 0x73, 0x7b));
    assert_eq!(p.bg, Color::Rgb(0x28, 0x2c, 0x34));
    assert_eq!(p.red, Color::Rgb(0xe0, 0x6c, 0x75));
    assert_eq!(p.green, Color::Rgb(0x98, 0xc3, 0x79));
    assert_eq!(p.blue, Color::Rgb(0x61, 0xaf, 0xef));
    assert_eq!(p.purple, Color::Rgb(0xde, 0x98, 0xfd));
    assert_eq!(p.yellow, Color::Yellow);
    assert_eq!(p.cyan, Color::Cyan);
}

#[test]
fn project_later_entries_win_and_bad_values_are_skipped() {
    let src = "[base_30]\r\nred = \"#111111\"\r\nred = \"#222222\"\r\nred = nope\r\ncyan=#333333\n  # red = \"#444444\"\n";
    let p = project(src);
    assert_eq!(p.red, Color::Rgb(0x22, 0x22, 0x22));
    assert_eq!(p.cyan, Color::Rgb(0x33, 0x33, 0x33));
}

#[test]
fn project_without_base30_is_defaults() {
    assert_eq!(project(""), defaults());
    assert_eq!(project("white = \"#ffffff\"\n[colors]\nred = \"#ff0000\""), defaults());
}

#[test]
fn remap_without_palette_is_identity() {
    for c in [Color::DarkGray, Color::Gray, Color::Red, Color::Rgb(1, 2, 3), Color::Indexed(7), Color::White] {
        assert_eq!(remap(None, c), c);
    }
}

#[test]
fn remap_maps_named_colours_onto_palette() {
    let p = Palette {
        fg: Color::Rgb(1, 1, 1),
        dim: Color::Rgb(2, 2, 2),
        bg: Color::Rgb(3, 3, 3),
        red: Color::Rgb(4, 4, 4),
        green: Color::Rgb(5, 5, 5),
        yellow: Color::Rgb(6, 6, 6),
        blue: Color::Rgb(7, 7, 7),
        cyan: Color::Rgb(8, 8, 8),
        purple: Color::Rgb(9, 9, 9),
    };
    assert_eq!(remap(Some(p), Color::DarkGray), Color::Rgb(2, 2, 2));
    assert_eq!(remap(Some(p), Color::Gray), Color::Rgb(1, 1, 1));
    assert_eq!(remap(Some(p), Color::Red), Color::Rgb(4, 4, 4));
    assert_eq!(remap(Some(p), Color::Green), Color::Rgb(5, 5, 5));
    assert_eq!(remap(Some(p), Color::Yellow), Color::Rgb(6, 6, 6));
    assert_eq!(remap(Some(p), Color::Blue), Color::Rgb(7, 7, 7));
    assert_eq!(remap(Some(p), Color::Cyan), Color::Rgb(8, 8, 8));
    assert_eq!(remap(Some(p), Color::Magenta), Color::Rgb(9, 9, 9));
    assert_eq!(remap(Some(p), Color::White), Color::White);
    assert_eq!(remap(Some(p), Color::Black), Color::Black);
    assert_eq!(remap(Some(p), Color::LightRed), Color::LightRed);
}

#[test]
fn hex_round_trip_examples() {
    for (r, g, b) in [(0u8, 0u8, 0u8), (255, 255, 255), (0x12, 0xab, 0x9f)] {
        let text = format!("#{r:02x}{g:02x}{b:02x}");
        assert_eq!(parse_hex(&text), Some(Color::Rgb(r, g, b)));
    }
}

#[test]
fn remap_through_theme_palette_twice_is_once() {
    let p = project("[base_30]\nwhite = \"#abb2bf\"\nred = \"#e06c75\"\n");
    for c in [Color::Gray, Color::DarkGray, Color::Red, Color::Green, Color::Magenta, Color::Rgb(1, 2, 3)] {
        let once = remap(Some(p), c);
        assert_eq!(remap(Some(p), once), once);
    }
}

#[test]
fn theme_state_reloads_and_tracks_mtime() {
    let mut st = ThemeState::new();
    assert!(st.palette.is_none());
    assert!(st.is_current(None));
    let t = std::time::SystemTime::UNIX_EPOCH;
    assert!(!st.is_current(Some(t)));
    st.reload(Some("[base_30]\nred = \"#010203\"\n"), Some(t));
    assert!(st.is_current(Some(t)));
    assert_eq!(st.remap(Color::Red), Color::Rgb(1, 2, 3));
    assert_eq!(st.remap(Color::Gray), Color::Gray);
    st.reload(None, None);
    assert!(st.palette.is_none());
    assert_eq!(st.remap(Color::Red), Color::Red);
}
