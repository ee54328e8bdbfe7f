use termcanvas::Color;

#[test]
fn opaque_front_hides_the_background() {
    let fg = Color::rgba(10, 20, 30, 255);
    assert_eq!(fg.blend(&Color::rgba(200, 100, 50, 77)), fg);
    assert_eq!(fg.blend(&Color::transparent()), fg);
    assert_eq!(fg.blend(&Color::white()), fg);
}

#[test]
fn transparent_front_shows_the_background() {
    let bg = Color::rgba(200, 100, 50, 77);
    assert_eq!(Color::transparent().blend(&bg), bg);
    assert_eq!(Color::transparent().blend(&Color::white()), Color::white());
    assert_eq!(Color::rgba(9, 9, 9, 0).blend(&bg), bg);
    assert_eq!(Color::transparent().blend(&Color::transparent()), Color::transparent());
}

#[test]
fn nothing_over_nothing_is_transparent_black() {
    let bg = Color::rgba(10, 20, 30, 0);
    assert_eq!(Color::transparent().blend(&bg), Color::rgba(0, 0, 0, 0));
}

#[test]
fn blend_weighs_channels_by_alpha() {
    let fg = Color::rgba(200, 100, 50, 128);
    let bg = Color::rgba(0, 0, 255, 255);
    assert_eq!(fg.blend(&bg), Color::rgba(100, 50, 152, 255));
}

#[test]
fn blend_over_translucent_background() {
    // weight = 155 * 60 + 255 * 100 = 34800
    let fg = Color::rgba(255, 0, 10, 100);
    let bg = Color::rgba(0, 255, 10, 60);
    assert_eq!(fg.blend(&bg), Color::rgba(186, 68, 10, 136));
}

#[test]
fn self_blend_of_an_opaque_color_is_a_fixed_point() {
    let c = Color::rgb(12, 34, 56);
    assert_eq!(c.blend(&c), c);
}

#[test]
fn self_blend_of_a_translucent_color_gains_alpha() {
    let c = Color::rgba(12, 34, 56, 128);
    assert_eq!(c.blend(&c), Color::rgba(12, 34, 56, 191));
    let faint = Color::rgba(12, 34, 56, 1);
    assert_eq!(faint.blend(&faint), faint);
    let nearly = Color::rgba(12, 34, 56, 254);
    assert_eq!(nearly.blend(&nearly), nearly);
    let two = Color::rgba(12, 34, 56, 2);
    assert_eq!(two.blend(&two).a, 3);
}

#[test]
fn named_colors() {
    assert_eq!(Color::rgb(1, 2, 3), Color { r: 1, g: 2, b: 3, a: 255 });
    assert_eq!(Color::rgba(1, 2, 3, 4), Color { r: 1, g: 2, b: 3, a: 4 });
    assert_eq!(Color::grey(7), Color::rgb(7, 7, 7));
    assert_eq!(Color::gray(7), Color::grey(7));
    assert_eq!(Color::transparent(), Color::rgba(0, 0, 0, 0));
    assert_eq!(Color::black(), Color::rgb(0, 0, 0));
    assert_eq!(Color::white(), Color::rgb(255, 255, 255));
    assert_eq!(Color::red(), Color::rgb(255, 0, 0));
    assert_eq!(Color::green(), Color::rgb(0, 255, 0));
    assert_eq!(Color::blue(), Color::rgb(0, 0, 255));
    assert_eq!(Color::yellow(), Color::rgb(255, 255, 0));
    assert_eq!(Color::magenta(), Color::rgb(255, 0, 255));
    assert_eq!(Color::cyan(), Color::rgb(0, 255, 255));
    assert_eq!(Color::default(), Color::transparent());
}

#[test]
fn channel_orders() {
    let c = Color::rgba(1, 2, 3, 4);
    assert_eq!(c.as_rgb(), (1, 2, 3));
    assert_eq!(c.as_rgba(), (1, 2, 3, 4));
    assert_eq!(c.as_argb(), (4, 1, 2, 3));
    assert_eq!(c.as_abgr(), (4, 3, 2, 1));
    assert_eq!(c.as_bgra(), (3, 2, 1, 4));
}

#[test]
fn palette_index() {
    assert_eq!(Color::red().as_8bit_ansi(), 196);
    assert_eq!(Color::green().as_8bit_ansi(), 46);
    assert_eq!(Color::blue().as_8bit_ansi(), 21);
    assert_eq!(Color::black().as_8bit_ansi(), 16);
    assert_eq!(Color::white().as_8bit_ansi(), 231);
    assert_eq!(Color::rgb(51, 102, 153).as_8bit_ansi(), 16 + 36 + 12 + 3);
    assert_eq!(Color::rgb(50, 101, 152).as_8bit_ansi(), 16 + 0 + 6 + 2);
}

#[test]
fn packed_word_has_alpha_lowest() {
    let c = Color::from(0x4433_2211u32);
    assert_eq!(c, Color { a: 0x11, r: 0x22, g: 0x33, b: 0x44 });
    assert_eq!(c.as_u32(), 0x4433_2211);
    assert_eq!(Color::rgba(1, 2, 3, 4).as_u32(), 0x0302_0104);
    assert_eq!(Color::from(u32::MAX), Color::white());
    assert_eq!(Color::from(0u32), Color::transparent());
}

#[test]
fn wide_word_is_cut_to_its_low_half() {
    assert_eq!(Color::from(0xaabb_ccdd_4433_2211u64), Color::from(0x4433_2211u32));
    assert_eq!(Color::from(0x1_0000_0000u64), Color::transparent());
}

#[test]
fn from_tuples_and_arrays() {
    assert_eq!(Color::from((1u8, 2u8, 3u8)), Color::rgb(1, 2, 3));
    assert_eq!(Color::from([1u8, 2u8, 3u8]), Color::rgb(1, 2, 3));
    assert_eq!(Color::from((1u8, 2u8, 3u8, 4u8)), Color::rgba(1, 2, 3, 4));
    assert_eq!(Color::from([1u8, 2u8, 3u8, 4u8]), Color::rgba(1, 2, 3, 4));
}

#[test]
fn hex_text_is_read() {
    assert_eq!(Color::from("#ff8000"), Color::rgb(255, 128, 0));
    assert_eq!(Color::from("ff8000"), Color::rgb(255, 128, 0));
    assert_eq!(Color::from("FFAA01"), Color::rgb(255, 170, 1));
    assert_eq!(Color::from("#ff800080"), Color::rgba(255, 128, 0, 128));
    assert_eq!(Color::from("0a0B0c0D"), Color::rgba(10, 11, 12, 13));
    assert_eq!(Color::from(String::from("#010203")), Color::rgb(1, 2, 3));
}

#[test]
fn malformed_hex_text_is_opaque_black() {
    assert_eq!(Color::from(""), Color::black());
    assert_eq!(Color::from("#"), Color::black());
    assert_eq!(Color::from("#12345"), Color::black());
    assert_eq!(Color::from("1234567"), Color::black());
    assert_eq!(Color::from("123456789"), Color::black());
    assert_eq!(Color::from("gg0000"), Color::black());
    assert_eq!(Color::from("ff00zz"), Color::black());
    assert_eq!(Color::from("ff00+1"), Color::black());
    assert_eq!(Color::from("##ff8000"), Color::black());
    assert_eq!(Color::from("ff80\u{e9}0"), Color::black());
    assert_eq!(Color::from(String::from("nothing")), Color::black());
}

#[test]
fn hex_text_is_written() {
    assert_eq!(Color::rgb(255, 128, 0).as_rgb_hex(), "ff8000");
    assert_eq!(Color::rgb(1, 2, 3).as_rgb_hex(), "010203");
    assert_eq!(Color::rgba(255, 128, 0, 128).as_rgba_hex(), "ff800080");
    assert_eq!(Color::rgba(171, 205, 239, 9).as_rgba_hex(), "abcdef09");
    let c = Color::rgba(18, 52, 86, 120);
    assert_eq!(Color::from(c.as_rgba_hex().as_str()), c);
}
