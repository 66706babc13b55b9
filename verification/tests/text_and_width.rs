use butterfly_extractor::butterfly::Butterfly;
use butterfly_extractor::csv_data::parse_u32;
use butterfly_extractor::text::{
    blank, chars_of, find_char, is_whitespace, precedes, skip_spaces, skip_spaces_back,
    string_of, trim,
};
use butterfly_extractor::width::{eng_name_of, jp_name_of, normalize, remove_char};

#[test]
fn white_space_is_what_the_standard_library_says() {
    let mut code: u32 = 0;
    while code <= 0x10ffff {
        if let Some(c) = char::from_u32(code) {
            assert_eq!(is_whitespace(c), c.is_whitespace(), "U+{:04X}", code);
        }
        code += 1;
    }
}

#[test]
fn trim_is_what_the_standard_library_says() {
    let samples = [
        "",
        " ",
        "a",
        " a",
        "a ",
        "  a b  ",
        "\t\r\n a\u{3000}b \u{3000}\u{a0}",
        "\u{3000}",
        "ギフチョウ\r",
        " \u{2003}x\u{2003} ",
        "no space",
    ];
    for s in samples {
        assert_eq!(trim(s), s.trim(), "{:?}", s);
        assert_eq!(blank(s), s.trim().is_empty(), "{:?}", s);
    }
}

#[test]
fn characters_and_ranges() {
    let v = chars_of("a科b\nc");
    assert_eq!(v, vec!['a', '科', 'b', '\n', 'c']);
    assert_eq!(string_of(&v, 1, 3), "科b");
    assert_eq!(string_of(&v, 2, 2), "");
    assert_eq!(string_of(&v, 0, 5), "a科b\nc");
    assert_eq!(find_char(&v, '科', 0), 1);
    assert_eq!(find_char(&v, '科', 2), 5);
    assert_eq!(find_char(&v, '\n', 0), 3);
    assert_eq!(find_char(&v, 'z', 0), 5);
    assert_eq!(find_char(&v, 'a', 5), 5);
    let w = chars_of("  x  ");
    assert_eq!(skip_spaces(&w, 0), 2);
    assert_eq!(skip_spaces(&w, 3), 5);
    assert_eq!(skip_spaces_back(&w, 5), 3);
    assert_eq!(skip_spaces_back(&w, 2), 0);
}

#[test]
fn order_is_that_of_the_standard_library() {
    let samples = [
        "",
        "a",
        "A",
        "ab",
        "abc",
        "b",
        "アゲハ",
        "アゲハチョウ",
        "ギフチョウ",
        "ｱｹﾞﾊ",
        "雪渓蝶",
        "\u{10000}",
        "\u{ffff}",
        "z\u{10000}",
    ];
    for a in samples {
        for b in samples {
            assert_eq!(precedes(&chars_of(a), &chars_of(b)), a < b, "{:?} {:?}", a, b);
        }
    }
}

#[test]
fn numbers_are_read_as_the_standard_library_reads_them() {
    let samples = [
        "0",
        "45",
        "+45",
        "007",
        "4294967295",
        "4294967296",
        "+4294967295",
        "99999999999999999999999999",
        "",
        "+",
        "-1",
        "-0",
        "++1",
        "4 5",
        " 45",
        "45 ",
        "4.5",
        "４５",
        "0x10",
        "1e3",
    ];
    for s in samples {
        assert_eq!(parse_u32(s), s.parse::<u32>().ok(), "{:?}", s);
    }
    assert_eq!(parse_u32("45"), Some(45));
    assert_eq!(parse_u32("4294967295"), Some(u32::MAX));
    assert_eq!(parse_u32("4294967296"), None);
}

#[test]
fn free_text_is_normalized() {
    assert_eq!(normalize("＃＆Ｒｕｓｔ－１．６！"), "#&Rust-1.6!");
    assert_eq!(normalize("日本　全土"), "日本 全土");
    assert_eq!(normalize("ﾏﾂｵ ﾊﾞｼｮｳ"), "マツオ バショウ");
    assert_eq!(normalize("plain"), "plain");
    assert_eq!(normalize(""), "");
}

#[test]
fn a_character_is_removed_everywhere() {
    assert_eq!(remove_char("　ウスバ　シロ　", '\u{3000}'), "ウスバシロ");
    assert_eq!(remove_char("aaa", 'a'), "");
    assert_eq!(remove_char("abc", 'x'), "abc");
    assert_eq!(remove_char("", 'x'), "");
}

#[test]
fn names_get_their_stored_forms() {
    assert_eq!(jp_name_of("ｷﾞﾌﾁｮｳ"), "ギフチョウ");
    assert_eq!(jp_name_of("ウスバ シロチョウ"), "ウスバシロチョウ");
    assert_eq!(jp_name_of("ウスバ　シロチョウ"), "ウスバシロチョウ");
    assert_eq!(jp_name_of("雪渓蝶"), "雪渓蝶");
    assert_eq!(eng_name_of("Ｐａｒｎａｓｓｉｕｓ　ｇｌａｃｉａｌｉｓ"), "Parnassius glacialis");
    assert_eq!(eng_name_of("Parnassius glacialis"), "Parnassius glacialis");
}

#[test]
fn names_are_given_once() {
    let mut b = Butterfly::new("旧北区", "img/a.jpg", "pdf/a.pdf", "#ffffff", "科", "old_north", "u");
    assert_eq!(b.jp_name, "");
    assert!(b.add_names("ｷﾞﾌﾁｮｳ", "Ｌｕｅｈｄｏｒｆｉａ japonica"));
    assert_eq!(b.jp_name, "ギフチョウ");
    assert_eq!(b.eng_name, "Luehdorfia japonica");
    let before = b.clone();
    assert!(!b.add_names("other", "name"));
    assert_eq!(b, before);
    assert_eq!(b.duplicate(), before);
}

#[test]
fn one_name_is_enough_to_be_named() {
    let mut b = Butterfly::new("r", "img/a.jpg", "pdf/a.pdf", "#ffffff", "", "d", "u");
    assert!(b.add_names("", "Alpha"));
    assert_eq!(b.jp_name, "");
    assert_eq!(b.eng_name, "Alpha");
    assert!(!b.add_names("ギフチョウ", "Beta"));
    assert_eq!(b.jp_name, "");
    assert_eq!(b.eng_name, "Alpha");

    let mut c = Butterfly::new("r", "img/a.jpg", "pdf/a.pdf", "#ffffff", "", "d", "u");
    assert!(c.add_names("", ""));
    assert!(c.add_names("ギフチョウ", "Beta"));
    assert_eq!(c.jp_name, "ギフチョウ");
    assert_eq!(c.eng_name, "Beta");
}
