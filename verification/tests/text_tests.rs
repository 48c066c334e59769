use todo_store::text::{is_white, trim};

#[test]
fn trim_drops_white_space_at_both_ends() {
    assert_eq!(trim("  Buy milk \t\n"), "Buy milk");
}

#[test]
fn trim_keeps_white_space_inside() {
    assert_eq!(trim(" a  b\tc "), "a  b\tc");
}

#[test]
fn trim_of_trimmed_text_is_the_text() {
    assert_eq!(trim("Buy milk"), "Buy milk");
    assert_eq!(trim("x"), "x");
}

#[test]
fn trim_of_white_space_is_empty() {
    assert_eq!(trim(""), "");
    assert_eq!(trim(" "), "");
    assert_eq!(trim(" \t\r\n\u{a0}\u{3000}"), "");
}

#[test]
fn trim_counts_characters_not_bytes() {
    assert_eq!(trim("\u{2003}caf\u{e9}\u{2003}"), "caf\u{e9}");
    assert_eq!(trim("\u{3000}\u{65e5}\u{672c}\u{8a9e} "), "\u{65e5}\u{672c}\u{8a9e}");
}

#[test]
fn trim_leaves_characters_that_only_look_blank() {
    assert_eq!(trim("\u{200b}a\u{200b}"), "\u{200b}a\u{200b}");
    assert_eq!(trim("\u{feff}a"), "\u{feff}a");
}

#[test]
fn trim_agrees_with_the_standard_library() {
    let samples = [
        "",
        " ",
        "a",
        " a",
        "a ",
        " a ",
        "\t\ta b\n\n",
        "\u{85}x\u{85}",
        "\u{1680}x y\u{2028}\u{2029}",
        "\u{202f}\u{205f}z",
        "  \u{1c}\u{1f} ",
        "no space at all",
    ];
    for sample in samples {
        assert_eq!(trim(sample), sample.trim());
    }
}

#[test]
fn white_space_is_what_the_standard_library_calls_so() {
    let mut code: u32 = 0;
    while code <= 0x10ffff {
        if let Some(c) = char::from_u32(code) {
            assert_eq!(is_white(c), c.is_whitespace(), "code point {:x}", code);
        }
        code += 1;
    }
}

#[test]
fn white_space_has_twenty_five_code_points() {
    let mut count: u32 = 0;
    let mut code: u32 = 0;
    while code <= 0x10ffff {
        if let Some(c) = char::from_u32(code) {
            if is_white(c) {
                count += 1;
            }
        }
        code += 1;
    }
    assert_eq!(count, 25);
}
