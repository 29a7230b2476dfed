use lootifier::file_util::{clear_file, filter_lines, names_plugin};
use lootifier::text::{char_is_whitespace, collect_chars, split_lines, trim_line};
use lootifier::Lootifier;

fn strings(items: &[&str]) -> Vec<String> {
    items.iter().map(|item| item.to_string()).collect()
}

#[test]
fn white_space_is_what_std_calls_white_space() {
    for code in 0u32..=0x10FFFF {
        if let Some(c) = char::from_u32(code) {
            assert_eq!(char_is_whitespace(c), c.is_whitespace(), "U+{:04X}", code);
        }
    }
}

#[test]
fn collect_chars_keeps_every_character() {
    assert_eq!(collect_chars(""), Vec::<char>::new());
    assert_eq!(collect_chars("a'ß\u{3000}z"), vec!['a', '\'', 'ß', '\u{3000}', 'z']);
}

#[test]
fn trim_line_removes_both_ends() {
    assert_eq!(trim_line("  A.esp \t"), "A.esp");
    assert_eq!(trim_line("A.esp"), "A.esp");
    assert_eq!(trim_line("\u{a0}\u{3000}My Mod.esp\u{2028}\r"), "My Mod.esp");
    assert_eq!(trim_line("a  b"), "a  b");
}

#[test]
fn trim_line_of_blank_is_empty() {
    assert_eq!(trim_line(""), "");
    assert_eq!(trim_line(" \t\r\n\u{85}"), "");
}

#[test]
fn trim_line_agrees_with_std() {
    let samples = [
        "",
        " ",
        "x",
        " x",
        "x ",
        "\t# c \t",
        "\u{1680}\u{2000}x y\u{200a}\u{202f}\u{205f}",
        "\u{200b}x\u{200b}",
        " \u{feff} ",
    ];
    for sample in samples {
        assert_eq!(trim_line(sample), sample.trim(), "{:?}", sample);
    }
}

#[test]
fn split_lines_splits_at_line_feeds() {
    assert_eq!(split_lines("A.esm\nB.esm\nC.esp"), strings(&["A.esm", "B.esm", "C.esp"]));
    assert_eq!(split_lines("a\n\nb\n"), strings(&["a", "", "b", ""]));
    assert_eq!(split_lines("a\r\nb"), strings(&["a\r", "b"]));
}

#[test]
fn split_lines_of_empty_text_is_one_empty_line() {
    assert_eq!(split_lines(""), strings(&[""]));
    assert_eq!(split_lines("\n"), strings(&["", ""]));
}

#[test]
fn names_plugin_rejects_empty_and_comments() {
    assert!(names_plugin("A.esp"));
    assert!(names_plugin("a#b/c"));
    assert!(!names_plugin(""));
    assert!(!names_plugin("#"));
    assert!(!names_plugin("# comment"));
    assert!(!names_plugin("/"));
    assert!(!names_plugin("// comment"));
}

#[test]
fn filter_lines_of_nothing_is_nothing() {
    assert_eq!(filter_lines(&[]), Vec::<String>::new());
}

#[test]
fn filter_lines_drops_blank_lines_and_comments() {
    let lines = strings(&["", "   ", "# c", "// c", "\t#c", " /c "]);
    assert_eq!(filter_lines(&lines), Vec::<String>::new());
}

#[test]
fn filter_lines_trims_and_keeps_order() {
    let lines = strings(&["  B.esp  ", "A.esm\r", "\tC.esp"]);
    assert_eq!(filter_lines(&lines), strings(&["B.esp", "A.esm", "C.esp"]));
}

#[test]
fn filter_lines_keeps_repeated_names() {
    let lines = strings(&["A.esp", "B.esp", "A.esp"]);
    assert_eq!(filter_lines(&lines), strings(&["A.esp", "B.esp", "A.esp"]));
}

#[test]
fn filter_lines_excludes_comments_at_any_position() {
    let leading = strings(&["# c", "A.esm", "B.esm"]);
    let trailing = strings(&["A.esm", "B.esm", "/ c"]);
    let interspersed = strings(&["A.esm", "  # c", "// c", "B.esm"]);
    let expected = strings(&["A.esm", "B.esm"]);
    assert_eq!(filter_lines(&leading), expected);
    assert_eq!(filter_lines(&trailing), expected);
    assert_eq!(filter_lines(&interspersed), expected);
}

#[test]
fn filter_lines_keeps_markers_inside_a_name() {
    let lines = strings(&["a#b", "c/d", "e #f"]);
    assert_eq!(filter_lines(&lines), strings(&["a#b", "c/d", "e #f"]));
}

#[test]
fn from_string_filters_the_lines_of_the_text() {
    let order = Lootifier::from_string("# head\n A.esm \n\n// note\nB.esm\r\n/ tail\nC.esp");
    assert_eq!(order.plugins(), &strings(&["A.esm", "B.esm", "C.esp"]));
}

#[test]
fn from_string_of_comments_only_is_empty() {
    let order = Lootifier::from_string("# c\n// c\n\n");
    assert!(order.plugins().is_empty());
}

#[test]
fn from_file_filters_the_lines_read() {
    let lines = strings(&["# head", " A.esm ", "", "B.esm"]);
    let order = Lootifier::from_file(&lines);
    assert_eq!(order.plugins(), &strings(&["A.esm", "B.esm"]));
}

#[test]
fn from_file_and_from_string_agree() {
    let text = "A.esm\n# c\n  B.esm\nC.esp\n";
    let lines: Vec<String> = text.lines().map(|line| line.to_string()).collect();
    assert_eq!(Lootifier::from_file(&lines).plugins(), Lootifier::from_string(text).plugins());
}

#[test]
fn clear_file_empties_an_existing_file_only() {
    assert_eq!(clear_file(true), Some(String::new()));
    assert_eq!(clear_file(false), None);
}
