use todo_list::text::trim;

#[test]
fn trim_removes_white_space_at_both_ends() {
    assert_eq!(trim("  hello  "), "hello");
    assert_eq!(trim("hello"), "hello");
    assert_eq!(trim("\n\thello world\r\n"), "hello world");
    assert_eq!(trim(" a"), "a");
    assert_eq!(trim("a "), "a");
}

#[test]
fn trim_keeps_white_space_inside() {
    assert_eq!(trim(" a  b\tc \n d "), "a  b\tc \n d");
}

#[test]
fn trim_of_blank_text_is_empty() {
    assert_eq!(trim(""), "");
    assert_eq!(trim(" "), "");
    assert_eq!(trim(" \t\r\n"), "");
    assert_eq!(trim("\u{2028}\u{2029}\u{85}"), "");
}

#[test]
fn trim_goes_by_unicode_white_space() {
    assert_eq!(trim("\u{a0}\u{2003}caf\u{e9}\u{3000}"), "caf\u{e9}");
    assert_eq!(trim("\u{1680}x\u{205f}"), "x");
    assert_eq!(trim("\u{200b}x\u{200b}"), "\u{200b}x\u{200b}");
    assert_eq!(trim("_ x _"), "_ x _");
}

#[test]
fn trim_counts_characters_not_bytes() {
    assert_eq!(trim("  \u{1f600} \u{4e2d}\u{6587}  "), "\u{1f600} \u{4e2d}\u{6587}");
    assert_eq!(trim("\u{e9}"), "\u{e9}");
}

#[test]
fn white_space_flags_mark_each_character() {
    assert_eq!(todo_list::text::white_space_flags(""), Vec::<bool>::new());
    assert_eq!(todo_list::text::white_space_flags("a b"), vec![false, true, false]);
    assert_eq!(
        todo_list::text::white_space_flags(" \t\u{e9}\n\u{3000}x"),
        vec![true, true, false, true, true, false]
    );
}

#[test]
fn trim_range_spans_first_to_last_unset_flag() {
    assert_eq!(todo_list::text::trim_range(&vec![true, false, true]), (1, 2));
    assert_eq!(todo_list::text::trim_range(&vec![false, true, true, false]), (0, 4));
    assert_eq!(todo_list::text::trim_range(&vec![true, true, false, true, false, true]), (2, 5));
    assert_eq!(todo_list::text::trim_range(&vec![false]), (0, 1));
}

#[test]
fn trim_range_is_empty_when_every_flag_is_set() {
    assert_eq!(todo_list::text::trim_range(&Vec::new()), (0, 0));
    assert_eq!(todo_list::text::trim_range(&vec![true]), (1, 1));
    assert_eq!(todo_list::text::trim_range(&vec![true, true, true]), (3, 3));
}
