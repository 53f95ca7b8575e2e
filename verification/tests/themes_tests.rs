use theme_switcher::themes::{get_cur_idx, render_list, theme_list_from_output};

fn owned(names: &[&str]) -> Vec<String> {
    names.iter().map(|s| s.to_string()).collect()
}

#[test]
fn splits_lines_in_order() {
    assert_eq!(theme_list_from_output("a\nb\nc"), owned(&["a", "b", "c"]));
}

#[test]
fn trailing_newline_keeps_trailing_empty_entry() {
    assert_eq!(theme_list_from_output("a\nb\n"), owned(&["a", "b", ""]));
}

#[test]
fn lines_are_trimmed() {
    assert_eq!(theme_list_from_output("  a \n\tb\r"), owned(&["a", "b"]));
}

#[test]
fn empty_output_is_one_empty_entry() {
    assert_eq!(theme_list_from_output(""), owned(&[""]));
}

#[test]
fn lone_newline_is_two_empty_entries() {
    assert_eq!(theme_list_from_output("\n"), owned(&["", ""]));
}

#[test]
fn finds_current_theme_index() {
    let themes = owned(&["a", "b", "c"]);
    assert_eq!(get_cur_idx(&themes, "b"), Some(1));
    assert_eq!(get_cur_idx(&themes, "a"), Some(0));
    assert_eq!(get_cur_idx(&themes, "c"), Some(2));
}

#[test]
fn missing_current_theme_fails_lookup() {
    let themes = owned(&["a", "b", "c"]);
    assert_eq!(get_cur_idx(&themes, "zzz"), None);
    assert_eq!(get_cur_idx(&owned(&[]), "a"), None);
}

#[test]
fn duplicate_entries_yield_first_index() {
    let themes = owned(&["x", "y", "x"]);
    assert_eq!(get_cur_idx(&themes, "x"), Some(0));
}

#[test]
fn list_rendering_puts_each_theme_on_its_own_line() {
    let themes = owned(&["a", "b"]);
    assert_eq!(render_list(&themes), "a\nb\n".to_string());
}

#[test]
fn empty_list_renders_empty() {
    assert_eq!(render_list(&owned(&[])), "".to_string());
}
