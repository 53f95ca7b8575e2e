use theme_switcher::dispatch::{
    dispatch, pick_result, picker_input, resolve_pick, Action,
};

fn owned(names: &[&str]) -> Vec<String> {
    names.iter().map(|s| s.to_string()).collect()
}

fn switch(theme: &str) -> Action {
    Action::Switch { theme: theme.to_string(), announce: true }
}

#[test]
fn next_switches_to_following_theme() {
    let themes = owned(&["a", "b", "c"]);
    let arg = "n".to_string();
    assert_eq!(dispatch(Some(&arg), &themes, 1), switch("c"));
}

#[test]
fn prev_switches_to_preceding_theme() {
    let themes = owned(&["a", "b", "c"]);
    let arg = "p".to_string();
    assert_eq!(dispatch(Some(&arg), &themes, 1), switch("a"));
}

#[test]
fn next_wraps_at_the_end() {
    let themes = owned(&["a", "b", "c"]);
    let arg = "n".to_string();
    assert_eq!(dispatch(Some(&arg), &themes, 2), switch("a"));
}

#[test]
fn prev_wraps_at_the_start() {
    let themes = owned(&["a", "b", "c"]);
    let arg = "p".to_string();
    assert_eq!(dispatch(Some(&arg), &themes, 0), switch("c"));
}

#[test]
fn current_only_prints() {
    let themes = owned(&["a", "b", "c"]);
    let arg = "c".to_string();
    assert_eq!(dispatch(Some(&arg), &themes, 1), Action::ShowCurrent);
}

#[test]
fn list_only_prints() {
    let themes = owned(&["a", "b"]);
    let arg = "l".to_string();
    assert_eq!(dispatch(Some(&arg), &themes, 0), Action::ShowList);
}

#[test]
fn no_argument_picks_interactively() {
    let themes = owned(&["a", "b"]);
    assert_eq!(dispatch(None, &themes, 0), Action::Pick);
}

#[test]
fn f_picks_interactively() {
    let themes = owned(&["a", "b"]);
    let arg = "f".to_string();
    assert_eq!(dispatch(Some(&arg), &themes, 0), Action::Pick);
}

#[test]
fn unrecognized_argument_switches_directly() {
    let themes = owned(&["a", "b", "c"]);
    let arg = "my-theme".to_string();
    assert_eq!(dispatch(Some(&arg), &themes, 0), switch("my-theme"));
}

#[test]
fn picker_input_joins_with_newlines() {
    assert_eq!(picker_input(&owned(&["a", "b"])), "a\nb".to_string());
    assert_eq!(picker_input(&owned(&["solo"])), "solo".to_string());
    assert_eq!(picker_input(&owned(&[])), "".to_string());
}

#[test]
fn aborted_pick_yields_nothing() {
    assert_eq!(pick_result(true, &owned(&["a"])), None);
}

#[test]
fn empty_selection_yields_nothing() {
    assert_eq!(pick_result(false, &owned(&[])), None);
}

#[test]
fn last_selection_wins() {
    assert_eq!(pick_result(false, &owned(&["a", "b"])), Some("b".to_string()));
}

#[test]
fn genuine_selection_is_announced() {
    let r = resolve_pick(Some("nord".to_string()), "gruvbox".to_string());
    assert_eq!(r, ("nord".to_string(), true));
}

#[test]
fn aborted_pick_reasserts_current_silently() {
    let r = resolve_pick(None, "gruvbox".to_string());
    assert_eq!(r, ("gruvbox".to_string(), false));
}
