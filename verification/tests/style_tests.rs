use theme_switcher::style::{bold, confirmation_line, green};
use theme_switcher::text::{remove_all, str_eq, trim};

#[test]
fn green_wraps_in_ansi_green() {
    assert_eq!(green("x"), "\x1b[32mx\x1b[0m".to_string());
}

#[test]
fn bold_wraps_in_ansi_bold() {
    assert_eq!(bold("x"), "\x1b[1mx\x1b[0m".to_string());
}

#[test]
fn confirmation_line_names_the_theme_bold_and_green() {
    assert_eq!(
        confirmation_line("nord"),
        "\u{21aa}\u{fe0f} Changed alacritty theme to: \x1b[1m\x1b[32mnord\x1b[0m\x1b[0m"
            .to_string()
    );
}

#[test]
fn trim_removes_surrounding_whitespace_only() {
    assert_eq!(trim("  a b \t\r\n"), "a b".to_string());
    assert_eq!(trim("   "), "".to_string());
    assert_eq!(trim("ab"), "ab".to_string());
}

#[test]
fn str_eq_compares_by_characters() {
    assert!(str_eq("abc", "abc"));
    assert!(!str_eq("abc", "abd"));
    assert!(!str_eq("abc", "ab"));
}

#[test]
fn remove_all_strips_every_occurrence() {
    assert_eq!(remove_all("a.toml.toml", ".toml"), "a".to_string());
    assert_eq!(remove_all("my.toml.bak", ".toml"), "my.bak".to_string());
    assert_eq!(remove_all("plain", ".toml"), "plain".to_string());
}
