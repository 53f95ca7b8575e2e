use theme_switcher::config::{get_current_theme, theme_name_of_path, ConfigError};

#[test]
fn general_import_yields_stem() {
    let text = "general.import = [\"a/b/solarized-dark.toml\"]";
    assert_eq!(get_current_theme(text), Ok("solarized-dark".to_string()));
}

#[test]
fn general_table_import_yields_stem() {
    let text = "[general]\nimport = [\"themes/nord.toml\"]\n";
    assert_eq!(get_current_theme(text), Ok("nord".to_string()));
}

#[test]
fn legacy_flat_import_yields_stem() {
    let text = "import = [\"x/gruvbox.toml\"]";
    assert_eq!(get_current_theme(text), Ok("gruvbox".to_string()));
}

#[test]
fn last_import_entry_is_authoritative() {
    let text = "import = [\"a/first.toml\", \"b/second.toml\"]";
    assert_eq!(get_current_theme(text), Ok("second".to_string()));
}

#[test]
fn general_shape_preferred_over_legacy() {
    let text = "import = [\"old/legacy.toml\"]\n[general]\nimport = [\"new/preferred.toml\"]\n";
    assert_eq!(get_current_theme(text), Ok("preferred".to_string()));
}

#[test]
fn empty_general_import_is_no_themes() {
    let text = "[general]\nimport = []\n";
    assert_eq!(get_current_theme(text), Err(ConfigError::NoThemes));
}

#[test]
fn empty_legacy_import_is_no_themes() {
    let text = "import = []";
    assert_eq!(get_current_theme(text), Err(ConfigError::NoThemes));
}

#[test]
fn unparsable_text_is_missing_import() {
    let text = "this is not = = toml";
    assert_eq!(get_current_theme(text), Err(ConfigError::MissingImport));
}

#[test]
fn parsable_without_import_is_missing_import() {
    let text = "[font]\nsize = 11\n";
    assert_eq!(get_current_theme(text), Err(ConfigError::MissingImport));
}

#[test]
fn non_string_import_entry_is_missing_import() {
    let text = "import = [1, 2]";
    assert_eq!(get_current_theme(text), Err(ConfigError::MissingImport));
}

#[test]
fn import_as_scalar_is_missing_import() {
    let text = "import = \"x/one.toml\"";
    assert_eq!(get_current_theme(text), Err(ConfigError::MissingImport));
}

#[test]
fn stem_without_directories() {
    assert_eq!(theme_name_of_path("plain.toml"), "plain".to_string());
}

#[test]
fn toml_removed_anywhere_not_only_as_suffix() {
    assert_eq!(theme_name_of_path("x/my.toml.bak"), "my.bak".to_string());
    assert_eq!(theme_name_of_path("a/b.toml.toml"), "b".to_string());
}

#[test]
fn trailing_slash_gives_empty_name() {
    assert_eq!(theme_name_of_path("a/b/"), "".to_string());
}
