//! Reading the current theme out of an alacritty configuration.
//!
//! The configuration is a TOML document whose `general.import` key (or, in
//! the legacy layout, a top-level `import` key) lists theme files; the last
//! entry is the active one, and its file name without directories and
//! without `.toml` is the theme's name.

use crate::text::{
    lemma_split_char_last, remove_all, split_char, strip_all, views_of,
};
use vstd::prelude::*;

verus! {

/// Why no current theme could be read from a configuration text.
#[derive(Clone, Copy, Debug, PartialEq, Eq)]
pub enum ConfigError {
    /// The text holds no recognized `import` list: it is not TOML, or
    /// neither `general.import` nor a top-level `import` is a list of
    /// strings.
    MissingImport,
    /// The `import` list is present but empty.
    NoThemes,
}

/// The list of strings that the array at `path` in the TOML document
/// `text` holds: the keys of `path` are looked up in order, each in the
/// table the previous one yielded, and `None` stands for a text that is
/// not TOML, a missing or non-table intermediate key, a final value that
/// is not an array, or an array element that is not a string.
pub uninterp spec fn toml_strings_at(text: Seq<char>, path: Seq<Seq<char>>) -> Option<
    Seq<Seq<char>>,
>;

/// Relies on the `toml` crate: `str::parse::<toml::Table>` to parse the
/// document, `toml::Value::get` to look a key up in a table (`None` on a
/// non-table or a missing key), `toml::Value::as_array` and
/// `toml::Value::as_str` to read the final array. All of them compute
/// from their arguments alone, so the result is a function of `text` and
/// `path`.
#[verifier::external_body]
fn toml_string_array(text: &str, path: &Vec<String>) -> (r: Option<Vec<String>>)
    ensures
        (r is Some) == (toml_strings_at(text@, views_of(path@)) is Some),
        r matches Some(v) ==> Some(views_of(v@)) == toml_strings_at(text@, views_of(path@)),
{
    let root = toml::Value::Table(text.parse::<toml::Table>().ok()?);
    let mut cur = &root;
    for key in path.iter() {
        cur = cur.get(key.as_str())?;
    }
    let mut out: Vec<String> = Vec::new();
    for v in cur.as_array()?.iter() {
        out.push(v.as_str()?.to_string());
    }
    Some(out)
}

/// The `import` list of a configuration text: the one under the
/// `general` table where that shape is present, else the legacy
/// top-level one.
pub open spec fn import_list_of(text: Seq<char>) -> Option<Seq<Seq<char>>> {
    if toml_strings_at(text, seq!["general"@, "import"@]) is Some {
        toml_strings_at(text, seq!["general"@, "import"@])
    } else {
        toml_strings_at(text, seq!["import"@])
    }
}

/// The theme name a theme-file path denotes: the part after the last
/// `/`, with every occurrence of `.toml` removed.
pub open spec fn theme_name_spec(path: Seq<char>) -> Seq<char> {
    strip_all(split_char(path, '/').last(), ".toml"@)
}

/// Derives a theme name from a theme-file path.
pub fn theme_name_of_path(path: &str) -> (r: String)
    ensures
        r@ == theme_name_spec(path@),
{
    let n = path.unicode_len();
    let mut k: usize = n;
    while k > 0 && path.get_char(k - 1) != '/'
        invariant
            n == path@.len(),
            k <= n,
            forall|j: int| k <= j < n ==> path@[j] != '/',
        decreases k,
    {
        k = k - 1;
    }
    let seg = path.substring_char(k, n);
    proof {
        lemma_split_char_last(path@, '/', k as int);
        assert(path@.subrange(k as int, n as int) =~= path@.skip(k as int));
        reveal_strlit(".toml");
    }
    remove_all(seg, ".toml")
}

/// The current theme per the configuration text: the name derived from
/// the last entry of its `import` list. Errs with `MissingImport` when no
/// recognized `import` list is there, and with `NoThemes` when the list
/// is empty.
pub fn get_current_theme(config_text: &str) -> (r: Result<String, ConfigError>)
    ensures
        match import_list_of(config_text@) {
            Some(imports) => if imports.len() == 0 {
                r == Err::<String, ConfigError>(ConfigError::NoThemes)
            } else {
                r matches Ok(name) && name@ == theme_name_spec(imports.last())
            },
            None => r == Err::<String, ConfigError>(ConfigError::MissingImport),
        },
{
    let mut general_path: Vec<String> = Vec::new();
    general_path.push(String::from_str("general"));
    general_path.push(String::from_str("import"));
    proof {
        assert(views_of(general_path@) =~~= seq!["general"@, "import"@]);
    }
    let imports = match toml_string_array(config_text, &general_path) {
        Some(v) => v,
        None => {
            let mut legacy_path: Vec<String> = Vec::new();
            legacy_path.push(String::from_str("import"));
            proof {
                assert(views_of(legacy_path@) =~~= seq!["import"@]);
            }
            match toml_string_array(config_text, &legacy_path) {
                Some(v) => v,
                None => {
                    return Err(ConfigError::MissingImport);
                },
            }
        },
    };
    if imports.len() == 0 {
        return Err(ConfigError::NoThemes);
    }
    let last = &imports[imports.len() - 1];
    proof {
        assert(import_list_of(config_text@).unwrap()[imports@.len() - 1] == last@);
    }
    Ok(theme_name_of_path(last.as_str()))
}

} // verus!
