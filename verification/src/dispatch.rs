//! The command dispatcher: from the one optional argument and the
//! already-located current theme to the action the program performs.

use crate::text::{join_with, lemma_join_with_snoc, str_eq, views_of};
use vstd::prelude::*;

verus! {

/// What one invocation does, decided from its argument.
#[derive(Clone, Debug, PartialEq, Eq)]
pub enum Action {
    /// Ask the helper to switch to `theme`; print the confirmation line
    /// when `announce` is set.
    Switch { theme: String, announce: bool },
    /// Print the current theme's name.
    ShowCurrent,
    /// Print the theme list, one name per line.
    ShowList,
    /// Run the interactive picker over the theme list.
    Pick,
}

/// An announced switch to `theme`.
pub open spec fn is_switch_to(a: Action, theme: Seq<char>) -> bool {
    a matches Action::Switch { theme: t, announce } && t@ == theme && announce
}

/// The dispatcher's behaviour, written over views. `arg` of `n` and `p`
/// cycle through the list from `cur_idx`, wrapping at either end;
/// `c` and `l` print; no argument and `f` pick interactively; any other
/// argument is a theme name to switch to directly, without consulting
/// the list.
pub open spec fn dispatch_spec(
    arg: Option<Seq<char>>,
    themes: Seq<Seq<char>>,
    cur_idx: int,
    a: Action,
) -> bool {
    let n = themes.len() as int;
    match arg {
        None => a == Action::Pick,
        Some(s) => {
            &&& (s == "n"@ ==> is_switch_to(a, themes[(cur_idx + 1) % n]))
            &&& (s == "p"@ ==> is_switch_to(a, themes[(cur_idx + n - 1) % n]))
            &&& (s == "c"@ ==> a == Action::ShowCurrent)
            &&& (s == "l"@ ==> a == Action::ShowList)
            &&& (s == "f"@ ==> a == Action::Pick)
            &&& (s != "n"@ && s != "p"@ && s != "c"@ && s != "l"@ && s != "f"@ ==> is_switch_to(
                a,
                s,
            ))
        },
    }
}

/// The five command words denote five different commands.
pub proof fn lemma_commands_distinct()
    ensures
        "n"@ != "p"@,
        "n"@ != "c"@,
        "n"@ != "l"@,
        "n"@ != "f"@,
        "p"@ != "c"@,
        "p"@ != "l"@,
        "p"@ != "f"@,
        "c"@ != "l"@,
        "c"@ != "f"@,
        "l"@ != "f"@,
{
    reveal_strlit("n");
    reveal_strlit("p");
    reveal_strlit("c");
    reveal_strlit("l");
    reveal_strlit("f");
    assert("n"@[0] == 'n');
    assert("p"@[0] == 'p');
    assert("c"@[0] == 'c');
    assert("l"@[0] == 'l');
    assert("f"@[0] == 'f');
}

/// Decides what to do for the given argument, with the current theme
/// standing at `cur_idx` in `themes`.
pub fn dispatch(arg: Option<&str>, themes: &Vec<String>, cur_idx: usize) -> (a: Action)
    requires
        cur_idx < themes@.len(),
    ensures
        dispatch_spec(
            match arg {
                Some(s) => Some(s@),
                None => None,
            },
            views_of(themes@),
            cur_idx as int,
            a,
        ),
{
    proof {
        lemma_commands_distinct();
    }
    let n = themes.len();
    match arg {
        None => Action::Pick,
        Some(s) => {
            if str_eq(s, "n") {
                let next = (cur_idx + 1) % n;
                Action::Switch { theme: themes[next].clone(), announce: true }
            } else if str_eq(s, "p") {
                let prev = if cur_idx == 0 {
                    n - 1
                } else {
                    cur_idx - 1
                };
                proof {
                    let ni = n as int;
                    let ci = cur_idx as int;
                    if ci == 0 {
                        vstd::arithmetic::div_mod::lemma_small_mod((ni - 1) as nat, ni as nat);
                    } else {
                        vstd::arithmetic::div_mod::lemma_mod_multiples_vanish(1, ci - 1, ni);
                        vstd::arithmetic::div_mod::lemma_small_mod((ci - 1) as nat, ni as nat);
                    }
                    assert(prev == (ci + ni - 1) % ni);
                }
                Action::Switch { theme: themes[prev].clone(), announce: true }
            } else if str_eq(s, "c") {
                Action::ShowCurrent
            } else if str_eq(s, "l") {
                Action::ShowList
            } else if str_eq(s, "f") {
                Action::Pick
            } else {
                Action::Switch { theme: String::from_str(s), announce: true }
            }
        },
    }
}

/// What the interactive picker is fed: the theme names joined with
/// newlines.
pub fn picker_input(themes: &Vec<String>) -> (r: String)
    ensures
        r@ == join_with(views_of(themes@), '\n'),
{
    if themes.len() == 0 {
        return String::new();
    }
    let mut out = String::from_str(themes[0].as_str());
    let mut i: usize = 1;
    proof {
        assert(views_of(themes@).take(1) =~~= seq![views_of(themes@)[0]]);
    }
    while i < themes.len()
        invariant
            1 <= i <= themes@.len(),
            out@ == join_with(views_of(themes@).take(i as int), '\n'),
        decreases themes@.len() - i,
    {
        out.append("\n");
        out.append(themes[i].as_str());
        proof {
            let views = views_of(themes@);
            reveal_strlit("\n");
            assert(("\n")@ =~= seq!['\n']);
            lemma_join_with_snoc(views.take(i as int), views[i as int], '\n');
            assert(views.take(i + 1) =~~= views.take(i as int).push(views[i as int]));
            assert(out@ =~= join_with(views.take(i + 1), '\n'));
        }
        i = i + 1;
    }
    proof {
        assert(views_of(themes@).take(themes@.len() as int) =~~= views_of(themes@));
    }
    out
}

/// The outcome of the interactive picker, from what the selection UI
/// reported: nothing on an abort or an empty selection, else the last
/// selected entry.
pub fn pick_result(aborted: bool, selected: &Vec<String>) -> (r: Option<String>)
    ensures
        match r {
            Some(s) => !aborted && selected@.len() > 0 && s@ == selected@.last()@,
            None => aborted || selected@.len() == 0,
        },
{
    if aborted {
        return None;
    }
    if selected.len() == 0 {
        return None;
    }
    Some(selected[selected.len() - 1].clone())
}

/// Turns a picker outcome into the theme to switch to and whether to
/// announce the switch: a genuine selection is announced, while an
/// aborted pick silently re-asserts the current theme.
pub fn resolve_pick(selection: Option<String>, current: String) -> (r: (String, bool))
    ensures
        match selection {
            Some(s) => r.0 == s && r.1,
            None => r.0 == current && !r.1,
        },
{
    match selection {
        Some(s) => (s, true),
        None => (current, false),
    }
}

} // verus!
