//! The theme list: splitting the helper's listing output into names,
//! locating the current theme in the list, and rendering the list.

use crate::text::{
    lemma_split_char_first, lemma_split_char_no_sep, split_char, str_eq, trim, trim_spec, views_of,
    each_followed_by, lemma_each_followed_by_snoc,
};
use vstd::prelude::*;

verus! {

/// The theme names in a helper listing: its lines, each trimmed of
/// surrounding whitespace. A trailing newline therefore yields a
/// trailing empty name, which is kept.
pub open spec fn theme_lines(output: Seq<char>) -> Seq<Seq<char>> {
    split_char(output, '\n').map_values(|l: Seq<char>| trim_spec(l))
}

/// Splits the helper's listing output into theme names, one per line,
/// each trimmed.
pub fn theme_list_from_output(output: &str) -> (r: Vec<String>)
    ensures
        views_of(r@) == theme_lines(output@),
{
    let n = output.unicode_len();
    let mut r: Vec<String> = Vec::new();
    let ghost mut done: Seq<Seq<char>> = Seq::empty();
    let mut start: usize = 0;
    let mut i: usize = 0;
    proof {
        assert(output@.skip(0) =~= output@);
        assert(Seq::<Seq<char>>::empty() + split_char(output@, '\n') =~~= split_char(
            output@,
            '\n',
        ));
    }
    while i < n
        invariant
            n == output@.len(),
            start <= i <= n,
            forall|j: int| start <= j < i ==> output@[j] != '\n',
            split_char(output@, '\n') == done + split_char(output@.skip(start as int), '\n'),
            r@.len() == done.len(),
            forall|j: int| 0 <= j < done.len() ==> #[trigger] r@[j]@ == trim_spec(done[j]),
        decreases n - i,
    {
        if output.get_char(i) == '\n' {
            let line = output.substring_char(start, i);
            let t = trim(line);
            r.push(t);
            proof {
                let tail = output@.skip(start as int);
                assert(tail[i - start] == output@[i as int]);
                lemma_split_char_first(tail, '\n', i - start);
                assert(tail.take(i - start) =~= output@.subrange(start as int, i as int));
                assert(tail.skip(i - start + 1) =~= output@.skip(i + 1));
                assert(split_char(output@, '\n') =~~= done.push(line@) + split_char(
                    output@.skip(i + 1),
                    '\n',
                ));
                done = done.push(line@);
            }
            start = i + 1;
        }
        i = i + 1;
    }
    let line = output.substring_char(start, n);
    let t = trim(line);
    r.push(t);
    proof {
        let tail = output@.skip(start as int);
        lemma_split_char_no_sep(tail, '\n');
        assert(tail =~= output@.subrange(start as int, n as int));
        assert(split_char(output@, '\n') =~~= done.push(line@));
        done = done.push(line@);
        assert(views_of(r@) =~~= theme_lines(output@));
    }
    r
}

/// The position of the current theme in the list: the first index whose
/// entry equals `current`, or `None` when no entry does.
pub fn get_cur_idx(themes: &Vec<String>, current: &str) -> (r: Option<usize>)
    ensures
        match r {
            Some(i) => i < themes@.len() && themes@[i as int]@ == current@ && (forall|j: int|
                0 <= j < i ==> themes@[j]@ != current@),
            None => forall|j: int| 0 <= j < themes@.len() ==> themes@[j]@ != current@,
        },
{
    let mut i: usize = 0;
    while i < themes.len()
        invariant
            i <= themes@.len(),
            forall|j: int| 0 <= j < i ==> themes@[j]@ != current@,
        decreases themes@.len() - i,
    {
        if str_eq(themes[i].as_str(), current) {
            return Some(i);
        }
        i = i + 1;
    }
    None
}

/// The listing as printed by the `l` command: every theme name in
/// order, each on a line of its own.
pub fn render_list(themes: &Vec<String>) -> (r: String)
    ensures
        r@ == each_followed_by(views_of(themes@), '\n'),
{
    let mut out = String::new();
    let mut i: usize = 0;
    proof {
        assert(views_of(themes@).take(0) =~~= Seq::<Seq<char>>::empty());
    }
    while i < themes.len()
        invariant
            i <= themes@.len(),
            out@ == each_followed_by(views_of(themes@).take(i as int), '\n'),
        decreases themes@.len() - i,
    {
        out.append(themes[i].as_str());
        out.append("\n");
        proof {
            let views = views_of(themes@);
            reveal_strlit("\n");
            assert(("\n")@ =~= seq!['\n']);
            lemma_each_followed_by_snoc(views.take(i as int), views[i as int], '\n');
            assert(views.take(i + 1) =~~= views.take(i as int).push(views[i as int]));
            assert(out@ =~= each_followed_by(views.take(i + 1), '\n'));
        }
        i = i + 1;
    }
    proof {
        assert(views_of(themes@).take(themes@.len() as int) =~~= views_of(themes@));
    }
    out
}

} // verus!
