use vstd::prelude::*;
use crate::text::{is_white_space, is_whitespace, push_char, split_on, lemma_split_on_nonempty};

verus! {

broadcast use vstd::string::group_string_axioms;

/// A crawl target: a school's name and the address of its web page.
#[derive(Debug, Clone)]
pub struct School {
    pub name: String,
    pub url: String,
}

impl View for School {
    type V = (Seq<char>, Seq<char>);

    open spec fn view(&self) -> (Seq<char>, Seq<char>) {
        (self.name@, self.url@)
    }
}

/// The maximal runs of non-white-space characters of `s`, in order.
pub open spec fn words(s: Seq<char>) -> Seq<Seq<char>>
    decreases s.len(),
{
    if s.len() == 0 {
        seq![]
    } else {
        let prefix = s.drop_last();
        let c = s.last();
        let w = words(prefix);
        if is_white_space(c) {
            w
        } else if prefix.len() == 0 || is_white_space(prefix.last()) {
            w.push(seq![c])
        } else {
            w.update(w.len() - 1, w.last().push(c))
        }
    }
}

/// The lines of `s`: its pieces between line feeds.
pub open spec fn pieces(s: Seq<char>) -> Seq<Seq<char>> {
    split_on(s, '\n')
}

/// The target a line describes: its first two words, when it has at least two.
pub open spec fn line_target(line: Seq<char>) -> Seq<(Seq<char>, Seq<char>)> {
    let w = words(line);
    if w.len() >= 2 {
        seq![(w[0], w[1])]
    } else {
        seq![]
    }
}

/// The targets of a sequence of lines, in order.
pub open spec fn lines_targets(lines: Seq<Seq<char>>) -> Seq<(Seq<char>, Seq<char>)>
    decreases lines.len(),
{
    if lines.len() == 0 {
        seq![]
    } else {
        lines_targets(lines.drop_last()) + line_target(lines.last())
    }
}

/// The targets listed in a text: one per line that has at least two words,
/// made of the line's first word (the name) and second word (the address).
pub open spec fn text_targets(text: Seq<char>) -> Seq<(Seq<char>, Seq<char>)> {
    lines_targets(pieces(text))
}

proof fn lemma_words_nonempty(s: Seq<char>)
    requires
        s.len() > 0,
        !is_white_space(s.last()),
    ensures
        words(s).len() >= 1,
    decreases s.len(),
{
    let prefix = s.drop_last();
    if prefix.len() > 0 && !is_white_space(prefix.last()) {
        lemma_words_nonempty(prefix);
    }
}

/// A word: not empty and free of white space.
pub open spec fn is_word(w: Seq<char>) -> bool {
    w.len() > 0 && forall|i: int| 0 <= i < w.len() ==> !is_white_space(#[trigger] w[i])
}

proof fn lemma_words_are_words(s: Seq<char>)
    ensures
        forall|k: int| 0 <= k < words(s).len() ==> is_word(#[trigger] words(s)[k]),
    decreases s.len(),
{
    if s.len() > 0 {
        let prefix = s.drop_last();
        let c = s.last();
        lemma_words_are_words(prefix);
        let w = words(prefix);
        if !is_white_space(c) {
            if prefix.len() == 0 || is_white_space(prefix.last()) {
                assert forall|k: int| 0 <= k < words(s).len() implies is_word(#[trigger] words(s)[k]) by {
                    if k < w.len() {
                        assert(words(s)[k] == w[k]);
                    } else {
                        assert(words(s)[k] =~= seq![c]);
                    }
                }
            } else {
                lemma_words_nonempty(prefix);
                let last = w.last();
                assert(is_word(w[w.len() - 1]));
                assert forall|k: int| 0 <= k < words(s).len() implies is_word(#[trigger] words(s)[k]) by {
                    if k < w.len() - 1 {
                        assert(words(s)[k] == w[k]);
                    } else {
                        let x = last.push(c);
                        assert(words(s)[k] == x);
                        assert forall|i: int| 0 <= i < x.len() implies !is_white_space(#[trigger] x[i]) by {
                            if i < last.len() {
                                assert(x[i] == last[i]);
                            }
                        }
                    }
                }
            }
        }
    }
}

/// Every target read from a text has a name and an address that are
/// non-empty and free of white space.
pub proof fn lemma_targets_are_words(text: Seq<char>)
    ensures
        forall|k: int|
            0 <= k < text_targets(text).len() ==> is_word(#[trigger] text_targets(text)[k].0) && is_word(
                text_targets(text)[k].1,
            ),
{
    lemma_lines_targets_are_words(pieces(text));
}

proof fn lemma_lines_targets_are_words(lines: Seq<Seq<char>>)
    ensures
        forall|k: int|
            0 <= k < lines_targets(lines).len() ==> is_word(#[trigger] lines_targets(lines)[k].0)
                && is_word(lines_targets(lines)[k].1),
    decreases lines.len(),
{
    if lines.len() > 0 {
        lemma_lines_targets_are_words(lines.drop_last());
        let rest = lines_targets(lines.drop_last());
        let line = lines.last();
        lemma_words_are_words(line);
        let t = line_target(line);
        assert forall|k: int| 0 <= k < lines_targets(lines).len() implies is_word(
            #[trigger] lines_targets(lines)[k].0,
        ) && is_word(lines_targets(lines)[k].1) by {
            if k < rest.len() {
                assert(lines_targets(lines)[k] == rest[k]);
            } else {
                assert(lines_targets(lines)[k] == t[k - rest.len()]);
                assert(is_word(words(line)[0]));
                assert(is_word(words(line)[1]));
            }
        }
    }
}

/// Scanning state of the line being read.
pub open spec fn line_state_ok(
    line: Seq<char>,
    count: usize,
    in_word: bool,
    name: Seq<char>,
    url: Seq<char>,
) -> bool {
    let w = words(line);
    &&& count == (if w.len() >= 3 { 3 } else { w.len() })
    &&& in_word == (line.len() > 0 && !is_white_space(line.last()))
    &&& name == (if w.len() >= 1 { w[0] } else { seq![] })
    &&& url == (if w.len() >= 2 { w[1] } else { seq![] })
}

pub open spec fn schools_view(v: Seq<School>) -> Seq<(Seq<char>, Seq<char>)> {
    v.map_values(|s: School| s@)
}

/// Reads crawl targets from the text of a target list: one school per line
/// that holds at least two white-space separated words, the first being the
/// name and the second the address; other lines are skipped.
pub fn parse_targets(text: &str) -> (schools: Vec<School>)
    ensures
        schools_view(schools@) == text_targets(text@),
{
    let mut schools: Vec<School> = Vec::new();
    let mut count: usize = 0;
    let mut in_word = false;
    let mut name = String::new();
    let mut url = String::new();
    let ghost mut seen: Seq<char> = seq![];
    proof {
        assert(words(seq![]) =~= Seq::<Seq<char>>::empty());
        assert(pieces(seq![]) =~= seq![Seq::<char>::empty()]);
        assert(lines_targets(pieces(seen).drop_last()) =~= seq![]) by {
            assert(pieces(seen).drop_last() =~= Seq::<Seq<char>>::empty());
        }
        assert(schools_view(schools@) =~= seq![]);
    }
    for c in iter: text.chars()
        invariant
            iter.seq() == text@,
            seen == text@.take(iter.index() as int),
            pieces(seen).len() >= 1,
            schools_view(schools@) == lines_targets(pieces(seen).drop_last()),
            line_state_ok(pieces(seen).last(), count, in_word, name@, url@),
    {
        let ghost before = seen;
        proof {
            seen = seen.push(c);
            assert(seen == text@.take(iter.index() + 1));
            assert(seen.drop_last() =~= before);
            lemma_split_on_nonempty(seen, '\n');
        }
        let ghost line = pieces(before).last();
        if c == '\n' {
            let ghost old_schools = schools@;
            if count >= 2 {
                let school = School { name, url };
                schools.push(school);
                name = String::new();
                url = String::new();
            } else {
                name = String::new();
                url = String::new();
            }
            count = 0;
            in_word = false;
            proof {
                assert(pieces(seen) == pieces(before).push(seq![]));
                assert(pieces(seen).drop_last() =~= pieces(before));
                assert(pieces(before) =~= pieces(before).drop_last().push(line));
                assert(lines_targets(pieces(before)) == lines_targets(pieces(before).drop_last())
                    + line_target(line));
                if words(line).len() >= 2 {
                    assert(schools_view(schools@) =~= schools_view(old_schools).push(
                        (words(line)[0], words(line)[1]),
                    ));
                } else {
                    assert(schools_view(schools@) =~= schools_view(old_schools));
                }
                assert(schools_view(schools@) =~= lines_targets(pieces(seen).drop_last()));
                assert(words(seq![]) =~= Seq::<Seq<char>>::empty());
            }
        } else {
            let ghost new_line = line.push(c);
            proof {
                assert(pieces(seen) == pieces(before).update(pieces(before).len() - 1, new_line));
                assert(pieces(seen).drop_last() =~= pieces(before).drop_last());
                assert(pieces(seen).last() == new_line);
                assert(new_line.drop_last() =~= line);
                assert(new_line.last() == c);
            }
            let ws = is_whitespace(c);
            if ws {
                in_word = false;
            } else if !in_word {
                if count == 0 {
                    push_char(&mut name, c);
                    count = 1;
                } else if count == 1 {
                    push_char(&mut url, c);
                    count = 2;
                } else {
                    count = 3;
                }
                in_word = true;
                proof {
                    assert(words(new_line) == words(line).push(seq![c]));
                    assert(seq![c] =~= Seq::<char>::empty().push(c));
                }
            } else {
                proof {
                    lemma_words_nonempty(line);
                    assert(words(new_line) == words(line).update(
                        words(line).len() - 1,
                        words(line).last().push(c),
                    ));
                }
                if count == 1 {
                    push_char(&mut name, c);
                } else if count == 2 {
                    push_char(&mut url, c);
                }
            }
        }
    }
    proof {
        assert(seen =~= text@);
    }
    if count >= 2 {
        let ghost old_schools = schools@;
        schools.push(School { name, url });
        proof {
            let ps = pieces(seen);
            assert(ps =~= ps.drop_last().push(ps.last()));
            assert(schools_view(schools@) =~= schools_view(old_schools).push(
                (words(ps.last())[0], words(ps.last())[1]),
            ));
        }
    } else {
        proof {
            let ps = pieces(seen);
            assert(ps =~= ps.drop_last().push(ps.last()));
        }
    }
    schools
}

} // verus!
