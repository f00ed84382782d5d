//! Playlist files: one command per line; blank lines, comments and lines
//! that do not parse are skipped.

use vstd::prelude::*;

use crate::command::{command_wf, identify, identify_spec, identify_words, Command, CommandView};
use crate::runner::command_views;
use crate::text::{clean_pieces, is_sep, join, lemma_join_avoids, lemma_pieces_join, pieces, split, views, words, Sep};

verus! {

/// A playlist that could not be found.
#[derive(Clone, Debug, PartialEq, Eq)]
pub struct FileNotFound(pub String);

/// The commands of `lines`, in order, without the lines that do not parse.
pub open spec fn commands_of(lines: Seq<Seq<char>>) -> Seq<CommandView>
    decreases lines.len(),
{
    if lines.len() == 0 {
        Seq::empty()
    } else {
        let r = commands_of(lines.drop_last());
        match identify_spec(lines.last()) {
            Ok(c) => r.push(c),
            Err(_) => r,
        }
    }
}

/// The commands of the playlist text `text`.
pub open spec fn parse_spec(text: Seq<char>) -> Seq<CommandView> {
    commands_of(pieces(text, Sep::Newline))
}

/// Parses a playlist.
pub fn parse(text: &str) -> (r: Vec<Command>)
    ensures
        command_views(r@) == parse_spec(text@),
        forall|i: int| 0 <= i < r@.len() ==> command_wf(#[trigger] r@[i]@),
{
    let lines = split(text, Sep::Newline);
    let ghost ls = views(lines@);
    let mut out: Vec<Command> = Vec::new();
    let mut i: usize = 0;
    while i < lines.len()
        invariant
            i <= lines@.len(),
            ls == views(lines@),
            ls == pieces(text@, Sep::Newline),
            command_views(out@) == commands_of(ls.take(i as int)),
            forall|j: int| 0 <= j < out@.len() ==> command_wf(#[trigger] out@[j]@),
        decreases lines@.len() - i,
    {
        proof {
            assert(ls.take(i + 1).drop_last() =~= ls.take(i as int));
            assert(ls.take(i + 1).last() == lines@[i as int]@);
        }
        let ghost before = out@;
        match identify(lines[i].as_str()) {
            Ok(c) => {
                out.push(c);
                assert(command_views(out@) =~= command_views(before).push(out@.last()@));
            },
            Err(_) => {},
        }
        i += 1;
    }
    assert(ls.take(i as int) =~= ls);
    out
}

/// The commands of lines given as their words, in order, without the lines
/// that do not parse.
pub open spec fn commands_of_words(ls: Seq<Seq<Seq<char>>>) -> Seq<CommandView>
    decreases ls.len(),
{
    if ls.len() == 0 {
        Seq::empty()
    } else {
        let r = commands_of_words(ls.drop_last());
        match identify_words(ls.last()) {
            Ok(c) => r.push(c),
            Err(_) => r,
        }
    }
}

/// A playlist written out from its lines of words: one space between two
/// words, one line feed between two lines.
pub open spec fn render(ls: Seq<Seq<Seq<char>>>) -> Seq<char> {
    join(ls.map_values(|l: Seq<Seq<char>>| join(l, ' ')), '\n')
}

/// Every line has a word, and every word is non-empty without white space.
pub open spec fn well_spaced(ls: Seq<Seq<Seq<char>>>) -> bool {
    forall|i: int| 0 <= i < ls.len() ==> ls[i].len() > 0 && clean_pieces(#[trigger] ls[i], Sep::Space)
}

proof fn lemma_commands_of_lines(ls: Seq<Seq<Seq<char>>>)
    requires
        well_spaced(ls),
    ensures
        commands_of(ls.map_values(|l: Seq<Seq<char>>| join(l, ' '))) == commands_of_words(ls),
    decreases ls.len(),
{
    if ls.len() > 0 {
        let pre = ls.drop_last();
        assert(well_spaced(pre)) by {
            assert forall|i: int| 0 <= i < pre.len() implies pre[i].len() > 0 && clean_pieces(#[trigger] pre[i], Sep::Space) by {
                assert(pre[i] == ls[i]);
            }
        }
        lemma_commands_of_lines(pre);
        let lines = ls.map_values(|l: Seq<Seq<char>>| join(l, ' '));
        assert(lines.drop_last() =~= pre.map_values(|l: Seq<Seq<char>>| join(l, ' ')));
        assert(ls.last() == ls[ls.len() - 1]);
        lemma_pieces_join(ls.last(), Sep::Space, ' ');
        assert(words(lines.last()) == ls.last());
    }
}

/// Reading a playlist depends on its words and lines alone: written out
/// from lines of words, it reads back as exactly the commands of those lines,
/// whatever spacing, blank lines or comments it was first written with.
pub proof fn lemma_round_trip(ls: Seq<Seq<Seq<char>>>)
    requires
        well_spaced(ls),
    ensures
        parse_spec(render(ls)) == commands_of_words(ls),
{
    let lines = ls.map_values(|l: Seq<Seq<char>>| join(l, ' '));
    assert(clean_pieces(lines, Sep::Newline)) by {
        assert forall|i: int| 0 <= i < lines.len() implies lines[i].len() > 0 && forall|j: int|
            0 <= j < lines[i].len() ==> !is_sep(Sep::Newline, #[trigger] lines[i][j]) by {
            let l = ls[i];
            assert(clean_pieces(l, Sep::Space));
            assert forall|a: int, b: int| 0 <= a < l.len() && 0 <= b < l[a].len() implies l[a][b] != '\n' by {
                assert(!is_sep(Sep::Space, l[a][b]));
            }
            lemma_join_avoids(l, ' ', '\n');
        }
    }
    lemma_pieces_join(lines, Sep::Newline, '\n');
    lemma_commands_of_lines(ls);
}

} // verus!
