//! Playlist commands, and the parser of one playlist line.

use vstd::prelude::*;

use crate::props::{pairs_map, Properties};
use crate::text::{
    is_comment, lemma_split_eq_pair, no_eq, same_text, split, split_at_eq, split_eq, starts_comment, views, words, Sep,
};

verus! {

/// A span of time: whole seconds and the nanoseconds past them.
#[derive(Clone, Copy, Debug, PartialEq, Eq, Structural)]
pub struct Span {
    pub secs: u64,
    pub nanos: u32,
}

impl Span {
    pub open spec fn wf(&self) -> bool {
        self.nanos < 1_000_000_000
    }

    /// The span in nanoseconds.
    pub open spec fn total(&self) -> int {
        self.secs * 1_000_000_000 + self.nanos
    }
}

/// `d` less `e`, or nothing where `e` is the longer.
pub open spec fn span_minus(d: Span, e: Span) -> Span {
    if e.total() >= d.total() {
        Span { secs: 0, nanos: 0 }
    } else if d.nanos >= e.nanos {
        Span { secs: (d.secs - e.secs) as u64, nanos: (d.nanos - e.nanos) as u32 }
    } else {
        Span { secs: (d.secs - e.secs - 1) as u64, nanos: (d.nanos + 1_000_000_000 - e.nanos) as u32 }
    }
}

/// What is left of `d` once `e` has passed: zero where `e` is the longer.
pub fn saturating_minus(d: Span, e: Span) -> (r: Span)
    requires
        d.wf(),
        e.wf(),
    ensures
        r == span_minus(d, e),
        r.wf(),
        r.total() == if e.total() >= d.total() { 0 } else { d.total() - e.total() },
{
    if e.secs > d.secs || (e.secs == d.secs && e.nanos >= d.nanos) {
        assert(e.total() >= d.total()) by (nonlinear_arith)
            requires e.secs > d.secs || (e.secs == d.secs && e.nanos >= d.nanos), e.nanos < 1_000_000_000,
                d.nanos < 1_000_000_000;
        Span { secs: 0, nanos: 0 }
    } else {
        assert(e.total() < d.total()) by (nonlinear_arith)
            requires !(e.secs > d.secs || (e.secs == d.secs && e.nanos >= d.nanos)), e.nanos < 1_000_000_000,
                d.nanos < 1_000_000_000;
        if d.nanos >= e.nanos {
            Span { secs: d.secs - e.secs, nanos: d.nanos - e.nanos }
        } else {
            Span { secs: d.secs - e.secs - 1, nanos: d.nanos + (1_000_000_000 - e.nanos) }
        }
    }
}

/// How long a command lasts.
#[derive(Clone, Copy, Debug, PartialEq, Eq, Structural)]
pub enum CmdDuration {
    Finite(Span),
    Infinite,
}

/// A command of a playlist.
#[derive(Clone, Debug, PartialEq)]
pub enum Command {
    /// Shows the wallpaper with the given id for the given time, with these properties.
    Wallpaper(String, CmdDuration, Properties),
    /// Waits for the given time.
    Sleep(CmdDuration),
    /// Sets default properties for the wallpapers that follow.
    Default(Properties),
    /// Ends the playlist.
    End,
}

/// A command, with texts and properties as mathematical values.
pub enum CommandView {
    Wallpaper(Seq<char>, CmdDuration, Map<Seq<char>, Seq<char>>),
    Sleep(CmdDuration),
    Default(Map<Seq<char>, Seq<char>>),
    End,
}

impl View for Command {
    type V = CommandView;

    open spec fn view(&self) -> CommandView {
        match self {
            Command::Wallpaper(id, d, p) => CommandView::Wallpaper(id@, *d, p.map()),
            Command::Sleep(d) => CommandView::Sleep(*d),
            Command::Default(p) => CommandView::Default(p.map()),
            Command::End => CommandView::End,
        }
    }
}

impl Command {
    /// A copy of this command.
    pub fn duplicate(&self) -> (r: Command)
        ensures
            r@ == self@,
    {
        match self {
            Command::Wallpaper(id, d, p) => Command::Wallpaper(id.clone(), *d, p.duplicate()),
            Command::Sleep(d) => Command::Sleep(*d),
            Command::Default(p) => Command::Default(p.duplicate()),
            Command::End => Command::End,
        }
    }
}

/// Why a line is not a command.
#[derive(Clone, Copy, Debug, PartialEq, Eq, Structural)]
pub enum ParseError {
    /// The line does not start with a command, or is blank.
    CommandNotFound,
    /// The command lacks an argument that it needs.
    NotEnoughArguments,
    /// An argument does not convert to what the command expects.
    InvalidArgument,
}

impl ParseError {
    pub fn message(&self) -> (r: &'static str) {
        match self {
            ParseError::CommandNotFound => "Unrecognised command",
            ParseError::NotEnoughArguments => "Not enough arguments",
            ParseError::InvalidArgument => "Invalid arguments",
        }
    }
}

/// The time that `duration_str::parse` reads from a text, as whole seconds and
/// nanoseconds, or nothing where it refuses the text.
pub uninterp spec fn parsed_duration(s: Seq<char>) -> Option<(u64, u32)>;

/// Relies on `duration_str::parse`: a human-readable time (`15m`, `1h`, `360s`)
/// becomes a `Duration`; the empty text is refused.
#[verifier::external_body]
fn read_duration(s: &str) -> (r: Option<(u64, u32)>)
    ensures
        r == parsed_duration(s@),
        s@.len() == 0 ==> r is None,
        r matches Some(p) ==> p.1 < 1_000_000_000,
{
    match duration_str::parse(s) {
        Ok(d) => Some((d.as_secs(), d.subsec_nanos())),
        Err(_) => None,
    }
}

/// The duration that a word names: `infinite`, or a time.
pub open spec fn duration_word(t: Seq<char>) -> Option<CmdDuration> {
    if t == "infinite"@ {
        Some(CmdDuration::Infinite)
    } else {
        match parsed_duration(t) {
            Some(p) => Some(CmdDuration::Finite(Span { secs: p.0, nanos: p.1 })),
            None => None,
        }
    }
}

/// Reads a duration word.
pub fn read_duration_word(t: &str) -> (r: Option<CmdDuration>)
    ensures
        r == duration_word(t@),
        r matches Some(CmdDuration::Finite(s)) ==> s.wf(),
{
    if same_text(t, "infinite") {
        Some(CmdDuration::Infinite)
    } else {
        match read_duration(t) {
            Some(p) => Some(CmdDuration::Finite(Span { secs: p.0, nanos: p.1 })),
            None => None,
        }
    }
}

/// The `key=value` pairs of `toks`, up to the first word that opens a
/// comment; nothing where a word before it has no `=`.
pub open spec fn property_pairs(toks: Seq<Seq<char>>) -> Option<Seq<(Seq<char>, Seq<char>)>>
    decreases toks.len(),
{
    if toks.len() == 0 || is_comment(toks[0]) {
        Some(Seq::empty())
    } else {
        match split_eq(toks[0]) {
            None => None,
            Some(p) => match property_pairs(toks.drop_first()) {
                None => None,
                Some(rest) => Some(seq![p] + rest),
            },
        }
    }
}

pub open spec fn then_pairs(
    acc: Seq<(Seq<char>, Seq<char>)>,
    o: Option<Seq<(Seq<char>, Seq<char>)>>,
) -> Option<Seq<(Seq<char>, Seq<char>)>> {
    match o {
        Some(rest) => Some(acc + rest),
        None => None,
    }
}

/// The properties that the words of `toks` from `from` on give.
pub fn extract_properties(toks: &Vec<String>, from: usize) -> (r: Option<Properties>)
    requires
        from <= toks@.len(),
    ensures
        match property_pairs(views(toks@).skip(from as int)) {
            Some(ps) => r matches Some(p) && p.wf() && p.map() == pairs_map(ps),
            None => r is None,
        },
{
    let ghost all = views(toks@).skip(from as int);
    let ghost mut acc: Seq<(Seq<char>, Seq<char>)> = Seq::empty();
    let mut props = Properties::new();
    let mut i: usize = from;
    while i < toks.len()
        invariant
            from <= i <= toks@.len(),
            all == views(toks@).skip(from as int),
            property_pairs(all) == then_pairs(acc, property_pairs(views(toks@).skip(i as int))),
            props.wf(),
            props.map() == pairs_map(acc),
        decreases toks@.len() - i,
    {
        let ghost here = views(toks@).skip(i as int);
        assert(here[0] == toks@[i as int]@);
        assert(here.drop_first() =~= views(toks@).skip(i + 1));
        if starts_comment(toks[i].as_str()) {
            assert(acc + Seq::<(Seq<char>, Seq<char>)>::empty() =~= acc);
            return Some(props);
        }
        match split_at_eq(toks[i].as_str()) {
            None => {
                return None;
            },
            Some(p) => {
                let ghost pv = (p.0@, p.1@);
                proof {
                    assert forall|rest: Seq<(Seq<char>, Seq<char>)>| acc + (seq![pv] + rest) == acc.push(pv) + rest by {
                        assert(acc + (seq![pv] + rest) =~= acc.push(pv) + rest);
                    }
                    assert(acc.push(pv).drop_last() =~= acc);
                }
                props.insert(p.0, p.1);
                proof {
                    acc = acc.push(pv);
                }
            },
        }
        i += 1;
    }
    proof {
        assert(views(toks@).skip(i as int) =~= Seq::<Seq<char>>::empty());
        assert(acc + Seq::<(Seq<char>, Seq<char>)>::empty() =~= acc);
    }
    Some(props)
}

/// What a line whose words are `toks` means, where its second word, if
/// any, reads as the duration `d`.
pub open spec fn command_of_words(toks: Seq<Seq<char>>, d: Option<CmdDuration>) -> Result<CommandView, ParseError> {
    if toks.len() == 0 {
        Err(ParseError::CommandNotFound)
    } else if toks[0] == "end"@ {
        Ok(CommandView::End)
    } else if toks[0] == "sleep"@ {
        if toks.len() < 2 || is_comment(toks[1]) {
            Err(ParseError::NotEnoughArguments)
        } else {
            match d {
                None => Err(ParseError::InvalidArgument),
                Some(d) => Ok(CommandView::Sleep(d)),
            }
        }
    } else if toks[0] == "default"@ {
        match property_pairs(toks.skip(1)) {
            None => Err(ParseError::InvalidArgument),
            Some(ps) => Ok(CommandView::Default(pairs_map(ps))),
        }
    } else if is_comment(toks[0]) {
        Err(ParseError::CommandNotFound)
    } else if toks.len() < 2 || is_comment(toks[1]) {
        Err(ParseError::NotEnoughArguments)
    } else {
        match d {
            None => Err(ParseError::InvalidArgument),
            Some(d) => match property_pairs(toks.skip(2)) {
                None => Err(ParseError::InvalidArgument),
                Some(ps) => Ok(CommandView::Wallpaper(toks[0], d, pairs_map(ps))),
            },
        }
    }
}

/// What a line whose words are `toks` means.
pub open spec fn identify_words(toks: Seq<Seq<char>>) -> Result<CommandView, ParseError> {
    command_of_words(toks, if toks.len() >= 2 { duration_word(toks[1]) } else { None })
}

/// What the line `s` means.
pub open spec fn identify_spec(s: Seq<char>) -> Result<CommandView, ParseError> {
    identify_words(words(s))
}

pub open spec fn result_view(r: Result<Command, ParseError>) -> Result<CommandView, ParseError> {
    match r {
        Ok(c) => Ok(c@),
        Err(e) => Err(e),
    }
}

/// Durations that a command holds are well formed.
pub open spec fn command_wf(c: CommandView) -> bool {
    match c {
        CommandView::Wallpaper(_, CmdDuration::Finite(s), _) => s.wf(),
        CommandView::Sleep(CmdDuration::Finite(s)) => s.wf(),
        _ => true,
    }
}

/// The command of a line whose words are `toks`, where its second word, if
/// any, reads as the duration `duration`.
pub fn command_from_words(toks: &Vec<String>, duration: Option<CmdDuration>) -> (r: Result<Command, ParseError>)
    requires
        duration matches Some(CmdDuration::Finite(s)) ==> s.wf(),
    ensures
        result_view(r) == command_of_words(views(toks@), duration),
        r matches Ok(c) ==> command_wf(c@),
{
    let ghost t = views(toks@);
    if toks.len() == 0 {
        return Err(ParseError::CommandNotFound);
    }
    assert(t[0] == toks@[0]@);
    let head = toks[0].as_str();
    if same_text(head, "end") {
        Ok(Command::End)
    } else if same_text(head, "sleep") {
        if toks.len() < 2 || starts_comment(toks[1].as_str()) {
            return Err(ParseError::NotEnoughArguments);
        }
        match duration {
            None => Err(ParseError::InvalidArgument),
            Some(d) => Ok(Command::Sleep(d)),
        }
    } else if same_text(head, "default") {
        match extract_properties(toks, 1) {
            None => Err(ParseError::InvalidArgument),
            Some(p) => Ok(Command::Default(p)),
        }
    } else if starts_comment(head) {
        Err(ParseError::CommandNotFound)
    } else {
        if toks.len() < 2 || starts_comment(toks[1].as_str()) {
            return Err(ParseError::NotEnoughArguments);
        }
        assert(t[1] == toks@[1]@);
        match duration {
            None => Err(ParseError::InvalidArgument),
            Some(d) => match extract_properties(toks, 2) {
                None => Err(ParseError::InvalidArgument),
                Some(p) => Ok(Command::Wallpaper(toks[0].clone(), d, p)),
            },
        }
    }
}

/// Parses one playlist line.
pub fn identify(line: &str) -> (r: Result<Command, ParseError>)
    ensures
        result_view(r) == identify_spec(line@),
        r matches Ok(c) ==> command_wf(c@),
{
    let toks = split(line, Sep::Space);
    let duration = if toks.len() >= 2 {
        assert(views(toks@)[1] == toks@[1]@);
        read_duration_word(toks[1].as_str())
    } else {
        None
    };
    command_from_words(&toks, duration)
}

/// Properties written as `key=value` words.
pub open spec fn pair_words(ps: Seq<(Seq<char>, Seq<char>)>) -> Seq<Seq<char>> {
    ps.map_values(|p: (Seq<char>, Seq<char>)| p.0 + "="@ + p.1)
}

/// A key that reads back from its `key=value` word.
pub open spec fn plain_key(k: Seq<char>) -> bool {
    no_eq(k) && !is_comment(k)
}

/// A wallpaper id that no keyword or comment shadows.
pub open spec fn plain_id(id: Seq<char>) -> bool {
    id.len() > 0 && !is_comment(id) && id != "end"@ && id != "sleep"@ && id != "default"@
}

proof fn lemma_property_words(ps: Seq<(Seq<char>, Seq<char>)>)
    requires
        forall|i: int| 0 <= i < ps.len() ==> plain_key(#[trigger] ps[i].0),
    ensures
        property_pairs(pair_words(ps)) == Some(ps),
    decreases ps.len(),
{
    reveal_strlit("=");
    if ps.len() > 0 {
        let ws = pair_words(ps);
        let rest = ps.drop_first();
        assert forall|i: int| 0 <= i < rest.len() implies plain_key(#[trigger] rest[i].0) by {
            assert(rest[i] == ps[i + 1]);
        }
        lemma_property_words(rest);
        assert(ws.drop_first() =~= pair_words(rest));
        assert(plain_key(ps[0].0));
        lemma_split_eq_pair(ps[0].0, ps[0].1);
        assert(ws[0] == ps[0].0 + "="@ + ps[0].1);
        assert(!is_comment(ws[0])) by {
            if ps[0].0.len() > 0 {
                assert(ws[0][0] == ps[0].0[0]);
            } else {
                assert(ws[0][0] == '=');
            }
        }
        assert(seq![ps[0]] + rest =~= ps);
    } else {
        assert(pair_words(ps) =~= Seq::<Seq<char>>::empty());
    }
}

/// Each command, written as the words of its line, reads back as itself: a
/// wallpaper and a sleep with the duration that their duration word reads
/// as, properties with their values, and `infinite` as an infinite duration.
pub proof fn lemma_command_words(id: Seq<char>, t: Seq<char>, ps: Seq<(Seq<char>, Seq<char>)>)
    requires
        plain_id(id),
        t.len() > 0,
        !is_comment(t),
        forall|i: int| 0 <= i < ps.len() ==> plain_key(#[trigger] ps[i].0),
    ensures
        identify_words(seq![id, t] + pair_words(ps)) == match duration_word(t) {
            Some(d) => Ok(CommandView::Wallpaper(id, d, pairs_map(ps))),
            None => Err(ParseError::InvalidArgument),
        },
        identify_words(seq!["sleep"@, t]) == match duration_word(t) {
            Some(d) => Ok(CommandView::Sleep(d)),
            None => Err(ParseError::InvalidArgument),
        },
        identify_words(seq!["default"@] + pair_words(ps)) == Ok::<CommandView, ParseError>(
            CommandView::Default(pairs_map(ps)),
        ),
        identify_words(seq!["end"@]) == Ok::<CommandView, ParseError>(CommandView::End),
        duration_word("infinite"@) == Some(CmdDuration::Infinite),
{
    reveal_strlit("end");
    reveal_strlit("sleep");
    reveal_strlit("default");
    lemma_property_words(ps);
    let w = seq![id, t] + pair_words(ps);
    assert(w.skip(2) =~= pair_words(ps));
    assert(w[0] == id && w[1] == t);
    let dw = seq!["default"@] + pair_words(ps);
    assert(dw.skip(1) =~= pair_words(ps));
    assert(dw[0] == "default"@);
    assert(!is_comment("sleep"@));
    assert(!is_comment("default"@));
    assert(!is_comment("end"@));
}

} // verus!
