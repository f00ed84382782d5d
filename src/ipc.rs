//! Requests of the control channel: one line of whitespace-separated words.

use vstd::prelude::*;

use crate::command::ParseError;
use crate::text::{same_text, split, views, words, Sep};

verus! {

/// How a runner treats the saved position of its playlist when it starts.
#[derive(Clone, Copy, Debug, PartialEq, Eq, Structural)]
pub enum ResumeMode {
    /// Ignore the saved position.
    Ignore,
    /// Ignore and delete the saved position.
    IgnoreDel,
    /// Apply, then delete the saved position.
    ApplyDel,
    /// Apply the saved position.
    Apply,
}

/// A request to the daemon.
#[derive(Clone, Debug, PartialEq, Eq)]
pub enum IPCCmd {
    /// Load the playlist at `path` into a new runner on `monitor`.
    Load { path: String, monitor: String, paused: bool, resume_mode: ResumeMode },
    /// Stop the runner on `monitor`.
    Unload { no_save: bool, monitor: String },
    /// Pause the runner on `monitor`; `clear` also ends what it shows.
    Pause { clear: bool, monitor: String },
    /// Move the runner on `monitor` on to its next command.
    Play { monitor: String },
    /// Report every runner.
    Status,
    /// Stop every runner and the daemon.
    Quit,
}

pub enum IPCCmdView {
    Load { path: Seq<char>, monitor: Seq<char>, paused: bool, resume_mode: ResumeMode },
    Unload { no_save: bool, monitor: Seq<char> },
    Pause { clear: bool, monitor: Seq<char> },
    Play { monitor: Seq<char> },
    Status,
    Quit,
}

impl View for IPCCmd {
    type V = IPCCmdView;

    open spec fn view(&self) -> IPCCmdView {
        match self {
            IPCCmd::Load { path, monitor, paused, resume_mode } => IPCCmdView::Load {
                path: path@,
                monitor: monitor@,
                paused: *paused,
                resume_mode: *resume_mode,
            },
            IPCCmd::Unload { no_save, monitor } => IPCCmdView::Unload { no_save: *no_save, monitor: monitor@ },
            IPCCmd::Pause { clear, monitor } => IPCCmdView::Pause { clear: *clear, monitor: monitor@ },
            IPCCmd::Play { monitor } => IPCCmdView::Play { monitor: monitor@ },
            IPCCmd::Status => IPCCmdView::Status,
            IPCCmd::Quit => IPCCmdView::Quit,
        }
    }
}

/// The truth value that a word spells, as `bool`'s `FromStr` reads it.
pub open spec fn bool_word(t: Seq<char>) -> Option<bool> {
    if t == "true"@ {
        Some(true)
    } else if t == "false"@ {
        Some(false)
    } else {
        None
    }
}

pub fn read_bool(t: &str) -> (r: Option<bool>)
    ensures
        r == bool_word(t@),
{
    if same_text(t, "true") {
        Some(true)
    } else if same_text(t, "false") {
        Some(false)
    } else {
        None
    }
}

/// The resume mode that a word names.
pub open spec fn mode_word(t: Seq<char>) -> Option<ResumeMode> {
    if t == "ignore"@ {
        Some(ResumeMode::Ignore)
    } else if t == "ignoredel"@ {
        Some(ResumeMode::IgnoreDel)
    } else if t == "applydel"@ {
        Some(ResumeMode::ApplyDel)
    } else if t == "apply"@ {
        Some(ResumeMode::Apply)
    } else {
        None
    }
}

pub fn read_mode(t: &str) -> (r: Option<ResumeMode>)
    ensures
        r == mode_word(t@),
{
    if same_text(t, "ignore") {
        Some(ResumeMode::Ignore)
    } else if same_text(t, "ignoredel") {
        Some(ResumeMode::IgnoreDel)
    } else if same_text(t, "applydel") {
        Some(ResumeMode::ApplyDel)
    } else if same_text(t, "apply") {
        Some(ResumeMode::Apply)
    } else {
        None
    }
}

/// A verb and a flag word, then a monitor: `pause` and `unload`.
pub open spec fn flag_and_monitor(toks: Seq<Seq<char>>) -> Result<(bool, Seq<char>), ParseError> {
    if toks.len() < 3 {
        Err(ParseError::NotEnoughArguments)
    } else {
        match bool_word(toks[1]) {
            None => Err(ParseError::InvalidArgument),
            Some(b) => Ok((b, toks[2])),
        }
    }
}

/// What a request whose words are `toks` asks.
pub open spec fn request_words(toks: Seq<Seq<char>>) -> Result<IPCCmdView, ParseError> {
    if toks.len() == 0 {
        Err(ParseError::CommandNotFound)
    } else if toks[0] == "quit"@ {
        Ok(IPCCmdView::Quit)
    } else if toks[0] == "status"@ {
        Ok(IPCCmdView::Status)
    } else if toks[0] == "play"@ {
        if toks.len() < 2 {
            Err(ParseError::NotEnoughArguments)
        } else {
            Ok(IPCCmdView::Play { monitor: toks[1] })
        }
    } else if toks[0] == "pause"@ {
        match flag_and_monitor(toks) {
            Err(e) => Err(e),
            Ok((clear, monitor)) => Ok(IPCCmdView::Pause { clear, monitor }),
        }
    } else if toks[0] == "unload"@ {
        match flag_and_monitor(toks) {
            Err(e) => Err(e),
            Ok((no_save, monitor)) => Ok(IPCCmdView::Unload { no_save, monitor }),
        }
    } else if toks[0] == "load"@ {
        if toks.len() < 5 {
            Err(ParseError::NotEnoughArguments)
        } else {
            match (bool_word(toks[3]), mode_word(toks[4])) {
                (Some(paused), Some(resume_mode)) => Ok(
                    IPCCmdView::Load { path: toks[1], monitor: toks[2], paused, resume_mode },
                ),
                _ => Err(ParseError::InvalidArgument),
            }
        }
    } else {
        Err(ParseError::CommandNotFound)
    }
}

pub open spec fn request_view(r: Result<IPCCmd, ParseError>) -> Result<IPCCmdView, ParseError> {
    match r {
        Ok(c) => Ok(c@),
        Err(e) => Err(e),
    }
}

/// Parses one request of the control channel.
pub fn parse(input: &str) -> (r: Result<IPCCmd, ParseError>)
    ensures
        request_view(r) == request_words(words(input@)),
{
    let toks = split(input, Sep::Space);
    let ghost t = views(toks@);
    if toks.len() == 0 {
        return Err(ParseError::CommandNotFound);
    }
    assert(forall|i: int| 0 <= i < toks@.len() ==> t[i] == toks@[i]@);
    let verb = toks[0].as_str();
    if same_text(verb, "quit") {
        Ok(IPCCmd::Quit)
    } else if same_text(verb, "status") {
        Ok(IPCCmd::Status)
    } else if same_text(verb, "play") {
        if toks.len() < 2 {
            Err(ParseError::NotEnoughArguments)
        } else {
            Ok(IPCCmd::Play { monitor: toks[1].clone() })
        }
    } else if same_text(verb, "pause") || same_text(verb, "unload") {
        let is_pause = same_text(verb, "pause");
        if toks.len() < 3 {
            return Err(ParseError::NotEnoughArguments);
        }
        match read_bool(toks[1].as_str()) {
            None => Err(ParseError::InvalidArgument),
            Some(b) => {
                let monitor = toks[2].clone();
                if is_pause {
                    Ok(IPCCmd::Pause { clear: b, monitor })
                } else {
                    Ok(IPCCmd::Unload { no_save: b, monitor })
                }
            },
        }
    } else if same_text(verb, "load") {
        if toks.len() < 5 {
            return Err(ParseError::NotEnoughArguments);
        }
        match (read_bool(toks[3].as_str()), read_mode(toks[4].as_str())) {
            (Some(paused), Some(resume_mode)) => Ok(
                IPCCmd::Load { path: toks[1].clone(), monitor: toks[2].clone(), paused, resume_mode },
            ),
            _ => Err(ParseError::InvalidArgument),
        }
    } else {
        Err(ParseError::CommandNotFound)
    }
}

} // verus!
