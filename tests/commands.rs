use lxwengd::command::{command_from_words, identify, CmdDuration, Command, ParseError, Span};
use lxwengd::playlist::parse;
use lxwengd::props::Properties;

fn secs(s: u64) -> CmdDuration {
    CmdDuration::Finite(Span { secs: s, nanos: 0 })
}

fn props(pairs: &[(&str, &str)]) -> Properties {
    let mut p = Properties::new();
    for (k, v) in pairs {
        p.insert(String::from(*k), String::from(*v));
    }
    p
}

fn wallpaper(id: &str, d: CmdDuration, p: Properties) -> Command {
    Command::Wallpaper(String::from(id), d, p)
}

#[test]
fn commands_identify_commands() {
    // `wait` is no keyword: it is read as a wallpaper id.
    assert_eq!(identify("wait 165"), Ok(wallpaper("wait", secs(165), Properties::new())));
    assert_eq!(identify("sleep 165"), Ok(Command::Sleep(secs(165))));
    assert_eq!(identify("end"), Ok(Command::End));
    assert_eq!(identify("114514 5h"), Ok(wallpaper("114514", secs(5 * 60 * 60), Properties::new())));
}

#[test]
fn commands_identify_errors() {
    let cmd = "this is a very long string containing nothing but garbage";
    assert_eq!(identify(cmd), Err(ParseError::InvalidArgument));
    assert_eq!(identify(""), Err(ParseError::CommandNotFound));
    assert_eq!(identify("wait    "), Err(ParseError::NotEnoughArguments));
    assert_eq!(identify("sleep"), Err(ParseError::NotEnoughArguments));
    assert_eq!(identify("# only a comment"), Err(ParseError::CommandNotFound));
}

#[test]
fn commands_identify_properties() {
    assert_eq!(
        identify("114514 15m dps=15 cup=superbigcup"),
        Ok(wallpaper("114514", secs(15 * 60), props(&[("dps", "15"), ("cup", "superbigcup")])))
    );
    assert_eq!(identify("114514 # Very beautiful wallpaper"), Err(ParseError::NotEnoughArguments));
    assert_eq!(
        identify("114514 infinite ooh=hoo"),
        Ok(wallpaper("114514", CmdDuration::Infinite, props(&[("ooh", "hoo")])))
    );
    let cmd = "114514 5min some=ok hello kids I'm here to destroy the Earth";
    assert_eq!(identify(cmd), Err(ParseError::InvalidArgument));
}

#[test]
fn trailing_comment_ends_properties() {
    assert_eq!(
        identify("7 1h fps=30 #fps=60 broken"),
        Ok(wallpaper("7", secs(3600), props(&[("fps", "30")])))
    );
    assert_eq!(identify("default a=1 b=2"), Ok(Command::Default(props(&[("a", "1"), ("b", "2")]))));
    assert_eq!(identify("default"), Ok(Command::Default(Properties::new())));
    assert_eq!(identify("default novalue"), Err(ParseError::InvalidArgument));
    assert_eq!(identify("sleep soon"), Err(ParseError::InvalidArgument));
    assert_eq!(identify("sleep infinite"), Ok(Command::Sleep(CmdDuration::Infinite)));
    assert_eq!(identify("1 2m a=b=c"), Ok(wallpaper("1", secs(120), props(&[("a", "b=c")]))));
}

#[test]
fn later_property_wins() {
    assert_eq!(identify("1 1s k=a k=b"), Ok(wallpaper("1", secs(1), props(&[("k", "b")]))));
}

#[test]
fn playlist_parse_playlist() {
    let text = "1 15m\n2 1h\n3 6m\nsleep 5m\nend";
    let expected = vec![
        wallpaper("1", secs(15 * 60), Properties::new()),
        wallpaper("2", secs(60 * 60), Properties::new()),
        wallpaper("3", secs(360), Properties::new()),
        Command::Sleep(secs(5 * 60)),
        Command::End,
    ];
    assert_eq!(parse(text), expected);
}

#[test]
fn playlist_skips_blank_comment_and_bad_lines() {
    let text = "# heading\n\n  1 10s  \nbogus\n\t# indented comment\r\nsleep 2s # nap\r\nend\n";
    let expected = vec![wallpaper("1", secs(10), Properties::new()), Command::Sleep(secs(2)), Command::End];
    assert_eq!(parse(text), expected);
    assert_eq!(parse(""), Vec::<Command>::new());
}

#[test]
fn round_trip_of_a_generated_playlist() {
    let cmds = vec![
        Command::Default(props(&[("fps", "30")])),
        wallpaper("42", secs(90), props(&[("scaling", "fill"), ("audio", "false")])),
        wallpaper("abc", CmdDuration::Infinite, Properties::new()),
        Command::Sleep(secs(3)),
        Command::End,
    ];
    let text = "default fps=30\n# a comment\n42   90s scaling=fill audio=false\n\nabc infinite\nsleep 3s\nend\n";
    assert_eq!(parse(text), cmds);
}

#[test]
fn command_from_given_duration() {
    let toks = vec![String::from("3"), String::from("whenever"), String::from("fps=5")];
    let d = CmdDuration::Finite(Span { secs: 7, nanos: 5 });
    assert_eq!(
        command_from_words(&toks, Some(d)),
        Ok(Command::Wallpaper(String::from("3"), d, props(&[("fps", "5")])))
    );
    assert_eq!(command_from_words(&toks, None), Err(ParseError::InvalidArgument));
    let toks = vec![String::from("sleep"), String::from("x")];
    assert_eq!(command_from_words(&toks, Some(CmdDuration::Infinite)), Ok(Command::Sleep(CmdDuration::Infinite)));
    assert_eq!(command_from_words(&vec![], None), Err(ParseError::CommandNotFound));
}
