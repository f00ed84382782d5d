use lxwengd::backend::{map_properties, pretty_print, EngineConfig, LxWEng};
use lxwengd::props::Properties;

fn props(pairs: &[(&str, &str)]) -> Properties {
    let mut p = Properties::new();
    for (k, v) in pairs {
        p.insert(String::from(*k), String::from(*v));
    }
    p
}

fn has_pair(args: &[String], a: &str, b: &str) -> bool {
    args.windows(2).any(|w| w[0] == a && w[1] == b)
}

#[test]
fn applying_properties() {
    let args = map_properties(&props(&[("fps", "15"), ("scaling", "destruction"), ("clamping", "boom")]));
    let line = args.join(" ");
    assert!(line.contains("--fps 15"));
    assert!(line.contains("--scaling destruction"));
    assert!(line.contains("--clamping boom"));

    let args = map_properties(&props(&[("mouse", "true"), ("automute", "or"), ("audio", "false")]));
    let line = args.join(" ");
    assert!(line.contains("--no-audio-processing"));
    assert!(!line.contains("automute"));
    assert!(!line.contains("mouse"));

    let args = map_properties(&props(&[("mujica", "ooo"), ("whoknows", "idk")]));
    assert!(has_pair(&args, "--set-property", "mujica=ooo"));
    assert!(has_pair(&args, "--set-property", "whoknows=idk"));
}

#[test]
fn flags_for_switches() {
    let args = map_properties(&props(&[
        ("silent", "true"),
        ("fullscreen-pause", "false"),
        ("mouse", "false"),
        ("automute", "false"),
        ("volume", "40"),
        ("window", "0x0x800x600"),
    ]));
    assert_eq!(
        args,
        vec![
            "--silent",
            "--no-fullscreen-pause",
            "--disable-mouse",
            "--no-automute",
            "--volume",
            "40",
            "--window",
            "0x0x800x600"
        ]
    );
    assert!(map_properties(&props(&[("silent", "false")])).is_empty());
}

#[test]
fn getting_cmd() {
    let engine = LxWEng::new(Some(String::from("Headless-1")));
    let cfg = EngineConfig { binary: None, assets_path: Some(String::from("ng")) };
    let cmd = engine.get_sys_command(&cfg, "114514", &Properties::new());
    assert_eq!(cmd.join(" "), "linux-wallpaperengine --assets-dir ng --screen-root Headless-1 --bg 114514");
}

#[test]
fn command_line_uses_defaults_and_binary() {
    let mut engine = LxWEng::new(None);
    engine.update_default_props(props(&[("fps", "10")]));
    let cfg = EngineConfig { binary: Some(String::from("/opt/lwe")), assets_path: None };
    let cmd = engine.get_sys_command(&cfg, "9", &props(&[("fps", "25")]));
    assert_eq!(cmd, vec!["/opt/lwe", "--fps", "25", "9"]);
    assert_eq!(LxWEng::get_name(), "linux-wallpaperengine");
}

#[test]
fn pretty_printing() {
    assert_eq!(pretty_print(&props(&[("a", "1"), ("b", "x y")])), "a=1 b=x y ");
    assert_eq!(pretty_print(&Properties::new()), "");
}
