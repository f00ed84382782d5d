//! The `linux-wallpaperengine` backend: the command line that shows a wallpaper.

use vstd::prelude::*;
use vstd::string::*;

use crate::props::{combine, pairs_map, unique_keys, Properties};

verus! {

/// Settings read once at start-up that shape every command line.
#[derive(Clone, Debug, PartialEq, Eq)]
pub struct EngineConfig {
    /// The program to run, where it is not `linux-wallpaperengine`.
    pub binary: Option<String>,
    /// Where the Wallpaper Engine assets are.
    pub assets_path: Option<String>,
}

/// The backend for one monitor, or for none.
#[derive(Clone, Debug)]
pub struct LxWEng {
    pub monitor: Option<String>,
    pub default_props: Properties,
}

/// The program's own arguments for one property.
pub open spec fn property_args(k: Seq<char>, v: Seq<char>) -> Seq<Seq<char>> {
    if k == "silent"@ {
        if v == "true"@ { seq!["--silent"@] } else { Seq::empty() }
    } else if k == "audio"@ {
        if v == "false"@ { seq!["--no-audio-processing"@] } else { Seq::empty() }
    } else if k == "automute"@ {
        if v == "false"@ { seq!["--no-automute"@] } else { Seq::empty() }
    } else if k == "fullscreen-pause"@ {
        if v == "false"@ { seq!["--no-fullscreen-pause"@] } else { Seq::empty() }
    } else if k == "mouse"@ {
        if v == "false"@ { seq!["--disable-mouse"@] } else { Seq::empty() }
    } else if k == "fps"@ {
        seq!["--fps"@, v]
    } else if k == "volume"@ {
        seq!["--volume"@, v]
    } else if k == "window"@ {
        seq!["--window"@, v]
    } else if k == "scaling"@ {
        seq!["--scaling"@, v]
    } else if k == "clamping"@ {
        seq!["--clamping"@, v]
    } else {
        seq!["--set-property"@, k + "="@ + v]
    }
}

/// The arguments for a sequence of properties, in their order.
pub open spec fn args_of(ps: Seq<(Seq<char>, Seq<char>)>) -> Seq<Seq<char>>
    decreases ps.len(),
{
    if ps.len() == 0 {
        Seq::empty()
    } else {
        args_of(ps.drop_last()) + property_args(ps.last().0, ps.last().1)
    }
}

/// `key=value ` for each property, in their order.
pub open spec fn pretty_of(ps: Seq<(Seq<char>, Seq<char>)>) -> Seq<char>
    decreases ps.len(),
{
    if ps.len() == 0 {
        Seq::empty()
    } else {
        pretty_of(ps.drop_last()) + ps.last().0 + "="@ + ps.last().1 + " "@
    }
}

pub open spec fn texts(v: Seq<String>) -> Seq<Seq<char>> {
    v.map_values(|t: String| t@)
}

fn push_text(out: &mut Vec<String>, t: &str)
    ensures
        texts(final(out)@) == texts(old(out)@).push(t@),
{
    out.push(t.to_owned());
    assert(texts(out@) =~= texts(old(out)@).push(t@));
}

fn word_is(t: &String, w: &str) -> (r: bool)
    ensures
        r == (t@ == w@),
{
    crate::text::same_text(t.as_str(), w)
}

/// Appends to `out` the arguments that the property `k` = `v` asks for.
fn append_property(out: &mut Vec<String>, k: &String, v: &String)
    ensures
        texts(final(out)@) == texts(old(out)@) + property_args(k@, v@),
{
    let ghost before = texts(out@);
    if word_is(k, "silent") {
        if word_is(v, "true") {
            push_text(out, "--silent");
        }
    } else if word_is(k, "audio") {
        if word_is(v, "false") {
            push_text(out, "--no-audio-processing");
        }
    } else if word_is(k, "automute") {
        if word_is(v, "false") {
            push_text(out, "--no-automute");
        }
    } else if word_is(k, "fullscreen-pause") {
        if word_is(v, "false") {
            push_text(out, "--no-fullscreen-pause");
        }
    } else if word_is(k, "mouse") {
        if word_is(v, "false") {
            push_text(out, "--disable-mouse");
        }
    } else if word_is(k, "fps") {
        push_text(out, "--fps");
        push_text(out, v.as_str());
    } else if word_is(k, "volume") {
        push_text(out, "--volume");
        push_text(out, v.as_str());
    } else if word_is(k, "window") {
        push_text(out, "--window");
        push_text(out, v.as_str());
    } else if word_is(k, "scaling") {
        push_text(out, "--scaling");
        push_text(out, v.as_str());
    } else if word_is(k, "clamping") {
        push_text(out, "--clamping");
        push_text(out, v.as_str());
    } else {
        push_text(out, "--set-property");
        let mut kv = k.clone();
        kv.append("=");
        kv.append(v.as_str());
        push_text(out, kv.as_str());
    }
    assert(texts(out@) =~= before + property_args(k@, v@));
}

/// The program's arguments for `properties`, property by property.
pub fn map_properties(properties: &Properties) -> (r: Vec<String>)
    ensures
        texts(r@) == args_of(properties.pairs()),
{
    let mut out: Vec<String> = Vec::new();
    let mut i: usize = 0;
    while i < properties.len()
        invariant
            i <= properties.pairs().len(),
            texts(out@) == args_of(properties.pairs().take(i as int)),
        decreases properties.pairs().len() - i,
    {
        proof {
            assert(properties.pairs().take(i + 1).drop_last() =~= properties.pairs().take(i as int));
        }
        append_property(&mut out, properties.key_at(i), properties.value_at(i));
        i += 1;
    }
    assert(properties.pairs().take(i as int) =~= properties.pairs());
    out
}

/// The properties as `key=value ` pieces, for reading.
pub fn pretty_print(properties: &Properties) -> (r: String)
    ensures
        r@ == pretty_of(properties.pairs()),
{
    let mut out = String::new();
    let mut i: usize = 0;
    while i < properties.len()
        invariant
            i <= properties.pairs().len(),
            out@ == pretty_of(properties.pairs().take(i as int)),
        decreases properties.pairs().len() - i,
    {
        proof {
            assert(properties.pairs().take(i + 1).drop_last() =~= properties.pairs().take(i as int));
        }
        out.append(properties.key_at(i).as_str());
        out.append("=");
        out.append(properties.value_at(i).as_str());
        out.append(" ");
        i += 1;
    }
    assert(properties.pairs().take(i as int) =~= properties.pairs());
    out
}

/// The arguments before the properties: the program, then the assets.
pub open spec fn head_args(cfg: EngineConfig) -> Seq<Seq<char>> {
    let program = match cfg.binary {
        Some(b) => b@,
        None => "linux-wallpaperengine"@,
    };
    match cfg.assets_path {
        Some(a) => seq![program, "--assets-dir"@, a@],
        None => seq![program],
    }
}

/// The arguments after the properties: the monitor, then the wallpaper.
pub open spec fn tail_args(monitor: Option<String>, name: Seq<char>) -> Seq<Seq<char>> {
    match monitor {
        Some(m) => seq!["--screen-root"@, m@, "--bg"@, name],
        None => seq![name],
    }
}

impl LxWEng {
    pub fn new(monitor: Option<String>) -> (r: LxWEng)
        ensures
            r.monitor == monitor,
            r.default_props.wf(),
            r.default_props.map() == Map::<Seq<char>, Seq<char>>::empty(),
    {
        LxWEng { monitor, default_props: Properties::new() }
    }

    /// The name of the program that this backend runs.
    pub fn get_name() -> (r: String)
        ensures
            r@ == "linux-wallpaperengine"@,
    {
        "linux-wallpaperengine".to_owned()
    }

    /// Replaces the default properties.
    pub fn update_default_props(&mut self, defaults: Properties)
        ensures
            final(self).default_props == defaults,
            final(self).monitor == old(self).monitor,
    {
        self.default_props = defaults;
    }

    /// The command line, program first, that shows wallpaper `name` with
    /// `properties` over the default ones.
    pub fn get_sys_command(&self, cfg: &EngineConfig, name: &str, properties: &Properties) -> (r: Vec<String>)
        ensures
            exists|ps: Seq<(Seq<char>, Seq<char>)>|
                unique_keys(ps)
                && pairs_map(ps) == self.default_props.map().union_prefer_right(properties.map())
                && texts(r@) == head_args(*cfg) + args_of(ps) + tail_args(self.monitor, name@),
    {
        let mut out: Vec<String> = Vec::new();
        match &cfg.binary {
            Some(b) => push_text(&mut out, b.as_str()),
            None => push_text(&mut out, "linux-wallpaperengine"),
        }
        match &cfg.assets_path {
            Some(a) => {
                push_text(&mut out, "--assets-dir");
                push_text(&mut out, a.as_str());
            },
            None => {},
        }
        assert(texts(out@) =~= head_args(*cfg));
        let combined = combine(&self.default_props, properties);
        let mut args = map_properties(&combined);
        out.append(&mut args);
        assert(texts(out@) =~= head_args(*cfg) + args_of(combined.pairs()));
        let ghost mid = texts(out@);
        match &self.monitor {
            Some(m) => {
                push_text(&mut out, "--screen-root");
                push_text(&mut out, m.as_str());
                push_text(&mut out, "--bg");
            },
            None => {},
        }
        push_text(&mut out, name);
        assert(texts(out@) =~= head_args(*cfg) + args_of(combined.pairs()) + tail_args(self.monitor, name@));
        out
    }
}

} // verus!
