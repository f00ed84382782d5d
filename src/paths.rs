//! Where the daemon looks for playlists and keeps its cache and socket,
//! from the environment's values handed in.

use vstd::prelude::*;
use vstd::string::*;

verus! {

/// `base` followed by `rest`.
fn joined(base: &String, rest: &str) -> (r: String)
    ensures
        r@ == base@ + rest@,
{
    let mut r = base.clone();
    r.append(rest);
    r
}

/// The cache directory: under `$XDG_CACHE_HOME`, else under `$HOME/.cache`,
/// else in `/tmp`.
pub fn cache_path(xdg_cache_home: Option<String>, home: Option<String>) -> (r: String)
    ensures
        r@ == match (xdg_cache_home, home) {
            (Some(x), _) => x@ + "/lxwengd"@,
            (None, Some(h)) => h@ + "/.cache/lxwengd"@,
            (None, None) => "/tmp/lxwengd"@,
        },
{
    match (xdg_cache_home, home) {
        (Some(x), _) => joined(&x, "/lxwengd"),
        (None, Some(h)) => joined(&h, "/.cache/lxwengd"),
        (None, None) => "/tmp/lxwengd".to_owned(),
    }
}

/// The directory searched for playlists: under `$XDG_CONFIG_HOME`, else under
/// `$HOME/.config`; none without either.
pub fn search_path(xdg_config_home: Option<String>, home: Option<String>) -> (r: Option<String>)
    ensures
        match (xdg_config_home, home) {
            (Some(x), _) => r matches Some(p) && p@ == x@ + "/lxwengd"@,
            (None, Some(h)) => r matches Some(p) && p@ == h@ + "/.config/lxwengd"@,
            (None, None) => r is None,
        },
{
    match (xdg_config_home, home) {
        (Some(x), _) => Some(joined(&x, "/lxwengd")),
        (None, Some(h)) => Some(joined(&h, "/.config/lxwengd")),
        (None, None) => None,
    }
}

/// The control socket: in `$XDG_RUNTIME_DIR`, else in `/tmp`.
pub fn socket_path(runtime_dir: Option<String>) -> (r: String)
    ensures
        r@ == match runtime_dir {
            Some(d) => d@ + "/lxwengd.sock"@,
            None => "/tmp/lxwengd.sock"@,
        },
{
    match runtime_dir {
        Some(d) => joined(&d, "/lxwengd.sock"),
        None => "/tmp/lxwengd.sock".to_owned(),
    }
}

/// `name` under `dir`: an absolute `name`, or an empty `dir`, leaves `name`.
pub open spec fn under(dir: Seq<char>, name: Seq<char>) -> Seq<char> {
    if (name.len() > 0 && name[0] == '/') || dir.len() == 0 {
        name
    } else if dir.last() == '/' {
        dir + name
    } else {
        dir + "/"@ + name
    }
}

fn path_under(dir: &String, name: &str) -> (r: String)
    ensures
        r@ == under(dir@, name@),
{
    let dn = dir.as_str().unicode_len();
    if (name.unicode_len() > 0 && name.get_char(0) == '/') || dn == 0 {
        name.to_owned()
    } else if dir.as_str().get_char(dn - 1) == '/' {
        joined(dir, name)
    } else {
        let mut r = joined(dir, "/");
        r.append(name);
        r
    }
}

/// The files that may hold the playlist `name`, in the order they are tried:
/// `name` itself, `name` in the search directory, then the same with the
/// `.playlist` extension.
pub fn playlist_candidates(name: &str, search: &String) -> (r: Vec<String>)
    ensures
        r@.len() == 3,
        r@[0]@ == name@,
        r@[1]@ == under(search@, name@),
        r@[2]@ == under(search@, name@) + ".playlist"@,
{
    let first = name.to_owned();
    let second = path_under(search, name);
    let mut third = second.clone();
    third.append(".playlist");
    let mut r: Vec<String> = Vec::new();
    r.push(first);
    r.push(second);
    r.push(third);
    r
}

} // verus!
