use lxwengd::paths::{cache_path, playlist_candidates, search_path, socket_path};

fn s(t: &str) -> Option<String> {
    Some(String::from(t))
}

#[test]
fn getting_locations() {
    assert_eq!(search_path(s("."), None), s("./lxwengd"));
    assert_eq!(search_path(None, s(".")), s("./.config/lxwengd"));
    assert_eq!(search_path(None, None), None);

    assert_eq!(cache_path(s("/some_cachey_place"), None), "/some_cachey_place/lxwengd");
    assert_eq!(cache_path(None, s("/somewhere")), "/somewhere/.cache/lxwengd");
    assert_eq!(cache_path(None, None), "/tmp/lxwengd");
}

#[test]
fn playlist_location() {
    assert_eq!(search_path(s("."), s("/home/x")), s("./lxwengd"));
    assert_eq!(search_path(None, s(".")), s("./.config/lxwengd"));
    assert_eq!(search_path(None, None), None);
}

#[test]
fn cache_location() {
    assert_eq!(cache_path(s("."), None), "./lxwengd");
    assert_eq!(cache_path(None, s(".")), "./.cache/lxwengd");
    assert_eq!(cache_path(None, None), "/tmp/lxwengd");
}

#[test]
fn socket_location() {
    assert_eq!(socket_path(s("/run/user/1000")), "/run/user/1000/lxwengd.sock");
    assert_eq!(socket_path(None), "/tmp/lxwengd.sock");
}

#[test]
fn candidates_for_a_playlist() {
    let search = String::from("/home/u/.config/lxwengd");
    assert_eq!(
        playlist_candidates("open_test", &search),
        vec![
            "open_test",
            "/home/u/.config/lxwengd/open_test",
            "/home/u/.config/lxwengd/open_test.playlist"
        ]
    );
    assert_eq!(
        playlist_candidates("/abs/x.playlist", &search),
        vec!["/abs/x.playlist", "/abs/x.playlist", "/abs/x.playlist.playlist"]
    );
    assert_eq!(playlist_candidates("a", &String::from("dir/"))[1], "dir/a");
    assert_eq!(playlist_candidates("a", &String::new())[2], "a.playlist");
}
