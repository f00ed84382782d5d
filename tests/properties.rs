use lxwengd::props::{combine, Properties};

fn props(pairs: &[(&str, &str)]) -> Properties {
    let mut p = Properties::new();
    for (k, v) in pairs {
        p.insert(String::from(*k), String::from(*v));
    }
    p
}

fn sample() -> (Properties, Properties, Properties) {
    let mut base = Properties::new();
    base.insert(String::from("unknown"), String::from("unknown"));
    base.insert(String::from("known"), String::from("still unknown"));
    base.insert(String::from("xixi"), String::from("noxixi"));

    let mut overrides = Properties::new();
    overrides.insert(String::from("unknown"), String::from("got it!"));
    overrides.insert(String::from("known"), String::from("umm"));
    overrides.insert(String::from("woo"), String::from("hoo"));

    let mut expected = Properties::new();
    expected.insert(String::from("unknown"), String::from("got it!"));
    expected.insert(String::from("known"), String::from("umm"));
    expected.insert(String::from("xixi"), String::from("noxixi"));
    expected.insert(String::from("woo"), String::from("hoo"));
    (base, overrides, expected)
}

#[test]
fn linux_wallpaperengine_combine_properties() {
    let (base, overrides, expected) = sample();
    assert_eq!(combine(&base, &overrides), expected);
}

#[test]
fn subprocess_combine_properties() {
    let (base, overrides, expected) = sample();
    assert_eq!(combine(&base, &overrides), expected);
}

#[test]
fn intersect_properties() {
    let (base, overrides, expected) = sample();
    assert_eq!(combine(&base, &overrides), expected);
}

#[test]
fn insert_overrides_and_keeps_one_entry() {
    let mut p = props(&[("a", "1"), ("b", "2")]);
    p.insert(String::from("a"), String::from("3"));
    assert_eq!(p.len(), 2);
    assert_eq!(p.get(&String::from("a")), Some(String::from("3")));
    assert_eq!(p.get(&String::from("b")), Some(String::from("2")));
    assert_eq!(p.get(&String::from("c")), None);
}

#[test]
fn equality_ignores_order() {
    assert_eq!(props(&[("a", "1"), ("b", "2")]), props(&[("b", "2"), ("a", "1")]));
    assert_ne!(props(&[("a", "1")]), props(&[("a", "2")]));
    assert_ne!(props(&[("a", "1")]), props(&[("a", "1"), ("b", "2")]));
    assert_eq!(Properties::new(), Properties::new());
}

#[test]
fn combine_with_empty_sides() {
    let p = props(&[("fps", "30")]);
    assert_eq!(combine(&Properties::new(), &p), p);
    assert_eq!(combine(&p, &Properties::new()), p);
    assert_eq!(p.duplicate(), p);
}
