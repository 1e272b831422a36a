use chs_deck::ring::{lex_less, profile_names, ring_neighbours};
use chs_deck::text::to_chars;

fn strings(v: &[&str]) -> Vec<String> {
    v.iter().map(|s| s.to_string()).collect()
}

#[test]
fn profile_names_are_sorted_stems() {
    let files = strings(&["work.toml", "README.md", "cinematic.toml", "weather.toml", ".toml", "x.toml.bak"]);
    assert_eq!(profile_names(&files), strings(&["", "cinematic", "weather", "work"]));
    assert_eq!(profile_names(&vec![]), Vec::<String>::new());
}

#[test]
fn order_is_the_order_of_strings() {
    let mut names = strings(&["b", "a", "ab", "B", "é", "z", "aa", ""]);
    let files: Vec<String> = names.iter().map(|n| format!("{n}.toml")).collect();
    names.sort();
    assert_eq!(profile_names(&files), names);
    for (a, b) in [("a", "b"), ("a", "ab"), ("", "a"), ("Z", "a"), ("z", "é"), ("b", "a"), ("a", "a")] {
        assert_eq!(lex_less(&to_chars(a), &to_chars(b)), a < b, "{a} < {b}");
    }
}

#[test]
fn ring_wraps_around() {
    let all = strings(&["cinematic", "weather", "work"]);
    assert_eq!(ring_neighbours(&all, "work"), (1, 0));
    assert_eq!(ring_neighbours(&all, "cinematic"), (2, 1));
    assert_eq!(ring_neighbours(&all, "weather"), (0, 2));
    assert_eq!(ring_neighbours(&all, "missing"), (2, 1));
    assert_eq!(ring_neighbours(&strings(&["only"]), "only"), (0, 0));
}

#[test]
fn arrows_are_inverse() {
    let all = strings(&["a", "b", "c", "d"]);
    for name in &all {
        let (prev, next) = ring_neighbours(&all, name);
        assert_eq!(&all[ring_neighbours(&all, &all[next]).0], name);
        assert_eq!(&all[ring_neighbours(&all, &all[prev]).1], name);
    }
}

#[test]
fn next_arrow_visits_every_profile() {
    let all = strings(&["cinematic", "weather", "work", "zen", "alpha"]);
    for start in 0..all.len() {
        let mut seen = vec![false; all.len()];
        let mut pos = start;
        for _ in 0..all.len() {
            seen[pos] = true;
            pos = ring_neighbours(&all, &all[pos]).1;
        }
        assert_eq!(pos, start);
        assert!(seen.iter().all(|s| *s));
    }
}
