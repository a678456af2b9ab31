//! Track navigation over directory listings.

use mpv_bridge::navigator::{resolve_adjacent, sort_paths};
use mpv_bridge::request::property_query;

fn listing(names: &[&str]) -> Vec<String> {
    names.iter().map(|n| n.to_string()).collect()
}

#[test]
fn next_and_prev_in_the_middle() {
    let files = listing(&["a.mkv", "b.mkv", "c.mkv"]);
    assert_eq!(resolve_adjacent(&files, "b.mkv", true), Some(String::from("c.mkv")));
    assert_eq!(resolve_adjacent(&files, "b.mkv", false), Some(String::from("a.mkv")));
}

#[test]
fn no_wraparound_at_the_ends() {
    let files = listing(&["a.mkv", "b.mkv", "c.mkv"]);
    assert_eq!(resolve_adjacent(&files, "c.mkv", true), None);
    assert_eq!(resolve_adjacent(&files, "a.mkv", false), None);
}

#[test]
fn resolution_sorts_the_listing_first() {
    let files = listing(&["c.mkv", "a.mkv", "b.mkv"]);
    assert_eq!(resolve_adjacent(&files, "b.mkv", true), Some(String::from("c.mkv")));
    assert_eq!(resolve_adjacent(&files, "b.mkv", false), Some(String::from("a.mkv")));
}

#[test]
fn unknown_current_file_resolves_to_nothing() {
    let files = listing(&["a.mkv", "b.mkv"]);
    assert_eq!(resolve_adjacent(&files, "z.mkv", true), None);
    assert_eq!(resolve_adjacent(&files, "z.mkv", false), None);
    let empty = listing(&[]);
    assert_eq!(resolve_adjacent(&empty, "a.mkv", true), None);
}

#[test]
fn string_order_not_natural_order() {
    // Plain string order places "track10" before "track2", so the file
    // after "track10.mp4" is "track2.mp4" — and nothing precedes it, as
    // a natural (numeric) order would have it.
    let files = listing(&["track10.mp4", "track2.mp4"]);
    assert_eq!(
        resolve_adjacent(&files, "track10.mp4", true),
        Some(String::from("track2.mp4"))
    );
    assert_eq!(resolve_adjacent(&files, "track10.mp4", false), None);
    assert_eq!(resolve_adjacent(&files, "track2.mp4", true), None);
    assert_eq!(
        resolve_adjacent(&files, "track2.mp4", false),
        Some(String::from("track10.mp4"))
    );
}

#[test]
fn sorting_is_lexicographic_and_keeps_every_entry() {
    let files = listing(&["track2.mp4", "track10.mp4", "a.mkv", "a.mkv"]);
    let sorted = sort_paths(&files);
    assert_eq!(sorted, listing(&["a.mkv", "a.mkv", "track10.mp4", "track2.mp4"]));
}

#[test]
fn full_paths_decide_the_order() {
    let files = listing(&["/m/x/10.mkv", "/m/x/2.mkv", "/m/x/1.mkv"]);
    assert_eq!(resolve_adjacent(&files, "/m/x/1.mkv", true), Some(String::from("/m/x/10.mkv")));
    assert_eq!(resolve_adjacent(&files, "/m/x/10.mkv", true), Some(String::from("/m/x/2.mkv")));
}

#[test]
fn property_queries_have_the_documented_shape() {
    assert_eq!(property_query("pause"), "{\"command\":[\"get_property\",\"pause\"]}");
    assert_eq!(property_query("volume"), "{\"command\":[\"get_property\",\"volume\"]}");
    assert_eq!(property_query("path"), "{\"command\":[\"get_property\",\"path\"]}");
}
