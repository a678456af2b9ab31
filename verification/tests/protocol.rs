//! Command recognition, request payloads, response parsing, and the
//! state cache.

use mpv_bridge::command::{nav_direction, parse_command, PlayerCommand};
use mpv_bridge::request::{escape_json, failure_message, translate, NavigationFailure};
use mpv_bridge::response::{current_track, parse_response};
use mpv_bridge::state::{status_line, MediaState};

#[test]
fn recognizes_every_command_name() {
    assert_eq!(parse_command("play"), Some(PlayerCommand::Play));
    assert_eq!(parse_command("pause"), Some(PlayerCommand::Pause));
    assert_eq!(parse_command("stop"), Some(PlayerCommand::Stop));
    assert_eq!(parse_command("volume_up"), Some(PlayerCommand::VolumeUp));
    assert_eq!(parse_command("volume_down"), Some(PlayerCommand::VolumeDown));
    assert_eq!(parse_command("seek_forward"), Some(PlayerCommand::SeekForward));
    assert_eq!(parse_command("seek_backward"), Some(PlayerCommand::SeekBackward));
    assert_eq!(parse_command("next_track"), Some(PlayerCommand::NextTrack));
    assert_eq!(parse_command("prev_track"), Some(PlayerCommand::PrevTrack));
}

#[test]
fn rejects_unrecognized_command_names() {
    assert_eq!(parse_command("bogus"), None);
    assert_eq!(parse_command(""), None);
    assert_eq!(parse_command("Play"), None);
    assert_eq!(parse_command("play "), None);
    assert_eq!(parse_command("volume-up"), None);
}

#[test]
fn fixed_commands_map_to_exact_payloads() {
    assert_eq!(
        translate(&PlayerCommand::Play, None).unwrap(),
        "{\"command\":[\"set_property\",\"pause\",false]}"
    );
    assert_eq!(
        translate(&PlayerCommand::Pause, None).unwrap(),
        "{\"command\":[\"set_property\",\"pause\",true]}"
    );
    assert_eq!(translate(&PlayerCommand::Stop, None).unwrap(), "{\"command\":[\"quit\"]}");
    assert_eq!(
        translate(&PlayerCommand::VolumeUp, None).unwrap(),
        "{\"command\":[\"add\",\"volume\",5]}"
    );
    assert_eq!(
        translate(&PlayerCommand::VolumeDown, None).unwrap(),
        "{\"command\":[\"add\",\"volume\",-5]}"
    );
    assert_eq!(
        translate(&PlayerCommand::SeekForward, None).unwrap(),
        "{\"command\":[\"seek\",10,\"relative\"]}"
    );
    assert_eq!(
        translate(&PlayerCommand::SeekBackward, None).unwrap(),
        "{\"command\":[\"seek\",-10,\"relative\"]}"
    );
}

#[test]
fn track_commands_embed_the_resolved_file() {
    let file = String::from("/videos/b.mkv");
    assert_eq!(
        translate(&PlayerCommand::NextTrack, Some(&file)).unwrap(),
        "{\"command\":[\"loadfile\",\"/videos/b.mkv\"]}"
    );
    assert_eq!(
        translate(&PlayerCommand::PrevTrack, Some(&file)).unwrap(),
        "{\"command\":[\"loadfile\",\"/videos/b.mkv\"]}"
    );
}

#[test]
fn track_commands_fail_without_an_adjacent_file() {
    assert_eq!(
        translate(&PlayerCommand::NextTrack, None),
        Err(NavigationFailure::NoNextFile)
    );
    assert_eq!(
        translate(&PlayerCommand::PrevTrack, None),
        Err(NavigationFailure::NoPrevFile)
    );
    assert_eq!(failure_message(&NavigationFailure::NoNextFile), "No next file found");
    assert_eq!(failure_message(&NavigationFailure::NoPrevFile), "No previous file found");
}

#[test]
fn loadfile_paths_are_escaped() {
    let tricky = String::from("/v/a\"b\\c.mkv");
    assert_eq!(
        translate(&PlayerCommand::NextTrack, Some(&tricky)).unwrap(),
        "{\"command\":[\"loadfile\",\"/v/a\\\"b\\\\c.mkv\"]}"
    );
}

#[test]
fn escaping_covers_control_characters() {
    assert_eq!(escape_json("plain"), "plain");
    assert_eq!(escape_json("a\"b"), "a\\\"b");
    assert_eq!(escape_json("a\\b"), "a\\\\b");
    assert_eq!(escape_json("a\tb\nc\rd"), "a\\tb\\nc\\rd");
    assert_eq!(escape_json("\u{8}\u{c}"), "\\b\\f");
    assert_eq!(escape_json("\u{1}\u{1f}"), "\\u0001\\u001f");
    assert_eq!(escape_json("déjà"), "déjà");
}

#[test]
fn malformed_response_becomes_the_error_object() {
    assert_eq!(parse_response("not json"), "{\"error\":\"Invalid response from MPV\"}");
    assert_eq!(parse_response(""), "{\"error\":\"Invalid response from MPV\"}");
    assert_eq!(parse_response("{\"data\":"), "{\"error\":\"Invalid response from MPV\"}");
    // Deterministic: the same line gives the same value again.
    assert_eq!(parse_response("not json"), "{\"error\":\"Invalid response from MPV\"}");
}

#[test]
fn well_formed_response_passes_through() {
    assert_eq!(parse_response("{\"data\":true}"), "{\"data\":true}");
    assert_eq!(
        parse_response("{\"error\":\"property unavailable\"}"),
        "{\"error\":\"property unavailable\"}"
    );
    assert_eq!(parse_response("{\"data\":50.0,\"error\":\"success\"}"),
        "{\"data\":50.0,\"error\":\"success\"}");
}

#[test]
fn any_well_formed_document_passes_through() {
    assert_eq!(parse_response("[1,2]"), "[1,2]");
    assert_eq!(parse_response("null"), "null");
    assert_eq!(parse_response("\"ok\""), "\"ok\"");
}

#[test]
fn current_track_reads_the_data_string() {
    assert_eq!(
        current_track("{\"data\":\"/videos/b.mkv\"}"),
        Some(String::from("/videos/b.mkv"))
    );
    assert_eq!(current_track("{\"data\":true}"), None);
    assert_eq!(current_track("{\"data\":42}"), None);
    assert_eq!(current_track("{\"error\":\"no path\"}"), None);
    assert_eq!(current_track("garbage"), None);
}

#[test]
fn new_state_has_the_documented_defaults() {
    let s = MediaState::new();
    assert_eq!(s.paused, true);
    assert_eq!(s.volume, 50);
}

#[test]
fn refresh_updates_fields_independently() {
    // The volume query failed but the pause query succeeded: the paused
    // field updates and the volume keeps its prior value.
    let mut s = MediaState { paused: true, volume: 70 };
    let pause_line = String::from("{\"data\":false}");
    s.refresh(Some(&pause_line), None);
    assert_eq!(s.paused, false);
    assert_eq!(s.volume, 70);

    // The pause query failed but the volume query succeeded.
    let mut s = MediaState { paused: false, volume: 70 };
    s.refresh(None, Some(35));
    assert_eq!(s.paused, false);
    assert_eq!(s.volume, 35);

    // Both failed: nothing moves, nothing resets to defaults.
    let mut s = MediaState { paused: false, volume: 70 };
    s.refresh(None, None);
    assert_eq!(s.paused, false);
    assert_eq!(s.volume, 70);
}

#[test]
fn refresh_ignores_a_pause_line_without_a_boolean() {
    let mut s = MediaState { paused: true, volume: 50 };
    let bad = String::from("{\"error\":\"property unavailable\"}");
    s.refresh(Some(&bad), Some(60));
    assert_eq!(s.paused, true);
    assert_eq!(s.volume, 60);

    let mut s = MediaState { paused: true, volume: 50 };
    let junk = String::from("junk");
    s.refresh(Some(&junk), None);
    assert_eq!(s.paused, true);
    assert_eq!(s.volume, 50);

    // A data member of the wrong type is not a boolean observation.
    let mut s = MediaState { paused: true, volume: 50 };
    let wrong_type = String::from("{\"data\":1}");
    s.refresh(Some(&wrong_type), None);
    assert_eq!(s.paused, true);
}

#[test]
fn status_line_formats_both_states() {
    assert_eq!(status_line(true, 50), "Video Status = Paused : Volume = 50");
    assert_eq!(status_line(false, 70), "Video Status = Playing : Volume = 70");
    assert_eq!(status_line(false, 0), "Video Status = Playing : Volume = 0");
    assert_eq!(status_line(true, -5), "Video Status = Paused : Volume = -5");
    assert_eq!(status_line(true, 2147483647), "Video Status = Paused : Volume = 2147483647");
    assert_eq!(status_line(true, -2147483648), "Video Status = Paused : Volume = -2147483648");
}

#[test]
fn nav_direction_marks_only_track_commands() {
    assert_eq!(nav_direction(&PlayerCommand::NextTrack), Some(true));
    assert_eq!(nav_direction(&PlayerCommand::PrevTrack), Some(false));
    assert_eq!(nav_direction(&PlayerCommand::Play), None);
    assert_eq!(nav_direction(&PlayerCommand::Stop), None);
}
