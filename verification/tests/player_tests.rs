use falling_notes::config::PlaybackConfig;
use falling_notes::note::{check_unique_ids, check_well_timed, song_bounds, Note, MAX_NOTE_END_US};
use falling_notes::output::{OutputEvent, OutputSink};
use falling_notes::player::Player;
use falling_notes::rewind::RewindController;
use falling_notes::timer::MAX_ELAPSED_US;

const SECOND: u64 = 1_000_000;

fn note(id: usize, start: u64, duration: u64, number: u8, channel: u8) -> Note {
    Note { id, start, duration, channel, number, velocity: 100, track_id: id + 10 }
}

fn on(channel: u8, note: u8) -> OutputEvent {
    OutputEvent::NoteOn { channel, note, velocity: 100 }
}

fn off(channel: u8, note: u8) -> OutputEvent {
    OutputEvent::NoteOff { channel, note }
}

fn no_keys_lit() -> [(bool, usize); 88] {
    [(false, 0); 88]
}

fn two_notes() -> Vec<Note> {
    vec![note(1, 0, SECOND, 60, 0), note(2, 0, SECOND, 64, 0)]
}

fn count(events: &[OutputEvent], wanted: OutputEvent) -> usize {
    events.iter().filter(|e| **e == wanted).count()
}

#[test]
fn unique_ids_are_checked() {
    assert!(check_unique_ids(&two_notes()));
    assert!(check_unique_ids(&Vec::new()));
    assert!(!check_unique_ids(&vec![note(4, 0, 1, 60, 0), note(5, 0, 1, 61, 0), note(4, 9, 1, 62, 0)]));
}

#[test]
fn well_timed_notes_are_checked() {
    assert!(check_well_timed(&two_notes()));
    assert!(check_well_timed(&vec![note(1, MAX_NOTE_END_US - 5, 5, 60, 0)]));
    assert!(!check_well_timed(&vec![note(1, MAX_NOTE_END_US - 5, 6, 60, 0)]));
    assert!(!check_well_timed(&vec![note(1, u64::MAX, u64::MAX, 60, 0)]));
}

#[test]
fn song_bounds_are_earliest_start_and_latest_end() {
    let notes = vec![
        note(1, 5 * SECOND, SECOND, 60, 0),
        note(2, SECOND, 10 * SECOND, 61, 0),
        note(3, 3 * SECOND, SECOND, 62, 0),
    ];
    assert_eq!(song_bounds(&notes), (SECOND, 11 * SECOND));
    assert_eq!(song_bounds(&Vec::new()), (0, 0));
}

#[test]
fn new_player_waits_one_lead_in_before_the_first_note() {
    let config = PlaybackConfig::new(false);
    let notes = vec![note(1, 5 * SECOND, SECOND, 60, 0), note(2, 2 * SECOND, SECOND, 61, 0)];
    let player = Player::new(notes, &config, false);
    assert_eq!(player.first_note_start(), 2 * SECOND);
    assert_eq!(player.last_note_end(), 6 * SECOND);
    assert_eq!(player.time_us(), -1_000_000);
    assert_eq!(player.percentage_ppm(), 0);
    assert_eq!(player.elapsed_us(), 0);
    assert_eq!(player.active_count(), 0);
    assert!(!player.is_paused());
    assert!(!player.is_rewinding());
    assert!(!player.is_gated());
    assert!(!player.is_finished());
}

#[test]
fn empty_song_has_zero_bounds() {
    let config = PlaybackConfig::new(false);
    let mut player = Player::new(Vec::new(), &config, false);
    assert_eq!(player.first_note_start(), 0);
    assert_eq!(player.last_note_end(), 0);
    assert_eq!(player.time_us(), -3_000_000);
    let mut sink = OutputSink::new();
    let frame = player.update(&config, 3 * SECOND, &mut sink);
    assert_eq!(frame, no_keys_lit());
    assert!(sink.events.is_empty());
    assert_eq!(player.percentage_ppm(), 1_000_000);
    assert!(player.is_finished());
}

#[test]
fn song_with_a_note_that_ends_too_late_plays_as_empty() {
    let config = PlaybackConfig::new(false);
    let notes = vec![note(1, 0, SECOND, 60, 0), note(2, MAX_NOTE_END_US, 1, 61, 0)];
    let mut player = Player::new(notes, &config, false);
    assert_eq!(player.first_note_start(), 0);
    assert_eq!(player.last_note_end(), 0);
    let mut sink = OutputSink::new();
    player.update(&config, 3 * SECOND, &mut sink);
    assert!(sink.events.is_empty());
    assert_eq!(player.active_count(), 0);
}

#[test]
fn gate_is_engaged_only_when_asked_for_and_available() {
    let notes = two_notes();
    assert!(Player::new(notes.clone(), &PlaybackConfig::new(true), true).is_gated());
    assert!(!Player::new(notes.clone(), &PlaybackConfig::new(true), false).is_gated());
    assert!(!Player::new(notes.clone(), &PlaybackConfig::new(false), true).is_gated());
}

#[test]
fn two_notes_are_struck_at_their_start_and_released_once() {
    let config = PlaybackConfig::new(false);
    let mut player = Player::new(two_notes(), &config, false);
    let mut sink = OutputSink::new();
    player.set_time(3 * SECOND, &mut sink);
    assert!(sink.events.is_empty());

    player.update(&config, 0, &mut sink);
    assert_eq!(player.time_us(), 0);
    assert_eq!(sink.events, vec![on(0, 60), on(0, 64)]);
    assert!(player.is_active(1));
    assert!(player.is_active(2));

    player.update(&config, 1_600_000, &mut sink);
    assert_eq!(player.time_us(), 1_600_000);
    assert_eq!(sink.events, vec![on(0, 60), on(0, 64), off(0, 60), off(0, 64)]);
    assert_eq!(player.active_count(), 0);

    player.update(&config, 100_000, &mut sink);
    assert_eq!(sink.events.len(), 4);
}

#[test]
fn seek_between_the_two_frames_releases_once_as_well() {
    let config = PlaybackConfig::new(false);
    let mut player = Player::new(two_notes(), &config, false);
    let mut sink = OutputSink::new();
    player.set_time(3 * SECOND, &mut sink);
    player.update(&config, 0, &mut sink);
    player.set_time(4_600_000, &mut sink);
    player.update(&config, 0, &mut sink);
    assert_eq!(player.time_us(), 1_600_000);
    assert_eq!(sink.events, vec![on(0, 60), on(0, 64), off(0, 60), off(0, 64)]);
    assert_eq!(player.active_count(), 0);
}

#[test]
fn every_note_fires_once_across_a_full_playthrough() {
    let config = PlaybackConfig::new(false);
    let notes = vec![
        note(1, 0, SECOND, 60, 0),
        note(2, 500_000, 40_000, 64, 1),
        note(3, 2 * SECOND, 3 * SECOND, 67, 2),
        note(4, 2 * SECOND, SECOND, 30, 9),
    ];
    let mut player = Player::new(notes, &config, false);
    player.start();
    let mut sink = OutputSink::new();
    let mut frames = 0;
    while !player.is_finished() {
        player.update(&config, 16_667, &mut sink);
        frames += 1;
        assert!(frames < 1_000);
    }
    for (channel, number) in [(0, 60), (1, 64), (2, 67), (9, 30)] {
        assert_eq!(count(&sink.events, on(channel, number)), 1);
        assert_eq!(count(&sink.events, off(channel, number)), 1);
    }
    assert_eq!(sink.events.len(), 8);
    assert_eq!(player.active_count(), 0);
}

#[test]
fn note_on_comes_with_the_first_frame_in_the_note() {
    let config = PlaybackConfig::new(false);
    let mut player = Player::new(vec![note(7, SECOND, SECOND, 60, 0)], &config, false);
    let mut sink = OutputSink::new();
    player.update(&config, 2_999_999, &mut sink);
    assert_eq!(player.time_us(), 999_999);
    assert!(sink.events.is_empty());
    player.update(&config, 1, &mut sink);
    assert_eq!(sink.events, vec![on(0, 60)]);
    player.update(&config, SECOND, &mut sink);
    assert_eq!(player.time_us(), 2 * SECOND as i64);
    assert_eq!(sink.events, vec![on(0, 60)]);
    player.update(&config, 1, &mut sink);
    assert_eq!(sink.events, vec![on(0, 60), off(0, 60)]);
    assert!(!player.is_active(7));
}

#[test]
fn note_first_met_in_its_grace_period_stays_silent() {
    let config = PlaybackConfig::new(false);
    let mut player = Player::new(vec![note(7, SECOND, SECOND, 60, 0)], &config, false);
    let mut sink = OutputSink::new();
    let frame = player.update(&config, 4_200_000, &mut sink);
    assert_eq!(player.time_us(), 2_200_000);
    assert!(sink.events.is_empty());
    assert_eq!(frame[24], (true, 17));
}

#[test]
fn clear_is_idempotent() {
    let config = PlaybackConfig::new(false);
    let mut player = Player::new(two_notes(), &config, false);
    let mut sink = OutputSink::new();
    player.update(&config, 3 * SECOND, &mut sink);
    assert_eq!(player.active_count(), 2);
    let mut cleared = OutputSink::new();
    player.clear(&mut cleared);
    assert_eq!(cleared.events, vec![off(0, 60), off(0, 64)]);
    assert_eq!(player.active_count(), 0);
    player.clear(&mut cleared);
    assert_eq!(cleared.events.len(), 2);
}

#[test]
fn pause_resume_silences_and_toggles() {
    let config = PlaybackConfig::new(false);
    let mut player = Player::new(two_notes(), &config, false);
    let mut sink = OutputSink::new();
    player.update(&config, 3 * SECOND, &mut sink);
    let mut after = OutputSink::new();
    player.pause_resume(&mut after);
    assert!(player.is_paused());
    assert_eq!(after.events, vec![off(0, 60), off(0, 64)]);
    let frame = player.update(&config, SECOND, &mut after);
    assert_eq!(frame, no_keys_lit());
    assert_eq!(after.events.len(), 2);
    assert_eq!(player.elapsed_us(), 3 * SECOND);
    player.pause_resume(&mut after);
    assert!(!player.is_paused());
    player.update(&config, 0, &mut after);
    assert_eq!(after.events, vec![off(0, 60), off(0, 64), on(0, 60), on(0, 64)]);
}

#[test]
fn seek_to_a_progress_is_read_back() {
    let config = PlaybackConfig::new(false);
    let mut player = Player::new(vec![note(1, SECOND, 6 * SECOND, 60, 0)], &config, false);
    let mut sink = OutputSink::new();
    player.update(&config, 5 * SECOND, &mut sink);
    assert_eq!(player.active_count(), 1);
    player.pause_resume(&mut sink);
    player.set_percentage_time(&config, 250_000, &mut sink);
    assert_eq!(player.elapsed_us(), 2_500_000);
    assert_eq!(player.active_count(), 0);
    player.update(&config, 0, &mut sink);
    assert_eq!(player.percentage_ppm(), 250_000);
    assert_eq!(player.active_count(), 0);
}

#[test]
fn seek_to_a_progress_rounds_down_by_at_most_one() {
    let mut config = PlaybackConfig::new(false);
    assert!(config.set_speed_permille(1_500));
    let mut player = Player::new(vec![note(1, SECOND, 6 * SECOND, 60, 0)], &config, false);
    let mut sink = OutputSink::new();
    player.set_percentage_time(&config, 250_000, &mut sink);
    assert_eq!(player.elapsed_us(), 1_666_666);
    player.update(&config, 0, &mut sink);
    assert_eq!(player.percentage_ppm(), 249_999);
}

#[test]
fn seek_before_the_beginning_goes_to_zero() {
    let config = PlaybackConfig::new(false);
    let mut player = Player::new(two_notes(), &config, false);
    let mut sink = OutputSink::new();
    player.update(&config, SECOND, &mut sink);
    player.set_percentage_time(&config, -40, &mut sink);
    assert_eq!(player.elapsed_us(), 0);
}

#[test]
fn seek_far_beyond_the_end_stops_at_the_ceiling() {
    let config = PlaybackConfig::new(false);
    let mut player = Player::new(two_notes(), &config, false);
    let mut sink = OutputSink::new();
    player.set_percentage_time(&config, i64::MAX, &mut sink);
    assert_eq!(player.elapsed_us(), MAX_ELAPSED_US);
    player.set_time(u64::MAX, &mut sink);
    assert_eq!(player.elapsed_us(), MAX_ELAPSED_US);
}

#[test]
fn song_time_after_a_seek_is_exact() {
    let mut config = PlaybackConfig::new(false);
    assert!(config.set_speed_permille(1_500));
    let mut player = Player::new(vec![note(1, 2 * SECOND, SECOND, 60, 0)], &config, false);
    let mut sink = OutputSink::new();
    player.set_time(4 * SECOND, &mut sink);
    player.update(&config, 0, &mut sink);
    assert_eq!(player.time_us(), 5_000_000);
    assert_eq!(player.percentage_ppm(), 1_000_000);
    player.set_time(1_234_567, &mut sink);
    player.update(&config, 0, &mut sink);
    assert_eq!(player.time_us(), 1_851_850 + 2_000_000 - 3_000_000);
}

#[test]
fn progress_is_played_time_over_song_length() {
    let config = PlaybackConfig::new(false);
    let mut player = Player::new(vec![note(1, SECOND, 6 * SECOND, 60, 0)], &config, false);
    let mut sink = OutputSink::new();
    player.update(&config, 1_234_567, &mut sink);
    assert_eq!(player.percentage_ppm(), 123_456);
    assert_eq!(player.time_us(), 1_234_567 + 1_000_000 - 3_000_000);
}

#[test]
fn rewind_through_the_player_restores_the_pause_state() {
    let config = PlaybackConfig::new(false);
    let mut player = Player::new(two_notes(), &config, false);
    let was_paused = player.is_paused();
    player.start_rewind(RewindController::Mouse { was_paused });
    assert!(player.is_paused());
    assert!(player.is_rewinding());
    player.stop_rewind();
    assert!(!player.is_paused());
    assert!(!player.is_rewinding());

    let mut sink = OutputSink::new();
    player.pause_resume(&mut sink);
    let was_paused = player.is_paused();
    player.start_rewind(RewindController::Keyboard { speed: -100, was_paused });
    player.stop_rewind();
    assert!(player.is_paused());
    player.stop_rewind();
    assert!(player.is_paused());
}

#[test]
fn keyboard_scrub_moves_the_position_every_frame() {
    let config = PlaybackConfig::new(false);
    let mut player = Player::new(vec![note(1, SECOND, 6 * SECOND, 60, 0)], &config, false);
    let mut sink = OutputSink::new();
    player.update(&config, 5 * SECOND, &mut sink);
    assert_eq!(player.percentage_ppm(), 500_000);
    assert_eq!(sink.events, vec![on(0, 60)]);
    player.start_rewind(RewindController::Keyboard { speed: -5_000, was_paused: false });
    player.update(&config, 16_667, &mut sink);
    assert_eq!(player.elapsed_us(), 4_950_000);
    assert_eq!(player.percentage_ppm(), 495_000);
    assert_eq!(sink.events, vec![on(0, 60), off(0, 60)]);
    player.update(&config, 16_667, &mut sink);
    assert_eq!(player.percentage_ppm(), 490_000);
    assert_eq!(sink.events.len(), 2);
    player.stop_rewind();
    player.update(&config, 0, &mut sink);
    assert_eq!(sink.events, vec![on(0, 60), off(0, 60), on(0, 60)]);
}

#[test]
fn keys_light_up_for_playable_notes_in_their_window() {
    let config = PlaybackConfig::new(false);
    let notes = vec![note(1, 0, SECOND, 36, 0), note(2, 0, SECOND, 105, 3)];
    let mut player = Player::new(notes, &config, false);
    let mut sink = OutputSink::new();
    let frame = player.update(&config, 3 * SECOND, &mut sink);
    let mut expected = no_keys_lit();
    expected[0] = (true, 11);
    expected[69] = (true, 12);
    assert_eq!(frame, expected);
    let frame = player.update(&config, 1_499_999, &mut sink);
    assert_eq!(frame, expected);
    let frame = player.update(&config, 1, &mut sink);
    assert_eq!(frame, no_keys_lit());
}

#[test]
fn notes_out_of_range_or_on_percussion_never_light_a_key() {
    let config = PlaybackConfig::new(false);
    let notes = vec![
        note(1, 0, SECOND, 35, 0),
        note(2, 0, SECOND, 106, 0),
        note(3, 0, SECOND, 60, 8),
        note(4, 0, SECOND, 61, 9),
        note(5, 0, SECOND, 127, 0),
        note(6, 0, SECOND, 0, 0),
    ];
    let mut player = Player::new(notes, &config, false);
    let mut sink = OutputSink::new();
    let frame = player.update(&config, 3 * SECOND, &mut sink);
    assert_eq!(frame, no_keys_lit());
    assert_eq!(sink.events.len(), 6);
    assert_eq!(sink.events[2], on(8, 60));
}

#[test]
fn the_last_of_several_notes_on_one_key_shows() {
    let config = PlaybackConfig::new(false);
    let notes = vec![note(1, 0, SECOND, 60, 0), note(2, 0, SECOND, 60, 1), note(3, 0, SECOND, 62, 0)];
    let mut player = Player::new(notes, &config, false);
    let mut sink = OutputSink::new();
    let frame = player.update(&config, 3 * SECOND, &mut sink);
    assert_eq!(frame[24], (true, 12));
    assert_eq!(frame[26], (true, 13));
}

#[test]
fn gated_player_waits_for_the_chord() {
    let config = PlaybackConfig::new(true);
    let mut player = Player::new(two_notes(), &config, true);
    let mut sink = OutputSink::new();
    player.update(&config, 3 * SECOND, &mut sink);
    assert!(sink.events.is_empty());
    assert!(player.is_paused());
    assert_eq!(player.active_count(), 2);

    player.update(&config, SECOND, &mut sink);
    assert_eq!(player.elapsed_us(), 3 * SECOND);
    assert!(player.is_paused());

    player.deliver_input(&[144, 64, 77]);
    player.update(&config, 16_667, &mut sink);
    assert!(player.is_paused());
    assert_eq!(sink.events, vec![OutputEvent::NoteOn { channel: 0, note: 64, velocity: 77 }]);

    player.deliver_input(&[144, 60, 78]);
    let frame = player.update(&config, 16_667, &mut sink);
    assert!(!player.is_paused());
    assert_eq!(player.elapsed_us(), 3 * SECOND);
    assert_eq!(frame[28], (true, 12));
    assert_eq!(frame[24], (true, 11));
    assert_eq!(sink.events.len(), 2);

    player.update(&config, 16_667, &mut sink);
    assert_eq!(player.elapsed_us(), 3 * SECOND + 16_667);
    assert_eq!(sink.events.len(), 2);
}

#[test]
fn gated_player_never_requires_notes_without_a_key() {
    let config = PlaybackConfig::new(true);
    let notes = vec![note(1, 0, SECOND, 35, 0), note(2, 0, SECOND, 60, 9), note(3, 0, SECOND, 106, 0)];
    let mut player = Player::new(notes, &config, true);
    let mut sink = OutputSink::new();
    let frame = player.update(&config, 3 * SECOND, &mut sink);
    assert!(!player.is_paused());
    assert_eq!(frame, no_keys_lit());
    assert!(sink.events.is_empty());
    player.deliver_input(&[144, 50, 70]);
    player.update(&config, 0, &mut sink);
    assert_eq!(
        sink.events,
        vec![OutputEvent::NoteOn { channel: 0, note: 50, velocity: 70 }, on(0, 106)]
    );
}

#[test]
fn seek_escapes_the_wait_for_a_chord() {
    let config = PlaybackConfig::new(true);
    let mut player = Player::new(two_notes(), &config, true);
    let mut sink = OutputSink::new();
    player.update(&config, 3 * SECOND, &mut sink);
    assert!(player.is_paused());
    player.set_time(5 * SECOND, &mut sink);
    assert_eq!(sink.events, vec![off(0, 60), off(0, 64)]);
    assert_eq!(player.active_count(), 0);
    player.update(&config, 0, &mut sink);
    assert!(!player.is_paused());
    assert_eq!(player.time_us(), 2 * SECOND as i64);
}

#[test]
fn input_without_a_gate_is_dropped() {
    let config = PlaybackConfig::new(false);
    let mut player = Player::new(two_notes(), &config, false);
    let mut sink = OutputSink::new();
    player.deliver_input(&[144, 60, 70]);
    player.update(&config, 0, &mut sink);
    assert!(sink.events.is_empty());
}

#[test]
fn sink_hands_out_events_and_empties() {
    let mut sink = OutputSink::new();
    sink.note_on(1, 2, 3);
    sink.note_off(4, 5);
    let events = sink.take();
    assert_eq!(
        events,
        vec![
            OutputEvent::NoteOn { channel: 1, note: 2, velocity: 3 },
            OutputEvent::NoteOff { channel: 4, note: 5 },
        ]
    );
    assert!(sink.events.is_empty());
}
