use falling_notes::config::PlaybackConfig;
use falling_notes::note::Note;
use falling_notes::output::{OutputEvent, OutputSink};
use falling_notes::rewind::RewindController;
use falling_notes::scene::{
    round_to_unit, KeyCode, KeyInput, PlayingScene, Pointer, SceneEvent, Toast, ToastKind,
};

const SECOND: u64 = 1_000_000;

fn scene_song() -> Vec<Note> {
    vec![Note { id: 1, start: SECOND, duration: 6 * SECOND, channel: 0, number: 60, velocity: 100, track_id: 3 }]
}

fn scene() -> (PlayingScene, PlaybackConfig, OutputSink) {
    let config = PlaybackConfig::new(false);
    (PlayingScene::new(scene_song(), &config, false), config, OutputSink::new())
}

fn released(key: KeyCode, shift: bool) -> KeyInput {
    KeyInput { key, pressed: false, shift }
}

fn pressed(key: KeyCode, shift: bool) -> KeyInput {
    KeyInput { key, pressed: true, shift }
}

fn away() -> Pointer {
    Pointer { x: 0, y: 500_000, left_pressed: false }
}

#[test]
fn rounding_is_to_the_nearest_with_halves_away_from_zero() {
    assert_eq!(round_to_unit(1_004, 10), 100);
    assert_eq!(round_to_unit(1_005, 10), 101);
    assert_eq!(round_to_unit(-1_004, 10), -100);
    assert_eq!(round_to_unit(-1_005, 10), -101);
    assert_eq!(round_to_unit(0, 10_000), 0);
    assert_eq!(round_to_unit(-4_990_000, 10_000), -499);
    assert_eq!(round_to_unit(i64::MAX, 1), i64::MAX);
    assert_eq!(round_to_unit(i64::MIN, 1), i64::MIN);
    assert_eq!(round_to_unit(i64::MIN, i64::MAX), -1);
}

#[test]
fn toast_lives_for_a_second() {
    let mut toast = Toast::new(ToastKind::Speed, 110);
    assert_eq!(toast.age_us, 0);
    assert!(toast.draw(999_999));
    assert!(!toast.draw(1));
    assert_eq!(toast.age_us, 1_000_000);
    assert!(!toast.draw(u64::MAX));
    assert_eq!(toast.age_us, u64::MAX);
    assert_eq!(toast.hundredths, 110);
}

#[test]
fn new_scene_has_no_toast() {
    let (scene, _, _) = scene();
    assert!(scene.keyboard_on());
    assert_eq!(scene.toast(), None);
    assert_eq!(scene.playback_progress(), 0);
    assert_eq!(scene.player().time_us(), -2_000_000);
}

#[test]
fn frame_reports_progress_and_notes_time() {
    let (mut scene, mut config, mut sink) = scene();
    config.shift_offset(-100_000);
    let out = scene.update(&config, 5 * SECOND, away(), 800_000, &mut sink);
    assert_eq!(out.event, SceneEvent::Stay);
    assert_eq!(out.bar_width, 400_000);
    assert_eq!(out.notes_time, 3_000_000 - 100_000);
    assert_eq!(out.keys[24], (true, 3));
    assert_eq!(out.toast, None);
    assert_eq!(scene.playback_progress(), 50);
    assert_eq!(sink.events, vec![OutputEvent::NoteOn { channel: 0, note: 60, velocity: 100 }]);
}

#[test]
fn scene_asks_to_go_back_when_the_song_is_over() {
    let (mut scene, config, mut sink) = scene();
    let out = scene.update(&config, 9_999_999, away(), 800_000, &mut sink);
    assert_eq!(out.event, SceneEvent::Stay);
    let out = scene.update(&config, 1, away(), 800_000, &mut sink);
    assert_eq!(out.event, SceneEvent::GoBack);
    assert_eq!(out.bar_width, 800_000);
}

#[test]
fn escape_goes_back_when_let_go() {
    let (mut scene, mut config, mut sink) = scene();
    assert_eq!(scene.window_event(&mut config, pressed(KeyCode::Escape, false), &mut sink), SceneEvent::Stay);
    assert_eq!(scene.window_event(&mut config, released(KeyCode::Escape, false), &mut sink), SceneEvent::GoBack);
    assert_eq!(scene.window_event(&mut config, released(KeyCode::Other, false), &mut sink), SceneEvent::Stay);
}

#[test]
fn space_pauses_and_silences() {
    let (mut scene, mut config, mut sink) = scene();
    scene.update(&config, 5 * SECOND, away(), 800_000, &mut sink);
    scene.window_event(&mut config, pressed(KeyCode::Space, false), &mut sink);
    assert!(!scene.player().is_paused());
    scene.window_event(&mut config, released(KeyCode::Space, false), &mut sink);
    assert!(scene.player().is_paused());
    assert_eq!(
        sink.events,
        vec![
            OutputEvent::NoteOn { channel: 0, note: 60, velocity: 100 },
            OutputEvent::NoteOff { channel: 0, note: 60 },
        ]
    );
}

#[test]
fn side_arrows_scrub_while_held() {
    let (mut scene, mut config, mut sink) = scene();
    scene.window_event(&mut config, pressed(KeyCode::Left, false), &mut sink);
    assert_eq!(scene.player().rewind(), RewindController::Keyboard { speed: -100, was_paused: false });
    assert!(scene.player().is_paused());
    scene.window_event(&mut config, pressed(KeyCode::Right, true), &mut sink);
    assert_eq!(scene.player().rewind(), RewindController::Keyboard { speed: -100, was_paused: false });
    scene.window_event(&mut config, released(KeyCode::Left, false), &mut sink);
    assert_eq!(scene.player().rewind(), RewindController::Idle);
    assert!(!scene.player().is_paused());
    scene.window_event(&mut config, pressed(KeyCode::Right, true), &mut sink);
    assert_eq!(scene.player().rewind(), RewindController::Keyboard { speed: 5_000, was_paused: false });
    scene.window_event(&mut config, released(KeyCode::Right, true), &mut sink);
    scene.window_event(&mut config, pressed(KeyCode::Left, true), &mut sink);
    assert_eq!(scene.player().rewind(), RewindController::Keyboard { speed: -5_000, was_paused: false });
    scene.window_event(&mut config, released(KeyCode::Left, true), &mut sink);
    scene.window_event(&mut config, pressed(KeyCode::Right, false), &mut sink);
    assert_eq!(scene.player().rewind(), RewindController::Keyboard { speed: 100, was_paused: false });
}

#[test]
fn speed_keys_change_the_speed_and_keep_the_position() {
    let (mut scene, mut config, mut sink) = scene();
    scene.update(&config, 5 * SECOND, away(), 800_000, &mut sink);
    scene.window_event(&mut config, pressed(KeyCode::Up, false), &mut sink);
    assert_eq!(config.speed_permille(), 1_000);
    scene.window_event(&mut config, released(KeyCode::Up, false), &mut sink);
    assert_eq!(config.speed_permille(), 1_100);
    assert_eq!(scene.player().elapsed_us(), 4_545_454);
    assert_eq!(scene.toast(), Some(Toast { kind: ToastKind::Speed, hundredths: 110, age_us: 0 }));
    scene.window_event(&mut config, released(KeyCode::Up, true), &mut sink);
    assert_eq!(config.speed_permille(), 1_600);
    scene.window_event(&mut config, released(KeyCode::Down, true), &mut sink);
    scene.window_event(&mut config, released(KeyCode::Down, false), &mut sink);
    assert_eq!(config.speed_permille(), 1_000);
    assert_eq!(scene.toast(), Some(Toast { kind: ToastKind::Speed, hundredths: 100, age_us: 0 }));
}

#[test]
fn speed_never_reaches_zero() {
    let (mut scene, mut config, mut sink) = scene();
    scene.window_event(&mut config, released(KeyCode::Down, true), &mut sink);
    assert_eq!(config.speed_permille(), 500);
    scene.update(&config, 5 * SECOND, away(), 800_000, &mut sink);
    let before = sink.events.len();
    scene.window_event(&mut config, released(KeyCode::Down, true), &mut sink);
    assert_eq!(config.speed_permille(), 500);
    assert_eq!(sink.events.len(), before);
    assert_eq!(scene.player().elapsed_us(), 5 * SECOND);
    assert_eq!(scene.toast(), Some(Toast { kind: ToastKind::Speed, hundredths: 50, age_us: 0 }));
    for _ in 0..4 {
        scene.window_event(&mut config, released(KeyCode::Down, false), &mut sink);
    }
    assert_eq!(config.speed_permille(), 100);
    scene.window_event(&mut config, released(KeyCode::Down, false), &mut sink);
    assert_eq!(config.speed_permille(), 100);
}

#[test]
fn speed_stops_at_its_ceiling() {
    let (mut scene, mut config, mut sink) = scene();
    assert!(config.set_speed_permille(99_800));
    scene.window_event(&mut config, released(KeyCode::Up, true), &mut sink);
    assert_eq!(config.speed_permille(), 100_000);
    assert_eq!(scene.toast(), Some(Toast { kind: ToastKind::Speed, hundredths: 10_000, age_us: 0 }));
}

#[test]
fn offset_keys_change_the_offset() {
    let (mut scene, mut config, mut sink) = scene();
    scene.window_event(&mut config, released(KeyCode::Minus, false), &mut sink);
    assert_eq!(config.playback_offset_us(), -5_000_000);
    assert_eq!(scene.toast(), Some(Toast { kind: ToastKind::Offset, hundredths: -500, age_us: 0 }));
    scene.window_event(&mut config, released(KeyCode::Plus, false), &mut sink);
    assert_eq!(config.playback_offset_us(), -4_990_000);
    scene.window_event(&mut config, released(KeyCode::Plus, true), &mut sink);
    assert_eq!(config.playback_offset_us(), -4_890_000);
    scene.window_event(&mut config, released(KeyCode::Minus, true), &mut sink);
    assert_eq!(config.playback_offset_us(), -4_990_000);
    assert_eq!(scene.toast(), Some(Toast { kind: ToastKind::Offset, hundredths: -499, age_us: 0 }));
    scene.window_event(&mut config, pressed(KeyCode::Minus, true), &mut sink);
    assert_eq!(config.playback_offset_us(), -4_990_000);
}

#[test]
fn toast_disappears_after_a_second_of_frames() {
    let (mut scene, mut config, mut sink) = scene();
    scene.window_event(&mut config, released(KeyCode::Plus, false), &mut sink);
    let out = scene.update(&config, 600_000, away(), 800_000, &mut sink);
    assert_eq!(out.toast, Some(Toast { kind: ToastKind::Offset, hundredths: 1, age_us: 600_000 }));
    let out = scene.update(&config, 400_000, away(), 800_000, &mut sink);
    assert_eq!(out.toast, None);
    assert_eq!(scene.toast(), None);
}

#[test]
fn tab_flips_the_switch_without_shift() {
    let (mut scene, mut config, mut sink) = scene();
    scene.window_event(&mut config, released(KeyCode::Tab, true), &mut sink);
    assert!(scene.keyboard_on());
    scene.window_event(&mut config, pressed(KeyCode::Tab, false), &mut sink);
    assert!(scene.keyboard_on());
    scene.window_event(&mut config, released(KeyCode::Tab, false), &mut sink);
    assert!(!scene.keyboard_on());
    scene.window_event(&mut config, released(KeyCode::Tab, false), &mut sink);
    assert!(scene.keyboard_on());
}

#[test]
fn pointer_on_the_progress_bar_seeks_and_scrubs() {
    let (mut scene, config, mut sink) = scene();
    scene.update(&config, 5 * SECOND, away(), 800_000, &mut sink);
    let on_bar = Pointer { x: 200_000, y: 19_999, left_pressed: true };
    scene.update(&config, 16_667, on_bar, 800_000, &mut sink);
    assert_eq!(scene.player().elapsed_us(), 2_500_000);
    assert_eq!(scene.player().rewind(), RewindController::Mouse { was_paused: false });
    assert!(scene.player().is_paused());
    assert_eq!(
        sink.events,
        vec![
            OutputEvent::NoteOn { channel: 0, note: 60, velocity: 100 },
            OutputEvent::NoteOff { channel: 0, note: 60 },
        ]
    );
    let further = Pointer { x: 600_000, y: 0, left_pressed: true };
    scene.update(&config, 16_667, further, 800_000, &mut sink);
    assert_eq!(scene.player().elapsed_us(), 7_500_000);
    assert_eq!(scene.player().rewind(), RewindController::Mouse { was_paused: false });
    scene.update(&config, 16_667, away(), 800_000, &mut sink);
    assert_eq!(scene.player().rewind(), RewindController::Idle);
    assert!(!scene.player().is_paused());
}

#[test]
fn pointer_below_the_bar_or_not_pressed_does_nothing() {
    let (mut scene, config, mut sink) = scene();
    scene.update(&config, 16_667, Pointer { x: 200_000, y: 20_000, left_pressed: true }, 800_000, &mut sink);
    assert_eq!(scene.player().rewind(), RewindController::Idle);
    assert_eq!(scene.player().elapsed_us(), 16_667);
    scene.update(&config, 0, Pointer { x: 200_000, y: 5, left_pressed: false }, 800_000, &mut sink);
    assert_eq!(scene.player().elapsed_us(), 16_667);
}

#[test]
fn pointer_left_of_the_bar_or_on_no_bar_seeks_to_the_beginning() {
    let (mut scene, config, mut sink) = scene();
    scene.update(&config, SECOND, Pointer { x: -5, y: 0, left_pressed: true }, 800_000, &mut sink);
    assert_eq!(scene.player().elapsed_us(), 0);
    scene.update(&config, 0, away(), 800_000, &mut sink);
    scene.update(&config, SECOND, Pointer { x: 300, y: 0, left_pressed: true }, 0, &mut sink);
    assert_eq!(scene.player().elapsed_us(), 0);
}

#[test]
fn pointer_does_not_end_a_keyboard_scrub() {
    let (mut scene, mut config, mut sink) = scene();
    scene.window_event(&mut config, pressed(KeyCode::Right, false), &mut sink);
    scene.update(&config, 0, away(), 800_000, &mut sink);
    assert_eq!(scene.player().rewind(), RewindController::Keyboard { speed: 100, was_paused: false });
    scene.update(&config, 0, Pointer { x: 400_000, y: 0, left_pressed: true }, 800_000, &mut sink);
    assert_eq!(scene.player().rewind(), RewindController::Keyboard { speed: 100, was_paused: false });
    assert_eq!(scene.player().elapsed_us(), 5 * SECOND);
}

#[test]
fn done_silences_the_scene() {
    let (mut scene, config, mut sink) = scene();
    scene.update(&config, 5 * SECOND, away(), 800_000, &mut sink);
    scene.done(&mut sink);
    assert_eq!(sink.events.len(), 2);
    assert_eq!(scene.player().active_count(), 0);
    scene.start();
    assert_eq!(scene.player().elapsed_us(), 0);
}
