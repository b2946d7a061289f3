use falling_notes::rewind::RewindController;
use falling_notes::timer::Timer;

#[test]
fn idle_is_not_rewinding() {
    assert!(!RewindController::Idle.is_rewinding());
    assert!(RewindController::Mouse { was_paused: false }.is_rewinding());
    assert!(RewindController::Keyboard { speed: -100, was_paused: true }.is_rewinding());
}

#[test]
fn start_rewind_pauses_and_installs_the_state() {
    let mut timer = Timer::new();
    timer.advance(500);
    let mut rewind = RewindController::Idle;
    rewind.start_rewind(&mut timer, RewindController::Keyboard { speed: 100, was_paused: false });
    assert!(timer.is_paused());
    assert_eq!(timer.elapsed_us(), 500);
    assert_eq!(rewind, RewindController::Keyboard { speed: 100, was_paused: false });
}

#[test]
fn rewind_begun_while_playing_ends_playing() {
    let mut timer = Timer::new();
    let mut rewind = RewindController::Idle;
    let was_paused = timer.is_paused();
    rewind.start_rewind(&mut timer, RewindController::Mouse { was_paused });
    rewind.stop_rewind(&mut timer);
    assert!(!timer.is_paused());
    assert_eq!(rewind, RewindController::Idle);
}

#[test]
fn rewind_begun_while_paused_ends_paused() {
    let mut timer = Timer::new();
    timer.pause();
    let mut rewind = RewindController::Idle;
    let was_paused = timer.is_paused();
    rewind.start_rewind(&mut timer, RewindController::Keyboard { speed: -5_000, was_paused });
    rewind.stop_rewind(&mut timer);
    assert!(timer.is_paused());
    assert_eq!(rewind, RewindController::Idle);
}

#[test]
fn stop_rewind_while_idle_changes_nothing() {
    let mut running = Timer::new();
    let mut rewind = RewindController::Idle;
    rewind.stop_rewind(&mut running);
    assert!(!running.is_paused());
    let mut paused = Timer::new();
    paused.pause();
    rewind.stop_rewind(&mut paused);
    assert!(paused.is_paused());
    assert_eq!(rewind, RewindController::Idle);
}
