//! The playing scene: what the keys and the pointer do to the player, and
//! what a frame hands to the renderer.

use crate::config::{shifted_offset, PlaybackConfig, MAX_SPEED_PERMILLE};
use crate::gate::delivered_to;
use crate::note::{unique_ids, HighlightFrame, Note};
use crate::output::{OutputEvent, OutputSink};
use crate::player::{Player, PlayerView};
use crate::position::{seek_target, FULL_PROGRESS_PPM, MAX_PROGRESS_PPM};
use crate::rewind::RewindController;
use crate::schedule::releases;
use vstd::prelude::*;

verus! {

/// How far one frame of a held arrow key moves the position, in millionths
/// of the song.
pub const SCRUB_STEP_PPM: i64 = 100;

/// The same with shift held.
pub const FAST_SCRUB_STEP_PPM: i64 = 5_000;

/// What one press of up or down changes the speed by, in thousandths.
pub const SPEED_STEP_PERMILLE: u32 = 100;

/// The same with shift held.
pub const FAST_SPEED_STEP_PERMILLE: u32 = 500;

/// What minus takes off the offset, in microseconds.
pub const OFFSET_BACK_US: i64 = 5_000_000;

/// What plus adds to the offset, in microseconds.
pub const OFFSET_FORTH_US: i64 = 10_000;

/// What minus and plus change the offset by with shift held, in
/// microseconds.
pub const OFFSET_SHIFT_STEP_US: i64 = 100_000;

/// Height of the progress bar's hot zone at the top of the window, in
/// thousandths of a pixel.
pub const PROGRESS_BAR_ZONE: i32 = 20_000;

/// How long a toast stays on screen, in microseconds.
pub const TOAST_LIFE_US: u64 = 1_000_000;

/// The keys that the scene reacts to.
#[derive(Clone, Copy, Debug, PartialEq, Eq)]
pub enum KeyCode {
    Escape,
    Space,
    Left,
    Right,
    Up,
    Down,
    Minus,
    /// Plus or equals.
    Plus,
    Tab,
    Other,
}

/// A key went down or up.
#[derive(Clone, Copy, Debug, PartialEq, Eq)]
pub struct KeyInput {
    pub key: KeyCode,
    pub pressed: bool,
    pub shift: bool,
}

/// The pointer in a frame; the position is in thousandths of a pixel.
#[derive(Clone, Copy, Debug, PartialEq, Eq)]
pub struct Pointer {
    pub x: i32,
    pub y: i32,
    pub left_pressed: bool,
}

/// What the scene asks of whoever shows it.
#[derive(Clone, Copy, Debug, PartialEq, Eq)]
pub enum SceneEvent {
    Stay,
    GoBack,
}

/// Which setting a toast reports.
#[derive(Clone, Copy, Debug, PartialEq, Eq)]
pub enum ToastKind {
    Speed,
    Offset,
}

/// `v` in units of `unit`, rounded to the nearest, halves away from zero.
pub open spec fn rounded(v: int, unit: int) -> int {
    if v >= 0 {
        (v + unit / 2) / unit
    } else {
        -((-v + unit / 2) / unit)
    }
}

/// The progress, in millionths, that a pointer at `x` on a progress bar of
/// width `window_w` points at; zero left of the bar or on a bar without
/// width.
pub open spec fn pointer_progress(x: int, window_w: int) -> int {
    if x <= 0 || window_w <= 0 {
        0
    } else {
        x * 1_000_000 / window_w
    }
}

/// The filled part of a progress bar of width `window_w`.
pub open spec fn bar_width(window_w: int, percentage: int) -> int {
    window_w * percentage / 1_000_000
}

/// The step of a keyboard scrub.
pub open spec fn scrub_step(forward: bool, shift: bool) -> i64 {
    let step = if shift {
        FAST_SCRUB_STEP_PPM
    } else {
        SCRUB_STEP_PPM
    };
    if forward {
        step
    } else {
        (-step) as i64
    }
}

/// The step of a speed change.
pub open spec fn speed_step(shift: bool) -> int {
    if shift {
        FAST_SPEED_STEP_PERMILLE as int
    } else {
        SPEED_STEP_PERMILLE as int
    }
}

/// The speed after up has been pressed.
pub open spec fn faster(speed: int, shift: bool) -> int {
    if speed + speed_step(shift) > MAX_SPEED_PERMILLE {
        MAX_SPEED_PERMILLE as int
    } else {
        speed + speed_step(shift)
    }
}

/// The speed after down has been pressed: a step slower, unless that would
/// bring it to zero or below.
pub open spec fn slower(speed: int, shift: bool) -> int {
    if speed - speed_step(shift) > 0 {
        speed - speed_step(shift)
    } else {
        speed
    }
}

/// What minus or plus changes the offset by.
pub open spec fn offset_step(plus: bool, shift: bool) -> int {
    if plus {
        if shift {
            OFFSET_SHIFT_STEP_US as int
        } else {
            OFFSET_FORTH_US as int
        }
    } else {
        if shift {
            -OFFSET_SHIFT_STEP_US
        } else {
            -OFFSET_BACK_US
        }
    }
}

/// Rounds `v` to whole units, halves away from zero.
pub fn round_to_unit(v: i64, unit: i64) -> (r: i64)
    requires
        unit > 0,
    ensures
        r == rounded(v as int, unit as int),
{
    let half: i128 = (unit / 2) as i128;
    let wide: i128 = v as i128;
    let unit_wide: i128 = unit as i128;
    if wide >= 0 {
        let q: i128 = (wide + half) / unit_wide;
        assert(q <= wide + half) by (nonlinear_arith)
            requires
                q == (wide + half) / (unit_wide as int),
                unit_wide >= 1,
                wide + half >= 0,
        ;
        assert(q <= i64::MAX) by (nonlinear_arith)
            requires
                q == (wide + half) / (unit_wide as int),
                unit_wide >= 1,
                0 <= wide <= i64::MAX,
                half == unit_wide / 2,
        ;
        q as i64
    } else {
        let q: i128 = (-wide + half) / unit_wide;
        assert(0 <= q <= -(i64::MIN as int)) by (nonlinear_arith)
            requires
                q == (-wide + half) / (unit_wide as int),
                unit_wide >= 1,
                0 < -wide <= -(i64::MIN as int),
                half == unit_wide / 2,
        ;
        (-q) as i64
    }
}

/// A short message that reports a setting, with the value in hundredths.
#[derive(Clone, Copy, Debug, PartialEq, Eq)]
pub struct Toast {
    pub kind: ToastKind,
    pub hundredths: i64,
    pub age_us: u64,
}

impl Toast {
    /// A toast that has just been put up.
    pub fn new(kind: ToastKind, hundredths: i64) -> (toast: Toast)
        ensures
            toast == (Toast { kind, hundredths, age_us: 0 }),
    {
        Toast { kind, hundredths, age_us: 0 }
    }

    /// Ages the toast by `dt_us` and says whether it is still to be drawn:
    /// it is for its first second.
    pub fn draw(&mut self, dt_us: u64) -> (alive: bool)
        ensures
            final(self).kind == old(self).kind,
            final(self).hundredths == old(self).hundredths,
            final(self).age_us == if old(self).age_us + dt_us > u64::MAX {
                u64::MAX as int
            } else {
                old(self).age_us + dt_us
            },
            alive == (final(self).age_us < TOAST_LIFE_US),
    {
        self.age_us = if dt_us > u64::MAX - self.age_us {
            u64::MAX
        } else {
            self.age_us + dt_us
        };
        self.age_us < TOAST_LIFE_US
    }
}

/// What a frame of the scene hands to the renderer.
pub struct SceneFrame {
    /// Which keys are lit, and by which track.
    pub keys: HighlightFrame,
    /// Width of the filled part of the progress bar.
    pub bar_width: u64,
    /// The time at which the falling notes are drawn: the song time plus the
    /// playback offset.
    pub notes_time: i64,
    /// The toast to draw, if one is alive.
    pub toast: Option<Toast>,
    /// Whether the song is over.
    pub event: SceneEvent,
}

/// The playing scene: a player, the toast that is on screen and the switch
/// that tab flips.
pub struct PlayingScene {
    player: Player,
    text_toast: Option<Toast>,
    keyboard_on: bool,
}

/// The state of a scene as plain values.
pub struct SceneView {
    pub player: PlayerView,
    pub toast: Option<Toast>,
    pub keyboard_on: bool,
}

impl View for PlayingScene {
    type V = SceneView;

    closed spec fn view(&self) -> SceneView {
        SceneView { player: self.player@, toast: self.text_toast, keyboard_on: self.keyboard_on }
    }
}

impl SceneView {
    /// The player after the pointer has had its say in a frame: held on the
    /// progress bar it seeks and scrubs; let go, it ends its scrub.
    pub open spec fn pointed(self, speed: int, pointer: Pointer, window_w: int) -> PlayerView {
        if pointer.y < PROGRESS_BAR_ZONE && pointer.left_pressed {
            let seeked = self.player.sought(
                seek_target(
                    pointer_progress(pointer.x as int, window_w),
                    speed,
                    self.player.last_end,
                ),
            );
            if seeked.rewind.rewinding() {
                seeked
            } else {
                PlayerView {
                    paused: true,
                    rewind: RewindController::Mouse { was_paused: seeked.paused },
                    ..seeked
                }
            }
        } else if self.player.rewind is Mouse {
            PlayerView {
                paused: self.player.rewind.paused_after_stop(self.player.paused),
                rewind: RewindController::Idle,
                ..self.player
            }
        } else {
            self.player
        }
    }

    /// What the pointer makes a frame emit: a seek silences the active
    /// notes.
    pub open spec fn pointer_events(self, pointer: Pointer) -> Seq<OutputEvent> {
        if pointer.y < PROGRESS_BAR_ZONE && pointer.left_pressed {
            releases(self.player.notes, self.player.active)
        } else {
            Seq::empty()
        }
    }

    /// The toast after `dt` microseconds: gone once it is a second old.
    pub open spec fn aged_toast(self, dt: int) -> Option<Toast> {
        match self.toast {
            Some(t) => {
                let age = if t.age_us + dt > u64::MAX {
                    u64::MAX
                } else {
                    (t.age_us + dt) as u64
                };
                if age < TOAST_LIFE_US {
                    Some(Toast { age_us: age, ..t })
                } else {
                    None
                }
            },
            None => None,
        }
    }
}

impl SceneView {
    /// The speed after `input`: up and down, when let go, change it.
    pub open spec fn key_speed(speed: int, input: KeyInput) -> int {
        if input.pressed {
            speed
        } else {
            match input.key {
                KeyCode::Up => faster(speed, input.shift),
                KeyCode::Down => slower(speed, input.shift),
                _ => speed,
            }
        }
    }

    /// The offset after `input`: minus and plus, when let go, change it.
    pub open spec fn key_offset(offset: int, input: KeyInput) -> int {
        if input.pressed {
            offset
        } else {
            match input.key {
                KeyCode::Minus => shifted_offset(offset, offset_step(false, input.shift)),
                KeyCode::Plus => shifted_offset(offset, offset_step(true, input.shift)),
                _ => offset,
            }
        }
    }

    /// `input` silences the active notes: space let go, which pauses or
    /// resumes, and a change of speed, which seeks.
    pub open spec fn key_clears(speed: int, input: KeyInput) -> bool {
        !input.pressed && match input.key {
            KeyCode::Space => true,
            KeyCode::Up => true,
            KeyCode::Down => slower(speed, input.shift) != speed,
            _ => false,
        }
    }

    /// The player after `input` at the speed `speed`. Space, let go, pauses
    /// or resumes. An arrow to the side begins a keyboard scrub when it goes
    /// down, unless something scrubs already, and ends the scrub when it is
    /// let go. A change of speed seeks to the progress last read, so that
    /// the position stays.
    pub open spec fn key_player(self, speed: int, input: KeyInput) -> PlayerView {
        let player = self.player;
        match input.key {
            KeyCode::Space => if input.pressed {
                player
            } else {
                PlayerView { paused: !player.paused, ..player.cleared() }
            },
            KeyCode::Left | KeyCode::Right => if input.pressed {
                if player.rewind.rewinding() {
                    player
                } else {
                    PlayerView {
                        paused: true,
                        rewind: RewindController::Keyboard {
                            speed: scrub_step(input.key is Right, input.shift),
                            was_paused: player.paused,
                        },
                        ..player
                    }
                }
            } else {
                PlayerView {
                    paused: player.rewind.paused_after_stop(player.paused),
                    rewind: RewindController::Idle,
                    ..player
                }
            },
            KeyCode::Up | KeyCode::Down => if Self::key_clears(speed, input) {
                player.sought(
                    seek_target(player.percentage, Self::key_speed(speed, input), player.last_end),
                )
            } else {
                player
            },
            _ => player,
        }
    }

    /// The toast after `input`, where its handling leaves the speed `speed`
    /// and the offset `offset`: a key for the speed or the offset, let go,
    /// puts up a toast with the new value.
    pub open spec fn key_toast(self, speed: int, offset: int, input: KeyInput) -> Option<Toast> {
        if input.pressed {
            self.toast
        } else {
            match input.key {
                KeyCode::Up | KeyCode::Down => Some(
                    Toast { kind: ToastKind::Speed, hundredths: rounded(speed, 10) as i64, age_us: 0 },
                ),
                KeyCode::Minus | KeyCode::Plus => Some(
                    Toast {
                        kind: ToastKind::Offset,
                        hundredths: rounded(offset, 10_000) as i64,
                        age_us: 0,
                    },
                ),
                _ => self.toast,
            }
        }
    }

    /// The switch after `input`: tab, let go without shift, flips it.
    pub open spec fn key_switch(self, input: KeyInput) -> bool {
        if input.key is Tab && !input.pressed && !input.shift {
            !self.keyboard_on
        } else {
            self.keyboard_on
        }
    }
}

impl PlayingScene {
    /// A scene that plays `notes`, with no toast and the switch on.
    pub fn new(notes: Vec<Note>, config: &PlaybackConfig, input_available: bool) -> (scene:
        PlayingScene)
        requires
            unique_ids(notes@),
        ensures
            scene@.player.wf(),
            scene@.toast is None,
            scene@.keyboard_on,
            scene@.player == Player::new_view(notes@, config.wants_play_along() && input_available),
    {
        PlayingScene {
            player: Player::new(notes, config, input_available),
            text_toast: None,
            keyboard_on: true,
        }
    }

    /// Progress through the song in percent.
    pub fn playback_progress(&self) -> (percent: u64)
        ensures
            percent == self@.player.percentage / 10_000,
    {
        self.player.percentage_ppm() / 10_000
    }

    /// The player of the scene.
    pub fn player(&self) -> (p: &Player)
        ensures
            p@ == self@.player,
    {
        &self.player
    }

    /// The switch that tab flips.
    pub fn keyboard_on(&self) -> (on: bool)
        ensures
            on == self@.keyboard_on,
    {
        self.keyboard_on
    }

    /// The toast on screen, if any.
    pub fn toast(&self) -> (t: Option<Toast>)
        ensures
            t == self@.toast,
    {
        self.text_toast
    }

    /// Starts the player's stopwatch.
    pub fn start(&mut self)
        requires
            old(self)@.player.wf(),
        ensures
            final(self)@.player.wf(),
            final(self)@ == (SceneView {
                player: PlayerView { elapsed: 0, paused: false, ..old(self)@.player },
                ..old(self)@
            }),
    {
        self.player.start();
    }

    /// Leaves the scene: every active note is silenced.
    pub fn done(&mut self, sink: &mut OutputSink)
        requires
            old(self)@.player.wf(),
        ensures
            final(self)@.player.wf(),
            final(self)@ == (SceneView { player: old(self)@.player.cleared(), ..old(self)@ }),
            final(sink)@ == old(sink)@ + releases(
                old(self)@.player.notes,
                old(self)@.player.active,
            ),
    {
        self.player.clear(sink);
    }

    /// Hands a raw message of the input device to the player.
    pub fn deliver_input(&mut self, message: &[u8])
        requires
            old(self)@.player.wf(),
        ensures
            final(self)@.player.wf(),
            final(self)@ == (SceneView {
                player: PlayerView {
                    gate: delivered_to(old(self)@.player.gate, message@),
                    ..old(self)@.player
                },
                ..old(self)@
            }),
    {
        self.player.deliver_input(message);
    }

    /// One frame. The player is updated. Then the pointer has its say: held
    /// down in the progress bar's zone it seeks to where it points and, if
    /// nothing is scrubbing yet, begins a pointer scrub; otherwise a pointer
    /// scrub ends. The toast ages. The result holds what is to be drawn,
    /// and asks to go back once the song is over.
    pub fn update(
        &mut self,
        config: &PlaybackConfig,
        dt_us: u64,
        pointer: Pointer,
        window_w: u32,
        sink: &mut OutputSink,
    ) -> (out: SceneFrame)
        requires
            old(self)@.player.wf(),
        ensures
            final(self)@.player.wf(),
            ({
                let stepped = SceneView {
                    player: old(self)@.player.stepped(config.speed(), dt_us as int),
                    ..old(self)@
                };
                &&& final(self)@ == (SceneView {
                    player: stepped.pointed(config.speed(), pointer, window_w as int),
                    toast: old(self)@.aged_toast(dt_us as int),
                    keyboard_on: old(self)@.keyboard_on,
                })
                &&& final(sink)@ == old(sink)@ + old(self)@.player.step_events(
                    config.speed(),
                    dt_us as int,
                ) + stepped.pointer_events(pointer)
                &&& out.keys@ == old(self)@.player.step_frame(config.speed(), dt_us as int)
                &&& out.bar_width == bar_width(window_w as int, stepped.player.percentage)
                &&& out.notes_time == shifted_offset(stepped.player.time, config.offset())
                &&& out.toast == final(self)@.toast
                &&& out.event == if stepped.player.percentage >= FULL_PROGRESS_PPM {
                    SceneEvent::GoBack
                } else {
                    SceneEvent::Stay
                }
            }),
    {
        let keys = self.player.update(config, dt_us, sink);
        let ghost stepped = self@;
        let ghost sink1 = sink@;
        let percentage = self.player.percentage_ppm();
        assert(window_w * percentage <= 0xffff_ffff * MAX_PROGRESS_PPM) by (nonlinear_arith)
            requires
                0 <= window_w <= 0xffff_ffff,
                0 <= percentage <= MAX_PROGRESS_PPM,
        ;
        let filled: u64 = ((window_w as u128) * (percentage as u128) / 1_000_000) as u64;
        if pointer.y < PROGRESS_BAR_ZONE && pointer.left_pressed {
            let p: i64 = if pointer.x <= 0 || window_w == 0 {
                0
            } else {
                (pointer.x as i64) * 1_000_000 / (window_w as i64)
            };
            self.player.set_percentage_time(config, p, sink);
            if !self.player.is_rewinding() {
                let was_paused = self.player.is_paused();
                self.player.start_rewind(RewindController::Mouse { was_paused });
            }
        } else {
            match self.player.rewind() {
                RewindController::Mouse { .. } => {
                    self.player.stop_rewind();
                },
                _ => {},
            }
        }
        assert(sink@ =~= old(sink)@ + old(self)@.player.step_events(config.speed(), dt_us as int)
            + stepped.pointer_events(pointer));
        let aged = match self.text_toast {
            Some(toast) => {
                let mut toast = toast;
                if toast.draw(dt_us) {
                    Some(toast)
                } else {
                    None
                }
            },
            None => None,
        };
        self.text_toast = aged;
        let time: i128 = self.player.time_us() as i128 + config.playback_offset_us() as i128;
        let notes_time: i64 = if time > i64::MAX as i128 {
            i64::MAX
        } else if time < i64::MIN as i128 {
            i64::MIN
        } else {
            time as i64
        };
        SceneFrame {
            keys,
            bar_width: filled,
            notes_time,
            toast: self.text_toast,
            event: if percentage >= FULL_PROGRESS_PPM {
                SceneEvent::GoBack
            } else {
                SceneEvent::Stay
            },
        }
    }

    /// Handles a key. Escape, let go, asks to go back; every other input
    /// asks to stay.
    pub fn window_event(&mut self, config: &mut PlaybackConfig, input: KeyInput, sink: &mut OutputSink)
        -> (event: SceneEvent)
        requires
            old(self)@.player.wf(),
        ensures
            final(self)@.player.wf(),
            final(config).speed() == SceneView::key_speed(old(config).speed(), input),
            final(config).offset() == SceneView::key_offset(old(config).offset(), input),
            final(config).wants_play_along() == old(config).wants_play_along(),
            final(self)@ == (SceneView {
                player: old(self)@.key_player(old(config).speed(), input),
                toast: old(self)@.key_toast(final(config).speed(), final(config).offset(), input),
                keyboard_on: old(self)@.key_switch(input),
            }),
            final(sink)@ == old(sink)@ + if SceneView::key_clears(old(config).speed(), input) {
                releases(old(self)@.player.notes, old(self)@.player.active)
            } else {
                Seq::empty()
            },
            event == if input.key is Escape && !input.pressed {
                SceneEvent::GoBack
            } else {
                SceneEvent::Stay
            },
    {
        let speed = config.speed_permille();
        match input.key {
            KeyCode::Escape => {
                if !input.pressed {
                    return SceneEvent::GoBack;
                }
            },
            KeyCode::Space => {
                if !input.pressed {
                    self.player.pause_resume(sink);
                }
            },
            KeyCode::Left => {
                self.side_arrow(false, input);
            },
            KeyCode::Right => {
                self.side_arrow(true, input);
            },
            KeyCode::Up => {
                if !input.pressed {
                    let step = if input.shift {
                        FAST_SPEED_STEP_PERMILLE
                    } else {
                        SPEED_STEP_PERMILLE
                    };
                    let new = if speed + step > MAX_SPEED_PERMILLE {
                        MAX_SPEED_PERMILLE
                    } else {
                        speed + step
                    };
                    config.set_speed_permille(new);
                    self.player.set_percentage_time(
                        config,
                        self.player.percentage_ppm() as i64,
                        sink,
                    );
                    self.speed_toast(config);
                }
            },
            KeyCode::Down => {
                if !input.pressed {
                    let step = if input.shift {
                        FAST_SPEED_STEP_PERMILLE
                    } else {
                        SPEED_STEP_PERMILLE
                    };
                    if speed > step {
                        config.set_speed_permille(speed - step);
                        self.player.set_percentage_time(
                            config,
                            self.player.percentage_ppm() as i64,
                            sink,
                        );
                    }
                    self.speed_toast(config);
                }
            },
            KeyCode::Minus => {
                if !input.pressed {
                    config.shift_offset(
                        if input.shift {
                            -OFFSET_SHIFT_STEP_US
                        } else {
                            -OFFSET_BACK_US
                        },
                    );
                    self.offset_toast(config);
                }
            },
            KeyCode::Plus => {
                if !input.pressed {
                    config.shift_offset(
                        if input.shift {
                            OFFSET_SHIFT_STEP_US
                        } else {
                            OFFSET_FORTH_US
                        },
                    );
                    self.offset_toast(config);
                }
            },
            KeyCode::Tab => {
                if !input.pressed && !input.shift {
                    self.keyboard_on = !self.keyboard_on;
                }
            },
            KeyCode::Other => {},
        }
        assert(sink@ =~= old(sink)@ + if SceneView::key_clears(old(config).speed(), input) {
            releases(old(self)@.player.notes, old(self)@.player.active)
        } else {
            Seq::empty()
        });
        SceneEvent::Stay
    }

    /// An arrow to the side went down or up.
    fn side_arrow(&mut self, forward: bool, input: KeyInput)
        requires
            old(self)@.player.wf(),
            input.key == if forward {
                KeyCode::Right
            } else {
                KeyCode::Left
            },
        ensures
            final(self)@.player.wf(),
            final(self)@ == (SceneView {
                player: old(self)@.key_player(0, input),
                ..old(self)@
            }),
    {
        if input.pressed {
            let step = if input.shift {
                FAST_SCRUB_STEP_PPM
            } else {
                SCRUB_STEP_PPM
            };
            if !self.player.is_rewinding() {
                let was_paused = self.player.is_paused();
                self.player.start_rewind(
                    RewindController::Keyboard {
                        speed: if forward {
                            step
                        } else {
                            -step
                        },
                        was_paused,
                    },
                );
            }
        } else {
            self.player.stop_rewind();
        }
    }

    /// Puts up a toast with the speed, rounded to hundredths.
    fn speed_toast(&mut self, config: &PlaybackConfig)
        ensures
            final(self)@ == (SceneView {
                toast: Some(
                    Toast {
                        kind: ToastKind::Speed,
                        hundredths: rounded(config.speed(), 10) as i64,
                        age_us: 0,
                    },
                ),
                ..old(self)@
            }),
    {
        self.text_toast = Some(
            Toast::new(ToastKind::Speed, round_to_unit(config.speed_permille() as i64, 10)),
        );
    }

    /// Puts up a toast with the offset, rounded to hundredths of a second.
    fn offset_toast(&mut self, config: &PlaybackConfig)
        ensures
            final(self)@ == (SceneView {
                toast: Some(
                    Toast {
                        kind: ToastKind::Offset,
                        hundredths: rounded(config.offset(), 10_000) as i64,
                        age_us: 0,
                    },
                ),
                ..old(self)@
            }),
    {
        self.text_toast = Some(
            Toast::new(ToastKind::Offset, round_to_unit(config.playback_offset_us(), 10_000)),
        );
    }
}

} // verus!
