//! The per-device button mapper: context tracking, basic pointer emulation,
//! and per-button edge and repeat detection.
use vstd::prelude::*;
use crate::config::{ButtonConfigs, ButtonConfigsToken, compiled_slot, MODE_COUNT};
use crate::program::{copy_tokens, InputAction, MouseButton, StateToken, Token};
use crate::report::{
    button_at, config_index, config_index_at, context_of, decode_context, is_pressed,
    pressed_at, relative_delta, signed_delta, LogicalButton, Mode, BUTTON_COUNT,
};
use crate::timer::{RepeatTimer, REPEAT_INTERVAL_MS};

verus! {

/// Position of the scroll button in the configuration list.
pub const SCROLL_BUTTON_CONFIG_INDEX: usize = 0;

/// Last observed state of the three primary pointer buttons.
#[derive(PartialEq, Eq, Structural, Clone, Copy, Debug)]
pub struct ClickState {
    pub left: bool,
    pub right: bool,
    pub middle: bool,
}

/// Which phase of a button's program fires.
#[derive(PartialEq, Eq, Structural, Clone, Copy, Debug)]
pub enum Trigger {
    Down,
    Up,
    Repeat,
}

/// One program phase handed to the macro executor.
#[derive(PartialEq, Eq, Clone, Debug)]
pub struct Firing {
    pub button: LogicalButton,
    pub trigger: Trigger,
    pub tokens: Vec<Token>,
}

/// What a firing stands for, with its tokens as a sequence.
pub struct FiringView {
    pub button: LogicalButton,
    pub trigger: Trigger,
    pub tokens: Seq<Token>,
}

impl View for Firing {
    type V = FiringView;

    open spec fn view(&self) -> FiringView {
        FiringView { button: self.button, trigger: self.trigger, tokens: self.tokens@ }
    }
}

/// Whether a list of firings stands for the given sequence, element by element.
pub open spec fn firings_match(firings: Seq<Firing>, expected: Seq<FiringView>) -> bool {
    &&& firings.len() == expected.len()
    &&& forall|i: int| 0 <= i < firings.len() ==> #[trigger] firings[i]@ == expected[i]
}

/// The result of one full cycle: actions to synthesize at once, motion to add
/// to the shared accumulator, and program phases for the macro executor, in
/// order.
pub struct Emulation {
    pub actions: Vec<InputAction>,
    pub motion: (i32, i32),
    pub firings: Vec<Firing>,
}

/// The state of a mapper that its contracts speak of. Per-button entries are
/// in evaluation order.
pub struct MapperModel {
    pub mode: Mode,
    pub click: ClickState,
    pub held: Seq<bool>,
    pub timers: Seq<RepeatTimer>,
    pub epoch: u32,
    pub serial: Seq<char>,
}

impl MapperModel {
    /// A well-formed mapper state: a valid context, one state and one timer
    /// per button, and every timer running at the repeat period.
    pub open spec fn wf(self) -> bool {
        &&& self.mode.wf()
        &&& self.held.len() == BUTTON_COUNT
        &&& self.timers.len() == BUTTON_COUNT
        &&& forall|k: int| 0 <= k < BUTTON_COUNT ==> (#[trigger] self.timers[k]).interval_ms
            == REPEAT_INTERVAL_MS
    }
}

/// Layer index of a context: 0 normal, 1 shift.
pub open spec fn layer_of(ctx: Mode) -> int {
    if ctx.is_shift() {
        1
    } else {
        0
    }
}

/// The program of the button at evaluation position `k` in context `ctx`.
pub open spec fn program_at(tokens: ButtonConfigsToken, ctx: Mode, k: int) -> StateToken {
    tokens.program(config_index_at(k), layer_of(ctx), ctx.absolute() as int)
}

/// Firings of the button at evaluation position `k` in one cycle: its down or
/// up phase on an edge, then its repeat phase when its timer ticks while it
/// is held.
pub open spec fn slot_firings(
    tokens: ButtonConfigsToken,
    ctx: Mode,
    k: int,
    held: bool,
    pressed: bool,
    timer: RepeatTimer,
    now_ms: u64,
) -> Seq<FiringView> {
    let p = program_at(tokens, ctx, k);
    let edge = if pressed != held {
        seq![
            FiringView {
                button: button_at(k),
                trigger: if pressed {
                    Trigger::Down
                } else {
                    Trigger::Up
                },
                tokens: if pressed {
                    p.down@
                } else {
                    p.up@
                },
            },
        ]
    } else {
        seq![]
    };
    let repeat = if timer.is_due(now_ms) && pressed {
        seq![FiringView { button: button_at(k), trigger: Trigger::Repeat, tokens: p.repeat@ }]
    } else {
        seq![]
    };
    edge + repeat
}

/// Firings of the first `n` buttons, in evaluation order, in one cycle.
pub open spec fn pass_firings(
    tokens: ButtonConfigsToken,
    ctx: Mode,
    held: Seq<bool>,
    pressed: Seq<bool>,
    timers: Seq<RepeatTimer>,
    now_ms: u64,
    n: int,
) -> Seq<FiringView>
    decreases n,
{
    if n <= 0 {
        seq![]
    } else {
        pass_firings(tokens, ctx, held, pressed, timers, now_ms, n - 1) + slot_firings(
            tokens,
            ctx,
            n - 1,
            held[n - 1],
            pressed[n - 1],
            timers[n - 1],
            now_ms,
        )
    }
}

/// Button states a report holds, in evaluation order.
pub open spec fn report_pressed(report: Seq<u8>) -> Seq<bool> {
    Seq::new(BUTTON_COUNT as nat, |k: int| pressed_at(report, k))
}

/// Every timer after a check at `now_ms`.
pub open spec fn timers_after(timers: Seq<RepeatTimer>, now_ms: u64) -> Seq<RepeatTimer> {
    Seq::new(timers.len(), |k: int| timers[k].after_check(now_ms))
}

/// Press or release of a pointer button when its state changed.
pub open spec fn click_actions(before: bool, after: bool, button: MouseButton) -> Seq<InputAction> {
    if before != after {
        seq![
            if after {
                InputAction::MouseDown(button)
            } else {
                InputAction::MouseUp(button)
            },
        ]
    } else {
        seq![]
    }
}

/// One scroll notch for the wheel byte: 1 scrolls up, 255 down, anything else
/// nothing.
pub open spec fn wheel_actions(wheel: u8) -> Seq<InputAction> {
    if wheel == 1 {
        seq![InputAction::ScrollY(-1i32)]
    } else if wheel == 255 {
        seq![InputAction::ScrollY(1i32)]
    } else {
        seq![]
    }
}

/// The middle button is emulated directly only while the scroll button has no
/// macro in the current context.
pub open spec fn middle_emulated(tokens: ButtonConfigsToken, ctx: Mode) -> bool {
    tokens.program(SCROLL_BUTTON_CONFIG_INDEX as int, layer_of(ctx), ctx.absolute() as int).is_empty()
}

/// Pointer-button and wheel actions of a full cycle, in the order left,
/// middle, right, wheel.
pub open spec fn basic_actions(
    tokens: ButtonConfigsToken,
    ctx: Mode,
    click: ClickState,
    report: Seq<u8>,
) -> Seq<InputAction> {
    click_actions(click.left, report[0] & 1 != 0, MouseButton::Left) + (if middle_emulated(
        tokens,
        ctx,
    ) {
        click_actions(click.middle, report[0] & 4 != 0, MouseButton::Middle)
    } else {
        seq![]
    }) + click_actions(click.right, report[0] & 2 != 0, MouseButton::Right) + wheel_actions(
        report[7],
    )
}

/// Pointer-button state after a full cycle; the middle state is left alone
/// while the middle button is not emulated.
pub open spec fn basic_click_state(
    tokens: ButtonConfigsToken,
    ctx: Mode,
    click: ClickState,
    report: Seq<u8>,
) -> ClickState {
    ClickState {
        left: report[0] & 1 != 0,
        right: report[0] & 2 != 0,
        middle: if middle_emulated(tokens, ctx) {
            report[0] & 4 != 0
        } else {
            click.middle
        },
    }
}

/// Relative motion that a report carries.
pub open spec fn report_motion(report: Seq<u8>) -> (int, int) {
    (signed_delta(report[3]), signed_delta(report[5]))
}

/// What one read does to a mapper whose programs are `tokens`: on a report
/// a full cycle (context, pointer buttons, motion, wheel, then every
/// button), on a timeout a cycle of repeat timers alone with the context and
/// states kept, and on a failure nothing, with `None`.
pub open spec fn read_step(
    tokens: ButtonConfigsToken,
    before: MapperModel,
    outcome: ReadOutcome,
    now_ms: u64,
    after: MapperModel,
    r: Option<Emulation>,
) -> bool {
    match outcome {
        ReadOutcome::Report(report) => {
            let ctx = context_of(report@[2]);
            &&& r matches Some(e) && e.actions@ == basic_actions(tokens, ctx, before.click, report@)
                && e.motion.0 == report_motion(report@).0 && e.motion.1 == report_motion(report@).1
                && firings_match(
                e.firings@,
                pass_firings(
                    tokens,
                    ctx,
                    before.held,
                    report_pressed(report@),
                    before.timers,
                    now_ms,
                    BUTTON_COUNT as int,
                ),
            )
            &&& after.mode == ctx
            &&& after.click == basic_click_state(tokens, ctx, before.click, report@)
            &&& after.held == report_pressed(report@)
            &&& after.timers == timers_after(before.timers, now_ms)
        },
        ReadOutcome::Timeout => {
            &&& r matches Some(e) && e.actions@.len() == 0 && e.motion == (0i32, 0i32)
                && firings_match(
                e.firings@,
                pass_firings(
                    tokens,
                    before.mode,
                    before.held,
                    before.held,
                    before.timers,
                    now_ms,
                    BUTTON_COUNT as int,
                ),
            )
            &&& after.mode == before.mode
            &&& after.click == before.click
            &&& after.held == before.held
            &&& after.timers == timers_after(before.timers, now_ms)
        },
        ReadOutcome::Failed => r is None && after == before,
    }
}

/// A mapper for one device: its context, pointer and button states, repeat
/// timers, compiled programs and the configuration epoch it last saw.
pub struct Mapper {
    mode: Mode,
    click_state: ClickState,
    button_state: Vec<bool>,
    button_timer: Vec<RepeatTimer>,
    button_configs_token: ButtonConfigsToken,
    last_epoch: u32,
    serial_number: String,
}

impl View for Mapper {
    type V = MapperModel;

    closed spec fn view(&self) -> MapperModel {
        MapperModel {
            mode: self.mode,
            click: self.click_state,
            held: self.button_state@,
            timers: self.button_timer@,
            epoch: self.last_epoch,
            serial: self.serial_number@,
        }
    }
}

impl Mapper {
    #[verifier::type_invariant]
    spec fn inv(&self) -> bool {
        self@.wf()
    }

    /// The compiled programs the mapper currently uses.
    pub closed spec fn tokens(&self) -> ButtonConfigsToken {
        self.button_configs_token
    }

    /// A mapper for the device `serial_number`, using the compiled form of
    /// `configs`, having seen configuration epoch `epoch`, with every button
    /// released and every repeat timer started at `now_ms`.
    pub fn new<F: Fn(String) -> StateToken>(
        serial_number: String,
        configs: &ButtonConfigs,
        compile: &F,
        epoch: u32,
        now_ms: u64,
    ) -> (r: Mapper)
        requires
            forall|s: String| compile.requires((s,)),
        ensures
            r@.mode == Mode::Normal(0),
            r@.click == (ClickState { left: false, right: false, middle: false }),
            r@.held.len() == BUTTON_COUNT,
            r@.timers.len() == BUTTON_COUNT,
            forall|k: int| 0 <= k < BUTTON_COUNT ==> !#[trigger] r@.held[k],
            forall|k: int|
                0 <= k < BUTTON_COUNT ==> #[trigger] r@.timers[k] == (RepeatTimer {
                    interval_ms: REPEAT_INTERVAL_MS,
                    last_ms: now_ms,
                }),
            r@.epoch == epoch,
            r@.serial == serial_number@,
            r@.wf(),
            forall|b: int, t: int, m: int|
                0 <= b < BUTTON_COUNT && 0 <= t < 2 && 0 <= m < MODE_COUNT ==> compiled_slot(
                    *compile,
                    configs.entries(b, t),
                    m,
                    #[trigger] r.tokens().program(b, t, m),
                ),
    {
        let mut button_state: Vec<bool> = Vec::new();
        let mut button_timer: Vec<RepeatTimer> = Vec::new();
        let mut k: usize = 0;
        while k < BUTTON_COUNT
            invariant
                k <= BUTTON_COUNT,
                button_state@.len() == k,
                button_timer@.len() == k,
                forall|j: int| 0 <= j < k ==> !#[trigger] button_state@[j],
                forall|j: int|
                    0 <= j < k ==> #[trigger] button_timer@[j]
                        == (RepeatTimer { interval_ms: REPEAT_INTERVAL_MS, last_ms: now_ms }),
            decreases BUTTON_COUNT - k,
        {
            button_state.push(false);
            button_timer.push(RepeatTimer::new(REPEAT_INTERVAL_MS, now_ms));
            k = k + 1;
        }
        Mapper {
            mode: Mode::Normal(0),
            click_state: ClickState { left: false, right: false, middle: false },
            button_state,
            button_timer,
            button_configs_token: ButtonConfigsToken::from_config(configs, compile),
            last_epoch: epoch,
            serial_number,
        }
    }
}

impl Mapper {
    /// Whether the current context is a shift layer.
    fn is_shift_mode(&self) -> (r: bool)
        ensures
            r == self@.mode.is_shift(),
    {
        self.mode.is_shift()
    }

    /// The absolute mode of the current context.
    fn absolute_mode(&self) -> (r: usize)
        ensures
            r == self@.mode.absolute(),
            r < MODE_COUNT,
    {
        proof {
            use_type_invariant(self);
        }
        self.mode.absolute() as usize
    }

    /// The program of button `b` (configuration-list order) in the current context.
    fn get_state_token(&self, b: usize) -> (r: &StateToken)
        requires
            b < BUTTON_COUNT,
        ensures
            *r == self.tokens().program(b as int, layer_of(self@.mode), self@.mode.absolute() as int),
    {
        let t: usize = if self.is_shift_mode() {
            1
        } else {
            0
        };
        let m = self.absolute_mode();
        self.button_configs_token.get(b, t, m)
    }

    /// Evaluates the button at position `k`: appends its down or up phase on
    /// an edge, then its repeat phase when its timer ticks while it is held.
    fn emulate_button_config_token(
        &self,
        k: usize,
        previous: bool,
        current: bool,
        timer: &mut RepeatTimer,
        now_ms: u64,
        out: &mut Vec<Firing>,
    )
        requires
            k < BUTTON_COUNT,
        ensures
            ({
                let slot = slot_firings(self.tokens(), self@.mode, k as int, previous, current, *old(timer), now_ms);
                &&& final(out)@.len() == old(out)@.len() + slot.len()
                &&& forall|i: int| 0 <= i < old(out)@.len() ==> #[trigger] final(out)@[i] == old(out)@[i]
                &&& forall|i: int| 0 <= i < slot.len() ==> #[trigger] final(out)@[old(out)@.len() + i]@ == slot[i]
            }),
            *final(timer) == old(timer).after_check(now_ms),
    {
        let p = self.get_state_token(config_index(k));
        if current != previous {
            if current {
                out.push(Firing { button: LogicalButton::at(k), trigger: Trigger::Down, tokens: copy_tokens(&p.down) });
            } else {
                out.push(Firing { button: LogicalButton::at(k), trigger: Trigger::Up, tokens: copy_tokens(&p.up) });
            }
        }
        if timer.check(now_ms) && current {
            out.push(Firing { button: LogicalButton::at(k), trigger: Trigger::Repeat, tokens: copy_tokens(&p.repeat) });
        }
    }

    /// Evaluates every button in order: fires edges against the remembered
    /// states and repeats on timer ticks, then remembers the new states. With
    /// no report the remembered states stand, so only repeats can fire.
    fn mapped_emulation(&mut self, report: Option<&[u8; 8]>, now_ms: u64) -> (r: Vec<Firing>)
        ensures
            ({
                let pressed = match report {
                    Some(rp) => report_pressed(rp@),
                    None => old(self)@.held,
                };
                &&& firings_match(
                    r@,
                    pass_firings(
                        old(self).tokens(),
                        old(self)@.mode,
                        old(self)@.held,
                        pressed,
                        old(self)@.timers,
                        now_ms,
                        BUTTON_COUNT as int,
                    ),
                )
                &&& final(self)@.held == pressed
            }),
            final(self)@.timers == timers_after(old(self)@.timers, now_ms),
            final(self)@.mode == old(self)@.mode,
            final(self)@.click == old(self)@.click,
            final(self)@.epoch == old(self)@.epoch,
            final(self)@.serial == old(self)@.serial,
            final(self).tokens() == old(self).tokens(),
    {
        proof {
            use_type_invariant(&*self);
        }
        let ghost pressed = match report {
            Some(rp) => report_pressed(rp@),
            None => self@.held,
        };
        let ghost tokens = self.tokens();
        let ghost ctx = self@.mode;
        let ghost held = self@.held;
        let ghost timers = self@.timers;
        let mut out: Vec<Firing> = Vec::new();
        let mut new_state: Vec<bool> = Vec::new();
        let mut new_timer: Vec<RepeatTimer> = Vec::new();
        let mut k: usize = 0;
        while k < BUTTON_COUNT
            invariant
                k <= BUTTON_COUNT,
                self.tokens() == tokens,
                self@.mode == ctx,
                self@.held == held,
                self@.timers == timers,
                held.len() == BUTTON_COUNT,
                timers.len() == BUTTON_COUNT,
                pressed.len() == BUTTON_COUNT,
                ctx.wf(),
                match report {
                    Some(rp) => pressed == report_pressed(rp@),
                    None => pressed == held,
                },
                new_state@ == pressed.subrange(0, k as int),
                new_timer@ == timers_after(timers, now_ms).subrange(0, k as int),
                firings_match(out@, pass_firings(tokens, ctx, held, pressed, timers, now_ms, k as int)),
            decreases BUTTON_COUNT - k,
        {
            let previous = self.button_state[k];
            let current = match report {
                Some(rp) => is_pressed(rp, k),
                None => previous,
            };
            assert(current == pressed[k as int]);
            let ghost before = out@;
            let ghost expected = pass_firings(tokens, ctx, held, pressed, timers, now_ms, k as int);
            let ghost slot = slot_firings(tokens, ctx, k as int, held[k as int], pressed[k as int], timers[k as int], now_ms);
            let mut timer = self.button_timer[k];
            self.emulate_button_config_token(k, previous, current, &mut timer, now_ms, &mut out);
            new_state.push(current);
            new_timer.push(timer);
            proof {
                assert(out@.len() == before.len() + slot.len());
                assert forall|i: int| 0 <= i < out@.len() implies #[trigger] out@[i]@ == (expected + slot)[i] by {
                    if i < before.len() {
                        assert(out@[i] == before[i]);
                    } else {
                        assert(out@[before.len() + (i - before.len())] == out@[i]);
                    }
                }
                assert(pass_firings(tokens, ctx, held, pressed, timers, now_ms, k + 1) == expected + slot);
            }
            k = k + 1;
            assert(new_state@ =~= pressed.subrange(0, k as int));
            assert(new_timer@ =~= timers_after(timers, now_ms).subrange(0, k as int));
        }
        assert(new_state@ =~= pressed);
        assert(new_timer@ =~= timers_after(timers, now_ms));
        self.button_state = new_state;
        self.button_timer = new_timer;
        out
    }
}

/// What one read of the device's interrupt endpoint gave.
pub enum ReadOutcome {
    /// A fresh report.
    Report([u8; 8]),
    /// No report within the read timeout.
    Timeout,
    /// Any other failure: the device is gone.
    Failed,
}

/// Press or release of a pointer button, appended to `actions` when its state changed.
fn push_click(actions: &mut Vec<InputAction>, before: bool, after: bool, button: MouseButton)
    ensures
        final(actions)@ == old(actions)@ + click_actions(before, after, button),
{
    if before != after {
        if after {
            actions.push(InputAction::MouseDown(button));
        } else {
            actions.push(InputAction::MouseUp(button));
        }
    }
    assert(final(actions)@ =~= old(actions)@ + click_actions(before, after, button));
}

impl Mapper {
    /// Pointer buttons and wheel of a full cycle. The middle button is
    /// emulated only while the scroll button has no macro in the current
    /// context.
    fn basic_emulation(&mut self, report: &[u8; 8]) -> (r: Vec<InputAction>)
        ensures
            r@ == basic_actions(old(self).tokens(), old(self)@.mode, old(self)@.click, report@),
            final(self)@.click == basic_click_state(
                old(self).tokens(),
                old(self)@.mode,
                old(self)@.click,
                report@,
            ),
            final(self)@.mode == old(self)@.mode,
            final(self)@.held == old(self)@.held,
            final(self)@.timers == old(self)@.timers,
            final(self)@.epoch == old(self)@.epoch,
            final(self)@.serial == old(self)@.serial,
            final(self).tokens() == old(self).tokens(),
    {
        proof {
            use_type_invariant(&*self);
        }
        let left = report[0] & 1 != 0;
        let right = report[0] & 2 != 0;
        let middle = report[0] & 4 != 0;
        let middle_emulation = self.get_state_token(SCROLL_BUTTON_CONFIG_INDEX).has_no_tokens();
        let mut click = self.click_state;
        let mut actions: Vec<InputAction> = Vec::new();
        push_click(&mut actions, click.left, left, MouseButton::Left);
        click.left = left;
        if middle_emulation {
            push_click(&mut actions, click.middle, middle, MouseButton::Middle);
            click.middle = middle;
        }
        push_click(&mut actions, click.right, right, MouseButton::Right);
        click.right = right;
        if report[7] == 1 {
            actions.push(InputAction::ScrollY(-1));
        }
        if report[7] == 255 {
            actions.push(InputAction::ScrollY(1));
        }
        assert(actions@ =~= basic_actions(self.tokens(), self@.mode, self@.click, report@));
        self.click_state = click;
        actions
    }

    /// A full cycle on a fresh report: take the context from the mode byte,
    /// emulate pointer buttons, motion and wheel, then evaluate every button.
    pub fn emulate(&mut self, report: &[u8; 8], now_ms: u64) -> (r: Emulation)
        ensures
            final(self)@.mode == context_of(report@[2]),
            final(self)@.click == basic_click_state(
                old(self).tokens(),
                context_of(report@[2]),
                old(self)@.click,
                report@,
            ),
            r.actions@ == basic_actions(
                old(self).tokens(),
                context_of(report@[2]),
                old(self)@.click,
                report@,
            ),
            r.motion.0 == report_motion(report@).0,
            r.motion.1 == report_motion(report@).1,
            firings_match(
                r.firings@,
                pass_firings(
                    old(self).tokens(),
                    context_of(report@[2]),
                    old(self)@.held,
                    report_pressed(report@),
                    old(self)@.timers,
                    now_ms,
                    BUTTON_COUNT as int,
                ),
            ),
            final(self)@.held == report_pressed(report@),
            final(self)@.timers == timers_after(old(self)@.timers, now_ms),
            final(self)@.epoch == old(self)@.epoch,
            final(self)@.serial == old(self)@.serial,
            final(self).tokens() == old(self).tokens(),
            final(self)@.wf(),
            final(self)@ == run(old(self).tokens(), old(self)@, seq![report@], seq![now_ms]).0,
            firings_match(
                r.firings@,
                run(old(self).tokens(), old(self)@, seq![report@], seq![now_ms]).1,
            ),
    {
        proof {
            use_type_invariant(&*self);
        }
        let ghost before = self@;
        let ghost tokens = self.tokens();
        self.mode = decode_context(report[2]);
        let actions = self.basic_emulation(report);
        let motion = (relative_delta(report[3]), relative_delta(report[5]));
        let firings = self.mapped_emulation(Some(report), now_ms);
        proof {
            use_type_invariant(&*self);
            let reports = seq![report@];
            let times = seq![now_ms];
            assert(reports.drop_last() =~= Seq::<Seq<u8>>::empty());
            assert(times.drop_last() =~= Seq::<u64>::empty());
            let pass = pass_firings(
                tokens,
                context_of(report@[2]),
                before.held,
                report_pressed(report@),
                before.timers,
                now_ms,
                BUTTON_COUNT as int,
            );
            assert(Seq::<FiringView>::empty() + pass =~= pass);
            assert(run(tokens, before, reports.drop_last(), times.drop_last()) == (
            before,
            Seq::<FiringView>::empty(),
            ));
            assert(reports.last() == report@);
            assert(times[0] == now_ms);
            assert(run(tokens, before, reports, times).1 == pass);
        }
        Emulation { actions, motion, firings }
    }

    /// A cycle without a fresh report: the context and button states stand,
    /// and only repeat timers are evaluated.
    pub fn emulate_only_mapped(&mut self, now_ms: u64) -> (r: Vec<Firing>)
        ensures
            firings_match(
                r@,
                pass_firings(
                    old(self).tokens(),
                    old(self)@.mode,
                    old(self)@.held,
                    old(self)@.held,
                    old(self)@.timers,
                    now_ms,
                    BUTTON_COUNT as int,
                ),
            ),
            final(self)@.held == old(self)@.held,
            final(self)@.timers == timers_after(old(self)@.timers, now_ms),
            final(self)@.mode == old(self)@.mode,
            final(self)@.click == old(self)@.click,
            final(self)@.epoch == old(self)@.epoch,
            final(self)@.serial == old(self)@.serial,
            final(self).tokens() == old(self).tokens(),
            final(self)@.wf(),
    {
        let r = self.mapped_emulation(None, now_ms);
        proof {
            use_type_invariant(&*self);
        }
        r
    }

    /// Acts on one read of the device: a full cycle on a report, a timer-only
    /// cycle on a timeout, and `None`, with the mapper untouched, when the
    /// device failed.
    pub fn handle_read(&mut self, outcome: &ReadOutcome, now_ms: u64) -> (r: Option<Emulation>)
        ensures
            read_step(old(self).tokens(), old(self)@, *outcome, now_ms, final(self)@, r),
            final(self)@.epoch == old(self)@.epoch,
            final(self)@.serial == old(self)@.serial,
            final(self).tokens() == old(self).tokens(),
            final(self)@.wf(),
    {
        let r = match outcome {
            ReadOutcome::Report(report) => Some(self.emulate(report, now_ms)),
            ReadOutcome::Timeout => {
                let firings = self.emulate_only_mapped(now_ms);
                Some(Emulation { actions: Vec::new(), motion: (0, 0), firings })
            },
            ReadOutcome::Failed => None,
        };
        proof {
            use_type_invariant(&*self);
        }
        r
    }

    /// One cycle of a device session. Unless the read failed, the configuration
    /// is first reloaded through `load` and compiled with `compile` when the
    /// store's epoch moved since the last cycle; the cycle then runs on the
    /// programs now in force.
    pub fn cycle<L: Fn() -> ButtonConfigs, F: Fn(String) -> StateToken>(
        &mut self,
        outcome: &ReadOutcome,
        now_ms: u64,
        epoch: u32,
        load: &L,
        compile: &F,
    ) -> (r: Option<Emulation>)
        requires
            load.requires(()),
            forall|s: String| compile.requires((s,)),
        ensures
            read_step(final(self).tokens(), old(self)@, *outcome, now_ms, final(self)@, r),
            *outcome is Failed ==> final(self)@ == old(self)@ && final(self).tokens() == old(
                self,
            ).tokens(),
            !(*outcome is Failed) ==> final(self)@.epoch == epoch,
            !(*outcome is Failed) && old(self)@.epoch != epoch ==> exists|c: ButtonConfigs|
                #[trigger] load.ensures((), c) && forall|b: int, t: int, m: int|
                    0 <= b < BUTTON_COUNT && 0 <= t < 2 && 0 <= m < MODE_COUNT ==> compiled_slot(
                        *compile,
                        c.entries(b, t),
                        m,
                        #[trigger] final(self).tokens().program(b, t, m),
                    ),
            old(self)@.epoch == epoch ==> final(self).tokens() == old(self).tokens(),
            final(self)@.serial == old(self)@.serial,
            final(self)@.wf(),
    {
        if let ReadOutcome::Failed = outcome {
            proof {
                use_type_invariant(&*self);
            }
            return None;
        }
        if self.config_has_change(epoch) {
            let configs = load();
            self.reload(&configs, compile);
            let r = self.handle_read(outcome, now_ms);
            assert(load.ensures((), configs));
            return r;
        }
        self.handle_read(outcome, now_ms)
    }
    /// Compares the store's configuration epoch with the one this mapper last
    /// saw, and remembers it; `true` means the configuration must be reloaded.
    pub fn config_has_change(&mut self, epoch: u32) -> (changed: bool)
        ensures
            changed == (old(self)@.epoch != epoch),
            final(self)@.epoch == epoch,
            final(self)@.mode == old(self)@.mode,
            final(self)@.click == old(self)@.click,
            final(self)@.held == old(self)@.held,
            final(self)@.timers == old(self)@.timers,
            final(self)@.serial == old(self)@.serial,
            final(self).tokens() == old(self).tokens(),
            final(self)@.wf(),
    {
        proof {
            use_type_invariant(&*self);
        }
        let changed = self.last_epoch != epoch;
        if changed {
            self.last_epoch = epoch;
        }
        proof {
            use_type_invariant(&*self);
        }
        changed
    }

    /// Replaces every program by the compiled form of `configs`; the rest of
    /// the state stands.
    pub fn reload<F: Fn(String) -> StateToken>(&mut self, configs: &ButtonConfigs, compile: &F)
        requires
            forall|s: String| compile.requires((s,)),
        ensures
            final(self)@ == old(self)@,
            forall|b: int, t: int, m: int|
                0 <= b < BUTTON_COUNT && 0 <= t < 2 && 0 <= m < MODE_COUNT ==> compiled_slot(
                    *compile,
                    configs.entries(b, t),
                    m,
                    #[trigger] final(self).tokens().program(b, t, m),
                ),
            final(self)@.wf(),
    {
        proof {
            use_type_invariant(&*self);
        }
        self.button_configs_token = ButtonConfigsToken::from_config(configs, compile);
        proof {
            use_type_invariant(&*self);
        }
    }

    /// The serial number of the device this mapper serves.
    pub fn serial_number(&self) -> (r: &String)
        ensures
            r@ == self@.serial,
    {
        &self.serial_number
    }

    /// The current operating context.
    pub fn mode(&self) -> (r: Mode)
        ensures
            r == self@.mode,
            r.wf(),
    {
        proof {
            use_type_invariant(self);
        }
        self.mode
    }

    /// Whether the button at evaluation position `k` was held in the last report.
    pub fn is_held(&self, k: usize) -> (r: bool)
        requires
            k < BUTTON_COUNT,
        ensures
            r == self@.held[k as int],
    {
        proof {
            use_type_invariant(self);
        }
        self.button_state[k]
    }
}

/// A button fires its down phase once on a press edge and its up phase once on
/// a release edge, first in its slot, and nothing but its repeat phase
/// otherwise; the repeat phase fires exactly when its timer ticks while the
/// button is held.
pub proof fn lemma_edges_fire_once(
    tokens: ButtonConfigsToken,
    ctx: Mode,
    k: int,
    held: bool,
    pressed: bool,
    timer: RepeatTimer,
    now_ms: u64,
)
    ensures
        ({
            let f = slot_firings(tokens, ctx, k, held, pressed, timer, now_ms);
            &&& (!held && pressed) ==> f.len() >= 1 && f[0].trigger == Trigger::Down
            &&& (held && !pressed) ==> f.len() == 1 && f[0].trigger == Trigger::Up
            &&& forall|i: int|
                0 <= i < f.len() && (i > 0 || held == pressed) ==> #[trigger] f[i].trigger
                    == Trigger::Repeat
            &&& (exists|i: int| 0 <= i < f.len() && #[trigger] f[i].trigger == Trigger::Repeat)
                <==> (timer.is_due(now_ms) && pressed)
        }),
{
    let f = slot_firings(tokens, ctx, k, held, pressed, timer, now_ms);
    if timer.is_due(now_ms) && pressed {
        assert(f[f.len() - 1].trigger == Trigger::Repeat);
    }
}

/// When every remembered state equals the pressed state (two identical
/// reports in a row, or a cycle without a report), a cycle fires only repeat
/// phases: never a second down or up.
pub proof fn lemma_no_edges_without_change(
    tokens: ButtonConfigsToken,
    ctx: Mode,
    held: Seq<bool>,
    timers: Seq<RepeatTimer>,
    now_ms: u64,
    n: int,
)
    ensures
        forall|i: int|
            0 <= i < pass_firings(tokens, ctx, held, held, timers, now_ms, n).len() ==> (
            #[trigger] pass_firings(tokens, ctx, held, held, timers, now_ms, n)[i]).trigger
                == Trigger::Repeat,
    decreases n,
{
    if n > 0 {
        lemma_no_edges_without_change(tokens, ctx, held, timers, now_ms, n - 1);
        let before = pass_firings(tokens, ctx, held, held, timers, now_ms, n - 1);
        let slot = slot_firings(tokens, ctx, n - 1, held[n - 1], held[n - 1], timers[n - 1], now_ms);
        lemma_edges_fire_once(tokens, ctx, n - 1, held[n - 1], held[n - 1], timers[n - 1], now_ms);
        let all = pass_firings(tokens, ctx, held, held, timers, now_ms, n);
        assert(all == before + slot);
        assert forall|i: int| 0 <= i < all.len() implies #[trigger] all[i].trigger == Trigger::Repeat by {
            if i < before.len() {
                assert(all[i] == before[i]);
            } else {
                assert(all[i] == slot[i - before.len()]);
            }
        }
    }
}

/// Repeats of one button are never closer than its period: after a cycle at
/// `first_ms` in which it fired its repeat phase, the next cycle (full or
/// without a report) at `second_ms` fires it again only if at least the
/// period has passed since `first_ms`.
pub proof fn lemma_repeat_cadence(
    tokens: ButtonConfigsToken,
    first_ctx: Mode,
    second_ctx: Mode,
    k: int,
    held: bool,
    first_pressed: bool,
    second_pressed: bool,
    timer: RepeatTimer,
    first_ms: u64,
    second_ms: u64,
)
    requires
        exists|i: int|
            0 <= i < slot_firings(tokens, first_ctx, k, held, first_pressed, timer, first_ms).len()
                && (#[trigger] slot_firings(
                tokens,
                first_ctx,
                k,
                held,
                first_pressed,
                timer,
                first_ms,
            )[i]).trigger == Trigger::Repeat,
    ensures
        (exists|i: int|
            0 <= i < slot_firings(
                tokens,
                second_ctx,
                k,
                first_pressed,
                second_pressed,
                timer.after_check(first_ms),
                second_ms,
            ).len() && (#[trigger] slot_firings(
                tokens,
                second_ctx,
                k,
                first_pressed,
                second_pressed,
                timer.after_check(first_ms),
                second_ms,
            )[i]).trigger == Trigger::Repeat) ==> second_ms - first_ms >= timer.interval_ms,
{
    lemma_edges_fire_once(tokens, first_ctx, k, held, first_pressed, timer, first_ms);
    lemma_edges_fire_once(
        tokens,
        second_ctx,
        k,
        first_pressed,
        second_pressed,
        timer.after_check(first_ms),
        second_ms,
    );
}

/// Whether a slot's firings include its repeat phase.
pub open spec fn repeats(f: Seq<FiringView>) -> bool {
    exists|i: int| 0 <= i < f.len() && #[trigger] f[i].trigger == Trigger::Repeat
}

/// In a well-formed mapper a button repeats at most once per repeat period:
/// after a cycle at `first_ms` in which the button at position `k` fired its
/// repeat phase, the next cycle at `second_ms`, with or without a report,
/// fires it again only if `REPEAT_INTERVAL_MS` have passed, and the mapper
/// stays well formed.
pub proof fn lemma_repeat_period(
    tokens: ButtonConfigsToken,
    model: MapperModel,
    first_ctx: Mode,
    second_ctx: Mode,
    k: int,
    first_pressed: bool,
    second_pressed: bool,
    first_ms: u64,
    second_ms: u64,
)
    requires
        model.wf(),
        0 <= k < BUTTON_COUNT,
        repeats(slot_firings(tokens, first_ctx, k, model.held[k], first_pressed, model.timers[k], first_ms)),
    ensures
        repeats(
            slot_firings(
                tokens,
                second_ctx,
                k,
                first_pressed,
                second_pressed,
                timers_after(model.timers, first_ms)[k],
                second_ms,
            ),
        ) ==> second_ms - first_ms >= REPEAT_INTERVAL_MS,
        timers_after(model.timers, first_ms)[k].interval_ms == REPEAT_INTERVAL_MS,
{
    let timer = model.timers[k];
    assert(timers_after(model.timers, first_ms)[k] == timer.after_check(first_ms));
    lemma_repeat_cadence(
        tokens,
        first_ctx,
        second_ctx,
        k,
        model.held[k],
        first_pressed,
        second_pressed,
        timer,
        first_ms,
        second_ms,
    );
}

/// Hot reload takes effect at once: once a mapper holds the compiled form of
/// a configuration, the program that a cycle reads for the button at
/// evaluation position `k` in context `ctx` is the compiled form of that
/// button's entry in the new configuration.
pub proof fn lemma_hot_reload<F: Fn(String) -> StateToken>(
    compile: F,
    configs: ButtonConfigs,
    tokens: ButtonConfigsToken,
    ctx: Mode,
    k: int,
)
    requires
        ctx.wf(),
        0 <= k < BUTTON_COUNT,
        forall|b: int, t: int, m: int|
            0 <= b < BUTTON_COUNT && 0 <= t < 2 && 0 <= m < MODE_COUNT ==> compiled_slot(
                compile,
                configs.entries(b, t),
                m,
                #[trigger] tokens.program(b, t, m),
            ),
    ensures
        compiled_slot(
            compile,
            configs.entries(config_index_at(k), layer_of(ctx)),
            ctx.absolute() as int,
            program_at(tokens, ctx, k),
        ),
{
    assert(0 <= config_index_at(k) < BUTTON_COUNT);
}

/// How many firings of `button` with trigger `trigger` a sequence holds.
pub open spec fn count_fired(f: Seq<FiringView>, button: LogicalButton, trigger: Trigger) -> nat
    decreases f.len(),
{
    if f.len() == 0 {
        0
    } else {
        count_fired(f.drop_last(), button, trigger) + if f.last().button == button
            && f.last().trigger == trigger {
            1nat
        } else {
            0nat
        }
    }
}

/// Whether going from `before` to `after` is an edge of the kind that fires
/// `trigger`: a press for `Down`, a release for `Up`.
pub open spec fn is_edge(before: bool, after: bool, trigger: Trigger) -> bool {
    match trigger {
        Trigger::Down => !before && after,
        Trigger::Up => before && !after,
        Trigger::Repeat => false,
    }
}

/// The mapper state and all firings after full cycles on `reports` at
/// `times`, one after the other, starting from `model` with programs `tokens`.
pub open spec fn run(
    tokens: ButtonConfigsToken,
    model: MapperModel,
    reports: Seq<Seq<u8>>,
    times: Seq<u64>,
) -> (MapperModel, Seq<FiringView>)
    decreases reports.len(),
{
    if reports.len() == 0 {
        (model, seq![])
    } else {
        let (m, f) = run(tokens, model, reports.drop_last(), times.drop_last());
        let report = reports.last();
        let now_ms = times[reports.len() - 1];
        let ctx = context_of(report[2]);
        (
            MapperModel {
                mode: ctx,
                click: basic_click_state(tokens, ctx, m.click, report),
                held: report_pressed(report),
                timers: timers_after(m.timers, now_ms),
                epoch: m.epoch,
                serial: m.serial,
            },
            f + pass_firings(tokens, ctx, m.held, report_pressed(report), m.timers, now_ms, BUTTON_COUNT as int),
        )
    }
}

/// A run extends one cycle at a time: running one more report continues
/// from the state the shorter run ended in, and appends that cycle's
/// firings, which is what one more call of `Mapper::emulate` does.
pub proof fn lemma_run_extends(
    tokens: ButtonConfigsToken,
    model: MapperModel,
    reports: Seq<Seq<u8>>,
    times: Seq<u64>,
    report: Seq<u8>,
    now_ms: u64,
)
    requires
        times.len() == reports.len(),
    ensures
        ({
            let (m, f) = run(tokens, model, reports, times);
            let (m1, f1) = run(tokens, m, seq![report], seq![now_ms]);
            &&& run(tokens, model, reports.push(report), times.push(now_ms)).0 == m1
            &&& run(tokens, model, reports.push(report), times.push(now_ms)).1 == f + f1
        }),
{
    let (m, f) = run(tokens, model, reports, times);
    assert(reports.push(report).drop_last() =~= reports);
    assert(times.push(now_ms).drop_last() =~= times);
    assert(seq![report].drop_last() =~= Seq::<Seq<u8>>::empty());
    assert(seq![now_ms].drop_last() =~= Seq::<u64>::empty());
    assert(run(tokens, m, Seq::<Seq<u8>>::empty(), Seq::<u64>::empty()) == (m, Seq::<FiringView>::empty()));
    let pass = run(tokens, m, seq![report], seq![now_ms]).1;
    assert(Seq::<FiringView>::empty() + pass_firings(
        tokens,
        context_of(report[2]),
        m.held,
        report_pressed(report),
        m.timers,
        now_ms,
        BUTTON_COUNT as int,
    ) =~= pass_firings(
        tokens,
        context_of(report[2]),
        m.held,
        report_pressed(report),
        m.timers,
        now_ms,
        BUTTON_COUNT as int,
    ));
}

/// How many edges of the kind that fires `trigger` the button at position
/// `k` goes through over `reports`, starting from state `start`.
pub open spec fn edges(start: bool, reports: Seq<Seq<u8>>, k: int, trigger: Trigger) -> nat
    decreases reports.len(),
{
    if reports.len() == 0 {
        0
    } else {
        let before = if reports.len() == 1 {
            start
        } else {
            pressed_at(reports[reports.len() - 2], k)
        };
        edges(start, reports.drop_last(), k, trigger) + if is_edge(
            before,
            pressed_at(reports.last(), k),
            trigger,
        ) {
            1nat
        } else {
            0nat
        }
    }
}

proof fn lemma_count_concat(a: Seq<FiringView>, b: Seq<FiringView>, button: LogicalButton, trigger: Trigger)
    ensures
        count_fired(a + b, button, trigger) == count_fired(a, button, trigger) + count_fired(b, button, trigger),
    decreases b.len(),
{
    if b.len() > 0 {
        lemma_count_concat(a, b.drop_last(), button, trigger);
        assert((a + b).drop_last() =~= a + b.drop_last());
    } else {
        assert(a + b =~= a);
    }
}

proof fn lemma_count_slot(
    tokens: ButtonConfigsToken,
    ctx: Mode,
    j: int,
    k: int,
    held: bool,
    pressed: bool,
    timer: RepeatTimer,
    now_ms: u64,
    trigger: Trigger,
)
    requires
        0 <= j < BUTTON_COUNT,
        0 <= k < BUTTON_COUNT,
        trigger != Trigger::Repeat,
    ensures
        count_fired(slot_firings(tokens, ctx, j, held, pressed, timer, now_ms), button_at(k), trigger)
            == if j == k && is_edge(held, pressed, trigger) {
            1nat
        } else {
            0nat
        },
{
    assert(j != k ==> button_at(j) != button_at(k));
    let p = program_at(tokens, ctx, j);
    let edge = if pressed != held {
        seq![
            FiringView {
                button: button_at(j),
                trigger: if pressed {
                    Trigger::Down
                } else {
                    Trigger::Up
                },
                tokens: if pressed {
                    p.down@
                } else {
                    p.up@
                },
            },
        ]
    } else {
        seq![]
    };
    let repeat = if timer.is_due(now_ms) && pressed {
        seq![FiringView { button: button_at(j), trigger: Trigger::Repeat, tokens: p.repeat@ }]
    } else {
        seq![]
    };
    assert(slot_firings(tokens, ctx, j, held, pressed, timer, now_ms) == edge + repeat);
    lemma_count_concat(edge, repeat, button_at(k), trigger);
    let none = Seq::<FiringView>::empty();
    assert(count_fired(none, button_at(k), trigger) == 0);
    if repeat.len() == 1 {
        assert(repeat.drop_last() =~= none);
        assert(repeat.last().trigger == Trigger::Repeat);
    }
    assert(count_fired(repeat, button_at(k), trigger) == 0);
    if edge.len() == 1 {
        assert(edge.drop_last() =~= none);
        assert(count_fired(edge, button_at(k), trigger) == if edge.last().button == button_at(k)
            && edge.last().trigger == trigger {
            1nat
        } else {
            0nat
        });
    } else {
        assert(count_fired(edge, button_at(k), trigger) == 0);
    }
}

proof fn lemma_count_pass(
    tokens: ButtonConfigsToken,
    ctx: Mode,
    held: Seq<bool>,
    pressed: Seq<bool>,
    timers: Seq<RepeatTimer>,
    now_ms: u64,
    n: int,
    k: int,
    trigger: Trigger,
)
    requires
        0 <= n <= BUTTON_COUNT,
        0 <= k < BUTTON_COUNT,
        trigger != Trigger::Repeat,
    ensures
        count_fired(pass_firings(tokens, ctx, held, pressed, timers, now_ms, n), button_at(k), trigger)
            == if k < n && is_edge(held[k], pressed[k], trigger) {
            1nat
        } else {
            0nat
        },
    decreases n,
{
    if n > 0 {
        lemma_count_pass(tokens, ctx, held, pressed, timers, now_ms, n - 1, k, trigger);
        lemma_count_concat(
            pass_firings(tokens, ctx, held, pressed, timers, now_ms, n - 1),
            slot_firings(tokens, ctx, n - 1, held[n - 1], pressed[n - 1], timers[n - 1], now_ms),
            button_at(k),
            trigger,
        );
        lemma_count_slot(tokens, ctx, n - 1, k, held[n - 1], pressed[n - 1], timers[n - 1], now_ms, trigger);
    }
}

/// Over any run of full cycles, each button fires its down phase exactly once
/// per press edge and its up phase exactly once per release edge between
/// consecutive reports (the first report compared with the starting state),
/// so identical consecutive reports never fire either twice.
pub proof fn lemma_edges_over_run(
    tokens: ButtonConfigsToken,
    model: MapperModel,
    reports: Seq<Seq<u8>>,
    times: Seq<u64>,
    k: int,
    trigger: Trigger,
)
    requires
        model.held.len() == BUTTON_COUNT,
        times.len() == reports.len(),
        0 <= k < BUTTON_COUNT,
        trigger != Trigger::Repeat,
    ensures
        count_fired(run(tokens, model, reports, times).1, button_at(k), trigger) == edges(
            model.held[k],
            reports,
            k,
            trigger,
        ),
        run(tokens, model, reports, times).0.held[k] == if reports.len() == 0 {
            model.held[k]
        } else {
            pressed_at(reports.last(), k)
        },
        run(tokens, model, reports, times).0.held.len() == BUTTON_COUNT,
    decreases reports.len(),
{
    if reports.len() > 0 {
        let rest = reports.drop_last();
        lemma_edges_over_run(tokens, model, rest, times.drop_last(), k, trigger);
        let (m, f) = run(tokens, model, rest, times.drop_last());
        let report = reports.last();
        let now_ms = times[reports.len() - 1];
        let ctx = context_of(report[2]);
        let pressed = report_pressed(report);
        lemma_count_concat(
            f,
            pass_firings(tokens, ctx, m.held, pressed, m.timers, now_ms, BUTTON_COUNT as int),
            button_at(k),
            trigger,
        );
        lemma_count_pass(tokens, ctx, m.held, pressed, m.timers, now_ms, BUTTON_COUNT as int, k, trigger);
        if reports.len() >= 2 {
            assert(rest.last() == reports[reports.len() - 2]);
        }
    }
}

} // verus!
