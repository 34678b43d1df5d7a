use mmo7::config::{ButtonConfig, ButtonConfigs};
use mmo7::mapper::{Firing, Mapper, ReadOutcome, Trigger};
use mmo7::motion::MotionAccumulator;
use mmo7::program::{InputAction, Key, MouseButton, StateToken, Token};
use mmo7::report::{decode_context, relative_delta, LogicalButton, Mode};

fn compile(spec: String) -> StateToken {
    if spec.is_empty() {
        StateToken { down: vec![], repeat: vec![], up: vec![] }
    } else {
        StateToken {
            down: vec![Token::Sequence(spec.clone())],
            repeat: vec![Token::Unicode(spec.clone())],
            up: vec![Token::KeyUp(Key::Shift)],
        }
    }
}

fn configs_with(index: usize, normal: &[&str], shift: &[&str]) -> ButtonConfigs {
    let mut list: Vec<ButtonConfig> = (0..15).map(|_| [vec![], vec![]]).collect();
    list[index] = [
        normal.iter().map(|s| s.to_string()).collect(),
        shift.iter().map(|s| s.to_string()).collect(),
    ];
    ButtonConfigs::from_config(&list)
}

fn plain_mapper(now_ms: u64) -> Mapper {
    Mapper::new("SN1".to_string(), &ButtonConfigs::default(), &compile, 0, now_ms)
}

fn count(firings: &[Firing], trigger: Trigger) -> usize {
    firings.iter().filter(|f| f.trigger == trigger).count()
}

#[test]
fn left_click_with_motion_report() {
    let mut mapper = plain_mapper(0);
    let out = mapper.emulate(&[0x01, 0, 0, 10, 0, 0, 0, 0], 0);
    assert_eq!(out.actions, vec![InputAction::MouseDown(MouseButton::Left)]);
    assert_eq!(out.motion, (10, 0));
    let mut acc = MotionAccumulator::new();
    assert!(acc.accumulate(out.motion.0, out.motion.1));
    assert_eq!(acc, MotionAccumulator { dx: 10, dy: 0 });
    let again = mapper.emulate(&[0x01, 0, 0, 0, 0, 0, 0, 0], 10);
    assert!(again.actions.is_empty());
    let release = mapper.emulate(&[0, 0, 0, 0, 0, 0, 0, 0], 20);
    assert_eq!(release.actions, vec![InputAction::MouseUp(MouseButton::Left)]);
}

#[test]
fn undefined_mode_values_fall_back_to_normal_zero() {
    assert_eq!(decode_context(3), Mode::Normal(0));
    assert_eq!(decode_context(7), Mode::Normal(0));
    assert_eq!(decode_context(0), Mode::Normal(0));
    assert_eq!(decode_context(0b1111_1011), Mode::Normal(0));
    let mut mapper = plain_mapper(0);
    mapper.emulate(&[0, 0, 5, 0, 0, 0, 0, 0], 0);
    assert_eq!(mapper.mode(), Mode::Shift(1));
    mapper.emulate(&[0, 0, 3, 0, 0, 0, 0, 0], 1);
    assert_eq!(mapper.mode(), Mode::Normal(0));
    mapper.emulate(&[0, 0, 6, 0, 0, 0, 0, 0], 2);
    mapper.emulate(&[0, 0, 7, 0, 0, 0, 0, 0], 3);
    assert_eq!(mapper.mode(), Mode::Normal(0));
}

#[test]
fn context_decoding_of_every_low_value() {
    let expected = [
        Mode::Normal(0),
        Mode::Normal(1),
        Mode::Normal(2),
        Mode::Normal(0),
        Mode::Shift(0),
        Mode::Shift(1),
        Mode::Shift(2),
        Mode::Normal(0),
    ];
    for v in 0u8..=255 {
        assert_eq!(decode_context(v), expected[(v & 7) as usize]);
    }
}

#[test]
fn context_comes_from_last_full_pass_only() {
    let mut mapper = plain_mapper(0);
    mapper.emulate(&[0, 0, 2, 0, 0, 0, 0, 0], 0);
    assert_eq!(mapper.mode(), Mode::Normal(2));
    mapper.emulate_only_mapped(30);
    assert_eq!(mapper.mode(), Mode::Normal(2));
    mapper.handle_read(&ReadOutcome::Timeout, 60);
    assert_eq!(mapper.mode(), Mode::Normal(2));
    mapper.emulate(&[0, 0, 4, 0, 0, 0, 0, 0], 90);
    assert_eq!(mapper.mode(), Mode::Shift(0));
}

#[test]
fn wheel_byte_scrolls_one_notch() {
    let mut mapper = plain_mapper(0);
    let down = mapper.emulate(&[0, 0, 0, 0, 0, 0, 0, 255], 0);
    assert_eq!(down.actions, vec![InputAction::ScrollY(1)]);
    let none = mapper.emulate(&[0, 0, 0, 0, 0, 0, 0, 2], 1);
    assert!(none.actions.is_empty());
    let up = mapper.emulate(&[0, 0, 0, 0, 0, 0, 0, 1], 2);
    assert_eq!(up.actions, vec![InputAction::ScrollY(-1)]);
}

#[test]
fn held_button_repeats_on_the_period_not_every_report() {
    let mut mapper = Mapper::new("SN1".to_string(), &configs_with(4, &["x"], &[]), &compile, 0, 0);
    let mut repeats = 0;
    let mut downs = 0;
    for t in [0u64, 30, 60, 90, 120] {
        let out = mapper.emulate(&[0x08, 0, 0, 0, 0, 0, 0, 0], t);
        repeats += count(&out.firings, Trigger::Repeat);
        downs += count(&out.firings, Trigger::Down);
    }
    assert_eq!(repeats, 2);
    assert_eq!(downs, 1);
}

#[test]
fn repeat_fires_on_timeout_cycles_while_held() {
    let mut mapper = Mapper::new("SN1".to_string(), &configs_with(4, &["x"], &[]), &compile, 0, 0);
    let first = mapper.emulate(&[0x08, 0, 0, 0, 0, 0, 0, 0], 0);
    assert_eq!(first.firings.len(), 1);
    assert_eq!(first.firings[0].trigger, Trigger::Down);
    assert!(mapper.emulate_only_mapped(25).is_empty());
    let tick = mapper.emulate_only_mapped(50);
    assert_eq!(tick.len(), 1);
    assert_eq!(tick[0].trigger, Trigger::Repeat);
    assert_eq!(tick[0].button, LogicalButton::BackButton);
    assert_eq!(tick[0].tokens, vec![Token::Unicode("x".to_string())]);
    assert!(mapper.emulate_only_mapped(99).is_empty());
    assert_eq!(mapper.emulate_only_mapped(100).len(), 1);
    let release = mapper.emulate(&[0, 0, 0, 0, 0, 0, 0, 0], 120);
    assert_eq!(release.firings.len(), 1);
    assert_eq!(release.firings[0].trigger, Trigger::Up);
    assert!(mapper.emulate_only_mapped(200).is_empty());
}

#[test]
fn edges_fire_once_per_transition() {
    let mut mapper = Mapper::new("SN1".to_string(), &configs_with(3, &["f"], &[]), &compile, 0, 0);
    let press = mapper.emulate(&[0x10, 0, 0, 0, 0, 0, 0, 0], 1);
    assert_eq!(press.firings.len(), 1);
    assert_eq!(press.firings[0].button, LogicalButton::ForwardsButton);
    assert_eq!(press.firings[0].trigger, Trigger::Down);
    assert_eq!(press.firings[0].tokens, vec![Token::Sequence("f".to_string())]);
    let same = mapper.emulate(&[0x10, 0, 0, 0, 0, 0, 0, 0], 2);
    assert_eq!(count(&same.firings, Trigger::Down), 0);
    assert_eq!(count(&same.firings, Trigger::Up), 0);
    let release = mapper.emulate(&[0, 0, 0, 0, 0, 0, 0, 0], 3);
    assert_eq!(release.firings.len(), 1);
    assert_eq!(release.firings[0].trigger, Trigger::Up);
    assert_eq!(release.firings[0].tokens, vec![Token::KeyUp(Key::Shift)]);
}

#[test]
fn buttons_fire_in_report_bit_order() {
    let mut mapper = plain_mapper(0);
    let out = mapper.emulate(&[0xF8, 0x7F, 0x38, 0, 0, 0, 0, 0], 10);
    let order: Vec<LogicalButton> = out.firings.iter().map(|f| f.button).collect();
    assert_eq!(
        order,
        vec![
            LogicalButton::BackButton,
            LogicalButton::ForwardsButton,
            LogicalButton::Button1,
            LogicalButton::Button2,
            LogicalButton::Button3,
            LogicalButton::HatTop,
            LogicalButton::HatBottom,
            LogicalButton::HatLeft,
            LogicalButton::HatRight,
            LogicalButton::PrecisionAim,
            LogicalButton::ThumbClockwise,
            LogicalButton::ThumbAnticlockwise,
            LogicalButton::ScrollButton,
            LogicalButton::LeftActionlock,
            LogicalButton::RightActionlock,
        ]
    );
    assert!(out.firings.iter().all(|f| f.trigger == Trigger::Down && f.tokens.is_empty()));
}

#[test]
fn shift_layer_selects_shift_programs() {
    let configs = configs_with(4, &["n0", "n1"], &["s0"]);
    let mut mapper = Mapper::new("SN1".to_string(), &configs, &compile, 0, 0);
    let normal1 = mapper.emulate(&[0x08, 0, 1, 0, 0, 0, 0, 0], 1);
    assert_eq!(normal1.firings[0].tokens, vec![Token::Sequence("n1".to_string())]);
    mapper.emulate(&[0, 0, 4, 0, 0, 0, 0, 0], 2);
    let shift0 = mapper.emulate(&[0x08, 0, 4, 0, 0, 0, 0, 0], 3);
    assert_eq!(shift0.firings[0].tokens, vec![Token::Sequence("s0".to_string())]);
    mapper.emulate(&[0, 0, 5, 0, 0, 0, 0, 0], 4);
    let shift1 = mapper.emulate(&[0x08, 0, 5, 0, 0, 0, 0, 0], 5);
    assert!(shift1.firings[0].tokens.is_empty());
}

#[test]
fn middle_click_only_without_scroll_button_macro() {
    let mut plain = plain_mapper(0);
    let out = plain.emulate(&[0x04, 0, 0, 0, 0, 0, 0, 0], 0);
    assert_eq!(out.actions, vec![InputAction::MouseDown(MouseButton::Middle)]);
    let mut mapped = Mapper::new("SN1".to_string(), &configs_with(0, &["m"], &[]), &compile, 0, 0);
    let out = mapped.emulate(&[0x04, 0, 0, 0, 0, 0, 0, 0], 0);
    assert!(out.actions.is_empty());
    let out = mapped.emulate(&[0x04, 0, 1, 0, 0, 0, 0, 0], 1);
    assert_eq!(out.actions, vec![InputAction::MouseDown(MouseButton::Middle)]);
}

#[test]
fn primary_buttons_in_fixed_order() {
    let mut mapper = plain_mapper(0);
    let out = mapper.emulate(&[0x07, 0, 0, 0xFF, 0, 0x80, 0, 1], 0);
    assert_eq!(
        out.actions,
        vec![
            InputAction::MouseDown(MouseButton::Left),
            InputAction::MouseDown(MouseButton::Middle),
            InputAction::MouseDown(MouseButton::Right),
            InputAction::ScrollY(-1),
        ]
    );
    assert_eq!(out.motion, (-1, -128));
}

#[test]
fn hot_reload_applies_on_next_cycle() {
    let mut mapper = plain_mapper(0);
    assert!(!mapper.config_has_change(0));
    let before = mapper.emulate(&[0x08, 0, 0, 0, 0, 0, 0, 0], 1);
    assert!(before.firings[0].tokens.is_empty());
    mapper.emulate(&[0, 0, 0, 0, 0, 0, 0, 0], 2);
    assert!(mapper.config_has_change(1));
    mapper.reload(&configs_with(4, &["new"], &[]), &compile);
    assert!(!mapper.config_has_change(1));
    let after = mapper.emulate(&[0x08, 0, 0, 0, 0, 0, 0, 0], 3);
    assert_eq!(after.firings[0].tokens, vec![Token::Sequence("new".to_string())]);
    let mut other = Mapper::new("SN2".to_string(), &ButtonConfigs::default(), &compile, 1, 0);
    assert!(!other.config_has_change(1));
    let untouched = other.emulate(&[0x08, 0, 0, 0, 0, 0, 0, 0], 3);
    assert!(untouched.firings[0].tokens.is_empty());
    assert_eq!(other.serial_number(), "SN2");
}

#[test]
fn failed_read_ends_the_session() {
    let mut mapper = plain_mapper(0);
    assert!(mapper.handle_read(&ReadOutcome::Failed, 5).is_none());
    let out = mapper.handle_read(&ReadOutcome::Report([0x02, 0, 0, 0, 3, 0, 0, 0]), 6).unwrap();
    assert_eq!(out.actions, vec![InputAction::MouseDown(MouseButton::Right)]);
    let idle = mapper.handle_read(&ReadOutcome::Timeout, 7).unwrap();
    assert!(idle.actions.is_empty());
    assert_eq!(idle.motion, (0, 0));
}

#[test]
fn movement_bytes_are_twos_complement() {
    assert_eq!(relative_delta(0), 0);
    assert_eq!(relative_delta(127), 127);
    assert_eq!(relative_delta(128), -128);
    assert_eq!(relative_delta(255), -1);
}

#[test]
fn new_mapper_starts_released() {
    let mapper = plain_mapper(0);
    assert_eq!(mapper.mode(), Mode::Normal(0));
    for k in 0..15 {
        assert!(!mapper.is_held(k));
    }
}

#[test]
fn cycle_reloads_before_the_pass_when_the_epoch_moved() {
    let mut mapper = plain_mapper(0);
    let load = || configs_with(4, &["fresh"], &[]);
    let pressed = ReadOutcome::Report([0x08, 0, 0, 0, 0, 0, 0, 0]);
    let same_epoch = mapper.cycle(&pressed, 1, 0, &load, &compile).unwrap();
    assert!(same_epoch.firings[0].tokens.is_empty());
    mapper.cycle(&ReadOutcome::Report([0; 8]), 2, 0, &load, &compile);
    let bumped = mapper.cycle(&pressed, 3, 1, &load, &compile).unwrap();
    assert_eq!(bumped.firings[0].tokens, vec![Token::Sequence("fresh".to_string())]);
    assert!(!mapper.config_has_change(1));
}

#[test]
fn cycle_reload_applies_to_timeout_passes() {
    let mut mapper = plain_mapper(0);
    let load = || configs_with(4, &["held"], &[]);
    mapper.cycle(&ReadOutcome::Report([0x08, 0, 0, 0, 0, 0, 0, 0]), 0, 0, &load, &compile);
    let tick = mapper.cycle(&ReadOutcome::Timeout, 60, 7, &load, &compile).unwrap();
    assert_eq!(tick.firings.len(), 1);
    assert_eq!(tick.firings[0].trigger, Trigger::Repeat);
    assert_eq!(tick.firings[0].tokens, vec![Token::Unicode("held".to_string())]);
}

#[test]
fn failed_cycle_does_not_reload() {
    let mut mapper = plain_mapper(0);
    let load = || configs_with(4, &["never"], &[]);
    assert!(mapper.cycle(&ReadOutcome::Failed, 1, 5, &load, &compile).is_none());
    assert!(mapper.config_has_change(5));
}

#[test]
fn repeats_never_come_faster_than_the_period() {
    let mut mapper = Mapper::new("SN1".to_string(), &configs_with(4, &["r"], &[]), &compile, 0, 0);
    mapper.emulate(&[0x08, 0, 0, 0, 0, 0, 0, 0], 0);
    let mut last: Option<u64> = None;
    for t in (5..400u64).step_by(7) {
        let firings = if t % 2 == 0 {
            mapper.emulate(&[0x08, 0, 0, 0, 0, 0, 0, 0], t).firings
        } else {
            mapper.emulate_only_mapped(t)
        };
        if count(&firings, Trigger::Repeat) > 0 {
            if let Some(prev) = last {
                assert!(t - prev >= 50);
            }
            last = Some(t);
        }
    }
    assert!(last.is_some());
}

#[test]
fn down_and_up_counts_match_edges_over_a_run() {
    let mut mapper = plain_mapper(0);
    let pattern = [0u8, 0x08, 0x08, 0, 0x08, 0, 0, 0x08, 0x08, 0x08, 0];
    let (mut downs, mut ups, mut rising, mut falling) = (0, 0, 0, 0);
    let mut before = false;
    for (i, byte0) in pattern.iter().enumerate() {
        let out = mapper.emulate(&[*byte0, 0, 0, 0, 0, 0, 0, 0], i as u64 * 10);
        downs += count(&out.firings, Trigger::Down);
        ups += count(&out.firings, Trigger::Up);
        let now = *byte0 & 0x08 != 0;
        rising += (!before && now) as usize;
        falling += (before && !now) as usize;
        before = now;
    }
    assert_eq!((downs, ups), (rising, falling));
    assert_eq!((downs, ups), (3, 3));
}
