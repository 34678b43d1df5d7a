use mmo7::config::{ButtonConfig, ButtonConfigs, ButtonConfigsToken};
use mmo7::motion::MotionAccumulator;
use mmo7::program::{emulate_token_vec, Button, InputAction, Key, ModifierKey, MouseButton, StateToken, Token};
use mmo7::registry::{is_supported_device, DeviceRegistry};
use mmo7::timer::RepeatTimer;

#[test]
fn token_expansion_covers_every_kind() {
    let tokens = vec![
        Token::Sequence("ab".to_string()),
        Token::Unicode("é!".to_string()),
        Token::KeyDown(Key::Shift),
        Token::KeyUp(Key::Command),
        Token::KeyDown(Key::Control),
        Token::KeyUp(Key::Alt),
        Token::MouseDown(Button::Left),
        Token::MouseUp(Button::Middle),
        Token::MouseDown(Button::ScrollUp),
        Token::MouseUp(Button::ScrollLeft),
        Token::Click(Button::Right),
        Token::Click(Button::ScrollUp),
        Token::Click(Button::ScrollDown),
        Token::Click(Button::ScrollLeft),
        Token::Click(Button::ScrollRight),
    ];
    assert_eq!(
        emulate_token_vec(&tokens),
        vec![
            InputAction::KeyClick('a'),
            InputAction::KeyClick('b'),
            InputAction::KeySequence("é!".to_string()),
            InputAction::KeyDown(ModifierKey::Shift),
            InputAction::KeyUp(ModifierKey::Meta),
            InputAction::KeyDown(ModifierKey::Control),
            InputAction::KeyUp(ModifierKey::Alt),
            InputAction::MouseDown(MouseButton::Left),
            InputAction::MouseUp(MouseButton::Middle),
            InputAction::MouseClick(MouseButton::Right),
            InputAction::ScrollY(-1),
            InputAction::ScrollY(1),
            InputAction::ScrollX(-1),
            InputAction::ScrollX(1),
        ]
    );
    assert!(emulate_token_vec(&vec![]).is_empty());
    assert_eq!(
        emulate_token_vec(&vec![Token::Sequence("ñ".to_string())]),
        vec![InputAction::KeyClick('ñ')]
    );
}

#[test]
fn accumulation_sums_deltas() {
    let mut a = MotionAccumulator::new();
    for (dx, dy) in [(3, -2), (5, 7), (-10, 1)] {
        assert!(a.accumulate(dx, dy));
    }
    let mut b = MotionAccumulator::new();
    assert!(b.accumulate(-2, 6));
    assert_eq!(a, b);
    assert_eq!(a.drain(), (-2, 6));
    assert_eq!(a, MotionAccumulator { dx: 0, dy: 0 });
    assert_eq!(a.take(), None);
    assert!(a.accumulate(0, -4));
    assert_eq!(a.take(), Some((0, -4)));
    assert_eq!(a.take(), None);
    let mut full = MotionAccumulator { dx: i32::MAX, dy: 0 };
    assert!(!full.accumulate(1, 0));
    assert_eq!(full, MotionAccumulator { dx: i32::MAX, dy: 0 });
}

#[test]
fn registry_admits_a_serial_once() {
    let mut r = DeviceRegistry::new();
    let sn = "ABC".to_string();
    assert!(r.try_register(&sn));
    assert!(!r.try_register(&sn));
    assert!(r.contains(&sn));
    assert!(r.try_register(&"DEF".to_string()));
    let mut all = r.serials();
    all.sort();
    assert_eq!(all, vec!["ABC".to_string(), "DEF".to_string()]);
    r.unregister(&sn);
    assert!(!r.contains(&sn));
    assert!(r.try_register(&sn));
}

#[test]
fn device_filter_matches_ids() {
    assert!(is_supported_device(0x0738, 0x1713));
    assert!(!is_supported_device(0x0738, 0x1714));
    assert!(!is_supported_device(0x0739, 0x1713));
}

#[test]
fn timer_ticks_after_period() {
    let mut t = RepeatTimer::new(50, 100);
    assert!(!t.check(149));
    assert!(t.check(150));
    assert_eq!(t.last_ms, 150);
    assert!(!t.check(199));
    assert!(!t.check(120));
    assert!(t.check(200));
}

#[test]
fn config_list_round_trip() {
    let mut list: Vec<ButtonConfig> = (0..15).map(|i| [vec![format!("n{}", i)], vec![]]).collect();
    list[14][1] = vec!["a".to_string(), "b".to_string(), "c".to_string(), "d".to_string()];
    let configs = ButtonConfigs::from_config(&list);
    assert_eq!(configs.to_config(), list);
    let empty = ButtonConfigs::default().to_config();
    assert_eq!(empty.len(), 15);
    assert!(empty.iter().all(|c| c[0].is_empty() && c[1].is_empty()));
    let mut longer = list.clone();
    longer.push([vec!["extra".to_string()], vec![]]);
    assert_eq!(ButtonConfigs::from_config(&longer).to_config(), list);
}

#[test]
fn compiled_configuration_fills_missing_slots_with_empty_programs() {
    let mut list: Vec<ButtonConfig> = (0..15).map(|_| [vec![], vec![]]).collect();
    list[2] = [vec!["x".to_string(), "".to_string()], vec!["a".to_string(), "b".to_string(), "c".to_string(), "d".to_string()]];
    let configs = ButtonConfigs::from_config(&list);
    let compile = |s: String| StateToken { down: vec![Token::Sequence(s)], repeat: vec![], up: vec![] };
    let tokens = ButtonConfigsToken::from_config(&configs, &compile);
    assert_eq!(tokens.get(2, 0, 0).down, vec![Token::Sequence("x".to_string())]);
    assert_eq!(tokens.get(2, 0, 1).down, vec![Token::Sequence("".to_string())]);
    assert!(tokens.get(2, 0, 2).down.is_empty());
    assert_eq!(tokens.get(2, 1, 2).down, vec![Token::Sequence("c".to_string())]);
    assert!(tokens.get(0, 1, 0).down.is_empty());
}
