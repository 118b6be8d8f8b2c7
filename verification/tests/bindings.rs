use gridnav::bindings::{
    build_config, resolve_bindings, ConfigError, KeyBindingNames, MouseBindingNames, MAX_SPEED,
};
use gridnav::keys::KeyId;

fn names(list: &[&str]) -> Vec<String> {
    list.iter().map(|s| s.to_string()).collect()
}

fn good_names() -> KeyBindingNames {
    KeyBindingNames {
        region: names(&[
            "a", "b", "c", "d", "e", "f", "g", "h", "i", "j", "k", "l", "m", "n", "o", "p",
        ]),
        grid: names(&[
            "q", "r", "s", "t", "u", "v", "w", "x", "y", "z", "0", "1", "2", "3", "4",
        ]),
        prev_screen: ",".to_string(),
        next_screen: ".".to_string(),
        skip_to_cell: "/".to_string(),
        back: "Backspace".to_string(),
        confirm: "Enter".to_string(),
        quit: "Escape".to_string(),
        mouse: MouseBindingNames {
            move_up: "Up".to_string(),
            move_down: "Down".to_string(),
            move_left: "Left".to_string(),
            move_right: "Right".to_string(),
            left_click: "5".to_string(),
            left_click_and_exit: "6".to_string(),
            middle_click: "7".to_string(),
            right_click: "8".to_string(),
            left_click_down: "9".to_string(),
            left_click_up: "-".to_string(),
            scroll_up: "=".to_string(),
            scroll_down: "[".to_string(),
            scroll_left: "]".to_string(),
            scroll_right: ";".to_string(),
            speed_quarter: "'".to_string(),
            speed_half: "\\".to_string(),
            speed_twice: "`".to_string(),
            speed_quadruple: "Tab".to_string(),
        },
    }
}

#[test]
fn resolves_a_complete_configuration() {
    let kb = resolve_bindings(&good_names()).unwrap();
    assert_eq!(kb.region.len(), 16);
    assert_eq!(kb.grid.len(), 15);
    assert_eq!(kb.region[0], KeyId::A);
    assert_eq!(kb.region[15], KeyId::P);
    assert_eq!(kb.grid[0], KeyId::Q);
    assert_eq!(kb.grid[14], KeyId::Num4);
    assert_eq!(kb.prev_screen, KeyId::Comma);
    assert_eq!(kb.next_screen, KeyId::Period);
    assert_eq!(kb.skip_to_cell, KeyId::Slash);
    assert_eq!(kb.back, KeyId::Backspace);
    assert_eq!(kb.confirm, KeyId::Enter);
    assert_eq!(kb.quit, KeyId::Escape);
    assert_eq!(kb.mouse.move_up, KeyId::ArrowUp);
    assert_eq!(kb.mouse.left_click, KeyId::Num5);
    assert_eq!(kb.mouse.speed_quadruple, KeyId::Tab);
}

#[test]
fn duplicate_keys_across_actions_are_permitted() {
    let mut n = good_names();
    n.quit = ",".to_string();
    let kb = resolve_bindings(&n).unwrap();
    assert_eq!(kb.quit, KeyId::Comma);
    assert_eq!(kb.prev_screen, KeyId::Comma);
}

#[test]
fn wrong_region_count_is_fatal() {
    let mut n = good_names();
    n.region.pop();
    assert!(matches!(resolve_bindings(&n), Err(ConfigError::BadRegionCount)));
}

#[test]
fn wrong_grid_count_is_fatal() {
    let mut n = good_names();
    n.grid.push("5".to_string());
    assert!(matches!(resolve_bindings(&n), Err(ConfigError::BadGridCount)));
}

#[test]
fn unresolvable_name_is_fatal_and_reported() {
    let mut n = good_names();
    n.confirm = "NoSuchKey".to_string();
    match resolve_bindings(&n) {
        Err(ConfigError::UnknownKeyName { name }) => assert_eq!(name, "NoSuchKey"),
        _ => panic!("expected an unknown-key error"),
    }
}

#[test]
fn unresolvable_region_name_is_fatal() {
    let mut n = good_names();
    n.region[3] = "??".to_string();
    match resolve_bindings(&n) {
        Err(ConfigError::UnknownKeyName { name }) => assert_eq!(name, "??"),
        _ => panic!("expected an unknown-key error"),
    }
}

#[test]
fn build_config_carries_speeds() {
    let cfg = build_config(&good_names(), 100, 30).unwrap();
    assert_eq!(cfg.movement_speed, 100);
    assert_eq!(cfg.scroll_speed, 30);
}

#[test]
fn negative_speed_is_fatal() {
    assert!(matches!(build_config(&good_names(), -1, 30), Err(ConfigError::SpeedOutOfRange)));
    assert!(matches!(build_config(&good_names(), 100, -5), Err(ConfigError::SpeedOutOfRange)));
}

#[test]
fn oversized_speed_is_fatal() {
    let too_big = MAX_SPEED as i32 + 1;
    assert!(matches!(
        build_config(&good_names(), too_big, 30),
        Err(ConfigError::SpeedOutOfRange)
    ));
    assert!(build_config(&good_names(), MAX_SPEED as i32, 30).is_ok());
}

#[test]
fn bad_name_reported_before_bad_speed() {
    let mut n = good_names();
    n.back = "nope".to_string();
    assert!(matches!(
        build_config(&n, -1, 30),
        Err(ConfigError::UnknownKeyName { .. })
    ));
}
