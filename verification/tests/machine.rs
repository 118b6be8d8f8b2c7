use gridnav::bindings::{Config, KeyBindings, MouseBindings};
use gridnav::classifier::ArmedSet;
use gridnav::geometry::Display;
use gridnav::keys::KeyId;
use gridnav::machine::{step, Action, Input, Mode, MouseButton, NavState, ScrollAxis};

fn config() -> Config {
    Config {
        bindings: KeyBindings {
            region: vec![
                KeyId::A,
                KeyId::B,
                KeyId::C,
                KeyId::D,
                KeyId::E,
                KeyId::F,
                KeyId::G,
                KeyId::H,
                KeyId::I,
                KeyId::J,
                KeyId::K,
                KeyId::L,
                KeyId::M,
                KeyId::N,
                KeyId::O,
                KeyId::P,
            ],
            grid: vec![
                KeyId::Q,
                KeyId::R,
                KeyId::S,
                KeyId::T,
                KeyId::U,
                KeyId::V,
                KeyId::W,
                KeyId::X,
                KeyId::Y,
                KeyId::Z,
                KeyId::Num0,
                KeyId::Num1,
                KeyId::Num2,
                KeyId::Num3,
                KeyId::Num4,
            ],
            prev_screen: KeyId::Comma,
            next_screen: KeyId::Period,
            skip_to_cell: KeyId::Slash,
            back: KeyId::Backspace,
            confirm: KeyId::Enter,
            quit: KeyId::Escape,
            mouse: MouseBindings {
                move_up: KeyId::ArrowUp,
                move_down: KeyId::ArrowDown,
                move_left: KeyId::ArrowLeft,
                move_right: KeyId::ArrowRight,
                left_click: KeyId::Num5,
                left_click_and_exit: KeyId::Num6,
                middle_click: KeyId::Num7,
                right_click: KeyId::Num8,
                left_click_down: KeyId::Num9,
                left_click_up: KeyId::Minus,
                scroll_up: KeyId::Equals,
                scroll_down: KeyId::OpenBracket,
                scroll_left: KeyId::CloseBracket,
                scroll_right: KeyId::Semicolon,
                speed_quarter: KeyId::Quote,
                speed_half: KeyId::Backslash,
                speed_twice: KeyId::Backtick,
                speed_quadruple: KeyId::Tab,
            },
        },
        movement_speed: 100,
        scroll_speed: 30,
    }
}

fn displays3() -> Vec<Display> {
    vec![
        Display { pos_x: 0, pos_y: 0, size_x: 1000, size_y: 900, off_x: 0, off_y: 0 },
        Display { pos_x: 1000, pos_y: 0, size_x: 1000, size_y: 900, off_x: 0, off_y: 0 },
        Display { pos_x: 2000, pos_y: 0, size_x: 800, size_y: 600, off_x: 0, off_y: 0 },
    ]
}

fn input(pressed: Vec<KeyId>, held: Vec<KeyId>) -> Input {
    Input { pressed, held, pointer_x: 0, pointer_y: 0 }
}

fn cell_state(region: i32, cell: i32) -> NavState {
    NavState {
        mode: Mode::Cell,
        active_display: 0,
        region,
        cell,
        armed: ArmedSet::new(),
    }
}

#[test]
fn starts_in_screen_mode_with_nothing_selected() {
    let s = NavState::new(1);
    assert_eq!(s.mode, Mode::Screen);
    assert_eq!(s.active_display, 1);
    assert_eq!((s.region, s.cell), (-1, -1));
}

#[test]
fn region_key_narrows() {
    let cfg = config();
    let ds = displays3();
    let mut s = NavState::new(0);
    let out = step(&mut s, &cfg, &ds, &input(vec![KeyId::B], vec![]));
    assert_eq!(s.mode, Mode::Narrow);
    assert_eq!((s.region, s.cell), (1, -1));
    assert_eq!(out, vec![]);
}

#[test]
fn first_region_binding_in_order_wins() {
    let cfg = config();
    let ds = displays3();
    let mut s = NavState::new(0);
    step(&mut s, &cfg, &ds, &input(vec![KeyId::C, KeyId::B], vec![]));
    assert_eq!(s.region, 1);
}

#[test]
fn unbound_key_changes_nothing() {
    // Closure of the transition table: a trigger not listed for the current
    // mode leaves mode, region and cell unchanged.
    let cfg = config();
    let ds = displays3();
    let mut s = NavState::new(0);
    let out = step(&mut s, &cfg, &ds, &input(vec![KeyId::Num5, KeyId::Home], vec![]));
    assert_eq!(s.mode, Mode::Screen);
    assert_eq!((s.active_display, s.region, s.cell), (0, -1, -1));
    assert_eq!(out, vec![]);

    let mut n = NavState { mode: Mode::Narrow, active_display: 0, region: 5, cell: -1, armed: ArmedSet::new() };
    let out = step(&mut n, &cfg, &ds, &input(vec![KeyId::A, KeyId::Comma], vec![]));
    assert_eq!(n.mode, Mode::Narrow);
    assert_eq!((n.region, n.cell), (5, -1));
    assert_eq!(out, vec![]);
}

#[test]
fn prev_screen_wraps_backwards() {
    // Three displays, active 0: one press of the previous-screen key lands
    // on display 2 and repositions the viewport to its usable rectangle.
    let cfg = config();
    let ds = displays3();
    let mut s = NavState::new(0);
    let out = step(&mut s, &cfg, &ds, &input(vec![KeyId::Comma], vec![]));
    assert_eq!(s.active_display, 2);
    assert_eq!(out, vec![Action::Reposition { x: 2000, y: 0, w: 800, h: 600 }]);
}

#[test]
fn next_screen_advances_and_cycles() {
    let cfg = config();
    let ds = displays3();
    let mut s = NavState::new(0);
    for expected in [1, 2, 0] {
        step(&mut s, &cfg, &ds, &input(vec![KeyId::Period], vec![]));
        assert_eq!(s.active_display, expected);
    }
}

#[test]
fn prev_screen_cycles_back_to_start() {
    let cfg = config();
    let ds = displays3();
    let mut s = NavState::new(1);
    for _ in 0..3 {
        step(&mut s, &cfg, &ds, &input(vec![KeyId::Comma], vec![]));
    }
    assert_eq!(s.active_display, 1);
}

#[test]
fn prev_wins_over_next_when_both_pressed() {
    let cfg = config();
    let ds = displays3();
    let mut s = NavState::new(1);
    step(&mut s, &cfg, &ds, &input(vec![KeyId::Comma, KeyId::Period], vec![]));
    assert_eq!(s.active_display, 0);
}

#[test]
fn skip_to_cell_jumps_to_pointer() {
    let cfg = config();
    let ds = displays3();
    let mut s = NavState::new(0);
    let inp = Input { pressed: vec![KeyId::Slash], held: vec![], pointer_x: 1380, pointer_y: 320 };
    let out = step(&mut s, &cfg, &ds, &inp);
    assert_eq!(s.mode, Mode::Cell);
    assert_eq!((s.active_display, s.region, s.cell), (1, 5, 7));
    assert_eq!(out, vec![Action::Reposition { x: 1000, y: 0, w: 1000, h: 900 }]);
}

#[test]
fn skip_to_cell_without_a_hit_is_a_no_op() {
    let cfg = config();
    let ds = displays3();
    let mut s = NavState::new(0);
    let inp = Input { pressed: vec![KeyId::Slash], held: vec![], pointer_x: -5, pointer_y: -5 };
    let out = step(&mut s, &cfg, &ds, &inp);
    assert_eq!(s.mode, Mode::Screen);
    assert_eq!((s.active_display, s.region, s.cell), (0, -1, -1));
    assert_eq!(out, vec![]);
}

#[test]
fn skip_to_cell_on_same_display_does_not_reposition() {
    let cfg = config();
    let ds = displays3();
    let mut s = NavState::new(0);
    let inp = Input { pressed: vec![KeyId::Slash], held: vec![], pointer_x: 380, pointer_y: 320 };
    let out = step(&mut s, &cfg, &ds, &inp);
    assert_eq!(s.mode, Mode::Cell);
    assert_eq!((s.active_display, s.region, s.cell), (0, 5, 7));
    assert_eq!(out, vec![]);
}

#[test]
fn grid_key_selects_cell_and_warps() {
    let cfg = config();
    let ds = displays3();
    let mut s = NavState { mode: Mode::Narrow, active_display: 0, region: 5, cell: -1, armed: ArmedSet::new() };
    // X is the eighth grid binding, so it selects cell 7 of region 5; the
    // pointer warps to that cell's center (375, 337.5 floored).
    let out = step(&mut s, &cfg, &ds, &input(vec![KeyId::X], vec![]));
    assert_eq!(s.mode, Mode::Cell);
    assert_eq!((s.region, s.cell), (5, 7));
    assert_eq!(out, vec![Action::Warp { x: 375, y: 337 }]);
}

#[test]
fn back_from_narrow_clears_selection() {
    let cfg = config();
    let ds = displays3();
    let mut s = NavState { mode: Mode::Narrow, active_display: 0, region: 5, cell: 3, armed: ArmedSet::new() };
    let out = step(&mut s, &cfg, &ds, &input(vec![KeyId::Backspace], vec![]));
    assert_eq!(s.mode, Mode::Screen);
    assert_eq!((s.region, s.cell), (-1, -1));
    assert_eq!(out, vec![]);
}

#[test]
fn confirm_enters_cell_only_with_a_selection() {
    let cfg = config();
    let ds = displays3();
    let mut s = NavState { mode: Mode::Narrow, active_display: 0, region: 5, cell: 7, armed: ArmedSet::new() };
    step(&mut s, &cfg, &ds, &input(vec![KeyId::Enter], vec![]));
    assert_eq!(s.mode, Mode::Cell);

    let mut s = NavState { mode: Mode::Narrow, active_display: 0, region: 5, cell: -1, armed: ArmedSet::new() };
    step(&mut s, &cfg, &ds, &input(vec![KeyId::Enter], vec![]));
    assert_eq!(s.mode, Mode::Narrow);
}

#[test]
fn back_from_cell_returns_to_narrow() {
    let cfg = config();
    let ds = displays3();
    let mut s = cell_state(5, 7);
    let out = step(&mut s, &cfg, &ds, &input(vec![KeyId::Backspace], vec![]));
    assert_eq!(s.mode, Mode::Narrow);
    assert_eq!((s.region, s.cell), (5, 7));
    assert_eq!(out, vec![]);
}

#[test]
fn clicks_dispatch_with_left_first() {
    let cfg = config();
    let ds = displays3();
    let mut s = cell_state(5, 7);
    let out = step(&mut s, &cfg, &ds, &input(vec![KeyId::Num5], vec![]));
    assert_eq!(out, vec![Action::Click { button: MouseButton::Left }]);
    let out = step(&mut s, &cfg, &ds, &input(vec![KeyId::Num8], vec![]));
    assert_eq!(out, vec![Action::Click { button: MouseButton::Right }]);
    let out = step(&mut s, &cfg, &ds, &input(vec![KeyId::Num7], vec![]));
    assert_eq!(out, vec![Action::Click { button: MouseButton::Middle }]);
    let out = step(&mut s, &cfg, &ds, &input(vec![KeyId::Num8, KeyId::Num5], vec![]));
    assert_eq!(out, vec![Action::Click { button: MouseButton::Left }]);
}

#[test]
fn click_and_exit_clicks_then_quits() {
    let cfg = config();
    let ds = displays3();
    let mut s = cell_state(5, 7);
    let out = step(&mut s, &cfg, &ds, &input(vec![KeyId::Num6], vec![]));
    assert_eq!(out, vec![Action::Click { button: MouseButton::Left }, Action::Quit]);
    assert_eq!(s.mode, Mode::Cell);
}

#[test]
fn press_and_release_of_left_button() {
    let cfg = config();
    let ds = displays3();
    let mut s = cell_state(5, 7);
    let out = step(&mut s, &cfg, &ds, &input(vec![KeyId::Num9], vec![]));
    assert_eq!(out, vec![Action::PressDown]);
    let out = step(&mut s, &cfg, &ds, &input(vec![KeyId::Minus], vec![]));
    assert_eq!(out, vec![Action::PressUp]);
}

#[test]
fn quit_key_ends_the_session_from_any_mode() {
    let cfg = config();
    let ds = displays3();
    for mut s in [NavState::new(0), cell_state(5, 7)] {
        let out = step(&mut s, &cfg, &ds, &input(vec![KeyId::Escape], vec![]));
        assert_eq!(out, vec![Action::Quit]);
    }
}

#[test]
fn held_key_from_cell_entry_stays_silent_until_repressed() {
    // Armed-level debounce: a key held continuously from the instant cell
    // mode is entered fires zero times; released and pressed again, it
    // fires on every held poll.
    let cfg = config();
    let ds = displays3();
    let mut s = NavState { mode: Mode::Narrow, active_display: 0, region: 5, cell: -1, armed: ArmedSet::new() };
    // Enter cell mode via a grid key while the move key is already held.
    step(&mut s, &cfg, &ds, &input(vec![KeyId::X], vec![KeyId::ArrowRight]));
    assert_eq!(s.mode, Mode::Cell);
    // Held for five consecutive polls: no move fires.
    for _ in 0..5 {
        let out = step(&mut s, &cfg, &ds, &input(vec![], vec![KeyId::ArrowRight]));
        assert_eq!(out, vec![]);
    }
    // Released once: still nothing, but the key is now armed.
    let out = step(&mut s, &cfg, &ds, &input(vec![], vec![]));
    assert_eq!(out, vec![]);
    // Held for three more polls: one move per poll.
    for _ in 0..3 {
        let out = step(&mut s, &cfg, &ds, &input(vec![], vec![KeyId::ArrowRight]));
        assert_eq!(out, vec![Action::MoveRel { dx: 100, dy: 0 }]);
    }
}

#[test]
fn speed_modifiers_compose_in_fixed_order() {
    // Base speed 100; quarter and double held together: 100/4*2 = 50.
    let cfg = config();
    let ds = displays3();
    let mut s = cell_state(5, 7);
    // Arm the move key with one released poll.
    step(&mut s, &cfg, &ds, &input(vec![], vec![]));
    let held = vec![KeyId::ArrowRight, KeyId::Quote, KeyId::Backtick];
    let out = step(&mut s, &cfg, &ds, &input(vec![], held));
    assert_eq!(out, vec![Action::MoveRel { dx: 50, dy: 0 }]);
}

#[test]
fn quadruple_and_half_modifiers() {
    let cfg = config();
    let ds = displays3();
    let mut s = cell_state(5, 7);
    step(&mut s, &cfg, &ds, &input(vec![], vec![]));
    // 100/2*4 = 200, moving up is negative on the y axis.
    let held = vec![KeyId::ArrowUp, KeyId::Backslash, KeyId::Tab];
    let out = step(&mut s, &cfg, &ds, &input(vec![], held));
    assert_eq!(out, vec![Action::MoveRel { dx: 0, dy: -200 }]);
}

#[test]
fn moves_fire_independently_in_order() {
    let cfg = config();
    let ds = displays3();
    let mut s = cell_state(5, 7);
    step(&mut s, &cfg, &ds, &input(vec![], vec![]));
    let held = vec![KeyId::ArrowDown, KeyId::ArrowLeft];
    let out = step(&mut s, &cfg, &ds, &input(vec![], held));
    assert_eq!(
        out,
        vec![Action::MoveRel { dx: 0, dy: 100 }, Action::MoveRel { dx: -100, dy: 0 }]
    );
}

#[test]
fn scroll_chain_takes_the_first_held_key_only() {
    let cfg = config();
    let ds = displays3();
    let mut s = cell_state(5, 7);
    // Arm everything with one all-released poll.
    step(&mut s, &cfg, &ds, &input(vec![], vec![]));
    let out = step(&mut s, &cfg, &ds, &input(vec![], vec![KeyId::Equals]));
    assert_eq!(out, vec![Action::Scroll { axis: ScrollAxis::Vertical, amount: -30 }]);
    let out = step(&mut s, &cfg, &ds, &input(vec![], vec![KeyId::OpenBracket]));
    assert_eq!(out, vec![Action::Scroll { axis: ScrollAxis::Vertical, amount: 30 }]);
    let out = step(&mut s, &cfg, &ds, &input(vec![], vec![KeyId::CloseBracket]));
    assert_eq!(out, vec![Action::Scroll { axis: ScrollAxis::Horizontal, amount: -30 }]);
    let out = step(&mut s, &cfg, &ds, &input(vec![], vec![KeyId::Semicolon]));
    assert_eq!(out, vec![Action::Scroll { axis: ScrollAxis::Horizontal, amount: 30 }]);
    // Scroll up outranks scroll down when both are held.
    let out = step(&mut s, &cfg, &ds, &input(vec![], vec![KeyId::OpenBracket, KeyId::Equals]));
    assert_eq!(out, vec![Action::Scroll { axis: ScrollAxis::Vertical, amount: -30 }]);
}

#[test]
fn duplicate_key_across_actions_resolves_by_order() {
    // The quit binding is tested before any mode handling, so a key bound
    // both to quit and to a region acts as quit.
    let mut cfg = config();
    cfg.bindings.quit = KeyId::A;
    let ds = displays3();
    let mut s = NavState::new(0);
    let out = step(&mut s, &cfg, &ds, &input(vec![KeyId::A], vec![]));
    assert_eq!(out, vec![Action::Quit]);
    assert_eq!(s.mode, Mode::Screen);
}

#[test]
fn duplicate_key_within_a_group_takes_the_first_slot() {
    // One key bound to two regions selects the earlier declaration.
    let mut cfg = config();
    cfg.bindings.region[2] = KeyId::B;
    let ds = displays3();
    let mut s = NavState::new(0);
    step(&mut s, &cfg, &ds, &input(vec![KeyId::B], vec![]));
    assert_eq!(s.region, 1);
}

#[test]
fn regrid_while_in_cell_mode_requires_narrow_first() {
    // Grid keys mean nothing in cell mode; back returns to narrow, where
    // the same key re-selects and re-warps.
    let cfg = config();
    let ds = displays3();
    let mut s = cell_state(5, 7);
    let out = step(&mut s, &cfg, &ds, &input(vec![KeyId::X], vec![]));
    assert_eq!(out, vec![]);
    assert_eq!(s.mode, Mode::Cell);
    step(&mut s, &cfg, &ds, &input(vec![KeyId::Backspace], vec![]));
    assert_eq!(s.mode, Mode::Narrow);
    let out = step(&mut s, &cfg, &ds, &input(vec![KeyId::X], vec![]));
    assert_eq!(s.mode, Mode::Cell);
    assert_eq!(out, vec![Action::Warp { x: 375, y: 337 }]);
}
