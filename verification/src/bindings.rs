//! The key-binding table and its load-time resolution.
//!
//! A binding configuration names a key for each semantic action: 16 region
//! keys, 15 grid keys, the screen-switch and mode keys, and the pointer
//! action group.  Every name is resolved against the canonical name table at
//! load time; an unresolvable name or a malformed group is a fatal
//! configuration error, reported to the caller rather than defaulted.
//! Duplicate keys across different actions are permitted; the state machine
//! resolves the ambiguity by declaration order.

use vstd::prelude::*;

verus! {

use crate::keys::{key_from_name, key_name_model, KeyId};

/// Largest accepted movement or scroll speed: the quadruple modifier must
/// not overflow a signed 32-bit pixel distance.
pub const MAX_SPEED: u32 = 268435455;

/// Resolved bindings for the pointer actions available in cell mode.
#[derive(Clone, Copy, PartialEq, Eq, Structural, Debug)]
pub struct MouseBindings {
    pub move_up: KeyId,
    pub move_down: KeyId,
    pub move_left: KeyId,
    pub move_right: KeyId,
    pub left_click: KeyId,
    pub left_click_and_exit: KeyId,
    pub middle_click: KeyId,
    pub right_click: KeyId,
    pub left_click_down: KeyId,
    pub left_click_up: KeyId,
    pub scroll_up: KeyId,
    pub scroll_down: KeyId,
    pub scroll_left: KeyId,
    pub scroll_right: KeyId,
    pub speed_quarter: KeyId,
    pub speed_half: KeyId,
    pub speed_twice: KeyId,
    pub speed_quadruple: KeyId,
}

/// The resolved binding table.
#[derive(Clone, Debug)]
pub struct KeyBindings {
    pub region: Vec<KeyId>,
    pub grid: Vec<KeyId>,
    pub prev_screen: KeyId,
    pub next_screen: KeyId,
    pub skip_to_cell: KeyId,
    pub back: KeyId,
    pub confirm: KeyId,
    pub quit: KeyId,
    pub mouse: MouseBindings,
}

impl KeyBindings {
    /// A well-formed table has one key per region and one per cell.
    pub open spec fn wf(self) -> bool {
        &&& self.region@.len() == 16
        &&& self.grid@.len() == 15
    }
}

/// Key names for the pointer action group, as read from the configuration.
#[derive(Clone, Debug)]
pub struct MouseBindingNames {
    pub move_up: String,
    pub move_down: String,
    pub move_left: String,
    pub move_right: String,
    pub left_click: String,
    pub left_click_and_exit: String,
    pub middle_click: String,
    pub right_click: String,
    pub left_click_down: String,
    pub left_click_up: String,
    pub scroll_up: String,
    pub scroll_down: String,
    pub scroll_left: String,
    pub scroll_right: String,
    pub speed_quarter: String,
    pub speed_half: String,
    pub speed_twice: String,
    pub speed_quadruple: String,
}

/// Key names for the whole binding table, as read from the configuration.
#[derive(Clone, Debug)]
pub struct KeyBindingNames {
    pub region: Vec<String>,
    pub grid: Vec<String>,
    pub prev_screen: String,
    pub next_screen: String,
    pub skip_to_cell: String,
    pub back: String,
    pub confirm: String,
    pub quit: String,
    pub mouse: MouseBindingNames,
}

/// A fatal configuration fault.
#[derive(Debug)]
pub enum ConfigError {
    /// The region group does not name exactly 16 keys.
    BadRegionCount,
    /// The grid group does not name exactly 15 keys.
    BadGridCount,
    /// A name outside the canonical name table; carries the offending name.
    UnknownKeyName { name: String },
    /// A movement or scroll speed outside `[0, MAX_SPEED]`.
    SpeedOutOfRange,
}

/// Whether every pointer-group name resolves.
pub open spec fn mouse_names_ok(names: MouseBindingNames) -> bool {
    &&& key_name_model(names.move_up@) is Some
    &&& key_name_model(names.move_down@) is Some
    &&& key_name_model(names.move_left@) is Some
    &&& key_name_model(names.move_right@) is Some
    &&& key_name_model(names.left_click@) is Some
    &&& key_name_model(names.left_click_and_exit@) is Some
    &&& key_name_model(names.middle_click@) is Some
    &&& key_name_model(names.right_click@) is Some
    &&& key_name_model(names.left_click_down@) is Some
    &&& key_name_model(names.left_click_up@) is Some
    &&& key_name_model(names.scroll_up@) is Some
    &&& key_name_model(names.scroll_down@) is Some
    &&& key_name_model(names.scroll_left@) is Some
    &&& key_name_model(names.scroll_right@) is Some
    &&& key_name_model(names.speed_quarter@) is Some
    &&& key_name_model(names.speed_half@) is Some
    &&& key_name_model(names.speed_twice@) is Some
    &&& key_name_model(names.speed_quadruple@) is Some
}

/// Whether the groups have the right sizes and every name resolves.
pub open spec fn names_ok(names: KeyBindingNames) -> bool {
    &&& names.region@.len() == 16
    &&& names.grid@.len() == 15
    &&& forall|i: int| 0 <= i < 16 ==> key_name_model(#[trigger] names.region@[i]@) is Some
    &&& forall|i: int| 0 <= i < 15 ==> key_name_model(#[trigger] names.grid@[i]@) is Some
    &&& key_name_model(names.prev_screen@) is Some
    &&& key_name_model(names.next_screen@) is Some
    &&& key_name_model(names.skip_to_cell@) is Some
    &&& key_name_model(names.back@) is Some
    &&& key_name_model(names.confirm@) is Some
    &&& key_name_model(names.quit@) is Some
    &&& mouse_names_ok(names.mouse)
}

/// The pointer-group table `mb` is the resolution of `names`.
pub open spec fn mouse_match(names: MouseBindingNames, mb: MouseBindings) -> bool {
    &&& key_name_model(names.move_up@) == Some(mb.move_up)
    &&& key_name_model(names.move_down@) == Some(mb.move_down)
    &&& key_name_model(names.move_left@) == Some(mb.move_left)
    &&& key_name_model(names.move_right@) == Some(mb.move_right)
    &&& key_name_model(names.left_click@) == Some(mb.left_click)
    &&& key_name_model(names.left_click_and_exit@) == Some(mb.left_click_and_exit)
    &&& key_name_model(names.middle_click@) == Some(mb.middle_click)
    &&& key_name_model(names.right_click@) == Some(mb.right_click)
    &&& key_name_model(names.left_click_down@) == Some(mb.left_click_down)
    &&& key_name_model(names.left_click_up@) == Some(mb.left_click_up)
    &&& key_name_model(names.scroll_up@) == Some(mb.scroll_up)
    &&& key_name_model(names.scroll_down@) == Some(mb.scroll_down)
    &&& key_name_model(names.scroll_left@) == Some(mb.scroll_left)
    &&& key_name_model(names.scroll_right@) == Some(mb.scroll_right)
    &&& key_name_model(names.speed_quarter@) == Some(mb.speed_quarter)
    &&& key_name_model(names.speed_half@) == Some(mb.speed_half)
    &&& key_name_model(names.speed_twice@) == Some(mb.speed_twice)
    &&& key_name_model(names.speed_quadruple@) == Some(mb.speed_quadruple)
}

/// The table `kb` is the resolution of `names`, action by action.
pub open spec fn bindings_match(names: KeyBindingNames, kb: KeyBindings) -> bool {
    &&& kb.wf()
    &&& names.region@.len() == 16
    &&& names.grid@.len() == 15
    &&& forall|i: int|
        0 <= i < 16 ==> key_name_model(#[trigger] names.region@[i]@) == Some(kb.region@[i])
    &&& forall|i: int|
        0 <= i < 15 ==> key_name_model(#[trigger] names.grid@[i]@) == Some(kb.grid@[i])
    &&& key_name_model(names.prev_screen@) == Some(kb.prev_screen)
    &&& key_name_model(names.next_screen@) == Some(kb.next_screen)
    &&& key_name_model(names.skip_to_cell@) == Some(kb.skip_to_cell)
    &&& key_name_model(names.back@) == Some(kb.back)
    &&& key_name_model(names.confirm@) == Some(kb.confirm)
    &&& key_name_model(names.quit@) == Some(kb.quit)
    &&& mouse_match(names.mouse, kb.mouse)
}

/// Resolve one name, or report it as unknown.
fn resolve_one(name: &String) -> (r: Result<KeyId, ConfigError>)
    ensures
        r matches Ok(k) ==> key_name_model(name@) == Some(k),
        r is Err ==> key_name_model(name@) is None,
        r matches Err(e) ==> e matches ConfigError::UnknownKeyName { name: n } && n@ == name@,
{
    match key_from_name(name.as_str()) {
        Some(k) => Ok(k),
        None => Err(ConfigError::UnknownKeyName { name: name.clone() }),
    }
}

/// Resolve a whole binding configuration.  Succeeds exactly when the groups
/// have the right sizes and every name is in the canonical table; the first
/// fault found, scanning regions, grid, mode keys and then the pointer
/// group, is reported.
pub fn resolve_bindings(names: &KeyBindingNames) -> (r: Result<KeyBindings, ConfigError>)
    ensures
        r is Ok <==> names_ok(*names),
        r matches Ok(kb) ==> bindings_match(*names, kb),
        r matches Err(e) ==> match e {
            ConfigError::BadRegionCount => names.region@.len() != 16,
            ConfigError::BadGridCount => names.region@.len() == 16 && names.grid@.len() != 15,
            ConfigError::UnknownKeyName { name } => names.region@.len() == 16
                && names.grid@.len() == 15 && key_name_model(name@) is None,
            ConfigError::SpeedOutOfRange => false,
        },
{
    if names.region.len() != 16 {
        return Err(ConfigError::BadRegionCount);
    }
    if names.grid.len() != 15 {
        return Err(ConfigError::BadGridCount);
    }
    let mut region: Vec<KeyId> = Vec::new();
    let mut i: usize = 0;
    while i < 16
        invariant
            names.region@.len() == 16,
            names.grid@.len() == 15,
            0 <= i <= 16,
            region@.len() == i,
            forall|j: int|
                0 <= j < i ==> key_name_model(#[trigger] names.region@[j]@) == Some(region@[j]),
        decreases 16 - i,
    {
        match resolve_one(&names.region[i]) {
            Ok(k) => region.push(k),
            Err(e) => {
                return Err(e);
            },
        }
        i = i + 1;
    }
    let mut grid: Vec<KeyId> = Vec::new();
    let mut i: usize = 0;
    while i < 15
        invariant
            names.region@.len() == 16,
            names.grid@.len() == 15,
            0 <= i <= 15,
            grid@.len() == i,
            forall|j: int|
                0 <= j < i ==> key_name_model(#[trigger] names.grid@[j]@) == Some(grid@[j]),
        decreases 15 - i,
    {
        match resolve_one(&names.grid[i]) {
            Ok(k) => grid.push(k),
            Err(e) => {
                return Err(e);
            },
        }
        i = i + 1;
    }
    let prev_screen = match resolve_one(&names.prev_screen) {
        Ok(k) => k,
        Err(e) => {
            return Err(e);
        },
    };
    let next_screen = match resolve_one(&names.next_screen) {
        Ok(k) => k,
        Err(e) => {
            return Err(e);
        },
    };
    let skip_to_cell = match resolve_one(&names.skip_to_cell) {
        Ok(k) => k,
        Err(e) => {
            return Err(e);
        },
    };
    let back = match resolve_one(&names.back) {
        Ok(k) => k,
        Err(e) => {
            return Err(e);
        },
    };
    let confirm = match resolve_one(&names.confirm) {
        Ok(k) => k,
        Err(e) => {
            return Err(e);
        },
    };
    let quit = match resolve_one(&names.quit) {
        Ok(k) => k,
        Err(e) => {
            return Err(e);
        },
    };
    let m = &names.mouse;
    let move_up = match resolve_one(&m.move_up) {
        Ok(k) => k,
        Err(e) => {
            return Err(e);
        },
    };
    let move_down = match resolve_one(&m.move_down) {
        Ok(k) => k,
        Err(e) => {
            return Err(e);
        },
    };
    let move_left = match resolve_one(&m.move_left) {
        Ok(k) => k,
        Err(e) => {
            return Err(e);
        },
    };
    let move_right = match resolve_one(&m.move_right) {
        Ok(k) => k,
        Err(e) => {
            return Err(e);
        },
    };
    let left_click = match resolve_one(&m.left_click) {
        Ok(k) => k,
        Err(e) => {
            return Err(e);
        },
    };
    let left_click_and_exit = match resolve_one(&m.left_click_and_exit) {
        Ok(k) => k,
        Err(e) => {
            return Err(e);
        },
    };
    let middle_click = match resolve_one(&m.middle_click) {
        Ok(k) => k,
        Err(e) => {
            return Err(e);
        },
    };
    let right_click = match resolve_one(&m.right_click) {
        Ok(k) => k,
        Err(e) => {
            return Err(e);
        },
    };
    let left_click_down = match resolve_one(&m.left_click_down) {
        Ok(k) => k,
        Err(e) => {
            return Err(e);
        },
    };
    let left_click_up = match resolve_one(&m.left_click_up) {
        Ok(k) => k,
        Err(e) => {
            return Err(e);
        },
    };
    let scroll_up = match resolve_one(&m.scroll_up) {
        Ok(k) => k,
        Err(e) => {
            return Err(e);
        },
    };
    let scroll_down = match resolve_one(&m.scroll_down) {
        Ok(k) => k,
        Err(e) => {
            return Err(e);
        },
    };
    let scroll_left = match resolve_one(&m.scroll_left) {
        Ok(k) => k,
        Err(e) => {
            return Err(e);
        },
    };
    let scroll_right = match resolve_one(&m.scroll_right) {
        Ok(k) => k,
        Err(e) => {
            return Err(e);
        },
    };
    let speed_quarter = match resolve_one(&m.speed_quarter) {
        Ok(k) => k,
        Err(e) => {
            return Err(e);
        },
    };
    let speed_half = match resolve_one(&m.speed_half) {
        Ok(k) => k,
        Err(e) => {
            return Err(e);
        },
    };
    let speed_twice = match resolve_one(&m.speed_twice) {
        Ok(k) => k,
        Err(e) => {
            return Err(e);
        },
    };
    let speed_quadruple = match resolve_one(&m.speed_quadruple) {
        Ok(k) => k,
        Err(e) => {
            return Err(e);
        },
    };
    Ok(
        KeyBindings {
            region,
            grid,
            prev_screen,
            next_screen,
            skip_to_cell,
            back,
            confirm,
            quit,
            mouse: MouseBindings {
                move_up,
                move_down,
                move_left,
                move_right,
                left_click,
                left_click_and_exit,
                middle_click,
                right_click,
                left_click_down,
                left_click_up,
                scroll_up,
                scroll_down,
                scroll_left,
                scroll_right,
                speed_quarter,
                speed_half,
                speed_twice,
                speed_quadruple,
            },
        },
    )
}

/// The full configuration the state machine runs on: the resolved binding
/// table and the two speeds.
#[derive(Clone, Debug)]
pub struct Config {
    pub bindings: KeyBindings,
    pub movement_speed: u32,
    pub scroll_speed: u32,
}

/// A well-formed configuration: well-formed table, speeds within range.
pub open spec fn config_wf(cfg: Config) -> bool {
    &&& cfg.bindings.wf()
    &&& cfg.movement_speed <= MAX_SPEED
    &&& cfg.scroll_speed <= MAX_SPEED
}

/// Build the full configuration from names and raw speeds.  Succeeds exactly
/// when the names resolve and both speeds lie in `[0, MAX_SPEED]`.
pub fn build_config(names: &KeyBindingNames, movement_speed: i32, scroll_speed: i32) -> (r: Result<
    Config,
    ConfigError,
>)
    ensures
        r is Ok <==> names_ok(*names) && 0 <= movement_speed <= MAX_SPEED && 0 <= scroll_speed
            <= MAX_SPEED,
        r matches Ok(cfg) ==> {
            &&& config_wf(cfg)
            &&& bindings_match(*names, cfg.bindings)
            &&& cfg.movement_speed == movement_speed
            &&& cfg.scroll_speed == scroll_speed
        },
        r matches Err(e) ==> match e {
            ConfigError::BadRegionCount => names.region@.len() != 16,
            ConfigError::BadGridCount => names.region@.len() == 16 && names.grid@.len() != 15,
            ConfigError::UnknownKeyName { name } => names.region@.len() == 16
                && names.grid@.len() == 15 && key_name_model(name@) is None,
            ConfigError::SpeedOutOfRange => names_ok(*names) && !(0 <= movement_speed <= MAX_SPEED
                && 0 <= scroll_speed <= MAX_SPEED),
        },
{
    let bindings = match resolve_bindings(names) {
        Ok(kb) => kb,
        Err(e) => {
            return Err(e);
        },
    };
    if movement_speed < 0 || movement_speed > MAX_SPEED as i32 || scroll_speed < 0 || scroll_speed
        > MAX_SPEED as i32 {
        return Err(ConfigError::SpeedOutOfRange);
    }
    Ok(Config { bindings, movement_speed: movement_speed as u32, scroll_speed: scroll_speed as u32 })
}

} // verus!
