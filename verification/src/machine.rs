//! The navigation state machine.
//!
//! One `step` runs per poll, synchronously with the host's frame callback.
//! The machine owns the mode (screen, narrow, cell), the active display, the
//! selected region and cell, and the armed-key set; it consumes one snapshot
//! of classified input and emits the pointer and viewport action requests for
//! the frame, in dispatch order.  The whole transition function is given as
//! the specification `step_model`; `step` is proved to compute exactly it.

use vstd::prelude::*;

verus! {

use vstd::arithmetic::div_mod::{
    lemma_add_mod_noop_right, lemma_mod_multiples_vanish, lemma_small_mod,
};
use crate::bindings::{config_wf, Config, MouseBindings};
use crate::classifier::{armed_after, armed_fires, ArmedSet};
use crate::geometry::{
    locate, locate_model, usable_rect, warp_target, warp_x_model, warp_y_model, Display,
};
use crate::keys::KeyId;

/// The navigation mode: coarse display grid, one narrowed region, or one
/// selected cell.
#[derive(Clone, Copy, PartialEq, Eq, Structural, Debug)]
pub enum Mode {
    Screen,
    Narrow,
    Cell,
}

/// A pointer button.
#[derive(Clone, Copy, PartialEq, Eq, Structural, Debug)]
pub enum MouseButton {
    Left,
    Middle,
    Right,
}

/// A scroll direction axis.
#[derive(Clone, Copy, PartialEq, Eq, Structural, Debug)]
pub enum ScrollAxis {
    Vertical,
    Horizontal,
}

/// One action request emitted by a step, to be performed by the embedding
/// program's pointer driver and viewport controller.  A failed dispatch is
/// recoverable: the session continues.
#[derive(Clone, Copy, PartialEq, Eq, Structural, Debug)]
pub enum Action {
    /// Warp the pointer to this absolute pixel.
    Warp { x: i32, y: i32 },
    /// Click a button.
    Click { button: MouseButton },
    /// Press the left button down.
    PressDown,
    /// Release the left button.
    PressUp,
    /// Scroll by `amount` along `axis` (sign is the direction).
    Scroll { axis: ScrollAxis, amount: i32 },
    /// Move the pointer relative to its position.
    MoveRel { dx: i32, dy: i32 },
    /// Move and resize the viewport to this rectangle (a display's usable
    /// area, after a screen switch).
    Reposition { x: i32, y: i32, w: i32, h: i32 },
    /// Terminate the session.
    Quit,
}

/// The mathematical navigation state.
#[verifier::ext_equal]
pub ghost struct StateModel {
    pub mode: Mode,
    pub active: int,
    pub region: int,
    pub cell: int,
    pub armed: Set<KeyId>,
}

/// The navigation state: mode, active display index, selected region and
/// cell (`-1` for none), and the armed-key set.
pub struct NavState {
    pub mode: Mode,
    pub active_display: usize,
    pub region: i32,
    pub cell: i32,
    pub armed: ArmedSet,
}

impl View for NavState {
    type V = StateModel;

    open spec fn view(&self) -> StateModel {
        StateModel {
            mode: self.mode,
            active: self.active_display as int,
            region: self.region as int,
            cell: self.cell as int,
            armed: self.armed@,
        }
    }
}

/// The state a session starts in: screen mode on the given display, nothing
/// selected, nothing armed.
pub open spec fn initial_state(active: int) -> StateModel {
    StateModel {
        mode: Mode::Screen,
        active,
        region: -1,
        cell: -1,
        armed: Set::<KeyId>::empty(),
    }
}

/// The state invariant, for a registry of `n` displays: the active display
/// exists; in screen mode nothing is selected; narrow mode has a region and
/// possibly a cell; cell mode has both.
pub open spec fn state_wf(s: StateModel, n: int) -> bool {
    &&& 0 <= s.active < n
    &&& s.mode is Screen ==> s.region == -1 && s.cell == -1
    &&& s.mode is Narrow ==> 0 <= s.region < 16 && -1 <= s.cell < 15
    &&& s.mode is Cell ==> 0 <= s.region < 16 && 0 <= s.cell < 15
}

impl NavState {
    /// A fresh session state on the given display.
    pub fn new(active: usize) -> (s: NavState)
        ensures
            s@ == initial_state(active as int),
    {
        let s = NavState {
            mode: Mode::Screen,
            active_display: active,
            region: -1,
            cell: -1,
            armed: ArmedSet::new(),
        };
        proof {
            assert(s@ =~= initial_state(active as int));
        }
        s
    }
}

/// The mathematical input snapshot of one poll.
#[verifier::ext_equal]
pub ghost struct InputModel {
    pub pressed: Seq<KeyId>,
    pub held: Seq<KeyId>,
    pub pointer_x: int,
    pub pointer_y: int,
}

/// One poll's classified input: the keys that were just pressed (the
/// up-to-down edge), the keys physically held, and the pointer position.
pub struct Input {
    pub pressed: Vec<KeyId>,
    pub held: Vec<KeyId>,
    pub pointer_x: i32,
    pub pointer_y: i32,
}

impl View for Input {
    type V = InputModel;

    open spec fn view(&self) -> InputModel {
        InputModel {
            pressed: self.pressed@,
            held: self.held@,
            pointer_x: self.pointer_x as int,
            pointer_y: self.pointer_y as int,
        }
    }
}

/// Index of the first key of `keys`, from position `i` on, that occurs in
/// `pressed`; bindings earlier in declaration order win.
pub open spec fn first_hit_from(keys: Seq<KeyId>, pressed: Seq<KeyId>, i: int) -> Option<int>
    decreases keys.len() - i,
{
    if i < 0 || i >= keys.len() {
        None
    } else if pressed.contains(keys[i]) {
        Some(i)
    } else {
        first_hit_from(keys, pressed, i + 1)
    }
}

/// Index of the first key of `keys` that occurs in `pressed`.
pub open spec fn first_hit(keys: Seq<KeyId>, pressed: Seq<KeyId>) -> Option<int> {
    first_hit_from(keys, pressed, 0)
}

/// A hit is in range, is pressed, and nothing before it is pressed.
pub proof fn lemma_first_hit_props(keys: Seq<KeyId>, pressed: Seq<KeyId>, i: int)
    ensures
        first_hit_from(keys, pressed, i) matches Some(j) ==> i <= j < keys.len()
            && pressed.contains(keys[j]),
    decreases keys.len() - i,
{
    if i < 0 || i >= keys.len() {
    } else if pressed.contains(keys[i]) {
    } else {
        lemma_first_hit_props(keys, pressed, i + 1);
    }
}

/// When none of the keys is pressed there is no hit.
pub proof fn lemma_first_hit_none(keys: Seq<KeyId>, pressed: Seq<KeyId>, i: int)
    requires
        forall|j: int| 0 <= j < keys.len() ==> !pressed.contains(#[trigger] keys[j]),
    ensures
        first_hit_from(keys, pressed, i) is None,
    decreases keys.len() - i,
{
    if i < 0 || i >= keys.len() {
    } else {
        lemma_first_hit_none(keys, pressed, i + 1);
    }
}

/// The display shown after a backward screen switch.
pub open spec fn prev_index(a: int, n: int) -> int {
    (a + n - 1) % n
}

/// The display shown after a forward screen switch.
pub open spec fn next_index(a: int, n: int) -> int {
    (a + 1) % n
}

/// The viewport request for display `d`: its usable rectangle.
pub open spec fn reposition_action(d: Display) -> Action {
    Action::Reposition {
        x: (d.pos_x + d.off_x) as i32,
        y: (d.pos_y + d.off_y) as i32,
        w: (d.size_x - d.off_x) as i32,
        h: (d.size_y - d.off_y) as i32,
    }
}

/// Effect of the skip-to-cell trigger: locate the pointer; on a hit, jump
/// straight to cell mode there (clearing the armed set) and reposition the
/// viewport if the display changed; otherwise nothing happens.
pub open spec fn skip_model(s: StateModel, ds: Seq<Display>, inp: InputModel) -> (
    StateModel,
    Seq<Action>,
) {
    match locate_model(ds, inp.pointer_x, inp.pointer_y) {
        None => (s, Seq::<Action>::empty()),
        Some((di, r, c)) => (
            StateModel { mode: Mode::Cell, active: di, region: r, cell: c, armed: Set::empty() },
            if di != s.active {
                seq![reposition_action(ds[di])]
            } else {
                Seq::<Action>::empty()
            },
        ),
    }
}

/// Screen-mode handling: a region key narrows to that region; then the
/// skip-to-cell key is honoured; then a backward (or else forward) screen
/// switch repositions the viewport to the new display.
pub open spec fn screen_model(s: StateModel, cfg: Config, ds: Seq<Display>, inp: InputModel) -> (
    StateModel,
    Seq<Action>,
) {
    let s1 = match first_hit(cfg.bindings.region@, inp.pressed) {
        Some(i) => StateModel { mode: Mode::Narrow, region: i, cell: -1, ..s },
        None => s,
    };
    let (s2, a2) = if inp.pressed.contains(cfg.bindings.skip_to_cell) {
        skip_model(s1, ds, inp)
    } else {
        (s1, Seq::<Action>::empty())
    };
    let (s3, a3) = if inp.pressed.contains(cfg.bindings.prev_screen) {
        (
            StateModel { active: prev_index(s2.active, ds.len() as int), ..s2 },
            seq![reposition_action(ds[prev_index(s2.active, ds.len() as int)])],
        )
    } else if inp.pressed.contains(cfg.bindings.next_screen) {
        (
            StateModel { active: next_index(s2.active, ds.len() as int), ..s2 },
            seq![reposition_action(ds[next_index(s2.active, ds.len() as int)])],
        )
    } else {
        (s2, Seq::<Action>::empty())
    };
    (s3, a2 + a3)
}

/// Narrow-mode handling: a grid key selects that cell, warps the pointer to
/// its center and enters cell mode with a cleared armed set; then the back
/// key returns to screen mode clearing the selection; then the confirm key
/// enters cell mode if a cell is selected.
pub open spec fn narrow_model(s: StateModel, cfg: Config, ds: Seq<Display>, inp: InputModel) -> (
    StateModel,
    Seq<Action>,
) {
    let (s1, a1) = match first_hit(cfg.bindings.grid@, inp.pressed) {
        Some(i) => (
            StateModel { mode: Mode::Cell, cell: i, armed: Set::empty(), ..s },
            seq![
                Action::Warp {
                    x: warp_x_model(ds[s.active], s.region, i) as i32,
                    y: warp_y_model(ds[s.active], s.region, i) as i32,
                },
            ],
        ),
        None => (s, Seq::<Action>::empty()),
    };
    let s2 = if inp.pressed.contains(cfg.bindings.back) {
        StateModel { mode: Mode::Screen, region: -1, cell: -1, ..s1 }
    } else {
        s1
    };
    let s3 = if inp.pressed.contains(cfg.bindings.confirm) && s2.cell >= 0 {
        StateModel { mode: Mode::Cell, armed: Set::empty(), ..s2 }
    } else {
        s2
    };
    (s3, a1)
}

/// One debounced poll of key `k`: fires when `k` is armed and held.
pub open spec fn poll_fires(armed: Set<KeyId>, k: KeyId, held: Seq<KeyId>) -> bool {
    armed_fires(armed, k, held.contains(k))
}

/// The armed set after a debounced poll of key `k`.
pub open spec fn poll_after(armed: Set<KeyId>, k: KeyId, held: Seq<KeyId>) -> Set<KeyId> {
    armed_after(armed, k, held.contains(k))
}

/// The scroll chain: the four scroll keys are polled in declaration order
/// (up, down, left, right); the first that fires emits one scroll step and
/// ends the chain, so later keys are not even polled that frame.
#[verifier::opaque]
pub open spec fn scroll_model(
    armed: Set<KeyId>,
    mb: MouseBindings,
    held: Seq<KeyId>,
    speed: u32,
) -> (Seq<Action>, Set<KeyId>) {
    if poll_fires(armed, mb.scroll_up, held) {
        (
            seq![
                Action::Scroll { axis: ScrollAxis::Vertical, amount: ((-(speed as int)) as i32) },
            ],
            armed,
        )
    } else {
        let ar1 = poll_after(armed, mb.scroll_up, held);
        if poll_fires(ar1, mb.scroll_down, held) {
            (seq![Action::Scroll { axis: ScrollAxis::Vertical, amount: speed as i32 }], ar1)
        } else {
            let ar2 = poll_after(ar1, mb.scroll_down, held);
            if poll_fires(ar2, mb.scroll_left, held) {
                (
                    seq![
                        Action::Scroll {
                            axis: ScrollAxis::Horizontal,
                            amount: ((-(speed as int)) as i32),
                        },
                    ],
                    ar2,
                )
            } else {
                let ar3 = poll_after(ar2, mb.scroll_left, held);
                if poll_fires(ar3, mb.scroll_right, held) {
                    (
                        seq![
                            Action::Scroll { axis: ScrollAxis::Horizontal, amount: speed as i32 },
                        ],
                        ar3,
                    )
                } else {
                    (Seq::<Action>::empty(), poll_after(ar3, mb.scroll_right, held))
                }
            }
        }
    }
}

/// The effective relative-move distance: the base movement speed with the
/// held modifiers applied in the fixed order quarter, half, double,
/// quadruple (half and double held together cancel out).
pub open spec fn effective_distance(base: u32, mb: MouseBindings, held: Seq<KeyId>) -> int {
    let d1 = if held.contains(mb.speed_quarter) {
        base as int / 4
    } else {
        base as int
    };
    let d2 = if held.contains(mb.speed_half) {
        d1 / 2
    } else {
        d1
    };
    let d3 = if held.contains(mb.speed_twice) {
        d2 * 2
    } else {
        d2
    };
    if held.contains(mb.speed_quadruple) {
        d3 * 4
    } else {
        d3
    }
}

/// The move chain: the four move keys are polled in declaration order
/// (down, up, left, right), each independently; every one that fires emits
/// one relative move of the effective distance.
#[verifier::opaque]
pub open spec fn moves_model(armed: Set<KeyId>, mb: MouseBindings, held: Seq<KeyId>, dist: int) -> (
    Seq<Action>,
    Set<KeyId>,
) {
    let a1: Seq<Action> = if poll_fires(armed, mb.move_down, held) {
        seq![Action::MoveRel { dx: 0, dy: dist as i32 }]
    } else {
        Seq::<Action>::empty()
    };
    let ar1 = poll_after(armed, mb.move_down, held);
    let a2: Seq<Action> = if poll_fires(ar1, mb.move_up, held) {
        seq![Action::MoveRel { dx: 0, dy: ((-dist) as i32) }]
    } else {
        Seq::<Action>::empty()
    };
    let ar2 = poll_after(ar1, mb.move_up, held);
    let a3: Seq<Action> = if poll_fires(ar2, mb.move_left, held) {
        seq![Action::MoveRel { dx: ((-dist) as i32), dy: 0 }]
    } else {
        Seq::<Action>::empty()
    };
    let ar3 = poll_after(ar2, mb.move_left, held);
    let a4: Seq<Action> = if poll_fires(ar3, mb.move_right, held) {
        seq![Action::MoveRel { dx: dist as i32, dy: 0 }]
    } else {
        Seq::<Action>::empty()
    };
    let ar4 = poll_after(ar3, mb.move_right, held);
    (a1 + a2 + a3 + a4, ar4)
}

/// The action phases of cell mode apart from click-and-exit and back, in
/// dispatch order: one click (left, else right, else middle), the scroll
/// chain, press or release of the left button, and the move chain at the
/// effective speed.  Returns the emitted actions and the armed set after
/// both chains.
#[verifier::opaque]
pub open spec fn cell_actions_model(armed: Set<KeyId>, cfg: Config, inp: InputModel) -> (
    Seq<Action>,
    Set<KeyId>,
) {
    let mb = cfg.bindings.mouse;
    let a_click: Seq<Action> = if inp.pressed.contains(mb.left_click) {
        seq![Action::Click { button: MouseButton::Left }]
    } else if inp.pressed.contains(mb.right_click) {
        seq![Action::Click { button: MouseButton::Right }]
    } else if inp.pressed.contains(mb.middle_click) {
        seq![Action::Click { button: MouseButton::Middle }]
    } else {
        Seq::<Action>::empty()
    };
    let (a_scroll, ar_s) = scroll_model(armed, mb, inp.held, cfg.scroll_speed);
    let a_press: Seq<Action> = if inp.pressed.contains(mb.left_click_down) {
        seq![Action::PressDown]
    } else if inp.pressed.contains(mb.left_click_up) {
        seq![Action::PressUp]
    } else {
        Seq::<Action>::empty()
    };
    let dist = effective_distance(cfg.movement_speed, mb, inp.held);
    let (a_move, ar_m) = moves_model(ar_s, mb, inp.held, dist);
    (a_click + a_scroll + a_press + a_move, ar_m)
}

/// Cell-mode handling: click-and-exit ends the session after the click;
/// otherwise the action phases run, and finally the back key returns to
/// narrow mode.
pub open spec fn cell_model(s: StateModel, cfg: Config, inp: InputModel) -> (
    StateModel,
    Seq<Action>,
) {
    let mb = cfg.bindings.mouse;
    if inp.pressed.contains(mb.left_click_and_exit) {
        (s, seq![Action::Click { button: MouseButton::Left }, Action::Quit])
    } else {
        let (acts, ar_m) = cell_actions_model(s.armed, cfg, inp);
        let new_mode = if inp.pressed.contains(cfg.bindings.back) {
            Mode::Narrow
        } else {
            Mode::Cell
        };
        (StateModel { mode: new_mode, armed: ar_m, ..s }, acts)
    }
}

/// The whole transition function of one poll: the quit key ends the session
/// from any mode; otherwise exactly the current mode's handling runs.
pub open spec fn step_model(s: StateModel, cfg: Config, ds: Seq<Display>, inp: InputModel) -> (
    StateModel,
    Seq<Action>,
) {
    if inp.pressed.contains(cfg.bindings.quit) {
        (s, seq![Action::Quit])
    } else {
        match s.mode {
            Mode::Screen => screen_model(s, cfg, ds, inp),
            Mode::Narrow => narrow_model(s, cfg, ds, inp),
            Mode::Cell => cell_model(s, cfg, inp),
        }
    }
}

/// The active display after `k` backward screen switches among `n`
/// displays, starting from `a`.  `screen_model` moves the active display to
/// `prev_index` on each poll with the previous-screen key pressed.
pub open spec fn prev_iter(a: int, n: int, k: nat) -> int
    decreases k,
{
    if k == 0 {
        a
    } else {
        prev_index(prev_iter(a, n, (k - 1) as nat), n)
    }
}

/// The active display after `k` forward screen switches.
pub open spec fn next_iter(a: int, n: int, k: nat) -> int
    decreases k,
{
    if k == 0 {
        a
    } else {
        next_index(next_iter(a, n, (k - 1) as nat), n)
    }
}

/// Closed form of iterated backward switches.
proof fn lemma_prev_iter_formula(a: int, n: int, k: nat)
    requires
        n >= 1,
        0 <= a < n,
    ensures
        prev_iter(a, n, k) == (a + k * (n - 1)) % n,
    decreases k,
{
    if k == 0 {
        lemma_small_mod(a as nat, n as nat);
    } else {
        lemma_prev_iter_formula(a, n, (k - 1) as nat);
        let x = a + (k - 1) * (n - 1);
        lemma_add_mod_noop_right(n - 1, x, n);
        assert((k - 1) * (n - 1) + (n - 1) == k * (n - 1)) by (nonlinear_arith);
        assert(prev_iter(a, n, k) == ((x % n) + n - 1) % n);
        assert(((n - 1) + (x % n)) % n == ((n - 1) + x) % n);
    }
}

/// Closed form of iterated forward switches.
proof fn lemma_next_iter_formula(a: int, n: int, k: nat)
    requires
        n >= 1,
        0 <= a < n,
    ensures
        next_iter(a, n, k) == (a + k) % n,
    decreases k,
{
    if k == 0 {
        lemma_small_mod(a as nat, n as nat);
    } else {
        lemma_next_iter_formula(a, n, (k - 1) as nat);
        let x = a + (k - 1);
        lemma_add_mod_noop_right(1, x, n);
        assert(next_iter(a, n, k) == ((x % n) + 1) % n);
        assert((1 + (x % n)) % n == (1 + x) % n);
    }
}

/// Screen-switch cycling, backward half: with `n` displays, `n` presses of
/// the previous-screen key return the active display to where it started.
pub proof fn lemma_prev_cycle(a: int, n: int)
    requires
        n >= 1,
        0 <= a < n,
    ensures
        prev_iter(a, n, n as nat) == a,
{
    lemma_prev_iter_formula(a, n, n as nat);
    lemma_mod_multiples_vanish(n - 1, a, n);
    lemma_small_mod(a as nat, n as nat);
    assert(a + n * (n - 1) == n * (n - 1) + a);
}

/// Screen-switch cycling, forward half: `n` presses of the next-screen key
/// return the active display to where it started.
pub proof fn lemma_next_cycle(a: int, n: int)
    requires
        n >= 1,
        0 <= a < n,
    ensures
        next_iter(a, n, n as nat) == a,
{
    lemma_next_iter_formula(a, n, n as nat);
    lemma_mod_multiples_vanish(1, a, n);
    lemma_small_mod(a as nat, n as nat);
}

/// A screen-switch poll: in screen mode, with no region key and no
/// skip-to-cell or quit trigger pressed, a poll with the previous-screen key
/// pressed moves the active display to `prev_index`, and one with only the
/// next-screen key to `next_index`, leaving the mode and selection alone.
/// A run of `n` such polls therefore follows `prev_iter` (or `next_iter`),
/// and by the cycling lemmas returns to the starting display.
pub proof fn lemma_screen_switch_step(s: StateModel, cfg: Config, ds: Seq<Display>, inp: InputModel)
    requires
        config_wf(cfg),
        s.mode is Screen,
        !inp.pressed.contains(cfg.bindings.quit),
        !inp.pressed.contains(cfg.bindings.skip_to_cell),
        forall|i: int| 0 <= i < 16 ==> !inp.pressed.contains(#[trigger] cfg.bindings.region@[i]),
    ensures
        inp.pressed.contains(cfg.bindings.prev_screen) ==> step_model(s, cfg, ds, inp).0.active
            == prev_index(s.active, ds.len() as int),
        !inp.pressed.contains(cfg.bindings.prev_screen) && inp.pressed.contains(
            cfg.bindings.next_screen,
        ) ==> step_model(s, cfg, ds, inp).0.active == next_index(s.active, ds.len() as int),
        step_model(s, cfg, ds, inp).0.mode is Screen,
        step_model(s, cfg, ds, inp).0.region == s.region,
        step_model(s, cfg, ds, inp).0.cell == s.cell,
{
    lemma_first_hit_none(cfg.bindings.region@, inp.pressed, 0);
}

/// Closure of the transition table: on a poll where none of the current
/// mode's transition triggers is pressed, the mode, the active display and
/// the region and cell selection are left exactly as they were (in cell
/// mode, held keys may still fire pointer actions, but change no selection).
pub proof fn lemma_unlisted_triggers_ignored(
    s: StateModel,
    cfg: Config,
    ds: Seq<Display>,
    inp: InputModel,
)
    requires
        config_wf(cfg),
        !inp.pressed.contains(cfg.bindings.quit),
        s.mode is Screen ==> {
            &&& forall|i: int|
                0 <= i < 16 ==> !inp.pressed.contains(#[trigger] cfg.bindings.region@[i])
            &&& !inp.pressed.contains(cfg.bindings.skip_to_cell)
            &&& !inp.pressed.contains(cfg.bindings.prev_screen)
            &&& !inp.pressed.contains(cfg.bindings.next_screen)
        },
        s.mode is Narrow ==> {
            &&& forall|i: int|
                0 <= i < 15 ==> !inp.pressed.contains(#[trigger] cfg.bindings.grid@[i])
            &&& !inp.pressed.contains(cfg.bindings.back)
            &&& !inp.pressed.contains(cfg.bindings.confirm)
        },
        s.mode is Cell ==> !inp.pressed.contains(cfg.bindings.back),
    ensures
        step_model(s, cfg, ds, inp).0.mode == s.mode,
        step_model(s, cfg, ds, inp).0.active == s.active,
        step_model(s, cfg, ds, inp).0.region == s.region,
        step_model(s, cfg, ds, inp).0.cell == s.cell,
{
    match s.mode {
        Mode::Screen => {
            lemma_first_hit_none(cfg.bindings.region@, inp.pressed, 0);
        },
        Mode::Narrow => {
            lemma_first_hit_none(cfg.bindings.grid@, inp.pressed, 0);
        },
        Mode::Cell => {},
    }
}

/// Whether `k` occurs in `list`.
fn is_in(list: &Vec<KeyId>, k: KeyId) -> (b: bool)
    ensures
        b == list@.contains(k),
{
    let n = list.len();
    let mut i: usize = 0;
    while i < n
        invariant
            n == list@.len(),
            0 <= i <= n,
            forall|j: int| 0 <= j < i ==> list@[j] != k,
        decreases n - i,
    {
        if list[i] == k {
            return true;
        }
        i = i + 1;
    }
    proof {
        assert(!list@.contains(k));
    }
    false
}

/// First key of `keys` that occurs in `pressed`, by index.
fn find_first(keys: &Vec<KeyId>, pressed: &Vec<KeyId>) -> (r: Option<usize>)
    ensures
        match r {
            None => first_hit(keys@, pressed@) is None,
            Some(i) => first_hit(keys@, pressed@) == Some(i as int),
        },
{
    let n = keys.len();
    let mut i: usize = 0;
    while i < n
        invariant
            n == keys@.len(),
            0 <= i <= n,
            first_hit(keys@, pressed@) == first_hit_from(keys@, pressed@, i as int),
        decreases n - i,
    {
        if is_in(pressed, keys[i]) {
            return Some(i);
        }
        i = i + 1;
    }
    None
}

/// Skip-to-cell: locate the pointer and, on a hit, jump to cell mode there.
fn skip_step(state: &mut NavState, displays: &Vec<Display>, input: &Input, out: &mut Vec<Action>)
    requires
        displays@.len() >= 1,
        forall|i: int| 0 <= i < displays@.len() ==> displays@[i].wf(),
        state_wf(old(state)@, displays@.len() as int),
    ensures
        final(state)@ == skip_model(old(state)@, displays@, input@).0,
        final(out)@ == old(out)@ + skip_model(old(state)@, displays@, input@).1,
        state_wf(final(state)@, displays@.len() as int),
{
    let ghost s0 = state@;
    let ghost base = out@;
    match locate(displays, input.pointer_x, input.pointer_y) {
        None => {
            proof {
                assert(out@ =~= base + skip_model(s0, displays@, input@).1);
            }
        },
        Some(h) => {
            let changed = h.display != state.active_display;
            state.active_display = h.display;
            state.region = h.region;
            state.cell = h.cell;
            state.mode = Mode::Cell;
            state.armed.clear();
            if changed {
                let rect = usable_rect(&displays[h.display]);
                out.push(Action::Reposition { x: rect.0, y: rect.1, w: rect.2, h: rect.3 });
                proof {
                    assert(out@ =~= base + skip_model(s0, displays@, input@).1);
                }
            } else {
                proof {
                    assert(out@ =~= base + skip_model(s0, displays@, input@).1);
                }
            }
            proof {
                assert(state@ =~= skip_model(s0, displays@, input@).0);
            }
        },
    }
}

/// Screen-mode handling: region keys, skip-to-cell, screen switches.
fn screen_step(
    state: &mut NavState,
    cfg: &Config,
    displays: &Vec<Display>,
    input: &Input,
    out: &mut Vec<Action>,
)
    requires
        config_wf(*cfg),
        displays@.len() >= 1,
        forall|i: int| 0 <= i < displays@.len() ==> displays@[i].wf(),
        old(state)@.mode is Screen,
        state_wf(old(state)@, displays@.len() as int),
    ensures
        final(state)@ == screen_model(old(state)@, *cfg, displays@, input@).0,
        final(out)@ == old(out)@ + screen_model(old(state)@, *cfg, displays@, input@).1,
        state_wf(final(state)@, displays@.len() as int),
{
    let ghost s0 = state@;
    let ghost base = out@;
    match find_first(&cfg.bindings.region, &input.pressed) {
        Some(i) => {
            proof {
                lemma_first_hit_props(cfg.bindings.region@, input.pressed@, 0);
            }
            state.region = i as i32;
            state.cell = -1;
            state.mode = Mode::Narrow;
        },
        None => {},
    }
    let ghost s1 = state@;
    let ghost a2 = if input@.pressed.contains(cfg.bindings.skip_to_cell) {
        skip_model(s1, displays@, input@).1
    } else {
        Seq::<Action>::empty()
    };
    if is_in(&input.pressed, cfg.bindings.skip_to_cell) {
        skip_step(state, displays, input, out);
    }
    let ghost s2 = state@;
    proof {
        assert(out@ =~= base + a2);
    }
    if is_in(&input.pressed, cfg.bindings.prev_screen) {
        let n = displays.len();
        let t = if state.active_display == 0 {
            n - 1
        } else {
            state.active_display - 1
        };
        proof {
            if state.active_display == 0 {
                lemma_small_mod((n - 1) as nat, n as nat);
            } else {
                vstd::arithmetic::div_mod::lemma_fundamental_div_mod_converse_mod(
                    s2.active + n - 1,
                    n as int,
                    1,
                    s2.active - 1,
                );
            }
            assert(t as int == prev_index(s2.active, displays@.len() as int));
        }
        state.active_display = t;
        let rect = usable_rect(&displays[t]);
        out.push(Action::Reposition { x: rect.0, y: rect.1, w: rect.2, h: rect.3 });
    } else if is_in(&input.pressed, cfg.bindings.next_screen) {
        let n = displays.len();
        let t = if state.active_display + 1 == n {
            0
        } else {
            state.active_display + 1
        };
        proof {
            if s2.active + 1 == n {
                vstd::arithmetic::div_mod::lemma_mod_self_0(n as int);
            } else {
                lemma_small_mod((s2.active + 1) as nat, n as nat);
            }
            assert(t as int == next_index(s2.active, displays@.len() as int));
        }
        state.active_display = t;
        let rect = usable_rect(&displays[t]);
        out.push(Action::Reposition { x: rect.0, y: rect.1, w: rect.2, h: rect.3 });
    }
    proof {
        assert(state@ =~= screen_model(s0, *cfg, displays@, input@).0);
        assert(out@ =~= base + screen_model(s0, *cfg, displays@, input@).1);
    }
}

/// Narrow-mode handling: grid keys, back, confirm.
fn narrow_step(
    state: &mut NavState,
    cfg: &Config,
    displays: &Vec<Display>,
    input: &Input,
    out: &mut Vec<Action>,
)
    requires
        config_wf(*cfg),
        displays@.len() >= 1,
        forall|i: int| 0 <= i < displays@.len() ==> displays@[i].wf(),
        old(state)@.mode is Narrow,
        state_wf(old(state)@, displays@.len() as int),
    ensures
        final(state)@ == narrow_model(old(state)@, *cfg, displays@, input@).0,
        final(out)@ == old(out)@ + narrow_model(old(state)@, *cfg, displays@, input@).1,
        state_wf(final(state)@, displays@.len() as int),
{
    let ghost s0 = state@;
    let ghost base = out@;
    match find_first(&cfg.bindings.grid, &input.pressed) {
        Some(i) => {
            proof {
                lemma_first_hit_props(cfg.bindings.grid@, input.pressed@, 0);
            }
            state.cell = i as i32;
            let d = displays[state.active_display];
            let (wx, wy) = warp_target(&d, state.region, state.cell);
            out.push(Action::Warp { x: wx, y: wy });
            state.mode = Mode::Cell;
            state.armed.clear();
        },
        None => {},
    }
    if is_in(&input.pressed, cfg.bindings.back) {
        state.mode = Mode::Screen;
        state.region = -1;
        state.cell = -1;
    }
    if is_in(&input.pressed, cfg.bindings.confirm) && state.cell >= 0 {
        state.mode = Mode::Cell;
        state.armed.clear();
    }
    proof {
        assert(state@ =~= narrow_model(s0, *cfg, displays@, input@).0);
        assert(out@ =~= base + narrow_model(s0, *cfg, displays@, input@).1);
    }
}

/// The scroll chain: poll the four scroll keys in order; the first that
/// fires emits one scroll step and ends the chain for this frame.
fn scroll_step(armed: &mut ArmedSet, mb: MouseBindings, input: &Input, speed: u32, out: &mut Vec<
    Action,
>)
    requires
        speed <= 268435455,
    ensures
        final(armed)@ == scroll_model(old(armed)@, mb, input@.held, speed).1,
        final(out)@ == old(out)@ + scroll_model(old(armed)@, mb, input@.held, speed).0,
{
    let ghost ar0 = armed@;
    let ghost base = out@;
    let ss = speed as i32;
    if armed.held_with_check(mb.scroll_up, is_in(&input.held, mb.scroll_up)) {
        out.push(Action::Scroll { axis: ScrollAxis::Vertical, amount: -ss });
    } else if armed.held_with_check(mb.scroll_down, is_in(&input.held, mb.scroll_down)) {
        out.push(Action::Scroll { axis: ScrollAxis::Vertical, amount: ss });
    } else if armed.held_with_check(mb.scroll_left, is_in(&input.held, mb.scroll_left)) {
        out.push(Action::Scroll { axis: ScrollAxis::Horizontal, amount: -ss });
    } else if armed.held_with_check(mb.scroll_right, is_in(&input.held, mb.scroll_right)) {
        out.push(Action::Scroll { axis: ScrollAxis::Horizontal, amount: ss });
    }
    proof {
        reveal(scroll_model);
        assert(armed@ =~= scroll_model(ar0, mb, input@.held, speed).1);
        assert(out@ =~= base + scroll_model(ar0, mb, input@.held, speed).0);
    }
}

/// The move chain: poll the four move keys in order, each independently;
/// every one that fires emits one relative move of `dist` pixels.
fn moves_step(armed: &mut ArmedSet, mb: MouseBindings, input: &Input, dist: u32, out: &mut Vec<
    Action,
>)
    requires
        dist <= 2147483640,
    ensures
        final(armed)@ == moves_model(old(armed)@, mb, input@.held, dist as int).1,
        final(out)@ == old(out)@ + moves_model(old(armed)@, mb, input@.held, dist as int).0,
{
    let ghost ar0 = armed@;
    let ghost base = out@;
    let di = dist as i32;
    if armed.held_with_check(mb.move_down, is_in(&input.held, mb.move_down)) {
        out.push(Action::MoveRel { dx: 0, dy: di });
    }
    if armed.held_with_check(mb.move_up, is_in(&input.held, mb.move_up)) {
        out.push(Action::MoveRel { dx: 0, dy: -di });
    }
    if armed.held_with_check(mb.move_left, is_in(&input.held, mb.move_left)) {
        out.push(Action::MoveRel { dx: -di, dy: 0 });
    }
    if armed.held_with_check(mb.move_right, is_in(&input.held, mb.move_right)) {
        out.push(Action::MoveRel { dx: di, dy: 0 });
    }
    proof {
        reveal(moves_model);
        assert(armed@ =~= moves_model(ar0, mb, input@.held, dist as int).1);
        assert(out@ =~= base + moves_model(ar0, mb, input@.held, dist as int).0);
    }
}

/// The click, scroll, press/release and move phases of one cell-mode poll.
#[verifier::rlimit(100)]
fn cell_actions_step(armed: &mut ArmedSet, cfg: &Config, input: &Input, out: &mut Vec<Action>)
    requires
        config_wf(*cfg),
    ensures
        final(armed)@ == cell_actions_model(old(armed)@, *cfg, input@).1,
        final(out)@ == old(out)@ + cell_actions_model(old(armed)@, *cfg, input@).0,
{
    let ghost ar0 = armed@;
    let ghost base = out@;
    let mb = cfg.bindings.mouse;
    let ghost a_click_m: Seq<Action> = if input@.pressed.contains(mb.left_click) {
        seq![Action::Click { button: MouseButton::Left }]
    } else if input@.pressed.contains(mb.right_click) {
        seq![Action::Click { button: MouseButton::Right }]
    } else if input@.pressed.contains(mb.middle_click) {
        seq![Action::Click { button: MouseButton::Middle }]
    } else {
        Seq::<Action>::empty()
    };
    if is_in(&input.pressed, mb.left_click) {
        out.push(Action::Click { button: MouseButton::Left });
    } else if is_in(&input.pressed, mb.right_click) {
        out.push(Action::Click { button: MouseButton::Right });
    } else if is_in(&input.pressed, mb.middle_click) {
        out.push(Action::Click { button: MouseButton::Middle });
    }
    proof {
        assert(out@ =~= base + a_click_m);
    }
    scroll_step(armed, mb, input, cfg.scroll_speed, out);
    let ghost a_scroll_m = scroll_model(ar0, mb, input@.held, cfg.scroll_speed).0;
    proof {
        assert(out@ =~= base + a_click_m + a_scroll_m);
    }
    let ghost a_press_m: Seq<Action> = if input@.pressed.contains(mb.left_click_down) {
        seq![Action::PressDown]
    } else if input@.pressed.contains(mb.left_click_up) {
        seq![Action::PressUp]
    } else {
        Seq::<Action>::empty()
    };
    if is_in(&input.pressed, mb.left_click_down) {
        out.push(Action::PressDown);
    } else if is_in(&input.pressed, mb.left_click_up) {
        out.push(Action::PressUp);
    }
    proof {
        assert(out@ =~= base + a_click_m + a_scroll_m + a_press_m);
    }
    let mut dist: u32 = cfg.movement_speed;
    if is_in(&input.held, mb.speed_quarter) {
        dist = dist / 4;
    }
    if is_in(&input.held, mb.speed_half) {
        dist = dist / 2;
    }
    if is_in(&input.held, mb.speed_twice) {
        dist = dist * 2;
    }
    if is_in(&input.held, mb.speed_quadruple) {
        dist = dist * 4;
    }
    proof {
        assert(dist as int == effective_distance(cfg.movement_speed, mb, input@.held));
    }
    moves_step(armed, mb, input, dist, out);
    proof {
        reveal(cell_actions_model);
        let ar_s = scroll_model(ar0, mb, input@.held, cfg.scroll_speed).1;
        let dist_m = effective_distance(cfg.movement_speed, mb, input@.held);
        let a_move_m = moves_model(ar_s, mb, input@.held, dist_m).0;
        assert(out@ =~= base + a_click_m + a_scroll_m + a_press_m + a_move_m);
        assert(cell_actions_model(ar0, *cfg, input@).0 == a_click_m + a_scroll_m + a_press_m
            + a_move_m);
        assert(out@ =~= base + cell_actions_model(ar0, *cfg, input@).0);
        assert(armed@ == cell_actions_model(ar0, *cfg, input@).1);
    }
}

/// Cell-mode handling: the click-and-exit shortcut, the action phases, and
/// the back key.
fn cell_step(state: &mut NavState, cfg: &Config, input: &Input, out: &mut Vec<Action>)
    requires
        config_wf(*cfg),
        old(state)@.mode is Cell,
    ensures
        final(state)@ == cell_model(old(state)@, *cfg, input@).0,
        final(out)@ == old(out)@ + cell_model(old(state)@, *cfg, input@).1,
        final(state)@.active == old(state)@.active,
        final(state)@.region == old(state)@.region,
        final(state)@.cell == old(state)@.cell,
        final(state)@.mode is Cell || final(state)@.mode is Narrow,
{
    let ghost s0 = state@;
    let ghost base = out@;
    let mb = cfg.bindings.mouse;
    if is_in(&input.pressed, mb.left_click_and_exit) {
        out.push(Action::Click { button: MouseButton::Left });
        out.push(Action::Quit);
        proof {
            assert(out@ =~= base + cell_model(s0, *cfg, input@).1);
        }
        return;
    }
    cell_actions_step(&mut state.armed, cfg, input, out);
    if is_in(&input.pressed, cfg.bindings.back) {
        state.mode = Mode::Narrow;
    }
    proof {
        assert(state@ =~= cell_model(s0, *cfg, input@).0);
        assert(out@ == base + cell_model(s0, *cfg, input@).1);
    }
}

/// One poll of the machine: consume the input snapshot, update the state,
/// and return the frame's action requests in dispatch order.  Computes
/// exactly `step_model` and preserves the state invariant.
pub fn step(state: &mut NavState, cfg: &Config, displays: &Vec<Display>, input: &Input) -> (out:
    Vec<Action>)
    requires
        config_wf(*cfg),
        displays@.len() >= 1,
        forall|i: int| 0 <= i < displays@.len() ==> displays@[i].wf(),
        state_wf(old(state)@, displays@.len() as int),
    ensures
        final(state)@ == step_model(old(state)@, *cfg, displays@, input@).0,
        out@ == step_model(old(state)@, *cfg, displays@, input@).1,
        state_wf(final(state)@, displays@.len() as int),
{
    let ghost s0 = state@;
    let mut out: Vec<Action> = Vec::new();
    if is_in(&input.pressed, cfg.bindings.quit) {
        out.push(Action::Quit);
        proof {
            assert(out@ =~= step_model(s0, *cfg, displays@, input@).1);
        }
        return out;
    }
    match state.mode {
        Mode::Screen => screen_step(state, cfg, displays, input, &mut out),
        Mode::Narrow => narrow_step(state, cfg, displays, input, &mut out),
        Mode::Cell => cell_step(state, cfg, input, &mut out),
    }
    proof {
        assert(out@ =~= step_model(s0, *cfg, displays@, input@).1);
    }
    out
}

} // verus!
