//! Button state: which logical buttons are held, the presses waiting to
//! be handled, and auto-repeat of held movement buttons (a first repeat
//! 250 ms after the press, then one every 100 ms). Time is given by the
//! caller in milliseconds, so the state machine is a pure function of the
//! events it is fed.

use vstd::prelude::*;

verus! {

/// Logical buttons, after keyboard or gamepad mapping.
#[derive(Clone, Copy, Debug, PartialEq, Eq, Hash, Structural)]
pub enum Action {
    Up,
    Down,
    Left,
    Right,
    A,
    B,
    X,
    Y,
    L,
    R,
    /// Outer-left shoulder.
    L2,
    /// Outer-right shoulder.
    R2,
    Start,
    Select,
    /// Toggle the full-screen overmap.
    OpenOvermap,
    /// Explicit pass-turn.
    Wait,
}

/// Bit of an action in the held-button mask.
pub open spec fn action_bit(a: Action) -> u32 {
    match a {
        Action::Up => 0,
        Action::Down => 1,
        Action::Left => 2,
        Action::Right => 3,
        Action::A => 4,
        Action::B => 5,
        Action::X => 6,
        Action::Y => 7,
        Action::L => 8,
        Action::R => 9,
        Action::L2 => 10,
        Action::R2 => 11,
        Action::Start => 12,
        Action::Select => 13,
        Action::OpenOvermap => 14,
        Action::Wait => 15,
    }
}

fn action_bit_exec(a: Action) -> (r: u32)
    ensures
        r == action_bit(a),
        r < 16,
{
    match a {
        Action::Up => 0,
        Action::Down => 1,
        Action::Left => 2,
        Action::Right => 3,
        Action::A => 4,
        Action::B => 5,
        Action::X => 6,
        Action::Y => 7,
        Action::L => 8,
        Action::R => 9,
        Action::L2 => 10,
        Action::R2 => 11,
        Action::Start => 12,
        Action::Select => 13,
        Action::OpenOvermap => 14,
        Action::Wait => 15,
    }
}

/// The four directions auto-repeat while held.
pub open spec fn is_movement(a: Action) -> bool {
    a == Action::Up || a == Action::Down || a == Action::Left || a == Action::Right
}

pub fn is_movement_exec(a: Action) -> (r: bool)
    ensures
        r == is_movement(a),
{
    match a {
        Action::Up | Action::Down | Action::Left | Action::Right => true,
        _ => false,
    }
}

/// Delay from a movement press to its first repeat.
pub const INITIAL_DELAY_MS: u64 = 250;

/// Delay between later repeats.
pub const REPEAT_PERIOD_MS: u64 = 100;

/// `mask` has the bit of `a` set.
pub open spec fn mask_has(mask: u32, a: Action) -> bool {
    mask & (1u32 << action_bit(a)) != 0
}

/// Some movement button is set in `mask`.
pub open spec fn mask_has_movement(mask: u32) -> bool {
    mask_has(mask, Action::Up) || mask_has(mask, Action::Down) || mask_has(mask, Action::Left) || mask_has(
        mask,
        Action::Right,
    )
}

proof fn lemma_mask_set(mask: u32, a: Action, b: Action)
    ensures
        mask_has(mask | (1u32 << action_bit(a)), b) <==> (mask_has(mask, b) || a == b),
{
    let x = action_bit(a);
    let y = action_bit(b);
    assert(x < 16 && y < 16);
    assert((mask | (1u32 << x)) & (1u32 << y) != 0 <==> (mask & (1u32 << y) != 0 || x == y)) by (bit_vector)
        requires
            x < 16,
            y < 16,
    ;
}

proof fn lemma_mask_clear(mask: u32, a: Action, b: Action)
    ensures
        mask_has(mask & !(1u32 << action_bit(a)), b) <==> (mask_has(mask, b) && a != b),
{
    let x = action_bit(a);
    let y = action_bit(b);
    assert(x < 16 && y < 16);
    assert((mask & !(1u32 << x)) & (1u32 << y) != 0 <==> (mask & (1u32 << y) != 0 && x != y)) by (bit_vector)
        requires
            x < 16,
            y < 16,
    ;
}

/// The held directions, in the order Up, Down, Left, Right.
pub open spec fn held_directions(mask: u32) -> Seq<Action> {
    let s0 = Seq::<Action>::empty();
    let s1 = if mask_has(mask, Action::Up) {
        s0.push(Action::Up)
    } else {
        s0
    };
    let s2 = if mask_has(mask, Action::Down) {
        s1.push(Action::Down)
    } else {
        s1
    };
    let s3 = if mask_has(mask, Action::Left) {
        s2.push(Action::Left)
    } else {
        s2
    };
    if mask_has(mask, Action::Right) {
        s3.push(Action::Right)
    } else {
        s3
    }
}

/// Held buttons, queued presses and the auto-repeat deadline.
pub struct Input {
    held: u32,
    next_repeat_ms: Option<u64>,
    queued: Vec<Action>,
}

impl Input {
    /// `a` is held.
    pub closed spec fn holds(&self, a: Action) -> bool {
        mask_has(self.held, a)
    }

    /// Some movement button is held.
    pub closed spec fn holds_movement(&self) -> bool {
        mask_has_movement(self.held)
    }

    /// The held directions, Up, Down, Left, Right order.
    pub closed spec fn directions(&self) -> Seq<Action> {
        held_directions(self.held)
    }

    /// Presses not yet drained, oldest first.
    pub closed spec fn pending(&self) -> Seq<Action> {
        self.queued@
    }

    /// When held movement next repeats, if a repeat is scheduled.
    pub closed spec fn repeat_at(&self) -> Option<u64> {
        self.next_repeat_ms
    }

    /// Nothing held, nothing queued, no repeat scheduled.
    pub fn new() -> (r: Self)
        ensures
            forall|a: Action| !r.holds(a),
            r.pending() == Seq::<Action>::empty(),
            r.repeat_at() is None,
    {
        proof {
            assert forall|a: Action| !mask_has(0u32, a) by {
                let x = action_bit(a);
                assert(0u32 & (1u32 << x) == 0) by (bit_vector);
            }
        }
        Input { held: 0, next_repeat_ms: None, queued: Vec::new() }
    }

    /// A button went down at `now_ms`. A button already held is ignored;
    /// otherwise it is held and queued, and a movement button schedules
    /// its first repeat `INITIAL_DELAY_MS` later.
    pub fn press(&mut self, a: Action, now_ms: u64)
        requires
            now_ms <= u64::MAX - INITIAL_DELAY_MS,
        ensures
            old(self).holds(a) ==> {
                &&& forall|b: Action| final(self).holds(b) == old(self).holds(b)
                &&& final(self).pending() == old(self).pending()
                &&& final(self).repeat_at() == old(self).repeat_at()
            },
            !old(self).holds(a) ==> {
                &&& forall|b: Action| final(self).holds(b) == (old(self).holds(b) || b == a)
                &&& final(self).pending() == old(self).pending().push(a)
                &&& final(self).repeat_at() == if is_movement(a) {
                    Some((now_ms + INITIAL_DELAY_MS) as u64)
                } else {
                    old(self).repeat_at()
                }
            },
    {
        let bit = 1u32 << action_bit_exec(a);
        if self.held & bit != 0 {
            return;
        }
        proof {
            assert forall|b: Action| mask_has(self.held | bit, b) == (mask_has(self.held, b) || b == a) by {
                lemma_mask_set(self.held, a, b);
            }
        }
        self.held = self.held | bit;
        self.queued.push(a);
        if is_movement_exec(a) {
            self.next_repeat_ms = Some(now_ms + INITIAL_DELAY_MS);
        }
    }

    /// A button went up. When it was the last held movement button, the
    /// pending repeat is cancelled.
    pub fn release(&mut self, a: Action)
        ensures
            forall|b: Action| final(self).holds(b) == (old(self).holds(b) && b != a),
            final(self).pending() == old(self).pending(),
            final(self).repeat_at() == if is_movement(a) && !final(self).holds_movement() {
                None
            } else {
                old(self).repeat_at()
            },
    {
        let bit = 1u32 << action_bit_exec(a);
        let cleared = self.held & !bit;
        proof {
            assert forall|b: Action| mask_has(cleared, b) == (mask_has(self.held, b) && b != a) by {
                lemma_mask_clear(self.held, a, b);
            }
        }
        self.held = cleared;
        assert(forall|b: Action| self.holds(b) == (old(self).holds(b) && b != a));
        if is_movement_exec(a) && !self.any_movement_held() {
            self.next_repeat_ms = None;
        }
    }

    fn any_movement_held(&self) -> (r: bool)
        ensures
            r == self.holds_movement(),
    {
        self.is_held(Action::Up) || self.is_held(Action::Down) || self.is_held(Action::Left) || self.is_held(
            Action::Right,
        )
    }

    /// Whether `a` is currently held.
    pub fn is_held(&self, a: Action) -> (r: bool)
        ensures
            r == self.holds(a),
    {
        let bit = 1u32 << action_bit_exec(a);
        self.held & bit != 0
    }

    /// Take the queued presses, at `now_ms`. When a repeat is due, each held
    /// direction is appended once more (Up, Down, Left, Right order) and the
    /// next repeat is scheduled `REPEAT_PERIOD_MS` later.
    pub fn drain(&mut self, now_ms: u64) -> (r: Vec<Action>)
        requires
            now_ms <= u64::MAX - REPEAT_PERIOD_MS,
        ensures
            forall|b: Action| final(self).holds(b) == old(self).holds(b),
            final(self).pending() == Seq::<Action>::empty(),
            match old(self).repeat_at() {
                Some(when) if now_ms >= when => {
                    &&& r@ == old(self).pending() + old(self).directions()
                    &&& final(self).repeat_at() == Some((now_ms + REPEAT_PERIOD_MS) as u64)
                },
                _ => {
                    &&& r@ == old(self).pending()
                    &&& final(self).repeat_at() == old(self).repeat_at()
                },
            },
    {
        let mut out: Vec<Action> = Vec::new();
        std::mem::swap(&mut out, &mut self.queued);
        match self.next_repeat_ms {
            Some(when) => {
                if now_ms >= when {
                    let ghost start = out@;
                    if self.is_held(Action::Up) {
                        out.push(Action::Up);
                    }
                    if self.is_held(Action::Down) {
                        out.push(Action::Down);
                    }
                    if self.is_held(Action::Left) {
                        out.push(Action::Left);
                    }
                    if self.is_held(Action::Right) {
                        out.push(Action::Right);
                    }
                    proof {
                        assert(out@ =~= start + held_directions(self.held));
                    }
                    self.next_repeat_ms = Some(now_ms + REPEAT_PERIOD_MS);
                }
            },
            None => {},
        }
        out
    }
}

// SDL key codes the keyboard layouts read.
pub const KEY_RETURN: i32 = 13;
pub const KEY_ESCAPE: i32 = 27;
pub const KEY_BACKSPACE: i32 = 8;
pub const KEY_TAB: i32 = 9;
pub const KEY_SPACE: i32 = 32;
pub const KEY_PERIOD: i32 = 46;
pub const KEY_A: i32 = 97;
pub const KEY_C: i32 = 99;
pub const KEY_D: i32 = 100;
pub const KEY_F: i32 = 102;
pub const KEY_M: i32 = 109;
pub const KEY_S: i32 = 115;
pub const KEY_T: i32 = 116;
pub const KEY_V: i32 = 118;
pub const KEY_X: i32 = 120;
pub const KEY_Z: i32 = 122;
pub const KEY_RIGHT: i32 = 1073741903;
pub const KEY_LEFT: i32 = 1073741904;
pub const KEY_DOWN: i32 = 1073741905;
pub const KEY_UP: i32 = 1073741906;
pub const KEY_LCTRL: i32 = 1073742048;
pub const KEY_LSHIFT: i32 = 1073742049;
pub const KEY_LALT: i32 = 1073742050;
pub const KEY_RCTRL: i32 = 1073742052;
pub const KEY_RSHIFT: i32 = 1073742053;

/// Which physical keyboard the key codes come from.
#[derive(Clone, Copy, Debug, PartialEq, Eq, Structural)]
pub enum KeyLayout {
    /// Arrows for the d-pad, A S D F for the face buttons A B X Y, Z X C V
    /// for L L2 R R2, Escape for Start, either Shift for Select, M for the
    /// overmap and `.` to wait.
    Desktop,
    /// The handheld's buttons as its kernel keymap reports them; T comes
    /// on the menu and shutdown path and means Start.
    Handheld,
}

/// The button key `code` stands for on `layout`, if any.
pub open spec fn key_action_spec(layout: KeyLayout, code: i32) -> Option<Action> {
    match layout {
        KeyLayout::Desktop => {
            if code == KEY_UP {
                Some(Action::Up)
            } else if code == KEY_DOWN {
                Some(Action::Down)
            } else if code == KEY_LEFT {
                Some(Action::Left)
            } else if code == KEY_RIGHT {
                Some(Action::Right)
            } else if code == KEY_A {
                Some(Action::A)
            } else if code == KEY_S {
                Some(Action::B)
            } else if code == KEY_D {
                Some(Action::X)
            } else if code == KEY_F {
                Some(Action::Y)
            } else if code == KEY_Z {
                Some(Action::L)
            } else if code == KEY_X {
                Some(Action::L2)
            } else if code == KEY_C {
                Some(Action::R)
            } else if code == KEY_V {
                Some(Action::R2)
            } else if code == KEY_ESCAPE {
                Some(Action::Start)
            } else if code == KEY_LSHIFT {
                Some(Action::Select)
            } else if code == KEY_RSHIFT {
                Some(Action::Select)
            } else if code == KEY_M {
                Some(Action::OpenOvermap)
            } else if code == KEY_PERIOD {
                Some(Action::Wait)
            } else {
                None
            }
        },
        KeyLayout::Handheld => {
            if code == KEY_UP {
                Some(Action::Up)
            } else if code == KEY_DOWN {
                Some(Action::Down)
            } else if code == KEY_LEFT {
                Some(Action::Left)
            } else if code == KEY_RIGHT {
                Some(Action::Right)
            } else if code == KEY_SPACE {
                Some(Action::A)
            } else if code == KEY_LCTRL {
                Some(Action::B)
            } else if code == KEY_LSHIFT {
                Some(Action::X)
            } else if code == KEY_LALT {
                Some(Action::Y)
            } else if code == KEY_TAB {
                Some(Action::L)
            } else if code == KEY_BACKSPACE {
                Some(Action::R)
            } else if code == KEY_RETURN {
                Some(Action::Start)
            } else if code == KEY_T {
                Some(Action::Start)
            } else if code == KEY_RCTRL {
                Some(Action::Select)
            } else if code == KEY_ESCAPE {
                Some(Action::Start)
            } else {
                None
            }
        },
    }
}

/// The button key `code` stands for on `layout`: see `key_action_spec`.
pub fn key_action(layout: KeyLayout, code: i32) -> (r: Option<Action>)
    ensures
        r == key_action_spec(layout, code),
{
    match layout {
        KeyLayout::Desktop => {
            if code == KEY_UP {
                Some(Action::Up)
            } else if code == KEY_DOWN {
                Some(Action::Down)
            } else if code == KEY_LEFT {
                Some(Action::Left)
            } else if code == KEY_RIGHT {
                Some(Action::Right)
            } else if code == KEY_A {
                Some(Action::A)
            } else if code == KEY_S {
                Some(Action::B)
            } else if code == KEY_D {
                Some(Action::X)
            } else if code == KEY_F {
                Some(Action::Y)
            } else if code == KEY_Z {
                Some(Action::L)
            } else if code == KEY_X {
                Some(Action::L2)
            } else if code == KEY_C {
                Some(Action::R)
            } else if code == KEY_V {
                Some(Action::R2)
            } else if code == KEY_ESCAPE {
                Some(Action::Start)
            } else if code == KEY_LSHIFT {
                Some(Action::Select)
            } else if code == KEY_RSHIFT {
                Some(Action::Select)
            } else if code == KEY_M {
                Some(Action::OpenOvermap)
            } else if code == KEY_PERIOD {
                Some(Action::Wait)
            } else {
                None
            }
        },
        KeyLayout::Handheld => {
            if code == KEY_UP {
                Some(Action::Up)
            } else if code == KEY_DOWN {
                Some(Action::Down)
            } else if code == KEY_LEFT {
                Some(Action::Left)
            } else if code == KEY_RIGHT {
                Some(Action::Right)
            } else if code == KEY_SPACE {
                Some(Action::A)
            } else if code == KEY_LCTRL {
                Some(Action::B)
            } else if code == KEY_LSHIFT {
                Some(Action::X)
            } else if code == KEY_LALT {
                Some(Action::Y)
            } else if code == KEY_TAB {
                Some(Action::L)
            } else if code == KEY_BACKSPACE {
                Some(Action::R)
            } else if code == KEY_RETURN {
                Some(Action::Start)
            } else if code == KEY_T {
                Some(Action::Start)
            } else if code == KEY_RCTRL {
                Some(Action::Select)
            } else if code == KEY_ESCAPE {
                Some(Action::Start)
            } else {
                None
            }
        },
    }
}

} // verus!
