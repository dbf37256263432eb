//! The game screen's input modes as a state machine: the pause menu, the
//! info hub, the command menu, the hold-Y radial, the glyph palette, the
//! aiming cursor, the overmap and the death screen. Each step takes the
//! state, one button press and the few facts about the world it needs,
//! and gives the next state and the one command the caller carries out
//! on the world. What a command did comes back through the result steps
//! below.

use vstd::prelude::*;

use crate::action::{menu_ids, ActionId};
use crate::crafting::recipe_ids;
use crate::input::Action;
use crate::screen::{needs_death, tab_next, tab_prev, DeathCause, InfoTab};
use crate::world::ChunkCoord;
use crate::needs::Needs;

verus! {

/// Rows of the pause menu.
pub const PAUSE_OPTION_COUNT: usize = 4;

/// Rows of the command menu: every verb of the catalog.
pub const MENU_ROWS: usize = 24;

/// Rows of the crafting tab.
pub const RECIPE_ROWS: usize = 6;

/// How long Y must stay held, in milliseconds, before the radial opens.
pub const HOLD_THRESHOLD_MS: u64 = 250;

/// What a pause-menu row does.
#[derive(Clone, Copy, Debug, PartialEq, Eq, Structural)]
pub enum PauseAction {
    Save,
    Quit,
    ResetSave,
    GlyphPalette,
}

/// The pause menu's rows, top to bottom.
pub open spec fn pause_action(i: int) -> PauseAction {
    if i == 0 {
        PauseAction::Save
    } else if i == 1 {
        PauseAction::Quit
    } else if i == 2 {
        PauseAction::ResetSave
    } else {
        PauseAction::GlyphPalette
    }
}

/// Row `i` of the pause menu and its label.
pub fn pause_option(i: usize) -> (r: (PauseAction, &'static str))
    requires
        i < PAUSE_OPTION_COUNT,
    ensures
        r.0 == pause_action(i as int),
{
    if i == 0 {
        (PauseAction::Save, "Save")
    } else if i == 1 {
        (PauseAction::Quit, "Quit to desktop")
    } else if i == 2 {
        (PauseAction::ResetSave, "Delete save and reset")
    } else {
        (PauseAction::GlyphPalette, "CP437 glyph palette (dev)")
    }
}

/// Directions of the hold-Y radial.
#[derive(Clone, Copy, Debug, PartialEq, Eq, Structural)]
pub enum RadialDir {
    Up,
    Down,
    Left,
    Right,
}

/// The verb each radial direction fires.
pub open spec fn radial_verb(d: RadialDir) -> ActionId {
    match d {
        RadialDir::Up => ActionId::Pickup,
        RadialDir::Right => ActionId::EatRation,
        RadialDir::Down => ActionId::PickHerb,
        RadialDir::Left => ActionId::DrinkWaterskin,
    }
}

/// The verb direction `d` fires and its label.
pub fn radial_binding(d: RadialDir) -> (r: (ActionId, &'static str))
    ensures
        r.0 == radial_verb(d),
{
    match d {
        RadialDir::Up => (ActionId::Pickup, "Pickup"),
        RadialDir::Right => (ActionId::EatRation, "Eat"),
        RadialDir::Down => (ActionId::PickHerb, "Pick herb"),
        RadialDir::Left => (ActionId::DrinkWaterskin, "Drink"),
    }
}

/// The direction a d-pad button stands for.
pub open spec fn dir_of(a: Action) -> Option<RadialDir> {
    match a {
        Action::Up => Some(RadialDir::Up),
        Action::Down => Some(RadialDir::Down),
        Action::Left => Some(RadialDir::Left),
        Action::Right => Some(RadialDir::Right),
        _ => None,
    }
}

/// Offset of one step in direction `d`, y growing downwards.
pub open spec fn dir_delta(d: RadialDir) -> (int, int) {
    match d {
        RadialDir::Up => (0, -1),
        RadialDir::Down => (0, 1),
        RadialDir::Left => (-1, 0),
        RadialDir::Right => (1, 0),
    }
}

fn dir_of_exec(a: Action) -> (r: Option<RadialDir>)
    ensures
        r == dir_of(a),
{
    match a {
        Action::Up => Some(RadialDir::Up),
        Action::Down => Some(RadialDir::Down),
        Action::Left => Some(RadialDir::Left),
        Action::Right => Some(RadialDir::Right),
        _ => None,
    }
}

fn dir_delta_exec(d: RadialDir) -> (r: (i32, i32))
    ensures
        r.0 == dir_delta(d).0,
        r.1 == dir_delta(d).1,
{
    match d {
        RadialDir::Up => (0, -1),
        RadialDir::Down => (0, 1),
        RadialDir::Left => (-1, 0),
        RadialDir::Right => (1, 0),
    }
}

/// The open info hub: its tab and the cursor row within it.
#[derive(Clone, Copy, Debug, PartialEq, Eq, Structural)]
pub struct InfoMenu {
    pub tab: InfoTab,
    pub selected: usize,
}

/// The aiming cursor, in world cells, and the bow's reach.
#[derive(Clone, Copy, Debug, PartialEq, Eq, Structural)]
pub struct AimCursor {
    pub x: i32,
    pub y: i32,
    pub max_range: u8,
}

/// Which input modes are open.
#[derive(Clone, Copy, Debug, PartialEq, Eq, Structural)]
pub struct UiState {
    /// Command menu, with its selected row.
    pub command_menu: Option<usize>,
    /// Pause menu, with its selected row.
    pub pause_menu: Option<usize>,
    pub info_menu: Option<InfoMenu>,
    /// Set once the player has died.
    pub dead: Option<DeathCause>,
    /// When Y went down, in milliseconds, while it is held.
    pub y_press_at: Option<u64>,
    pub radial_open: bool,
    /// A radial direction fired during this hold of Y.
    pub radial_consumed: bool,
    /// Glyph palette, with the highlighted byte.
    pub glyph_palette: Option<u8>,
    pub target_cursor: Option<AimCursor>,
    /// Overmap, with its cursor chunk.
    pub overmap_cursor: Option<ChunkCoord>,
    /// Where the last fast travel was headed, kept until it arrives.
    pub last_destination: Option<ChunkCoord>,
}

/// Facts about the world that the next input mode depends on.
#[derive(Clone, Copy, Debug, PartialEq, Eq, Structural)]
pub struct UiFacts {
    /// A multi-turn action is running.
    pub action_running: bool,
    /// Rows of the info hub's open tab.
    pub info_rows: usize,
    /// Chunk the player stands in.
    pub player_chunk: ChunkCoord,
}

/// Where a verb was picked from.
#[derive(Clone, Copy, Debug, PartialEq, Eq, Structural)]
pub enum ActionOrigin {
    Radial,
    Menu,
    Craft,
}

/// What the caller does on the world after a step.
#[derive(Clone, Copy, Debug, PartialEq, Eq, Structural)]
pub enum UiCommand {
    Nothing,
    /// Leave the game.
    Quit,
    /// Delete the run save and start a new run.
    NewRun,
    /// Write the save files.
    SaveGame,
    /// Delete both save files and reset the world.
    ResetSave,
    /// Check verb `id` and, where it is available, carry it out; report
    /// back through `ui_action_result`.
    TryAction { id: ActionId, origin: ActionOrigin },
    /// Carry out verb `id` unchecked: the bare A button picks up.
    Perform(ActionId),
    /// Shoot at the hostile on cell `(x, y)`, if any, then let hostiles act.
    FireAt { x: i32, y: i32 },
    /// Plan fast travel to a chunk; report back through `ui_travel_planned`.
    PlanTravel(ChunkCoord),
    /// Stop the running multi-turn action.
    CancelAction,
    /// Switch the running action between progress bar and time skip.
    ToggleActionView,
    /// Equip or unequip inventory row `i`.
    InventoryUse(usize),
    /// Step the player by `(dx, dy)`.
    MovePlayer { dx: i32, dy: i32 },
}

/// How a tried verb went.
#[derive(Clone, Copy, Debug, PartialEq, Eq, Structural)]
pub enum ActionOutcome {
    Unavailable,
    Done,
    /// The verb opened the aiming cursor at this spot.
    OpenAim(AimCursor),
}

impl UiState {
    /// Rows that are selected lie inside their menus.
    pub open spec fn wf(self) -> bool {
        &&& (self.pause_menu matches Some(i) ==> i < PAUSE_OPTION_COUNT)
        &&& (self.command_menu matches Some(i) ==> i < MENU_ROWS)
    }

    /// Nothing open: the state a run starts in.
    pub fn new() -> (r: UiState)
        ensures
            r == ui_start(),
    {
        UiState {
            command_menu: None,
            pause_menu: None,
            info_menu: None,
            dead: None,
            y_press_at: None,
            radial_open: false,
            radial_consumed: false,
            glyph_palette: None,
            target_cursor: None,
            overmap_cursor: None,
            last_destination: None,
        }
    }
}

/// Nothing open and nothing remembered.
pub open spec fn ui_start() -> UiState {
    UiState {
        command_menu: None,
        pause_menu: None,
        info_menu: None,
        dead: None,
        y_press_at: None,
        radial_open: false,
        radial_consumed: false,
        glyph_palette: None,
        target_cursor: None,
        overmap_cursor: None,
        last_destination: None,
    }
}

/// A new run closes the command menu, the info hub and the death screen.
pub open spec fn after_new_run(s: UiState) -> UiState {
    UiState { command_menu: None, info_menu: None, dead: None, ..s }
}

/// `s` with the pause menu opened on its first row.
pub open spec fn paused(s: UiState) -> UiState {
    UiState { pause_menu: Some(0), ..s }
}

/// One row up, stopping at the first.
pub open spec fn row_up(i: usize) -> usize {
    if i == 0 { 0 } else { (i - 1) as usize }
}

/// One row down, stopping at row `last`.
pub open spec fn row_down(i: usize, last: usize) -> usize {
    if i + 1 <= last { (i + 1) as usize } else { last }
}

/// A step of the aiming cursor, stopping at the edge of `i32`.
pub open spec fn sat_add(v: i32, d: int) -> i32 {
    if v + d > i32::MAX { i32::MAX } else if v + d < i32::MIN { i32::MIN } else { (v + d) as i32 }
}

/// A step of the glyph palette's cursor over the 256 bytes, wrapping round.
pub open spec fn byte_step(g: u8, d: int) -> u8 {
    ((g + d) % 256) as u8
}

/// The step the palette's cursor takes for a d-pad direction: a row of
/// sixteen up or down, one byte left or right.
pub open spec fn palette_delta(d: RadialDir) -> int {
    match d {
        RadialDir::Up => -16,
        RadialDir::Down => 16,
        RadialDir::Left => -1,
        RadialDir::Right => 1,
    }
}

/// The overmap cursor stays on `i32` chunk coordinates after a step of
/// `a` (the cursor moves with plain addition).
pub open spec fn overmap_step_fits(s: UiState, a: Action) -> bool {
    s.overmap_cursor matches Some(c) ==> (dir_of(a) matches Some(d) ==> (
        i32::MIN <= c.cx + dir_delta(d).0 <= i32::MAX && i32::MIN <= c.cy + dir_delta(d).1 <= i32::MAX))
}

/// The pause menu's answer to a press while it is open on row `sel`.
pub open spec fn pause_next(s: UiState, sel: usize, a: Action) -> (UiState, UiCommand) {
    match a {
        Action::Up => (UiState { pause_menu: Some(row_up(sel)), ..s }, UiCommand::Nothing),
        Action::Down => (UiState { pause_menu: Some(row_down(sel, 3)), ..s }, UiCommand::Nothing),
        Action::A => match pause_action(sel as int) {
            PauseAction::Save => (UiState { pause_menu: None, ..s }, UiCommand::SaveGame),
            PauseAction::Quit => (s, UiCommand::Quit),
            PauseAction::ResetSave => (
                UiState { command_menu: None, pause_menu: None, ..s },
                UiCommand::ResetSave,
            ),
            PauseAction::GlyphPalette => (
                UiState { pause_menu: None, glyph_palette: Some(0), ..s },
                UiCommand::Nothing,
            ),
        },
        Action::B | Action::Start => (UiState { pause_menu: None, ..s }, UiCommand::Nothing),
        _ => (s, UiCommand::Nothing),
    }
}

/// The aiming cursor's answer to a press.
pub open spec fn aim_next(s: UiState, tc: AimCursor, a: Action) -> (UiState, UiCommand) {
    match dir_of(a) {
        Some(d) => (
            UiState {
                target_cursor: Some(AimCursor {
                    x: sat_add(tc.x, dir_delta(d).0),
                    y: sat_add(tc.y, dir_delta(d).1),
                    ..tc
                }),
                ..s
            },
            UiCommand::Nothing,
        ),
        None => match a {
            Action::A => (UiState { target_cursor: None, ..s }, UiCommand::FireAt { x: tc.x, y: tc.y }),
            Action::B => (UiState { target_cursor: None, ..s }, UiCommand::Nothing),
            _ => (s, UiCommand::Nothing),
        },
    }
}

/// The overmap's answer to a press.
pub open spec fn overmap_next(s: UiState, c: ChunkCoord, a: Action) -> (UiState, UiCommand) {
    match dir_of(a) {
        Some(d) => (
            UiState {
                overmap_cursor: Some(ChunkCoord {
                    cx: (c.cx + dir_delta(d).0) as i32,
                    cy: (c.cy + dir_delta(d).1) as i32,
                }),
                ..s
            },
            UiCommand::Nothing,
        ),
        None => match a {
            Action::A => (s, UiCommand::PlanTravel(c)),
            Action::B | Action::OpenOvermap => (UiState { overmap_cursor: None, ..s }, UiCommand::Nothing),
            _ => (s, UiCommand::Nothing),
        },
    }
}

/// The glyph palette's answer to a press.
pub open spec fn palette_next(s: UiState, g: u8, a: Action) -> (UiState, UiCommand) {
    match dir_of(a) {
        Some(d) => (UiState { glyph_palette: Some(byte_step(g, palette_delta(d))), ..s }, UiCommand::Nothing),
        None => match a {
            Action::B => (UiState { glyph_palette: None, ..s }, UiCommand::Nothing),
            Action::Start => (paused(s), UiCommand::Nothing),
            _ => (s, UiCommand::Nothing),
        },
    }
}

/// The info hub's answer to a press, its open tab having `rows` rows.
pub open spec fn info_next(s: UiState, m: InfoMenu, rows: usize, a: Action) -> (UiState, UiCommand) {
    match a {
        Action::L => (UiState { info_menu: Some(InfoMenu { tab: tab_prev(m.tab), selected: 0 }), ..s }, UiCommand::Nothing),
        Action::R => (UiState { info_menu: Some(InfoMenu { tab: tab_next(m.tab), selected: 0 }), ..s }, UiCommand::Nothing),
        Action::Up => if rows > 0 {
            (UiState { info_menu: Some(InfoMenu { selected: row_up(m.selected), ..m }), ..s }, UiCommand::Nothing)
        } else {
            (s, UiCommand::Nothing)
        },
        Action::Down => if rows > 0 {
            (UiState { info_menu: Some(InfoMenu { selected: row_down(m.selected, (rows - 1) as usize), ..m }), ..s }, UiCommand::Nothing)
        } else {
            (s, UiCommand::Nothing)
        },
        Action::A => match m.tab {
            InfoTab::Crafting => if m.selected < RECIPE_ROWS {
                (s, UiCommand::TryAction { id: recipe_ids()[m.selected as int], origin: ActionOrigin::Craft })
            } else {
                (s, UiCommand::Nothing)
            },
            InfoTab::Inventory => (s, UiCommand::InventoryUse(m.selected)),
            InfoTab::Skills => (s, UiCommand::Nothing),
        },
        Action::B | Action::Select => (UiState { info_menu: None, ..s }, UiCommand::Nothing),
        Action::Start => (paused(s), UiCommand::Nothing),
        _ => (s, UiCommand::Nothing),
    }
}

/// The running multi-turn action's answer to a press.
pub open spec fn running_next(s: UiState, a: Action) -> (UiState, UiCommand) {
    match a {
        Action::B => (s, UiCommand::CancelAction),
        Action::Select => (s, UiCommand::ToggleActionView),
        Action::Start => (paused(s), UiCommand::Nothing),
        _ => (s, UiCommand::Nothing),
    }
}

/// The command menu's answer to a press while it is open on row `sel`.
pub open spec fn menu_next(s: UiState, sel: usize, a: Action) -> (UiState, UiCommand) {
    match a {
        Action::Up => (UiState { command_menu: Some(row_up(sel)), ..s }, UiCommand::Nothing),
        Action::Down => (UiState { command_menu: Some(row_down(sel, (MENU_ROWS - 1) as usize)), ..s }, UiCommand::Nothing),
        Action::A => (s, UiCommand::TryAction { id: menu_ids()[sel as int], origin: ActionOrigin::Menu }),
        Action::B => (UiState { command_menu: None, ..s }, UiCommand::Nothing),
        Action::Start => (paused(s), UiCommand::Nothing),
        _ => (s, UiCommand::Nothing),
    }
}

/// A press with no mode open: walk, pick up, pause or open the info hub.
pub open spec fn free_next(s: UiState, a: Action) -> (UiState, UiCommand) {
    match dir_of(a) {
        Some(d) => (s, UiCommand::MovePlayer { dx: dir_delta(d).0 as i32, dy: dir_delta(d).1 as i32 }),
        None => match a {
            Action::A => (s, UiCommand::Perform(ActionId::Pickup)),
            Action::Start => (paused(s), UiCommand::Nothing),
            Action::Select => (
                UiState { info_menu: Some(InfoMenu { tab: InfoTab::Inventory, selected: 0 }), ..s },
                UiCommand::Nothing,
            ),
            _ => (s, UiCommand::Nothing),
        },
    }
}

/// The next state and command for press `a`. Modes answer in priority
/// order: the radial, the death screen, the pause menu, the aiming
/// cursor, the overmap, opening the overmap, the glyph palette, the info
/// hub, a running action, the command menu, and last free play. Y
/// presses belong to `y_next` and do nothing here.
pub open spec fn ui_next(s: UiState, a: Action, f: UiFacts) -> (UiState, UiCommand) {
    if a == Action::Y {
        (s, UiCommand::Nothing)
    } else if s.radial_open {
        match dir_of(a) {
            Some(d) => (
                UiState { radial_open: false, radial_consumed: true, ..s },
                UiCommand::TryAction { id: radial_verb(d), origin: ActionOrigin::Radial },
            ),
            None => (s, UiCommand::Nothing),
        }
    } else if s.dead is Some {
        match a {
            Action::A => (after_new_run(s), UiCommand::NewRun),
            Action::Start => (s, UiCommand::Quit),
            _ => (s, UiCommand::Nothing),
        }
    } else if s.pause_menu is Some {
        pause_next(s, s.pause_menu->0, a)
    } else if s.target_cursor is Some {
        aim_next(s, s.target_cursor->0, a)
    } else if s.overmap_cursor is Some {
        overmap_next(s, s.overmap_cursor->0, a)
    } else if a == Action::OpenOvermap && s.command_menu is None && s.info_menu is None
        && s.glyph_palette is None && !f.action_running {
        (
            UiState {
                overmap_cursor: Some(match s.last_destination {
                    Some(c) => c,
                    None => f.player_chunk,
                }),
                ..s
            },
            UiCommand::Nothing,
        )
    } else if s.glyph_palette is Some {
        palette_next(s, s.glyph_palette->0, a)
    } else if s.info_menu is Some {
        info_next(s, s.info_menu->0, f.info_rows, a)
    } else if f.action_running {
        running_next(s, a)
    } else if s.command_menu is Some {
        menu_next(s, s.command_menu->0, a)
    } else {
        free_next(s, a)
    }
}

fn row_up_exec(i: usize) -> (r: usize)
    ensures
        r == row_up(i),
{
    if i == 0 { 0 } else { i - 1 }
}

fn row_down_exec(i: usize, last: usize) -> (r: usize)
    ensures
        r == row_down(i, last),
{
    if i < last { i + 1 } else { last }
}

fn sat_add_exec(v: i32, d: i32) -> (r: i32)
    requires
        -1 <= d <= 1,
    ensures
        r == sat_add(v, d as int),
{
    if d > 0 && v == i32::MAX {
        i32::MAX
    } else if d < 0 && v == i32::MIN {
        i32::MIN
    } else {
        v + d
    }
}

fn byte_step_exec(g: u8, d: RadialDir) -> (r: u8)
    ensures
        r == byte_step(g, palette_delta(d)),
{
    let r = match d {
        RadialDir::Up => g.wrapping_sub(16),
        RadialDir::Down => g.wrapping_add(16),
        RadialDir::Left => g.wrapping_sub(1),
        RadialDir::Right => g.wrapping_add(1),
    };
    proof {
        let gi = g as int;
        if gi >= 16 {
            assert((gi - 16) % 256 == gi - 16);
        } else {
            assert((gi - 16) % 256 == gi + 240);
        }
        if gi + 16 < 256 {
            assert((gi + 16) % 256 == gi + 16);
        } else {
            assert((gi + 16) % 256 == gi - 240);
        }
        if gi >= 1 {
            assert((gi - 1) % 256 == gi - 1);
        } else {
            assert((gi - 1) % 256 == 255);
        }
        if gi + 1 < 256 {
            assert((gi + 1) % 256 == gi + 1);
        } else {
            assert((gi + 1) % 256 == 0);
        }
    }
    r
}

fn pause_step(s: UiState, sel: usize, a: Action) -> (r: (UiState, UiCommand))
    requires
        sel < PAUSE_OPTION_COUNT,
    ensures
        r == pause_next(s, sel, a),
{
    match a {
        Action::Up => (UiState { pause_menu: Some(row_up_exec(sel)), ..s }, UiCommand::Nothing),
        Action::Down => (UiState { pause_menu: Some(row_down_exec(sel, 3)), ..s }, UiCommand::Nothing),
        Action::A => {
            let (chosen, _) = pause_option(sel);
            match chosen {
                PauseAction::Save => (UiState { pause_menu: None, ..s }, UiCommand::SaveGame),
                PauseAction::Quit => (s, UiCommand::Quit),
                PauseAction::ResetSave => (
                    UiState { command_menu: None, pause_menu: None, ..s },
                    UiCommand::ResetSave,
                ),
                PauseAction::GlyphPalette => (
                    UiState { pause_menu: None, glyph_palette: Some(0), ..s },
                    UiCommand::Nothing,
                ),
            }
        },
        Action::B | Action::Start => (UiState { pause_menu: None, ..s }, UiCommand::Nothing),
        _ => (s, UiCommand::Nothing),
    }
}

fn aim_step(s: UiState, tc: AimCursor, a: Action) -> (r: (UiState, UiCommand))
    ensures
        r == aim_next(s, tc, a),
{
    match dir_of_exec(a) {
        Some(d) => {
            let (dx, dy) = dir_delta_exec(d);
            let moved = AimCursor { x: sat_add_exec(tc.x, dx), y: sat_add_exec(tc.y, dy), ..tc };
            (UiState { target_cursor: Some(moved), ..s }, UiCommand::Nothing)
        },
        None => match a {
            Action::A => (UiState { target_cursor: None, ..s }, UiCommand::FireAt { x: tc.x, y: tc.y }),
            Action::B => (UiState { target_cursor: None, ..s }, UiCommand::Nothing),
            _ => (s, UiCommand::Nothing),
        },
    }
}

fn overmap_step(s: UiState, c: ChunkCoord, a: Action) -> (r: (UiState, UiCommand))
    requires
        s.overmap_cursor == Some(c),
        overmap_step_fits(s, a),
    ensures
        r == overmap_next(s, c, a),
{
    match dir_of_exec(a) {
        Some(d) => {
            let (dx, dy) = dir_delta_exec(d);
            let moved = ChunkCoord { cx: c.cx + dx, cy: c.cy + dy };
            (UiState { overmap_cursor: Some(moved), ..s }, UiCommand::Nothing)
        },
        None => match a {
            Action::A => (s, UiCommand::PlanTravel(c)),
            Action::B | Action::OpenOvermap => (UiState { overmap_cursor: None, ..s }, UiCommand::Nothing),
            _ => (s, UiCommand::Nothing),
        },
    }
}

fn palette_step(s: UiState, g: u8, a: Action) -> (r: (UiState, UiCommand))
    ensures
        r == palette_next(s, g, a),
{
    match dir_of_exec(a) {
        Some(d) => (UiState { glyph_palette: Some(byte_step_exec(g, d)), ..s }, UiCommand::Nothing),
        None => match a {
            Action::B => (UiState { glyph_palette: None, ..s }, UiCommand::Nothing),
            Action::Start => (UiState { pause_menu: Some(0), ..s }, UiCommand::Nothing),
            _ => (s, UiCommand::Nothing),
        },
    }
}

fn info_step(s: UiState, m: InfoMenu, rows: usize, a: Action) -> (r: (UiState, UiCommand))
    ensures
        r == info_next(s, m, rows, a),
{
    match a {
        Action::L => (UiState { info_menu: Some(InfoMenu { tab: m.tab.prev(), selected: 0 }), ..s }, UiCommand::Nothing),
        Action::R => (UiState { info_menu: Some(InfoMenu { tab: m.tab.next(), selected: 0 }), ..s }, UiCommand::Nothing),
        Action::Up => if rows > 0 {
            (UiState { info_menu: Some(InfoMenu { selected: row_up_exec(m.selected), ..m }), ..s }, UiCommand::Nothing)
        } else {
            (s, UiCommand::Nothing)
        },
        Action::Down => if rows > 0 {
            (UiState { info_menu: Some(InfoMenu { selected: row_down_exec(m.selected, rows - 1), ..m }), ..s }, UiCommand::Nothing)
        } else {
            (s, UiCommand::Nothing)
        },
        Action::A => match m.tab {
            InfoTab::Crafting => if m.selected < RECIPE_ROWS {
                let rs = crate::crafting::recipes();
                let id = rs[m.selected].action;
                (s, UiCommand::TryAction { id, origin: ActionOrigin::Craft })
            } else {
                (s, UiCommand::Nothing)
            },
            InfoTab::Inventory => (s, UiCommand::InventoryUse(m.selected)),
            InfoTab::Skills => (s, UiCommand::Nothing),
        },
        Action::B | Action::Select => (UiState { info_menu: None, ..s }, UiCommand::Nothing),
        Action::Start => (UiState { pause_menu: Some(0), ..s }, UiCommand::Nothing),
        _ => (s, UiCommand::Nothing),
    }
}

fn running_step(s: UiState, a: Action) -> (r: (UiState, UiCommand))
    ensures
        r == running_next(s, a),
{
    match a {
        Action::B => (s, UiCommand::CancelAction),
        Action::Select => (s, UiCommand::ToggleActionView),
        Action::Start => (UiState { pause_menu: Some(0), ..s }, UiCommand::Nothing),
        _ => (s, UiCommand::Nothing),
    }
}

fn menu_step(s: UiState, sel: usize, a: Action) -> (r: (UiState, UiCommand))
    requires
        sel < MENU_ROWS,
    ensures
        r == menu_next(s, sel, a),
{
    match a {
        Action::Up => (UiState { command_menu: Some(row_up_exec(sel)), ..s }, UiCommand::Nothing),
        Action::Down => (UiState { command_menu: Some(row_down_exec(sel, MENU_ROWS - 1)), ..s }, UiCommand::Nothing),
        Action::A => {
            let acts = crate::action::all_actions();
            let id = acts[sel].id;
            (s, UiCommand::TryAction { id, origin: ActionOrigin::Menu })
        },
        Action::B => (UiState { command_menu: None, ..s }, UiCommand::Nothing),
        Action::Start => (UiState { pause_menu: Some(0), ..s }, UiCommand::Nothing),
        _ => (s, UiCommand::Nothing),
    }
}

fn free_step(s: UiState, a: Action) -> (r: (UiState, UiCommand))
    ensures
        r == free_next(s, a),
{
    match dir_of_exec(a) {
        Some(d) => {
            let (dx, dy) = dir_delta_exec(d);
            (s, UiCommand::MovePlayer { dx, dy })
        },
        None => match a {
            Action::A => (s, UiCommand::Perform(ActionId::Pickup)),
            Action::Start => (UiState { pause_menu: Some(0), ..s }, UiCommand::Nothing),
            Action::Select => (
                UiState { info_menu: Some(InfoMenu { tab: InfoTab::Inventory, selected: 0 }), ..s },
                UiCommand::Nothing,
            ),
            _ => (s, UiCommand::Nothing),
        },
    }
}

/// One press through the input modes: see `ui_next`.
pub fn ui_step(s: &UiState, a: Action, f: &UiFacts) -> (r: (UiState, UiCommand))
    requires
        s.wf(),
        overmap_step_fits(*s, a),
    ensures
        r == ui_next(*s, a, *f),
        r.0.wf(),
{
    let s = *s;
    if a == Action::Y {
        (s, UiCommand::Nothing)
    } else if s.radial_open {
        match dir_of_exec(a) {
            Some(d) => {
                let (id, _) = radial_binding(d);
                (
                    UiState { radial_open: false, radial_consumed: true, ..s },
                    UiCommand::TryAction { id, origin: ActionOrigin::Radial },
                )
            },
            None => (s, UiCommand::Nothing),
        }
    } else if s.dead.is_some() {
        match a {
            Action::A => (UiState { command_menu: None, info_menu: None, dead: None, ..s }, UiCommand::NewRun),
            Action::Start => (s, UiCommand::Quit),
            _ => (s, UiCommand::Nothing),
        }
    } else if let Some(sel) = s.pause_menu {
        pause_step(s, sel, a)
    } else if let Some(tc) = s.target_cursor {
        aim_step(s, tc, a)
    } else if let Some(c) = s.overmap_cursor {
        overmap_step(s, c, a)
    } else if a == Action::OpenOvermap && s.command_menu.is_none() && s.info_menu.is_none()
        && s.glyph_palette.is_none() && !f.action_running {
        let cursor = match s.last_destination {
            Some(c) => c,
            None => f.player_chunk,
        };
        (UiState { overmap_cursor: Some(cursor), ..s }, UiCommand::Nothing)
    } else if let Some(g) = s.glyph_palette {
        palette_step(s, g, a)
    } else if let Some(m) = s.info_menu {
        info_step(s, m, f.info_rows, a)
    } else if f.action_running {
        running_step(s, a)
    } else if let Some(sel) = s.command_menu {
        menu_step(s, sel, a)
    } else {
        free_step(s, a)
    }
}

/// The state after verb a `TryAction` from `origin` asked for went as
/// `out`: the command menu and the crafting tab close once their verb was
/// done, an aiming verb opens the cursor (closing the command menu), and
/// a verb that could not be done leaves everything open.
pub open spec fn action_result_next(s: UiState, origin: ActionOrigin, out: ActionOutcome) -> UiState {
    match (origin, out) {
        (_, ActionOutcome::Unavailable) => s,
        (ActionOrigin::Radial, ActionOutcome::Done) => s,
        (ActionOrigin::Radial, ActionOutcome::OpenAim(c)) => UiState { target_cursor: Some(c), ..s },
        (ActionOrigin::Menu, ActionOutcome::Done) => UiState { command_menu: None, ..s },
        (ActionOrigin::Menu, ActionOutcome::OpenAim(c)) => UiState { target_cursor: Some(c), command_menu: None, ..s },
        (ActionOrigin::Craft, _) => UiState { info_menu: None, ..s },
    }
}

/// Applies how a tried verb went: see `action_result_next`.
pub fn ui_action_result(s: &UiState, origin: ActionOrigin, out: ActionOutcome) -> (r: UiState)
    requires
        s.wf(),
    ensures
        r == action_result_next(*s, origin, out),
        r.wf(),
{
    let s = *s;
    match (origin, out) {
        (_, ActionOutcome::Unavailable) => s,
        (ActionOrigin::Radial, ActionOutcome::Done) => s,
        (ActionOrigin::Radial, ActionOutcome::OpenAim(c)) => UiState { target_cursor: Some(c), ..s },
        (ActionOrigin::Menu, ActionOutcome::Done) => UiState { command_menu: None, ..s },
        (ActionOrigin::Menu, ActionOutcome::OpenAim(c)) => UiState { target_cursor: Some(c), command_menu: None, ..s },
        (ActionOrigin::Craft, _) => UiState { info_menu: None, ..s },
    }
}

/// The state after planning fast travel to `dest`: a planned route is
/// remembered as the destination and closes the overmap; no route
/// leaves the overmap open.
pub open spec fn travel_planned_next(s: UiState, dest: ChunkCoord, planned: bool) -> UiState {
    if planned {
        UiState { last_destination: Some(dest), overmap_cursor: None, ..s }
    } else {
        s
    }
}

/// Applies the outcome of planning fast travel: see `travel_planned_next`.
pub fn ui_travel_planned(s: &UiState, dest: ChunkCoord, planned: bool) -> (r: UiState)
    requires
        s.wf(),
    ensures
        r == travel_planned_next(*s, dest, planned),
        r.wf(),
{
    if planned {
        UiState { last_destination: Some(dest), overmap_cursor: None, ..*s }
    } else {
        *s
    }
}

/// The hold-Y state after a frame in which Y is `held` at time `now_ms`.
/// Y going down starts a hold. Y coming up after a hold that opened no
/// radial and fired nothing opens the command menu, unless a menu, the
/// pause menu or the death screen is up; either way the hold ends. A hold
/// lasting `HOLD_THRESHOLD_MS` opens the radial, unless the pause menu,
/// the death screen or the command menu is up.
pub open spec fn y_next(s: UiState, held: bool, now_ms: u64) -> UiState {
    match s.y_press_at {
        None => if held {
            UiState { y_press_at: Some(now_ms), radial_open: false, radial_consumed: false, ..s }
        } else {
            s
        },
        Some(t0) => if !held {
            let opens = !s.radial_open && !s.radial_consumed && s.command_menu is None
                && s.pause_menu is None && s.dead is None;
            UiState {
                command_menu: if opens { Some(0) } else { s.command_menu },
                y_press_at: None,
                radial_open: false,
                radial_consumed: false,
                ..s
            }
        } else if !s.radial_open && now_ms >= t0 + HOLD_THRESHOLD_MS && s.pause_menu is None
            && s.dead is None && s.command_menu is None {
            UiState { radial_open: true, ..s }
        } else {
            s
        },
    }
}

/// Tracks the Y button over a frame: see `y_next`.
pub fn ui_y_frame(s: &UiState, held: bool, now_ms: u64) -> (r: UiState)
    requires
        s.wf(),
    ensures
        r == y_next(*s, held, now_ms),
        r.wf(),
{
    let s = *s;
    match s.y_press_at {
        None => if held {
            UiState { y_press_at: Some(now_ms), radial_open: false, radial_consumed: false, ..s }
        } else {
            s
        },
        Some(t0) => if !held {
            let opens = !s.radial_open && !s.radial_consumed && s.command_menu.is_none()
                && s.pause_menu.is_none() && s.dead.is_none();
            UiState {
                command_menu: if opens { Some(0) } else { s.command_menu },
                y_press_at: None,
                radial_open: false,
                radial_consumed: false,
                ..s
            }
        } else if !s.radial_open && now_ms >= t0 && now_ms - t0 >= HOLD_THRESHOLD_MS
            && s.pause_menu.is_none() && s.dead.is_none() && s.command_menu.is_none() {
            UiState { radial_open: true, ..s }
        } else {
            s
        },
    }
}

/// Any press but Y and the overmap toggle stops fast travel.
pub open spec fn stops_travel(actions: Seq<Action>) -> bool {
    exists|i: int| 0 <= i < actions.len() && actions[i] != Action::Y && actions[i] != Action::OpenOvermap
}

/// Whether the presses of a frame stop fast travel: see `stops_travel`.
pub fn presses_stop_travel(actions: &Vec<Action>) -> (r: bool)
    ensures
        r == stops_travel(actions@),
{
    let mut i: usize = 0;
    while i < actions.len()
        invariant
            i <= actions.len(),
            forall|j: int| 0 <= j < i ==> actions@[j] == Action::Y || actions@[j] == Action::OpenOvermap,
        decreases actions.len() - i,
    {
        if actions[i] != Action::Y && actions[i] != Action::OpenOvermap {
            return true;
        }
        i += 1;
    }
    false
}

/// How a running multi-turn action is shown.
#[derive(Clone, Copy, Debug, PartialEq, Eq, Structural)]
pub enum ViewMode {
    ProgressBar,
    TimeSkip,
}

/// What the world does with fast travel this frame.
#[derive(Clone, Copy, Debug, PartialEq, Eq, Structural)]
pub enum TravelTick {
    Idle,
    /// Drop the travel queue: the player pressed something.
    Stop,
    /// Take the next step.
    Step,
}

/// What the world does this frame, apart from the presses.
#[derive(Clone, Copy, Debug, PartialEq, Eq, Structural)]
pub struct FramePlan {
    pub travel: TravelTick,
    /// Game-seconds to advance the running multi-turn action by, if it
    /// advances.
    pub advance_secs: Option<u32>,
}

/// The frame's work. Fast travel and the multi-turn action both halt
/// while the pause menu or the death screen is up, and travel halts while
/// the overmap is open too. Travel stops on any press, else steps. The
/// action advances `bar_secs` a frame under the progress bar, or all its
/// `remaining_secs` at once under time skip.
pub open spec fn frame_plan_spec(
    s: UiState,
    travelling: bool,
    pressed: bool,
    view: Option<ViewMode>,
    bar_secs: u32,
    remaining_secs: u32,
) -> FramePlan {
    let live = s.pause_menu is None && s.dead is None;
    FramePlan {
        travel: if live && s.overmap_cursor is None && travelling {
            if pressed { TravelTick::Stop } else { TravelTick::Step }
        } else {
            TravelTick::Idle
        },
        advance_secs: if live {
            match view {
                Some(ViewMode::ProgressBar) => Some(bar_secs),
                Some(ViewMode::TimeSkip) => Some(remaining_secs),
                None => None,
            }
        } else {
            None
        },
    }
}

/// Plans the frame's world work: see `frame_plan_spec`.
pub fn frame_plan(
    s: &UiState,
    travelling: bool,
    pressed: bool,
    view: Option<ViewMode>,
    bar_secs: u32,
    remaining_secs: u32,
) -> (r: FramePlan)
    ensures
        r == frame_plan_spec(*s, travelling, pressed, view, bar_secs, remaining_secs),
{
    let live = s.pause_menu.is_none() && s.dead.is_none();
    let travel = if live && s.overmap_cursor.is_none() && travelling {
        if pressed { TravelTick::Stop } else { TravelTick::Step }
    } else {
        TravelTick::Idle
    };
    let advance_secs = if live {
        match view {
            Some(ViewMode::ProgressBar) => Some(bar_secs),
            Some(ViewMode::TimeSkip) => Some(remaining_secs),
            None => None,
        }
    } else {
        None
    };
    FramePlan { travel, advance_secs }
}

/// How a step of fast travel went.
#[derive(Clone, Copy, Debug, PartialEq, Eq, Structural)]
pub enum TravelStep {
    Stepped,
    Completed,
    BlockedAtCell,
    NeedCritical,
}

/// After a travel step the queue ends unless the player merely stepped,
/// and the destination is forgotten once reached.
pub open spec fn travel_step_next(s: UiState, step: TravelStep) -> (UiState, bool) {
    match step {
        TravelStep::Stepped => (s, false),
        TravelStep::Completed => (UiState { last_destination: None, ..s }, true),
        _ => (s, true),
    }
}

/// Applies a travel step: the new state, and whether to drop the queue.
pub fn ui_travel_step(s: &UiState, step: TravelStep) -> (r: (UiState, bool))
    requires
        s.wf(),
    ensures
        r == travel_step_next(*s, step),
        r.0.wf(),
{
    match step {
        TravelStep::Stepped => (*s, false),
        TravelStep::Completed => (UiState { last_destination: None, ..*s }, true),
        _ => (*s, true),
    }
}

/// The death check after a frame's work. Once dead nothing changes. A
/// combat kill takes precedence over a need at zero; `needs_fatal` says
/// whether the needs count as fatal at all. Dying closes the command menu
/// and the info hub; the `bool` says whether to cancel the running
/// multi-turn action.
pub open spec fn death_next(s: UiState, combat_kill: bool, needs_fatal: bool, n: Needs, running: bool) -> (UiState, bool) {
    if s.dead is Some {
        (s, false)
    } else {
        let cause = if combat_kill {
            Some(DeathCause::Combat)
        } else if needs_fatal {
            needs_death(n)
        } else {
            None
        };
        match cause {
            Some(c) => (UiState { command_menu: None, info_menu: None, dead: Some(c), ..s }, running),
            None => (s, false),
        }
    }
}

/// Checks for death: see `death_next`.
pub fn ui_death_check(s: &UiState, combat_kill: bool, needs_fatal: bool, n: &Needs, running: bool) -> (r: (UiState, bool))
    requires
        s.wf(),
    ensures
        r == death_next(*s, combat_kill, needs_fatal, *n, running),
        r.0.wf(),
{
    if s.dead.is_some() {
        return (*s, false);
    }
    let cause = if combat_kill {
        Some(DeathCause::Combat)
    } else if needs_fatal {
        DeathCause::from_needs(n)
    } else {
        None
    };
    match cause {
        Some(c) => (UiState { command_menu: None, info_menu: None, dead: Some(c), ..*s }, running),
        None => (*s, false),
    }
}

/// A new world from the debug console closes the command menu, the info
/// hub and the death screen, as a new run does.
pub fn ui_new_world(s: &UiState) -> (r: UiState)
    requires
        s.wf(),
    ensures
        r == after_new_run(*s),
        r.wf(),
{
    UiState { command_menu: None, info_menu: None, dead: None, ..*s }
}

/// While the pause menu is up, with the radial and the death screen
/// closed, no press reaches the world but saving, quitting or resetting:
/// the world stays frozen.
pub proof fn law_pause_freezes_world(s: UiState, a: Action, f: UiFacts)
    requires
        s.pause_menu is Some,
        s.dead is None,
        !s.radial_open,
    ensures
        match ui_next(s, a, f).1 {
            UiCommand::Nothing | UiCommand::SaveGame | UiCommand::Quit | UiCommand::ResetSave => true,
            _ => false,
        },
{
}

/// On the death screen, with the radial closed, only A (a new run) and
/// Start (quit) do anything; every other press leaves the state as it is.
pub proof fn law_death_screen_takes_two_buttons(s: UiState, a: Action, f: UiFacts)
    requires
        s.dead is Some,
        !s.radial_open,
    ensures
        a == Action::A ==> ui_next(s, a, f) == (after_new_run(s), UiCommand::NewRun),
        a == Action::Start ==> ui_next(s, a, f) == (s, UiCommand::Quit),
        a != Action::A && a != Action::Start ==> ui_next(s, a, f) == (s, UiCommand::Nothing),
{
}

} // verus!
