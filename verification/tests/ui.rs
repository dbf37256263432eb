use holyland::action::ActionId;
use holyland::input::Action;
use holyland::needs::Needs;
use holyland::screen::{DeathCause, InfoTab};
use holyland::ui::{
    frame_plan, presses_stop_travel, ui_action_result, ui_death_check, ui_new_world, ui_step, ui_travel_planned,
    ui_travel_step, ui_y_frame, ActionOrigin, ActionOutcome, AimCursor, InfoMenu, TravelStep, TravelTick, UiCommand,
    UiFacts, UiState, ViewMode,
};
use holyland::world::ChunkCoord;

fn facts() -> UiFacts {
    UiFacts { action_running: false, info_rows: 3, player_chunk: ChunkCoord { cx: 2, cy: -1 } }
}

fn press(s: UiState, a: Action) -> (UiState, UiCommand) {
    ui_step(&s, a, &facts())
}

fn needs(v: u8) -> Needs {
    Needs { thirst: v, hunger: v, sleep: v, warmth: v }
}

#[test]
fn free_play_walks_picks_up_pauses_and_opens_the_hub() {
    let s = UiState::new();
    assert_eq!(press(s, Action::Left).1, UiCommand::MovePlayer { dx: -1, dy: 0 });
    assert_eq!(press(s, Action::Down).1, UiCommand::MovePlayer { dx: 0, dy: 1 });
    assert_eq!(press(s, Action::A).1, UiCommand::Perform(ActionId::Pickup));
    assert_eq!(press(s, Action::Start).0.pause_menu, Some(0));
    assert_eq!(press(s, Action::Select).0.info_menu, Some(InfoMenu { tab: InfoTab::Inventory, selected: 0 }));
    assert_eq!(press(s, Action::Y), (s, UiCommand::Nothing));
}

#[test]
fn pause_menu_rows_clamp_and_pick() {
    let s = UiState { pause_menu: Some(0), ..UiState::new() };
    assert_eq!(press(s, Action::Up).0.pause_menu, Some(0));
    let mut t = s;
    for _ in 0..6 {
        t = press(t, Action::Down).0;
    }
    assert_eq!(t.pause_menu, Some(3));
    let (g, c) = press(t, Action::A);
    assert_eq!((g.pause_menu, g.glyph_palette, c), (None, Some(0), UiCommand::Nothing));
    let (q, c) = press(UiState { pause_menu: Some(1), ..s }, Action::A);
    assert_eq!((q.pause_menu, c), (Some(1), UiCommand::Quit));
    let (v, c) = press(s, Action::A);
    assert_eq!((v.pause_menu, c), (None, UiCommand::SaveGame));
    let busy = UiState { pause_menu: Some(2), command_menu: Some(4), ..s };
    let (r, c) = press(busy, Action::A);
    assert_eq!((r.pause_menu, r.command_menu, c), (None, None, UiCommand::ResetSave));
    assert_eq!(press(s, Action::B).0.pause_menu, None);
    // The pause menu swallows movement.
    assert_eq!(press(s, Action::Left), (s, UiCommand::Nothing));
}

#[test]
fn command_menu_picks_its_verb_and_result_closes_it() {
    let s = UiState { command_menu: Some(0), ..UiState::new() };
    let mut t = s;
    for _ in 0..30 {
        t = press(t, Action::Down).0;
    }
    assert_eq!(t.command_menu, Some(23));
    let (_, c) = press(UiState { command_menu: Some(20), ..s }, Action::A);
    assert_eq!(c, UiCommand::TryAction { id: ActionId::Aim, origin: ActionOrigin::Menu });
    let aim = AimCursor { x: 4, y: 5, max_range: 10 };
    let opened = ui_action_result(&UiState { command_menu: Some(20), ..s }, ActionOrigin::Menu, ActionOutcome::OpenAim(aim));
    assert_eq!((opened.command_menu, opened.target_cursor), (None, Some(aim)));
    let kept = ui_action_result(&s, ActionOrigin::Menu, ActionOutcome::Unavailable);
    assert_eq!(kept, s);
    assert_eq!(ui_action_result(&s, ActionOrigin::Menu, ActionOutcome::Done).command_menu, None);
}

#[test]
fn aiming_cursor_moves_and_fires() {
    let s = UiState { target_cursor: Some(AimCursor { x: 1, y: 1, max_range: 8 }), ..UiState::new() };
    let t = press(press(s, Action::Up).0, Action::Right).0;
    assert_eq!(t.target_cursor, Some(AimCursor { x: 2, y: 0, max_range: 8 }));
    let (u, c) = press(t, Action::A);
    assert_eq!((u.target_cursor, c), (None, UiCommand::FireAt { x: 2, y: 0 }));
    let edge = UiState { target_cursor: Some(AimCursor { x: i32::MAX, y: 0, max_range: 8 }), ..UiState::new() };
    assert_eq!(press(edge, Action::Right).0.target_cursor.unwrap().x, i32::MAX);
}

#[test]
fn overmap_opens_on_the_last_destination_and_plans_travel() {
    let s = UiState::new();
    assert_eq!(press(s, Action::OpenOvermap).0.overmap_cursor, Some(ChunkCoord { cx: 2, cy: -1 }));
    let dest = ChunkCoord { cx: 9, cy: 9 };
    let remembered = UiState { last_destination: Some(dest), ..s };
    let open = press(remembered, Action::OpenOvermap).0;
    assert_eq!(open.overmap_cursor, Some(dest));
    let moved = press(open, Action::Left).0;
    assert_eq!(moved.overmap_cursor, Some(ChunkCoord { cx: 8, cy: 9 }));
    assert_eq!(press(moved, Action::A).1, UiCommand::PlanTravel(ChunkCoord { cx: 8, cy: 9 }));
    let planned = ui_travel_planned(&moved, ChunkCoord { cx: 8, cy: 9 }, true);
    assert_eq!((planned.overmap_cursor, planned.last_destination), (None, Some(ChunkCoord { cx: 8, cy: 9 })));
    assert_eq!(ui_travel_planned(&moved, ChunkCoord { cx: 8, cy: 9 }, false), moved);
    assert_eq!(press(open, Action::OpenOvermap).0.overmap_cursor, None);
    // A running action keeps the overmap shut.
    let busy = UiFacts { action_running: true, ..facts() };
    assert_eq!(ui_step(&s, Action::OpenOvermap, &busy).0.overmap_cursor, None);
}

#[test]
fn glyph_palette_wraps_round_the_bytes() {
    let s = UiState { glyph_palette: Some(5), ..UiState::new() };
    assert_eq!(press(s, Action::Up).0.glyph_palette, Some(245));
    assert_eq!(press(s, Action::Left).0.glyph_palette, Some(4));
    let top = UiState { glyph_palette: Some(255), ..UiState::new() };
    assert_eq!(press(top, Action::Right).0.glyph_palette, Some(0));
    assert_eq!(press(top, Action::Down).0.glyph_palette, Some(15));
    assert_eq!(press(top, Action::B).0.glyph_palette, None);
}

#[test]
fn info_hub_cycles_tabs_and_crafts() {
    let s = UiState { info_menu: Some(InfoMenu { tab: InfoTab::Inventory, selected: 2 }), ..UiState::new() };
    assert_eq!(press(s, Action::R).0.info_menu, Some(InfoMenu { tab: InfoTab::Crafting, selected: 0 }));
    assert_eq!(press(s, Action::L).0.info_menu, Some(InfoMenu { tab: InfoTab::Skills, selected: 0 }));
    assert_eq!(press(s, Action::Down).0.info_menu.unwrap().selected, 2);
    assert_eq!(press(s, Action::A).1, UiCommand::InventoryUse(2));
    let craft = UiState { info_menu: Some(InfoMenu { tab: InfoTab::Crafting, selected: 2 }), ..UiState::new() };
    assert_eq!(press(craft, Action::A).1, UiCommand::TryAction { id: ActionId::CookFish, origin: ActionOrigin::Craft });
    assert_eq!(ui_action_result(&craft, ActionOrigin::Craft, ActionOutcome::Done).info_menu, None);
    let far = UiState { info_menu: Some(InfoMenu { tab: InfoTab::Crafting, selected: 9 }), ..UiState::new() };
    assert_eq!(press(far, Action::A).1, UiCommand::Nothing);
    let empty = UiFacts { info_rows: 0, ..facts() };
    assert_eq!(ui_step(&s, Action::Up, &empty).0, s);
}

#[test]
fn running_action_takes_only_cancel_view_and_pause() {
    let busy = UiFacts { action_running: true, ..facts() };
    let s = UiState::new();
    assert_eq!(ui_step(&s, Action::B, &busy).1, UiCommand::CancelAction);
    assert_eq!(ui_step(&s, Action::Select, &busy).1, UiCommand::ToggleActionView);
    assert_eq!(ui_step(&s, Action::Left, &busy), (s, UiCommand::Nothing));
}

#[test]
fn hold_y_opens_the_radial_and_a_tap_the_menu() {
    let s = UiState::new();
    let held = ui_y_frame(&s, true, 1000);
    assert_eq!(held.y_press_at, Some(1000));
    assert!(!ui_y_frame(&held, true, 1249).radial_open);
    let radial = ui_y_frame(&held, true, 1250);
    assert!(radial.radial_open);
    let (fired, c) = press(radial, Action::Right);
    assert_eq!(c, UiCommand::TryAction { id: ActionId::EatRation, origin: ActionOrigin::Radial });
    assert!(fired.radial_consumed && !fired.radial_open);
    let released = ui_y_frame(&fired, false, 1300);
    assert_eq!((released.command_menu, released.y_press_at), (None, None));
    let tapped = ui_y_frame(&held, false, 1100);
    assert_eq!(tapped.command_menu, Some(0));
}

#[test]
fn death_takes_over_and_a_new_run_clears_it() {
    let s = UiState { command_menu: Some(3), ..UiState::new() };
    let (alive, cancel) = ui_death_check(&s, false, true, &needs(40), true);
    assert_eq!((alive, cancel), (s, false));
    let mut n = needs(40);
    n.hunger = 0;
    let (dead, cancel) = ui_death_check(&s, false, true, &n, true);
    assert_eq!((dead.dead, dead.command_menu, cancel), (Some(DeathCause::Hunger), None, true));
    let (slain, _) = ui_death_check(&s, true, true, &n, false);
    assert_eq!(slain.dead, Some(DeathCause::Combat));
    assert_eq!(ui_death_check(&s, false, false, &n, false).0.dead, None);
    assert_eq!(press(dead, Action::Left), (dead, UiCommand::Nothing));
    assert_eq!(press(dead, Action::Start).1, UiCommand::Quit);
    let (fresh, c) = press(dead, Action::A);
    assert_eq!((fresh.dead, c), (None, UiCommand::NewRun));
    assert_eq!(ui_new_world(&dead).dead, None);
}

#[test]
fn frame_plan_halts_while_paused_and_steps_travel() {
    let s = UiState::new();
    let p = frame_plan(&s, true, false, Some(ViewMode::ProgressBar), 60, 900);
    assert_eq!((p.travel, p.advance_secs), (TravelTick::Step, Some(60)));
    let p = frame_plan(&s, true, true, Some(ViewMode::TimeSkip), 60, 900);
    assert_eq!((p.travel, p.advance_secs), (TravelTick::Stop, Some(900)));
    let paused = UiState { pause_menu: Some(0), ..s };
    let p = frame_plan(&paused, true, false, Some(ViewMode::TimeSkip), 60, 900);
    assert_eq!((p.travel, p.advance_secs), (TravelTick::Idle, None));
    let mapped = UiState { overmap_cursor: Some(ChunkCoord { cx: 0, cy: 0 }), ..s };
    assert_eq!(frame_plan(&mapped, true, false, None, 60, 0).travel, TravelTick::Idle);
    assert!(presses_stop_travel(&vec![Action::Y, Action::A]));
    assert!(!presses_stop_travel(&vec![Action::Y, Action::OpenOvermap]));
    let arrived = UiState { last_destination: Some(ChunkCoord { cx: 1, cy: 1 }), ..s };
    let (a, drop) = ui_travel_step(&arrived, TravelStep::Completed);
    assert_eq!((a.last_destination, drop), (None, true));
    assert_eq!(ui_travel_step(&arrived, TravelStep::Stepped), (arrived, false));
    assert_eq!(ui_travel_step(&arrived, TravelStep::BlockedAtCell), (arrived, true));
}
