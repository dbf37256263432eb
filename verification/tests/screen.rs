use holyland::cornwall::{chunk_for_cell, overmap_info_at, roads, Biome, OvermapInfo};
use holyland::screen::{
    chunk_glyph_color, grass_dot_visible, road_connector_glyph, shift_prev_cells, tree_variant_index,
    hud_cells, DeathCause, HudPalette, InfoTab, PanelLayout, HUD_GLYPH_HUNGER, HUD_GLYPH_THIRST,
};
use holyland::needs::Needs;
use holyland::world::ChunkCoord;

#[test]
fn info_tabs_cycle_both_ways() {
    assert_eq!(InfoTab::Inventory.next(), InfoTab::Crafting);
    assert_eq!(InfoTab::Skills.next(), InfoTab::Inventory);
    assert_eq!(InfoTab::Inventory.prev(), InfoTab::Skills);
    for t in [InfoTab::Inventory, InfoTab::Crafting, InfoTab::Skills] {
        assert_eq!(t.next().prev(), t);
        assert_eq!(t.prev().next(), t);
        assert_eq!(t.next().next().next(), t);
    }
    assert_eq!(InfoTab::Crafting.index(), 1);
    assert_eq!(InfoTab::Skills.label(), "Skills");
}

#[test]
fn panels_centre_on_the_view() {
    let p = PanelLayout::centered(20, 10);
    assert_eq!((p.x, p.y, p.w, p.h), (10, 10, 20, 10));
    assert_eq!(p.inner_x(), 12);
    assert_eq!(p.inner_right(), 28);
    assert_eq!(p.title_y(), 11);
    assert_eq!(p.first_row_y(), 13);
    assert_eq!(p.footer_y(), 18);
    // Wider than the view: the offset rounds toward zero.
    let wide = PanelLayout::centered(43, 33);
    assert_eq!((wide.x, wide.y), (-1, -1));
    let q = PanelLayout::centered_x_at(4, 25, 5);
    assert_eq!((q.x, q.y), (7, 4));
    assert_eq!(PanelLayout::anchored(1, 2, 3, 4), PanelLayout { x: 1, y: 2, w: 3, h: 4 });
}

#[test]
fn previous_cells_scroll_with_the_camera() {
    // A 3 x 2 view holding 0..6, plus one spare entry past the view.
    let mut prev: Vec<Option<u8>> = (0..6).map(Some).chain([Some(99)]).collect();
    shift_prev_cells(&mut prev, 3, 2, 1, 0);
    assert_eq!(prev, vec![Some(1), Some(2), None, Some(4), Some(5), None, Some(99)]);

    let mut prev: Vec<Option<u8>> = (0..6).map(Some).collect();
    shift_prev_cells(&mut prev, 3, 2, -1, 1);
    assert_eq!(prev, vec![None, Some(3), Some(4), None, None, None]);

    let mut prev: Vec<Option<u8>> = (0..6).map(Some).collect();
    shift_prev_cells(&mut prev, 3, 2, 0, 0);
    assert_eq!(prev, (0..6).map(Some).collect::<Vec<_>>());

    let mut prev: Vec<Option<u8>> = (0..6).map(Some).chain([Some(99)]).collect();
    shift_prev_cells(&mut prev, 3, 2, 3, 0);
    assert!(prev.iter().all(|c| c.is_none()));
}

#[test]
fn decoration_hashes_are_fixed() {
    assert_eq!(tree_variant_index(3, -7, 42), 50_923_671_574);
    assert_eq!(tree_variant_index(0, 0, 0), 0);
    assert_eq!(tree_variant_index(-100, 250, 0xDEAD_BEEF), 27_692_498_527);
    let row: Vec<bool> = (0..12).map(|x| grass_dot_visible(x, 0, 7)).collect();
    assert_eq!(
        row,
        vec![true, false, true, false, false, false, false, false, false, false, false, true]
    );
    let mut shown = 0;
    for x in 0..100 {
        for y in 0..100 {
            if grass_dot_visible(x, y, 7) {
                shown += 1;
            }
        }
    }
    assert_eq!(shown, 2497);
}

#[test]
fn chunk_glyphs_prefer_river_then_road() {
    let cc = ChunkCoord { cx: 3, cy: 4 };
    let river = OvermapInfo { biome: Biome::OakWoodland, has_river: true, has_road: true, named_site: None };
    assert_eq!(chunk_glyph_color(cc, &river), (Biome::RiverValley.overmap_glyph(), Biome::RiverValley.overmap_fg()));
    let plain = OvermapInfo { biome: Biome::ExmoorHeath, has_river: false, has_road: false, named_site: None };
    assert_eq!(chunk_glyph_color(cc, &plain), (0xF0, [140, 90, 150]));
    let road = OvermapInfo { biome: Biome::OakWoodland, has_river: false, has_road: true, named_site: None };
    assert_eq!(chunk_glyph_color(cc, &road), (road_connector_glyph(cc), [200, 175, 110]));
}

#[test]
fn road_connectors_follow_the_neighbours() {
    // Walk the chunks along the first road's vertices and check each road
    // chunk's glyph against its neighbours' roads.
    let all = roads();
    let road = &all[0];
    let mut checked = 0;
    for &p in road.points.iter().take(10) {
        let cc = chunk_for_cell(p);
        if !overmap_info_at(cc).has_road {
            continue;
        }
        let has = |dx: i32, dy: i32| overmap_info_at(ChunkCoord { cx: cc.cx + dx, cy: cc.cy + dy }).has_road;
        let (n, s, e, w) = (has(0, -1), has(0, 1), has(1, 0), has(-1, 0));
        let expected = match (n, s, e, w) {
            (true, true, true, true) => 0xC5,
            (true, true, true, false) => 0xC3,
            (true, true, false, true) => 0xB4,
            (true, false, true, true) => 0xC1,
            (false, true, true, true) => 0xC2,
            (true, true, false, false) => 0xB3,
            (false, false, true, true) => 0xC4,
            (true, false, true, false) => 0xC0,
            (true, false, false, true) => 0xD9,
            (false, true, true, false) => 0xDA,
            (false, true, false, true) => 0xBF,
            _ => 0xC4,
        };
        assert_eq!(road_connector_glyph(cc), expected);
        checked += 1;
    }
    assert!(checked > 0, "no road chunk along the first road");
}

fn meters(thirst: u8, hunger: u8, sleep: u8, warmth: u8) -> Needs {
    Needs { thirst, hunger, sleep, warmth }
}

#[test]
fn no_death_while_every_meter_is_above_zero() {
    assert_eq!(DeathCause::from_needs(&meters(1, 1, 1, 1)), None);
    assert_eq!(DeathCause::from_needs(&meters(100, 100, 100, 100)), None);
}

#[test]
fn thirst_outranks_hunger_outranks_cold_outranks_exhaustion() {
    assert_eq!(DeathCause::from_needs(&meters(0, 0, 0, 0)), Some(DeathCause::Thirst));
    assert_eq!(DeathCause::from_needs(&meters(5, 0, 0, 0)), Some(DeathCause::Hunger));
    assert_eq!(DeathCause::from_needs(&meters(5, 5, 0, 0)), Some(DeathCause::Cold));
    assert_eq!(DeathCause::from_needs(&meters(5, 5, 0, 5)), Some(DeathCause::Exhaustion));
}

#[test]
fn each_cause_has_its_epitaph() {
    assert_eq!(DeathCause::Thirst.epitaph(), "You died of thirst.");
    assert_eq!(DeathCause::Hunger.epitaph(), "You died of starvation.");
    assert_eq!(DeathCause::Cold.epitaph(), "You froze to death.");
    assert_eq!(DeathCause::Exhaustion.epitaph(), "You died of exhaustion.");
    assert_eq!(DeathCause::Combat.epitaph(), "Slain by a bandit.");
}

fn row_text(cells: &[Option<holyland::screen::HudCell>], y: usize, x0: usize, n: usize) -> String {
    (x0..x0 + n).map(|x| cells[y * 40 + x].map(|c| c.glyph as char).unwrap_or('.')).collect()
}

#[test]
fn status_lines_show_clock_date_meters_and_vitals() {
    let pal = HudPalette { fg: [1, 1, 1], bg: [0, 0, 0], critical: [9, 9, 9] };
    let needs = Needs { thirst: 80, hunger: 80, sleep: 80, warmth: 80 };
    let cells = hud_cells(pal, needs, 3, 6, 5, false, 80, (20, 20), (20, 20), (10, 10), false, false);
    assert_eq!(cells.len(), 1200);
    assert_eq!(row_text(&cells, 1, 1, 15), "Day 3 06:05 day");
    assert_eq!(row_text(&cells, 2, 26, 13), "21 Mar Spring");
    assert_eq!(cells[40 + 24].unwrap().glyph, HUD_GLYPH_THIRST);
    assert_eq!(row_text(&cells, 1, 25, 2), "80");
    assert_eq!(cells[40 + 28].unwrap().glyph, HUD_GLYPH_HUNGER);
    assert!(cells[40 + 27].is_none());
    assert_eq!(row_text(&cells, 2, 1, 16), "HP H20 T20 SP 10");
    assert_eq!(cells[80 + 1].unwrap().fg, [1, 1, 1]);
    assert_eq!(cells[80 + 12].unwrap().fg, [120, 200, 110]);
    assert!(cells[0].is_none());
}

#[test]
fn critical_needs_and_wounds_turn_the_status_red() {
    let pal = HudPalette { fg: [1, 1, 1], bg: [0, 0, 0], critical: [9, 9, 9] };
    let needs = Needs { thirst: 10, hunger: 80, sleep: 80, warmth: 80 };
    let cells = hud_cells(pal, needs, 1, 22, 0, true, 80, (2, 20), (20, 20), (0, 10), true, true);
    assert_eq!(row_text(&cells, 1, 1, 17), "Day 1 22:00 night");
    // Thirst 10 is critical: every meter glyph and digit turns critical.
    assert_eq!(cells[40 + 39 - 14].unwrap().fg, [9, 9, 9]);
    assert_eq!(cells[80 + 1].unwrap().fg, [9, 9, 9]);
    assert_eq!(row_text(&cells, 2, 1, 14), "HP H2 T20 SP 0");
    assert_eq!(row_text(&cells, 2, 17, 18), "[no weapon / lame]");
}
