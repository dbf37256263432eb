use holyland::buildings::{CityTier, TagCatalog, TagRole};
use holyland::editor::{
    handle_edit_click, handle_edit_key, handle_name_key, scroll_palette, swatch_tags, ClickOutcome, EditKey, EditState,
    KeyOutcome, NameOutcome,
};
use holyland::prefab_model::{Brushes, Layer, Model};

fn state(active: Layer) -> EditState {
    EditState {
        brushes: Brushes {
            active,
            terrain_brush: Some("stone_wall".to_string()),
            object_brush: Some("brazier".to_string()),
            roof_brush: Some((6, 2)),
        },
        sheet: 1,
        scroll_col: 0,
        scroll_row: 0,
        labeling: false,
        label_target: None,
        label_name: String::new(),
        reveal: false,
    }
}

fn swatches() -> Vec<String> {
    vec!["stone_wall".to_string(), "cobble_floor".to_string()]
}

fn click(right: bool, x: i32, y: i32, m: &mut Model, st: &mut EditState) -> ClickOutcome {
    handle_edit_click(right, x, y, m, st, &swatches(), 3, 64, 48, true)
}

#[test]
fn left_click_on_the_grid_paints_the_terrain_brush() {
    let mut m = Model::blank("p".into(), 3, 3);
    let mut st = state(Layer::Terrain);
    // Cell (1, 2): x in 552..592, y in 164..204.
    assert_eq!(click(false, 560, 170, &mut m, &mut st), ClickOutcome::GridPainted);
    assert_eq!(m.terrain[m.idx(1, 2)].as_deref(), Some("stone_wall"));
    assert_eq!(click(true, 560, 170, &mut m, &mut st), ClickOutcome::GridErased);
    assert_eq!(m.terrain[m.idx(1, 2)], None);
}

#[test]
fn swatch_click_picks_the_brush_and_leaves_label_mode() {
    let mut m = Model::blank("p".into(), 3, 3);
    let mut st = state(Layer::Roof);
    st.labeling = true;
    // Swatch 1 spans x 52..92.
    assert_eq!(click(false, 60, 20, &mut m, &mut st), ClickOutcome::SwatchPicked(1));
    assert_eq!(st.brushes.terrain_brush.as_deref(), Some("cobble_floor"));
    assert_eq!(st.brushes.active, Layer::Terrain);
    assert!(!st.labeling);
    // On the object layer the swatch sets the object brush.
    let mut st = state(Layer::Object);
    assert_eq!(click(false, 10, 10, &mut m, &mut st), ClickOutcome::SwatchPicked(0));
    assert_eq!(st.brushes.object_brush.as_deref(), Some("stone_wall"));
    assert_eq!(st.brushes.active, Layer::Object);
    // The gap between swatches hits nothing there, so the grid gets it:
    // off the grid, nothing changes.
    assert_eq!(click(false, 50, 20, &mut m, &mut st), ClickOutcome::GridPainted);
}

#[test]
fn erase_swatch_after_the_swatches_clears_the_brush() {
    let mut m = Model::blank("p".into(), 3, 3);
    let mut st = state(Layer::Terrain);
    // Two swatches, so the erase swatch is slot 2: x 96..136.
    assert_eq!(click(false, 100, 30, &mut m, &mut st), ClickOutcome::BrushErased);
    assert_eq!(st.brushes.terrain_brush, None);
    assert_eq!(st.brushes.object_brush.as_deref(), Some("brazier"));
}

#[test]
fn resize_buttons_grow_and_shrink_the_grid() {
    let mut m = Model::blank("p".into(), 3, 3);
    let mut st = state(Layer::Terrain);
    assert_eq!(click(false, 595, 10, &mut m, &mut st), ClickOutcome::Resized);
    assert_eq!((m.w, m.h), (4, 3));
    assert_eq!(click(false, 650, 10, &mut m, &mut st), ClickOutcome::Resized);
    assert_eq!((m.w, m.h), (4, 4));
    assert_eq!(click(false, 565, 10, &mut m, &mut st), ClickOutcome::Resized);
    assert_eq!(click(false, 625, 10, &mut m, &mut st), ClickOutcome::Resized);
    assert_eq!((m.w, m.h), (3, 3));
    let mut one = Model::blank("q".into(), 1, 1);
    assert_eq!(click(false, 565, 10, &mut one, &mut st), ClickOutcome::Resized);
    assert_eq!((one.w, one.h), (1, 1));
}

#[test]
fn sheet_buttons_cycle_and_reset_the_scroll() {
    let mut m = Model::blank("p".into(), 3, 3);
    let mut st = state(Layer::Terrain);
    st.scroll_col = 4;
    st.scroll_row = 2;
    assert_eq!(click(false, 10, 50, &mut m, &mut st), ClickOutcome::SheetChanged);
    assert_eq!(st.sheet, 0);
    assert_eq!((st.scroll_col, st.scroll_row), (0, 0));
    assert_eq!(click(false, 10, 50, &mut m, &mut st), ClickOutcome::SheetChanged);
    assert_eq!(st.sheet, 2);
    assert_eq!(click(false, 230, 50, &mut m, &mut st), ClickOutcome::SheetChanged);
    assert_eq!(st.sheet, 0);
}

#[test]
fn open_button_asks_to_browse() {
    let mut m = Model::blank("p".into(), 3, 3);
    let mut st = state(Layer::Terrain);
    assert_eq!(click(false, 700, 20, &mut m, &mut st), ClickOutcome::OpenBrowse);
}

#[test]
fn palette_click_picks_roof_brush_or_label_target() {
    let mut m = Model::blank("p".into(), 3, 3);
    let mut st = state(Layer::Roof);
    st.scroll_col = 2;
    // (x, y) = (8 + 3 * 16, 84 + 5 * 16) is palette cell (3 + 2, 5).
    assert_eq!(click(false, 56, 164, &mut m, &mut st), ClickOutcome::RoofBrushPicked);
    assert_eq!(st.brushes.roof_brush, Some((5, 5)));
    let off = handle_edit_click(false, 56, 164, &mut m, &mut st, &swatches(), 3, 64, 48, false);
    assert_eq!(off, ClickOutcome::RoofNeedsStructures);
    st.labeling = true;
    st.label_name = "old".to_string();
    assert_eq!(click(false, 56, 164, &mut m, &mut st), ClickOutcome::LabelTargetPicked);
    assert_eq!(st.label_target, Some((1, 5, 5)));
    assert_eq!(st.label_name, "");
    // Past the sheet's last column nothing happens.
    let mut st = state(Layer::Terrain);
    st.scroll_col = 60;
    assert_eq!(click(false, 100, 100, &mut m, &mut st), ClickOutcome::PaletteIgnored);
}

#[test]
fn role_button_labels_the_target_and_sets_the_brush() {
    let mut m = Model::blank("p".into(), 3, 3);
    let mut st = state(Layer::Roof);
    st.labeling = true;
    st.label_target = Some((1, 7, 9));
    st.label_name = "oak_door".to_string();
    // Role 3 (decoration) spans x 946..1016 at y 58..80.
    assert_eq!(
        click(false, 950, 60, &mut m, &mut st),
        ClickOutcome::Labeled { role: 3, sheet: 1, col: 7, row: 9 }
    );
    assert_eq!(st.brushes.object_brush.as_deref(), Some("oak_door"));
    assert_eq!(st.brushes.active, Layer::Object);
    assert!(!st.labeling);
    assert_eq!(st.label_target, None);
    // Role 1 (floor) is a terrain role.
    let mut st = state(Layer::Object);
    st.labeling = true;
    st.label_target = Some((0, 1, 1));
    st.label_name = "flags".to_string();
    assert_eq!(
        click(false, 800, 70, &mut m, &mut st),
        ClickOutcome::Labeled { role: 1, sheet: 0, col: 1, row: 1 }
    );
    assert_eq!(st.brushes.terrain_brush.as_deref(), Some("flags"));
    assert_eq!(st.brushes.active, Layer::Terrain);
}

#[test]
fn role_buttons_need_a_typed_name() {
    let mut m = Model::blank("p".into(), 3, 3);
    let mut st = state(Layer::Terrain);
    st.labeling = true;
    st.label_target = Some((1, 7, 9));
    // No name yet: the click falls through to the grid (off it here).
    assert_eq!(click(false, 950, 60, &mut m, &mut st), ClickOutcome::GridPainted);
    assert!(st.labeling);
    assert_eq!(st.label_target, Some((1, 7, 9)));
}

#[test]
fn keys_edit_the_model_and_state() {
    let mut m = Model::blank("p".into(), 3, 3);
    let mut st = state(Layer::Terrain);
    assert_eq!(handle_edit_key(EditKey::Tab, false, false, &mut m, &mut st, 3), KeyOutcome::LayerCycled);
    assert_eq!(st.brushes.active, Layer::Roof);
    assert_eq!(handle_edit_key(EditKey::Char('r'), false, false, &mut m, &mut st, 3), KeyOutcome::RevealToggled);
    assert!(st.reveal);
    assert_eq!(handle_edit_key(EditKey::Char('t'), false, false, &mut m, &mut st, 3), KeyOutcome::TierCycled);
    assert_eq!(m.tier, CityTier::Town);
    assert_eq!(handle_edit_key(EditKey::Char('g'), false, false, &mut m, &mut st, 3), KeyOutcome::TagToggled);
    assert_eq!(m.tag, "smithy");
    handle_edit_key(EditKey::Char('g'), false, false, &mut m, &mut st, 3);
    assert_eq!(m.tag, "house");
    assert_eq!(handle_edit_key(EditKey::RightBracket, false, false, &mut m, &mut st, 3), KeyOutcome::WeightChanged);
    assert_eq!(m.weight, 4);
    m.weight = 0;
    handle_edit_key(EditKey::LeftBracket, false, false, &mut m, &mut st, 3);
    assert_eq!(m.weight, 0, "the weight saturates at 0");
    assert_eq!(handle_edit_key(EditKey::Comma, false, false, &mut m, &mut st, 3), KeyOutcome::SheetChanged);
    assert_eq!(st.sheet, 0);
    handle_edit_key(EditKey::Comma, false, false, &mut m, &mut st, 3);
    assert_eq!(st.sheet, 2);
    handle_edit_key(EditKey::Period, false, false, &mut m, &mut st, 3);
    assert_eq!(st.sheet, 0);
    assert_eq!(handle_edit_key(EditKey::Right, true, false, &mut m, &mut st, 3), KeyOutcome::Resized);
    assert_eq!((m.w, m.h), (4, 3));
    assert_eq!(handle_edit_key(EditKey::Right, false, false, &mut m, &mut st, 3), KeyOutcome::Ignored);
    handle_edit_key(EditKey::Up, true, false, &mut m, &mut st, 3);
    assert_eq!((m.w, m.h), (4, 2));
    assert_eq!(handle_edit_key(EditKey::Char('s'), false, false, &mut m, &mut st, 3), KeyOutcome::Ignored);
    assert_eq!(handle_edit_key(EditKey::Char('s'), false, true, &mut m, &mut st, 3), KeyOutcome::SaveRequested);
    assert_eq!(handle_edit_key(EditKey::Char('o'), false, false, &mut m, &mut st, 3), KeyOutcome::OpenBrowse);
    assert_eq!(handle_edit_key(EditKey::Escape, false, false, &mut m, &mut st, 3), KeyOutcome::Quit);
}

#[test]
fn keys_type_a_label_while_one_is_targeted() {
    let mut m = Model::blank("p".into(), 3, 3);
    let mut st = state(Layer::Terrain);
    assert_eq!(handle_edit_key(EditKey::Char('l'), false, false, &mut m, &mut st, 3), KeyOutcome::LabelToggled);
    assert!(st.labeling);
    st.label_target = Some((0, 1, 2));
    for c in ['o', 'a', 'k', 'x'] {
        assert_eq!(handle_edit_key(EditKey::Char(c), false, false, &mut m, &mut st, 3), KeyOutcome::LabelEdited);
    }
    handle_edit_key(EditKey::Backspace, false, false, &mut m, &mut st, 3);
    assert_eq!(st.label_name, "oak");
    // Typing 't' names the label; it does not cycle the tier.
    handle_edit_key(EditKey::Char('t'), false, false, &mut m, &mut st, 3);
    assert_eq!(st.label_name, "oakt");
    assert_eq!(m.tier, CityTier::Urban);
    assert_eq!(handle_edit_key(EditKey::Escape, false, false, &mut m, &mut st, 3), KeyOutcome::LabelEdited);
    assert_eq!(st.label_target, None);
    assert!(st.labeling);
}

#[test]
fn wheel_scrolls_within_the_sheet() {
    let mut st = state(Layer::Terrain);
    scroll_palette(&mut st, 5, -3, 64, 48);
    assert_eq!((st.scroll_col, st.scroll_row), (5, 3));
    scroll_palette(&mut st, 100, -100, 64, 48);
    assert_eq!((st.scroll_col, st.scroll_row), (34, 10));
    scroll_palette(&mut st, -100, 100, 64, 48);
    assert_eq!((st.scroll_col, st.scroll_row), (0, 0));
    scroll_palette(&mut st, 3, -3, 16, 16);
    assert_eq!((st.scroll_col, st.scroll_row), (0, 0), "a sheet smaller than the view does not scroll");
}

#[test]
fn swatches_follow_the_active_layer() {
    let tags = TagCatalog {
        tags: vec![
            ("stone_wall".to_string(), TagRole::Terrain { passable: false }),
            ("brazier".to_string(), TagRole::Other),
            ("cobble_floor".to_string(), TagRole::Terrain { passable: true }),
            ("rug".to_string(), TagRole::Other),
        ],
    };
    assert_eq!(swatch_tags(&tags, Layer::Terrain), vec!["stone_wall", "cobble_floor"]);
    assert_eq!(swatch_tags(&tags, Layer::Roof), vec!["stone_wall", "cobble_floor"]);
    assert_eq!(swatch_tags(&tags, Layer::Object), vec!["brazier", "rug"]);
}

#[test]
fn name_screen_types_and_creates() {
    let mut name = String::new();
    assert!(matches!(handle_name_key(EditKey::Enter, &mut name), NameOutcome::Ignored));
    for c in ['b', 'a', 'r', 'n'] {
        assert!(matches!(handle_name_key(EditKey::Char(c), &mut name), NameOutcome::Edited));
    }
    handle_name_key(EditKey::Backspace, &mut name);
    assert_eq!(name, "bar");
    match handle_name_key(EditKey::Enter, &mut name) {
        NameOutcome::Created(m) => {
            assert_eq!(m.stem, "bar");
            assert_eq!((m.w, m.h), (6, 6));
        }
        _ => panic!("a named prefab is created"),
    }
    assert!(matches!(handle_name_key(EditKey::Escape, &mut name), NameOutcome::Cancel));
}
