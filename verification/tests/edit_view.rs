use holyland::buildings::CityTier;
use holyland::edit_view::edit_view;
use holyland::editor::EditState;
use holyland::prefab_model::{Brushes, Layer, Model};

fn state(active: Layer, reveal: bool) -> EditState {
    EditState {
        brushes: Brushes {
            active,
            terrain_brush: Some("stone_wall".to_string()),
            object_brush: None,
            roof_brush: Some((6, 12)),
        },
        sheet: 0,
        scroll_col: 0,
        scroll_row: 0,
        labeling: false,
        label_target: None,
        label_name: String::new(),
        reveal,
    }
}

fn hut() -> Model {
    let mut m = Model::blank("hut".to_string(), 3, 1);
    m.tier = CityTier::Village;
    m.tag = "house".to_string();
    m.terrain[0] = Some("stone_wall".to_string());
    m.terrain[1] = Some("floor".to_string());
    m.objects[1] = Some("brazier".to_string());
    m.roof[1] = Some((6, 12));
    m
}

#[test]
fn info_lines_name_the_layer_brush_and_prefab() {
    let m = hut();
    let swatches = vec!["floor".to_string(), "stone_wall".to_string()];
    let v = edit_view(&m, &state(Layer::Terrain, false), &swatches);
    assert_eq!(v.info, "[TERRAIN] stone_wall  reveal:off");
    assert_eq!(v.meta, "hut  3x1  Village/house");
    assert_eq!(v.swatch_selected, vec![false, true]);
    assert!(!v.erase_selected);
    let v = edit_view(&m, &state(Layer::Roof, true), &swatches);
    assert_eq!(v.info, "[ROOF] roof(6,12)  reveal:ON");
    let v = edit_view(&m, &state(Layer::Object, false), &swatches);
    assert_eq!(v.info, "[OBJECT] (erase)  reveal:off");
    assert_eq!(v.swatch_selected, vec![false, false]);
    assert!(v.erase_selected);
}

#[test]
fn preview_hides_roofed_cells_unless_revealed() {
    let m = hut();
    let v = edit_view(&m, &state(Layer::Terrain, false), &vec![]);
    assert_eq!(v.cells.len(), 3);
    assert_eq!(v.cells[0].base.as_deref(), Some("stone_wall"));
    assert_eq!(v.cells[0].roof, None);
    assert_eq!(v.cells[1].roof, Some((6, 12)));
    assert_eq!(v.cells[1].base, None);
    assert_eq!(v.cells[1].object, None);
    assert_eq!(v.cells[2].base, None);
    let shown = edit_view(&m, &state(Layer::Terrain, true), &vec![]);
    assert_eq!(shown.cells[1].roof, None);
    assert_eq!(shown.cells[1].base.as_deref(), Some("floor"));
    assert_eq!(shown.cells[1].object.as_deref(), Some("brazier"));
}
