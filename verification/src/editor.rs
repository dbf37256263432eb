//! What a mouse click on the prefab editor's edit screen does: the
//! toolbar's buttons and swatches, the sprite-sheet palette and the
//! editing grid, tested in that order. The click changes the editor state
//! and the model; what needs the outside world (writing the tag catalog,
//! listing the prefab files, the status line) is reported back as a
//! [`ClickOutcome`] for the caller to carry out.

use vstd::arithmetic::div_mod::{lemma_fundamental_div_mod, lemma_fundamental_div_mod_converse, lemma_mod_bound};
use vstd::prelude::*;

use crate::buildings::{CityTier, TagCatalog, TagRole};
use crate::prefab_model::{
    cycle_tier, erase, erased, paint_left, painted, rect_hit, resized, Brushes, Layer, Model, GRID_X, GRID_Y,
};
use crate::text::{owned, pop_char, push_char, str_eq};

verus! {

/// Left edge of the sprite-sheet palette, in pixels.
pub const PAL_X: i32 = 8;

/// Top edge of the palette, in pixels.
pub const PAL_Y: i32 = 84;

/// Side of one palette cell on screen, in pixels.
pub const PAL_ZOOM: i32 = 16;

/// Palette cells shown across.
pub const PAL_VW: i32 = 30;

/// Palette cells shown down.
pub const PAL_VH: i32 = 38;

/// Number of role buttons shown while labelling a sheet cell: wall and
/// floor (terrain roles), light, decoration and station.
pub const ROLE_COUNT: usize = 5;

/// The edit screen's state that clicks act on.
pub struct EditState {
    pub brushes: Brushes,
    /// Index of the sheet the palette shows.
    pub sheet: usize,
    pub scroll_col: i32,
    pub scroll_row: i32,
    /// Label mode: palette clicks pick a sheet cell to name.
    pub labeling: bool,
    /// Sheet cell being labelled: sheet index, column, row.
    pub label_target: Option<(usize, u8, u8)>,
    /// Name typed for the label.
    pub label_name: String,
    /// Show the roof layer see-through.
    pub reveal: bool,
}

/// What a click did, for the caller to carry out and report.
#[derive(Clone, Copy, Debug, PartialEq, Eq, Structural)]
pub enum ClickOutcome {
    /// Role button `role` with a name typed: the caller records the name
    /// for sheet cell `(sheet, col, row)` with that role.
    Labeled { role: usize, sheet: usize, col: u8, row: u8 },
    /// Swatch `i` became the brush.
    SwatchPicked(usize),
    /// The erase swatch cleared the brush.
    BrushErased,
    /// A resize button changed the grid size.
    Resized,
    /// A sheet button switched the palette's sheet.
    SheetChanged,
    /// The open button: the caller lists the prefab files and browses.
    OpenBrowse,
    /// A palette click picked the sheet cell to label.
    LabelTargetPicked,
    /// A palette click picked the roof brush.
    RoofBrushPicked,
    /// A palette click for the roof layer off the structures sheet.
    RoofNeedsStructures,
    /// A palette click that changes nothing.
    PaletteIgnored,
    /// A right click on the grid: the cell under it, if any, was cleared.
    GridErased,
    /// A left click on the grid: the cell under it, if any, was painted.
    GridPainted,
}

/// Which control a click lands on.
#[derive(Clone, Copy, Debug, PartialEq, Eq, Structural)]
pub enum ClickKind {
    Role,
    Swatch,
    Erase,
    Resize,
    SheetPrev,
    SheetNext,
    Open,
    Palette,
    Grid,
}

/// Point `(px, py)` lies in the `w` by `h` rectangle at `(x, y)`.
pub open spec fn in_rect(px: int, py: int, x: int, y: int, w: int, h: int) -> bool {
    px >= x && px < x + w && py >= y && py < y + h
}

/// Pixel `(x, y)` is on role button `j`.
pub open spec fn on_role_button(x: int, y: int, j: int) -> bool {
    in_rect(x, y, GRID_X + 200 + j * 78, GRID_Y - 26, 70, 22)
}

/// Pixel `(x, y)` is on swatch slot `j`.
pub open spec fn on_swatch(x: int, y: int, j: int) -> bool {
    in_rect(x, y, 8 + j * 44, 8, 40, 40)
}

/// Pixel `(x, y)` is on resize button `j`.
pub open spec fn on_resize_button(x: int, y: int, j: int) -> bool {
    in_rect(x, y, 560 + j * 30, 8, 26, 22)
}

/// Index of the slot, in a row of `width`-wide slots every `pitch`
/// pixels from `base`, that coordinate `p` falls in, if any.
pub open spec fn band_at(p: int, base: int, pitch: int, width: int) -> Option<int> {
    if p >= base && (p - base) % pitch < width {
        Some((p - base) / pitch)
    } else {
        None
    }
}

/// `Some(k)` when `o` is `Some(k)` with `k < n`.
pub open spec fn below(o: Option<int>, n: int) -> Option<int> {
    match o {
        Some(k) => if k < n {
            Some(k)
        } else {
            None
        },
        None => None,
    }
}

/// Role button under `(x, y)`: 70 by 22 buttons every 78 pixels from
/// `(GRID_X + 200, GRID_Y - 26)`.
pub open spec fn role_at(x: int, y: int) -> Option<int> {
    if GRID_Y - 26 <= y < GRID_Y - 4 {
        below(band_at(x, GRID_X + 200, 78, 70), ROLE_COUNT as int)
    } else {
        None
    }
}

/// Swatch slot under `(x, y)`: 40-pixel squares every 44 pixels from
/// `(8, 8)`; slot `n` past the `n` swatches is the erase swatch.
pub open spec fn swatch_at(x: int, y: int) -> Option<int> {
    if 8 <= y < 48 {
        band_at(x, 8, 44, 40)
    } else {
        None
    }
}

/// Resize button under `(x, y)`: four 26 by 22 buttons every 30 pixels
/// from `(560, 8)`, for narrower, wider, shorter and taller.
pub open spec fn resize_at(x: int, y: int) -> Option<int> {
    if 8 <= y < 30 {
        below(band_at(x, 560, 30, 26), 4)
    } else {
        None
    }
}

/// Width and height change of resize button `k`.
pub open spec fn resize_delta(k: int) -> (int, int) {
    if k == 0 {
        (-1, 0)
    } else if k == 1 {
        (1, 0)
    } else if k == 2 {
        (0, -1)
    } else {
        (0, 1)
    }
}

/// Labelling has a target and a name, so the role buttons answer.
pub open spec fn label_ready(st: EditState) -> bool {
    st.labeling && st.label_target is Some && st.label_name@.len() > 0
}

/// The control a click at `(x, y)` lands on, with `n` swatches shown:
/// role buttons (only when `ready`), swatches, the erase swatch, resize
/// buttons, the two sheet buttons, the open button, the palette, and
/// anything else is the grid.
pub open spec fn click_kind(x: int, y: int, ready: bool, n: int) -> ClickKind {
    if ready && role_at(x, y) is Some {
        ClickKind::Role
    } else if swatch_at(x, y) is Some && swatch_at(x, y)->0 < n {
        ClickKind::Swatch
    } else if swatch_at(x, y) == Some(n) {
        ClickKind::Erase
    } else if resize_at(x, y) is Some {
        ClickKind::Resize
    } else if in_rect(x, y, 8, 34, 22, 20) {
        ClickKind::SheetPrev
    } else if in_rect(x, y, 220, 34, 22, 20) {
        ClickKind::SheetNext
    } else if in_rect(x, y, 692, 8, 64, 22) {
        ClickKind::Open
    } else if in_rect(x, y, PAL_X as int, PAL_Y as int, (PAL_VW * PAL_ZOOM) as int, (PAL_VH * PAL_ZOOM) as int) {
        ClickKind::Palette
    } else {
        ClickKind::Grid
    }
}

/// Palette column and row under `(x, y)`, counted from the sheet's
/// corner through the scroll offset.
pub open spec fn palette_cell(st: EditState, x: int, y: int) -> (int, int) {
    (st.scroll_col + (x - PAL_X) / (PAL_ZOOM as int), st.scroll_row + (y - PAL_Y) / (PAL_ZOOM as int))
}

/// `b` is `a` with only its brushes changed.
pub open spec fn keeps_all_but_brushes(a: EditState, b: EditState) -> bool {
    &&& b.sheet == a.sheet
    &&& b.scroll_col == a.scroll_col
    &&& b.scroll_row == a.scroll_row
    &&& b.label_target == a.label_target
    &&& b.label_name == a.label_name
}

/// Coordinate `p` lies in slot `i` of a row of `width`-wide slots every
/// `pitch` pixels from `base` exactly when the slot index of `p` is `i`.
proof fn lemma_band(p: int, base: int, pitch: int, width: int, i: int)
    requires
        0 < width <= pitch,
        0 <= i,
    ensures
        (base + i * pitch <= p < base + i * pitch + width) <==> band_at(p, base, pitch, width) == Some(i),
{
    let d = p - base;
    if base + i * pitch <= p < base + i * pitch + width {
        lemma_fundamental_div_mod_converse(d, pitch, i, d - i * pitch);
    }
    if band_at(p, base, pitch, width) == Some(i) {
        lemma_fundamental_div_mod(d, pitch);
        lemma_mod_bound(d, pitch);
        assert(pitch * (d / pitch) == i * pitch) by (nonlinear_arith)
            requires
                d / pitch == i,
        ;
    }
}

/// Resolves a click at `(x, y)` on the edit screen (`right` for the right
/// button), with `swatches` the names of the swatch tags shown for the
/// active layer, and `sheet_count`, `sheet_cols`, `sheet_rows` and
/// `on_structures` describing the sheets: how many there are, the
/// current one's size in cells, and whether it is the structures sheet.
#[verifier::rlimit(40)]
#[verifier::loop_isolation(false)]
pub fn handle_edit_click(
    right: bool,
    x: i32,
    y: i32,
    m: &mut Model,
    st: &mut EditState,
    swatches: &Vec<String>,
    sheet_count: usize,
    sheet_cols: i32,
    sheet_rows: i32,
    on_structures: bool,
) -> (r: ClickOutcome)
    requires
        old(m).wf(),
        x >= i32::MIN + GRID_X,
        y >= i32::MIN + GRID_Y,
        swatches@.len() * 44 + 48 <= i32::MAX,
        old(st).sheet < sheet_count <= 0xffff,
        old(st).scroll_col <= i32::MAX - PAL_VW,
        old(st).scroll_row <= i32::MAX - PAL_VH,
    ensures
        final(m).wf(),
        ({
            let kind = click_kind(x as int, y as int, label_ready(*old(st)), swatches@.len() as int);
            let o = *old(st);
            let f = *final(st);
            match kind {
                ClickKind::Role => {
                    let k = role_at(x as int, y as int)->0;
                    let t = o.label_target->0;
                    &&& r == ClickOutcome::Labeled { role: k as usize, sheet: t.0, col: t.1, row: t.2 }
                    &&& *final(m) == *old(m)
                    &&& f.sheet == o.sheet && f.scroll_col == o.scroll_col && f.scroll_row == o.scroll_row
                    &&& f.label_name == o.label_name
                    &&& !f.labeling && f.label_target is None
                    &&& f.brushes.roof_brush == o.brushes.roof_brush
                    &&& if k < 2 {
                        &&& f.brushes.terrain_brush == Some(o.label_name)
                        &&& f.brushes.object_brush == o.brushes.object_brush
                        &&& f.brushes.active == Layer::Terrain
                    } else {
                        &&& f.brushes.object_brush == Some(o.label_name)
                        &&& f.brushes.terrain_brush == o.brushes.terrain_brush
                        &&& f.brushes.active == Layer::Object
                    }
                },
                ClickKind::Swatch => {
                    let k = swatch_at(x as int, y as int)->0;
                    &&& r == ClickOutcome::SwatchPicked(k as usize)
                    &&& *final(m) == *old(m)
                    &&& keeps_all_but_brushes(o, f)
                    &&& !f.labeling
                    &&& f.brushes.roof_brush == o.brushes.roof_brush
                    &&& if o.brushes.active == Layer::Object {
                        &&& f.brushes.object_brush == Some(swatches@[k])
                        &&& f.brushes.terrain_brush == o.brushes.terrain_brush
                        &&& f.brushes.active == Layer::Object
                    } else {
                        &&& f.brushes.terrain_brush == Some(swatches@[k])
                        &&& f.brushes.object_brush == o.brushes.object_brush
                        &&& f.brushes.active == Layer::Terrain
                    }
                },
                ClickKind::Erase => {
                    &&& r == ClickOutcome::BrushErased
                    &&& *final(m) == *old(m)
                    &&& keeps_all_but_brushes(o, f)
                    &&& f.labeling == o.labeling
                    &&& f.brushes.roof_brush == o.brushes.roof_brush
                    &&& if o.brushes.active == Layer::Object {
                        &&& f.brushes.object_brush is None
                        &&& f.brushes.terrain_brush == o.brushes.terrain_brush
                        &&& f.brushes.active == Layer::Object
                    } else {
                        &&& f.brushes.terrain_brush is None
                        &&& f.brushes.object_brush == o.brushes.object_brush
                        &&& f.brushes.active == Layer::Terrain
                    }
                },
                ClickKind::Resize => {
                    let (dw, dh) = resize_delta(resize_at(x as int, y as int)->0);
                    let nw = (if old(m).w + dw < 1 { 1 } else { old(m).w + dw }) as u16;
                    let nh = (if old(m).h + dh < 1 { 1 } else { old(m).h + dh }) as u16;
                    &&& r == ClickOutcome::Resized
                    &&& resized(*old(m), *final(m), nw, nh)
                    &&& f == o
                },
                ClickKind::SheetPrev => {
                    &&& r == ClickOutcome::SheetChanged
                    &&& *final(m) == *old(m)
                    &&& f.sheet == (o.sheet + sheet_count - 1) % (sheet_count as int)
                    &&& f.scroll_col == 0 && f.scroll_row == 0
                    &&& f.brushes == o.brushes && f.labeling == o.labeling
                    &&& f.label_target == o.label_target && f.label_name == o.label_name
                },
                ClickKind::SheetNext => {
                    &&& r == ClickOutcome::SheetChanged
                    &&& *final(m) == *old(m)
                    &&& f.sheet == (o.sheet + 1) % (sheet_count as int)
                    &&& f.scroll_col == 0 && f.scroll_row == 0
                    &&& f.brushes == o.brushes && f.labeling == o.labeling
                    &&& f.label_target == o.label_target && f.label_name == o.label_name
                },
                ClickKind::Open => {
                    &&& r == ClickOutcome::OpenBrowse
                    &&& *final(m) == *old(m)
                    &&& f == o
                },
                ClickKind::Palette => {
                    let (col, row) = palette_cell(o, x as int, y as int);
                    &&& *final(m) == *old(m)
                    &&& if col < 0 || col >= sheet_cols || row < 0 || row >= sheet_rows {
                        r == ClickOutcome::PaletteIgnored && f == o
                    } else if o.labeling {
                        &&& r == ClickOutcome::LabelTargetPicked
                        &&& f.label_target == Some((o.sheet, col as u8, row as u8))
                        &&& f.label_name@.len() == 0
                        &&& f.brushes == o.brushes && f.labeling == o.labeling && f.sheet == o.sheet
                        &&& f.scroll_col == o.scroll_col && f.scroll_row == o.scroll_row
                    } else if o.brushes.active == Layer::Roof && on_structures {
                        &&& r == ClickOutcome::RoofBrushPicked
                        &&& f.brushes.roof_brush == Some((col as u8, row as u8))
                        &&& f.brushes.active == o.brushes.active
                        &&& f.brushes.terrain_brush == o.brushes.terrain_brush
                        &&& f.brushes.object_brush == o.brushes.object_brush
                        &&& keeps_all_but_brushes(o, f) && f.labeling == o.labeling
                    } else if o.brushes.active == Layer::Roof {
                        r == ClickOutcome::RoofNeedsStructures && f == o
                    } else {
                        r == ClickOutcome::PaletteIgnored && f == o
                    }
                },
                ClickKind::Grid => {
                    &&& f == o
                    &&& if right {
                        r == ClickOutcome::GridErased && erased(*old(m), *final(m), x, y, o.brushes.active)
                    } else {
                        r == ClickOutcome::GridPainted && painted(*old(m), *final(m), x, y, o.brushes)
                    }
                },
            }
        }),
{
    let ghost ready = label_ready(*st);
    let ghost n = swatches@.len() as int;
    // Role buttons, while a labelled cell and a name are ready.
    if st.labeling && st.label_name.unicode_len() > 0 {
        match st.label_target {
            Some((sheet, col, row)) => {
                let mut i: usize = 0;
                while i < ROLE_COUNT
                    invariant
                        i <= ROLE_COUNT,
                        *m == *old(m),
                        *st == *old(st),
                        forall|j: int| 0 <= j < i ==> !#[trigger] on_role_button(x as int, y as int, j),
                    decreases ROLE_COUNT - i,
                {
                    let bx: i32 = GRID_X + 200 + i as i32 * 78;
                    if rect_hit(x, y, bx, GRID_Y - 26, 70, 22) {
                        proof {
                            lemma_band(x as int, GRID_X + 200, 78, 70, i as int);
                        }
                        let name = st.label_name.clone();
                        if i < 2 {
                            st.brushes.terrain_brush = Some(name);
                            st.brushes.active = Layer::Terrain;
                        } else {
                            st.brushes.object_brush = Some(name);
                            st.brushes.active = Layer::Object;
                        }
                        st.labeling = false;
                        st.label_target = None;
                        return ClickOutcome::Labeled { role: i, sheet, col, row };
                    }
                    i += 1;
                }
                proof {
                    if role_at(x as int, y as int) is Some {
                        let k = role_at(x as int, y as int)->0;
                        lemma_band(x as int, GRID_X + 200, 78, 70, k);
                        assert(!on_role_button(x as int, y as int, k));
                    }
                }
            },
            None => {},
        }
    }
    assert(!ready || role_at(x as int, y as int) is None);
    // Swatches of the active layer, then the erase swatch after them.
    let mut i: usize = 0;
    while i < swatches.len()
        invariant
            i <= swatches@.len(),
            *m == *old(m),
            *st == *old(st),
            n == swatches@.len(),
            n * 44 + 48 <= i32::MAX,
            forall|j: int| 0 <= j < i ==> !#[trigger] on_swatch(x as int, y as int, j),
        decreases swatches@.len() - i,
    {
        let sx: i32 = 8 + i as i32 * 44;
        if rect_hit(x, y, sx, 8, 40, 40) {
            proof {
                lemma_band(x as int, 8, 44, 40, i as int);
            }
            let name = swatches[i].clone();
            if st.brushes.active == Layer::Object {
                st.brushes.object_brush = Some(name);
            } else {
                st.brushes.terrain_brush = Some(name);
                st.brushes.active = Layer::Terrain;
            }
            st.labeling = false;
            return ClickOutcome::SwatchPicked(i);
        }
        i += 1;
    }
    proof {
        if swatch_at(x as int, y as int) is Some && swatch_at(x as int, y as int)->0 < n {
            let k = swatch_at(x as int, y as int)->0;
            lemma_band(x as int, 8, 44, 40, k);
            assert(!on_swatch(x as int, y as int, k));
        }
    }
    let ex: i32 = 8 + swatches.len() as i32 * 44;
    if rect_hit(x, y, ex, 8, 40, 40) {
        proof {
            lemma_band(x as int, 8, 44, 40, n);
        }
        if st.brushes.active == Layer::Object {
            st.brushes.object_brush = None;
        } else {
            st.brushes.terrain_brush = None;
            st.brushes.active = Layer::Terrain;
        }
        return ClickOutcome::BrushErased;
    }
    proof {
        if swatch_at(x as int, y as int) == Some(n) {
            lemma_band(x as int, 8, 44, 40, n);
        }
    }
    // Resize buttons: narrower, wider, shorter, taller.
    let mut k: usize = 0;
    while k < 4
        invariant
            k <= 4,
            *m == *old(m),
            *st == *old(st),
            forall|j: int| 0 <= j < k ==> !#[trigger] on_resize_button(x as int, y as int, j),
        decreases 4 - k,
    {
        let bx: i32 = 560 + k as i32 * 30;
        if rect_hit(x, y, bx, 8, 26, 22) {
            proof {
                lemma_band(x as int, 560, 30, 26, k as int);
            }
            let (dw, dh): (i32, i32) = if k == 0 {
                (-1, 0)
            } else if k == 1 {
                (1, 0)
            } else if k == 2 {
                (0, -1)
            } else {
                (0, 1)
            };
            let nw: i32 = if m.w as i32 + dw < 1 {
                1
            } else {
                m.w as i32 + dw
            };
            let nh: i32 = if m.h as i32 + dh < 1 {
                1
            } else {
                m.h as i32 + dh
            };
            m.resize(nw as u16, nh as u16);
            return ClickOutcome::Resized;
        }
        k += 1;
    }
    proof {
        if resize_at(x as int, y as int) is Some {
            let j = resize_at(x as int, y as int)->0;
            lemma_band(x as int, 560, 30, 26, j);
            assert(!on_resize_button(x as int, y as int, j));
        }
    }
    // Sheet switches and the open button.
    if rect_hit(x, y, 8, 34, 22, 20) {
        st.sheet = (st.sheet + sheet_count - 1) % sheet_count;
        st.scroll_col = 0;
        st.scroll_row = 0;
        return ClickOutcome::SheetChanged;
    }
    if rect_hit(x, y, 220, 34, 22, 20) {
        st.sheet = (st.sheet + 1) % sheet_count;
        st.scroll_col = 0;
        st.scroll_row = 0;
        return ClickOutcome::SheetChanged;
    }
    if rect_hit(x, y, 692, 8, 64, 22) {
        return ClickOutcome::OpenBrowse;
    }
    // Palette cell pick.
    if rect_hit(x, y, PAL_X, PAL_Y, PAL_VW * PAL_ZOOM, PAL_VH * PAL_ZOOM) {
        let col: i32 = st.scroll_col + (x - PAL_X) / PAL_ZOOM;
        let row: i32 = st.scroll_row + (y - PAL_Y) / PAL_ZOOM;
        if col < 0 || col >= sheet_cols || row < 0 || row >= sheet_rows {
            return ClickOutcome::PaletteIgnored;
        }
        if st.labeling {
            st.label_target = Some((st.sheet, col as u8, row as u8));
            st.label_name = String::new();
            return ClickOutcome::LabelTargetPicked;
        } else if st.brushes.active == Layer::Roof && on_structures {
            st.brushes.roof_brush = Some((col as u8, row as u8));
            return ClickOutcome::RoofBrushPicked;
        } else if st.brushes.active == Layer::Roof {
            return ClickOutcome::RoofNeedsStructures;
        }
        return ClickOutcome::PaletteIgnored;
    }
    // The grid: paint, or erase with the right button.
    if right {
        erase(x, y, st.brushes.active, m);
        ClickOutcome::GridErased
    } else {
        paint_left(x, y, &st.brushes, m);
        ClickOutcome::GridPainted
    }
}

/// A key the edit screen answers, as the window reports it: a letter,
/// digit or underscore comes as `Char` (letters lower-cased).
#[derive(Clone, Copy, Debug, PartialEq, Eq, Structural)]
pub enum EditKey {
    Escape,
    Enter,
    Backspace,
    Tab,
    Comma,
    Period,
    LeftBracket,
    RightBracket,
    Left,
    Right,
    Up,
    Down,
    Char(char),
    Other,
}

/// What a key did on the edit screen, for the caller to carry out and
/// report.
#[derive(Clone, Copy, Debug, PartialEq, Eq, Structural)]
pub enum KeyOutcome {
    /// Leave the editor.
    Quit,
    /// Label mode switched on or off.
    LabelToggled,
    /// The caller lists the prefab files and browses.
    OpenBrowse,
    /// The active layer moved on.
    LayerCycled,
    /// The roof's see-through view switched.
    RevealToggled,
    /// The caller writes the model's catalog file.
    SaveRequested,
    /// The model's tier moved on.
    TierCycled,
    /// The model's tag switched between "house" and "smithy".
    TagToggled,
    /// The palette's sheet changed.
    SheetChanged,
    /// The model's weight changed.
    WeightChanged,
    /// The grid was resized.
    Resized,
    /// The label name being typed changed, or its target was dropped.
    LabelEdited,
    /// Nothing happened.
    Ignored,
}

/// Answers a key on the edit screen. While a sheet cell is being
/// labelled, keys edit the label: Escape drops the target, Backspace
/// deletes, a character is typed. Otherwise: Escape quits, `l` toggles
/// label mode, `o` browses, Tab cycles the layer, `r` toggles the roof
/// view, Ctrl-`s` saves, `t` cycles the tier, `g` toggles the tag, `,`
/// and `.` switch sheets, `[` and `]` change the weight, and the arrows
/// with Shift resize the grid.
pub fn handle_edit_key(
    key: EditKey,
    shift: bool,
    ctrl: bool,
    m: &mut Model,
    st: &mut EditState,
    sheet_count: usize,
) -> (r: KeyOutcome)
    requires
        old(m).wf(),
        old(st).sheet < sheet_count <= 0xffff,
        key == EditKey::RightBracket && !(old(st).labeling && old(st).label_target is Some) ==> old(m).weight
            < u32::MAX,
        old(m).w < 0xffff,
        old(m).h < 0xffff,
    ensures
        final(m).wf(),
        ({
            let o = *old(st);
            let f = *final(st);
            let typing = o.labeling && o.label_target is Some;
            if typing {
                &&& *final(m) == *old(m)
                &&& f.brushes == o.brushes && f.sheet == o.sheet && f.labeling == o.labeling
                &&& f.scroll_col == o.scroll_col && f.scroll_row == o.scroll_row && f.reveal == o.reveal
                &&& match key {
                    EditKey::Escape => r == KeyOutcome::LabelEdited && f.label_target is None && f.label_name
                        == o.label_name,
                    EditKey::Backspace => r == KeyOutcome::LabelEdited && f.label_target == o.label_target
                        && f.label_name@ == (if o.label_name@.len() > 0 {
                        o.label_name@.drop_last()
                    } else {
                        o.label_name@
                    }),
                    EditKey::Char(c) => r == KeyOutcome::LabelEdited && f.label_target == o.label_target
                        && f.label_name@ == o.label_name@.push(c),
                    _ => r == KeyOutcome::Ignored && f == o,
                }
            } else {
                match key {
                    EditKey::Escape => r == KeyOutcome::Quit && f == o && *final(m) == *old(m),
                    EditKey::Char('l') => {
                        &&& r == KeyOutcome::LabelToggled
                        &&& f.labeling == !o.labeling && f.label_target is None
                        &&& f.brushes == o.brushes && f.sheet == o.sheet && f.label_name == o.label_name
                        &&& f.scroll_col == o.scroll_col && f.scroll_row == o.scroll_row && f.reveal == o.reveal
                        &&& *final(m) == *old(m)
                    },
                    EditKey::Char('o') => r == KeyOutcome::OpenBrowse && f == o && *final(m) == *old(m),
                    EditKey::Tab => {
                        &&& r == KeyOutcome::LayerCycled && *final(m) == *old(m)
                        &&& f == EditState { brushes: Brushes { active: next_layer(o.brushes.active), ..o.brushes }, ..o }
                    },
                    EditKey::Char('r') => r == KeyOutcome::RevealToggled && *final(m) == *old(m) && f == EditState {
                        reveal: !o.reveal,
                        ..o
                    },
                    EditKey::Char('s') => if ctrl {
                        r == KeyOutcome::SaveRequested && f == o && *final(m) == *old(m)
                    } else {
                        r == KeyOutcome::Ignored && f == o && *final(m) == *old(m)
                    },
                    EditKey::Char('t') => r == KeyOutcome::TierCycled && f == o && *final(m) == Model {
                        tier: cycled(old(m).tier),
                        ..*old(m)
                    },
                    EditKey::Char('g') => {
                        &&& r == KeyOutcome::TagToggled && f == o
                        &&& final(m).tag@ == (if old(m).tag@ == "house"@ {
                            "smithy"@
                        } else {
                            "house"@
                        })
                        &&& *final(m) == Model { tag: final(m).tag, ..*old(m) }
                    },
                    EditKey::Comma => r == KeyOutcome::SheetChanged && *final(m) == *old(m) && f == EditState {
                        sheet: ((o.sheet + sheet_count - 1) % (sheet_count as int)) as usize,
                        ..o
                    },
                    EditKey::Period => r == KeyOutcome::SheetChanged && *final(m) == *old(m) && f == EditState {
                        sheet: ((o.sheet + 1) % (sheet_count as int)) as usize,
                        ..o
                    },
                    EditKey::LeftBracket => r == KeyOutcome::WeightChanged && f == o && *final(m) == Model {
                        weight: if old(m).weight > 0 {
                            (old(m).weight - 1) as u32
                        } else {
                            0
                        },
                        ..*old(m)
                    },
                    EditKey::RightBracket => r == KeyOutcome::WeightChanged && f == o && *final(m) == Model {
                        weight: (old(m).weight + 1) as u32,
                        ..*old(m)
                    },
                    EditKey::Right => if shift {
                        r == KeyOutcome::Resized && f == o && resized(*old(m), *final(m), (old(m).w + 1) as u16, old(m).h)
                    } else {
                        r == KeyOutcome::Ignored && f == o && *final(m) == *old(m)
                    },
                    EditKey::Left => if shift {
                        r == KeyOutcome::Resized && f == o && resized(
                            *old(m),
                            *final(m),
                            (if old(m).w > 0 {
                                old(m).w - 1
                            } else {
                                0
                            }) as u16,
                            old(m).h,
                        )
                    } else {
                        r == KeyOutcome::Ignored && f == o && *final(m) == *old(m)
                    },
                    EditKey::Down => if shift {
                        r == KeyOutcome::Resized && f == o && resized(*old(m), *final(m), old(m).w, (old(m).h + 1) as u16)
                    } else {
                        r == KeyOutcome::Ignored && f == o && *final(m) == *old(m)
                    },
                    EditKey::Up => if shift {
                        r == KeyOutcome::Resized && f == o && resized(
                            *old(m),
                            *final(m),
                            old(m).w,
                            (if old(m).h > 0 {
                                old(m).h - 1
                            } else {
                                0
                            }) as u16,
                        )
                    } else {
                        r == KeyOutcome::Ignored && f == o && *final(m) == *old(m)
                    },
                    _ => r == KeyOutcome::Ignored && f == o && *final(m) == *old(m),
                }
            }
        }),
{
    if st.labeling && st.label_target.is_some() {
        return match key {
            EditKey::Escape => {
                st.label_target = None;
                KeyOutcome::LabelEdited
            },
            EditKey::Backspace => {
                pop_char(&mut st.label_name);
                KeyOutcome::LabelEdited
            },
            EditKey::Char(c) => {
                push_char(&mut st.label_name, c);
                KeyOutcome::LabelEdited
            },
            _ => KeyOutcome::Ignored,
        };
    }
    match key {
        EditKey::Escape => KeyOutcome::Quit,
        EditKey::Char('l') => {
            st.labeling = !st.labeling;
            st.label_target = None;
            KeyOutcome::LabelToggled
        },
        EditKey::Char('o') => KeyOutcome::OpenBrowse,
        EditKey::Tab => {
            st.brushes.active = st.brushes.active.next();
            KeyOutcome::LayerCycled
        },
        EditKey::Char('r') => {
            st.reveal = !st.reveal;
            KeyOutcome::RevealToggled
        },
        EditKey::Char('s') => if ctrl {
            KeyOutcome::SaveRequested
        } else {
            KeyOutcome::Ignored
        },
        EditKey::Char('t') => {
            m.tier = cycle_tier(m.tier);
            KeyOutcome::TierCycled
        },
        EditKey::Char('g') => {
            m.tag = if str_eq(m.tag.as_str(), "house") {
                owned("smithy")
            } else {
                owned("house")
            };
            KeyOutcome::TagToggled
        },
        EditKey::Comma => {
            st.sheet = (st.sheet + sheet_count - 1) % sheet_count;
            KeyOutcome::SheetChanged
        },
        EditKey::Period => {
            st.sheet = (st.sheet + 1) % sheet_count;
            KeyOutcome::SheetChanged
        },
        EditKey::LeftBracket => {
            m.weight = if m.weight > 0 {
                m.weight - 1
            } else {
                0
            };
            KeyOutcome::WeightChanged
        },
        EditKey::RightBracket => {
            m.weight = m.weight + 1;
            KeyOutcome::WeightChanged
        },
        EditKey::Right => if shift {
            m.resize(m.w + 1, m.h);
            KeyOutcome::Resized
        } else {
            KeyOutcome::Ignored
        },
        EditKey::Left => if shift {
            let w = if m.w > 0 {
                m.w - 1
            } else {
                0
            };
            m.resize(w, m.h);
            KeyOutcome::Resized
        } else {
            KeyOutcome::Ignored
        },
        EditKey::Down => if shift {
            m.resize(m.w, m.h + 1);
            KeyOutcome::Resized
        } else {
            KeyOutcome::Ignored
        },
        EditKey::Up => if shift {
            let h = if m.h > 0 {
                m.h - 1
            } else {
                0
            };
            m.resize(m.w, h);
            KeyOutcome::Resized
        } else {
            KeyOutcome::Ignored
        },
        _ => KeyOutcome::Ignored,
    }
}

/// The layer after `l`: terrain, roof, object, and round again.
pub open spec fn next_layer(l: Layer) -> Layer {
    match l {
        Layer::Terrain => Layer::Roof,
        Layer::Roof => Layer::Object,
        Layer::Object => Layer::Terrain,
    }
}

/// The tier after `t` (see `cycle_tier`).
pub open spec fn cycled(t: CityTier) -> CityTier {
    match t {
        CityTier::Urban => CityTier::Town,
        CityTier::Town => CityTier::Village,
        CityTier::Village => CityTier::Hamlet,
        CityTier::Hamlet => CityTier::Urban,
    }
}

/// `v` clamped to `[lo, hi]`.
pub open spec fn clamp_int(v: int, lo: int, hi: int) -> int {
    if v < lo {
        lo
    } else if v > hi {
        hi
    } else {
        v
    }
}

/// How far a view of `view` cells can scroll over `size` cells.
pub open spec fn view_room(size: int, view: int) -> int {
    if size - view > 0 {
        size - view
    } else {
        0
    }
}

/// Scrolls the palette by a mouse wheel's `(wx, wy)`: up shows earlier
/// rows, right later columns, kept within the sheet of `cols` by `rows`
/// cells less the palette's view.
pub fn scroll_palette(st: &mut EditState, wx: i32, wy: i32, cols: u32, rows: u32)
    requires
        -0x1000_0000 <= wx <= 0x1000_0000,
        -0x1000_0000 <= wy <= 0x1000_0000,
        -0x1000_0000 <= old(st).scroll_col <= 0x1000_0000,
        -0x1000_0000 <= old(st).scroll_row <= 0x1000_0000,
        cols <= 0x1000_0000,
        rows <= 0x1000_0000,
    ensures
        final(st).scroll_row == clamp_int(old(st).scroll_row - wy, 0, view_room(rows as int, PAL_VH as int)),
        final(st).scroll_col == clamp_int(old(st).scroll_col + wx, 0, view_room(cols as int, PAL_VW as int)),
        *final(st) == (EditState { scroll_row: final(st).scroll_row, scroll_col: final(st).scroll_col, ..*old(st) }),
{
    let max_row: i32 = if rows as i32 - PAL_VH > 0 {
        rows as i32 - PAL_VH
    } else {
        0
    };
    let max_col: i32 = if cols as i32 - PAL_VW > 0 {
        cols as i32 - PAL_VW
    } else {
        0
    };
    let row = st.scroll_row - wy;
    st.scroll_row = if row < 0 {
        0
    } else if row > max_row {
        max_row
    } else {
        row
    };
    let col = st.scroll_col + wx;
    st.scroll_col = if col < 0 {
        0
    } else if col > max_col {
        max_col
    } else {
        col
    };
}

/// Names of the swatch tags for the active layer, in catalog order:
/// terrain tags for the terrain and roof layers, the others for the
/// object layer.
pub open spec fn swatch_names(tags: Seq<(String, TagRole)>, active: Layer) -> Seq<Seq<char>>
    decreases tags.len(),
{
    if tags.len() == 0 {
        Seq::empty()
    } else {
        let rest = swatch_names(tags.drop_last(), active);
        let terrain = tags.last().1 is Terrain;
        if terrain == (active != Layer::Object) {
            rest.push(tags.last().0@)
        } else {
            rest
        }
    }
}

/// The swatch tags the active layer offers (see `swatch_names`).
pub fn swatch_tags(tags: &TagCatalog, active: Layer) -> (r: Vec<String>)
    ensures
        r@.map_values(|s: String| s@) == swatch_names(tags.tags@, active),
{
    let mut out: Vec<String> = Vec::new();
    let mut i: usize = 0;
    while i < tags.tags.len()
        invariant
            i <= tags.tags@.len(),
            out@.map_values(|s: String| s@) == swatch_names(tags.tags@.take(i as int), active),
        decreases tags.tags@.len() - i,
    {
        let terrain = match tags.tags[i].1 {
            TagRole::Terrain { .. } => true,
            TagRole::Other => false,
        };
        let ghost before = out@;
        if terrain == (active != Layer::Object) {
            out.push(tags.tags[i].0.clone());
        }
        proof {
            assert(tags.tags@.take(i + 1).drop_last() =~= tags.tags@.take(i as int));
            assert(out@.map_values(|s: String| s@) =~= swatch_names(tags.tags@.take(i + 1), active));
        }
        i += 1;
    }
    assert(tags.tags@.take(tags.tags@.len() as int) =~= tags.tags@);
    out
}

/// What a key did on the new-prefab name screen.
pub enum NameOutcome {
    /// Back to the file list.
    Cancel,
    /// A blank 6 by 6 prefab under the typed name, to edit.
    Created(Model),
    /// The name being typed changed.
    Edited,
    /// Nothing happened.
    Ignored,
}

/// Answers a key on the new-prefab name screen: Escape cancels, Enter
/// creates a blank 6 by 6 prefab once a name is typed, Backspace deletes
/// and a character is typed.
pub fn handle_name_key(key: EditKey, namebuf: &mut String) -> (r: NameOutcome)
    ensures
        match key {
            EditKey::Escape => r is Cancel && final(namebuf)@ == old(namebuf)@,
            EditKey::Enter => if old(namebuf)@.len() > 0 {
                &&& final(namebuf)@ == old(namebuf)@
                &&& r matches NameOutcome::Created(m) && m.wf() && m.stem@ == old(namebuf)@ && m.variant@ == old(
                    namebuf,
                )@ && m.w == 6 && m.h == 6 && m.tag@ == "house"@ && m.tier == CityTier::Urban && m.weight == 3
                    && forall|i: int| 0 <= i < 36 ==> (#[trigger] m.terrain@[i]) is None && m.roof@[i] is None
                        && m.objects@[i] is None
            } else {
                r is Ignored && final(namebuf)@ == old(namebuf)@
            },
            EditKey::Backspace => r is Edited && final(namebuf)@ == (if old(namebuf)@.len() > 0 {
                old(namebuf)@.drop_last()
            } else {
                old(namebuf)@
            }),
            EditKey::Char(c) => r is Edited && final(namebuf)@ == old(namebuf)@.push(c),
            _ => r is Ignored && final(namebuf)@ == old(namebuf)@,
        },
{
    match key {
        EditKey::Escape => NameOutcome::Cancel,
        EditKey::Enter => {
            if namebuf.unicode_len() > 0 {
                let stem = namebuf.clone();
                NameOutcome::Created(Model::blank(stem, 6, 6))
            } else {
                NameOutcome::Ignored
            }
        },
        EditKey::Backspace => {
            pop_char(namebuf);
            NameOutcome::Edited
        },
        EditKey::Char(c) => {
            push_char(namebuf, c);
            NameOutcome::Edited
        },
        _ => NameOutcome::Ignored,
    }
}

} // verus!
