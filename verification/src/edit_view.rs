//! What the prefab editor's edit screen shows, decided apart from drawing
//! it: the info lines about the active layer, its brush and the prefab,
//! which swatch is highlighted, and for each grid cell whether its roof
//! hides it or which terrain and object tags it shows.

use vstd::prelude::*;

use crate::editor::EditState;
use crate::prefab_model::{tier_name_spec, Layer, Model};
use crate::text::{decimal, owned, push, push_char, str_eq, u32_to_decimal};

verus! {

/// What one grid cell of the preview shows: its roof facade cell, or the
/// tag names of its terrain and the object on top of it.
pub struct PreviewCell {
    pub roof: Option<(u8, u8)>,
    pub base: Option<String>,
    pub object: Option<String>,
}

/// The edit screen's decided content.
pub struct EditView {
    /// `[LAYER] brush  reveal:ON|off`.
    pub info: String,
    /// `stem  WxH  Tier/tag`.
    pub meta: String,
    /// For each swatch, whether it is the active layer's brush.
    pub swatch_selected: Vec<bool>,
    /// The erase box is highlighted: the active layer's brush is empty.
    pub erase_selected: bool,
    /// The preview, row by row.
    pub cells: Vec<PreviewCell>,
}

/// The characters of an optional name.
pub open spec fn opt_chars(o: Option<String>) -> Option<Seq<char>> {
    match o {
        Some(s) => Some(s@),
        None => None,
    }
}

/// The brush the swatch row shows: the object brush on the object
/// layer, the terrain brush otherwise.
pub open spec fn swatch_brush(st: EditState) -> Option<Seq<char>> {
    match st.brushes.active {
        Layer::Object => opt_chars(st.brushes.object_brush),
        _ => opt_chars(st.brushes.terrain_brush),
    }
}

/// How the info line names the active layer's brush.
pub open spec fn brush_text(st: EditState) -> Seq<char> {
    match st.brushes.active {
        Layer::Roof => match st.brushes.roof_brush {
            Some((c, r)) => "roof("@ + decimal(c as nat) + ","@ + decimal(r as nat) + ")"@,
            None => "roof(-)"@,
        },
        Layer::Object => match st.brushes.object_brush {
            Some(b) => b@,
            None => "(erase)"@,
        },
        Layer::Terrain => match st.brushes.terrain_brush {
            Some(b) => b@,
            None => "(erase)"@,
        },
    }
}

/// Label of a layer in the info line.
pub open spec fn layer_text(l: Layer) -> Seq<char> {
    match l {
        Layer::Terrain => "TERRAIN"@,
        Layer::Roof => "ROOF"@,
        Layer::Object => "OBJECT"@,
    }
}

/// The first info line.
pub open spec fn info_line(st: EditState) -> Seq<char> {
    "["@ + layer_text(st.brushes.active) + "] "@ + brush_text(st) + "  reveal:"@ + if st.reveal {
        "ON"@
    } else {
        "off"@
    }
}

/// The second info line.
pub open spec fn meta_line(m: Model) -> Seq<char> {
    m.stem@ + "  "@ + decimal(m.w as nat) + "x"@ + decimal(m.h as nat) + "  "@ + tier_name_spec(m.tier) + "/"@ + m.tag@
}

/// Whether cell `i`'s roof is drawn over it: it has one and the roof
/// layer is not revealed.
pub open spec fn roof_shown(m: Model, reveal: bool, i: int) -> bool {
    !reveal && m.roof@[i] is Some
}

/// Cell `i` of the preview shows what `edit_cell_ok` says.
pub open spec fn edit_cell_ok(m: Model, reveal: bool, i: int, c: PreviewCell) -> bool {
    if roof_shown(m, reveal, i) {
        c.roof == m.roof@[i] && c.base is None && c.object is None
    } else {
        c.roof is None && opt_chars(c.base) == opt_chars(m.terrain@[i]) && opt_chars(c.object) == opt_chars(
            m.objects@[i],
        )
    }
}

/// Everything `edit_view` decides for model `m`, edit state `st` and the
/// swatch row `swatches`.
pub open spec fn edit_view_ok(m: Model, st: EditState, swatches: Seq<String>, v: EditView) -> bool {
    &&& v.info@ == info_line(st)
    &&& v.meta@ == meta_line(m)
    &&& v.swatch_selected@.len() == swatches.len()
    &&& forall|j: int| 0 <= j < swatches.len() ==> v.swatch_selected@[j] == (swatch_brush(st) == Some(
        #[trigger] swatches[j]@,
    ))
    &&& v.erase_selected == (swatch_brush(st) is None)
    &&& v.cells@.len() == m.terrain@.len()
    &&& forall|i: int| 0 <= i < v.cells@.len() ==> edit_cell_ok(m, st.reveal, i, #[trigger] v.cells@[i])
}

fn clone_name(o: &Option<String>) -> (r: Option<String>)
    ensures
        opt_chars(r) == opt_chars(*o),
{
    match o {
        Some(s) => Some(s.clone()),
        None => None,
    }
}

fn push_u8(s: &mut String, v: u8)
    ensures
        final(s)@ == old(s)@ + decimal(v as nat),
{
    let d = u32_to_decimal(v as u32);
    push(s, d.as_str());
}

/// The edit screen's content: see `edit_view_ok`.
pub fn edit_view(m: &Model, st: &EditState, swatches: &Vec<String>) -> (r: EditView)
    requires
        m.wf(),
    ensures
        edit_view_ok(*m, *st, swatches@, r),
{
    // Info line.
    let mut info = owned("[");
    push(&mut info, st.brushes.active.label());
    push(&mut info, "] ");
    match st.brushes.active {
        Layer::Roof => match st.brushes.roof_brush {
            Some((c, r)) => {
                push(&mut info, "roof(");
                push_u8(&mut info, c);
                push_char(&mut info, ',');
                push_u8(&mut info, r);
                push_char(&mut info, ')');
            },
            None => push(&mut info, "roof(-)"),
        },
        Layer::Object => match &st.brushes.object_brush {
            Some(b) => push(&mut info, b.as_str()),
            None => push(&mut info, "(erase)"),
        },
        Layer::Terrain => match &st.brushes.terrain_brush {
            Some(b) => push(&mut info, b.as_str()),
            None => push(&mut info, "(erase)"),
        },
    }
    push(&mut info, "  reveal:");
    if st.reveal {
        push(&mut info, "ON");
    } else {
        push(&mut info, "off");
    }
    proof {
        reveal_strlit("[");
        reveal_strlit("] ");
        reveal_strlit("roof(");
        reveal_strlit(",");
        reveal_strlit(")");
        assert(info@ =~= info_line(*st));
    }
    // Meta line.
    let mut meta = owned(m.stem.as_str());
    push(&mut meta, "  ");
    let wd = u32_to_decimal(m.w as u32);
    push(&mut meta, wd.as_str());
    push(&mut meta, "x");
    let hd = u32_to_decimal(m.h as u32);
    push(&mut meta, hd.as_str());
    push(&mut meta, "  ");
    push(&mut meta, crate::prefab_model::tier_name(m.tier));
    push(&mut meta, "/");
    push(&mut meta, m.tag.as_str());
    proof {
        assert(meta@ =~= meta_line(*m));
    }
    // Swatches.
    let brush: &Option<String> = match st.brushes.active {
        Layer::Object => &st.brushes.object_brush,
        _ => &st.brushes.terrain_brush,
    };
    let mut sel: Vec<bool> = Vec::new();
    let mut j: usize = 0;
    while j < swatches.len()
        invariant
            j <= swatches@.len(),
            opt_chars(*brush) == swatch_brush(*st),
            sel@.len() == j,
            forall|k: int| 0 <= k < j ==> sel@[k] == (swatch_brush(*st) == Some(#[trigger] swatches@[k]@)),
        decreases swatches@.len() - j,
    {
        let hit = match brush {
            Some(b) => str_eq(b.as_str(), swatches[j].as_str()),
            None => false,
        };
        sel.push(hit);
        j += 1;
    }
    let erase_selected = brush.is_none();
    // Preview.
    let n = m.terrain.len();
    let mut cells: Vec<PreviewCell> = Vec::new();
    let mut i: usize = 0;
    while i < n
        invariant
            m.wf(),
            n == m.terrain@.len(),
            i <= n,
            cells@.len() == i,
            forall|k: int| 0 <= k < i ==> edit_cell_ok(*m, st.reveal, k, #[trigger] cells@[k]),
        decreases n - i,
    {
        let cell = if !st.reveal && m.roof[i].is_some() {
            PreviewCell { roof: m.roof[i], base: None, object: None }
        } else {
            PreviewCell { roof: None, base: clone_name(&m.terrain[i]), object: clone_name(&m.objects[i]) }
        };
        cells.push(cell);
        i += 1;
    }
    EditView { info, meta, swatch_selected: sel, erase_selected, cells }
}

} // verus!
