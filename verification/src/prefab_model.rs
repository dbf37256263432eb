//! The prefab editor's model of a building being edited: a grid of cells,
//! each with an optional terrain tag, roof facade cell and object tag,
//! plus the metadata a catalog file carries; and the pure part of the
//! editor's mouse handling (which grid cell or list row a click hits, and
//! what painting or erasing does to the model).

use vstd::arithmetic::div_mod::lemma_fundamental_div_mod_converse;
use vstd::prelude::*;

use crate::buildings::{layer_char, palette_kind, palette_name, roof_cell, CityTier, Prefab};
use crate::world::TerrainKind;
use crate::text::{decimal, debug_str, owned, push, push_char, str_debug, str_eq, u32_to_decimal};

verus! {

/// Left edge of the editing grid on the editor window, in pixels.
pub const GRID_X: i32 = 512;

/// Top edge of the editing grid, in pixels.
pub const GRID_Y: i32 = 84;

/// Side of one grid cell, in pixels.
pub const GRID_CELL: i32 = 40;

/// Left edge of the file list on the browse screen, in pixels.
pub const BROWSE_X: i32 = 48;

/// Top of the first file-list row, in pixels.
pub const BROWSE_Y0: i32 = 120;

/// Height of one file-list row, in pixels.
pub const BROWSE_ROW_H: i32 = 30;

/// Width of the file list, in pixels.
pub const BROWSE_W: i32 = 420;

/// A prefab being edited. Cells are stored row by row, `w` to a row.
pub struct Model {
    pub stem: String,
    pub tag: String,
    pub tier: CityTier,
    pub variant: String,
    pub weight: u32,
    pub w: u16,
    pub h: u16,
    /// Sprite-tag name of each cell's terrain; `None` is an empty cell.
    pub terrain: Vec<Option<String>>,
    /// Roof facade sheet cell `(col, row)` of each cell; `None` is no roof.
    pub roof: Vec<Option<(u8, u8)>>,
    /// Object-tag name of each cell; `None` is no object.
    pub objects: Vec<Option<String>>,
}

/// Entry `(x, y)` of a grid stored row by row, `w` to a row.
pub open spec fn at<T>(v: Seq<T>, w: int, x: int, y: int) -> T {
    v[y * w + x]
}

/// `v` clamped to `[lo, hi]`.
pub open spec fn clamp16(v: u16, lo: u16, hi: u16) -> u16 {
    if v < lo {
        lo
    } else if v > hi {
        hi
    } else {
        v
    }
}

proof fn lemma_cell_index(w: int, h: int, x: int, y: int)
    requires
        0 <= x < w,
        0 <= y < h,
    ensures
        0 <= y * w + x < w * h,
{
    assert(0 <= y * w + x < w * h) by (nonlinear_arith)
        requires
            0 <= x < w,
            0 <= y < h,
    ;
}

/// `m1` is `m0` resized to `nw` by `nh`, each clamped to 1..=40: the
/// metadata is kept, and so is every cell that lies in both grids, while
/// the new cells are empty.
pub open spec fn resized(m0: Model, m1: Model, nw: u16, nh: u16) -> bool {
    &&& m1.w == clamp16(nw, 1, 40)
    &&& m1.h == clamp16(nh, 1, 40)
    &&& m1.stem == m0.stem
    &&& m1.tag == m0.tag
    &&& m1.tier == m0.tier
    &&& m1.variant == m0.variant
    &&& m1.weight == m0.weight
    &&& forall|x: int, y: int|
        0 <= x < m1.w && 0 <= y < m1.h ==> {
            let kept = x < m0.w && y < m0.h;
            &&& #[trigger] at(m1.terrain@, m1.w as int, x, y) == if kept {
                at(m0.terrain@, m0.w as int, x, y)
            } else {
                None
            }
            &&& at(m1.roof@, m1.w as int, x, y) == if kept {
                at(m0.roof@, m0.w as int, x, y)
            } else {
                None
            }
            &&& at(m1.objects@, m1.w as int, x, y) == if kept {
                at(m0.objects@, m0.w as int, x, y)
            } else {
                None
            }
        }
}

impl Model {
    /// Every layer has one entry per cell.
    pub open spec fn wf(&self) -> bool {
        &&& self.terrain@.len() == self.w * self.h
        &&& self.roof@.len() == self.w * self.h
        &&& self.objects@.len() == self.w * self.h
    }

    /// An empty `w` by `h` prefab: an urban "house" of weight 3 whose
    /// variant is its file stem.
    pub fn blank(stem: String, w: u16, h: u16) -> (r: Self)
        ensures
            r.wf(),
            r.stem == stem,
            r.variant == stem,
            r.tag@ == "house"@,
            r.tier == CityTier::Urban,
            r.weight == 3,
            r.w == w,
            r.h == h,
            forall|i: int| 0 <= i < w * h ==> #[trigger] r.terrain@[i] is None,
            forall|i: int| 0 <= i < w * h ==> #[trigger] r.roof@[i] is None,
            forall|i: int| 0 <= i < w * h ==> #[trigger] r.objects@[i] is None,
    {
        proof {
            assert(w * h <= 0xffff * 0xffff) by (nonlinear_arith)
                requires
                    w <= 0xffff,
                    h <= 0xffff,
            ;
        }
        let n = w as usize * h as usize;
        let mut terrain: Vec<Option<String>> = Vec::new();
        let mut roof: Vec<Option<(u8, u8)>> = Vec::new();
        let mut objects: Vec<Option<String>> = Vec::new();
        let mut i: usize = 0;
        while i < n
            invariant
                n == w * h,
                i <= n,
                terrain@.len() == i,
                roof@.len() == i,
                objects@.len() == i,
                forall|k: int| 0 <= k < i ==> #[trigger] terrain@[k] is None,
                forall|k: int| 0 <= k < i ==> #[trigger] roof@[k] is None,
                forall|k: int| 0 <= k < i ==> #[trigger] objects@[k] is None,
            decreases n - i,
        {
            terrain.push(None);
            roof.push(None);
            objects.push(None);
            i = i + 1;
        }
        let variant = stem.clone();
        Model { variant, stem, tag: String::from_str("house"), tier: CityTier::Urban, weight: 3, w, h, terrain, roof, objects }
    }

    /// Index of cell `(x, y)` in the layers.
    pub fn idx(&self, x: u16, y: u16) -> (r: usize)
        ensures
            r == y * self.w + x,
    {
        proof {
            assert(y * self.w <= 0xffff * 0xffff) by (nonlinear_arith)
                requires
                    y <= 0xffff,
                    self.w <= 0xffff,
            ;
        }
        y as usize * self.w as usize + x as usize
    }

    /// Resizes the grid to `nw` by `nh`, each clamped to 1..=40, keeping
    /// every cell that lies in both the old and the new grid and leaving
    /// the new ones empty.
    pub fn resize(&mut self, nw: u16, nh: u16)
        requires
            old(self).wf(),
        ensures
            final(self).wf(),
            resized(*old(self), *final(self), nw, nh),
    {
        let nw = if nw < 1 {
            1
        } else if nw > 40 {
            40
        } else {
            nw
        };
        let nh = if nh < 1 {
            1
        } else if nh > 40 {
            40
        } else {
            nh
        };
        let ghost ow = self.w as int;
        let ghost oh = self.h as int;
        let mut nt: Vec<Option<String>> = Vec::new();
        let mut nr: Vec<Option<(u8, u8)>> = Vec::new();
        let mut no: Vec<Option<String>> = Vec::new();
        let mut y: u16 = 0;
        while y < nh
            invariant
                self.wf(),
                ow == self.w,
                oh == self.h,
                1 <= nw <= 40,
                1 <= nh <= 40,
                y <= nh,
                nt@.len() == y * nw,
                nr@.len() == y * nw,
                no@.len() == y * nw,
                forall|x: int, yy: int|
                    0 <= x < nw && 0 <= yy < y ==> {
                        let kept = x < ow && yy < oh;
                        &&& #[trigger] at(nt@, nw as int, x, yy) == if kept {
                            at(self.terrain@, ow, x, yy)
                        } else {
                            None
                        }
                        &&& at(nr@, nw as int, x, yy) == if kept {
                            at(self.roof@, ow, x, yy)
                        } else {
                            None
                        }
                        &&& at(no@, nw as int, x, yy) == if kept {
                            at(self.objects@, ow, x, yy)
                        } else {
                            None
                        }
                    },
            decreases nh - y,
        {
            let mut x: u16 = 0;
            proof {
                assert forall|xx: int, yy: int|
                    0 <= xx < nw && 0 <= yy < y || (yy == y && 0 <= xx < x) implies {
                        let kept = xx < ow && yy < oh;
                        &&& #[trigger] at(nt@, nw as int, xx, yy) == if kept {
                            at(self.terrain@, ow, xx, yy)
                        } else {
                            None
                        }
                        &&& at(nr@, nw as int, xx, yy) == if kept {
                            at(self.roof@, ow, xx, yy)
                        } else {
                            None
                        }
                        &&& at(no@, nw as int, xx, yy) == if kept {
                            at(self.objects@, ow, xx, yy)
                        } else {
                            None
                        }
                    } by {
                    assert(0 <= xx < nw && 0 <= yy < y);
                }
            }
            while x < nw
                invariant
                    self.wf(),
                    ow == self.w,
                    oh == self.h,
                    1 <= nw <= 40,
                    1 <= nh <= 40,
                    y < nh,
                    x <= nw,
                    nt@.len() == y * nw + x,
                    nr@.len() == y * nw + x,
                    no@.len() == y * nw + x,
                    forall|xx: int, yy: int|
                        0 <= xx < nw && 0 <= yy < y || (yy == y && 0 <= xx < x) ==> {
                            let kept = xx < ow && yy < oh;
                            &&& #[trigger] at(nt@, nw as int, xx, yy) == if kept {
                                at(self.terrain@, ow, xx, yy)
                            } else {
                                None
                            }
                            &&& at(nr@, nw as int, xx, yy) == if kept {
                                at(self.roof@, ow, xx, yy)
                            } else {
                                None
                            }
                            &&& at(no@, nw as int, xx, yy) == if kept {
                                at(self.objects@, ow, xx, yy)
                            } else {
                                None
                            }
                        },
                decreases nw - x,
            {
                let ghost before_t = nt@;
                let ghost before_r = nr@;
                let ghost before_o = no@;
                if x < self.w && y < self.h {
                    let src = self.idx(x, y);
                    proof {
                        lemma_cell_index(ow, oh, x as int, y as int);
                    }
                    let t = match &self.terrain[src] {
                        Some(s) => Some(s.clone()),
                        None => None,
                    };
                    let o = match &self.objects[src] {
                        Some(s) => Some(s.clone()),
                        None => None,
                    };
                    nt.push(t);
                    nr.push(self.roof[src]);
                    no.push(o);
                } else {
                    nt.push(None);
                    nr.push(None);
                    no.push(None);
                }
                proof {
                    assert forall|xx: int, yy: int|
                        0 <= xx < nw && 0 <= yy < y || (yy == y && 0 <= xx < x + 1) implies {
                            let kept = xx < ow && yy < oh;
                            &&& #[trigger] at(nt@, nw as int, xx, yy) == if kept {
                                at(self.terrain@, ow, xx, yy)
                            } else {
                                None
                            }
                            &&& at(nr@, nw as int, xx, yy) == if kept {
                                at(self.roof@, ow, xx, yy)
                            } else {
                                None
                            }
                            &&& at(no@, nw as int, xx, yy) == if kept {
                                at(self.objects@, ow, xx, yy)
                            } else {
                                None
                            }
                        } by {
                        if yy == y && xx == x {
                            assert(yy * nw + xx == before_t.len());
                        } else {
                            lemma_cell_index(nw as int, y + 1, xx, yy);
                            assert(yy * nw + xx < y * nw + x) by (nonlinear_arith)
                                requires
                                    0 <= xx < nw,
                                    0 <= yy <= y,
                                    yy < y || xx < x,
                            ;
                            assert(at(nt@, nw as int, xx, yy) == at(before_t, nw as int, xx, yy));
                            assert(at(nr@, nw as int, xx, yy) == at(before_r, nw as int, xx, yy));
                            assert(at(no@, nw as int, xx, yy) == at(before_o, nw as int, xx, yy));
                        }
                    }
                }
                x = x + 1;
            }
            proof {
                assert(y * nw + nw == (y + 1) * nw) by (nonlinear_arith);
            }
            y = y + 1;
        }
        proof {
            assert(nh * nw == nw * nh) by (nonlinear_arith);
        }
        let ghost old_terrain = self.terrain@;
        let ghost old_roof = self.roof@;
        let ghost old_objects = self.objects@;
        proof {
            assert forall|x: int, yy: int| 0 <= x < nw && 0 <= yy < nh implies {
                let kept = x < ow && yy < oh;
                &&& #[trigger] at(nt@, nw as int, x, yy) == if kept {
                    at(old_terrain, ow, x, yy)
                } else {
                    None
                }
                &&& at(nr@, nw as int, x, yy) == if kept {
                    at(old_roof, ow, x, yy)
                } else {
                    None
                }
                &&& at(no@, nw as int, x, yy) == if kept {
                    at(old_objects, ow, x, yy)
                } else {
                    None
                }
            } by {}
        }
        self.w = nw;
        self.h = nh;
        self.terrain = nt;
        self.roof = nr;
        self.objects = no;
    }
}

/// Name of a tier as catalog files write it.
pub open spec fn tier_name_spec(t: CityTier) -> Seq<char> {
    match t {
        CityTier::Urban => "Urban"@,
        CityTier::Town => "Town"@,
        CityTier::Village => "Village"@,
        CityTier::Hamlet => "Hamlet"@,
    }
}

/// Name of a tier as catalog files write it.
pub fn tier_name(t: CityTier) -> (r: &'static str)
    ensures
        r@ == tier_name_spec(t),
{
    match t {
        CityTier::Urban => "Urban",
        CityTier::Town => "Town",
        CityTier::Village => "Village",
        CityTier::Hamlet => "Hamlet",
    }
}

/// The next tier, from urban down to hamlet and round again.
pub fn cycle_tier(t: CityTier) -> (r: CityTier)
    ensures
        r == (match t {
            CityTier::Urban => CityTier::Town,
            CityTier::Town => CityTier::Village,
            CityTier::Village => CityTier::Hamlet,
            CityTier::Hamlet => CityTier::Urban,
        }),
{
    match t {
        CityTier::Urban => CityTier::Town,
        CityTier::Town => CityTier::Village,
        CityTier::Village => CityTier::Hamlet,
        CityTier::Hamlet => CityTier::Urban,
    }
}

/// The layer painting and erasing act on.
#[derive(Clone, Copy, Debug, PartialEq, Eq, Structural)]
pub enum Layer {
    Terrain,
    Roof,
    Object,
}

impl Layer {
    /// The next layer: terrain, roof, object, and round again.
    pub fn next(self) -> (r: Layer)
        ensures
            r == (match self {
                Layer::Terrain => Layer::Roof,
                Layer::Roof => Layer::Object,
                Layer::Object => Layer::Terrain,
            }),
    {
        match self {
            Layer::Terrain => Layer::Roof,
            Layer::Roof => Layer::Object,
            Layer::Object => Layer::Terrain,
        }
    }

    pub fn label(self) -> (r: &'static str)
        ensures
            r@ == (match self {
                Layer::Terrain => "TERRAIN"@,
                Layer::Roof => "ROOF"@,
                Layer::Object => "OBJECT"@,
            }),
    {
        match self {
            Layer::Terrain => "TERRAIN",
            Layer::Roof => "ROOF",
            Layer::Object => "OBJECT",
        }
    }
}

/// Grid cell under window pixel `(x, y)`: the pixel's offset from the
/// grid's corner divided by the cell size, when both offsets are
/// non-negative and the cell lies in the model's grid.
pub open spec fn cell_under(x: i32, y: i32, w: u16, h: u16) -> Option<(u16, u16)> {
    let gx = x - GRID_X;
    let gy = y - GRID_Y;
    if gx < 0 || gy < 0 {
        None
    } else {
        let cx = (gx / GRID_CELL as int) as u16;
        let cy = (gy / GRID_CELL as int) as u16;
        if cx < w && cy < h {
            Some((cx, cy))
        } else {
            None
        }
    }
}

pub fn cell_at_xy(x: i32, y: i32, m: &Model) -> (r: Option<(u16, u16)>)
    requires
        x >= i32::MIN + GRID_X,
        y >= i32::MIN + GRID_Y,
    ensures
        r == cell_under(x, y, m.w, m.h),
{
    let gx = x - GRID_X;
    let gy = y - GRID_Y;
    if gx < 0 || gy < 0 {
        return None;
    }
    let cx = (gx / GRID_CELL) as u16;
    let cy = (gy / GRID_CELL) as u16;
    if cx < m.w && cy < m.h {
        Some((cx, cy))
    } else {
        None
    }
}

/// Point `(px, py)` lies in the `w` by `h` rectangle at `(x, y)`, right
/// and bottom edges excluded.
pub fn rect_hit(px: i32, py: i32, x: i32, y: i32, w: i32, h: i32) -> (r: bool)
    requires
        i32::MIN <= x + w <= i32::MAX,
        i32::MIN <= y + h <= i32::MAX,
    ensures
        r == (px >= x && px < x + w && py >= y && py < y + h),
{
    px >= x && px < x + w && py >= y && py < y + h
}

/// Row of the file list under pixel `(x, y)`, when the pixel lies across
/// the list and at or below its first row, and the row is at most
/// `n_files` (one past the last file is the "new" row).
pub fn browse_row_at(x: i32, y: i32, n_files: usize) -> (r: Option<usize>)
    ensures
        r == (if x < BROWSE_X || x > BROWSE_X + BROWSE_W || y < BROWSE_Y0 {
            None
        } else if (y - BROWSE_Y0) / BROWSE_ROW_H as int <= n_files {
            Some(((y - BROWSE_Y0) / BROWSE_ROW_H as int) as usize)
        } else {
            None
        }),
{
    if x < BROWSE_X || x > BROWSE_X + BROWSE_W || y < BROWSE_Y0 {
        return None;
    }
    let row = ((y - BROWSE_Y0) / BROWSE_ROW_H) as usize;
    if row <= n_files {
        Some(row)
    } else {
        None
    }
}

/// The brushes painting puts down, and the layer it acts on.
pub struct Brushes {
    pub active: Layer,
    pub terrain_brush: Option<String>,
    pub object_brush: Option<String>,
    pub roof_brush: Option<(u8, u8)>,
}

/// `m1` is `m0` with only its grid layers changed.
pub open spec fn same_meta(m0: Model, m1: Model) -> bool {
    &&& m1.w == m0.w && m1.h == m0.h
    &&& m1.stem == m0.stem && m1.tag == m0.tag && m1.tier == m0.tier
    &&& m1.variant == m0.variant && m1.weight == m0.weight
}

/// `m1` is `m0` with the cell under pixel `(x, y)`, if any, set on the
/// `active` layer to the given brush; the other layers are unchanged.
pub open spec fn cell_set(
    m0: Model,
    m1: Model,
    x: i32,
    y: i32,
    active: Layer,
    tb: Option<String>,
    rb: Option<(u8, u8)>,
    ob: Option<String>,
) -> bool {
    &&& same_meta(m0, m1)
    &&& match cell_under(x, y, m0.w, m0.h) {
        None => m1.terrain@ == m0.terrain@ && m1.roof@ == m0.roof@ && m1.objects@ == m0.objects@,
        Some((cx, cy)) => {
            let i = cy * m0.w + cx;
            &&& m1.terrain@ == if active == Layer::Terrain {
                m0.terrain@.update(i, tb)
            } else {
                m0.terrain@
            }
            &&& m1.roof@ == if active == Layer::Roof {
                m0.roof@.update(i, rb)
            } else {
                m0.roof@
            }
            &&& m1.objects@ == if active == Layer::Object {
                m0.objects@.update(i, ob)
            } else {
                m0.objects@
            }
        },
    }
}

/// `m1` is `m0` with the active brush painted under pixel `(x, y)`.
pub open spec fn painted(m0: Model, m1: Model, x: i32, y: i32, st: Brushes) -> bool {
    cell_set(m0, m1, x, y, st.active, st.terrain_brush, st.roof_brush, st.object_brush)
}

/// `m1` is `m0` with the `active` layer cleared under pixel `(x, y)`.
pub open spec fn erased(m0: Model, m1: Model, x: i32, y: i32, active: Layer) -> bool {
    cell_set(m0, m1, x, y, active, None, None, None)
}

/// Paints the active layer's brush into the grid cell under pixel
/// `(x, y)`; a click off the grid changes nothing.
pub fn paint_left(x: i32, y: i32, st: &Brushes, m: &mut Model)
    requires
        old(m).wf(),
        x >= i32::MIN + GRID_X,
        y >= i32::MIN + GRID_Y,
    ensures
        final(m).wf(),
        painted(*old(m), *final(m), x, y, *st),
{
    match cell_at_xy(x, y, m) {
        Some((cx, cy)) => {
            let i = m.idx(cx, cy);
            proof {
                lemma_cell_index(m.w as int, m.h as int, cx as int, cy as int);
            }
            match st.active {
                Layer::Terrain => {
                    let b = match &st.terrain_brush {
                        Some(s) => Some(s.clone()),
                        None => None,
                    };
                    m.terrain.set(i, b);
                },
                Layer::Roof => {
                    m.roof.set(i, st.roof_brush);
                },
                Layer::Object => {
                    let b = match &st.object_brush {
                        Some(s) => Some(s.clone()),
                        None => None,
                    };
                    m.objects.set(i, b);
                },
            }
        },
        None => {},
    }
}

/// Clears the `active` layer in the grid cell under pixel `(x, y)`; a
/// click off the grid changes nothing.
pub fn erase(x: i32, y: i32, active: Layer, m: &mut Model)
    requires
        old(m).wf(),
        x >= i32::MIN + GRID_X,
        y >= i32::MIN + GRID_Y,
    ensures
        final(m).wf(),
        erased(*old(m), *final(m), x, y, active),
{
    match cell_at_xy(x, y, m) {
        Some((cx, cy)) => {
            let i = m.idx(cx, cy);
            proof {
                lemma_cell_index(m.w as int, m.h as int, cx as int, cy as int);
            }
            match active {
                Layer::Terrain => {
                    m.terrain.set(i, None);
                },
                Layer::Roof => {
                    m.roof.set(i, None);
                },
                Layer::Object => {
                    m.objects.set(i, None);
                },
            }
        },
        None => {},
    }
}

// ---------------------------------------------------------------------
// Writing a model as a catalog file
// ---------------------------------------------------------------------

/// Palette character of entry `i`: in turn `#.=o,:~+*`, `A` to `Z`, `a`
/// to `z` and `0` to `9`; entries past the 71st all share `9`.
pub open spec fn pool_char(i: int) -> char {
    let k = if i > 70 {
        70
    } else {
        i
    };
    if k == 0 {
        '#'
    } else if k == 1 {
        '.'
    } else if k == 2 {
        '='
    } else if k == 3 {
        'o'
    } else if k == 4 {
        ','
    } else if k == 5 {
        ':'
    } else if k == 6 {
        '~'
    } else if k == 7 {
        '+'
    } else if k == 8 {
        '*'
    } else if k < 35 {
        (65 + (k - 9)) as char
    } else if k < 61 {
        (97 + (k - 35)) as char
    } else {
        (48 + (k - 61)) as char
    }
}

fn palette_char(i: usize) -> (r: char)
    ensures
        r == pool_char(i as int),
{
    let k: u8 = if i > 70 {
        70
    } else {
        i as u8
    };
    if k == 0 {
        '#'
    } else if k == 1 {
        '.'
    } else if k == 2 {
        '='
    } else if k == 3 {
        'o'
    } else if k == 4 {
        ','
    } else if k == 5 {
        ':'
    } else if k == 6 {
        '~'
    } else if k == 7 {
        '+'
    } else if k == 8 {
        '*'
    } else if k < 35 {
        (65 + (k - 9)) as char
    } else if k < 61 {
        (97 + (k - 35)) as char
    } else {
        (48 + (k - 61)) as char
    }
}

/// The distinct names of `cells`, in the order they first appear.
pub open spec fn first_names(cells: Seq<Option<String>>) -> Seq<Seq<char>>
    decreases cells.len(),
{
    if cells.len() == 0 {
        Seq::empty()
    } else {
        let p = first_names(cells.drop_last());
        match cells.last() {
            Some(s) => if p.contains(s@) {
                p
            } else {
                p.push(s@)
            },
            None => p,
        }
    }
}

/// The distinct roof cells of `cells`, in the order they first appear.
pub open spec fn first_roofs(cells: Seq<Option<(u8, u8)>>) -> Seq<(u8, u8)>
    decreases cells.len(),
{
    if cells.len() == 0 {
        Seq::empty()
    } else {
        let p = first_roofs(cells.drop_last());
        match cells.last() {
            Some(r) => if p.contains(r) {
                p
            } else {
                p.push(r)
            },
            None => p,
        }
    }
}

/// Position of the first `x` in `s`.
pub open spec fn pos_in<T>(s: Seq<T>, x: T) -> int
    decreases s.len(),
{
    if s.len() == 0 || s[0] == x {
        0
    } else {
        1 + pos_in(s.drop_first(), x)
    }
}

/// Grid character of a named cell: its name's palette character, or a
/// space when it has none.
pub open spec fn name_char(names: Seq<Seq<char>>, c: Option<String>) -> char {
    match c {
        Some(s) => pool_char(pos_in(names, s@)),
        None => ' ',
    }
}

/// Grid character of a roof cell.
pub open spec fn roof_char(roofs: Seq<(u8, u8)>, c: Option<(u8, u8)>) -> char {
    match c {
        Some(r) => pool_char(pos_in(roofs, r)),
        None => ' ',
    }
}

/// The first `n` characters of row `y` of a named layer.
pub open spec fn name_row(cells: Seq<Option<String>>, names: Seq<Seq<char>>, w: int, y: int, n: int) -> Seq<char>
    decreases n,
{
    if n <= 0 {
        Seq::empty()
    } else {
        name_row(cells, names, w, y, n - 1).push(name_char(names, cells[y * w + n - 1]))
    }
}

/// The first `n` characters of row `y` of the roof layer.
pub open spec fn roof_row(cells: Seq<Option<(u8, u8)>>, roofs: Seq<(u8, u8)>, w: int, y: int, n: int) -> Seq<char>
    decreases n,
{
    if n <= 0 {
        Seq::empty()
    } else {
        roof_row(cells, roofs, w, y, n - 1).push(roof_char(roofs, cells[y * w + n - 1]))
    }
}

/// Lines of the first `n` rows of a named layer, each quoted.
pub open spec fn name_rows(cells: Seq<Option<String>>, names: Seq<Seq<char>>, w: int, n: int) -> Seq<char>
    decreases n,
{
    if n <= 0 {
        Seq::empty()
    } else {
        name_rows(cells, names, w, n - 1) + "        "@ + str_debug(name_row(cells, names, w, n - 1, w)) + ",\n"@
    }
}

/// Lines of the first `n` rows of the roof layer, each quoted.
pub open spec fn roof_rows(cells: Seq<Option<(u8, u8)>>, roofs: Seq<(u8, u8)>, w: int, n: int) -> Seq<char>
    decreases n,
{
    if n <= 0 {
        Seq::empty()
    } else {
        roof_rows(cells, roofs, w, n - 1) + "        "@ + str_debug(roof_row(cells, roofs, w, n - 1, w)) + ",\n"@
    }
}

/// A character in single quotes, as `Debug` writes the palette characters.
pub open spec fn quoted(c: char) -> Seq<char> {
    seq!['\'', c, '\'']
}

/// Palette lines for the first `n` names: character, then quoted name.
pub open spec fn name_entries(names: Seq<Seq<char>>, n: int) -> Seq<char>
    decreases n,
{
    if n <= 0 {
        Seq::empty()
    } else {
        name_entries(names, n - 1) + "        "@ + quoted(pool_char(n - 1)) + ": "@ + str_debug(names[n - 1]) + ",\n"@
    }
}

/// Palette lines for the first `n` roof cells: character, then
/// `(col, row)`.
pub open spec fn roof_entries(roofs: Seq<(u8, u8)>, n: int) -> Seq<char>
    decreases n,
{
    if n <= 0 {
        Seq::empty()
    } else {
        roof_entries(roofs, n - 1) + "        "@ + quoted(pool_char(n - 1)) + ": ("@ + decimal(roofs[n - 1].0 as nat)
            + ", "@ + decimal(roofs[n - 1].1 as nat) + "),\n"@
    }
}

pub open spec fn tier_text(t: CityTier) -> Seq<char> {
    match t {
        CityTier::Urban => "Urban"@,
        CityTier::Town => "Town"@,
        CityTier::Village => "Village"@,
        CityTier::Hamlet => "Hamlet"@,
    }
}

/// Names of a list of strings.
pub open spec fn names_of(v: Seq<String>) -> Seq<Seq<char>> {
    v.map_values(|s: String| s@)
}

/// First lines of the catalog file for `m`: its metadata.
pub open spec fn head_text(m: &Model) -> Seq<char> {
    "// Edited with the prefab-editor tool.\nPrefab(\n    tag: "@ + str_debug(m.tag@) + ",\n    tier: "@ + tier_text(
        m.tier,
    ) + ",\n    variant: "@ + str_debug(m.variant@) + ",\n    weight: "@ + decimal(m.weight as nat)
        + ",\n    size: ("@ + decimal(m.w as nat) + ", "@ + decimal(m.h as nat) + "),\n    palette: {},\n"@
}

/// The terrain's tag palette and grid.
pub open spec fn terrain_text(m: &Model) -> Seq<char> {
    let tn = first_names(m.terrain@);
    "    tag_palette: {\n"@ + name_entries(tn, tn.len() as int) + "    },\n    grid: [\n"@ + name_rows(
        m.terrain@,
        tn,
        m.w as int,
        m.h as int,
    ) + "    ],\n"@
}

/// The roof palette and grid, when any cell has a roof.
pub open spec fn roof_text(m: &Model) -> Seq<char> {
    let rp = first_roofs(m.roof@);
    if rp.len() > 0 {
        "    roof_palette: {\n"@ + roof_entries(rp, rp.len() as int) + "    },\n    roof: [\n"@ + roof_rows(
            m.roof@,
            rp,
            m.w as int,
            m.h as int,
        ) + "    ],\n"@
    } else {
        Seq::empty()
    }
}

/// The objects palette and grid, when any cell has an object.
pub open spec fn objects_text(m: &Model) -> Seq<char> {
    let on = first_names(m.objects@);
    if on.len() > 0 {
        "    objects_palette: {\n"@ + name_entries(on, on.len() as int) + "    },\n    objects: [\n"@ + name_rows(
            m.objects@,
            on,
            m.w as int,
            m.h as int,
        ) + "    ],\n"@
    } else {
        Seq::empty()
    }
}

/// The catalog file for model `m`: its metadata, a tag palette and grid
/// for the terrain, then, when the layer has any cell, a roof palette and
/// grid and an objects palette and grid.
pub open spec fn ron_text(m: &Model) -> Seq<char> {
    head_text(m) + terrain_text(m) + roof_text(m) + objects_text(m) + ")\n"@
}

proof fn lemma_pos_in_skip<T>(s: Seq<T>, x: T, i: int)
    requires
        0 <= i <= s.len(),
        forall|j: int| 0 <= j < i ==> s[j] != x,
    ensures
        pos_in(s, x) == i + pos_in(s.skip(i), x),
    decreases i,
{
    if i == 0 {
        assert(s.skip(0) =~= s);
    } else {
        assert(s[0] != x);
        assert forall|j: int| 0 <= j < i - 1 implies s.drop_first()[j] != x by {
            assert(s.drop_first()[j] == s[j + 1]);
        }
        lemma_pos_in_skip(s.drop_first(), x, i - 1);
        assert(s.drop_first().skip(i - 1) =~= s.skip(i));
    }
}

proof fn lemma_first_names_has(cells: Seq<Option<String>>, i: int)
    requires
        0 <= i < cells.len(),
        cells[i] is Some,
    ensures
        first_names(cells).contains(cells[i]->0@),
    decreases cells.len(),
{
    let p = first_names(cells.drop_last());
    if i < cells.len() - 1 {
        lemma_first_names_has(cells.drop_last(), i);
        assert(cells.drop_last()[i] == cells[i]);
        let k = choose|k: int| 0 <= k < p.len() && p[k] == cells[i]->0@;
        match cells.last() {
            Some(s) => if !p.contains(s@) {
                assert(p.push(s@)[k] == p[k]);
            },
            None => {},
        }
    } else {
        match cells.last() {
            Some(s) => if !p.contains(s@) {
                assert(p.push(s@)[p.len() as int] == s@);
            },
            None => {},
        }
    }
}

proof fn lemma_first_roofs_has(cells: Seq<Option<(u8, u8)>>, i: int)
    requires
        0 <= i < cells.len(),
        cells[i] is Some,
    ensures
        first_roofs(cells).contains(cells[i]->0),
    decreases cells.len(),
{
    let p = first_roofs(cells.drop_last());
    if i < cells.len() - 1 {
        lemma_first_roofs_has(cells.drop_last(), i);
        assert(cells.drop_last()[i] == cells[i]);
        let k = choose|k: int| 0 <= k < p.len() && p[k] == cells[i]->0;
        match cells.last() {
            Some(r) => if !p.contains(r) {
                assert(p.push(r)[k] == p[k]);
            },
            None => {},
        }
    } else {
        match cells.last() {
            Some(r) => if !p.contains(r) {
                assert(p.push(r)[p.len() as int] == r);
            },
            None => {},
        }
    }
}

/// Whether `names` holds `n`.
fn has_name(names: &Vec<String>, n: &str) -> (r: bool)
    ensures
        r == names_of(names@).contains(n@),
{
    let mut i: usize = 0;
    while i < names.len()
        invariant
            i <= names@.len(),
            forall|j: int| 0 <= j < i ==> names@[j]@ != n@,
        decreases names@.len() - i,
    {
        if str_eq(names[i].as_str(), n) {
            proof {
                assert(names_of(names@)[i as int] == n@);
            }
            return true;
        }
        i += 1;
    }
    proof {
        assert forall|j: int| 0 <= j < names_of(names@).len() implies names_of(names@)[j] != n@ by {
            assert(names_of(names@)[j] == names@[j]@);
        }
    }
    false
}

/// Position of name `n` in `names`, which holds it.
fn name_index(names: &Vec<String>, n: &str) -> (r: usize)
    requires
        names_of(names@).contains(n@),
    ensures
        r == pos_in(names_of(names@), n@),
        r < names@.len(),
{
    let ghost view = names_of(names@);
    let mut i: usize = 0;
    while i < names.len()
        invariant
            i <= names@.len(),
            view == names_of(names@),
            view.contains(n@),
            forall|j: int| 0 <= j < i ==> view[j] != n@,
        decreases names@.len() - i,
    {
        if str_eq(names[i].as_str(), n) {
            proof {
                lemma_pos_in_skip(view, n@, i as int);
                assert(view.skip(i as int)[0] == n@);
            }
            return i;
        }
        i += 1;
    }
    proof {
        let k = choose|k: int| 0 <= k < view.len() && view[k] == n@;
        assert(k < i);
    }
    0
}

/// Position of roof cell `v` in `roofs`, which holds it.
fn roof_index(roofs: &Vec<(u8, u8)>, v: (u8, u8)) -> (r: usize)
    requires
        roofs@.contains(v),
    ensures
        r == pos_in(roofs@, v),
        r < roofs@.len(),
{
    let mut i: usize = 0;
    while i < roofs.len()
        invariant
            i <= roofs@.len(),
            roofs@.contains(v),
            forall|j: int| 0 <= j < i ==> roofs@[j] != v,
        decreases roofs@.len() - i,
    {
        if roofs[i].0 == v.0 && roofs[i].1 == v.1 {
            proof {
                lemma_pos_in_skip(roofs@, v, i as int);
                assert(roofs@.skip(i as int)[0] == v);
            }
            return i;
        }
        i += 1;
    }
    proof {
        let k = choose|k: int| 0 <= k < roofs@.len() && roofs@[k] == v;
        assert(k < i);
    }
    0
}

fn collect_names(cells: &Vec<Option<String>>) -> (r: Vec<String>)
    ensures
        names_of(r@) == first_names(cells@),
{
    let mut names: Vec<String> = Vec::new();
    let mut k: usize = 0;
    while k < cells.len()
        invariant
            k <= cells@.len(),
            names_of(names@) == first_names(cells@.take(k as int)),
        decreases cells@.len() - k,
    {
        proof {
            assert(cells@.take(k + 1).drop_last() =~= cells@.take(k as int));
            assert(cells@.take(k + 1).last() == cells@[k as int]);
        }
        match &cells[k] {
            Some(n) => {
                if !has_name(&names, n.as_str()) {
                    let ghost before = names@;
                    names.push(n.clone());
                    proof {
                        assert(names_of(names@) =~= names_of(before).push(n@));
                    }
                }
            },
            None => {},
        }
        k += 1;
    }
    proof {
        assert(cells@.take(cells@.len() as int) =~= cells@);
    }
    names
}

fn collect_roofs(cells: &Vec<Option<(u8, u8)>>) -> (r: Vec<(u8, u8)>)
    ensures
        r@ == first_roofs(cells@),
{
    let mut roofs: Vec<(u8, u8)> = Vec::new();
    let mut k: usize = 0;
    while k < cells.len()
        invariant
            k <= cells@.len(),
            roofs@ == first_roofs(cells@.take(k as int)),
        decreases cells@.len() - k,
    {
        proof {
            assert(cells@.take(k + 1).drop_last() =~= cells@.take(k as int));
            assert(cells@.take(k + 1).last() == cells@[k as int]);
        }
        match cells[k] {
            Some(v) => {
                let mut found = false;
                let mut i: usize = 0;
                while i < roofs.len()
                    invariant
                        i <= roofs@.len(),
                        found == exists|j: int| 0 <= j < i && roofs@[j] == v,
                    decreases roofs@.len() - i,
                {
                    if roofs[i].0 == v.0 && roofs[i].1 == v.1 {
                        found = true;
                    }
                    i += 1;
                }
                if !found {
                    roofs.push(v);
                }
            },
            None => {},
        }
        k += 1;
    }
    proof {
        assert(cells@.take(cells@.len() as int) =~= cells@);
    }
    roofs
}

fn push_quoted(s: &mut String, c: char)
    ensures
        final(s)@ == old(s)@ + quoted(c),
{
    push_char(s, '\'');
    push_char(s, c);
    push_char(s, '\'');
    proof {
        assert(final(s)@ =~= old(s)@ + quoted(c));
    }
}

fn append_name_entries(s: &mut String, names: &Vec<String>)
    ensures
        final(s)@ == old(s)@ + name_entries(names_of(names@), names@.len() as int),
{
    let ghost s0 = s@;
    let ghost view = names_of(names@);
    let mut i: usize = 0;
    while i < names.len()
        invariant
            i <= names@.len(),
            view == names_of(names@),
            s@ == s0 + name_entries(view, i as int),
        decreases names@.len() - i,
    {
        let ghost before = s@;
        push(s, "        ");
        push_quoted(s, palette_char(i));
        push(s, ": ");
        let d = debug_str(names[i].as_str());
        push(s, d.as_str());
        push(s, ",\n");
        proof {
            assert(view[i as int] == names@[i as int]@);
            assert(s@ =~= s0 + name_entries(view, i + 1));
        }
        i += 1;
    }
}

fn append_roof_entries(s: &mut String, roofs: &Vec<(u8, u8)>)
    ensures
        final(s)@ == old(s)@ + roof_entries(roofs@, roofs@.len() as int),
{
    let ghost s0 = s@;
    let mut i: usize = 0;
    while i < roofs.len()
        invariant
            i <= roofs@.len(),
            s@ == s0 + roof_entries(roofs@, i as int),
        decreases roofs@.len() - i,
    {
        let r = roofs[i];
        push(s, "        ");
        push_quoted(s, palette_char(i));
        push(s, ": (");
        let col = u32_to_decimal(r.0 as u32);
        push(s, col.as_str());
        push(s, ", ");
        let row = u32_to_decimal(r.1 as u32);
        push(s, row.as_str());
        push(s, "),\n");
        proof {
            assert(s@ =~= s0 + roof_entries(roofs@, i + 1));
        }
        i += 1;
    }
}

fn append_name_rows(s: &mut String, cells: &Vec<Option<String>>, names: &Vec<String>, w: u16, h: u16)
    requires
        cells@.len() == w * h,
        forall|i: int| 0 <= i < cells@.len() && cells@[i] is Some ==> names_of(names@).contains(#[trigger] cells@[i]->0@),
    ensures
        final(s)@ == old(s)@ + name_rows(cells@, names_of(names@), w as int, h as int),
{
    let _total = cells.len();
    let ghost s0 = s@;
    let ghost view = names_of(names@);
    let mut y: u16 = 0;
    while y < h
        invariant
            y <= h,
            cells@.len() == w * h,
            cells@.len() <= usize::MAX,
            view == names_of(names@),
            forall|i: int| 0 <= i < cells@.len() && cells@[i] is Some ==> view.contains(#[trigger] cells@[i]->0@),
            s@ == s0 + name_rows(cells@, view, w as int, y as int),
        decreases h - y,
    {
        let mut row = String::new();
        let mut x: u16 = 0;
        while x < w
            invariant
                x <= w,
                y < h,
                cells@.len() == w * h,
                cells@.len() <= usize::MAX,
                view == names_of(names@),
                forall|i: int| 0 <= i < cells@.len() && cells@[i] is Some ==> view.contains(#[trigger] cells@[i]->0@),
                row@ == name_row(cells@, view, w as int, y as int, x as int),
            decreases w - x,
        {
            proof {
                lemma_cell_index(w as int, h as int, x as int, y as int);
                assert(y * w <= y * w + x);
            }
            let i = y as usize * w as usize + x as usize;
            let c = match &cells[i] {
                Some(n) => palette_char(name_index(names, n.as_str())),
                None => ' ',
            };
            push_char(&mut row, c);
            x += 1;
        }
        push(s, "        ");
        let d = debug_str(row.as_str());
        push(s, d.as_str());
        push(s, ",\n");
        proof {
            assert(s@ =~= s0 + name_rows(cells@, view, w as int, y + 1));
        }
        y += 1;
    }
}

fn append_roof_rows(s: &mut String, cells: &Vec<Option<(u8, u8)>>, roofs: &Vec<(u8, u8)>, w: u16, h: u16)
    requires
        cells@.len() == w * h,
        forall|i: int| 0 <= i < cells@.len() && cells@[i] is Some ==> roofs@.contains(#[trigger] cells@[i]->0),
    ensures
        final(s)@ == old(s)@ + roof_rows(cells@, roofs@, w as int, h as int),
{
    let _total = cells.len();
    let ghost s0 = s@;
    let mut y: u16 = 0;
    while y < h
        invariant
            y <= h,
            cells@.len() == w * h,
            cells@.len() <= usize::MAX,
            forall|i: int| 0 <= i < cells@.len() && cells@[i] is Some ==> roofs@.contains(#[trigger] cells@[i]->0),
            s@ == s0 + roof_rows(cells@, roofs@, w as int, y as int),
        decreases h - y,
    {
        let mut row = String::new();
        let mut x: u16 = 0;
        while x < w
            invariant
                x <= w,
                y < h,
                cells@.len() == w * h,
                cells@.len() <= usize::MAX,
                forall|i: int| 0 <= i < cells@.len() && cells@[i] is Some ==> roofs@.contains(#[trigger] cells@[i]->0),
                row@ == roof_row(cells@, roofs@, w as int, y as int, x as int),
            decreases w - x,
        {
            proof {
                lemma_cell_index(w as int, h as int, x as int, y as int);
                assert(y * w <= y * w + x);
            }
            let i = y as usize * w as usize + x as usize;
            let c = match cells[i] {
                Some(v) => palette_char(roof_index(roofs, v)),
                None => ' ',
            };
            push_char(&mut row, c);
            x += 1;
        }
        push(s, "        ");
        let d = debug_str(row.as_str());
        push(s, d.as_str());
        push(s, ",\n");
        proof {
            assert(s@ =~= s0 + roof_rows(cells@, roofs@, w as int, y + 1));
        }
        y += 1;
    }
}

impl Model {
    fn head_string(&self) -> (r: String)
        ensures
            r@ == head_text(self),
    {
        let mut s = owned("// Edited with the prefab-editor tool.\nPrefab(\n    tag: ");
        let tag = debug_str(self.tag.as_str());
        push(&mut s, tag.as_str());
        push(&mut s, ",\n    tier: ");
        push(&mut s, tier_name(self.tier));
        push(&mut s, ",\n    variant: ");
        let variant = debug_str(self.variant.as_str());
        push(&mut s, variant.as_str());
        push(&mut s, ",\n    weight: ");
        let weight = u32_to_decimal(self.weight);
        push(&mut s, weight.as_str());
        push(&mut s, ",\n    size: (");
        let w = u32_to_decimal(self.w as u32);
        push(&mut s, w.as_str());
        push(&mut s, ", ");
        let h = u32_to_decimal(self.h as u32);
        push(&mut s, h.as_str());
        push(&mut s, "),\n    palette: {},\n");
        s
    }

    fn terrain_string(&self) -> (r: String)
        requires
            self.wf(),
        ensures
            r@ == terrain_text(self),
    {
        let tn = collect_names(&self.terrain);
        proof {
            assert forall|i: int| 0 <= i < self.terrain@.len() && self.terrain@[i] is Some implies names_of(
                tn@,
            ).contains(#[trigger] self.terrain@[i]->0@) by {
                lemma_first_names_has(self.terrain@, i);
            }
        }
        let mut s = owned("    tag_palette: {\n");
        append_name_entries(&mut s, &tn);
        push(&mut s, "    },\n    grid: [\n");
        append_name_rows(&mut s, &self.terrain, &tn, self.w, self.h);
        push(&mut s, "    ],\n");
        s
    }

    fn roof_string(&self) -> (r: String)
        requires
            self.wf(),
        ensures
            r@ == roof_text(self),
    {
        let rp = collect_roofs(&self.roof);
        if rp.len() == 0 {
            return String::new();
        }
        proof {
            assert forall|i: int| 0 <= i < self.roof@.len() && self.roof@[i] is Some implies rp@.contains(
                #[trigger] self.roof@[i]->0,
            ) by {
                lemma_first_roofs_has(self.roof@, i);
            }
        }
        let mut s = owned("    roof_palette: {\n");
        append_roof_entries(&mut s, &rp);
        push(&mut s, "    },\n    roof: [\n");
        append_roof_rows(&mut s, &self.roof, &rp, self.w, self.h);
        push(&mut s, "    ],\n");
        s
    }

    fn objects_string(&self) -> (r: String)
        requires
            self.wf(),
        ensures
            r@ == objects_text(self),
    {
        let on = collect_names(&self.objects);
        if on.len() == 0 {
            return String::new();
        }
        proof {
            assert forall|i: int| 0 <= i < self.objects@.len() && self.objects@[i] is Some implies names_of(
                on@,
            ).contains(#[trigger] self.objects@[i]->0@) by {
                lemma_first_names_has(self.objects@, i);
            }
        }
        let mut s = owned("    objects_palette: {\n");
        append_name_entries(&mut s, &on);
        push(&mut s, "    },\n    objects: [\n");
        append_name_rows(&mut s, &self.objects, &on, self.w, self.h);
        push(&mut s, "    ],\n");
        s
    }

    /// The catalog file for this model (see `ron_text`).
    pub fn to_ron(&self) -> (r: String)
        requires
            self.wf(),
        ensures
            r@ == ron_text(self),
    {
        let mut s = self.head_string();
        let terrain = self.terrain_string();
        push(&mut s, terrain.as_str());
        let roof = self.roof_string();
        push(&mut s, roof.as_str());
        let objects = self.objects_string();
        push(&mut s, objects.as_str());
        push(&mut s, ")\n");
        s
    }
}

// ---------------------------------------------------------------------
// Opening a catalog prefab
// ---------------------------------------------------------------------

/// Seed sprite-tag name for a terrain of prefabs written before tag
/// palettes, so they open with sensible cells.
pub open spec fn legacy_name(t: TerrainKind) -> Option<Seq<char>> {
    match t {
        TerrainKind::WoodWall => Some("wood_wall"@),
        TerrainKind::StoneWall | TerrainKind::Solid | TerrainKind::Wall => Some("stone_wall"@),
        TerrainKind::Floor | TerrainKind::CobbleRoad => Some("cobble_floor"@),
        TerrainKind::BareDirt => Some("dirt_floor"@),
        TerrainKind::Grass => Some("grass_floor"@),
        _ => None,
    }
}

/// View of an optional string.
pub open spec fn name_view(o: Option<String>) -> Option<Seq<char>> {
    match o {
        Some(s) => Some(s@),
        None => None,
    }
}

pub fn legacy_tag(t: TerrainKind) -> (r: Option<String>)
    ensures
        name_view(r) == legacy_name(t),
{
    match t {
        TerrainKind::WoodWall => Some(owned("wood_wall")),
        TerrainKind::StoneWall | TerrainKind::Solid | TerrainKind::Wall => Some(owned("stone_wall")),
        TerrainKind::Floor | TerrainKind::CobbleRoad => Some(owned("cobble_floor")),
        TerrainKind::BareDirt => Some(owned("dirt_floor")),
        TerrainKind::Grass => Some(owned("grass_floor")),
        _ => None,
    }
}

/// Terrain tag the editor shows for prefab cell `(x, y)`: the tag palette's
/// name, else the seed name of the legacy palette's terrain.
pub open spec fn opened_terrain(p: &Prefab, x: int, y: int) -> Option<Seq<char>> {
    match palette_name(p.tag_palette@, layer_char(p.grid@, x, y)) {
        Some(n) => Some(n),
        None => match palette_kind(p, x, y) {
            Some(t) => legacy_name(t),
            None => None,
        },
    }
}

proof fn lemma_index_distinct(w: int, x1: int, y1: int, x2: int, y2: int)
    requires
        0 <= x1 < w,
        0 <= x2 < w,
        0 <= y1,
        0 <= y2,
        y1 * w + x1 == y2 * w + x2,
    ensures
        x1 == x2 && y1 == y2,
{
    lemma_fundamental_div_mod_converse(y1 * w + x1, w, y1, x1);
    lemma_fundamental_div_mod_converse(y2 * w + x2, w, y2, x2);
}

impl Model {
    /// The model of catalog prefab `p`, opened under file stem `stem`.
    pub fn from_prefab(stem: String, p: &Prefab) -> (r: Self)
        ensures
            r.wf(),
            r.stem == stem,
            r.tag == p.tag,
            r.tier == p.tier,
            r.variant == p.variant,
            r.weight == p.weight,
            r.w == p.size.0,
            r.h == p.size.1,
            forall|x: int, y: int|
                0 <= x < r.w && 0 <= y < r.h ==> {
                    &&& name_view(#[trigger] at(r.terrain@, r.w as int, x, y)) == opened_terrain(p, x, y)
                    &&& at(r.roof@, r.w as int, x, y) == roof_cell(p, x, y)
                    &&& name_view(at(r.objects@, r.w as int, x, y)) == palette_name(
                        p.objects_palette@,
                        layer_char(p.objects@, x, y),
                    )
                },
    {
        let (w, h) = p.size;
        let mut m = Model::blank(stem, w, h);
        m.tag = p.tag.clone();
        m.tier = p.tier;
        m.variant = p.variant.clone();
        m.weight = p.weight;
        let mut y: u16 = 0;
        while y < h
            invariant
                m.wf(),
                m.w == w && m.h == h,
                w == p.size.0 && h == p.size.1,
                m.stem == stem && m.tag == p.tag && m.tier == p.tier && m.variant == p.variant && m.weight
                    == p.weight,
                y <= h,
                forall|xx: int, yy: int|
                    0 <= xx < w && 0 <= yy < y ==> {
                        &&& name_view(#[trigger] at(m.terrain@, w as int, xx, yy)) == opened_terrain(p, xx, yy)
                        &&& at(m.roof@, w as int, xx, yy) == roof_cell(p, xx, yy)
                        &&& name_view(at(m.objects@, w as int, xx, yy)) == palette_name(
                            p.objects_palette@,
                            layer_char(p.objects@, xx, yy),
                        )
                    },
            decreases h - y,
        {
            let mut x: u16 = 0;
            while x < w
                invariant
                    m.wf(),
                    m.w == w && m.h == h,
                    w == p.size.0 && h == p.size.1,
                    m.stem == stem && m.tag == p.tag && m.tier == p.tier && m.variant == p.variant && m.weight
                        == p.weight,
                    y < h,
                    x <= w,
                    forall|xx: int, yy: int|
                        0 <= xx < w && 0 <= yy < y || (yy == y && 0 <= xx < x) ==> {
                            &&& name_view(#[trigger] at(m.terrain@, w as int, xx, yy)) == opened_terrain(p, xx, yy)
                            &&& at(m.roof@, w as int, xx, yy) == roof_cell(p, xx, yy)
                            &&& name_view(at(m.objects@, w as int, xx, yy)) == palette_name(
                                p.objects_palette@,
                                layer_char(p.objects@, xx, yy),
                            )
                        },
                decreases w - x,
            {
                let i = m.idx(x, y);
                proof {
                    lemma_cell_index(w as int, h as int, x as int, y as int);
                }
                let terrain = match p.tag_palette_name(x, y) {
                    Some(s) => Some(owned(s)),
                    None => match p.palette_cell(x, y) {
                        Some(t) => legacy_tag(t),
                        None => None,
                    },
                };
                let objects = match p.objects_palette_name(x, y) {
                    Some(s) => Some(owned(s)),
                    None => None,
                };
                let ghost t0 = m.terrain@;
                let ghost r0 = m.roof@;
                let ghost o0 = m.objects@;
                m.terrain.set(i, terrain);
                m.roof.set(i, p.roof_at(x, y));
                m.objects.set(i, objects);
                proof {
                    assert forall|xx: int, yy: int|
                        0 <= xx < w && 0 <= yy < y || (yy == y && 0 <= xx < x + 1) implies {
                            &&& name_view(#[trigger] at(m.terrain@, w as int, xx, yy)) == opened_terrain(p, xx, yy)
                            &&& at(m.roof@, w as int, xx, yy) == roof_cell(p, xx, yy)
                            &&& name_view(at(m.objects@, w as int, xx, yy)) == palette_name(
                                p.objects_palette@,
                                layer_char(p.objects@, xx, yy),
                            )
                        } by {
                        if !(xx == x && yy == y) {
                            lemma_cell_index(w as int, h as int, xx, yy);
                            if yy * w + xx == y * w + x {
                                lemma_index_distinct(w as int, xx, yy, x as int, y as int);
                            }
                            assert(at(m.terrain@, w as int, xx, yy) == at(t0, w as int, xx, yy));
                            assert(at(m.roof@, w as int, xx, yy) == at(r0, w as int, xx, yy));
                            assert(at(m.objects@, w as int, xx, yy) == at(o0, w as int, xx, yy));
                        }
                    }
                }
                x = x + 1;
            }
            y = y + 1;
        }
        m
    }
}

} // verus!
