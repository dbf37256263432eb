//! What the game screen shows, decided apart from drawing it: which need
//! ended the run, the info hub's tabs, where panels sit on the 40 x 30
//! view, how the previous frame's cells scroll with the camera, which
//! grass and tree cells get decoration, and the glyph and colour of a
//! chunk on the overmap.

use vstd::arithmetic::div_mod::lemma_fundamental_div_mod_converse;
use vstd::prelude::*;

use crate::cornwall::{
    biome_fg, biome_glyph, on_road_trail, overmap_biome, overmap_info_at, Biome, OvermapInfo,
};
use crate::calendar::{
    date_of, days_before_month, lemma_month_of_day, month_index, month_label, month_of_day, season_label, season_of,
    season_of_doy, spec_day_of_year, Month, Season,
};
use crate::needs::Needs;
use crate::text::{decimal, digit_char};
use crate::world::ChunkCoord;

verus! {

/// Width of the world view, in cells.
pub const WORLD_W: u32 = 40;

/// Height of the world view, in cells.
pub const WORLD_H: u32 = 30;

// ---------------------------------------------------------------------
// Death
// ---------------------------------------------------------------------

/// What ended the run.
#[derive(Clone, Copy, Debug, PartialEq, Eq, Structural)]
pub enum DeathCause {
    Thirst,
    Hunger,
    Cold,
    Exhaustion,
    Combat,
}

/// The need that killed, checked thirst, hunger, warmth, then sleep;
/// none while every meter is above 0.
pub open spec fn needs_death(n: Needs) -> Option<DeathCause> {
    if n.thirst == 0 {
        Some(DeathCause::Thirst)
    } else if n.hunger == 0 {
        Some(DeathCause::Hunger)
    } else if n.warmth == 0 {
        Some(DeathCause::Cold)
    } else if n.sleep == 0 {
        Some(DeathCause::Exhaustion)
    } else {
        None
    }
}

/// The line the death screen shows for each cause.
pub open spec fn epitaph_text(c: DeathCause) -> Seq<char> {
    match c {
        DeathCause::Thirst => "You died of thirst."@,
        DeathCause::Hunger => "You died of starvation."@,
        DeathCause::Cold => "You froze to death."@,
        DeathCause::Exhaustion => "You died of exhaustion."@,
        DeathCause::Combat => "Slain by a bandit."@,
    }
}

impl DeathCause {
    /// The first spent meter, in the order thirst, hunger, warmth, sleep.
    pub fn from_needs(n: &Needs) -> (r: Option<DeathCause>)
        ensures
            r == needs_death(*n),
    {
        if n.thirst == 0 {
            Some(DeathCause::Thirst)
        } else if n.hunger == 0 {
            Some(DeathCause::Hunger)
        } else if n.warmth == 0 {
            Some(DeathCause::Cold)
        } else if n.sleep == 0 {
            Some(DeathCause::Exhaustion)
        } else {
            None
        }
    }

    /// The death screen's line for this cause.
    pub fn epitaph(self) -> (r: &'static str)
        ensures
            r@ == epitaph_text(self),
    {
        match self {
            DeathCause::Thirst => "You died of thirst.",
            DeathCause::Hunger => "You died of starvation.",
            DeathCause::Cold => "You froze to death.",
            DeathCause::Exhaustion => "You died of exhaustion.",
            DeathCause::Combat => "Slain by a bandit.",
        }
    }
}

// ---------------------------------------------------------------------
// Info hub tabs
// ---------------------------------------------------------------------

/// Tabs of the info hub, in display order.
#[derive(Clone, Copy, Debug, PartialEq, Eq, Structural)]
pub enum InfoTab {
    Inventory,
    Crafting,
    Skills,
}

/// Display position of tab `t`.
pub open spec fn tab_index(t: InfoTab) -> int {
    match t {
        InfoTab::Inventory => 0,
        InfoTab::Crafting => 1,
        InfoTab::Skills => 2,
    }
}

/// The tab at display position `i` (0 to 2).
pub open spec fn tab_at(i: int) -> InfoTab {
    if i == 0 {
        InfoTab::Inventory
    } else if i == 1 {
        InfoTab::Crafting
    } else {
        InfoTab::Skills
    }
}

/// The tab after `t`, wrapping from the last to the first.
pub open spec fn tab_next(t: InfoTab) -> InfoTab {
    tab_at((tab_index(t) + 1) % 3)
}

/// The tab before `t`, wrapping from the first to the last.
pub open spec fn tab_prev(t: InfoTab) -> InfoTab {
    tab_at((tab_index(t) + 2) % 3)
}

impl InfoTab {
    pub fn label(self) -> (r: &'static str)
        ensures
            r@ == (match self {
                InfoTab::Inventory => "Inventory"@,
                InfoTab::Crafting => "Crafting"@,
                InfoTab::Skills => "Skills"@,
            }),
    {
        match self {
            InfoTab::Inventory => "Inventory",
            InfoTab::Crafting => "Crafting",
            InfoTab::Skills => "Skills",
        }
    }

    pub fn index(self) -> (r: usize)
        ensures
            r == tab_index(self),
    {
        match self {
            InfoTab::Inventory => 0,
            InfoTab::Crafting => 1,
            InfoTab::Skills => 2,
        }
    }

    pub fn next(self) -> (r: Self)
        ensures
            r == tab_next(self),
    {
        match self {
            InfoTab::Inventory => InfoTab::Crafting,
            InfoTab::Crafting => InfoTab::Skills,
            InfoTab::Skills => InfoTab::Inventory,
        }
    }

    pub fn prev(self) -> (r: Self)
        ensures
            r == tab_prev(self),
    {
        match self {
            InfoTab::Inventory => InfoTab::Skills,
            InfoTab::Crafting => InfoTab::Inventory,
            InfoTab::Skills => InfoTab::Crafting,
        }
    }
}

/// Stepping to the next tab and back again, in either order, returns to
/// the same tab, and three steps forward go all the way round.
pub proof fn law_info_tabs_cycle(t: InfoTab)
    ensures
        tab_prev(tab_next(t)) == t,
        tab_next(tab_prev(t)) == t,
        tab_next(tab_next(tab_next(t))) == t,
        tab_at(tab_index(t)) == t,
{
}

// ---------------------------------------------------------------------
// Panel layout
// ---------------------------------------------------------------------

/// Half of `n`, rounded toward zero, as `i32` division does.
pub open spec fn half_toward_zero(n: int) -> int {
    if n >= 0 {
        n / 2
    } else {
        -((-n) / 2)
    }
}

/// A bordered window on the world view: its top-left cell and size.
#[derive(Clone, Copy, Debug, PartialEq, Eq, Structural)]
pub struct PanelLayout {
    pub x: i32,
    pub y: i32,
    pub w: i32,
    pub h: i32,
}

impl PanelLayout {
    pub fn anchored(x: i32, y: i32, w: i32, h: i32) -> (r: Self)
        ensures
            r == (PanelLayout { x, y, w, h }),
    {
        PanelLayout { x, y, w, h }
    }

    /// A panel of `w` by `h` cells centred on the view.
    pub fn centered(w: i32, h: i32) -> (r: Self)
        requires
            40 - w <= i32::MAX,
            30 - h <= i32::MAX,
        ensures
            r.x == half_toward_zero(40 - w),
            r.y == half_toward_zero(30 - h),
            r.w == w,
            r.h == h,
    {
        PanelLayout { x: (40 - w) / 2, y: (30 - h) / 2, w, h }
    }

    /// A panel of `w` by `h` cells centred across the view, its top at row
    /// `y`.
    pub fn centered_x_at(y: i32, w: i32, h: i32) -> (r: Self)
        requires
            40 - w <= i32::MAX,
        ensures
            r.x == half_toward_zero(40 - w),
            r.y == y,
            r.w == w,
            r.h == h,
    {
        PanelLayout { x: (40 - w) / 2, y, w, h }
    }

    /// Left column of the panel's content, inside the border.
    pub fn inner_x(&self) -> (r: i32)
        requires
            self.x + 2 <= i32::MAX,
        ensures
            r == self.x + 2,
    {
        self.x + 2
    }

    /// Right column of the panel's content, inside the border.
    pub fn inner_right(&self) -> (r: i32)
        requires
            i32::MIN <= self.x + self.w - 2 <= i32::MAX,
            i32::MIN <= self.x + self.w <= i32::MAX,
        ensures
            r == self.x + self.w - 2,
    {
        self.x + self.w - 2
    }

    /// Row of the panel's title.
    pub fn title_y(&self) -> (r: i32)
        requires
            self.y + 1 <= i32::MAX,
        ensures
            r == self.y + 1,
    {
        self.y + 1
    }

    /// First row of the body, one blank row below the title.
    pub fn first_row_y(&self) -> (r: i32)
        requires
            self.y + 3 <= i32::MAX,
        ensures
            r == self.y + 3,
    {
        self.y + 3
    }

    /// Row of the panel's footer, inside the bottom border.
    pub fn footer_y(&self) -> (r: i32)
        requires
            i32::MIN <= self.y + self.h - 2 <= i32::MAX,
            i32::MIN <= self.y + self.h <= i32::MAX,
        ensures
            r == self.y + self.h - 2,
    {
        self.y + self.h - 2
    }
}

// ---------------------------------------------------------------------
// Cell decoration
// ---------------------------------------------------------------------

/// Which tree glyph variant a tree cell shows, hashed from its position
/// and the world seed (the caller reduces it modulo its variant count).
pub open spec fn tree_variant_spec(x: i32, y: i32, seed: u64) -> usize {
    let h = (x as i64).wrapping_mul(467_213).wrapping_add((y as i64).wrapping_mul(2_654_435_761)).wrapping_add(
        seed as i64,
    );
    let mixed = (h as u64).wrapping_mul(0x9E37_79B9_7F4A_7C15);
    (mixed >> 28u64) as usize
}

pub fn tree_variant_index(x: i32, y: i32, seed: u64) -> (r: usize)
    ensures
        r == tree_variant_spec(x, y, seed),
{
    let h = (x as i64).wrapping_mul(467_213).wrapping_add((y as i64).wrapping_mul(2_654_435_761)).wrapping_add(
        seed as i64,
    );
    let mixed = (h as u64).wrapping_mul(0x9E37_79B9_7F4A_7C15);
    (mixed >> 28u64) as usize
}

/// Whether a grass cell shows a tuft: about a quarter of cells, fixed by
/// position and world seed.
pub open spec fn grass_dot_spec(x: i32, y: i32, seed: u64) -> bool {
    let h = (x as i64).wrapping_mul(73_856_093).wrapping_add((y as i64).wrapping_mul(19_349_663)).wrapping_add(
        seed as i64,
    );
    let mixed = (h as u64).wrapping_mul(2_654_435_761);
    (mixed >> 24u64) % 100 < 25
}

pub fn grass_dot_visible(x: i32, y: i32, seed: u64) -> (r: bool)
    ensures
        r == grass_dot_spec(x, y, seed),
{
    let h = (x as i64).wrapping_mul(73_856_093).wrapping_add((y as i64).wrapping_mul(19_349_663)).wrapping_add(
        seed as i64,
    );
    let mixed = (h as u64).wrapping_mul(2_654_435_761);
    (mixed >> 24u64) % 100 < 25
}

// ---------------------------------------------------------------------
// Overmap glyphs
// ---------------------------------------------------------------------

/// Chunk `c` carries a road on the overmap.
pub open spec fn road_at(c: (int, int)) -> bool {
    overmap_biome(c) != Biome::Sea && on_road_trail(c)
}

/// CP437 box-drawing connector for a road chunk whose neighbours to the
/// north, south, east and west do or do not carry road; a lone or
/// dead-end road draws as a horizontal run.
pub open spec fn connector(n: bool, s: bool, e: bool, w: bool) -> u8 {
    if n && s && e && w {
        0xC5
    } else if n && s && e && !w {
        0xC3
    } else if n && s && !e && w {
        0xB4
    } else if n && !s && e && w {
        0xC1
    } else if !n && s && e && w {
        0xC2
    } else if n && s && !e && !w {
        0xB3
    } else if !n && !s && e && w {
        0xC4
    } else if n && !s && e && !w {
        0xC0
    } else if n && !s && !e && w {
        0xD9
    } else if !n && s && e && !w {
        0xDA
    } else if !n && s && !e && w {
        0xBF
    } else {
        0xC4
    }
}

/// Road connector glyph of chunk `cc`, from which of its four neighbours
/// carry road.
pub fn road_connector_glyph(cc: ChunkCoord) -> (r: u8)
    requires
        i32::MIN < cc.cx < i32::MAX,
        i32::MIN < cc.cy < i32::MAX,
    ensures
        r == connector(
            road_at((cc.cx as int, cc.cy - 1)),
            road_at((cc.cx as int, cc.cy + 1)),
            road_at((cc.cx + 1, cc.cy as int)),
            road_at((cc.cx - 1, cc.cy as int)),
        ),
{
    let n = overmap_info_at(ChunkCoord { cx: cc.cx, cy: cc.cy - 1 }).has_road;
    let s = overmap_info_at(ChunkCoord { cx: cc.cx, cy: cc.cy + 1 }).has_road;
    let e = overmap_info_at(ChunkCoord { cx: cc.cx + 1, cy: cc.cy }).has_road;
    let w = overmap_info_at(ChunkCoord { cx: cc.cx - 1, cy: cc.cy }).has_road;
    match (n, s, e, w) {
        (true, true, true, true) => 0xC5,
        (true, true, true, false) => 0xC3,
        (true, true, false, true) => 0xB4,
        (true, false, true, true) => 0xC1,
        (false, true, true, true) => 0xC2,
        (true, true, false, false) => 0xB3,
        (false, false, true, true) => 0xC4,
        (true, false, true, false) => 0xC0,
        (true, false, false, true) => 0xD9,
        (false, true, true, false) => 0xDA,
        (false, true, false, true) => 0xBF,
        _ => 0xC4,
    }
}

/// Beaten-earth colour of roads on the overmap.
pub open spec fn road_fg() -> [u8; 3] {
    [200, 175, 110]
}

/// Overmap glyph and foreground colour of chunk `cc` whose overmap facts
/// are `info`: a river shows as river valley, else a road as its
/// connector, else the biome's own glyph and colour.
pub fn chunk_glyph_color(cc: ChunkCoord, info: &OvermapInfo) -> (r: (u8, [u8; 3]))
    requires
        i32::MIN < cc.cx < i32::MAX,
        i32::MIN < cc.cy < i32::MAX,
    ensures
        info.has_river ==> r == (biome_glyph(Biome::RiverValley), biome_fg(Biome::RiverValley)),
        !info.has_river && info.has_road ==> r == (
            connector(
                road_at((cc.cx as int, cc.cy - 1)),
                road_at((cc.cx as int, cc.cy + 1)),
                road_at((cc.cx + 1, cc.cy as int)),
                road_at((cc.cx - 1, cc.cy as int)),
            ),
            road_fg(),
        ),
        !info.has_river && !info.has_road ==> r == (biome_glyph(info.biome), biome_fg(info.biome)),
{
    if info.has_river {
        return (Biome::RiverValley.overmap_glyph(), Biome::RiverValley.overmap_fg());
    }
    if info.has_road {
        return (road_connector_glyph(cc), [200, 175, 110]);
    }
    (info.biome.overmap_glyph(), info.biome.overmap_fg())
}

// ---------------------------------------------------------------------
// Scrolling the previous frame
// ---------------------------------------------------------------------

/// Cell `idx` of a `w`-wide, `h`-high view after the camera moved by
/// `(dx, dy)` cells: the old cell at `(vx + dx, vy + dy)`, or nothing
/// where that lies off the old view.
pub open spec fn scrolled<T>(old: Seq<Option<T>>, w: int, h: int, dx: int, dy: int, idx: int) -> Option<T> {
    let sx = idx % w + dx;
    let sy = idx / w + dy;
    if 0 <= sx < w && 0 <= sy < h {
        old[sy * w + sx]
    } else {
        None
    }
}

pub open spec fn iabs(x: int) -> int {
    if x < 0 {
        -x
    } else {
        x
    }
}

proof fn lemma_row_major(vy: int, vx: int, w: int)
    requires
        0 <= vx < w,
        0 <= vy,
    ensures
        (vy * w + vx) % w == vx,
        (vy * w + vx) / w == vy,
{
    lemma_fundamental_div_mod_converse(vy * w + vx, w, vy, vx);
}

/// Moves the previous frame's cells, a `w` by `h` view stored row by
/// row, as the camera scrolls by `(dx_cells, dy_cells)`, so that only
/// newly exposed cells need drawing: each cell takes the old cell that
/// now shows there, and cells with none become `None`. A scroll of a whole
/// view or more clears every cell; entries past `w * h` are kept.
pub fn shift_prev_cells<T: Copy>(prev: &mut Vec<Option<T>>, w: u32, h: u32, dx_cells: i32, dy_cells: i32)
    requires
        old(prev)@.len() >= w * h,
        w * h <= u32::MAX,
        w <= i32::MAX,
        h <= i32::MAX,
    ensures
        final(prev)@.len() == old(prev)@.len(),
        dx_cells == 0 && dy_cells == 0 ==> final(prev)@ == old(prev)@,
        !(dx_cells == 0 && dy_cells == 0) && (iabs(dx_cells as int) >= w || iabs(dy_cells as int) >= h) ==> forall|
            i: int,
        |
            0 <= i < final(prev)@.len() ==> #[trigger] final(prev)@[i] is None,
        !(dx_cells == 0 && dy_cells == 0) && iabs(dx_cells as int) < w && iabs(dy_cells as int) < h ==> {
            &&& forall|i: int|
                0 <= i < w * h ==> #[trigger] final(prev)@[i] == scrolled(
                    old(prev)@,
                    w as int,
                    h as int,
                    dx_cells as int,
                    dy_cells as int,
                    i,
                )
            &&& forall|i: int| w * h <= i < final(prev)@.len() ==> #[trigger] final(prev)@[i] == old(prev)@[i]
        },
{
    if dx_cells == 0 && dy_cells == 0 {
        return;
    }
    let ghost old_cells = prev@;
    let dx = dx_cells as i64;
    let dy = dy_cells as i64;
    let wi = w as i64;
    let hi = h as i64;
    let adx = if dx < 0 {
        -dx
    } else {
        dx
    };
    let ady = if dy < 0 {
        -dy
    } else {
        dy
    };
    if adx >= wi || ady >= hi {
        let mut i: usize = 0;
        while i < prev.len()
            invariant
                i <= prev@.len(),
                prev@.len() == old_cells.len(),
                forall|k: int| 0 <= k < i ==> #[trigger] prev@[k] is None,
            decreases prev@.len() - i,
        {
            prev.set(i, None);
            i = i + 1;
        }
        return;
    }
    let mut fresh: Vec<Option<T>> = Vec::new();
    let mut vy: i64 = 0;
    while vy < hi
        invariant
            prev@ == old_cells,
            old_cells.len() >= w * h,
            w * h <= u32::MAX,
            wi == w,
            hi == h,
            w <= i32::MAX,
            h <= i32::MAX,
            iabs(dx as int) < w,
            iabs(dy as int) < h,
            dx == dx_cells,
            dy == dy_cells,
            0 <= vy <= hi,
            fresh@.len() == vy * w,
            forall|j: int|
                0 <= j < fresh@.len() ==> #[trigger] fresh@[j] == scrolled(
                    old_cells,
                    w as int,
                    h as int,
                    dx as int,
                    dy as int,
                    j,
                ),
        decreases hi - vy,
    {
        let mut vx: i64 = 0;
        while vx < wi
            invariant
                prev@ == old_cells,
                old_cells.len() >= w * h,
                w * h <= u32::MAX,
                wi == w,
                hi == h,
                w <= i32::MAX,
                h <= i32::MAX,
                iabs(dx as int) < w,
                iabs(dy as int) < h,
                dx == dx_cells,
                dy == dy_cells,
                0 <= vy < hi,
                0 <= vx <= wi,
                fresh@.len() == vy * w + vx,
                forall|j: int|
                    0 <= j < fresh@.len() ==> #[trigger] fresh@[j] == scrolled(
                        old_cells,
                        w as int,
                        h as int,
                        dx as int,
                        dy as int,
                        j,
                    ),
            decreases wi - vx,
        {
            let sx = vx + dx;
            let sy = vy + dy;
            proof {
                lemma_row_major(vy as int, vx as int, w as int);
            }
            let v = if 0 <= sx && sx < wi && 0 <= sy && sy < hi {
                proof {
                    assert(0 <= sy * w + sx < w * h) by (nonlinear_arith)
                        requires
                            0 <= sx < w,
                            0 <= sy < h,
                    ;
                }
                prev[(sy * wi + sx) as usize]
            } else {
                None
            };
            fresh.push(v);
            vx = vx + 1;
        }
        proof {
            assert(vy * w + w == (vy + 1) * w) by (nonlinear_arith);
        }
        vy = vy + 1;
    }
    let n = w as usize * h as usize;
    proof {
        assert(vy * w == w * h) by (nonlinear_arith)
            requires
                vy == h,
        ;
    }
    let mut i: usize = 0;
    while i < n
        invariant
            n == w * h,
            fresh@.len() == n,
            n <= old_cells.len(),
            prev@.len() == old_cells.len(),
            i <= n,
            forall|k: int| 0 <= k < i ==> #[trigger] prev@[k] == fresh@[k],
            forall|k: int| i <= k < prev@.len() ==> #[trigger] prev@[k] == old_cells[k],
        decreases n - i,
    {
        prev.set(i, fresh[i]);
        i = i + 1;
    }
}

// ---------------------------------------------------------------------
// Status lines
// ---------------------------------------------------------------------

/// HUD glyph of the thirst meter (a mug).
pub const HUD_GLYPH_THIRST: u8 = 0x14;
/// HUD glyph of the hunger meter (a chicken leg).
pub const HUD_GLYPH_HUNGER: u8 = 0xE0;
/// HUD glyph of the sleep meter (a bed).
pub const HUD_GLYPH_SLEEP: u8 = 0xE9;
/// HUD glyph of the warmth meter (a sun).
pub const HUD_GLYPH_WARMTH: u8 = 0x0F;

/// One drawn cell of the status lines.
#[derive(Clone, Copy, Debug, PartialEq, Eq)]
pub struct HudCell {
    pub glyph: u8,
    pub fg: [u8; 3],
    pub bg: [u8; 3],
}

/// The status lines' colours.
#[derive(Clone, Copy, Debug)]
pub struct HudPalette {
    pub fg: [u8; 3],
    pub bg: [u8; 3],
    /// Colour of a need or vital in danger.
    pub critical: [u8; 3],
}

/// `cells` with `text` written from `(x, y)` rightwards, one character
/// per cell as its low byte; what falls off the view is dropped.
pub open spec fn put_text_spec(
    cells: Seq<Option<HudCell>>,
    x: int,
    y: int,
    text: Seq<char>,
    fg: [u8; 3],
    bg: [u8; 3],
) -> Seq<Option<HudCell>> {
    Seq::new(
        cells.len(),
        |k: int|
            if 0 <= y < WORLD_H && k / (WORLD_W as int) == y && x <= k % (WORLD_W as int) < x + text.len() {
                Some(HudCell { glyph: text[k % (WORLD_W as int) - x] as u8, fg, bg })
            } else {
                cells[k]
            },
    )
}

/// `cells` with glyph `g` at `(x, y)`, if that is on the view.
pub open spec fn put_glyph_spec(
    cells: Seq<Option<HudCell>>,
    x: int,
    y: int,
    g: u8,
    fg: [u8; 3],
    bg: [u8; 3],
) -> Seq<Option<HudCell>> {
    Seq::new(
        cells.len(),
        |k: int|
            if 0 <= y < WORLD_H && k / (WORLD_W as int) == y && k % (WORLD_W as int) == x {
                Some(HudCell { glyph: g, fg, bg })
            } else {
                cells[k]
            },
    )
}

/// A two-digit clock field: zero-padded below 10.
pub open spec fn pad2(v: u8) -> Seq<char> {
    if v < 10 {
        seq!['0'] + decimal(v as nat)
    } else {
        decimal(v as nat)
    }
}

/// "Day N HH:MM day|night".
pub open spec fn clock_text(day: u64, h: u8, m: u8, night: bool) -> Seq<char> {
    "Day "@ + decimal(day as nat) + " "@ + pad2(h) + ":"@ + pad2(m) + " "@ + if night {
        "night"@
    } else {
        "day"@
    }
}

/// "D Mon Season" for a calendar day.
pub open spec fn date_text(calendar_day: u32) -> Seq<char> {
    let doy = spec_day_of_year(calendar_day as int);
    let m = month_of_day(doy);
    decimal((doy - days_before_month(month_index(m))) as nat) + " "@ + month_label(m) + " "@ + season_label(
        season_of_doy(doy),
    )
}

/// A hit-point or stamina value shown as at least 0.
pub open spec fn shown(v: i16) -> nat {
    if v < 0 {
        0
    } else {
        v as nat
    }
}

/// `v` of `max` in whole percent (a `max` below 1 counts as 1).
pub open spec fn percent(v: i16, max: i16) -> int {
    (shown(v) as int * 100) / (if max < 1 {
        1int
    } else {
        max as int
    })
}

/// "HP Hh Tt".
pub open spec fn hp_text(head: (i16, i16), torso: (i16, i16)) -> Seq<char> {
    "HP H"@ + decimal(shown(head.0)) + " T"@ + decimal(shown(torso.0))
}

/// " SP s".
pub open spec fn stamina_text(stamina: (i16, i16)) -> Seq<char> {
    " SP "@ + decimal(shown(stamina.0))
}

/// Colour of the hit-point line by the worse vital.
pub open spec fn hp_colour(pal: HudPalette, head: (i16, i16), torso: (i16, i16)) -> [u8; 3] {
    let hp = percent(head.0, head.1);
    let tp = percent(torso.0, torso.1);
    let worst = if hp < tp {
        hp
    } else {
        tp
    };
    if worst <= 25 {
        pal.critical
    } else if worst <= 50 {
        [230, 200, 90]
    } else {
        pal.fg
    }
}

/// Colour of the stamina readout.
pub open spec fn stamina_colour(pal: HudPalette, stamina: (i16, i16)) -> [u8; 3] {
    let pct = (shown(stamina.0) as int * 100) / (stamina.1 as int);
    if stamina.0 <= 0 {
        pal.critical
    } else if pct <= 15 {
        [220, 80, 80]
    } else if pct <= 35 {
        [230, 200, 90]
    } else if pct >= 85 {
        [120, 200, 110]
    } else {
        pal.fg
    }
}

/// The crippled badge.
pub open spec fn badge_text(arm_out: bool, leg_out: bool) -> Seq<char> {
    if arm_out && leg_out {
        "[no weapon / lame]"@
    } else if arm_out {
        "[no weapon]"@
    } else {
        "[lame]"@
    }
}

/// Some need meter is below 25.
pub open spec fn needs_critical(n: Needs) -> bool {
    n.thirst < 25 || n.hunger < 25 || n.sleep < 25 || n.warmth < 25
}

/// `cells` with one meter (glyph, then its value) at `x` on row 1.
pub open spec fn meter_spec(
    cells: Seq<Option<HudCell>>,
    x: int,
    glyph: u8,
    tint: [u8; 3],
    v: u8,
    digit_fg: [u8; 3],
    bg: [u8; 3],
) -> Seq<Option<HudCell>> {
    put_text_spec(put_glyph_spec(cells, x, 1, glyph, tint, bg), x + 1, 1, decimal(v as nat), digit_fg, bg)
}

/// The four need meters right-aligned on row 1.
pub open spec fn meters_spec(cells: Seq<Option<HudCell>>, pal: HudPalette, n: Needs) -> Seq<Option<HudCell>> {
    let crit = needs_critical(n);
    let digit_fg = if crit {
        pal.critical
    } else {
        pal.fg
    };
    let l1 = decimal(n.thirst as nat).len() as int;
    let l2 = decimal(n.hunger as nat).len() as int;
    let l3 = decimal(n.sleep as nat).len() as int;
    let l4 = decimal(n.warmth as nat).len() as int;
    let total = (1 + l1) + (1 + l2) + (1 + l3) + (1 + l4) + 3;
    let x1 = WORLD_W - total - 1;
    let x2 = x1 + 1 + l1 + 1;
    let x3 = x2 + 1 + l2 + 1;
    let x4 = x3 + 1 + l3 + 1;
    let c1 = meter_spec(cells, x1, HUD_GLYPH_THIRST, if crit { pal.critical } else { [180, 140, 90] }, n.thirst, digit_fg, pal.bg);
    let c2 = meter_spec(c1, x2, HUD_GLYPH_HUNGER, if crit { pal.critical } else { [220, 180, 110] }, n.hunger, digit_fg, pal.bg);
    let c3 = meter_spec(c2, x3, HUD_GLYPH_SLEEP, if crit { pal.critical } else { [240, 240, 240] }, n.sleep, digit_fg, pal.bg);
    meter_spec(c3, x4, HUD_GLYPH_WARMTH, if crit { pal.critical } else { [240, 195, 80] }, n.warmth, digit_fg, pal.bg)
}

/// The status lines over an otherwise empty view: the clock at `(1, 1)`,
/// the date right-aligned on row 2, the need meters right-aligned on
/// row 1, the vital hit points at `(1, 2)` coloured by the worse of head
/// and torso, the stamina after them when there is a stamina pool, and
/// the crippled badge after that.
pub open spec fn hud_spec(
    pal: HudPalette,
    needs: Needs,
    day: u64,
    h: u8,
    m: u8,
    night: bool,
    calendar_day: u32,
    head: (i16, i16),
    torso: (i16, i16),
    stamina: (i16, i16),
    arm_out: bool,
    leg_out: bool,
) -> Seq<Option<HudCell>> {
    let c0 = Seq::new((WORLD_W * WORLD_H) as nat, |k: int| None::<HudCell>);
    let c1 = put_text_spec(c0, 1, 1, clock_text(day, h, m, night), pal.fg, pal.bg);
    let date = date_text(calendar_day);
    let c2 = put_text_spec(c1, WORLD_W - date.len() - 1, 2, date, pal.fg, pal.bg);
    let c3 = meters_spec(c2, pal, needs);
    let hp = hp_text(head, torso);
    let c4 = put_text_spec(c3, 1, 2, hp, hp_colour(pal, head, torso), pal.bg);
    let c5 = if stamina.1 > 0 {
        put_text_spec(c4, 1 + hp.len() as int, 2, stamina_text(stamina), stamina_colour(pal, stamina), pal.bg)
    } else {
        c4
    };
    if arm_out || leg_out {
        put_text_spec(
            c5,
            1 + hp.len() as int + 1 + stamina_text(stamina).len() as int + 1,
            2,
            badge_text(arm_out, leg_out),
            pal.critical,
            pal.bg,
        )
    } else {
        c5
    }
}

fn digit(d: u64) -> (r: char)
    requires
        d < 10,
    ensures
        r == digit_char(d as nat),
{
    if d == 0 {
        '0'
    } else if d == 1 {
        '1'
    } else if d == 2 {
        '2'
    } else if d == 3 {
        '3'
    } else if d == 4 {
        '4'
    } else if d == 5 {
        '5'
    } else if d == 6 {
        '6'
    } else if d == 7 {
        '7'
    } else if d == 8 {
        '8'
    } else {
        '9'
    }
}

spec fn ten_pow(k: nat) -> nat
    decreases k,
{
    if k == 0 {
        1
    } else {
        10 * ten_pow((k - 1) as nat)
    }
}

proof fn lemma_decimal_len_below(n: nat, k: nat)
    requires
        k >= 1,
        n < ten_pow(k),
    ensures
        1 <= decimal(n).len() <= k,
    decreases k,
{
    if n >= 10 {
        assert(k >= 2) by {
            if k == 1 {
                assert(ten_pow(1) == 10 * ten_pow(0));
            }
        }
        assert(n / 10 < ten_pow((k - 1) as nat));
        lemma_decimal_len_below(n / 10, (k - 1) as nat);
    }
}

proof fn lemma_decimal_len(n: nat)
    requires
        n <= u64::MAX,
    ensures
        1 <= decimal(n).len() <= 20,
{
    reveal_with_fuel(ten_pow, 21);
    assert(ten_pow(20) == 100000000000000000000);
    lemma_decimal_len_below(n, 20);
}

/// The decimal digits of `n`.
fn decimal_chars(n: u64) -> (r: Vec<char>)
    ensures
        r@ == decimal(n as nat),
    decreases n,
{
    if n < 10 {
        let mut v: Vec<char> = Vec::new();
        v.push(digit(n));
        proof {
            assert(v@ =~= seq![digit_char(n as nat)]);
        }
        v
    } else {
        let mut v = decimal_chars(n / 10);
        v.push(digit(n % 10));
        v
    }
}

/// The characters of `s`.
fn chars_of(s: &str) -> (r: Vec<char>)
    ensures
        r@ == s@,
{
    let n = s.unicode_len();
    let mut v: Vec<char> = Vec::new();
    let mut i: usize = 0;
    while i < n
        invariant
            n == s@.len(),
            i <= n,
            v@ == s@.take(i as int),
        decreases n - i,
    {
        v.push(s.get_char(i));
        proof {
            assert(s@.take(i + 1) =~= s@.take(i as int).push(s@[i as int]));
        }
        i += 1;
    }
    proof {
        assert(s@.take(n as int) =~= s@);
    }
    v
}

fn append(v: &mut Vec<char>, w: &Vec<char>)
    ensures
        final(v)@ == old(v)@ + w@,
{
    let mut i: usize = 0;
    while i < w.len()
        invariant
            i <= w@.len(),
            v@ == old(v)@ + w@.take(i as int),
        decreases w@.len() - i,
    {
        v.push(w[i]);
        proof {
            assert(old(v)@ + w@.take(i + 1) =~= old(v)@ + w@.take(i as int) + seq![w@[i as int]]);
        }
        i += 1;
    }
    proof {
        assert(w@.take(w@.len() as int) =~= w@);
    }
}

fn put_text(cells: &mut Vec<Option<HudCell>>, x: i64, y: i64, text: &Vec<char>, fg: [u8; 3], bg: [u8; 3])
    requires
        old(cells)@.len() == WORLD_W * WORLD_H,
        -1000 <= x <= 1000,
        text@.len() <= 1000,
    ensures
        final(cells)@ == put_text_spec(old(cells)@, x as int, y as int, text@, fg, bg),
{
    let mut i: usize = 0;
    while i < text.len()
        invariant
            i <= text@.len(),
            text@.len() <= 1000,
            -1000 <= x <= 1000,
            cells@.len() == WORLD_W * WORLD_H,
            cells@ == put_text_spec(old(cells)@, x as int, y as int, text@.take(i as int), fg, bg),
        decreases text@.len() - i,
    {
        let cx = x + i as i64;
        let ghost before = cells@;
        if 0 <= cx && cx < WORLD_W as i64 && 0 <= y && y < WORLD_H as i64 {
            let k = (y * WORLD_W as i64 + cx) as usize;
            let c = text[i];
            cells.set(k, Some(HudCell { glyph: c as u8, fg, bg }));
            proof {
                assert(k as int / (WORLD_W as int) == y) by (nonlinear_arith)
                    requires
                        k == y * 40 + cx,
                        0 <= cx < 40,
                        0 <= y,
                ;
                assert(k as int % (WORLD_W as int) == cx) by (nonlinear_arith)
                    requires
                        k == y * 40 + cx,
                        0 <= cx < 40,
                        0 <= y,
                ;
            }
        }
        proof {
            let nt = text@.take(i + 1);
            assert forall|kk: int| 0 <= kk < cells@.len() implies cells@[kk] == put_text_spec(
                old(cells)@,
                x as int,
                y as int,
                nt,
                fg,
                bg,
            )[kk] by {
                if 0 <= y < WORLD_H && kk / (WORLD_W as int) == y && kk % (WORLD_W as int) == cx {
                    assert(kk == y * 40 + cx) by (nonlinear_arith)
                        requires
                            kk / 40 == y,
                            kk % 40 == cx,
                            0 <= kk,
                    ;
                }
            }
            assert(cells@ =~= put_text_spec(old(cells)@, x as int, y as int, nt, fg, bg));
        }
        i += 1;
    }
    proof {
        assert(text@.take(text@.len() as int) =~= text@);
    }
}

fn put_glyph(cells: &mut Vec<Option<HudCell>>, x: i64, y: i64, g: u8, fg: [u8; 3], bg: [u8; 3])
    requires
        old(cells)@.len() == WORLD_W * WORLD_H,
        -1000 <= x <= 1000,
    ensures
        final(cells)@ == put_glyph_spec(old(cells)@, x as int, y as int, g, fg, bg),
{
    let ghost before = cells@;
    if 0 <= x && x < WORLD_W as i64 && 0 <= y && y < WORLD_H as i64 {
        let k = (y * WORLD_W as i64 + x) as usize;
        cells.set(k, Some(HudCell { glyph: g, fg, bg }));
        proof {
            assert(k as int / 40 == y && k as int % 40 == x) by (nonlinear_arith)
                requires
                    k == y * 40 + x,
                    0 <= x < 40,
                    0 <= y,
            ;
        }
    }
    proof {
        assert forall|kk: int| 0 <= kk < cells@.len() implies cells@[kk] == put_glyph_spec(
            before,
            x as int,
            y as int,
            g,
            fg,
            bg,
        )[kk] by {
            if 0 <= y < WORLD_H && kk / (WORLD_W as int) == y && kk % (WORLD_W as int) == x {
                assert(kk == y * 40 + x) by (nonlinear_arith)
                    requires
                        kk / 40 == y,
                        kk % 40 == x,
                        0 <= kk,
                ;
            }
        }
        assert(cells@ =~= put_glyph_spec(before, x as int, y as int, g, fg, bg));
    }
}

fn pad2_chars(v: u8) -> (r: Vec<char>)
    ensures
        r@ == pad2(v),
{
    let ds = decimal_chars(v as u64);
    if v < 10 {
        let mut r: Vec<char> = Vec::new();
        r.push('0');
        proof {
            assert(r@ =~= seq!['0']);
        }
        append(&mut r, &ds);
        r
    } else {
        ds
    }
}

fn meter(
    cells: &mut Vec<Option<HudCell>>,
    x: i64,
    glyph: u8,
    tint: [u8; 3],
    v: u8,
    digit_fg: [u8; 3],
    bg: [u8; 3],
) -> (next: i64)
    requires
        old(cells)@.len() == WORLD_W * WORLD_H,
        -900 <= x <= 900,
    ensures
        final(cells)@.len() == WORLD_W * WORLD_H,
        final(cells)@ == meter_spec(old(cells)@, x as int, glyph, tint, v, digit_fg, bg),
        next == x + 1 + decimal(v as nat).len() + 1,
{
    put_glyph(cells, x, 1, glyph, tint, bg);
    let ds = decimal_chars(v as u64);
    proof {
        lemma_decimal_len(v as nat);
    }
    put_text(cells, x + 1, 1, &ds, digit_fg, bg);
    x + 1 + ds.len() as i64 + 1
}

fn percent_exec(v: i16, max: i16) -> (r: i32)
    ensures
        r == percent(v, max),
{
    let shown: i32 = if v < 0 {
        0
    } else {
        v as i32
    };
    let den: i32 = if max < 1 {
        1
    } else {
        max as i32
    };
    shown * 100 / den
}

fn clock_chars(day: u64, h: u8, m: u8, night: bool) -> (r: Vec<char>)
    ensures
        r@ == clock_text(day, h, m, night),
        r@.len() <= 100,
{
    proof {
        reveal_strlit("Day ");
        reveal_strlit(" ");
        reveal_strlit(":");
        reveal_strlit("night");
        reveal_strlit("day");
        lemma_decimal_len(day as nat);
        lemma_decimal_len(h as nat);
        lemma_decimal_len(m as nat);
    }
    let mut left = chars_of("Day ");
    append(&mut left, &decimal_chars(day));
    append(&mut left, &chars_of(" "));
    append(&mut left, &pad2_chars(h));
    append(&mut left, &chars_of(":"));
    append(&mut left, &pad2_chars(m));
    append(&mut left, &chars_of(" "));
    append(&mut left, &chars_of(if night { "night" } else { "day" }));
    left
}

fn date_chars(calendar_day: u32) -> (r: Vec<char>)
    ensures
        r@ == date_text(calendar_day),
        r@.len() <= 100,
{
    let (_year, month, dom) = date_of(calendar_day);
    let season = season_of(calendar_day);
    let mut date = decimal_chars(dom as u64);
    append(&mut date, &chars_of(" "));
    append(&mut date, &chars_of(month.short_label()));
    append(&mut date, &chars_of(" "));
    append(&mut date, &chars_of(season.label()));
    proof {
        lemma_month_of_day(month, spec_day_of_year(calendar_day as int));
        lemma_decimal_len(dom as nat);
        reveal_strlit(" ");
        reveal_strlit("Jan");
        reveal_strlit("Feb");
        reveal_strlit("Mar");
        reveal_strlit("Apr");
        reveal_strlit("May");
        reveal_strlit("Jun");
        reveal_strlit("Jul");
        reveal_strlit("Aug");
        reveal_strlit("Sep");
        reveal_strlit("Oct");
        reveal_strlit("Nov");
        reveal_strlit("Dec");
        reveal_strlit("Spring");
        reveal_strlit("Summer");
        reveal_strlit("Autumn");
        reveal_strlit("Winter");
    }
    date
}

fn hp_chars(head: (i16, i16), torso: (i16, i16)) -> (r: Vec<char>)
    ensures
        r@ == hp_text(head, torso),
        r@.len() <= 100,
{
    proof {
        reveal_strlit("HP H");
        reveal_strlit(" T");
        lemma_decimal_len(shown(head.0));
        lemma_decimal_len(shown(torso.0));
    }
    let mut hp_line = chars_of("HP H");
    append(&mut hp_line, &decimal_chars(if head.0 < 0 { 0 } else { head.0 as u64 }));
    append(&mut hp_line, &chars_of(" T"));
    append(&mut hp_line, &decimal_chars(if torso.0 < 0 { 0 } else { torso.0 as u64 }));
    hp_line
}

fn stamina_chars(stamina: (i16, i16)) -> (r: Vec<char>)
    ensures
        r@ == stamina_text(stamina),
        r@.len() <= 100,
{
    proof {
        reveal_strlit(" SP ");
        lemma_decimal_len(shown(stamina.0));
    }
    let mut line = chars_of(" SP ");
    append(&mut line, &decimal_chars(if stamina.0 < 0 { 0 } else { stamina.0 as u64 }));
    line
}

fn badge_chars(arm_out: bool, leg_out: bool) -> (r: Vec<char>)
    ensures
        r@ == badge_text(arm_out, leg_out),
        r@.len() <= 100,
{
    proof {
        reveal_strlit("[no weapon / lame]");
        reveal_strlit("[no weapon]");
        reveal_strlit("[lame]");
    }
    if arm_out && leg_out {
        chars_of("[no weapon / lame]")
    } else if arm_out {
        chars_of("[no weapon]")
    } else {
        chars_of("[lame]")
    }
}

fn hp_colour_exec(pal: HudPalette, head: (i16, i16), torso: (i16, i16)) -> (r: [u8; 3])
    ensures
        r == hp_colour(pal, head, torso),
{
    let head_pct = percent_exec(head.0, head.1);
    let torso_pct = percent_exec(torso.0, torso.1);
    let worst = if head_pct < torso_pct {
        head_pct
    } else {
        torso_pct
    };
    if worst <= 25 {
        pal.critical
    } else if worst <= 50 {
        [230, 200, 90]
    } else {
        pal.fg
    }
}

fn stamina_colour_exec(pal: HudPalette, stamina: (i16, i16)) -> (r: [u8; 3])
    requires
        stamina.1 > 0,
    ensures
        r == stamina_colour(pal, stamina),
{
    let (cur, max) = stamina;
    let shown_cur: i32 = if cur < 0 {
        0
    } else {
        cur as i32
    };
    let pct = shown_cur * 100 / max as i32;
    if cur <= 0 {
        pal.critical
    } else if pct <= 15 {
        [220, 80, 80]
    } else if pct <= 35 {
        [230, 200, 90]
    } else if pct >= 85 {
        [120, 200, 110]
    } else {
        pal.fg
    }
}

fn meters(cells: &mut Vec<Option<HudCell>>, pal: HudPalette, needs: Needs)
    requires
        old(cells)@.len() == WORLD_W * WORLD_H,
    ensures
        final(cells)@ == meters_spec(old(cells)@, pal, needs),
{
    let crit = needs.thirst < 25 || needs.hunger < 25 || needs.sleep < 25 || needs.warmth < 25;
    let digit_fg = if crit {
        pal.critical
    } else {
        pal.fg
    };
    let d1 = decimal_chars(needs.thirst as u64);
    let d2 = decimal_chars(needs.hunger as u64);
    let d3 = decimal_chars(needs.sleep as u64);
    let d4 = decimal_chars(needs.warmth as u64);
    proof {
        lemma_decimal_len(needs.thirst as nat);
        lemma_decimal_len(needs.hunger as nat);
        lemma_decimal_len(needs.sleep as nat);
        lemma_decimal_len(needs.warmth as nat);
    }
    let total = (1 + d1.len() as i64) + (1 + d2.len() as i64) + (1 + d3.len() as i64) + (1 + d4.len() as i64) + 3;
    let x1 = WORLD_W as i64 - total - 1;
    let x2 = meter(cells, x1, HUD_GLYPH_THIRST, if crit { pal.critical } else { [180, 140, 90] }, needs.thirst, digit_fg, pal.bg);
    let x3 = meter(cells, x2, HUD_GLYPH_HUNGER, if crit { pal.critical } else { [220, 180, 110] }, needs.hunger, digit_fg, pal.bg);
    let x4 = meter(cells, x3, HUD_GLYPH_SLEEP, if crit { pal.critical } else { [240, 240, 240] }, needs.sleep, digit_fg, pal.bg);
    let _x5 = meter(cells, x4, HUD_GLYPH_WARMTH, if crit { pal.critical } else { [240, 195, 80] }, needs.warmth, digit_fg, pal.bg);
}

/// The status lines (see `hud_spec`) on a 40 x 30 view: `day`, `h:m`
/// and `night` from the clock, the calendar day, the need meters, head
/// and torso hit points and the stamina pool as (current, max), and
/// whether an arm or a leg is crippled.
pub fn hud_cells(
    pal: HudPalette,
    needs: Needs,
    day: u64,
    h: u8,
    m: u8,
    night: bool,
    calendar_day: u32,
    head: (i16, i16),
    torso: (i16, i16),
    stamina: (i16, i16),
    arm_out: bool,
    leg_out: bool,
) -> (r: Vec<Option<HudCell>>)
    ensures
        r@ == hud_spec(pal, needs, day, h, m, night, calendar_day, head, torso, stamina, arm_out, leg_out),
{
    let mut cells: Vec<Option<HudCell>> = Vec::new();
    while cells.len() < 1200
        invariant
            cells@.len() <= 1200,
            forall|k: int| 0 <= k < cells@.len() ==> cells@[k] is None,
        decreases 1200 - cells@.len(),
    {
        cells.push(None);
    }
    assert(cells@ =~= Seq::new((WORLD_W * WORLD_H) as nat, |k: int| None::<HudCell>));
    let left = clock_chars(day, h, m, night);
    put_text(&mut cells, 1, 1, &left, pal.fg, pal.bg);
    let date = date_chars(calendar_day);
    let dx = WORLD_W as i64 - date.len() as i64 - 1;
    put_text(&mut cells, dx, 2, &date, pal.fg, pal.bg);
    meters(&mut cells, pal, needs);
    let hp_line = hp_chars(head, torso);
    put_text(&mut cells, 1, 2, &hp_line, hp_colour_exec(pal, head, torso), pal.bg);
    let stam_line = stamina_chars(stamina);
    if stamina.1 > 0 {
        put_text(&mut cells, 1 + hp_line.len() as i64, 2, &stam_line, stamina_colour_exec(pal, stamina), pal.bg);
    }
    if arm_out || leg_out {
        let after_x = 1 + hp_line.len() as i64 + 1 + stam_line.len() as i64 + 1;
        let tag = badge_chars(arm_out, leg_out);
        put_text(&mut cells, after_x, 2, &tag, pal.critical, pal.bg);
    }
    cells
}

} // verus!
