//! The full-screen overmap: which chunk each view cell shows around the
//! player, what glyph and ink it gets (unexplored, a named site's
//! anchor, river, road or biome, the player's flashing `@`, the cursor),
//! and the info line about the chunk under the cursor.

use vstd::prelude::*;

use crate::cornwall::{
    biome_fg, biome_glyph, biome_name, cell_chunk, chunk_for_anchor, first_site_from, on_river_trail, on_road_trail,
    overmap_biome, overmap_info_at, site_fg, site_glyph, Biome, OvermapInfo,
};
use crate::screen::{chunk_glyph_color, connector, pad2, road_at, road_fg};
use crate::text::{decimal, owned, push, push_char, u32_to_decimal};
use crate::world::ChunkCoord;

verus! {

/// Game-seconds the travel estimate allows per chunk crossed.
pub const OVERMAP_AVG_CHUNK_SECS: u32 = 90;

/// Frames the player's `@` stays bright, then dim, in turn.
pub const FLASH_FRAMES: u64 = 30;

/// `?`: an unexplored chunk.
pub const UNKNOWN_GLYPH: u8 = 63;

/// `@`: the player's chunk.
pub const PLAYER_GLYPH: u8 = 64;

/// `+`: the cursor.
pub const CURSOR_GLYPH: u8 = 43;

/// What the overmap knows of chunk `cc`.
pub open spec fn info_spec(cc: ChunkCoord) -> OvermapInfo {
    let c = (cc.cx as int, cc.cy as int);
    let b = overmap_biome(c);
    OvermapInfo {
        biome: b,
        has_river: b != Biome::Sea && on_river_trail(c),
        has_road: b != Biome::Sea && on_road_trail(c),
        named_site: first_site_from(c, 0),
    }
}

/// Glyph and colour of an explored chunk with no site anchor on it: river
/// valley over road, road over biome.
pub open spec fn terrain_glyph(cc: ChunkCoord, info: OvermapInfo) -> (u8, [u8; 3]) {
    if info.has_river {
        (biome_glyph(Biome::RiverValley), biome_fg(Biome::RiverValley))
    } else if info.has_road {
        (
            connector(
                road_at((cc.cx as int, cc.cy - 1)),
                road_at((cc.cx as int, cc.cy + 1)),
                road_at((cc.cx + 1, cc.cy as int)),
                road_at((cc.cx - 1, cc.cy as int)),
            ),
            road_fg(),
        )
    } else {
        (biome_glyph(info.biome), biome_fg(info.biome))
    }
}

/// The colour a view cell is drawn in.
#[derive(Clone, Copy, Debug, PartialEq, Eq)]
pub enum OvermapInk {
    Rgb([u8; 3]),
    /// Unexplored chunks.
    Unknown,
    PlayerBright,
    PlayerDim,
    Cursor,
}

/// One view cell of the overmap.
#[derive(Clone, Copy, Debug, PartialEq, Eq)]
pub struct OvermapCell {
    pub chunk: ChunkCoord,
    pub glyph: u8,
    pub ink: OvermapInk,
}

/// Cell `cc` of the overmap. Unexplored chunks show `?`; a named site's
/// anchor chunk shows the site's glyph; other chunks their terrain. The
/// player's chunk shows `@`, bright or dim; the cursor, off the player's
/// chunk, shows `+`.
pub open spec fn overmap_cell(
    player: ChunkCoord,
    cursor: ChunkCoord,
    discovered: Seq<ChunkCoord>,
    bright: bool,
    cc: ChunkCoord,
) -> OvermapCell {
    let info = info_spec(cc);
    let (g, ink) = if !discovered.contains(cc) {
        (UNKNOWN_GLYPH, OvermapInk::Unknown)
    } else {
        match info.named_site {
            Some(site) => if cell_chunk(site.anchor_cell) == cc {
                (site_glyph(site.kind), OvermapInk::Rgb(site_fg(site.kind)))
            } else {
                (terrain_glyph(cc, info).0, OvermapInk::Rgb(terrain_glyph(cc, info).1))
            },
            None => (terrain_glyph(cc, info).0, OvermapInk::Rgb(terrain_glyph(cc, info).1)),
        }
    };
    if cc == player {
        OvermapCell { chunk: cc, glyph: PLAYER_GLYPH, ink: if bright { OvermapInk::PlayerBright } else { OvermapInk::PlayerDim } }
    } else if cc == cursor {
        OvermapCell { chunk: cc, glyph: CURSOR_GLYPH, ink: OvermapInk::Cursor }
    } else {
        OvermapCell { chunk: cc, glyph: g, ink }
    }
}

/// Chunk under view cell `i` of a `w`-wide, `h`-high view, row by row,
/// with the player's chunk at the view's centre cell `(w / 2, h / 2)`.
pub open spec fn view_chunk(player: ChunkCoord, w: u32, h: u32, i: int) -> ChunkCoord {
    ChunkCoord {
        cx: (player.cx + (i % (w as int) - (w / 2) as int)) as i32,
        cy: (player.cy + (i / (w as int) - (h / 2) as int)) as i32,
    }
}

/// The whole overmap view, row by row. The `@` is bright for the first
/// `FLASH_FRAMES` frames of every `2 * FLASH_FRAMES`.
pub open spec fn overmap_cells(
    player: ChunkCoord,
    cursor: ChunkCoord,
    discovered: Seq<ChunkCoord>,
    frame: u64,
    w: u32,
    h: u32,
) -> Seq<OvermapCell> {
    Seq::new(
        (w * h) as nat,
        |i: int| overmap_cell(player, cursor, discovered, (frame / FLASH_FRAMES) % 2 == 0, view_chunk(player, w, h, i)),
    )
}

/// Every chunk of a `w` by `h` view around `player`, and its neighbours,
/// has `i32` coordinates.
pub open spec fn view_fits(player: ChunkCoord, w: u32, h: u32) -> bool {
    &&& i32::MIN < player.cx - (w / 2) as int - 1
    &&& player.cx + w as int + 1 < i32::MAX
    &&& i32::MIN < player.cy - (h / 2) as int - 1
    &&& player.cy + h as int + 1 < i32::MAX
}

fn contains_chunk(v: &Vec<ChunkCoord>, cc: ChunkCoord) -> (r: bool)
    ensures
        r == v@.contains(cc),
{
    let mut i: usize = 0;
    while i < v.len()
        invariant
            i <= v.len(),
            forall|j: int| 0 <= j < i ==> v@[j] != cc,
        decreases v.len() - i,
    {
        if v[i] == cc {
            return true;
        }
        i += 1;
    }
    false
}

fn cell_at(player: ChunkCoord, cursor: ChunkCoord, discovered: &Vec<ChunkCoord>, bright: bool, cc: ChunkCoord) -> (r:
    OvermapCell)
    requires
        i32::MIN < cc.cx < i32::MAX,
        i32::MIN < cc.cy < i32::MAX,
    ensures
        r == overmap_cell(player, cursor, discovered@, bright, cc),
{
    let (g, ink) = if !contains_chunk(discovered, cc) {
        (UNKNOWN_GLYPH, OvermapInk::Unknown)
    } else {
        let info = overmap_info_at(cc);
        proof {
            assert(info == info_spec(cc));
        }
        let (tg, tfg) = chunk_glyph_color(cc, &info);
        match info.named_site {
            Some(site) => if chunk_for_anchor(&site) == cc {
                (site.kind.overmap_glyph(), OvermapInk::Rgb(site.kind.overmap_fg()))
            } else {
                (tg, OvermapInk::Rgb(tfg))
            },
            None => (tg, OvermapInk::Rgb(tfg)),
        }
    };
    if cc == player {
        OvermapCell { chunk: cc, glyph: PLAYER_GLYPH, ink: if bright { OvermapInk::PlayerBright } else { OvermapInk::PlayerDim } }
    } else if cc == cursor {
        OvermapCell { chunk: cc, glyph: CURSOR_GLYPH, ink: OvermapInk::Cursor }
    } else {
        OvermapCell { chunk: cc, glyph: g, ink }
    }
}

/// The overmap view around `player`: see `overmap_cells`. `discovered`
/// lists the explored chunks.
pub fn overmap_view(
    player: ChunkCoord,
    cursor: ChunkCoord,
    discovered: &Vec<ChunkCoord>,
    frame: u64,
    w: u32,
    h: u32,
) -> (r: Vec<OvermapCell>)
    requires
        0 < w <= i32::MAX,
        h <= i32::MAX,
        view_fits(player, w, h),
    ensures
        r@ == overmap_cells(player, cursor, discovered@, frame, w, h),
{
    let bright = (frame / FLASH_FRAMES) % 2 == 0;
    proof {
        assert(w * h <= 0x7fff_ffff * 0x7fff_ffff) by (nonlinear_arith)
            requires
                w <= 0x7fff_ffff,
                h <= 0x7fff_ffff,
        ;
    }
    let n: u64 = (w as u64) * (h as u64);
    let mut out: Vec<OvermapCell> = Vec::new();
    let mut i: u64 = 0;
    while i < n
        invariant
            0 < w <= i32::MAX,
            h <= i32::MAX,
            n == w * h,
            view_fits(player, w, h),
            bright == ((frame / FLASH_FRAMES) % 2 == 0),
            i <= n,
            out@.len() == i,
            forall|j: int| 0 <= j < i ==> out@[j] == overmap_cell(player, cursor, discovered@, bright, view_chunk(player, w, h, j)),
        decreases n - i,
    {
        let vx = (i % (w as u64)) as i32;
        let vy = (i / (w as u64)) as i32;
        proof {
            assert(i / (w as u64) <= h) by (nonlinear_arith)
                requires
                    i < w * h,
                    0 < w,
            ;
        }
        let cx = player.cx + (vx - (w / 2) as i32);
        let cy = player.cy + (vy - (h / 2) as i32);
        let cc = ChunkCoord { cx, cy };
        let cell = cell_at(player, cursor, discovered, bright, cc);
        out.push(cell);
        i += 1;
    }
    proof {
        assert(out@ =~= overmap_cells(player, cursor, discovered@, frame, w, h));
    }
    out
}

/// Chebyshev distance in chunks between `a` and `b`.
pub open spec fn chunk_distance(a: ChunkCoord, b: ChunkCoord) -> int {
    let dx = if b.cx >= a.cx { b.cx - a.cx } else { a.cx - b.cx };
    let dy = if b.cy >= a.cy { b.cy - a.cy } else { a.cy - b.cy };
    if dx >= dy { dx } else { dy }
}

/// Estimated travel time for `d` chunks, in game-seconds, stopping at
/// `u32::MAX`.
pub open spec fn travel_secs(d: int) -> int {
    let secs = d * OVERMAP_AVG_CHUNK_SECS;
    if secs > u32::MAX { u32::MAX as int } else { secs }
}

/// `~HhMMm` for a time of `secs` game-seconds.
pub open spec fn travel_text(secs: int) -> Seq<char> {
    "~"@ + decimal((secs / 3600) as nat) + "h"@ + pad2(((secs % 3600) / 60) as u8) + "m"@
}

/// Separator between the info line's fields.
pub open spec fn sep() -> Seq<char> {
    seq![' ', '\u{b7}', ' ']
}

/// The overmap's info line for the chunk under the cursor: its biome,
/// then the site's name where it has one, then the travel estimate from
/// the player's chunk, or `(here)` on it when no site is named.
pub open spec fn overmap_info_line(player: ChunkCoord, cursor: ChunkCoord) -> Seq<char> {
    let info = info_spec(cursor);
    let biome = biome_name(info.biome);
    let d = chunk_distance(player, cursor);
    let site: Seq<char> = match info.named_site {
        Some(s) => s.name@,
        None => Seq::empty(),
    };
    if site.len() == 0 {
        if d == 0 {
            biome + sep() + "(here)"@
        } else {
            biome + sep() + travel_text(travel_secs(d))
        }
    } else {
        biome + sep() + site + sep() + travel_text(travel_secs(d))
    }
}

fn push_sep(s: &mut String)
    ensures
        final(s)@ == old(s)@ + sep(),
{
    push_char(s, ' ');
    push_char(s, '\u{b7}');
    push_char(s, ' ');
    proof {
        assert(final(s)@ =~= old(s)@ + sep());
    }
}

fn push_travel(s: &mut String, secs: u32)
    ensures
        final(s)@ == old(s)@ + travel_text(secs as int),
{
    let hours = u32_to_decimal(secs / 3600);
    let mins = (secs % 3600) / 60;
    push_char(s, '~');
    push(s, hours.as_str());
    push_char(s, 'h');
    if mins < 10 {
        push_char(s, '0');
    }
    let md = u32_to_decimal(mins);
    push(s, md.as_str());
    push_char(s, 'm');
    proof {
        reveal_strlit("~");
        reveal_strlit("h");
        reveal_strlit("m");
        let m8 = ((secs as int % 3600) / 60) as u8;
        assert(m8 as nat == mins as nat);
        if mins < 10 {
            assert(pad2(m8) == seq!['0'] + decimal(mins as nat));
        } else {
            assert(pad2(m8) == decimal(mins as nat));
        }
        assert(final(s)@ =~= old(s)@ + travel_text(secs as int));
    }
}

/// The info line for the chunk under the cursor: see `overmap_info_line`.
pub fn overmap_info_text(player: ChunkCoord, cursor: ChunkCoord) -> (r: String)
    requires
        i32::MIN <= cursor.cx - player.cx <= i32::MAX,
        i32::MIN <= cursor.cy - player.cy <= i32::MAX,
    ensures
        r@ == overmap_info_line(player, cursor),
{
    let info = overmap_info_at(cursor);
    proof {
        assert(info == info_spec(cursor));
    }
    let dx: i64 = cursor.cx as i64 - player.cx as i64;
    let dy: i64 = cursor.cy as i64 - player.cy as i64;
    let ax: u64 = if dx >= 0 { dx as u64 } else { (-dx) as u64 };
    let ay: u64 = if dy >= 0 { dy as u64 } else { (-dy) as u64 };
    let d: u64 = if ax >= ay { ax } else { ay };
    assert(d <= 0x1_0000_0000);
    let prod: u64 = d * 90;
    let secs: u32 = if prod > u32::MAX as u64 { u32::MAX } else { prod as u32 };
    let site: &str = match info.named_site {
        Some(s) => s.name,
        None => "",
    };
    let mut line = owned(info.biome.display_name());
    proof {
        reveal_strlit("");
        reveal_strlit("(here)");
        assert(d as int == chunk_distance(player, cursor));
        assert(secs as int == travel_secs(d as int));
        assert(site@ == (match info.named_site {
            Some(s) => s.name@,
            None => Seq::<char>::empty(),
        }));
    }
    push_sep(&mut line);
    if site.unicode_len() == 0 {
        if d == 0 {
            push(&mut line, "(here)");
        } else {
            push_travel(&mut line, secs);
        }
    } else {
        push(&mut line, site);
        push_sep(&mut line);
        push_travel(&mut line, secs);
    }
    line
}

/// Width of the travel banner's text: the view less a cell each side.
pub const BANNER_TEXT_W: usize = 38;

/// Signed decimal digits of `v`.
pub open spec fn signed_decimal(v: int) -> Seq<char> {
    if v < 0 {
        seq!['-'] + decimal((-v) as nat)
    } else {
        decimal(v as nat)
    }
}

/// What the travel banner calls destination `dest`: the name of the site
/// over it, or its chunk coordinates.
pub open spec fn destination_label(dest: ChunkCoord) -> Seq<char> {
    match info_spec(dest).named_site {
        Some(s) => s.name@,
        None => "("@ + signed_decimal(dest.cx as int) + ", "@ + signed_decimal(dest.cy as int) + ")"@,
    }
}

/// The travel banner: the destination and the time left, cut to
/// `BANNER_TEXT_W` characters.
pub open spec fn banner_line(dest: ChunkCoord, remaining: int) -> Seq<char> {
    let full = seq!['\u{2192}', ' '] + "Travelling to "@ + destination_label(dest) + sep() + travel_text(remaining) + sep()
        + "press anything to stop"@;
    if full.len() <= BANNER_TEXT_W {
        full
    } else {
        full.take(BANNER_TEXT_W as int)
    }
}

fn push_signed(s: &mut String, v: i32)
    ensures
        final(s)@ == old(s)@ + signed_decimal(v as int),
{
    let wide = v as i64;
    if wide < 0 {
        push_char(s, '-');
        let d = u32_to_decimal((-wide) as u32);
        push(s, d.as_str());
        proof {
            assert(final(s)@ =~= old(s)@ + signed_decimal(v as int));
        }
    } else {
        let d = u32_to_decimal(wide as u32);
        push(s, d.as_str());
    }
}

/// The first `n` characters of `s`, all of it when shorter.
fn take_chars(s: &str, n: usize) -> (r: String)
    ensures
        r@ == (if s@.len() <= n { s@ } else { s@.take(n as int) }),
{
    let len = s.unicode_len();
    let stop = if len <= n { len } else { n };
    let mut out = String::new();
    let mut i: usize = 0;
    while i < stop
        invariant
            len == s@.len(),
            stop <= len,
            i <= stop,
            out@ == s@.take(i as int),
        decreases stop - i,
    {
        push_char(&mut out, s.get_char(i));
        proof {
            assert(s@.take(i + 1) =~= s@.take(i as int).push(s@[i as int]));
        }
        i += 1;
    }
    proof {
        if len <= n {
            assert(s@.take(len as int) =~= s@);
        }
    }
    out
}

/// The travel banner for a trip to `dest` with `remaining` game-seconds
/// left: see `banner_line`.
pub fn travel_banner(dest: ChunkCoord, remaining: u32) -> (r: String)
    ensures
        r@ == banner_line(dest, remaining as int),
{
    let info = overmap_info_at(dest);
    proof {
        assert(info == info_spec(dest));
    }
    let mut full = String::new();
    push_char(&mut full, '\u{2192}');
    push_char(&mut full, ' ');
    push(&mut full, "Travelling to ");
    match info.named_site {
        Some(site) => push(&mut full, site.name),
        None => {
            push_char(&mut full, '(');
            push_signed(&mut full, dest.cx);
            push(&mut full, ", ");
            push_signed(&mut full, dest.cy);
            push_char(&mut full, ')');
            proof {
                reveal_strlit("(");
                reveal_strlit(")");
            }
        },
    }
    push_sep(&mut full);
    push_travel(&mut full, remaining);
    push_sep(&mut full);
    push(&mut full, "press anything to stop");
    proof {
        assert(full@ =~= seq!['\u{2192}', ' '] + "Travelling to "@ + destination_label(dest) + sep() + travel_text(
            remaining as int,
        ) + sep() + "press anything to stop"@);
    }
    take_chars(full.as_str(), BANNER_TEXT_W)
}

} // verus!
