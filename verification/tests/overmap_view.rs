use holyland::cornwall::{chunk_for_anchor, overmap_info_at};
use holyland::overmap_view::{overmap_info_text, overmap_view, travel_banner, OvermapInk, CURSOR_GLYPH, PLAYER_GLYPH, UNKNOWN_GLYPH};
use holyland::screen::chunk_glyph_color;
use holyland::world::ChunkCoord;

fn cc(cx: i32, cy: i32) -> ChunkCoord {
    ChunkCoord { cx, cy }
}

#[test]
fn view_centres_the_player_and_marks_the_cursor() {
    let v = overmap_view(cc(10, 20), cc(11, 20), &vec![], 0, 3, 3);
    assert_eq!(v.len(), 9);
    assert_eq!(v[0].chunk, cc(9, 19));
    assert_eq!(v[8].chunk, cc(11, 21));
    assert_eq!((v[4].chunk, v[4].glyph, v[4].ink), (cc(10, 20), PLAYER_GLYPH, OvermapInk::PlayerBright));
    assert_eq!((v[5].glyph, v[5].ink), (CURSOR_GLYPH, OvermapInk::Cursor));
    assert_eq!((v[0].glyph, v[0].ink), (UNKNOWN_GLYPH, OvermapInk::Unknown));
    let dim = overmap_view(cc(10, 20), cc(10, 20), &vec![], 30, 3, 3);
    assert_eq!((dim[4].glyph, dim[4].ink), (PLAYER_GLYPH, OvermapInk::PlayerDim));
    assert_eq!(overmap_view(cc(10, 20), cc(10, 20), &vec![], 60, 3, 3)[4].ink, OvermapInk::PlayerBright);
    // An even width puts the player one right of the middle.
    let wide = overmap_view(cc(0, 0), cc(0, 0), &vec![], 0, 4, 1);
    assert_eq!(wide[2].chunk, cc(0, 0));
}

#[test]
fn explored_chunks_show_their_terrain() {
    let seen = cc(30, 30);
    let v = overmap_view(cc(31, 31), cc(31, 31), &vec![seen], 0, 3, 3);
    let info = overmap_info_at(seen);
    let (g, fg) = match info.named_site {
        Some(site) if chunk_for_anchor(&site) == seen => (site.kind.overmap_glyph(), site.kind.overmap_fg()),
        _ => chunk_glyph_color(seen, &info),
    };
    assert_eq!((v[0].chunk, v[0].glyph, v[0].ink), (seen, g, OvermapInk::Rgb(fg)));
}

#[test]
fn info_line_gives_biome_site_and_travel_time() {
    let here = cc(30, 30);
    let info = overmap_info_at(here);
    let biome = info.biome.display_name();
    match info.named_site {
        Some(s) => assert_eq!(overmap_info_text(here, here), format!("{} \u{b7} {} \u{b7} ~0h00m", biome, s.name)),
        None => assert_eq!(overmap_info_text(here, here), format!("{} \u{b7} (here)", biome)),
    }
    let far = cc(30, 80);
    let far_info = overmap_info_at(far);
    let expected_time = "~1h15m";
    let line = overmap_info_text(here, far);
    match far_info.named_site {
        Some(s) => assert_eq!(line, format!("{} \u{b7} {} \u{b7} {}", far_info.biome.display_name(), s.name, expected_time)),
        None => assert_eq!(line, format!("{} \u{b7} {}", far_info.biome.display_name(), expected_time)),
    }
    let near = cc(33, 31);
    assert!(overmap_info_text(here, near).ends_with("~0h04m"));
}

#[test]
fn travel_banner_names_the_destination_and_time_left() {
    let dest = cc(-3, 7);
    let label = match overmap_info_at(dest).named_site {
        Some(s) => s.name.to_string(),
        None => "(-3, 7)".to_string(),
    };
    let full = format!("\u{2192} Travelling to {} \u{b7} ~1h15m \u{b7} press anything to stop", label);
    let expected: String = full.chars().take(38).collect();
    let banner = travel_banner(dest, 4500);
    assert_eq!(banner, expected);
    assert_eq!(banner.chars().count(), 38);
}
