use std::collections::VecDeque;

use holyland::cornwall::{overmap_info_at, Biome};
use holyland::fasttravel::{
    astar_chunks, chunk_center_cell, ChunkSearch, chunk_coord_for_cell, heuristic_cell, heuristic_chunks, plan_path,
    FastTravelQueue, CELL_STEP_CLOCK_SECS,
};
use holyland::world::{ChunkCoord, MOVES_PER_SECOND, MOVE_COST_TILE};

#[test]
fn trivial_same_chunk_path() {
    let from = ChunkCoord { cx: 0, cy: 0 };
    let q = plan_path(from, (20, 15), from).expect("same-chunk path");
    assert_eq!(q.destination, from);
    assert!(q.chunk_path.is_empty());
}

#[test]
fn sea_destination_returns_none() {
    let to = ChunkCoord { cx: 2000, cy: 4000 };
    let from = ChunkCoord { cx: 0, cy: 0 };
    let r = plan_path(from, (20, 15), to);
    assert!(r.is_none(), "Sea destination must not route");
}

#[test]
fn exeter_to_bodmin_routes() {
    let from = ChunkCoord { cx: 0, cy: 0 }; // Exeter
    let to = ChunkCoord { cx: -1_389, cy: 608 }; // Bodmin
    let q = plan_path(from, (20, 15), to).expect("path Exeter to Bodmin");
    assert_eq!(q.destination, to);
    assert!(!q.chunk_path.is_empty(), "chunk_path should have hops");
    let cheb = (to.cx - from.cx).unsigned_abs().max((to.cy - from.cy).unsigned_abs());
    assert!(
        (q.chunk_path.len() as u32) <= cheb * 2,
        "chunk path {} hops should be near Chebyshev {}",
        q.chunk_path.len(),
        cheb
    );
}

#[test]
fn cell_astar_finds_open_path() {
    // The cell-level leg search reads a loaded world's walkability; it is
    // exercised where a world is available.
}

#[test]
fn heuristic_cell_octile_is_admissible() {
    // Diagonal: dx = dy = 10 gives 14 * 10.
    let h = heuristic_cell((0, 0), (10, 10));
    assert_eq!(h, 140);
    // Straight: dx = 10, dy = 0 gives 10 * 10.
    let h2 = heuristic_cell((0, 0), (10, 0));
    assert_eq!(h2, 100);
}

#[test]
fn cell_step_clock_secs_matches_world() {
    assert_eq!(CELL_STEP_CLOCK_SECS, MOVE_COST_TILE / MOVES_PER_SECOND);
}

#[test]
fn heuristic_mixes_diagonal_and_straight() {
    // dx = 3, dy = 7: three diagonal steps then four straight ones.
    assert_eq!(heuristic_cell((5, -2), (2, 5)), 14 * 3 + 10 * 4);
    assert_eq!(heuristic_chunks(ChunkCoord { cx: 0, cy: 0 }, ChunkCoord { cx: -3, cy: 7 }), 700);
    assert_eq!(
        heuristic_chunks(ChunkCoord { cx: i32::MIN, cy: 0 }, ChunkCoord { cx: i32::MAX, cy: 0 }),
        u32::MAX
    );
}

#[test]
fn remaining_estimate_counts_hops_and_leg_cells() {
    let mut chunk_path = VecDeque::new();
    chunk_path.push_back(ChunkCoord { cx: 1, cy: 0 });
    chunk_path.push_back(ChunkCoord { cx: 2, cy: 0 });
    let mut leg_cells = VecDeque::new();
    leg_cells.push_back((21, 15));
    leg_cells.push_back((22, 15));
    leg_cells.push_back((23, 15));
    let q = FastTravelQueue {
        chunk_path,
        leg_cells,
        destination: ChunkCoord { cx: 2, cy: 0 },
        destination_cell: (100, 15),
    };
    assert_eq!(q.remaining_est_secs(), (2 * 36 + 3) * CELL_STEP_CLOCK_SECS);
}

#[test]
fn exeter_to_bodmin_route_is_walkable() {
    let from = ChunkCoord { cx: 0, cy: 0 };
    let to = ChunkCoord { cx: -1_389, cy: 608 };
    let q = plan_path(from, (20, 15), to).expect("path Exeter to Bodmin");
    assert_eq!(q.destination_cell, chunk_center_cell(to));
    assert!(q.leg_cells.is_empty());
    let mut prev = from;
    for c in q.chunk_path.iter() {
        assert!((c.cx - prev.cx).abs() <= 1 && (c.cy - prev.cy).abs() <= 1);
        assert!(*c != prev);
        assert_ne!(overmap_info_at(*c).biome, Biome::Sea);
        prev = *c;
    }
    assert_eq!(prev, to);
}

#[test]
fn short_hop_to_neighbouring_chunk() {
    let from = ChunkCoord { cx: 0, cy: 0 };
    let to = ChunkCoord { cx: 1, cy: 1 };
    let q = plan_path(from, (20, 15), to).expect("neighbour path");
    assert_eq!(q.chunk_path.len(), 1);
    assert_eq!(q.chunk_path[0], to);
    assert_eq!(chunk_coord_for_cell((60, 45)), to);
    assert_eq!(chunk_coord_for_cell((-1, -1)), ChunkCoord { cx: -1, cy: -1 });
}

#[test]
fn chunk_search_outcomes() {
    let exeter = ChunkCoord { cx: 0, cy: 0 };
    let offshore = ChunkCoord { cx: -2_000, cy: 4_000 };
    assert!(matches!(astar_chunks(exeter, offshore), ChunkSearch::SeaDestination));
    // Every neighbour of a far-offshore chunk is sea: nothing is reachable.
    assert!(matches!(astar_chunks(offshore, exeter), ChunkSearch::Unreachable));
    match astar_chunks(exeter, exeter) {
        ChunkSearch::Found(path) => assert_eq!(path, vec![exeter]),
        _ => panic!("a chunk routes to itself"),
    }
    match astar_chunks(exeter, ChunkCoord { cx: -3, cy: 2 }) {
        ChunkSearch::Found(path) => {
            assert_eq!(path[0], exeter);
            assert_eq!(*path.last().unwrap(), ChunkCoord { cx: -3, cy: 2 });
            assert!(path.len() >= 4 && path.len() <= 8);
        }
        _ => panic!("a short route exists"),
    }
}
