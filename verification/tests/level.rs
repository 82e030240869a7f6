use platformer_core::level::build_level;
use platformer_core::level::Level;
use platformer_core::level::LevelError;
use platformer_core::level::Tri;

fn grid(rows: &[&str]) -> Vec<Vec<char>> {
    rows.iter().map(|r| r.chars().collect()).collect()
}

#[test]
fn spawn_is_unique_s_cell_y_flipped() {
    // Text row 0 is the top line; the spawn sits on text row 0, so its
    // grid y is height - 1 - 0 = 1.
    let l: Level = build_level(&grid(&["S ", "##"])).unwrap();
    assert_eq!(l.width, 2);
    assert_eq!(l.height, 2);
    assert_eq!(l.spawn_x, 0);
    assert_eq!(l.spawn_y, 1);
}

#[test]
fn full_blocks_make_two_shared_triangles_each() {
    let l: Level = build_level(&grid(&["S ", "##"])).unwrap();
    // Scan is column-major, bottom to top: cell (0,0) then (1,0).
    // Vertex (x, y) has index x + y * (width + 1) with width 2.
    assert_eq!(
        l.triangles,
        vec![
            Tri { a: 0, b: 1, c: 3 },
            Tri { a: 4, b: 3, c: 1 },
            Tri { a: 1, b: 2, c: 4 },
            Tri { a: 5, b: 4, c: 2 },
        ]
    );
}

#[test]
fn half_blocks_make_one_triangle_each() {
    // Over a one-cell column, vertex 2 is the top-left lattice corner
    // and vertex 3 the top-right: `L` closes its triangle at the left,
    // `R` at the right.
    let l: Level = build_level(&grid(&["S", "L"])).unwrap();
    assert_eq!(l.triangles, vec![Tri { a: 0, b: 1, c: 2 }]);
    let l: Level = build_level(&grid(&["S", "R"])).unwrap();
    assert_eq!(l.triangles, vec![Tri { a: 0, b: 1, c: 3 }]);
}

#[test]
fn short_rows_read_as_blank() {
    // The second text row is shorter than the first; its missing cell
    // counts as blank, so exactly the two full blocks contribute.
    let l: Level = build_level(&grid(&["S#", "#"])).unwrap();
    assert_eq!(l.width, 2);
    assert_eq!(l.triangles.len(), 4);
}

#[test]
fn zero_spawns_is_an_error() {
    assert!(matches!(build_level(&grid(&["##", "##"])), Err(LevelError::NoSpawn)));
}

#[test]
fn empty_grid_is_an_error() {
    assert!(matches!(build_level(&grid(&[])), Err(LevelError::NoSpawn)));
}

#[test]
fn two_spawns_are_an_error() {
    assert!(matches!(build_level(&grid(&["S#", "#S"])), Err(LevelError::MultipleSpawns)));
}

#[test]
fn unknown_character_is_an_error() {
    assert!(matches!(build_level(&grid(&["S#", "#X"])), Err(LevelError::UnknownCell)));
}
