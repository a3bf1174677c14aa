use osm_tile_downloader::{Corners, Tile, TileRange, Tiles};

fn collect(tiles: &mut Tiles) -> Vec<Tile> {
    let mut all = Vec::new();
    while let Some(tile) = tiles.next_tile() {
        all.push(tile);
    }
    all
}

#[test]
fn range_orders_each_axis_on_its_own() {
    let range = TileRange::from_corners(5, Corners { ax: 9, ay: 2, bx: 7, by: 4 });
    assert_eq!(range.zoom(), 5);
    assert_eq!(range.first(), Tile::new(7, 2, 5));
    assert_eq!(range.last(), Tile::new(9, 4, 5));
    assert_eq!(range.tile_count(), Some(9));
}

#[test]
fn range_is_the_same_whichever_corner_comes_first() {
    let one = TileRange::from_corners(3, Corners { ax: 1, ay: 6, bx: 4, by: 2 });
    let other = TileRange::from_corners(3, Corners { ax: 4, ay: 2, bx: 1, by: 6 });
    assert_eq!(one.first(), other.first());
    assert_eq!(one.last(), other.last());
    assert_eq!(one.tile_count(), Some(20));
    assert_eq!(other.tile_count(), Some(20));
}

#[test]
fn range_of_one_tile() {
    let range = TileRange::from_corners(1, Corners { ax: 1, ay: 0, bx: 1, by: 0 });
    assert_eq!(range.tile_count(), Some(1));
    assert!(range.contains(&Tile::new(1, 0, 1)));
    assert!(!range.contains(&Tile::new(1, 0, 2)));
    assert!(!range.contains(&Tile::new(0, 0, 1)));
    assert!(!range.contains(&Tile::new(1, 1, 1)));
}

#[test]
fn range_count_that_does_not_fit() {
    let whole = TileRange::from_corners(
        64,
        Corners { ax: 0, ay: 0, bx: usize::MAX, by: usize::MAX },
    );
    assert_eq!(whole.tile_count(), None);
    let column = TileRange::from_corners(64, Corners { ax: 3, ay: 0, bx: 3, by: usize::MAX });
    assert_eq!(column.tile_count(), None);
    let nearly = TileRange::from_corners(64, Corners { ax: 3, ay: 1, bx: 3, by: usize::MAX });
    assert_eq!(nearly.tile_count(), Some(usize::MAX));
}

#[test]
fn tiles_come_by_zoom_then_column_then_row() {
    let corners = vec![
        Corners { ax: 1, ay: 1, bx: 0, by: 0 },
        Corners { ax: 2, ay: 3, bx: 3, by: 1 },
    ];
    let mut tiles = Tiles::new(1, 2, &corners);
    assert_eq!(tiles.tile_count(), Some(10));
    let expected = vec![
        Tile::new(0, 0, 1),
        Tile::new(0, 1, 1),
        Tile::new(1, 0, 1),
        Tile::new(1, 1, 1),
        Tile::new(2, 1, 2),
        Tile::new(2, 2, 2),
        Tile::new(2, 3, 2),
        Tile::new(3, 1, 2),
        Tile::new(3, 2, 2),
        Tile::new(3, 3, 2),
    ];
    assert_eq!(collect(&mut tiles), expected);
    assert_eq!(tiles.next_tile(), None);
    assert_eq!(tiles.next_tile(), None);
}

#[test]
fn tiles_are_strictly_ascending() {
    let corners = vec![
        Corners { ax: 5, ay: 9, bx: 3, by: 7 },
        Corners { ax: 6, ay: 14, bx: 11, by: 19 },
        Corners { ax: 12, ay: 29, bx: 23, by: 39 },
    ];
    let mut tiles = Tiles::new(4, 6, &corners);
    let all = collect(&mut tiles);
    assert_eq!(all.len(), 3 * 3 + 6 * 6 + 12 * 11);
    for pair in all.windows(2) {
        let a = (pair[0].z, pair[0].x, pair[0].y);
        let b = (pair[1].z, pair[1].x, pair[1].y);
        assert!(a < b);
    }
}

#[test]
fn count_is_the_sum_of_columns_times_rows() {
    let corners = vec![
        Corners { ax: 0, ay: 0, bx: 2, by: 3 },
        Corners { ax: 10, ay: 10, bx: 10, by: 10 },
        Corners { ax: 7, ay: 1, bx: 1, by: 2 },
    ];
    let mut tiles = Tiles::new(3, 5, &corners);
    assert_eq!(tiles.tile_count(), Some(3 * 4 + 1 + 7 * 2));
    assert_eq!(collect(&mut tiles).len(), 27);
}

#[test]
fn count_of_all_levels_that_does_not_fit() {
    let corners = vec![
        Corners { ax: 0, ay: 1, bx: 0, by: usize::MAX },
        Corners { ax: 0, ay: 0, bx: 0, by: 0 },
    ];
    let tiles = Tiles::new(1, 2, &corners);
    assert_eq!(tiles.tile_count(), None);
    let tiles = Tiles::new(1, 1, &corners[..1].to_vec());
    assert_eq!(tiles.tile_count(), Some(usize::MAX));
}

#[test]
fn enumerating_twice_gives_the_same_tiles() {
    let corners = vec![
        Corners { ax: 2, ay: 5, bx: 4, by: 3 },
        Corners { ax: 4, ay: 10, bx: 9, by: 7 },
    ];
    let first = collect(&mut Tiles::new(3, 4, &corners));
    let second = collect(&mut Tiles::new(3, 4, &corners));
    assert_eq!(first.len(), 9 + 24);
    assert_eq!(first, second);
}

#[test]
fn rewind_starts_over() {
    let corners = vec![Corners { ax: 2, ay: 5, bx: 4, by: 3 }];
    let mut tiles = Tiles::new(9, 9, &corners);
    let first = collect(&mut tiles);
    assert_eq!(tiles.next_tile(), None);
    tiles.rewind();
    let second = collect(&mut tiles);
    assert_eq!(first, second);
    tiles.rewind();
    assert_eq!(tiles.next_tile(), Some(Tile::new(2, 3, 9)));
    assert_eq!(tiles.next_tile(), Some(Tile::new(2, 4, 9)));
    tiles.rewind();
    assert_eq!(tiles.next_tile(), Some(Tile::new(2, 3, 9)));
}

#[test]
fn count_does_not_move_the_enumeration() {
    let corners = vec![Corners { ax: 0, ay: 0, bx: 1, by: 1 }];
    let mut tiles = Tiles::new(1, 1, &corners);
    assert_eq!(tiles.next_tile(), Some(Tile::new(0, 0, 1)));
    assert_eq!(tiles.tile_count(), Some(4));
    assert_eq!(tiles.next_tile(), Some(Tile::new(0, 1, 1)));
}

#[test]
fn highest_zoom_level() {
    let corners = vec![
        Corners { ax: 0, ay: 0, bx: 0, by: 0 },
        Corners { ax: 1, ay: 1, bx: 1, by: 1 },
    ];
    let mut tiles = Tiles::new(254, 255, &corners);
    assert_eq!(collect(&mut tiles), vec![Tile::new(0, 0, 254), Tile::new(1, 1, 255)]);
}

// The corner tiles below were worked out by hand from the slippy-map formula
// and written down; nothing here computes a projection.

#[test]
fn aachen_at_zoom_ten() {
    // North 50.811, south 50.7492, east 6.1649, west 6.031: at zoom 10 both
    // corners lie in tile (529, 343).
    let corners = vec![Corners { ax: 529, ay: 343, bx: 529, by: 343 }];
    let mut tiles = Tiles::new(10, 10, &corners);
    let count = tiles.tile_count().unwrap();
    assert!(count >= 1);
    let all = collect(&mut tiles);
    assert_eq!(all.len(), count);
    assert_eq!(all, vec![Tile::new(529, 343, 10)]);
    for tile in all {
        assert_eq!(tile.z, 10);
        assert!(tile.x < 1024);
        assert!(tile.y < 1024);
    }
}

#[test]
fn usa_over_several_zoom_levels() {
    // North 49.4325, south 23.8991, east -65.7421, west -125.3321: the
    // north-west and south-east corner tiles at zoom 1 to 6.
    let corners = vec![
        Corners { ax: 0, ay: 0, bx: 0, by: 0 },
        Corners { ax: 0, ay: 1, bx: 1, by: 1 },
        Corners { ax: 1, ay: 2, bx: 2, by: 3 },
        Corners { ax: 2, ay: 5, bx: 5, by: 6 },
        Corners { ax: 4, ay: 10, bx: 10, by: 13 },
        Corners { ax: 9, ay: 21, bx: 20, by: 27 },
    ];
    let mut tiles = Tiles::new(1, 6, &corners);
    let count = tiles.tile_count().unwrap();
    assert_eq!(count, 1 + 2 + 4 + 8 + 28 + 84);
    let all = collect(&mut tiles);
    assert_eq!(all.len(), count);
    for tile in &all {
        assert!(tile.x < (1usize << tile.z));
        assert!(tile.y < (1usize << tile.z));
    }
    assert_eq!(all.iter().filter(|t| t.z == 4).count(), 4 * 2);
}

#[test]
fn range_of_the_reference_tile() {
    let range = TileRange::from_corners(
        18,
        Corners { ax: 135470, ay: 87999, bx: 135470, by: 87999 },
    );
    assert_eq!(range.first(), Tile::new(135470, 87999, 18));
    assert_eq!(range.last(), Tile::new(135470, 87999, 18));
    assert_eq!(range.tile_count(), Some(1));
}
