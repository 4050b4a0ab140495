use apprentice::color::{Color, NamedColor};
use apprentice::level::{get_possible_spawn_points_in_level, get_wall_tile, is_revealed_and_wall, Level, TileType};
use apprentice::map_view::{map_cells, tile_glyph};

fn level(width: i32, height: i32, walls: &[usize]) -> Level {
    let n = (width * height) as usize;
    let mut tiles = vec![TileType::Floor; n];
    for w in walls {
        tiles[*w] = TileType::Wall;
    }
    Level {
        width,
        height,
        depth: 0,
        tiles,
        revealed_tiles: vec![true; n],
        visible_tiles: vec![false; n],
        blocked: vec![false; n],
        opaque: vec![false; n],
        lit_tiles: vec![false; n],
        tile_content: vec![Vec::new(); n],
        stairs_up: None,
        stairs_down: None,
        exit: None,
    }
}

#[test]
fn revealed_walls_are_recognised() {
    let mut l = level(3, 3, &[0, 1, 2]);
    assert!(is_revealed_and_wall(&l, 1, 0));
    assert!(!is_revealed_and_wall(&l, 1, 1));
    assert!(!is_revealed_and_wall(&l, 1, 5));
    l.revealed_tiles[1] = false;
    assert!(!is_revealed_and_wall(&l, 1, 0));
}

#[test]
fn wall_glyphs_join_their_neighbours() {
    // a lone wall
    let l = level(3, 3, &[4]);
    assert_eq!(get_wall_tile(&l, 1, 1), 9);
    // a horizontal run
    let l = level(3, 3, &[3, 4, 5]);
    assert_eq!(get_wall_tile(&l, 1, 1), 205);
    // a vertical run
    let l = level(3, 3, &[1, 4, 7]);
    assert_eq!(get_wall_tile(&l, 1, 1), 186);
    // a crossing
    let l = level(3, 3, &[1, 3, 4, 5, 7]);
    assert_eq!(get_wall_tile(&l, 1, 1), 206);
    // a corner opening down and right
    let l = level(3, 3, &[4, 5, 7]);
    assert_eq!(get_wall_tile(&l, 1, 1), 201);
    // a corner opening up and left
    let l = level(3, 3, &[1, 3, 4]);
    assert_eq!(get_wall_tile(&l, 1, 1), 188);
}

#[test]
fn spawn_points_are_free_floor_tiles() {
    let mut l = level(3, 2, &[0, 5]);
    l.blocked[2] = true;
    l.tiles[3] = TileType::Door;
    assert_eq!(get_possible_spawn_points_in_level(&l), vec![1, 4]);
}

#[test]
fn map_cells_draw_revealed_tiles_only() {
    let mut l = level(80, 2, &[0]);
    l.tiles[1] = TileType::DownStairs;
    l.tiles[2] = TileType::Exit;
    l.tiles[3] = TileType::Door;
    l.visible_tiles[1] = true;
    for i in 4..160 {
        l.revealed_tiles[i] = false;
    }
    let cells = map_cells(&l);
    assert_eq!(cells.len(), 4);
    assert_eq!(cells[0].glyph, 9);
    assert_eq!(cells[1].glyph, '>' as u16);
    assert_eq!(cells[1].fg, Color::Named(NamedColor::Green));
    assert_eq!(cells[0].fg, Color::Named(NamedColor::White));
    assert_eq!(cells[2].glyph, 219);
    assert_eq!(cells[3].glyph, 'D' as u16);
    assert_eq!((cells[3].x, cells[3].y), (3, 0));
    assert_eq!(tile_glyph(&l, 10), '.' as u16);
}
