use apprentice::geometry::{get_render_offset, get_render_offset_for_xy, idx_xy, idxs_are_adjacent, xy_idx};
use apprentice::item_type::{get_glyph_for_item, get_name_for_item, ItemType};
use apprentice::text::{append_decimal, format_damage_text, format_no_damage_text, join_text, paragraph_line_counts, wrap_text};

#[test]
fn xy_idx_counts_rows_then_columns() {
    assert_eq!(xy_idx(80, 3, 2), 163);
    assert_eq!(xy_idx(80, 0, 0), 0);
    assert_eq!(xy_idx(10, -1, 1), 9);
}

#[test]
fn idx_xy_undoes_xy_idx() {
    for (x, y) in [(0, 0), (79, 0), (5, 42), (40, 21)] {
        let idx = xy_idx(80, x, y);
        assert_eq!(idx_xy(80, idx), (x, y));
    }
    assert_eq!(idx_xy(80, 163), (3, 2));
}

#[test]
fn render_offset_centres_the_view() {
    assert_eq!(get_render_offset(40, 21), (0, 0));
    assert_eq!(get_render_offset(50, 30), (10, 9));
    assert_eq!(get_render_offset(0, 0), (-40, -21));
}

#[test]
fn render_offset_for_xy_adds_the_offset() {
    assert_eq!(get_render_offset_for_xy(50, 30, 1, 2), (11, 11));
    assert_eq!(get_render_offset_for_xy(50, 30, 40, 21), (50, 30));
}

#[test]
fn adjacent_tiles_include_diagonals_and_the_tile_itself() {
    assert!(idxs_are_adjacent(10, 55, 55));
    assert!(idxs_are_adjacent(10, 55, 44));
    assert!(idxs_are_adjacent(10, 55, 66));
    assert!(idxs_are_adjacent(10, 55, 56));
    assert!(!idxs_are_adjacent(10, 55, 57));
    assert!(!idxs_are_adjacent(10, 55, 75));
    // the last column of one row is not next to the first column of the next
    assert!(!idxs_are_adjacent(10, 9, 10));
}

#[test]
fn damage_text_reads_like_a_sentence() {
    assert_eq!(format_damage_text("Goblin", "Player", "Dagger", 7), "Goblin hits Player with Dagger, for 7 hp");
    assert_eq!(format_damage_text("Goblin", "Player", "fists", 120), "Goblin hits Player with fists, for 120 hp");
    assert_eq!(format_no_damage_text("Player", "Goblin", "fists"), "Player is unable to hurt Goblin with fists");
}

#[test]
fn decimals_are_written_with_their_sign() {
    let mut s = String::from("x=");
    append_decimal(&mut s, -45);
    assert_eq!(s, "x=-45");
    let mut t = String::new();
    append_decimal(&mut t, 0);
    assert_eq!(t, "0");
    let mut u = String::new();
    append_decimal(&mut u, i32::MIN);
    assert_eq!(u, "-2147483648");
}

#[test]
fn texts_join_in_order() {
    assert_eq!(join_text("You grab ", "Chair"), "You grab Chair");
    assert_eq!(wrap_text("You disarmed the ", "Bear Trap", "."), "You disarmed the Bear Trap.");
}

#[test]
fn item_names_and_glyphs() {
    assert_eq!(get_name_for_item(ItemType::HealthPotion), "Health Potion");
    assert_eq!(get_name_for_item(ItemType::Caltrops), "Caltrops");
    assert_eq!(get_glyph_for_item(ItemType::HealthPotion), 'i' as u16);
    assert_eq!(get_glyph_for_item(ItemType::BearTrap), '^' as u16);
    assert_eq!(get_glyph_for_item(ItemType::FireballScroll), ')' as u16);
}

#[test]
fn paragraphs_fill_lines_greedily() {
    // "a bb ccc dddd" in 6 cells: "a bb", "ccc", "dddd"
    assert_eq!(paragraph_line_counts(&vec![1, 2, 3, 4], 6), vec![2, 1, 1]);
    // a line exactly full
    assert_eq!(paragraph_line_counts(&vec![2, 3, 1], 6), vec![2, 1]);
    // a word wider than the paragraph stands alone
    assert_eq!(paragraph_line_counts(&vec![9, 1, 1], 4), vec![1, 2]);
    assert!(paragraph_line_counts(&Vec::new(), 10).is_empty());
}
