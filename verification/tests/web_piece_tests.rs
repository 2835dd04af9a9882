use std::collections::HashSet;
use thud_and_tile::game_color::GameColor;
use thud_and_tile::web::{SimpleTetromino, TetrominoShape, WebTetrominoBag};

#[test]
fn web_bag_deals_each_shape_once_per_refill() {
    let mut bag = WebTetrominoBag::new();
    let mut dealt = Vec::new();
    for _ in 0..14 {
        dealt.push(bag.next());
    }
    let first: HashSet<_> = dealt[0..7].iter().map(|s| s.code()).collect();
    let second: HashSet<_> = dealt[7..14].iter().map(|s| s.code()).collect();
    assert_eq!(first.len(), 7);
    assert_eq!(second.len(), 7);
}

#[test]
fn web_piece_spawns_with_palette_colours() {
    let piece = SimpleTetromino::from_shape(TetrominoShape::T);
    assert_eq!((piece.x, piece.y, piece.rotation, piece.shape), (3, 0, 0, 2));
    assert_eq!(piece.colors.len(), 4);
    for c in &piece.colors {
        assert!([GameColor::Cyan, GameColor::Magenta, GameColor::Yellow].contains(c));
    }
    let random = SimpleTetromino::new_random();
    assert!(random.shape < 7);
}

#[test]
fn web_block_tables() {
    let mut piece = SimpleTetromino::from_shape(TetrominoShape::Z);
    assert_eq!(piece.get_blocks(), vec![(0, 0), (1, 0), (1, 1), (2, 1)]);
    assert_eq!(piece.get_blocks_at_rotation(1), vec![(2, 0), (1, 1), (2, 1), (1, 2)]);
    assert_eq!(piece.get_blocks_at_rotation(9), piece.get_blocks());
    piece.shape = 1;
    assert_eq!(piece.get_blocks_at_rotation(1), vec![(2, 1), (2, 2), (1, 2), (1, 1)]);
    piece.shape = 12;
    assert_eq!(piece.get_blocks_at_rotation(2), vec![(0, 0)]);
}
