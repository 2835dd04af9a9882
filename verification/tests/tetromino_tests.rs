use std::collections::HashSet;
use thud_and_tile::game_color::GameColor;
use thud_and_tile::random::{DeterministicRandomProvider, RandomProviderImpl};
use thud_and_tile::tetromino::{
    get_srs_wall_kick_offsets_by_shape, get_transition_index, Tetromino, TetrominoBag, TetrominoShape,
    SRS_I_OFFSETS, SRS_JLTSZ_OFFSETS,
};

#[test]
fn test_basic_rotation() {
    assert!(true);
}

#[test]
fn new_piece_starts_at_spawn_in_state_zero() {
    let colors = [GameColor::Cyan, GameColor::Magenta, GameColor::Yellow, GameColor::Green];
    let piece = Tetromino::from_shape(TetrominoShape::T, colors);
    assert_eq!(piece.get_rotation_state(), 0);
    assert_eq!(piece.pos, (3, 0));
    assert_eq!(piece.get_colors(), colors.to_vec());
    let blocks = piece.iter_blocks();
    assert_eq!(blocks[0], ((4, 0), GameColor::Cyan));
    assert_eq!(blocks[3], ((5, 1), GameColor::Green));
}

#[test]
fn four_clockwise_turns_give_back_the_piece() {
    let colors = [GameColor::Cyan, GameColor::Magenta, GameColor::Yellow, GameColor::Green];
    for shape in TetrominoShape::all_shapes() {
        let piece = Tetromino::from_shape(shape, colors);
        let mut turned = piece.clone();
        let mut states = Vec::new();
        for _ in 0..4 {
            turned = turned.rotated();
            states.push(turned.get_rotation_state());
            assert_eq!(turned.get_colors(), colors.to_vec());
        }
        assert_eq!(states, vec![1, 2, 3, 0]);
        assert_eq!(turned, piece);
    }
}

#[test]
fn turning_back_and_forth_gives_back_the_piece() {
    let colors = [GameColor::Yellow, GameColor::Cyan, GameColor::Magenta, GameColor::Cyan];
    for shape in TetrominoShape::all_shapes() {
        let piece = Tetromino::from_shape(shape, colors);
        assert_eq!(piece.rotated().rotated_counter_clockwise(), piece);
        assert_eq!(piece.rotated_counter_clockwise().rotated(), piece);
        assert_eq!(piece.rotated_counter_clockwise().get_rotation_state(), 3);
    }
}

#[test]
fn moving_and_back_gives_back_the_piece() {
    let colors = [GameColor::Cyan; 4];
    let piece = Tetromino::from_shape(TetrominoShape::L, colors);
    let moved = piece.moved(-2, 5);
    assert_eq!(moved.pos, (1, 5));
    assert_eq!(moved.moved(2, -5), piece);
}

#[test]
fn wall_kick_tables_follow_the_transition() {
    assert_eq!(get_transition_index(0, 1), 0);
    assert_eq!(get_transition_index(3, 0), 6);
    assert_eq!(get_transition_index(0, 2), 0);
    assert_eq!(get_srs_wall_kick_offsets_by_shape(0, 1, 2), SRS_I_OFFSETS[2]);
    assert_eq!(get_srs_wall_kick_offsets_by_shape(1, 1, 2), [[0, 0]; 5]);
    assert_eq!(get_srs_wall_kick_offsets_by_shape(4, 0, 3), SRS_JLTSZ_OFFSETS[7]);
    assert_eq!(SRS_JLTSZ_OFFSETS[0], [[0, 0], [-1, 0], [-1, 1], [0, -2], [-1, -2]]);
}

#[test]
fn wall_kick_moves_a_piece_off_the_wall() {
    let colors = [GameColor::Cyan; 4];
    let piece = Tetromino::from_shape(TetrominoShape::I, colors).rotated().moved(-5, 0);
    assert_eq!(piece.pos, (-2, 0));
    let kicked = piece.rotated_with_wall_kick();
    assert_eq!(kicked.get_rotation_state(), 2);
    for ((x, y), _) in kicked.iter_blocks() {
        assert!(x >= 0 && x < 10 && y >= 0 && y < 20);
    }
    let plain = piece.rotated();
    assert_ne!(kicked.pos, plain.pos);
}

#[test]
fn test_new_random_uses_7_bag_system() {
    let provider = DeterministicRandomProvider::new(vec![3, 1, 4, 1, 5, 9, 2, 6, 5, 3, 5, 8, 9, 7]);
    let mut bag = TetrominoBag::with_random_provider(RandomProviderImpl::Deterministic(provider));
    let mut generated = Vec::new();
    for _ in 0..14 {
        generated.push(bag.next());
    }
    let first: HashSet<_> = generated[0..7].iter().collect();
    let second: HashSet<_> = generated[7..14].iter().collect();
    assert_eq!(first.len(), 7);
    assert_eq!(second.len(), 7);
}

#[test]
fn test_new_tetromino_uses_only_three_colors() {
    let mut bag = TetrominoBag::new();
    let tetromino = Tetromino::new_random(&mut bag);
    let allowed_colors = [GameColor::Cyan, GameColor::Magenta, GameColor::Yellow];

    for (_, color) in tetromino.iter_blocks() {
        assert!(allowed_colors.contains(&color), "Tetromino contains a disallowed color: {:?}", color);
    }
}

#[test]
fn test_adjacent_blocks_have_different_colors() {
    let mut bag = TetrominoBag::new();
    for _ in 0..100 {
        let tetromino = Tetromino::new_random(&mut bag);
        let blocks = tetromino.iter_blocks();

        for i in 0..blocks.len() {
            for j in (i + 1)..blocks.len() {
                let (pos1, color1) = blocks[i];
                let (pos2, color2) = blocks[j];

                let is_adjacent = (pos1.0 - pos2.0).abs() + (pos1.1 - pos2.1).abs() == 1;

                if is_adjacent {
                    assert_ne!(color1, color2, "Adjacent blocks have the same color in tetromino: {:?}", tetromino);
                }
            }
        }
    }
}

#[test]
fn shape_coordinates_are_looked_up_by_number() {
    assert_eq!(Tetromino::get_shape_coordinates(0, 0), Some([(0, 1), (1, 1), (2, 1), (3, 1)]));
    assert_eq!(Tetromino::get_shape_coordinates(6, 3), Some([(1, 0), (1, 1), (0, 1), (0, 2)]));
    assert_eq!(Tetromino::get_shape_coordinates(7, 0), None);
    assert_eq!(Tetromino::get_shape_coordinates(0, 4), None);
}

#[test]
fn test_tetromino_initial_rotation_state() {
    let colors = [GameColor::Cyan, GameColor::Magenta, GameColor::Yellow, GameColor::Green];
    let piece = Tetromino::from_shape(TetrominoShape::T, colors);
    assert_eq!(piece.get_rotation_state(), 0, "Initial rotation state should be 0");
}

#[test]
fn test_clockwise_rotation_state_cycle() {
    let colors = [GameColor::Cyan, GameColor::Magenta, GameColor::Yellow, GameColor::Green];
    let mut piece = Tetromino::from_shape(TetrominoShape::T, colors);

    assert_eq!(piece.get_rotation_state(), 0);
    piece = piece.rotated();
    assert_eq!(piece.get_rotation_state(), 1);
    piece = piece.rotated();
    assert_eq!(piece.get_rotation_state(), 2);
    piece = piece.rotated();
    assert_eq!(piece.get_rotation_state(), 3);
    piece = piece.rotated();
    assert_eq!(piece.get_rotation_state(), 0, "Should cycle back to 0");
}

#[test]
fn test_counter_clockwise_rotation_state_cycle() {
    let colors = [GameColor::Cyan, GameColor::Magenta, GameColor::Yellow, GameColor::Green];
    let mut piece = Tetromino::from_shape(TetrominoShape::T, colors);

    assert_eq!(piece.get_rotation_state(), 0);
    piece = piece.rotated_counter_clockwise();
    assert_eq!(piece.get_rotation_state(), 3);
    piece = piece.rotated_counter_clockwise();
    assert_eq!(piece.get_rotation_state(), 2);
    piece = piece.rotated_counter_clockwise();
    assert_eq!(piece.get_rotation_state(), 1);
    piece = piece.rotated_counter_clockwise();
    assert_eq!(piece.get_rotation_state(), 0, "Should cycle back to 0");
}

#[test]
fn test_basic_wall_kick_functionality() {
    let colors = [GameColor::Cyan, GameColor::Magenta, GameColor::Yellow, GameColor::Green];
    let mut piece = Tetromino::from_shape(TetrominoShape::I, colors);

    piece = piece.rotated();
    piece.pos = (-1, 5);

    let rotated = piece.rotated_with_wall_kick();

    assert_eq!(rotated.get_rotation_state(), 2, "Rotation should succeed with wall kick");
    assert_ne!(rotated.pos, piece.pos, "Wall kick should adjust position");
}

#[test]
fn test_physical_rotation_produces_movement() {
    let colors = [GameColor::Yellow, GameColor::Cyan, GameColor::Magenta, GameColor::Green];
    let piece = Tetromino::from_shape(TetrominoShape::T, colors);

    let initial_blocks: Vec<_> = piece.iter_blocks();
    let rotated = piece.rotated();
    let rotated_blocks: Vec<_> = rotated.iter_blocks();

    let has_movement = initial_blocks.iter().zip(rotated_blocks.iter()).any(|((pos1, _), (pos2, _))| pos1 != pos2);
    assert!(has_movement, "Physical rotation should move at least one block");

    let initial_colors: HashSet<_> = initial_blocks.iter().map(|(_, color)| *color).collect();
    let rotated_colors: HashSet<_> = rotated_blocks.iter().map(|(_, color)| *color).collect();
    assert_eq!(initial_colors, rotated_colors, "Colors should be preserved during rotation");
}

#[test]
fn test_color_physical_rotation_detailed() {
    let colors = [GameColor::Red, GameColor::Green, GameColor::Blue, GameColor::Yellow];
    let piece = Tetromino::from_shape(TetrominoShape::T, colors);

    let initial_blocks: Vec<_> = piece.iter_blocks();
    let rotated = piece.rotated();
    let rotated_blocks: Vec<_> = rotated.iter_blocks();

    let positions_changed = initial_blocks
        .iter()
        .zip(rotated_blocks.iter())
        .filter(|((pos1, _), (pos2, _))| pos1 != pos2)
        .count();
    assert!(positions_changed >= 1, "At least one block should have moved to a different position");

    let mut test_piece = piece;
    for _ in 0..4 {
        test_piece = test_piece.rotated();
    }
    let final_blocks: Vec<_> = test_piece.iter_blocks();

    assert_eq!(initial_blocks.len(), final_blocks.len());
    for (initial, final_block) in initial_blocks.iter().zip(final_blocks.iter()) {
        assert_eq!(initial, final_block, "After 4 rotations, blocks should return to original positions and colors");
    }
}

#[test]
fn test_o_mino_color_rotation_consistency() {
    let colors = [GameColor::Red, GameColor::Blue, GameColor::Green, GameColor::Yellow];
    let o_piece = Tetromino::from_shape(TetrominoShape::O, colors);

    let initial_colors = o_piece.get_colors();

    let mut piece = o_piece.clone();
    for _ in 0..4 {
        piece = piece.rotated();
    }
    let full_rotation_colors = piece.get_colors();
    assert_eq!(initial_colors, full_rotation_colors);

    let rotated_once = o_piece.rotated();
    let rotated_colors = rotated_once.get_colors();

    let initial_color_set: HashSet<_> = initial_colors.iter().collect();
    let rotated_color_set: HashSet<_> = rotated_colors.iter().collect();
    assert_eq!(initial_color_set, rotated_color_set);
}

#[test]
fn test_t_mino_physical_rotation_color_movement() {
    let colors = [GameColor::Yellow, GameColor::Cyan, GameColor::Magenta, GameColor::Green];
    let mut t_piece = Tetromino::from_shape(TetrominoShape::T, colors);
    t_piece.pos = (2, 2);

    let initial_blocks: Vec<_> = t_piece.iter_blocks();
    t_piece = t_piece.rotated();
    let rotated_blocks: Vec<_> = t_piece.iter_blocks();

    let position_changed = initial_blocks.iter().zip(rotated_blocks.iter()).any(|((pos1, _), (pos2, _))| pos1 != pos2);
    assert!(position_changed);

    let initial_colors: HashSet<_> = initial_blocks.iter().map(|(_, color)| *color).collect();
    let rotated_colors: HashSet<_> = rotated_blocks.iter().map(|(_, color)| *color).collect();
    assert_eq!(initial_colors, rotated_colors);
}

#[test]
fn test_other_mino_physical_rotation_sample() {
    let colors = [GameColor::Red, GameColor::Blue, GameColor::Green, GameColor::Yellow];
    let mut i_piece = Tetromino::from_shape(TetrominoShape::I, colors);
    i_piece.pos = (2, 2);

    let initial_blocks: Vec<_> = i_piece.iter_blocks();
    for _ in 0..4 {
        i_piece = i_piece.rotated();
    }
    let final_blocks: Vec<_> = i_piece.iter_blocks();

    assert_eq!(initial_blocks, final_blocks);
}

#[test]
fn replaying_provider_fixes_the_order_of_the_first_bag() {
    let provider = DeterministicRandomProvider::new(vec![3, 1, 4, 1, 5, 9, 2, 6, 5, 3, 5, 8, 9, 7]);
    let mut bag = TetrominoBag::with_random_provider(RandomProviderImpl::Deterministic(provider));
    let drawn: Vec<TetrominoShape> = (0..7).map(|_| bag.next()).collect();
    assert_eq!(
        drawn,
        vec![
            TetrominoShape::L,
            TetrominoShape::O,
            TetrominoShape::J,
            TetrominoShape::S,
            TetrominoShape::T,
            TetrominoShape::Z,
            TetrominoShape::I,
        ]
    );
}
