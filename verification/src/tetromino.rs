//! Falling pieces: their shapes in the four rotation states of the Super
//! Rotation System, the wall-kick tables, the seven-piece bag and the
//! colouring of new pieces.
use vstd::prelude::*;
use vstd::multiset::Multiset;
use crate::config::{BOARD_HEIGHT, BOARD_WIDTH, COLOR_PALETTE};
use crate::game_color::{GameColor, is_piece_color};
use crate::random::{RandomProvider, RandomProviderImpl, create_default_random_provider, fisher_yates};

verus! {

/// The seven piece shapes.
#[derive(Debug, Clone, Copy, PartialEq, Eq, Hash, Structural)]
pub enum TetrominoShape {
    I,
    O,
    T,
    L,
    J,
    S,
    Z,
}

/// Wall-kick offsets of the J, L, T, S and Z pieces, one row per rotation
/// transition: 0->1, 1->0, 1->2, 2->1, 2->3, 3->2, 3->0, 0->3.
pub const SRS_JLTSZ_OFFSETS: [[[i8; 2]; 5]; 8] = [
    [[0, 0], [-1, 0], [-1, 1], [0, -2], [-1, -2]],
    [[0, 0], [1, 0], [1, -1], [0, 2], [1, 2]],
    [[0, 0], [1, 0], [1, 1], [0, -2], [1, -2]],
    [[0, 0], [-1, 0], [-1, -1], [0, 2], [-1, 2]],
    [[0, 0], [1, 0], [1, -1], [0, 2], [1, 2]],
    [[0, 0], [-1, 0], [-1, 1], [0, -2], [-1, -2]],
    [[0, 0], [-1, 0], [-1, -1], [0, 2], [-1, 2]],
    [[0, 0], [1, 0], [1, 1], [0, -2], [1, -2]],
];

/// Wall-kick offsets of the I piece, rows in the same order.
pub const SRS_I_OFFSETS: [[[i8; 2]; 5]; 8] = [
    [[0, 0], [-2, 0], [1, 0], [-2, -1], [1, 2]],
    [[0, 0], [2, 0], [-1, 0], [2, 1], [-1, -2]],
    [[0, 0], [-1, 0], [2, 0], [-1, -2], [2, 1]],
    [[0, 0], [1, 0], [-2, 0], [1, 2], [-2, -1]],
    [[0, 0], [2, 0], [-1, 0], [2, 1], [-1, -2]],
    [[0, 0], [-2, 0], [1, 0], [-2, -1], [1, 2]],
    [[0, 0], [1, 0], [-2, 0], [1, 2], [-2, -1]],
    [[0, 0], [-1, 0], [2, 0], [-1, -2], [2, 1]],
];

/// The O piece turns in place: all its offsets are zero.
pub const O_OFFSETS: [[i8; 2]; 5] = [[0, 0], [0, 0], [0, 0], [0, 0], [0, 0]];

/// Block offsets of each shape (in the order I, O, T, L, J, S, Z) in each of
/// its four rotation states.  The blocks are listed so that a block keeps
/// its index as the piece turns.
pub const SHAPES: [[[(i8, i8); 4]; 4]; 7] = [
    [
        [(0, 1), (1, 1), (2, 1), (3, 1)],
        [(2, 3), (2, 2), (2, 1), (2, 0)],
        [(3, 2), (2, 2), (1, 2), (0, 2)],
        [(1, 0), (1, 1), (1, 2), (1, 3)],
    ],
    [
        [(1, 1), (2, 1), (1, 2), (2, 2)],
        [(2, 1), (2, 2), (1, 1), (1, 2)],
        [(2, 2), (1, 2), (2, 1), (1, 1)],
        [(1, 2), (1, 1), (2, 2), (2, 1)],
    ],
    [
        [(1, 0), (0, 1), (1, 1), (2, 1)],
        [(2, 1), (1, 0), (1, 1), (1, 2)],
        [(1, 2), (2, 1), (1, 1), (0, 1)],
        [(0, 1), (1, 2), (1, 1), (1, 0)],
    ],
    [
        [(2, 0), (0, 1), (1, 1), (2, 1)],
        [(2, 2), (1, 0), (1, 1), (1, 2)],
        [(0, 2), (2, 1), (1, 1), (0, 1)],
        [(0, 0), (1, 2), (1, 1), (1, 0)],
    ],
    [
        [(0, 0), (0, 1), (1, 1), (2, 1)],
        [(2, 0), (1, 0), (1, 1), (1, 2)],
        [(2, 2), (2, 1), (1, 1), (0, 1)],
        [(0, 2), (1, 2), (1, 1), (1, 0)],
    ],
    [
        [(1, 0), (2, 0), (0, 1), (1, 1)],
        [(2, 1), (2, 2), (1, 0), (1, 1)],
        [(1, 2), (0, 2), (2, 1), (1, 1)],
        [(0, 1), (0, 0), (1, 2), (1, 1)],
    ],
    [
        [(0, 0), (1, 0), (1, 1), (2, 1)],
        [(2, 0), (2, 1), (1, 1), (1, 2)],
        [(0, 1), (1, 1), (1, 2), (2, 2)],
        [(1, 0), (1, 1), (0, 1), (0, 2)],
    ],
];

/// Row of the wall-kick tables for the transition `from -> to`; row 0 for a
/// pair that is not a single quarter turn.
pub open spec fn transition_index(from: u8, to: u8) -> usize {
    if from == 0 && to == 1 { 0 }
    else if from == 1 && to == 0 { 1 }
    else if from == 1 && to == 2 { 2 }
    else if from == 2 && to == 1 { 3 }
    else if from == 2 && to == 3 { 4 }
    else if from == 3 && to == 2 { 5 }
    else if from == 3 && to == 0 { 6 }
    else if from == 0 && to == 3 { 7 }
    else { 0 }
}

/// Row of the wall-kick tables for the rotation transition `from_state ->
/// to_state`.
pub fn get_transition_index(from_state: u8, to_state: u8) -> (r: usize)
    ensures
        r == transition_index(from_state, to_state),
        r < 8,
{
    match (from_state, to_state) {
        (0, 1) => 0,
        (1, 0) => 1,
        (1, 2) => 2,
        (2, 1) => 3,
        (2, 3) => 4,
        (3, 2) => 5,
        (3, 0) => 6,
        (0, 3) => 7,
        _ => 0,
    }
}

/// Wall-kick offsets for a shape given by number (0 the I piece, 1 the O
/// piece, any other number the J, L, T, S and Z pieces).
pub open spec fn kick_offsets(shape: u8, from: u8, to: u8) -> [[i8; 2]; 5] {
    if shape == 0 {
        SRS_I_OFFSETS[transition_index(from, to) as int]
    } else if shape == 1 {
        O_OFFSETS
    } else {
        SRS_JLTSZ_OFFSETS[transition_index(from, to) as int]
    }
}

/// Wall-kick offsets for the transition `from_state -> to_state` of the
/// shape numbered `shape` (0 the I piece, 1 the O piece, others J, L, T, S,
/// Z).
pub fn get_srs_wall_kick_offsets_by_shape(shape: u8, from_state: u8, to_state: u8) -> (r: [[i8; 2]; 5])
    ensures
        r == kick_offsets(shape, from_state, to_state),
{
    let index = get_transition_index(from_state, to_state);
    match shape {
        0 => SRS_I_OFFSETS[index],
        1 => O_OFFSETS,
        _ => SRS_JLTSZ_OFFSETS[index],
    }
}

/// Position of a shape in `SHAPES`.
pub open spec fn shape_index(shape: TetrominoShape) -> int {
    match shape {
        TetrominoShape::I => 0,
        TetrominoShape::O => 1,
        TetrominoShape::T => 2,
        TetrominoShape::L => 3,
        TetrominoShape::J => 4,
        TetrominoShape::S => 5,
        TetrominoShape::Z => 6,
    }
}

/// Executable form of `shape_index`.
fn shape_number(shape: TetrominoShape) -> (r: usize)
    ensures
        r == shape_index(shape),
{
    match shape {
        TetrominoShape::I => 0,
        TetrominoShape::O => 1,
        TetrominoShape::T => 2,
        TetrominoShape::L => 3,
        TetrominoShape::J => 4,
        TetrominoShape::S => 5,
        TetrominoShape::Z => 6,
    }
}

/// Offset of block `i` of `shape` in rotation state `rot`.
pub open spec fn shape_block(shape: TetrominoShape, rot: int, i: int) -> (i8, i8) {
    SHAPES[shape_index(shape)][rot][i]
}

/// The seven shapes in the order I, O, T, L, J, S, Z.
pub open spec fn all_shapes_seq() -> Seq<TetrominoShape> {
    seq![
        TetrominoShape::I,
        TetrominoShape::O,
        TetrominoShape::T,
        TetrominoShape::L,
        TetrominoShape::J,
        TetrominoShape::S,
        TetrominoShape::Z,
    ]
}

impl TetrominoShape {
    /// Every shape once, in the order I, O, T, L, J, S, Z.
    pub fn all_shapes() -> (r: Vec<TetrominoShape>)
        ensures
            r@ == all_shapes_seq(),
    {
        let r = vec![
            TetrominoShape::I,
            TetrominoShape::O,
            TetrominoShape::T,
            TetrominoShape::L,
            TetrominoShape::J,
            TetrominoShape::S,
            TetrominoShape::Z,
        ];
        assert(r@ =~= all_shapes_seq());
        r
    }
}

/// A piece: its shape, the position of its bounding box (column, row), its
/// four blocks as offsets with their colours, and its rotation state.
#[derive(Debug, PartialEq)]
pub struct Tetromino {
    pub shape: TetrominoShape,
    pub pos: (i8, i8),
    pub blocks: Vec<((i8, i8), GameColor)>,
    pub rotation_state: u8,
}

impl Clone for Tetromino {
    fn clone(&self) -> (t: Self)
        ensures
            t.piece_shape() == self.piece_shape(),
            t.position() == self.position(),
            t.blocks_seq() == self.blocks_seq(),
            t.rotation() == self.rotation(),
    {
        Tetromino { shape: self.shape, pos: self.pos, blocks: self.copy_blocks(), rotation_state: self.rotation_state }
    }
}

/// Spawn column of new pieces: half the board's width, less two.
pub const SPAWN_X: i8 = 3;

/// Two blocks touch along an edge.
pub open spec fn touching(a: (i8, i8), b: (i8, i8)) -> bool {
    let dx = a.0 - b.0;
    let dy = a.1 - b.1;
    (if dx < 0 { -dx } else { dx }) + (if dy < 0 { -dy } else { dy }) == 1
}

/// No two touching blocks have the same colour.
pub open spec fn properly_colored(blocks: Seq<((i8, i8), GameColor)>) -> bool {
    forall|i: int, j: int|
        0 <= i < j < blocks.len() && #[trigger] touching(blocks[i].0, blocks[j].0)
            ==> blocks[i].1 != #[trigger] blocks[j].1
}

/// Every block, placed at `pos`, lies inside the board.
pub open spec fn blocks_inside(pos: (i8, i8), blocks: Seq<((i8, i8), GameColor)>) -> bool {
    forall|i: int| 0 <= i < blocks.len() ==> {
        &&& 0 <= pos.0 + (#[trigger] blocks[i]).0.0 < BOARD_WIDTH
        &&& 0 <= pos.1 + blocks[i].0.1 < BOARD_HEIGHT
    }
}

/// Block list of `shape` in rotation state `rot`, coloured by `colors`.
pub open spec fn colored_blocks(shape: TetrominoShape, rot: int, colors: Seq<GameColor>) -> Seq<((i8, i8), GameColor)> {
    Seq::new(4, |i: int| (shape_block(shape, rot, i), colors[i]))
}

impl Tetromino {
    /// The blocks as offsets from the position, with their colours.
    pub open spec fn blocks_seq(&self) -> Seq<((i8, i8), GameColor)> {
        self.blocks@
    }

    /// The rotation state.
    pub open spec fn rotation(&self) -> u8 {
        self.rotation_state
    }

    /// The shape.
    pub open spec fn piece_shape(&self) -> TetrominoShape {
        self.shape
    }

    /// Column and row of the bounding box.
    pub open spec fn position(&self) -> (i8, i8) {
        self.pos
    }

    /// Colours of the blocks, in order.
    pub open spec fn colors_seq(&self) -> Seq<GameColor> {
        self.blocks_seq().map_values(|b: ((i8, i8), GameColor)| b.1)
    }

    /// Four blocks and a rotation state in `0..4`.
    pub open spec fn wf(&self) -> bool {
        &&& self.blocks_seq().len() == 4
        &&& self.rotation() < 4
    }

    /// The blocks lie where the shape's table puts them for the rotation
    /// state.
    pub open spec fn in_shape(&self) -> bool {
        &&& self.wf()
        &&& self.blocks_seq() == colored_blocks(self.piece_shape(), self.rotation() as int, self.colors_seq())
    }

    /// Board coordinates of every block fit in `i8`.
    pub open spec fn fits(&self) -> bool {
        forall|i: int| 0 <= i < self.blocks_seq().len() ==> {
            &&& self.position().0 + (#[trigger] self.blocks_seq()[i]).0.0 <= i8::MAX
            &&& self.position().1 + self.blocks_seq()[i].0.1 <= i8::MAX
            &&& self.position().0 + self.blocks_seq()[i].0.0 >= i8::MIN
            &&& self.position().1 + self.blocks_seq()[i].0.1 >= i8::MIN
        }
    }

    /// Board coordinates and colour of block `i`.
    pub open spec fn block_at(&self, i: int) -> ((i8, i8), GameColor) {
        (
            ((self.position().0 + self.blocks_seq()[i].0.0) as i8, (self.position().1 + self.blocks_seq()[i].0.1) as i8),
            self.blocks_seq()[i].1,
        )
    }

    /// `self` is `t` turned a quarter clockwise: same shape and position, the
    /// next rotation state, the blocks where the table puts them for that
    /// state, colours kept index by index.
    pub open spec fn is_cw_turn_of(&self, t: Tetromino) -> bool {
        &&& self.piece_shape() == t.piece_shape()
        &&& self.position() == t.position()
        &&& self.rotation() == (t.rotation() + 1) % 4
        &&& self.blocks_seq() == colored_blocks(t.piece_shape(), self.rotation() as int, t.colors_seq())
    }

    /// `self` is `t` turned a quarter counter-clockwise.
    pub open spec fn is_ccw_turn_of(&self, t: Tetromino) -> bool {
        &&& self.piece_shape() == t.piece_shape()
        &&& self.position() == t.position()
        &&& self.rotation() == (t.rotation() + 3) % 4
        &&& self.blocks_seq() == colored_blocks(t.piece_shape(), self.rotation() as int, t.colors_seq())
    }

    /// `self` is `t` moved by `dx` columns and `dy` rows.
    pub open spec fn is_move_of(&self, t: Tetromino, dx: int, dy: int) -> bool {
        &&& self.piece_shape() == t.piece_shape()
        &&& self.position() == ((t.position().0 + dx) as i8, (t.position().1 + dy) as i8)
        &&& self.blocks_seq() == t.blocks_seq()
        &&& self.rotation() == t.rotation()
    }

    /// The two pieces agree in shape, position, rotation state and blocks.
    pub open spec fn same_piece(&self, t: Tetromino) -> bool {
        &&& self.piece_shape() == t.piece_shape()
        &&& self.position() == t.position()
        &&& self.rotation() == t.rotation()
        &&& self.blocks_seq() == t.blocks_seq()
    }

    /// A piece of `shape` in rotation state 0 at the spawn position, block
    /// `i` painted `colors[i]`.
    pub fn from_shape(shape: TetrominoShape, colors: [GameColor; 4]) -> (t: Self)
        ensures
            t.piece_shape() == shape,
            t.position() == (SPAWN_X, 0i8),
            t.rotation() == 0,
            t.blocks_seq() == colored_blocks(shape, 0, colors@),
            t.in_shape(),
            t.colors_seq() == colors@,
    {
        let k = shape_number(shape);
        let matrix = SHAPES[k];
        let mut blocks: Vec<((i8, i8), GameColor)> = Vec::new();
        let mut i: usize = 0;
        while i < 4
            invariant
                i <= 4,
                k == shape_index(shape),
                matrix == SHAPES[k as int],
                blocks@.len() == i,
                forall|j: int| 0 <= j < i ==> #[trigger] blocks@[j] == (shape_block(shape, 0, j), colors@[j]),
            decreases 4 - i,
        {
            blocks.push((matrix[0][i], colors[i]));
            i += 1;
        }
        let t = Tetromino { shape, pos: ((BOARD_WIDTH as i8) / 2 - 2, 0), blocks, rotation_state: 0 };
        proof {
            assert(t.blocks_seq() =~= colored_blocks(shape, 0, colors@));
            assert(t.colors_seq() =~= colors@);
        }
        t
    }

    /// The blocks on the board: position plus offset, with their colours.
    pub fn iter_blocks(&self) -> (r: Vec<((i8, i8), GameColor)>)
        requires
            self.fits(),
        ensures
            r@.len() == self.blocks_seq().len(),
            forall|i: int| 0 <= i < r@.len() ==> #[trigger] r@[i] == self.block_at(i),
    {
        let mut r: Vec<((i8, i8), GameColor)> = Vec::new();
        let mut i: usize = 0;
        while i < self.blocks.len()
            invariant
                i <= self.blocks_seq().len(),
                self.fits(),
                r@.len() == i,
                forall|j: int| 0 <= j < i ==> #[trigger] r@[j] == self.block_at(j),
            decreases self.blocks_seq().len() - i,
        {
            let ((block_x, block_y), color) = self.blocks[i];
            proof {
                assert(self.blocks_seq()[i as int] == self.blocks@[i as int]);
            }
            r.push(((self.pos.0 + block_x, self.pos.1 + block_y), color));
            i += 1;
        }
        r
    }

    /// Colours of the blocks, in order.
    pub fn get_colors(&self) -> (r: Vec<GameColor>)
        ensures
            r@ == self.colors_seq(),
    {
        let mut r: Vec<GameColor> = Vec::new();
        let mut i: usize = 0;
        while i < self.blocks.len()
            invariant
                i <= self.blocks@.len(),
                r@ == self.blocks@.take(i as int).map_values(|b: ((i8, i8), GameColor)| b.1),
            decreases self.blocks@.len() - i,
        {
            r.push(self.blocks[i].1);
            proof {
                assert(self.blocks@.take(i + 1).map_values(|b: ((i8, i8), GameColor)| b.1)
                    =~= self.blocks@.take(i as int).map_values(|b: ((i8, i8), GameColor)| b.1).push(self.blocks@[i as int].1));
            }
            i += 1;
        }
        proof {
            assert(self.blocks@.take(self.blocks@.len() as int) =~= self.blocks@);
        }
        r
    }

    /// The rotation state (0 to 3).
    pub fn get_rotation_state(&self) -> (r: u8)
        ensures
            r == self.rotation(),
    {
        self.rotation_state
    }

    /// The piece moved by `dx` columns and `dy` rows.
    pub fn moved(&self, dx: i8, dy: i8) -> (t: Self)
        requires
            i8::MIN <= self.position().0 + dx <= i8::MAX,
            i8::MIN <= self.position().1 + dy <= i8::MAX,
        ensures
            t.is_move_of(*self, dx as int, dy as int),
    {
        Tetromino {
            shape: self.shape,
            pos: (self.pos.0 + dx, self.pos.1 + dy),
            blocks: self.copy_blocks(),
            rotation_state: self.rotation_state,
        }
    }

    /// A copy of the block list.
    fn copy_blocks(&self) -> (r: Vec<((i8, i8), GameColor)>)
        ensures
            r@ == self.blocks@,
    {
        let mut r: Vec<((i8, i8), GameColor)> = Vec::new();
        let mut i: usize = 0;
        while i < self.blocks.len()
            invariant
                i <= self.blocks@.len(),
                r@ == self.blocks@.take(i as int),
            decreases self.blocks@.len() - i,
        {
            r.push(self.blocks[i]);
            proof {
                assert(self.blocks@.take(i + 1) =~= self.blocks@.take(i as int).push(self.blocks@[i as int]));
            }
            i += 1;
        }
        proof {
            assert(self.blocks@.take(self.blocks@.len() as int) =~= self.blocks@);
        }
        r
    }

    /// The piece in rotation state `next`: the blocks take the shape's
    /// offsets for that state and keep their colours index by index.
    fn turned_to(&self, next: u8) -> (t: Self)
        requires
            self.wf(),
            next < 4,
        ensures
            t.piece_shape() == self.piece_shape(),
            t.position() == self.position(),
            t.rotation() == next,
            t.blocks_seq() == colored_blocks(self.piece_shape(), next as int, self.colors_seq()),
            t.in_shape(),
            t.colors_seq() == self.colors_seq(),
    {
        let k = shape_number(self.shape);
        let next_state_blocks = SHAPES[k][next as usize];
        let mut blocks: Vec<((i8, i8), GameColor)> = Vec::new();
        let mut i: usize = 0;
        while i < 4
            invariant
                i <= 4,
                self.wf(),
                k == shape_index(self.piece_shape()),
                next < 4,
                next_state_blocks == SHAPES[k as int][next as int],
                blocks@.len() == i,
                forall|j: int| 0 <= j < i ==> #[trigger] blocks@[j] == (shape_block(self.shape, next as int, j), self.colors_seq()[j]),
            decreases 4 - i,
        {
            let color = self.get_rotated_color_mapping(i);
            blocks.push((next_state_blocks[i], color));
            i += 1;
        }
        let t = Tetromino { shape: self.shape, pos: self.pos, blocks, rotation_state: next };
        proof {
            assert(t.blocks_seq() =~= colored_blocks(self.piece_shape(), next as int, self.colors_seq()));
            assert(t.colors_seq() =~= self.colors_seq());
        }
        t
    }

    /// Colour that block `new_index` takes in a turn: colours follow the
    /// blocks index by index.
    fn get_rotated_color_mapping(&self, new_index: usize) -> (c: GameColor)
        requires
            new_index < self.blocks_seq().len(),
        ensures
            c == self.colors_seq()[new_index as int],
    {
        self.blocks[new_index].1
    }

    /// The piece turned a quarter clockwise.
    pub fn rotated(&self) -> (t: Self)
        requires
            self.wf(),
        ensures
            t.is_cw_turn_of(*self),
            t.in_shape(),
            t.colors_seq() == self.colors_seq(),
    {
        let next_rotation_state = (self.rotation_state + 1) % 4;
        self.turned_to(next_rotation_state)
    }

    /// The piece turned a quarter counter-clockwise.
    pub fn rotated_counter_clockwise(&self) -> (t: Self)
        requires
            self.wf(),
        ensures
            t.is_ccw_turn_of(*self),
            t.in_shape(),
            t.colors_seq() == self.colors_seq(),
    {
        let next_rotation_state = (self.rotation_state + 3) % 4;
        self.turned_to(next_rotation_state)
    }

    /// Wall-kick offsets of this piece's shape for `from_state -> to_state`.
    pub fn get_srs_wall_kick_offsets(&self, from_state: u8, to_state: u8) -> (r: [[i8; 2]; 5])
        ensures
            r == kick_offsets(shape_index(self.piece_shape()) as u8, from_state, to_state),
    {
        get_srs_wall_kick_offsets_by_shape(shape_number(self.shape) as u8, from_state, to_state)
    }

    /// Every block of `piece` lies inside the board.
    pub open spec fn inside_board(piece: Tetromino) -> bool {
        blocks_inside(piece.position(), piece.blocks_seq())
    }

    /// Whether every block of `piece` lies inside the board.
    fn is_position_valid(&self, piece: &Self) -> (r: bool)
        ensures
            r == Self::inside_board(*piece),
    {
        let mut i: usize = 0;
        while i < piece.blocks.len()
            invariant
                i <= piece.blocks_seq().len(),
                forall|j: int| 0 <= j < i ==> {
                    &&& 0 <= piece.pos.0 + (#[trigger] piece.blocks_seq()[j]).0.0 < BOARD_WIDTH
                    &&& 0 <= piece.pos.1 + piece.blocks_seq()[j].0.1 < BOARD_HEIGHT
                },
            decreases piece.blocks_seq().len() - i,
        {
            let ((block_x, block_y), _) = piece.blocks[i];
            let x: i16 = piece.pos.0 as i16 + block_x as i16;
            let y: i16 = piece.pos.1 as i16 + block_y as i16;
            if x < 0 || x >= 10 || y < 0 || y >= 20 {
                return false;
            }
            i += 1;
        }
        true
    }

    /// Block offsets of shape number `shape` (I, O, T, L, J, S, Z) in rotation
    /// state `rotation`; `None` outside the table.
    pub fn get_shape_coordinates(shape: usize, rotation: usize) -> (r: Option<[(i8, i8); 4]>)
        ensures
            shape < 7 && rotation < 4 ==> r == Some(SHAPES[shape as int][rotation as int]),
            !(shape < 7 && rotation < 4) ==> r is None,
    {
        if shape < 7 && rotation < 4 {
            Some(SHAPES[shape][rotation])
        } else {
            None
        }
    }

    /// The quarter clockwise turn moved by wall-kick offset `k`.
    pub open spec fn kick_candidate(&self, k: int) -> (i8, i8) {
        let o = kick_offsets(shape_index(self.piece_shape()) as u8, self.rotation(), ((self.rotation() + 1) % 4) as u8)[k];
        ((self.position().0 + o[0]) as i8, (self.position().1 + o[1]) as i8)
    }

    /// Position of the clockwise turn with wall kicks, trying the offsets from
    /// `k` on: the first one that puts the piece inside the board, else the
    /// plain turn.
    pub open spec fn kicked_position(&self, k: int) -> (i8, i8)
        decreases 5 - k,
    {
        if k >= 5 || k < 0 {
            self.position()
        } else if blocks_inside(
            self.kick_candidate(k),
            colored_blocks(self.piece_shape(), (self.rotation() + 1) % 4, self.colors_seq()),
        ) {
            self.kick_candidate(k)
        } else {
            self.kicked_position(k + 1)
        }
    }

    /// The piece turned a quarter clockwise with wall kicks: the offsets of
    /// the Super Rotation System are tried in order and the first that keeps
    /// every block inside the board is taken; when none does, the plain turn
    /// is returned.
    pub fn rotated_with_wall_kick(&self) -> (t: Self)
        requires
            self.wf(),
            -126 <= self.position().0 <= 125,
            -126 <= self.position().1 <= 125,
        ensures
            t.piece_shape() == self.piece_shape(),
            t.rotation() == (self.rotation() + 1) % 4,
            t.blocks_seq() == colored_blocks(self.piece_shape(), t.rotation() as int, self.colors_seq()),
            t.position() == self.kicked_position(0),
    {
        let original_state = self.get_rotation_state();
        let target_state = (original_state + 1) % 4;
        let offsets = self.get_srs_wall_kick_offsets(original_state, target_state);
        let mut k: usize = 0;
        while k < 5
            invariant
                k <= 5,
                self.wf(),
                -126 <= self.position().0 <= 125,
                -126 <= self.position().1 <= 125,
                offsets == kick_offsets(shape_index(self.piece_shape()) as u8, self.rotation(), ((self.rotation() + 1) % 4) as u8),
                self.kicked_position(0) == self.kicked_position(k as int),
            decreases 5 - k,
        {
            let offset_x = offsets[k][0];
            let offset_y = offsets[k][1];
            let mut candidate_piece = self.rotated();
            candidate_piece.pos = (candidate_piece.pos.0 + offset_x, candidate_piece.pos.1 + offset_y);
            if self.is_position_valid(&candidate_piece) {
                return candidate_piece;
            }
            k += 1;
        }
        self.rotated()
    }
}

/// Every block offset of every shape lies in `0..4` in both directions.
pub proof fn lemma_shape_offsets_small(shape: TetrominoShape, rot: int, i: int)
    requires
        0 <= rot < 4,
        0 <= i < 4,
    ensures
        0 <= shape_block(shape, rot, i).0 < 4,
        0 <= shape_block(shape, rot, i).1 < 4,
{
}

/// Offset `b` is offset `a` inside a box of `n` by `n` cells turned a
/// quarter clockwise about the box's centre (rows grow downwards).
pub open spec fn quarter_turned(n: int, a: (i8, i8), b: (i8, i8)) -> bool {
    b.0 == n - 1 - a.1 && b.1 == a.0
}

/// Side of the box a shape turns in: four cells for the I and O pieces,
/// three for the others.
pub open spec fn turn_box(shape: TetrominoShape) -> int {
    if shape == TetrominoShape::I || shape == TetrominoShape::O { 4 } else { 3 }
}

/// Each rotation state of a shape is the previous one turned a quarter
/// clockwise about the centre of the shape's box: block `i` of state `rot`,
/// turned, is a block of the next state, and each state has four different
/// blocks.  So a piece keeps its shape as it turns.
pub proof fn lemma_rotation_states_are_quarter_turns(shape: TetrominoShape, rot: int, i: int)
    requires
        0 <= rot < 4,
        0 <= i < 4,
    ensures
        forall|k: int, j: int| 0 <= k < j < 4 ==> shape_block(shape, rot, k) != shape_block(shape, rot, j),
        exists|j: int| #![trigger shape_block(shape, (rot + 1) % 4, j)]
            0 <= j < 4 && quarter_turned(turn_box(shape), shape_block(shape, rot, i), shape_block(shape, (rot + 1) % 4, j)),
{
    let a = shape_block(shape, rot, i);
    let n = turn_box(shape);
    let next = (rot + 1) % 4;
    if quarter_turned(n, a, shape_block(shape, next, 0)) {
        assert(quarter_turned(n, a, shape_block(shape, (rot + 1) % 4, 0)));
    } else if quarter_turned(n, a, shape_block(shape, next, 1)) {
        assert(quarter_turned(n, a, shape_block(shape, (rot + 1) % 4, 1)));
    } else if quarter_turned(n, a, shape_block(shape, next, 2)) {
        assert(quarter_turned(n, a, shape_block(shape, (rot + 1) % 4, 2)));
    } else {
        assert(quarter_turned(n, a, shape_block(shape, (rot + 1) % 4, 3)));
    }
}

/// Four quarter turns clockwise give back the piece.
pub proof fn lemma_four_clockwise_turns_restore(t: Tetromino, t1: Tetromino, t2: Tetromino, t3: Tetromino, t4: Tetromino)
    requires
        t.in_shape(),
        t1.is_cw_turn_of(t),
        t2.is_cw_turn_of(t1),
        t3.is_cw_turn_of(t2),
        t4.is_cw_turn_of(t3),
    ensures
        t4.same_piece(t),
{
    lemma_turn_keeps_colors(t1, t);
    lemma_turn_keeps_colors(t2, t1);
    lemma_turn_keeps_colors(t3, t2);
    lemma_turn_keeps_colors(t4, t3);
}

/// A quarter turn clockwise followed by one counter-clockwise gives back the
/// piece.
pub proof fn lemma_clockwise_then_counter_clockwise_restores(t: Tetromino, t1: Tetromino, t2: Tetromino)
    requires
        t.in_shape(),
        t1.is_cw_turn_of(t),
        t2.is_ccw_turn_of(t1),
    ensures
        t2.same_piece(t),
{
    lemma_turn_keeps_colors(t1, t);
    assert(t2.colors_seq() =~= t1.colors_seq());
}

/// A quarter turn counter-clockwise followed by one clockwise gives back the
/// piece.
pub proof fn lemma_counter_clockwise_then_clockwise_restores(t: Tetromino, t1: Tetromino, t2: Tetromino)
    requires
        t.in_shape(),
        t1.is_ccw_turn_of(t),
        t2.is_cw_turn_of(t1),
    ensures
        t2.same_piece(t),
{
    assert(t1.colors_seq() =~= t.colors_seq());
    assert(t2.colors_seq() =~= t1.colors_seq());
}

/// Turning keeps the colour of every block.
pub proof fn lemma_turn_keeps_colors(u: Tetromino, t: Tetromino)
    requires
        t.wf(),
        u.is_cw_turn_of(t) || u.is_ccw_turn_of(t),
    ensures
        u.colors_seq() == t.colors_seq(),
        u.in_shape(),
{
    assert(u.colors_seq() =~= t.colors_seq());
}

/// Moving a piece and moving it back gives back the piece.
pub proof fn lemma_move_and_back_restores(t: Tetromino, t1: Tetromino, t2: Tetromino, dx: int, dy: int)
    requires
        i8::MIN <= t.position().0 + dx <= i8::MAX,
        i8::MIN <= t.position().1 + dy <= i8::MAX,
        t1.is_move_of(t, dx, dy),
        t2.is_move_of(t1, -dx, -dy),
    ensures
        t2.same_piece(t),
{
}

/// Number of random colourings tried for a new piece before the chequered
/// colouring is used: as many as a `u64` counts.  Every draw has a proper
/// colouring among its outcomes, so the game keeps drawing until one comes;
/// the bound only gives the loop an end that the verifier can see.
pub const MAX_COLORING_ATTEMPTS: u64 = 18_446_744_073_709_551_615;

/// The bag of the seven-piece randomiser: the shapes still to hand out, and
/// the random source that shuffles each refill.
#[derive(Debug)]
pub struct TetrominoBag {
    bag: Vec<TetrominoShape>,
    random_provider: RandomProviderImpl,
}

/// The multiset of the seven shapes, each once.
pub open spec fn full_bag() -> Multiset<TetrominoShape> {
    all_shapes_seq().to_multiset()
}

impl TetrominoBag {
    /// The shapes still in the bag; the last one is handed out next.
    pub closed spec fn contents(&self) -> Seq<TetrominoShape> {
        self.bag@
    }

    /// The random source that shuffles each refill.
    pub closed spec fn source(&self) -> RandomProviderImpl {
        self.random_provider
    }

    /// The random source can hand out values.
    pub closed spec fn can_draw(&self) -> bool {
        self.random_provider.can_draw()
    }

    /// `self` is `before` after handing out `s`: from an empty bag, a shuffled
    /// refill of all seven shapes less `s`; otherwise the bag less its last
    /// shape, which is `s`.
    pub open spec fn is_draw_from(&self, s: TetrominoShape, before: TetrominoBag) -> bool {
        &&& self.can_draw()
        &&& if before.contents().len() == 0 {
            &&& self.contents().len() == 6
            &&& self.contents().push(s).to_multiset() == full_bag()
        } else {
            &&& self.contents() == before.contents().drop_last()
            &&& s == before.contents().last()
        }
    }

    /// A full bag shuffled by `random_provider`.
    pub fn with_random_provider(random_provider: RandomProviderImpl) -> (b: Self)
        requires
            random_provider.can_draw(),
        ensures
            b.can_draw(),
            b.contents().len() == 7,
            b.contents().to_multiset() == full_bag(),
            (random_provider is Native) == (b.source() is Native),
            random_provider matches RandomProviderImpl::Deterministic(p) ==> b.source() matches RandomProviderImpl::Deterministic(q) && {
                let outcome = fisher_yates(all_shapes_seq(), p.values_seq(), p.next_index(), 7);
                &&& b.contents() == outcome.0
                &&& q.values_seq() == p.values_seq()
                &&& q.next_index() == outcome.1
            },
    {
        let mut random_provider = random_provider;
        let mut bag = TetrominoShape::all_shapes();
        random_provider.shuffle(&mut bag);
        TetrominoBag { bag, random_provider }
    }

    /// A full bag shuffled by the default random source.
    pub fn new() -> (b: Self)
        ensures
            b.can_draw(),
            b.contents().len() == 7,
            b.contents().to_multiset() == full_bag(),
    {
        Self::with_random_provider(create_default_random_provider())
    }

    /// The next shape: the bag is refilled with all seven shapes, shuffled,
    /// once it is empty.
    pub fn next(&mut self) -> (s: TetrominoShape)
        requires
            old(self).can_draw(),
        ensures
            final(self).is_draw_from(s, *old(self)),
    {
        if self.bag.len() == 0 {
            let mut fresh = TetrominoShape::all_shapes();
            self.random_provider.shuffle(&mut fresh);
            self.bag = fresh;
        }
        let ghost before = self.bag@;
        let s = self.bag.pop().unwrap();
        proof {
            assert(before =~= self.bag@.push(s));
        }
        s
    }
}

/// One shape handed out from a non-empty bag: what remains in the bag plus
/// what has been handed out so far is unchanged.
proof fn lemma_draw_step(before: TetrominoBag, after: TetrominoBag, s: TetrominoShape, taken: Seq<TetrominoShape>)
    requires
        after.is_draw_from(s, before),
        before.contents().len() > 0,
        before.contents().to_multiset().add(taken.to_multiset()) == full_bag(),
    ensures
        after.contents().to_multiset().add(taken.push(s).to_multiset()) == full_bag(),
        after.contents().len() == before.contents().len() - 1,
{
    broadcast use vstd::seq_lib::group_to_multiset_ensures;
    assert(before.contents() =~= after.contents().push(s));
    assert(after.contents().to_multiset().add(taken.push(s).to_multiset())
        =~= before.contents().to_multiset().add(taken.to_multiset()));
}

/// Seven shapes handed out one after the other, starting from an empty or a
/// full bag, are the seven shapes, each once.
pub proof fn lemma_seven_draws_are_all_shapes(
    b0: TetrominoBag,
    draws: Seq<(TetrominoShape, TetrominoBag)>,
)
    requires
        b0.contents().len() == 0 || (b0.contents().len() == 7 && b0.contents().to_multiset() == full_bag()),
        draws.len() == 7,
        draws[0].1.is_draw_from(draws[0].0, b0),
        forall|k: int| #![trigger draws[k]] 1 <= k < 7 ==> draws[k].1.is_draw_from(draws[k].0, draws[k - 1].1),
    ensures
        draws.map_values(|d: (TetrominoShape, TetrominoBag)| d.0).to_multiset() == full_bag(),
{
    broadcast use vstd::seq_lib::group_to_multiset_ensures;
    let shapes = draws.map_values(|d: (TetrominoShape, TetrominoBag)| d.0);
    if b0.contents().len() != 0 {
        assert(b0.contents() =~= draws[0].1.contents().push(draws[0].0));
    }
    assert(draws[0].1.contents().push(draws[0].0).to_multiset() == full_bag());
    assert(draws[0].1.contents().len() == 6);
    assert(shapes.take(1) =~= seq![draws[0].0]);
    assert(draws[0].1.contents().to_multiset().add(shapes.take(1).to_multiset()) =~= full_bag());
    assert(shapes.take(2) =~= shapes.take(1).push(draws[1].0));
    lemma_draw_step(draws[0].1, draws[1].1, draws[1].0, shapes.take(1));
    assert(shapes.take(3) =~= shapes.take(2).push(draws[2].0));
    lemma_draw_step(draws[1].1, draws[2].1, draws[2].0, shapes.take(2));
    assert(shapes.take(4) =~= shapes.take(3).push(draws[3].0));
    lemma_draw_step(draws[2].1, draws[3].1, draws[3].0, shapes.take(3));
    assert(shapes.take(5) =~= shapes.take(4).push(draws[4].0));
    lemma_draw_step(draws[3].1, draws[4].1, draws[4].0, shapes.take(4));
    assert(shapes.take(6) =~= shapes.take(5).push(draws[5].0));
    lemma_draw_step(draws[4].1, draws[5].1, draws[5].0, shapes.take(5));
    assert(shapes.take(7) =~= shapes.take(6).push(draws[6].0));
    lemma_draw_step(draws[5].1, draws[6].1, draws[6].0, shapes.take(6));
    assert(draws[6].1.contents().to_multiset() =~= Multiset::empty());
    assert(shapes.take(7) =~= shapes);
    assert(shapes.to_multiset() =~= full_bag());
}

/// Whether no two touching blocks of `blocks` share a colour.
fn coloring_is_valid(blocks: &Vec<((i8, i8), GameColor)>) -> (r: bool)
    ensures
        r == properly_colored(blocks@),
{
    let n = blocks.len();
    let mut i: usize = 0;
    while i < n
        invariant
            n == blocks@.len(),
            i <= n,
            forall|a: int, b: int| 0 <= a < i && a < b < n && #[trigger] touching(blocks@[a].0, blocks@[b].0)
                ==> blocks@[a].1 != #[trigger] blocks@[b].1,
        decreases n - i,
    {
        let mut j: usize = i + 1;
        while j < n
            invariant
                n == blocks@.len(),
                i < n,
                i + 1 <= j <= n,
                forall|a: int, b: int| 0 <= a < i && a < b < n && #[trigger] touching(blocks@[a].0, blocks@[b].0)
                    ==> blocks@[a].1 != #[trigger] blocks@[b].1,
                forall|b: int| i < b < j && #[trigger] touching(blocks@[i as int].0, blocks@[b].0)
                    ==> blocks@[i as int].1 != blocks@[b].1,
            decreases n - j,
        {
            let (pos1, color1) = blocks[i];
            let (pos2, color2) = blocks[j];
            let dx: i16 = pos1.0 as i16 - pos2.0 as i16;
            let dy: i16 = pos1.1 as i16 - pos2.1 as i16;
            let adx: i16 = if dx < 0 { -dx } else { dx };
            let ady: i16 = if dy < 0 { -dy } else { dy };
            let is_adjacent = adx + ady == 1;
            if is_adjacent && color1 == color2 {
                proof {
                    assert(touching(blocks@[i as int].0, blocks@[j as int].0));
                }
                return false;
            }
            j += 1;
        }
        i += 1;
    }
    true
}

/// The chequered colouring of a block at `offset`: cyan where column plus
/// row is even, magenta where it is odd.
pub open spec fn chequer_color(offset: (i8, i8)) -> GameColor {
    if (offset.0 + offset.1) % 2 == 0 { GameColor::Cyan } else { GameColor::Magenta }
}

/// The chequered colouring of `shape` in rotation state 0.
fn chequered_colors(shape: TetrominoShape) -> (c: [GameColor; 4])
    ensures
        forall|i: int| 0 <= i < 4 ==> #[trigger] c@[i] == chequer_color(shape_block(shape, 0, i)),
{
    let k = shape_number(shape);
    let matrix = SHAPES[k][0];
    let mut c: [GameColor; 4] = [GameColor::Cyan; 4];
    let mut i: usize = 0;
    while i < 4
        invariant
            i <= 4,
            k == shape_index(shape),
            matrix == SHAPES[k as int][0],
            forall|j: int| 0 <= j < i ==> #[trigger] c@[j] == chequer_color(shape_block(shape, 0, j)),
        decreases 4 - i,
    {
        let (x, y) = matrix[i];
        proof {
            lemma_shape_offsets_small(shape, 0, i as int);
        }
        let sum: u8 = (x + y) as u8;
        c[i] = if sum % 2 == 0 { GameColor::Cyan } else { GameColor::Magenta };
        i += 1;
    }
    c
}

/// Two blocks that touch differ in the parity of column plus row, so the
/// chequered colouring of a piece is proper.
proof fn lemma_chequer_is_proper(shape: TetrominoShape)
    ensures
        properly_colored(colored_blocks(shape, 0, Seq::new(4, |i: int| chequer_color(shape_block(shape, 0, i))))),
{
    let colors = Seq::new(4, |i: int| chequer_color(shape_block(shape, 0, i)));
    let blocks = colored_blocks(shape, 0, colors);
    assert forall|i: int, j: int|
        0 <= i < j < blocks.len() && #[trigger] touching(blocks[i].0, blocks[j].0)
            implies blocks[i].1 != #[trigger] blocks[j].1 by {
        let a = blocks[i].0;
        let b = blocks[j].0;
        let d = (a.0 + a.1) - (b.0 + b.1);
        assert(d == 1 || d == -1);
        assert((a.0 + a.1) % 2 != (b.0 + b.1) % 2);
    }
}

/// Each block's colour is one of the piece colours.
pub open spec fn piece_colors_only(blocks: Seq<((i8, i8), GameColor)>) -> bool {
    forall|i: int| 0 <= i < blocks.len() ==> is_piece_color(#[trigger] blocks[i].1)
}

impl Tetromino {
    /// A new piece: the next shape of `bag`, in rotation state 0 at the spawn
    /// position, its blocks painted with colours of the palette drawn at
    /// random until no two touching blocks share a colour.  After
    /// `MAX_COLORING_ATTEMPTS` failed draws the chequered colouring is used.
    pub fn new_random(bag: &mut TetrominoBag) -> (t: Self)
        requires
            old(bag).can_draw(),
        ensures
            final(bag).is_draw_from(t.piece_shape(), *old(bag)),
            t.in_shape(),
            t.rotation() == 0,
            t.position() == (SPAWN_X, 0i8),
            piece_colors_only(t.blocks_seq()),
            properly_colored(t.blocks_seq()),
    {
        let shape = bag.next();
        let palette: [GameColor; 3] = COLOR_PALETTE;
        let mut attempts: u64 = 0;
        while attempts < MAX_COLORING_ATTEMPTS
            invariant
                palette@ == COLOR_PALETTE@,
                bag.is_draw_from(shape, *old(bag)),
            decreases MAX_COLORING_ATTEMPTS - attempts,
        {
            let mut provider = create_default_random_provider();
            let c0 = *provider.choose_element(palette.as_slice()).unwrap();
            let c1 = *provider.choose_element(palette.as_slice()).unwrap();
            let c2 = *provider.choose_element(palette.as_slice()).unwrap();
            let c3 = *provider.choose_element(palette.as_slice()).unwrap();
            let colors = [c0, c1, c2, c3];
            let tetromino = Self::from_shape(shape, colors);
            if coloring_is_valid(&tetromino.blocks) {
                proof {
                    assert(piece_colors_only(tetromino.blocks_seq()));
                }
                return tetromino;
            }
            attempts += 1;
        }
        let colors = chequered_colors(shape);
        let tetromino = Self::from_shape(shape, colors);
        proof {
            lemma_chequer_is_proper(shape);
            assert(colors@ =~= Seq::new(4, |i: int| chequer_color(shape_block(shape, 0, i))));
        }
        tetromino
    }
}

} // verus!
