//! Pieces of the browser front end: a shape number, a position on the
//! board, a rotation and one colour per block; and the seven-piece bag that
//! deals their shapes.
use vstd::prelude::*;
use crate::config::BOARD_WIDTH;
use crate::tetromino::{quarter_turned, shape_block, shape_index};
use crate::game_color::{GameColor, is_piece_color};
use crate::random::{RandomProvider, RandomProviderImpl, create_default_random_provider};

verus! {

/// The seven shapes, numbered 0 to 6.
#[derive(Debug, Clone, Copy, PartialEq, Eq, Structural)]
pub enum TetrominoShape {
    I,
    O,
    T,
    L,
    J,
    S,
    Z,
}

/// Number of a shape: I 0, O 1, T 2, L 3, J 4, S 5, Z 6.
pub open spec fn shape_code(s: TetrominoShape) -> u8 {
    match s {
        TetrominoShape::I => 0,
        TetrominoShape::O => 1,
        TetrominoShape::T => 2,
        TetrominoShape::L => 3,
        TetrominoShape::J => 4,
        TetrominoShape::S => 5,
        TetrominoShape::Z => 6,
    }
}

/// The seven shapes in the order I, O, T, L, J, S, Z.
pub open spec fn web_shapes_seq() -> Seq<TetrominoShape> {
    seq![
        TetrominoShape::I,
        TetrominoShape::O,
        TetrominoShape::T,
        TetrominoShape::L,
        TetrominoShape::J,
        TetrominoShape::S,
        TetrominoShape::Z,
    ]
}

impl TetrominoShape {
    /// Every shape once, in the order I, O, T, L, J, S, Z.
    pub fn all_shapes() -> (r: Vec<TetrominoShape>)
        ensures
            r@ == web_shapes_seq(),
    {
        let r = vec![
            TetrominoShape::I,
            TetrominoShape::O,
            TetrominoShape::T,
            TetrominoShape::L,
            TetrominoShape::J,
            TetrominoShape::S,
            TetrominoShape::Z,
        ];
        assert(r@ =~= web_shapes_seq());
        r
    }

    /// The shape's number.
    pub fn code(&self) -> (c: u8)
        ensures
            c == shape_code(*self),
    {
        match self {
            TetrominoShape::I => 0,
            TetrominoShape::O => 1,
            TetrominoShape::T => 2,
            TetrominoShape::L => 3,
            TetrominoShape::J => 4,
            TetrominoShape::S => 5,
            TetrominoShape::Z => 6,
        }
    }
}

/// The seven-piece bag of the browser front end; each refill is shuffled by
/// a fresh default random source.
#[derive(Debug)]
pub struct WebTetrominoBag {
    bag: Vec<TetrominoShape>,
}

impl WebTetrominoBag {
    /// The shapes still in the bag; the last one is dealt next.
    pub closed spec fn contents(&self) -> Seq<TetrominoShape> {
        self.bag@
    }

    /// A full bag, shuffled.
    pub fn new() -> (b: Self)
        ensures
            b.contents().len() == 7,
            b.contents().to_multiset() == web_shapes_seq().to_multiset(),
    {
        let mut bag = TetrominoShape::all_shapes();
        let mut provider = create_default_random_provider();
        provider.shuffle(&mut bag);
        WebTetrominoBag { bag }
    }

    /// The next shape; the bag is refilled with all seven shapes, shuffled,
    /// once it is empty.
    pub fn next(&mut self) -> (s: TetrominoShape)
        ensures
            old(self).contents().len() > 0 ==> final(self).contents() == old(self).contents().drop_last()
                && s == old(self).contents().last(),
            old(self).contents().len() == 0 ==> final(self).contents().len() == 6
                && final(self).contents().push(s).to_multiset() == web_shapes_seq().to_multiset(),
    {
        if self.bag.len() == 0 {
            let mut fresh = TetrominoShape::all_shapes();
            let mut provider = create_default_random_provider();
            provider.shuffle(&mut fresh);
            self.bag = fresh;
        }
        let ghost before = self.bag@;
        let s = self.bag.pop().unwrap();
        proof {
            assert(before =~= self.bag@.push(s));
        }
        s
    }
}

/// Block offsets of shape number `shape` in rotation state `rotation` (an
/// unknown rotation counts as state 0; an unknown shape has one block at the
/// origin).
pub open spec fn web_blocks(shape: u8, rotation: u8) -> Seq<(i8, i8)> {
    match shape {
        0 => if rotation == 1 { seq![(2i8, 3i8), (2i8, 2i8), (2i8, 1i8), (2i8, 0i8)] } else if rotation == 2 { seq![(3i8, 2i8), (2i8, 2i8), (1i8, 2i8), (0i8, 2i8)] } else if rotation == 3 { seq![(1i8, 0i8), (1i8, 1i8), (1i8, 2i8), (1i8, 3i8)] } else { seq![(0i8, 1i8), (1i8, 1i8), (2i8, 1i8), (3i8, 1i8)] },
        1 => if rotation == 1 { seq![(2i8, 1i8), (2i8, 2i8), (1i8, 2i8), (1i8, 1i8)] } else if rotation == 2 { seq![(2i8, 2i8), (1i8, 2i8), (2i8, 1i8), (1i8, 1i8)] } else if rotation == 3 { seq![(1i8, 2i8), (1i8, 1i8), (2i8, 1i8), (2i8, 2i8)] } else { seq![(1i8, 1i8), (2i8, 1i8), (1i8, 2i8), (2i8, 2i8)] },
        2 => if rotation == 1 { seq![(2i8, 1i8), (1i8, 0i8), (1i8, 1i8), (1i8, 2i8)] } else if rotation == 2 { seq![(1i8, 2i8), (2i8, 1i8), (1i8, 1i8), (0i8, 1i8)] } else if rotation == 3 { seq![(0i8, 1i8), (1i8, 2i8), (1i8, 1i8), (1i8, 0i8)] } else { seq![(1i8, 0i8), (0i8, 1i8), (1i8, 1i8), (2i8, 1i8)] },
        3 => if rotation == 1 { seq![(2i8, 2i8), (1i8, 0i8), (1i8, 1i8), (1i8, 2i8)] } else if rotation == 2 { seq![(0i8, 2i8), (2i8, 1i8), (1i8, 1i8), (0i8, 1i8)] } else if rotation == 3 { seq![(0i8, 0i8), (1i8, 2i8), (1i8, 1i8), (1i8, 0i8)] } else { seq![(2i8, 0i8), (0i8, 1i8), (1i8, 1i8), (2i8, 1i8)] },
        4 => if rotation == 1 { seq![(2i8, 0i8), (1i8, 0i8), (1i8, 1i8), (1i8, 2i8)] } else if rotation == 2 { seq![(2i8, 2i8), (2i8, 1i8), (1i8, 1i8), (0i8, 1i8)] } else if rotation == 3 { seq![(0i8, 2i8), (1i8, 2i8), (1i8, 1i8), (1i8, 0i8)] } else { seq![(0i8, 0i8), (0i8, 1i8), (1i8, 1i8), (2i8, 1i8)] },
        5 => if rotation == 1 { seq![(2i8, 1i8), (2i8, 2i8), (1i8, 0i8), (1i8, 1i8)] } else if rotation == 2 { seq![(1i8, 2i8), (0i8, 2i8), (2i8, 1i8), (1i8, 1i8)] } else if rotation == 3 { seq![(0i8, 1i8), (0i8, 0i8), (1i8, 2i8), (1i8, 1i8)] } else { seq![(1i8, 0i8), (2i8, 0i8), (0i8, 1i8), (1i8, 1i8)] },
        6 => if rotation == 1 { seq![(2i8, 0i8), (1i8, 1i8), (2i8, 1i8), (1i8, 2i8)] } else if rotation == 2 { seq![(0i8, 1i8), (1i8, 1i8), (1i8, 2i8), (2i8, 2i8)] } else if rotation == 3 { seq![(1i8, 0i8), (0i8, 1i8), (1i8, 1i8), (0i8, 2i8)] } else { seq![(0i8, 0i8), (1i8, 0i8), (1i8, 1i8), (2i8, 1i8)] },
        _ => seq![(0i8, 0i8)],
    }
}

/// Side of the box a browser shape turns in: four cells for the I and O
/// pieces (numbers 0 and 1), three for the others.
pub open spec fn web_turn_box(shape: u8) -> int {
    if shape <= 1 { 4 } else { 3 }
}

/// Each rotation state of a browser shape is the previous one turned a
/// quarter clockwise about the centre of the shape's box: block `i` of
/// state `rot`, turned, is a block of the next state; each state has four
/// different blocks.  So a browser piece keeps its shape as it turns.
pub proof fn lemma_web_rotation_states_are_quarter_turns(shape: u8, rot: u8, i: int)
    requires
        shape < 7,
        rot < 4,
        0 <= i < 4,
    ensures
        web_blocks(shape, rot).len() == 4,
        forall|k: int, j: int| 0 <= k < j < 4 ==> web_blocks(shape, rot)[k] != web_blocks(shape, rot)[j],
        exists|j: int| #![trigger web_blocks(shape, ((rot + 1) % 4) as u8)[j]]
            0 <= j < 4 && quarter_turned(web_turn_box(shape), web_blocks(shape, rot)[i], web_blocks(shape, ((rot + 1) % 4) as u8)[j]),
{
    let a = web_blocks(shape, rot)[i];
    let n = web_turn_box(shape);
    let next = web_blocks(shape, ((rot + 1) % 4) as u8);
    if quarter_turned(n, a, next[0]) {
    } else if quarter_turned(n, a, next[1]) {
    } else if quarter_turned(n, a, next[2]) {
    } else {
        assert(quarter_turned(n, a, next[3]));
    }
}

/// The browser pieces have the blocks of the terminal pieces: in every
/// rotation state, each block of the browser shape numbered as the
/// terminal shape (`shape_index`) is a block of the terminal shape in that
/// state.
pub proof fn lemma_web_blocks_match_terminal_shapes(shape: crate::tetromino::TetrominoShape, rot: u8, i: int)
    requires
        rot < 4,
        0 <= i < 4,
    ensures
        web_blocks(shape_index(shape) as u8, rot).len() == 4,
        exists|j: int| #![trigger shape_block(shape, rot as int, j)]
            0 <= j < 4 && web_blocks(shape_index(shape) as u8, rot)[i] == shape_block(shape, rot as int, j),
{
    let b = web_blocks(shape_index(shape) as u8, rot)[i];
    if b == shape_block(shape, rot as int, 0) {
    } else if b == shape_block(shape, rot as int, 1) {
    } else if b == shape_block(shape, rot as int, 2) {
    } else {
        assert(b == shape_block(shape, rot as int, 3));
    }
}

/// A piece of the browser front end.
#[derive(Debug, Clone)]
pub struct SimpleTetromino {
    pub x: usize,
    pub y: usize,
    pub rotation: u8,
    pub colors: Vec<GameColor>,
    pub shape: u8,
}

/// The colours new pieces are drawn from.
pub open spec fn web_palette() -> Seq<GameColor> {
    seq![GameColor::Cyan, GameColor::Magenta, GameColor::Yellow]
}

/// Four colours drawn from the palette with `provider`.
fn draw_colors(provider: &mut RandomProviderImpl) -> (c: Vec<GameColor>)
    requires
        old(provider).can_draw(),
    ensures
        final(provider).can_draw(),
        c@.len() == 4,
        forall|i: int| 0 <= i < 4 ==> is_piece_color(#[trigger] c@[i]),
{
    let color_palette = [GameColor::Cyan, GameColor::Magenta, GameColor::Yellow];
    let mut colors: Vec<GameColor> = Vec::new();
    let mut i: usize = 0;
    while i < 4
        invariant
            i <= 4,
            provider.can_draw(),
            color_palette@ == web_palette(),
            colors@.len() == i,
            forall|j: int| 0 <= j < i ==> is_piece_color(#[trigger] colors@[j]),
        decreases 4 - i,
    {
        let k = provider.gen_range(0, 3);
        colors.push(color_palette[k]);
        i += 1;
    }
    colors
}

impl SimpleTetromino {
    /// A piece of random shape at the spawn position (column 3, row 0), in
    /// rotation state 0, its four blocks painted with random palette colours.
    pub fn new_random() -> (t: Self)
        ensures
            t.x == 3 && t.y == 0 && t.rotation == 0,
            t.shape < 7,
            t.colors@.len() == 4,
            forall|i: int| 0 <= i < 4 ==> is_piece_color(#[trigger] t.colors@[i]),
    {
        let mut provider = create_default_random_provider();
        let shape = provider.gen_range(0, 7) as u8;
        let colors = draw_colors(&mut provider);
        SimpleTetromino { x: BOARD_WIDTH / 2 - 2, y: 0, rotation: 0, colors, shape }
    }

    /// A piece of `shape` at the spawn position in rotation state 0, its
    /// blocks painted with random palette colours.
    pub fn from_shape(shape: TetrominoShape) -> (t: Self)
        ensures
            t.x == 3 && t.y == 0 && t.rotation == 0,
            t.shape == shape_code(shape),
            t.colors@.len() == 4,
            forall|i: int| 0 <= i < 4 ==> is_piece_color(#[trigger] t.colors@[i]),
    {
        let mut provider = create_default_random_provider();
        let colors = draw_colors(&mut provider);
        SimpleTetromino { x: BOARD_WIDTH / 2 - 2, y: 0, rotation: 0, colors, shape: shape.code() }
    }

    /// Block offsets in rotation state 0.
    pub fn get_blocks(&self) -> (r: Vec<(i8, i8)>)
        ensures
            r@ == web_blocks(self.shape, 0),
    {
        self.get_blocks_at_rotation(0)
    }

    /// Block offsets in rotation state `rotation` (see `web_blocks`).
    pub fn get_blocks_at_rotation(&self, rotation: u8) -> (r: Vec<(i8, i8)>)
        ensures
            r@ == web_blocks(self.shape, rotation),
    {
        let r = match self.shape {
            0 => match rotation {
                1 => vec![(2, 3), (2, 2), (2, 1), (2, 0)],
                2 => vec![(3, 2), (2, 2), (1, 2), (0, 2)],
                3 => vec![(1, 0), (1, 1), (1, 2), (1, 3)],
                _ => vec![(0, 1), (1, 1), (2, 1), (3, 1)],
            },
            1 => match rotation {
                1 => vec![(2, 1), (2, 2), (1, 2), (1, 1)],
                2 => vec![(2, 2), (1, 2), (2, 1), (1, 1)],
                3 => vec![(1, 2), (1, 1), (2, 1), (2, 2)],
                _ => vec![(1, 1), (2, 1), (1, 2), (2, 2)],
            },
            2 => match rotation {
                1 => vec![(2, 1), (1, 0), (1, 1), (1, 2)],
                2 => vec![(1, 2), (2, 1), (1, 1), (0, 1)],
                3 => vec![(0, 1), (1, 2), (1, 1), (1, 0)],
                _ => vec![(1, 0), (0, 1), (1, 1), (2, 1)],
            },
            3 => match rotation {
                1 => vec![(2, 2), (1, 0), (1, 1), (1, 2)],
                2 => vec![(0, 2), (2, 1), (1, 1), (0, 1)],
                3 => vec![(0, 0), (1, 2), (1, 1), (1, 0)],
                _ => vec![(2, 0), (0, 1), (1, 1), (2, 1)],
            },
            4 => match rotation {
                1 => vec![(2, 0), (1, 0), (1, 1), (1, 2)],
                2 => vec![(2, 2), (2, 1), (1, 1), (0, 1)],
                3 => vec![(0, 2), (1, 2), (1, 1), (1, 0)],
                _ => vec![(0, 0), (0, 1), (1, 1), (2, 1)],
            },
            5 => match rotation {
                1 => vec![(2, 1), (2, 2), (1, 0), (1, 1)],
                2 => vec![(1, 2), (0, 2), (2, 1), (1, 1)],
                3 => vec![(0, 1), (0, 0), (1, 2), (1, 1)],
                _ => vec![(1, 0), (2, 0), (0, 1), (1, 1)],
            },
            6 => match rotation {
                1 => vec![(2, 0), (1, 1), (2, 1), (1, 2)],
                2 => vec![(0, 1), (1, 1), (1, 2), (2, 2)],
                3 => vec![(1, 0), (0, 1), (1, 1), (0, 2)],
                _ => vec![(0, 0), (1, 0), (1, 1), (2, 1)],
            },
            _ => vec![(0, 0)],
        };
        assert(r@ =~= web_blocks(self.shape, rotation));
        r
    }
}

} // verus!
