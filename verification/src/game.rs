//! The pieces, their rotations, and the game as it starts.
use vstd::prelude::*;

use crate::board::{empty_row, empty_rows, new_empty_row, BLOCK_NUM_Y};

verus! {

/// Whether a game is under way or has ended.
#[allow(non_camel_case_types)]
#[derive(Clone, Copy, Debug, PartialEq, Eq, Structural)]
pub enum State {
    PLAYING,
    GAMEOVER,
}

/// The pieces with their rotations, the field of settled blocks, and the state.
pub struct Game {
    /// `tetriminoes[shape][rotate][row][col]`: 1 where the piece has a block.
    pub tetriminoes: Vec<Vec<Vec<Vec<u8>>>>,
    /// `stage[row][col]`: 1 where a block has settled.
    pub stage: Vec<Vec<u8>>,
    pub state: State,
}

/// The rotations of the O-shaped piece.
pub open spec fn shape_o() -> Seq<Seq<Seq<u8>>> {
    seq![
        seq![
            seq![0u8, 0, 0, 0, 0],
            seq![0u8, 1, 1, 0, 0],
            seq![0u8, 1, 1, 0, 0],
            seq![0u8, 0, 0, 0, 0],
            seq![0u8, 0, 0, 0, 0],
        ],
        seq![
            seq![0u8, 0, 0, 0, 0],
            seq![0u8, 1, 1, 0, 0],
            seq![0u8, 1, 1, 0, 0],
            seq![0u8, 0, 0, 0, 0],
            seq![0u8, 0, 0, 0, 0],
        ],
        seq![
            seq![0u8, 0, 0, 0, 0],
            seq![0u8, 1, 1, 0, 0],
            seq![0u8, 1, 1, 0, 0],
            seq![0u8, 0, 0, 0, 0],
            seq![0u8, 0, 0, 0, 0],
        ],
        seq![
            seq![0u8, 0, 0, 0, 0],
            seq![0u8, 1, 1, 0, 0],
            seq![0u8, 1, 1, 0, 0],
            seq![0u8, 0, 0, 0, 0],
            seq![0u8, 0, 0, 0, 0],
        ],
    ]
}

/// The rotations of the I-shaped piece.
pub open spec fn shape_i() -> Seq<Seq<Seq<u8>>> {
    seq![
        seq![
            seq![0u8, 0, 1, 0, 0],
            seq![0u8, 0, 1, 0, 0],
            seq![0u8, 0, 1, 0, 0],
            seq![0u8, 0, 1, 0, 0],
            seq![0u8, 0, 0, 0, 0],
        ],
        seq![
            seq![0u8, 0, 0, 0, 0],
            seq![0u8, 0, 0, 0, 0],
            seq![1u8, 1, 1, 1, 0],
            seq![0u8, 0, 0, 0, 0],
            seq![0u8, 0, 0, 0, 0],
        ],
        seq![
            seq![0u8, 0, 0, 0, 0],
            seq![0u8, 0, 1, 0, 0],
            seq![0u8, 0, 1, 0, 0],
            seq![0u8, 0, 1, 0, 0],
            seq![0u8, 0, 1, 0, 0],
        ],
        seq![
            seq![0u8, 0, 0, 0, 0],
            seq![0u8, 0, 0, 0, 0],
            seq![0u8, 1, 1, 1, 1],
            seq![0u8, 0, 0, 0, 0],
            seq![0u8, 0, 0, 0, 0],
        ],
    ]
}

/// The rotations of the T-shaped piece.
pub open spec fn shape_t() -> Seq<Seq<Seq<u8>>> {
    seq![
        seq![
            seq![0u8, 0, 0, 0, 0],
            seq![0u8, 0, 0, 0, 0],
            seq![0u8, 1, 1, 1, 0],
            seq![0u8, 0, 1, 0, 0],
            seq![0u8, 0, 0, 0, 0],
        ],
        seq![
            seq![0u8, 0, 0, 0, 0],
            seq![0u8, 0, 1, 0, 0],
            seq![0u8, 0, 1, 1, 0],
            seq![0u8, 0, 1, 0, 0],
            seq![0u8, 0, 0, 0, 0],
        ],
        seq![
            seq![0u8, 0, 0, 0, 0],
            seq![0u8, 0, 1, 0, 0],
            seq![0u8, 1, 1, 1, 0],
            seq![0u8, 0, 0, 0, 0],
            seq![0u8, 0, 0, 0, 0],
        ],
        seq![
            seq![0u8, 0, 0, 0, 0],
            seq![0u8, 0, 1, 0, 0],
            seq![0u8, 1, 1, 0, 0],
            seq![0u8, 0, 1, 0, 0],
            seq![0u8, 0, 0, 0, 0],
        ],
    ]
}

/// The rotations of the J-shaped piece.
pub open spec fn shape_j() -> Seq<Seq<Seq<u8>>> {
    seq![
        seq![
            seq![0u8, 0, 0, 0, 0],
            seq![0u8, 0, 1, 0, 0],
            seq![0u8, 0, 1, 0, 0],
            seq![0u8, 1, 1, 0, 0],
            seq![0u8, 0, 0, 0, 0],
        ],
        seq![
            seq![0u8, 0, 0, 0, 0],
            seq![0u8, 0, 0, 0, 0],
            seq![0u8, 1, 1, 1, 0],
            seq![0u8, 0, 0, 1, 0],
            seq![0u8, 0, 0, 0, 0],
        ],
        seq![
            seq![0u8, 0, 0, 0, 0],
            seq![0u8, 0, 1, 1, 0],
            seq![0u8, 0, 1, 0, 0],
            seq![0u8, 0, 1, 0, 0],
            seq![0u8, 0, 0, 0, 0],
        ],
        seq![
            seq![0u8, 0, 0, 0, 0],
            seq![0u8, 1, 0, 0, 0],
            seq![0u8, 1, 1, 1, 0],
            seq![0u8, 0, 0, 0, 0],
            seq![0u8, 0, 0, 0, 0],
        ],
    ]
}

/// The rotations of the L-shaped piece.
pub open spec fn shape_l() -> Seq<Seq<Seq<u8>>> {
    seq![
        seq![
            seq![0u8, 0, 0, 0, 0],
            seq![0u8, 0, 1, 0, 0],
            seq![0u8, 0, 1, 0, 0],
            seq![0u8, 0, 1, 1, 0],
            seq![0u8, 0, 0, 0, 0],
        ],
        seq![
            seq![0u8, 0, 0, 0, 0],
            seq![0u8, 0, 0, 1, 0],
            seq![0u8, 1, 1, 1, 0],
            seq![0u8, 0, 0, 0, 0],
            seq![0u8, 0, 0, 0, 0],
        ],
        seq![
            seq![0u8, 0, 0, 0, 0],
            seq![0u8, 1, 1, 0, 0],
            seq![0u8, 0, 1, 0, 0],
            seq![0u8, 0, 1, 0, 0],
            seq![0u8, 0, 0, 0, 0],
        ],
        seq![
            seq![0u8, 0, 0, 0, 0],
            seq![0u8, 0, 0, 0, 0],
            seq![0u8, 1, 1, 1, 0],
            seq![0u8, 1, 0, 0, 0],
            seq![0u8, 0, 0, 0, 0],
        ],
    ]
}

/// The rotations of the S-shaped piece.
pub open spec fn shape_s() -> Seq<Seq<Seq<u8>>> {
    seq![
        seq![
            seq![0u8, 0, 0, 0, 0],
            seq![0u8, 0, 1, 1, 0],
            seq![0u8, 1, 1, 0, 0],
            seq![0u8, 0, 0, 0, 0],
            seq![0u8, 0, 0, 0, 0],
        ],
        seq![
            seq![0u8, 0, 0, 0, 0],
            seq![0u8, 1, 0, 0, 0],
            seq![0u8, 1, 1, 0, 0],
            seq![0u8, 0, 1, 0, 0],
            seq![0u8, 0, 0, 0, 0],
        ],
        seq![
            seq![0u8, 0, 0, 0, 0],
            seq![0u8, 0, 0, 0, 0],
            seq![0u8, 0, 1, 1, 0],
            seq![0u8, 1, 1, 0, 0],
            seq![0u8, 0, 0, 0, 0],
        ],
        seq![
            seq![0u8, 0, 0, 0, 0],
            seq![0u8, 0, 1, 0, 0],
            seq![0u8, 0, 1, 1, 0],
            seq![0u8, 0, 0, 1, 0],
            seq![0u8, 0, 0, 0, 0],
        ],
    ]
}

/// The rotations of the Z-shaped piece.
pub open spec fn shape_z() -> Seq<Seq<Seq<u8>>> {
    seq![
        seq![
            seq![0u8, 0, 0, 0, 0],
            seq![0u8, 1, 1, 0, 0],
            seq![0u8, 0, 1, 1, 0],
            seq![0u8, 0, 0, 0, 0],
            seq![0u8, 0, 0, 0, 0],
        ],
        seq![
            seq![0u8, 0, 0, 0, 0],
            seq![0u8, 0, 1, 0, 0],
            seq![0u8, 1, 1, 0, 0],
            seq![0u8, 1, 0, 0, 0],
            seq![0u8, 0, 0, 0, 0],
        ],
        seq![
            seq![0u8, 0, 0, 0, 0],
            seq![0u8, 0, 0, 0, 0],
            seq![0u8, 1, 1, 0, 0],
            seq![0u8, 0, 1, 1, 0],
            seq![0u8, 0, 0, 0, 0],
        ],
        seq![
            seq![0u8, 0, 0, 0, 0],
            seq![0u8, 0, 0, 1, 0],
            seq![0u8, 0, 1, 1, 0],
            seq![0u8, 0, 1, 0, 0],
            seq![0u8, 0, 0, 0, 0],
        ],
        seq![
            seq![0u8, 0, 0],
            seq![0u8, 1, 1],
            seq![1u8, 1, 0],
        ],
        seq![
            seq![0u8, 1, 0],
            seq![0u8, 1, 1],
            seq![0u8, 0, 1],
        ],
        seq![
            seq![0u8, 1, 1],
            seq![1u8, 1, 0],
            seq![0u8, 0, 0],
        ],
        seq![
            seq![1u8, 0, 0],
            seq![1u8, 1, 0],
            seq![0u8, 1, 0],
        ],
    ]
}

/// All pieces, in the order the game numbers them.
pub open spec fn tetrimino_table() -> Seq<Seq<Seq<Seq<u8>>>> {
    seq![shape_o(), shape_i(), shape_t(), shape_j(), shape_l(), shape_s(), shape_z()]
}

/// The field with no settled block.
pub open spec fn empty_stage() -> Seq<Seq<u8>> {
    empty_rows(BLOCK_NUM_Y as nat)
}

fn build_shape_o() -> (s: Vec<Vec<Vec<u8>>>)
    ensures
        s.deep_view() == shape_o(),
{
    let s = vec![
        vec![
            vec![0, 0, 0, 0, 0],
            vec![0, 1, 1, 0, 0],
            vec![0, 1, 1, 0, 0],
            vec![0, 0, 0, 0, 0],
            vec![0, 0, 0, 0, 0],
        ],
        vec![
            vec![0, 0, 0, 0, 0],
            vec![0, 1, 1, 0, 0],
            vec![0, 1, 1, 0, 0],
            vec![0, 0, 0, 0, 0],
            vec![0, 0, 0, 0, 0],
        ],
        vec![
            vec![0, 0, 0, 0, 0],
            vec![0, 1, 1, 0, 0],
            vec![0, 1, 1, 0, 0],
            vec![0, 0, 0, 0, 0],
            vec![0, 0, 0, 0, 0],
        ],
        vec![
            vec![0, 0, 0, 0, 0],
            vec![0, 1, 1, 0, 0],
            vec![0, 1, 1, 0, 0],
            vec![0, 0, 0, 0, 0],
            vec![0, 0, 0, 0, 0],
        ],
    ];
    assert(s.deep_view() =~~= shape_o());
    s
}

fn build_shape_i() -> (s: Vec<Vec<Vec<u8>>>)
    ensures
        s.deep_view() == shape_i(),
{
    let s = vec![
        vec![
            vec![0, 0, 1, 0, 0],
            vec![0, 0, 1, 0, 0],
            vec![0, 0, 1, 0, 0],
            vec![0, 0, 1, 0, 0],
            vec![0, 0, 0, 0, 0],
        ],
        vec![
            vec![0, 0, 0, 0, 0],
            vec![0, 0, 0, 0, 0],
            vec![1, 1, 1, 1, 0],
            vec![0, 0, 0, 0, 0],
            vec![0, 0, 0, 0, 0],
        ],
        vec![
            vec![0, 0, 0, 0, 0],
            vec![0, 0, 1, 0, 0],
            vec![0, 0, 1, 0, 0],
            vec![0, 0, 1, 0, 0],
            vec![0, 0, 1, 0, 0],
        ],
        vec![
            vec![0, 0, 0, 0, 0],
            vec![0, 0, 0, 0, 0],
            vec![0, 1, 1, 1, 1],
            vec![0, 0, 0, 0, 0],
            vec![0, 0, 0, 0, 0],
        ],
    ];
    assert(s.deep_view() =~~= shape_i());
    s
}

fn build_shape_t() -> (s: Vec<Vec<Vec<u8>>>)
    ensures
        s.deep_view() == shape_t(),
{
    let s = vec![
        vec![
            vec![0, 0, 0, 0, 0],
            vec![0, 0, 0, 0, 0],
            vec![0, 1, 1, 1, 0],
            vec![0, 0, 1, 0, 0],
            vec![0, 0, 0, 0, 0],
        ],
        vec![
            vec![0, 0, 0, 0, 0],
            vec![0, 0, 1, 0, 0],
            vec![0, 0, 1, 1, 0],
            vec![0, 0, 1, 0, 0],
            vec![0, 0, 0, 0, 0],
        ],
        vec![
            vec![0, 0, 0, 0, 0],
            vec![0, 0, 1, 0, 0],
            vec![0, 1, 1, 1, 0],
            vec![0, 0, 0, 0, 0],
            vec![0, 0, 0, 0, 0],
        ],
        vec![
            vec![0, 0, 0, 0, 0],
            vec![0, 0, 1, 0, 0],
            vec![0, 1, 1, 0, 0],
            vec![0, 0, 1, 0, 0],
            vec![0, 0, 0, 0, 0],
        ],
    ];
    assert(s.deep_view() =~~= shape_t());
    s
}

fn build_shape_j() -> (s: Vec<Vec<Vec<u8>>>)
    ensures
        s.deep_view() == shape_j(),
{
    let s = vec![
        vec![
            vec![0, 0, 0, 0, 0],
            vec![0, 0, 1, 0, 0],
            vec![0, 0, 1, 0, 0],
            vec![0, 1, 1, 0, 0],
            vec![0, 0, 0, 0, 0],
        ],
        vec![
            vec![0, 0, 0, 0, 0],
            vec![0, 0, 0, 0, 0],
            vec![0, 1, 1, 1, 0],
            vec![0, 0, 0, 1, 0],
            vec![0, 0, 0, 0, 0],
        ],
        vec![
            vec![0, 0, 0, 0, 0],
            vec![0, 0, 1, 1, 0],
            vec![0, 0, 1, 0, 0],
            vec![0, 0, 1, 0, 0],
            vec![0, 0, 0, 0, 0],
        ],
        vec![
            vec![0, 0, 0, 0, 0],
            vec![0, 1, 0, 0, 0],
            vec![0, 1, 1, 1, 0],
            vec![0, 0, 0, 0, 0],
            vec![0, 0, 0, 0, 0],
        ],
    ];
    assert(s.deep_view() =~~= shape_j());
    s
}

fn build_shape_l() -> (s: Vec<Vec<Vec<u8>>>)
    ensures
        s.deep_view() == shape_l(),
{
    let s = vec![
        vec![
            vec![0, 0, 0, 0, 0],
            vec![0, 0, 1, 0, 0],
            vec![0, 0, 1, 0, 0],
            vec![0, 0, 1, 1, 0],
            vec![0, 0, 0, 0, 0],
        ],
        vec![
            vec![0, 0, 0, 0, 0],
            vec![0, 0, 0, 1, 0],
            vec![0, 1, 1, 1, 0],
            vec![0, 0, 0, 0, 0],
            vec![0, 0, 0, 0, 0],
        ],
        vec![
            vec![0, 0, 0, 0, 0],
            vec![0, 1, 1, 0, 0],
            vec![0, 0, 1, 0, 0],
            vec![0, 0, 1, 0, 0],
            vec![0, 0, 0, 0, 0],
        ],
        vec![
            vec![0, 0, 0, 0, 0],
            vec![0, 0, 0, 0, 0],
            vec![0, 1, 1, 1, 0],
            vec![0, 1, 0, 0, 0],
            vec![0, 0, 0, 0, 0],
        ],
    ];
    assert(s.deep_view() =~~= shape_l());
    s
}

fn build_shape_s() -> (s: Vec<Vec<Vec<u8>>>)
    ensures
        s.deep_view() == shape_s(),
{
    let s = vec![
        vec![
            vec![0, 0, 0, 0, 0],
            vec![0, 0, 1, 1, 0],
            vec![0, 1, 1, 0, 0],
            vec![0, 0, 0, 0, 0],
            vec![0, 0, 0, 0, 0],
        ],
        vec![
            vec![0, 0, 0, 0, 0],
            vec![0, 1, 0, 0, 0],
            vec![0, 1, 1, 0, 0],
            vec![0, 0, 1, 0, 0],
            vec![0, 0, 0, 0, 0],
        ],
        vec![
            vec![0, 0, 0, 0, 0],
            vec![0, 0, 0, 0, 0],
            vec![0, 0, 1, 1, 0],
            vec![0, 1, 1, 0, 0],
            vec![0, 0, 0, 0, 0],
        ],
        vec![
            vec![0, 0, 0, 0, 0],
            vec![0, 0, 1, 0, 0],
            vec![0, 0, 1, 1, 0],
            vec![0, 0, 0, 1, 0],
            vec![0, 0, 0, 0, 0],
        ],
    ];
    assert(s.deep_view() =~~= shape_s());
    s
}

fn build_shape_z() -> (s: Vec<Vec<Vec<u8>>>)
    ensures
        s.deep_view() == shape_z(),
{
    let s = vec![
        vec![
            vec![0, 0, 0, 0, 0],
            vec![0, 1, 1, 0, 0],
            vec![0, 0, 1, 1, 0],
            vec![0, 0, 0, 0, 0],
            vec![0, 0, 0, 0, 0],
        ],
        vec![
            vec![0, 0, 0, 0, 0],
            vec![0, 0, 1, 0, 0],
            vec![0, 1, 1, 0, 0],
            vec![0, 1, 0, 0, 0],
            vec![0, 0, 0, 0, 0],
        ],
        vec![
            vec![0, 0, 0, 0, 0],
            vec![0, 0, 0, 0, 0],
            vec![0, 1, 1, 0, 0],
            vec![0, 0, 1, 1, 0],
            vec![0, 0, 0, 0, 0],
        ],
        vec![
            vec![0, 0, 0, 0, 0],
            vec![0, 0, 0, 1, 0],
            vec![0, 0, 1, 1, 0],
            vec![0, 0, 1, 0, 0],
            vec![0, 0, 0, 0, 0],
        ],
        vec![
            vec![0, 0, 0],
            vec![0, 1, 1],
            vec![1, 1, 0],
        ],
        vec![
            vec![0, 1, 0],
            vec![0, 1, 1],
            vec![0, 0, 1],
        ],
        vec![
            vec![0, 1, 1],
            vec![1, 1, 0],
            vec![0, 0, 0],
        ],
        vec![
            vec![1, 0, 0],
            vec![1, 1, 0],
            vec![0, 1, 0],
        ],
    ];
    assert(s.deep_view() =~~= shape_z());
    s
}

/// An empty field.
fn new_stage() -> (stage: Vec<Vec<u8>>)
    ensures
        stage.deep_view() == empty_stage(),
{
    let mut stage: Vec<Vec<u8>> = Vec::new();
    let mut r: u32 = 0;
    while r < BLOCK_NUM_Y
        invariant
            r <= BLOCK_NUM_Y,
            stage.deep_view() == empty_rows(r as nat),
        decreases BLOCK_NUM_Y - r,
    {
        let ghost before = stage.deep_view();
        let row = new_empty_row();
        assert(row.deep_view() =~= empty_row());
        stage.push(row);
        assert(stage.deep_view() =~= before.push(empty_row()));
        r = r + 1;
        assert(stage.deep_view() =~= empty_rows(r as nat));
    }
    stage
}

impl Game {
    /// A game that is under way, on an empty field, with the seven pieces.
    pub fn new() -> (game: Game)
        ensures
            game.tetriminoes.deep_view() == tetrimino_table(),
            game.stage.deep_view() == empty_stage(),
            game.state == State::PLAYING,
    {
        let tetriminoes = vec![
            build_shape_o(),
            build_shape_i(),
            build_shape_t(),
            build_shape_j(),
            build_shape_l(),
            build_shape_s(),
            build_shape_z(),
        ];
        assert(tetriminoes.deep_view() =~= tetrimino_table());
        let stage = new_stage();
        let state = State::PLAYING;
        Game { tetriminoes, stage, state }
    }
}

} // verus!
