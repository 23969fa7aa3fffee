use vstd::prelude::*;
use crate::direction::Direction;
use crate::grid::{at_most_one_player, rectangular};
use crate::maze::{rows_view, Maze};
use crate::piece::Piece;

verus! {

/// Why a map could not be made into a maze.
#[derive(Clone, Copy, Debug, PartialEq, Eq, Structural)]
pub enum LoadError {
    /// The map has no row, or its first row has no cell.
    EmptyMap,
    /// The text holds a character that stands for no piece.
    InvalidMapSymbol,
    /// Some row is longer or shorter than the first.
    NonRectangular,
    /// More than one cell holds the player.
    DuplicatePlayer,
    /// The map marks no player and has no free cell off its border to put one on.
    MissingPlayer,
}

/// The byte that ends a row of the map text: a line feed.
pub const NEWLINE: u8 = 0x0a;

/// `' '`, the symbol of free ground.
pub const SYMBOL_EMPTY: u8 = 0x20;

/// `'#'`, the symbol of a boulder.
pub const SYMBOL_BOULDER: u8 = 0x23;

/// `'W'`, the symbol of a wall.
pub const SYMBOL_WALL: u8 = 0x57;

/// `'X'`, the symbol of the exit.
pub const SYMBOL_EXIT: u8 = 0x58;

/// `'O'`, the symbol of the player.
pub const SYMBOL_PLAYER: u8 = 0x4f;

/// The piece that a character of the map text stands for: `' '` is free
/// ground, `'#'` a boulder, `'W'` a wall, `'X'` the exit and `'O'` the player,
/// facing up. No other character stands for a piece.
pub open spec fn symbol_piece(b: u8) -> Option<Piece> {
    if b == SYMBOL_EMPTY {
        Some(Piece::Empty)
    } else if b == SYMBOL_BOULDER {
        Some(Piece::Boulder)
    } else if b == SYMBOL_WALL {
        Some(Piece::Wall)
    } else if b == SYMBOL_EXIT {
        Some(Piece::Exit)
    } else if b == SYMBOL_PLAYER {
        Some(Piece::Player(Direction::Up))
    } else {
        None
    }
}

/// Exec counterpart of [`symbol_piece`].
pub fn piece_of_symbol(b: u8) -> (p: Option<Piece>)
    ensures
        p == symbol_piece(b),
{
    if b == SYMBOL_EMPTY {
        Some(Piece::Empty)
    } else if b == SYMBOL_BOULDER {
        Some(Piece::Boulder)
    } else if b == SYMBOL_WALL {
        Some(Piece::Wall)
    } else if b == SYMBOL_EXIT {
        Some(Piece::Exit)
    } else if b == SYMBOL_PLAYER {
        Some(Piece::Player(Direction::Up))
    } else {
        None
    }
}

/// Length of the first line of `s`: the number of bytes before its first
/// newline, or all of them where it has none.
pub open spec fn line_len(s: Seq<u8>) -> int
    decreases s.len(),
{
    if s.len() == 0 || s[0] == NEWLINE {
        0
    } else {
        1 + line_len(s.drop_first())
    }
}

/// The rows of a map text: the text cut at its newlines, which belong to no
/// row. A newline at the very end of the text closes the last row and opens
/// no further, empty one.
pub open spec fn text_rows(s: Seq<u8>) -> Seq<Seq<u8>>
    decreases s.len(),
{
    if s.len() == 0 {
        Seq::empty()
    } else {
        let n = line_len(s);
        if 0 <= n < s.len() {
            seq![s.take(n)] + text_rows(s.skip(n + 1))
        } else {
            seq![s]
        }
    }
}

/// The pieces that the symbols of one row stand for.
pub open spec fn row_pieces(row: Seq<u8>) -> Seq<Piece> {
    Seq::new(row.len(), |x: int| symbol_piece(row[x])->Some_0)
}

/// The grid that rows of symbols stand for.
pub open spec fn rows_pieces(rows: Seq<Seq<u8>>) -> Seq<Seq<Piece>> {
    Seq::new(rows.len(), |y: int| row_pieces(rows[y]))
}

/// What is wrong with a matrix of pieces as a maze, if anything; of several
/// faults the first in the order of `LoadError` is named.
pub open spec fn grid_fault(g: Seq<Seq<Piece>>) -> Option<LoadError> {
    if g.len() == 0 || g[0].len() == 0 {
        Some(LoadError::EmptyMap)
    } else if !rectangular(g) {
        Some(LoadError::NonRectangular)
    } else if !at_most_one_player(g) {
        Some(LoadError::DuplicatePlayer)
    } else {
        None
    }
}

/// Some byte of the text is neither a newline nor the symbol of a piece.
pub open spec fn has_bad_symbol(s: Seq<u8>) -> bool {
    exists|i: int| 0 <= i < s.len() && s[i] != NEWLINE && symbol_piece(#[trigger] s[i]) is None
}

/// The grid that a map text describes, or why it describes none. A text with
/// a bad symbol is refused for that, whatever else is wrong with it.
pub open spec fn parse_map(s: Seq<u8>) -> Result<Seq<Seq<Piece>>, LoadError> {
    if has_bad_symbol(s) {
        Err(LoadError::InvalidMapSymbol)
    } else {
        match grid_fault(rows_pieces(text_rows(s))) {
            Some(e) => Err(e),
            None => Ok(rows_pieces(text_rows(s))),
        }
    }
}

/// A text whose first newline stands at `n`, or that has none and is `n`
/// bytes long, has a first line of length `n`.
pub proof fn lemma_line_len(s: Seq<u8>, n: int)
    requires
        0 <= n <= s.len(),
        forall|j: int| 0 <= j < n ==> s[j] != NEWLINE,
        n == s.len() || s[n] == NEWLINE,
    ensures
        line_len(s) == n,
    decreases n,
{
    if n > 0 {
        lemma_line_len(s.drop_first(), n - 1);
    }
}

impl Maze {
    /// Reads a maze from the text of a map: one line per row, one character
    /// per cell.
    pub fn from_bytes(text: &[u8]) -> (r: Result<Maze, LoadError>)
        ensures
            (match r {
                Ok(m) => m.wf() && parse_map(text@) == Ok::<Seq<Seq<Piece>>, LoadError>(m@),
                Err(e) => parse_map(text@) == Err::<Seq<Seq<Piece>>, LoadError>(e),
            }),
    {
        let mut rows: Vec<Vec<Piece>> = Vec::new();
        let mut cur: Vec<Piece> = Vec::new();
        let ghost mut done: Seq<Seq<u8>> = Seq::empty();
        let ghost mut start: int = 0;
        let mut i: usize = 0;
        proof {
            assert(text@.skip(0) == text@);
        }
        while i < text.len()
            invariant
                0 <= start <= i <= text.len(),
                forall|j: int| 0 <= j < i ==> text@[j] == NEWLINE || symbol_piece(text@[j]) is Some,
                forall|j: int| start <= j < i ==> text@[j] != NEWLINE,
                text_rows(text@) == done + text_rows(text@.skip(start)),
                rows_view(rows) == rows_pieces(done),
                cur@ == row_pieces(text@.subrange(start, i as int)),
            decreases text.len() - i,
        {
            let b = text[i];
            if b == NEWLINE {
                proof {
                    let t = text@.skip(start);
                    lemma_line_len(t, i - start);
                    assert(t.take(i - start) == text@.subrange(start, i as int));
                    assert(t.skip(i - start + 1) == text@.skip(i + 1));
                    let row = text@.subrange(start, i as int);
                    assert(done + (seq![row] + text_rows(text@.skip(i + 1))) == done.push(row)
                        + text_rows(text@.skip(i + 1)));
                    done = done.push(row);
                    start = i + 1;
                }
                let ghost before_push = rows_view(rows);
                rows.push(cur);
                assert(rows_view(rows) == before_push.push(cur@));
                cur = Vec::new();
            } else {
                match piece_of_symbol(b) {
                    Some(p) => {
                        cur.push(p);
                    },
                    None => {
                        return Err(LoadError::InvalidMapSymbol);
                    },
                }
            }
            i += 1;
        }
        if cur.len() > 0 {
            proof {
                let t = text@.skip(start);
                lemma_line_len(t, t.len() as int);
                assert(rows_view(rows).push(cur@) == rows_pieces(done.push(t)));
                done = done.push(t);
            }
            let ghost before_push = rows_view(rows);
            rows.push(cur);
            assert(rows_view(rows) == before_push.push(cur@));
        }
        assert(text_rows(text@) == done);
        Maze::from_rows(rows)
    }
}

} // verus!
