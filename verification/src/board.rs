//! The chessboard: pieces, positions, and move generation.
//!
//! A board is an 8x8 grid of optional pieces. `possible_moves` computes, for
//! the piece standing on a square, every destination it may move to, in the
//! order rays and candidate squares are examined.

use vstd::prelude::*;

verus! {

#[derive(Clone, Copy, Debug, PartialEq, Eq, Structural, Hash)]
pub enum PieceType {
    Pawn,
    Bishop,
    Knight,
    Rook,
    King,
    Queen,
}

#[derive(Clone, Copy, Debug, PartialEq, Eq, Structural, Hash)]
pub enum Color {
    Black,
    White,
}

impl Color {
    /// The color of the opposing side.
    pub open spec fn flipped(self) -> Color {
        match self {
            Color::White => Color::Black,
            Color::Black => Color::White,
        }
    }

    pub fn opposite(self) -> (r: Color)
        ensures
            r == self.flipped(),
    {
        match self {
            Color::White => Color::Black,
            Color::Black => Color::White,
        }
    }
}

#[derive(Clone, Copy, Debug, PartialEq, Eq, Structural, Hash)]
pub struct Piece {
    pub ty: PieceType,
    pub color: Color,
}

impl Piece {
    pub fn new(ty: PieceType, color: Color) -> (r: Piece)
        ensures
            r == (Piece { ty, color }),
    {
        Piece { ty, color }
    }

    pub fn ty(&self) -> (r: PieceType)
        ensures
            r == self.ty,
    {
        self.ty
    }

    pub fn color(&self) -> (r: Color)
        ensures
            r == self.color,
    {
        self.color
    }
}

/// A square, as (file, rank), each in 0..8 when on the board.
#[derive(Clone, Copy, Debug, PartialEq, Eq, Structural, Hash)]
pub struct Position(pub isize, pub isize);

/// The position one step away in the given direction.
pub open spec fn shifted(p: Position, dx: int, dy: int) -> Position {
    Position((p.0 + dx) as isize, (p.1 + dy) as isize)
}

impl Position {
    /// Whether the position lies on the 8x8 board.
    pub open spec fn on_board(self) -> bool {
        0 <= self.0 < 8 && 0 <= self.1 < 8
    }

    pub fn up(&self) -> (r: Position)
        requires
            self.1 < isize::MAX,
        ensures
            r.0 == self.0,
            r.1 == self.1 + 1,
    {
        Position(self.0, self.1 + 1)
    }

    pub fn down(&self) -> (r: Position)
        requires
            self.1 > isize::MIN,
        ensures
            r.0 == self.0,
            r.1 == self.1 - 1,
    {
        Position(self.0, self.1 - 1)
    }

    pub fn right(&self) -> (r: Position)
        requires
            self.0 < isize::MAX,
        ensures
            r.0 == self.0 + 1,
            r.1 == self.1,
    {
        Position(self.0 + 1, self.1)
    }

    pub fn left(&self) -> (r: Position)
        requires
            self.0 > isize::MIN,
        ensures
            r.0 == self.0 - 1,
            r.1 == self.1,
    {
        Position(self.0 - 1, self.1)
    }

    pub fn is_valid(&self) -> (r: bool)
        ensures
            r == self.on_board(),
    {
        self.0 < 8 && self.0 >= 0 && self.1 < 8 && self.1 >= 0
    }

    pub fn offset(&self, offset: (isize, isize)) -> (r: Position)
        requires
            isize::MIN <= self.0 + offset.0 <= isize::MAX,
            isize::MIN <= self.1 + offset.1 <= isize::MAX,
        ensures
            r.0 == self.0 + offset.0,
            r.1 == self.1 + offset.1,
    {
        Position(self.0 + offset.0, self.1 + offset.1)
    }
}

/// A move of the piece standing on `from` to the square `to`.
#[derive(Clone, Copy, Debug, PartialEq, Eq, Structural, Hash)]
pub struct Move {
    pub from: Position,
    pub to: Position,
}

impl Move {
    pub fn new(from: Position, to: Position) -> (r: Move)
        ensures
            r == (Move { from, to }),
    {
        Move { from, to }
    }
}

#[derive(Debug, Clone)]
pub struct Chessboard {
    pieces: Vec<Option<Piece>>,
}

impl Chessboard {
    /// A well-formed board stores one optional piece per square.
    pub closed spec fn wf(self) -> bool {
        self.pieces@.len() == 64
    }

    /// The piece standing on the square (x, y), for 0 <= x, y < 8.
    pub closed spec fn square(self, x: int, y: int) -> Option<Piece> {
        self.pieces@[x * 8 + y]
    }

    /// The piece standing on a position; an off-board position holds nothing.
    pub open spec fn at(self, p: Position) -> Option<Piece> {
        if p.on_board() {
            self.square(p.0 as int, p.1 as int)
        } else {
            None
        }
    }
}

/// The piece type on a home rank at file x; king and queen are mirrored
/// between the two colors.
pub open spec fn home_rank_ty(x: int, c: Color) -> PieceType {
    if x == 0 || x == 7 {
        PieceType::Rook
    } else if x == 1 || x == 6 {
        PieceType::Knight
    } else if x == 2 || x == 5 {
        PieceType::Bishop
    } else if c == Color::White {
        if x == 4 {
            PieceType::King
        } else {
            PieceType::Queen
        }
    } else {
        if x == 3 {
            PieceType::King
        } else {
            PieceType::Queen
        }
    }
}

/// The contents of the square (x, y) in the starting position.
pub open spec fn starting_square(x: int, y: int) -> Option<Piece> {
    if y == 1 {
        Some(Piece { ty: PieceType::Pawn, color: Color::White })
    } else if y == 6 {
        Some(Piece { ty: PieceType::Pawn, color: Color::Black })
    } else if y == 0 {
        Some(Piece { ty: home_rank_ty(x, Color::White), color: Color::White })
    } else if y == 7 {
        Some(Piece { ty: home_rank_ty(x, Color::Black), color: Color::Black })
    } else {
        None
    }
}

impl Chessboard {
    /// Returns a chessboard with
    /// the standard starting position.
    pub fn new() -> (r: Self)
        ensures
            r.wf(),
            forall|x: int, y: int|
                0 <= x < 8 && 0 <= y < 8 ==> r.square(x, y) == starting_square(x, y),
    {
        // Start with empty board
        let mut pieces: Vec<Option<Piece>> = Vec::new();
        let mut i: usize = 0;
        while i < 64
            invariant
                i <= 64,
                pieces@.len() == i,
                forall|k: int| 0 <= k < i ==> pieces@[k] is None,
            decreases 64 - i,
        {
            pieces.push(None);
            i += 1;
        }
        let mut board = Self { pieces };

        // Initialize pieces
        let mut x: isize = 0;
        while x < 8
            invariant
                0 <= x <= 8,
                board.wf(),
                forall|a: int, b: int|
                    0 <= a < 8 && 0 <= b < 8 ==> board.square(a, b) == (
                    if 0 <= a < x && b == 1 {
                        Some(Piece { ty: PieceType::Pawn, color: Color::White })
                    } else {
                        None::<Piece>
                    }),
            decreases 8 - x,
        {
            board.set_piece_at(Position(x, 1), Piece::new(PieceType::Pawn, Color::White));
            x += 1;
        }

        board.set_piece_at(Position(0, 0), Piece::new(PieceType::Rook, Color::White));
        board.set_piece_at(Position(7, 0), Piece::new(PieceType::Rook, Color::White));

        board.set_piece_at(Position(1, 0), Piece::new(PieceType::Knight, Color::White));
        board.set_piece_at(Position(6, 0), Piece::new(PieceType::Knight, Color::White));

        board.set_piece_at(Position(2, 0), Piece::new(PieceType::Bishop, Color::White));
        board.set_piece_at(Position(5, 0), Piece::new(PieceType::Bishop, Color::White));

        board.set_piece_at(Position(4, 0), Piece::new(PieceType::King, Color::White));
        board.set_piece_at(Position(3, 0), Piece::new(PieceType::Queen, Color::White));

        let mut x2: isize = 0;
        while x2 < 8
            invariant
                0 <= x2 <= 8,
                board.wf(),
                forall|a: int, b: int|
                    0 <= a < 8 && 0 <= b < 8 ==> board.square(a, b) == (
                    if b == 1 {
                        Some(Piece { ty: PieceType::Pawn, color: Color::White })
                    } else if b == 0 {
                        Some(Piece { ty: home_rank_ty(a, Color::White), color: Color::White })
                    } else if 0 <= a < x2 && b == 6 {
                        Some(Piece { ty: PieceType::Pawn, color: Color::Black })
                    } else {
                        None::<Piece>
                    }),
            decreases 8 - x2,
        {
            board.set_piece_at(Position(x2, 6), Piece::new(PieceType::Pawn, Color::Black));
            x2 += 1;
        }

        board.set_piece_at(Position(7, 7), Piece::new(PieceType::Rook, Color::Black));
        board.set_piece_at(Position(0, 7), Piece::new(PieceType::Rook, Color::Black));

        board.set_piece_at(Position(1, 7), Piece::new(PieceType::Knight, Color::Black));
        board.set_piece_at(Position(6, 7), Piece::new(PieceType::Knight, Color::Black));

        board.set_piece_at(Position(2, 7), Piece::new(PieceType::Bishop, Color::Black));
        board.set_piece_at(Position(5, 7), Piece::new(PieceType::Bishop, Color::Black));

        board.set_piece_at(Position(3, 7), Piece::new(PieceType::King, Color::Black));
        board.set_piece_at(Position(4, 7), Piece::new(PieceType::Queen, Color::Black));

        board
    }

    pub fn set_piece_at(&mut self, pos: Position, piece: Piece)
        requires
            old(self).wf(),
            pos.on_board(),
        ensures
            final(self).wf(),
            forall|x: int, y: int|
                0 <= x < 8 && 0 <= y < 8 ==> final(self).square(x, y) == (
                if x == pos.0 && y == pos.1 {
                    Some(piece)
                } else {
                    old(self).square(x, y)
                }),
    {
        let idx: usize = (pos.0 as usize) * 8 + (pos.1 as usize);
        self.pieces.set(idx, Some(piece));
    }

    pub fn destroy_piece_at(&mut self, pos: Position)
        requires
            old(self).wf(),
            pos.on_board(),
        ensures
            final(self).wf(),
            forall|x: int, y: int|
                0 <= x < 8 && 0 <= y < 8 ==> final(self).square(x, y) == (
                if x == pos.0 && y == pos.1 {
                    None::<Piece>
                } else {
                    old(self).square(x, y)
                }),
    {
        let idx: usize = (pos.0 as usize) * 8 + (pos.1 as usize);
        self.pieces.set(idx, None);
    }

    pub fn piece_at(&self, pos: Position) -> (r: Option<Piece>)
        requires
            self.wf(),
            pos.on_board(),
        ensures
            r == self.at(pos),
    {
        self.pieces[(pos.0 as usize) * 8 + (pos.1 as usize)]
    }
}

/// Whether the piece of color `c` may land on `p`: the square is on the board
/// and is empty or held by the opponent.
pub open spec fn allowed_target(b: Chessboard, c: Color, p: Position) -> bool {
    p.on_board() && match b.at(p) {
        Some(q) => q.color == c.flipped(),
        None => true,
    }
}

/// Whether `p` holds a piece of the color opposing `c`.
pub open spec fn is_capture(b: Chessboard, c: Color, p: Position) -> bool {
    match b.at(p) {
        Some(q) => q.color == c.flipped(),
        None => false,
    }
}

/// The squares a sliding piece of color `c` reaches from `p` in direction
/// (dx, dy): every empty square until the first occupied one, which is
/// included exactly when it holds an opposing piece. `fuel` bounds the walk;
/// any value at least `steps_left` gives the same squares.
pub open spec fn ray(b: Chessboard, p: Position, c: Color, dx: int, dy: int, fuel: nat) -> Seq<
    Position,
>
    decreases fuel,
{
    if fuel == 0 {
        Seq::empty()
    } else {
        let q = shifted(p, dx, dy);
        if !q.on_board() {
            Seq::empty()
        } else {
            match b.at(q) {
                Some(piece) => if piece.color == c.flipped() {
                    seq![q]
                } else {
                    Seq::empty()
                },
                None => seq![q] + ray(b, q, c, dx, dy, (fuel - 1) as nat),
            }
        }
    }
}

/// An upper bound on the number of on-board steps from `p` in direction
/// (dx, dy), for a position on the board and a nonzero direction.
pub open spec fn steps_left(p: Position, dx: int, dy: int) -> int {
    if dx == 1 {
        7 - p.0
    } else if dx == -1 {
        p.0 as int
    } else if dy == 1 {
        7 - p.1
    } else if dy == -1 {
        p.1 as int
    } else {
        0
    }
}

/// A unit direction with at least one nonzero component.
pub open spec fn is_direction(dx: int, dy: int) -> bool {
    (dx == -1 || dx == 0 || dx == 1) && (dy == -1 || dy == 0 || dy == 1) && !(dx == 0 && dy == 0)
}

/// The four diagonal rays from `pos`, in the order they are walked.
pub open spec fn diagonal_rays(b: Chessboard, pos: Position, c: Color) -> Seq<Position> {
    ray(b, pos, c, 1, 1, 8) + ray(b, pos, c, 1, -1, 8) + ray(b, pos, c, -1, 1, 8) + ray(
        b,
        pos,
        c,
        -1,
        -1,
        8,
    )
}

/// The four straight rays from `pos`, in the order they are walked.
pub open spec fn straight_rays(b: Chessboard, pos: Position, c: Color) -> Seq<Position> {
    ray(b, pos, c, 0, 1, 8) + ray(b, pos, c, 1, 0, 8) + ray(b, pos, c, 0, -1, 8) + ray(
        b,
        pos,
        c,
        -1,
        0,
        8,
    )
}

/// The candidates kept from `cands`, in order, that `c` may land on.
pub open spec fn allowed_of(b: Chessboard, c: Color, cands: Seq<Position>) -> Seq<Position>
    decreases cands.len(),
{
    if cands.len() == 0 {
        Seq::empty()
    } else {
        allowed_of(b, c, cands.drop_last()) + (if allowed_target(b, c, cands.last()) {
            seq![cands.last()]
        } else {
            Seq::empty()
        })
    }
}

/// The king's eight neighbouring squares, in the order they are examined.
pub open spec fn king_targets(pos: Position) -> Seq<Position> {
    seq![
        shifted(pos, 0, 1),
        shifted(pos, 0, -1),
        shifted(pos, -1, 0),
        shifted(pos, 1, 0),
        shifted(pos, 1, 1),
        shifted(pos, -1, 1),
        shifted(pos, 1, -1),
        shifted(pos, -1, -1),
    ]
}

/// The knight's eight candidate squares, in the order they are examined.
pub open spec fn knight_targets(pos: Position) -> Seq<Position> {
    seq![
        shifted(pos, 1, 2),
        shifted(pos, -1, 2),
        shifted(pos, 1, -2),
        shifted(pos, -1, -2),
        shifted(pos, 2, 1),
        shifted(pos, 2, -1),
        shifted(pos, -2, 1),
        shifted(pos, -2, -1),
    ]
}

/// A pawn's destinations: one forward step onto an empty square, the double
/// step from the home rank onto an empty square, and the two diagonal
/// captures, in that order. Off-board squares are never destinations.
pub open spec fn pawn_dests(b: Chessboard, pos: Position, c: Color) -> Seq<Position> {
    match c {
        Color::White => {
            let f1 = shifted(pos, 0, 1);
            let f2 = shifted(pos, 0, 2);
            let cl = shifted(pos, -1, 1);
            let cr = shifted(pos, 1, 1);
            (if f1.on_board() && b.at(f1) is None {
                seq![f1]
            } else {
                Seq::empty()
            }) + (if pos.1 == 1 && f2.on_board() && b.at(f2) is None {
                seq![f2]
            } else {
                Seq::empty()
            }) + (if is_capture(b, c, cl) {
                seq![cl]
            } else {
                Seq::empty()
            }) + (if is_capture(b, c, cr) {
                seq![cr]
            } else {
                Seq::empty()
            })
        },
        Color::Black => {
            let f1 = shifted(pos, 0, -1);
            let f2 = shifted(pos, 0, -2);
            let cl = shifted(pos, -1, -1);
            let cr = shifted(pos, 1, -1);
            (if f1.on_board() && b.at(f1) is None {
                seq![f1]
            } else {
                Seq::empty()
            }) + (if pos.1 == 6 && f2.on_board() && b.at(f2) is None {
                seq![f2]
            } else {
                Seq::empty()
            }) + (if is_capture(b, c, cl) {
                seq![cl]
            } else {
                Seq::empty()
            }) + (if is_capture(b, c, cr) {
                seq![cr]
            } else {
                Seq::empty()
            })
        },
    }
}

/// Every destination square of the piece standing on `pos`.
pub open spec fn dest_squares(b: Chessboard, pos: Position) -> Seq<Position> {
    match b.at(pos) {
        Some(piece) => match piece.ty {
            PieceType::Pawn => pawn_dests(b, pos, piece.color),
            PieceType::Bishop => diagonal_rays(b, pos, piece.color),
            PieceType::Rook => straight_rays(b, pos, piece.color),
            PieceType::Queen => straight_rays(b, pos, piece.color) + diagonal_rays(
                b,
                pos,
                piece.color,
            ),
            PieceType::King => allowed_of(b, piece.color, king_targets(pos)),
            PieceType::Knight => allowed_of(b, piece.color, knight_targets(pos)),
        },
        None => Seq::empty(),
    }
}

/// Every move of the piece standing on `pos`.
pub open spec fn moves_from(b: Chessboard, pos: Position) -> Seq<Move> {
    dest_squares(b, pos).map_values(|p: Position| Move { from: pos, to: p })
}

pub fn allowed_move(to: Position, piece_color: Color, board: &Chessboard) -> (r: bool)
    requires
        board.wf(),
    ensures
        r == allowed_target(*board, piece_color, to),
{
    if !to.is_valid() {
        return false;
    }
    match board.piece_at(to) {
        Some(piece) => piece.color() == piece_color.opposite(),
        None => true,
    }
}

pub fn offsets(
    pos: Position,
    color: Color,
    board: &Chessboard,
    dests: &mut Vec<Position>,
    offset: (isize, isize),
)
    requires
        board.wf(),
        pos.on_board(),
        is_direction(offset.0 as int, offset.1 as int),
    ensures
        final(dests)@ == old(dests)@ + ray(*board, pos, color, offset.0 as int, offset.1 as int, 8),
{
    let ghost dx: int = offset.0 as int;
    let ghost dy: int = offset.1 as int;
    let mut p = pos;
    let mut blocked = false;
    let ghost mut fuel: nat = 8;
    while !blocked && p.offset(offset).is_valid()
        invariant
            board.wf(),
            is_direction(dx, dy),
            offset.0 as int == dx,
            offset.1 as int == dy,
            blocked ==> dests@ == old(dests)@ + ray(*board, pos, color, dx, dy, 8),
            !blocked ==> p.on_board() && fuel >= steps_left(p, dx, dy) && old(dests)@ + ray(
                *board,
                pos,
                color,
                dx,
                dy,
                8,
            ) == dests@ + ray(*board, p, color, dx, dy, fuel),
        decreases (if blocked {
            0nat
        } else {
            fuel + 1
        }),
    {
        p = p.offset(offset);
        proof {
            fuel = (fuel - 1) as nat;
        }
        match board.piece_at(p) {
            Some(piece) => {
                if piece.color() == color.opposite() {
                    dests.push(p);
                }
                blocked = true;
            },
            None => {
                dests.push(p);
            },
        }
    }
    proof {
        if !blocked {
            // the walk stopped because the next square is off the board
            assert(ray(*board, p, color, dx, dy, fuel) =~= Seq::<Position>::empty());
        }
        assert(dests@ =~= old(dests)@ + ray(*board, pos, color, dx, dy, 8));
    }
}

pub fn compute_diagonals(pos: Position, color: Color, board: &Chessboard, dests: &mut Vec<Position>)
    requires
        board.wf(),
        pos.on_board(),
    ensures
        final(dests)@ == old(dests)@ + diagonal_rays(*board, pos, color),
{
    // Move diagonally in each of the four
    // directions until an obstacle is found.
    // If the obstacle is an enemy, the obstacle
    // is added to the possible destinations, and it is the last entry there;
    // otherwise, it is not counted as a possible destination.
    offsets(pos, color, board, dests, (1, 1));
    offsets(pos, color, board, dests, (1, -1));
    offsets(pos, color, board, dests, (-1, 1));
    offsets(pos, color, board, dests, (-1, -1));
    proof {
        assert(dests@ =~= old(dests)@ + diagonal_rays(*board, pos, color));
    }
}

pub fn compute_straight(pos: Position, color: Color, board: &Chessboard, dests: &mut Vec<Position>)
    requires
        board.wf(),
        pos.on_board(),
    ensures
        final(dests)@ == old(dests)@ + straight_rays(*board, pos, color),
{
    // Same thing as diagonals, but straight instead of diagonal
    offsets(pos, color, board, dests, (0, 1));
    offsets(pos, color, board, dests, (1, 0));
    offsets(pos, color, board, dests, (0, -1));
    offsets(pos, color, board, dests, (-1, 0));
    proof {
        assert(dests@ =~= old(dests)@ + straight_rays(*board, pos, color));
    }
}

impl Chessboard {
    /// Calculates all moves for the piece at the specified position.
    #[verifier::rlimit(60)]
    pub fn possible_moves(&self, pos: Position) -> (r: Vec<Move>)
        requires
            self.wf(),
            pos.on_board(),
            self.at(pos) is Some,
        ensures
            r@ == moves_from(*self, pos),
    {
        let piece = self.piece_at(pos).unwrap();

        let mut dests: Vec<Position> = Vec::new();

        match piece.ty() {
            PieceType::Pawn => {
                match piece.color() {
                    Color::White => {
                        // Check forward
                        let f1 = pos.up();
                        if f1.is_valid() && self.piece_at(f1).is_none() {
                            dests.push(f1);
                        }
                        // If in correct position, check two up
                        let f2 = pos.up().up();
                        if pos.1 == 1 && f2.is_valid() && self.piece_at(f2).is_none() {
                            dests.push(f2);
                        }
                        // Forward + diagonal
                        let cl = pos.up().left();
                        if cl.is_valid() {
                            if let Some(enemy) = self.piece_at(cl) {
                                if enemy.color() == piece.color().opposite() {
                                    dests.push(cl);
                                }
                            }
                        }
                        let cr = pos.up().right();
                        if cr.is_valid() {
                            if let Some(enemy) = self.piece_at(cr) {
                                if enemy.color() == piece.color().opposite() {
                                    dests.push(cr);
                                }
                            }
                        }
                    },
                    Color::Black => {
                        let f1 = pos.down();
                        if f1.is_valid() && self.piece_at(f1).is_none() {
                            dests.push(f1);
                        }
                        let f2 = pos.down().down();
                        if pos.1 == 6 && f2.is_valid() && self.piece_at(f2).is_none() {
                            dests.push(f2);
                        }
                        let cl = pos.down().left();
                        if cl.is_valid() {
                            if let Some(enemy) = self.piece_at(cl) {
                                if enemy.color() == piece.color().opposite() {
                                    dests.push(cl);
                                }
                            }
                        }
                        let cr = pos.down().right();
                        if cr.is_valid() {
                            if let Some(enemy) = self.piece_at(cr) {
                                if enemy.color() == piece.color().opposite() {
                                    dests.push(cr);
                                }
                            }
                        }
                    },
                }
                proof {
                    assert(dests@ =~= pawn_dests(*self, pos, piece.color));
                }
            },
            PieceType::Bishop => {
                compute_diagonals(pos, piece.color(), self, &mut dests);
            },
            PieceType::Rook => {
                compute_straight(pos, piece.color(), self, &mut dests);
            },
            PieceType::Queen => {
                compute_straight(pos, piece.color(), self, &mut dests);
                compute_diagonals(pos, piece.color(), self, &mut dests);
            },
            PieceType::King => {
                let mut cands: Vec<Position> = Vec::new();
                cands.push(pos.up());
                cands.push(pos.down());
                cands.push(pos.left());
                cands.push(pos.right());
                cands.push(pos.up().right());
                cands.push(pos.up().left());
                cands.push(pos.down().right());
                cands.push(pos.down().left());
                proof {
                    assert(cands@ =~= king_targets(pos));
                }
                push_allowed(&cands, piece.color(), self, &mut dests);
            },
            PieceType::Knight => {
                let mut cands: Vec<Position> = Vec::new();
                cands.push(pos.up().up().right());
                cands.push(pos.up().up().left());
                cands.push(pos.down().down().right());
                cands.push(pos.down().down().left());
                cands.push(pos.right().right().up());
                cands.push(pos.right().right().down());
                cands.push(pos.left().left().up());
                cands.push(pos.left().left().down());
                proof {
                    assert(cands@ =~= knight_targets(pos));
                }
                push_allowed(&cands, piece.color(), self, &mut dests);
            },
        }

        let mut moves: Vec<Move> = Vec::new();
        let mut i: usize = 0;
        while i < dests.len()
            invariant
                i <= dests@.len(),
                moves@ == dests@.take(i as int).map_values(
                    |p: Position| Move { from: pos, to: p },
                ),
            decreases dests@.len() - i,
        {
            moves.push(Move::new(pos, dests[i]));
            proof {
                assert(dests@.take(i + 1).drop_last() =~= dests@.take(i as int));
                assert(moves@ =~= dests@.take(i + 1).map_values(
                    |p: Position| Move { from: pos, to: p },
                ));
            }
            i += 1;
        }
        proof {
            assert(dests@.take(dests@.len() as int) =~= dests@);
        }
        moves
    }
}

/// Appends to `dests` the candidates, in order, that `color` may land on.
fn push_allowed(cands: &Vec<Position>, color: Color, board: &Chessboard, dests: &mut Vec<Position>)
    requires
        board.wf(),
    ensures
        final(dests)@ == old(dests)@ + allowed_of(*board, color, cands@),
{
    let mut i: usize = 0;
    while i < cands.len()
        invariant
            board.wf(),
            i <= cands@.len(),
            dests@ == old(dests)@ + allowed_of(*board, color, cands@.take(i as int)),
        decreases cands@.len() - i,
    {
        let c = cands[i];
        if allowed_move(c, color, board) {
            dests.push(c);
        }
        proof {
            assert(cands@.take(i + 1).drop_last() =~= cands@.take(i as int));
            assert(cands@.take(i + 1).last() == cands@[i as int]);
            assert(dests@ =~= old(dests)@ + allowed_of(*board, color, cands@.take(i + 1)));
        }
        i += 1;
    }
    proof {
        assert(cands@.take(cands@.len() as int) =~= cands@);
    }
}

} // verus!
