use chess_net::board::{
    allowed_move, compute_diagonals, compute_straight, Chessboard, Color, Move, Piece, PieceType,
    Position,
};

#[test]
fn test_valid_moves() {
    let board = Chessboard::new();

    {
        let pos = Position(4, 1);
        let pawn_moves = board.possible_moves(pos);
        assert!(pawn_moves.contains(&Move::new(pos, Position(4, 2))));
        assert!(pawn_moves.contains(&Move::new(pos, Position(4, 3))));
        assert_eq!(pawn_moves.len(), 2);
    }
    {
        let pos = Position(0, 0);
        let rook_moves = board.possible_moves(pos);
        assert_eq!(rook_moves.len(), 0);
    }
    {
        let pos = Position(1, 0);
        let knight_moves = board.possible_moves(pos);
        assert!(knight_moves.contains(&Move::new(pos, Position(0, 2))));
        assert!(knight_moves.contains(&Move::new(pos, Position(2, 2))));
        assert_eq!(knight_moves.len(), 2);
    }
}

#[test]
fn test_board_setup() {
    let board = Chessboard::new();

    assert_eq!(
        board.piece_at(Position(0, 0)),
        Some(Piece::new(PieceType::Rook, Color::White))
    );
    assert_eq!(board.piece_at(Position(5, 5)), None);
    assert_eq!(
        board.piece_at(Position(4, 1)),
        Some(Piece::new(PieceType::Pawn, Color::White))
    );
}

#[test]
fn test_set_piece_at() {
    let mut board = Chessboard::new();

    board.set_piece_at(Position(5, 5), Piece::new(PieceType::Bishop, Color::Black));
    assert_eq!(
        board.piece_at(Position(5, 5)),
        Some(Piece::new(PieceType::Bishop, Color::Black))
    );
}

#[test]
fn test_destroy_piece() {
    let mut board = Chessboard::new();
    assert_eq!(
        board.piece_at(Position(0, 0)),
        Some(Piece::new(PieceType::Rook, Color::White))
    );
    board.destroy_piece_at(Position(0, 0));
    assert_eq!(board.piece_at(Position(0, 0)), None);
}

#[test]
fn test_compute_diagonals() {
    let mut dests = vec![];
    let color = Color::Black;
    let mut board = Chessboard::new();
    board.set_piece_at(Position(3, 3), Piece::new(PieceType::Bishop, Color::Black));

    compute_diagonals(Position(3, 3), color, &board, &mut dests);

    assert!(dests.contains(&Position(4, 4)));
    assert!(dests.contains(&Position(5, 5)));
    assert!(!dests.contains(&Position(6, 6)));

    assert!(dests.contains(&Position(2, 2)));
    assert!(dests.contains(&Position(1, 1)));
    assert!(!dests.contains(&Position(0, 0)));

    assert!(dests.contains(&Position(2, 4)));
    assert!(dests.contains(&Position(1, 5)));
    assert!(!dests.contains(&Position(0, 6)));

    assert!(!dests.contains(&Position(7, 7)));
}

#[test]
fn test_compute_straight() {
    let mut dests = vec![];
    let color = Color::Black;
    let mut board = Chessboard::new();
    board.set_piece_at(Position(3, 3), Piece::new(PieceType::Bishop, Color::Black));

    compute_straight(Position(3, 3), color, &board, &mut dests);

    assert!(dests.contains(&Position(3, 4)));
    assert!(dests.contains(&Position(3, 5)));
    assert!(!dests.contains(&Position(3, 8))); // Invalid!

    assert!(dests.contains(&Position(3, 2)));
    assert!(dests.contains(&Position(3, 1)));
    assert!(!dests.contains(&Position(3, 0)));
}

#[test]
fn test_allowed_move() {
    let board = Chessboard::new();
    let color = Color::White;

    assert!(allowed_move(Position(0, 6), color, &board));
    assert!(allowed_move(Position(4, 4), color, &board));

    assert!(!allowed_move(Position(0, 1), color, &board));
    assert!(!allowed_move(Position(8, 0), color, &board));
}
