use chess_app::board::{Board, CastleType};
use chess_app::fen::fen_parser;
use chess_app::move_gen::{HorizontalDirection, MoveError, VerticalDirection};
use chess_app::piece::{ChessPiece, PieceColor, PieceType};
use chess_app::seating::{color_of_draw, is_light_square, random_color};
use chess_app::uci::UciError;

fn board(text: &str) -> Board {
    fen_parser(&text.to_owned()).ok().unwrap()
}

fn piece(b: &Board, r: usize, c: usize) -> ChessPiece {
    b.squares[r][c].unwrap()
}

fn count_legal_moves(b: &Board, color: PieceColor) -> usize {
    let mut n = 0;
    for r in 0..8 {
        for c in 0..8 {
            if let Some(p) = b.squares[r][c] {
                if p.color == color {
                    let (quiet, captures) = b.get_legal_moves(&p);
                    n += quiet.len() + captures.len();
                }
            }
        }
    }
    n
}

fn go(b: &mut Board, from: (u8, u8), to: (u8, u8)) {
    assert!(b.has_room_at(from));
    assert!(b.move_piece(from, to).is_ok(), "{:?} -> {:?} was refused", from, to);
    assert!(b.is_well_formed());
}

#[test]
fn starting_position_has_twenty_legal_moves() {
    let b = Board::default();
    assert_eq!(count_legal_moves(&b, PieceColor::White), 20);
    assert_eq!(count_legal_moves(&b, PieceColor::Black), 20);
    assert!(!b.is_in_check(PieceColor::White));
    assert!(!b.is_checkmate());
    assert!(!b.is_stalemate());
    assert!(!b.has_lost());
}

#[test]
fn pawn_candidates_at_the_start() {
    let b = Board::default();
    let pawn = piece(&b, 6, 4);
    assert_eq!(b.get_all_moves(&pawn), vec![(5, 4), (4, 4), (5, 3), (5, 5)]);
    let (quiet, captures) = b.get_legal_moves(&pawn);
    assert_eq!(quiet, vec![(5, 4), (4, 4)]);
    assert!(captures.is_empty());
    let black = piece(&b, 1, 0);
    assert_eq!(b.get_all_moves(&black), vec![(2, 0), (3, 0), (2, 1)]);
    assert_eq!(b.get_quiet_moves(&black), vec![(2, 0), (3, 0)]);
    assert!(b.get_capture_moves(&black).is_empty());
    assert!(b.lega_capture_moves(&black).is_empty());
}

#[test]
fn pawn_does_not_capture_straight_ahead() {
    let b = board("4k3/8/8/8/4p3/4P3/8/4K3 w - - 0 1");
    let white = piece(&b, 5, 4);
    assert_eq!(b.get_all_moves(&white), vec![(4, 3), (4, 5)]);
    assert!(b.get_file_moves(&white, 1, VerticalDirection::Up).is_empty());
    assert!(b.get_file_moves(&white, 2, VerticalDirection::Up).is_empty());
    let (quiet, captures) = b.get_legal_moves(&white);
    assert!(quiet.is_empty() && captures.is_empty());
    let b = board("4k3/8/8/8/3p1n2/4P3/8/4K3 w - - 0 1");
    let white = piece(&b, 5, 4);
    assert_eq!(b.get_all_moves(&white), vec![(4, 4), (3, 4), (4, 3), (4, 5)]);
    let (quiet, captures) = b.get_legal_moves(&white);
    assert_eq!(quiet, vec![(4, 4), (3, 4)]);
    assert_eq!(captures, vec![(4, 3), (4, 5)]);
}

#[test]
fn moved_pawn_advances_one_square() {
    let mut b = Board::default();
    go(&mut b, (6, 4), (5, 4));
    let pawn = piece(&b, 5, 4);
    assert_eq!(pawn.times_moved, 1);
    assert_eq!(pawn.position, (5, 4));
    assert_eq!(b.get_quiet_moves(&pawn), vec![(4, 4)]);
}

#[test]
fn knight_jumps_stay_on_the_board() {
    let b = board("8/8/8/8/8/8/8/N7 w - - 0 1");
    let knight = piece(&b, 7, 0);
    assert_eq!(b.get_knight_moves(&knight), vec![(6, 2), (5, 1)]);
    let b = board("8/8/8/3n4/8/8/8/8 b - - 0 1");
    let knight = piece(&b, 3, 3);
    assert_eq!(
        b.get_knight_moves(&knight),
        vec![(5, 4), (5, 2), (4, 5), (2, 5), (1, 4), (1, 2), (4, 1), (2, 1)]
    );
    assert_eq!(b.get_all_moves(&knight), b.get_knight_moves(&knight));
}

#[test]
fn rays_stop_at_pieces() {
    let b = board("8/8/8/1p1R2P1/8/8/8/8 w - - 0 1");
    let rook = piece(&b, 3, 3);
    assert_eq!(b.get_rank_moves(&rook, 8, HorizontalDirection::Left), vec![(3, 2), (3, 1)]);
    assert_eq!(b.get_rank_moves(&rook, 8, HorizontalDirection::Right), vec![(3, 4), (3, 5)]);
    assert_eq!(b.get_rank_moves(&rook, 1, HorizontalDirection::Right), vec![(3, 4)]);
    assert_eq!(b.get_rank_moves(&rook, 0, HorizontalDirection::Right), vec![]);
    assert_eq!(b.get_file_moves(&rook, 8, VerticalDirection::Up), vec![(2, 3), (1, 3), (0, 3)]);
    assert_eq!(b.get_file_moves(&rook, 8, VerticalDirection::Down), vec![(4, 3), (5, 3), (6, 3), (7, 3)]);
    assert_eq!(
        b.get_all_moves(&rook),
        vec![(4, 3), (5, 3), (6, 3), (7, 3), (2, 3), (1, 3), (0, 3), (3, 2), (3, 1), (3, 4), (3, 5)]
    );
}

#[test]
fn up_is_the_way_a_side_advances() {
    let b = board("8/8/8/3b4/8/8/8/8 b - - 0 1");
    let bishop = piece(&b, 3, 3);
    assert_eq!(
        b.get_diagonal_moves(&bishop, 8, (VerticalDirection::Up, HorizontalDirection::Left)),
        vec![(4, 2), (5, 1), (6, 0)]
    );
    assert_eq!(
        b.get_diagonal_moves(&bishop, 2, (VerticalDirection::Down, HorizontalDirection::Right)),
        vec![(2, 4), (1, 5)]
    );
    let b = board("8/8/8/3B4/8/8/8/8 w - - 0 1");
    let bishop = piece(&b, 3, 3);
    assert_eq!(
        b.get_diagonal_moves(&bishop, 8, (VerticalDirection::Up, HorizontalDirection::Left)),
        vec![(2, 2), (1, 1), (0, 0)]
    );
    assert_eq!(
        b.get_all_moves(&bishop),
        vec![(2, 2), (1, 1), (0, 0), (2, 4), (1, 5), (0, 6), (4, 2), (5, 1), (6, 0), (4, 4), (5, 5), (6, 6), (7, 7)]
    );
}

#[test]
fn point_of_view_does_not_change_the_moves() {
    let mut b = Board::default();
    let before = count_legal_moves(&b, PieceColor::White);
    let pawn = piece(&b, 6, 0);
    let moves = b.get_all_moves(&pawn);
    b.flip_board();
    assert_eq!(b.state.pov, PieceColor::White);
    assert_eq!(b.get_all_moves(&pawn), moves);
    assert_eq!(count_legal_moves(&b, PieceColor::White), before);
    b.flip_board();
    assert_eq!(b.state.pov, PieceColor::Black);
}

#[test]
fn shown_attacks_follow_the_point_of_view() {
    let mut b = board("8/8/8/3P4/8/8/8/8 w - - 0 1");
    let pawn = piece(&b, 3, 3);
    assert_eq!(b.state.pov, PieceColor::Black);
    assert_eq!(b.get_attack_squares(&pawn), vec![(2, 2), (2, 4)]);
    b.flip_board();
    assert_eq!(b.get_attack_squares(&pawn), vec![(4, 2), (4, 4)]);
    let b = board("8/8/8/P7/8/8/8/7R w - - 0 1");
    let pawn = piece(&b, 3, 0);
    assert_eq!(b.get_attack_squares(&pawn), vec![(2, 1)]);
    let rook = piece(&b, 7, 7);
    assert_eq!(b.get_attack_squares(&rook), b.get_all_moves(&rook));
}

#[test]
fn pawns_give_check_by_colour_whatever_the_point_of_view() {
    let mut b = board("8/8/8/3k4/4P3/8/8/4K3 b - - 0 1");
    assert!(b.is_in_check(PieceColor::Black));
    b.flip_board();
    assert!(b.is_in_check(PieceColor::Black));
    let mut b = board("8/8/8/3k4/8/8/4P3/4K3 b - - 0 1");
    assert!(!b.is_in_check(PieceColor::Black));
    b.flip_board();
    assert!(!b.is_in_check(PieceColor::Black));
    let b = board("8/8/3P4/3k4/8/8/8/4K3 b - - 0 1");
    assert!(!b.is_in_check(PieceColor::Black));
    let b = board("8/8/8/8/3p4/4K3/8/4k3 w - - 0 1");
    assert!(b.is_in_check(PieceColor::White));
    let b = board("8/8/8/8/4K3/3p4/8/4k3 w - - 0 1");
    assert!(!b.is_in_check(PieceColor::White));
}

#[test]
fn kings_on_one_rank_do_not_check_each_other() {
    let b = board("8/8/8/8/K6k/8/8/8 w - - 0 1");
    assert!(!b.is_in_check(PieceColor::White));
    assert!(!b.is_in_check(PieceColor::Black));
    let b = board("8/8/8/8/Kk6/8/8/8 w - - 0 1");
    assert!(b.is_in_check(PieceColor::White));
    assert!(b.is_in_check(PieceColor::Black));
}

#[test]
fn check_by_each_kind_of_piece() {
    assert!(board("4k3/8/8/8/8/8/8/4R1K1 b - - 0 1").is_in_check(PieceColor::Black));
    assert!(!board("4k3/8/4p3/8/8/8/8/4R1K1 b - - 0 1").is_in_check(PieceColor::Black));
    assert!(board("4k3/8/8/8/B7/8/8/6K1 b - - 0 1").is_in_check(PieceColor::Black));
    assert!(board("4k3/8/5N2/8/8/8/8/6K1 b - - 0 1").is_in_check(PieceColor::Black));
    assert!(board("4k3/8/8/8/8/8/8/4Q1K1 b - - 0 1").is_in_check(PieceColor::Black));
    assert!(!board("4k3/8/8/8/8/8/8/3Q2K1 b - - 0 1").is_in_check(PieceColor::Black));
    assert!(!board("8/8/8/8/8/8/8/8 w - - 0 1").is_in_check(PieceColor::White));
}

#[test]
fn fools_mate_is_checkmate() {
    let b = board("rnb1kbnr/pppp1ppp/8/4p3/6Pq/5P2/PPPPP2P/RNBQKBNR w KQkq - 1 3");
    assert!(b.is_in_check(PieceColor::White));
    assert!(b.is_checkmate());
    assert!(!b.is_stalemate());
    assert!(b.has_lost());
    assert!(!b.side_can_move(PieceColor::White));
    assert_eq!(count_legal_moves(&b, PieceColor::White), 0);
}

#[test]
fn fools_mate_played_out() {
    let mut b = Board::default();
    go(&mut b, (6, 5), (5, 5));
    go(&mut b, (1, 4), (3, 4));
    go(&mut b, (6, 6), (4, 6));
    assert!(!b.is_checkmate());
    go(&mut b, (0, 3), (4, 7));
    assert_eq!(b.to_string(), "rnb1kbnr/pppp1ppp/8/4p3/6Pq/5P2/PPPPP2P/RNBQKBNR w KQkq - 1 3");
    assert!(b.is_checkmate());
    assert!(b.has_lost());
    assert!(!b.is_stalemate());
}

#[test]
fn cornered_king_is_stalemated() {
    let b = board("7k/5Q2/6K1/8/8/8/8/8 b - - 0 1");
    assert!(!b.is_in_check(PieceColor::Black));
    assert!(b.is_stalemate());
    assert!(!b.is_checkmate());
    assert!(!b.has_lost());
    let b = board("7k/5Q2/6K1/8/8/8/8/8 w - - 0 1");
    assert!(!b.is_stalemate());
    assert!(!b.is_checkmate());
}

#[test]
fn pinned_piece_may_not_leave_the_line() {
    let b = board("4r2k/8/8/8/8/8/4B3/4K3 w - - 0 1");
    let bishop = piece(&b, 6, 4);
    assert!(!b.get_all_moves(&bishop).is_empty());
    let (quiet, captures) = b.get_legal_moves(&bishop);
    assert!(quiet.is_empty());
    assert!(captures.is_empty());
    assert!(b.simulate_move(&bishop, &(5, 3)));
    let b = board("4r2k/8/8/8/8/8/4R3/4K3 w - - 0 1");
    let rook = piece(&b, 6, 4);
    let (quiet, captures) = b.get_legal_moves(&rook);
    assert_eq!(quiet, vec![(5, 4), (4, 4), (3, 4), (2, 4), (1, 4)]);
    assert_eq!(captures, vec![(0, 4)]);
    assert!(!b.simulate_move(&rook, &(0, 4)));
    assert!(b.simulate_move(&rook, &(6, 0)));
}

#[test]
fn simulate_move_leaves_the_board_as_it_was() {
    let b = board("r3k2r/pppq1ppp/2n5/3pP3/8/5N2/PPP2PPP/R3K2R w KQkq d5 3 9");
    let text = b.to_string();
    let squares = b.squares;
    for r in 0..8 {
        for c in 0..8 {
            if let Some(p) = b.squares[r][c] {
                for tr in 0..9u8 {
                    for tc in 0..9u8 {
                        let _ = b.simulate_move(&p, &(tr, tc));
                    }
                }
            }
        }
    }
    assert_eq!(b.to_string(), text);
    for r in 0..8 {
        for c in 0..8 {
            match (b.squares[r][c], squares[r][c]) {
                (Some(a), Some(z)) => {
                    assert_eq!((a.kind, a.color, a.position, a.times_moved), (z.kind, z.color, z.position, z.times_moved));
                }
                (None, None) => {}
                _ => panic!("square changed"),
            }
        }
    }
    assert!(b.state.quiet_moves.is_none());
    assert!(b.state.selected_piece.is_none());
}

#[test]
fn moves_off_the_board_are_ruled_out() {
    let b = Board::default();
    let pawn = piece(&b, 6, 4);
    assert!(b.simulate_move(&pawn, &(8, 4)));
    assert!(b.simulate_move(&pawn, &(4, 200)));
    let stray = ChessPiece { kind: PieceType::Rook, color: PieceColor::White, position: (9, 9), times_moved: 0 };
    assert!(b.simulate_move(&stray, &(4, 4)));
    assert!(b.get_all_moves(&stray).is_empty());
    assert_eq!(b.filter_quiet_moves(&pawn, &vec![(5, 4), (8, 8), (4, 4), (3, 4)]), vec![(5, 4), (4, 4), (3, 4)]);
    assert_eq!(b.filter_capture_moves(&pawn, &vec![(5, 3), (8, 8), (5, 4), (1, 1)]), vec![(5, 3), (1, 1)]);
    assert_eq!(b.legalize_capture_moves(&pawn, vec![(5, 3), (8, 8), (1, 1)]), vec![(1, 1)]);
    assert_eq!(b.legalize_quiet_moves(&pawn, vec![(5, 4), (8, 8)]), vec![(5, 4)]);
}

#[test]
fn refused_moves_leave_the_position_alone() {
    let mut b = Board::default();
    let text = b.to_string();
    assert_eq!(b.move_piece((4, 4), (3, 4)), Err(MoveError::IllegalMove));
    assert_eq!(b.move_piece((9, 9), (3, 4)), Err(MoveError::IllegalMove));
    assert_eq!(b.move_piece((6, 4), (3, 4)), Err(MoveError::IllegalMove));
    assert_eq!(b.move_piece((6, 4), (5, 200)), Err(MoveError::IllegalMove));
    assert_eq!(b.move_piece((7, 0), (5, 0)), Err(MoveError::NoAvailableMoves));
    assert_eq!(b.move_piece((7, 4), (6, 4)), Err(MoveError::NoAvailableMoves));
    assert_eq!(b.to_string(), text);
    assert!(b.state.moved_to.is_none());
    assert_eq!(piece(&b, 6, 4).times_moved, 0);
}

#[test]
fn quiet_move_books_the_counters() {
    let mut b = Board::default();
    go(&mut b, (7, 6), (5, 5));
    assert_eq!(b.to_string(), "rnbqkbnr/pppppppp/8/8/8/5N2/PPPPPPPP/RNBQKB1R b KQkq - 1 1");
    assert_eq!(b.state.moved_from, Some((7, 6)));
    assert_eq!(b.state.moved_to, Some((5, 5)));
    go(&mut b, (0, 1), (2, 2));
    assert_eq!(b.to_string(), "r1bqkbnr/pppppppp/2n5/8/8/5N2/PPPPPPPP/RNBQKB1R w KQkq - 2 2");
    go(&mut b, (6, 4), (4, 4));
    assert_eq!(b.to_string(), "r1bqkbnr/pppppppp/2n5/8/4P3/5N2/PPPP1PPP/RNBQKB1R b KQkq e4 0 2");
    assert_eq!(b.en_passant_target, Some((4, 4)));
    go(&mut b, (1, 0), (2, 0));
    assert_eq!(b.to_string(), "r1bqkbnr/1ppppppp/p1n5/8/4P3/5N2/PPPP1PPP/RNBQKB1R w KQkq - 0 3");
    assert_eq!(b.en_passant_target, None);
}

#[test]
fn capture_books_the_taken_piece() {
    let mut b = board("4k3/8/8/3p4/4P3/8/8/4K3 w - - 5 10");
    let pawn = piece(&b, 4, 4);
    assert_eq!(b.get_capture_moves(&pawn), vec![(3, 3)]);
    go(&mut b, (4, 4), (3, 3));
    assert_eq!(b.to_string(), "4k3/8/8/3P4/8/8/8/4K3 b - - 0 10");
    assert_eq!(b.state.white_taken.len(), 1);
    assert_eq!(b.state.white_taken[0].kind, PieceType::Pawn);
    assert_eq!(b.state.white_taken[0].color, PieceColor::Black);
    assert!(b.state.black_taken.is_empty());
    assert_eq!(piece(&b, 3, 3).times_moved, 1);
    let mut b = board("4k3/8/8/3n4/8/8/8/3RK3 b - - 5 10");
    go(&mut b, (3, 3), (5, 4));
    go(&mut b, (7, 3), (0, 3));
    go(&mut b, (0, 4), (0, 3));
    assert_eq!(b.state.black_taken.len(), 1);
    assert_eq!(b.state.black_taken[0].kind, PieceType::Rook);
    assert_eq!(b.to_string(), "3k4/8/8/8/8/4n3/8/4K3 w - - 0 12");
}

#[test]
fn en_passant_is_open_for_one_reply() {
    let mut b = Board::default();
    go(&mut b, (6, 4), (4, 4));
    go(&mut b, (1, 0), (2, 0));
    go(&mut b, (4, 4), (3, 4));
    go(&mut b, (1, 3), (3, 3));
    assert_eq!(b.en_passant_target, Some((3, 3)));
    let pawn = piece(&b, 3, 4);
    assert_eq!(b.get_capture_moves(&pawn), vec![(2, 3)]);
    let mut taken = b.clone();
    go(&mut taken, (3, 4), (2, 3));
    assert!(taken.squares[3][3].is_none());
    assert!(taken.squares[3][4].is_none());
    assert_eq!(piece(&taken, 2, 3).color, PieceColor::White);
    assert_eq!(taken.state.white_taken.len(), 1);
    assert_eq!(taken.state.white_taken[0].position, (3, 3));
    assert_eq!(taken.en_passant_target, None);
    assert_eq!(taken.to_string(), "rnbqkbnr/1pp1pppp/p2P4/8/8/8/PPPP1PPP/RNBQKBNR b KQkq - 0 3");
    go(&mut b, (6, 0), (5, 0));
    assert_eq!(b.en_passant_target, None);
    go(&mut b, (2, 0), (3, 0));
    let pawn = piece(&b, 3, 4);
    assert!(b.get_capture_moves(&pawn).is_empty());
    assert_eq!(b.move_piece((3, 4), (2, 3)), Err(MoveError::IllegalMove));
}

#[test]
fn en_passant_needs_a_pawn_that_moved_once() {
    let b = board("4k3/8/8/3pP3/8/8/8/4K3 w - d5 0 1");
    let pawn = piece(&b, 3, 4);
    assert!(b.get_capture_moves(&pawn).is_empty());
    let mut b = board("4k3/3p4/8/4P3/8/8/8/4K3 b - - 0 1");
    go(&mut b, (1, 3), (3, 3));
    let pawn = piece(&b, 3, 4);
    assert_eq!(b.get_capture_moves(&pawn), vec![(2, 3)]);
    let mut b = board("4k3/8/3p4/4P3/8/8/7P/4K3 b - - 0 1");
    go(&mut b, (2, 3), (3, 3));
    let pawn = piece(&b, 3, 4);
    assert_eq!(b.en_passant_target, None);
    assert!(b.get_capture_moves(&pawn).is_empty());
}

#[test]
fn castling_is_allowed_on_a_clear_rank() {
    let b = board("r3k2r/8/8/8/8/8/8/R3K2R w KQkq - 0 1");
    assert!(b.can_castle(CastleType::KingSide, PieceColor::White));
    assert!(b.can_castle(CastleType::QueenSide, PieceColor::White));
    assert!(b.can_castle(CastleType::KingSide, PieceColor::Black));
    assert!(b.can_castle(CastleType::QueenSide, PieceColor::Black));
    let king = piece(&b, 7, 4);
    assert_eq!(b.get_capture_moves(&king), vec![(7, 0), (7, 7)]);
    assert_eq!(b.get_quiet_moves(&king), vec![(6, 3), (6, 5), (6, 4), (7, 3), (7, 5)]);
    let b = board("r3k2r/8/8/8/8/8/8/R3K2R w Kq - 0 1");
    assert!(b.can_castle(CastleType::KingSide, PieceColor::White));
    assert!(!b.can_castle(CastleType::QueenSide, PieceColor::White));
    assert!(!b.can_castle(CastleType::KingSide, PieceColor::Black));
    assert!(b.can_castle(CastleType::QueenSide, PieceColor::Black));
}

#[test]
fn castling_is_refused_at_the_start() {
    let b = Board::default();
    assert!(!b.can_castle(CastleType::KingSide, PieceColor::White));
    assert!(!b.can_castle(CastleType::QueenSide, PieceColor::White));
    assert!(!b.can_castle(CastleType::KingSide, PieceColor::Black));
    assert!(!b.can_castle(CastleType::QueenSide, PieceColor::Black));
}

#[test]
fn castling_is_refused_through_pieces_and_attacks() {
    let b = board("r3k2r/8/8/8/8/8/8/RN2K1NR w KQkq - 0 1");
    assert!(!b.can_castle(CastleType::KingSide, PieceColor::White));
    assert!(!b.can_castle(CastleType::QueenSide, PieceColor::White));
    let b = board("4kr2/8/8/8/8/8/8/R3K2R w KQ - 0 1");
    assert!(!b.can_castle(CastleType::KingSide, PieceColor::White));
    assert!(b.can_castle(CastleType::QueenSide, PieceColor::White));
    let b = board("4k1r1/8/8/8/8/8/8/R3K2R w KQ - 0 1");
    assert!(!b.can_castle(CastleType::KingSide, PieceColor::White));
    let b = board("1r2k3/8/8/8/8/8/8/R3K2R w KQ - 0 1");
    assert!(!b.can_castle(CastleType::QueenSide, PieceColor::White));
    assert!(b.can_castle(CastleType::KingSide, PieceColor::White));
    let b = board("4k2r/8/8/8/8/8/8/R3K2R w KQ - 0 1");
    assert!(b.can_castle(CastleType::KingSide, PieceColor::White));
    let b = board("r3k2r/8/8/8/8/8/8/R3K2B w KQkq - 0 1");
    assert!(!b.can_castle(CastleType::KingSide, PieceColor::White));
    let b = board("r3k2r/8/8/8/8/8/8/R3K2r w KQkq - 0 1");
    assert!(!b.can_castle(CastleType::KingSide, PieceColor::White));
}

#[test]
fn castling_is_refused_once_king_or_rook_has_moved() {
    let mut b = board("r3k2r/8/8/8/8/8/8/R3K2R w KQkq - 0 1");
    go(&mut b, (7, 7), (6, 7));
    assert!(!b.white_small_castle);
    assert!(b.white_big_castle);
    go(&mut b, (0, 4), (1, 4));
    assert!(!b.black_small_castle && !b.black_big_castle);
    go(&mut b, (6, 7), (7, 7));
    go(&mut b, (1, 4), (0, 4));
    assert!(!b.can_castle(CastleType::KingSide, PieceColor::White));
    assert!(b.can_castle(CastleType::QueenSide, PieceColor::White));
    assert!(!b.can_castle(CastleType::KingSide, PieceColor::Black));
    assert!(!b.can_castle(CastleType::QueenSide, PieceColor::Black));
    assert_eq!(b.to_string(), "r3k2r/8/8/8/8/8/8/R3K2R w Q - 4 3");
    let mut moved = board("r3k2r/8/8/8/8/8/8/R3K2R w KQkq - 0 1");
    moved.squares[7][4].as_mut().unwrap().times_moved = 2;
    assert!(!moved.can_castle(CastleType::KingSide, PieceColor::White));
    assert!(!moved.can_castle(CastleType::QueenSide, PieceColor::White));
    let mut moved = board("r3k2r/8/8/8/8/8/8/R3K2R w KQkq - 0 1");
    moved.squares[0][0].as_mut().unwrap().times_moved = 1;
    assert!(!moved.can_castle(CastleType::QueenSide, PieceColor::Black));
    assert!(moved.can_castle(CastleType::KingSide, PieceColor::Black));
}

#[test]
fn castling_right_is_lost_when_the_rook_is_taken() {
    let mut b = board("r3k2r/8/8/8/8/8/6b1/R3K2R b KQkq - 0 1");
    go(&mut b, (6, 6), (7, 7));
    assert!(!b.white_small_castle);
    assert!(b.white_big_castle && b.black_big_castle && b.black_small_castle);
    assert_eq!(b.state.black_taken.len(), 1);
}

#[test]
fn castling_moves_king_and_rook() {
    let mut b = board("r3k2r/8/8/8/8/8/8/R3K2R w KQkq - 3 7");
    b.execute_castle((7, 4), (7, 7));
    assert_eq!(b.to_string(), "r3k2r/8/8/8/8/8/8/R4RK1 b kq - 4 7");
    assert_eq!(piece(&b, 7, 6).kind, PieceType::King);
    assert_eq!(piece(&b, 7, 6).position, (7, 6));
    assert_eq!(piece(&b, 7, 6).times_moved, 1);
    assert_eq!(piece(&b, 7, 5).kind, PieceType::Rook);
    assert_eq!(piece(&b, 7, 5).position, (7, 5));
    assert_eq!(b.state.moved_to, Some((7, 6)));
    assert!(!b.can_castle(CastleType::QueenSide, PieceColor::White));
    b.execute_castle((0, 4), (0, 0));
    assert_eq!(b.to_string(), "2kr3r/8/8/8/8/8/8/R4RK1 w - - 5 8");
    assert_eq!(piece(&b, 0, 2).kind, PieceType::King);
    assert_eq!(piece(&b, 0, 3).kind, PieceType::Rook);
    assert_eq!(piece(&b, 0, 3).position, (0, 3));
}

#[test]
fn castling_that_is_not_allowed_changes_nothing() {
    let mut b = Board::default();
    let text = b.to_string();
    b.execute_castle((7, 4), (7, 7));
    b.execute_castle((7, 4), (7, 0));
    b.execute_castle((0, 4), (0, 7));
    b.execute_castle((3, 3), (3, 6));
    b.execute_castle((7, 4), (0, 7));
    b.execute_castle((9, 4), (9, 7));
    assert_eq!(b.to_string(), text);
    let mut b = board("r3k2r/8/8/8/8/8/8/R3K2R w KQkq - 0 1");
    b.execute_castle((7, 4), (7, 3));
    b.execute_castle((7, 3), (7, 7));
    assert_eq!(b.to_string(), "r3k2r/8/8/8/8/8/8/R3K2R w KQkq - 0 1");
}

#[test]
fn castling_marker_is_no_move_for_move_piece() {
    let mut b = board("r3k2r/8/8/8/8/8/8/R3K2R w KQkq - 0 1");
    assert_eq!(b.move_piece((7, 4), (7, 7)), Err(MoveError::IllegalMove));
    assert_eq!(b.move_piece((7, 4), (7, 0)), Err(MoveError::IllegalMove));
    assert_eq!(b.to_string(), "r3k2r/8/8/8/8/8/8/R3K2R w KQkq - 0 1");
}

#[test]
fn pawn_on_the_last_rank_waits_for_promotion() {
    let mut b = board("4k3/P7/8/8/8/8/8/4K3 w - - 0 1");
    go(&mut b, (1, 0), (0, 0));
    assert_eq!(b.state.promtion_pending, Some((0, 0)));
    assert_eq!(piece(&b, 0, 0).kind, PieceType::Pawn);
    assert_eq!(b.to_string(), "P3k3/8/8/8/8/8/8/4K3 b - - 0 1");
    b.promote_pawn((0, 0), PieceType::Queen);
    assert_eq!(piece(&b, 0, 0).kind, PieceType::Queen);
    assert_eq!(piece(&b, 0, 0).color, PieceColor::White);
    assert_eq!(piece(&b, 0, 0).position, (0, 0));
    assert_eq!(b.to_string(), "Q3k3/8/8/8/8/8/8/4K3 b - - 0 1");
    assert!(b.is_in_check(PieceColor::Black));
    let queen = piece(&b, 0, 0);
    let (quiet, _) = b.get_legal_moves(&queen);
    assert!(quiet.contains(&(7, 7)));
    assert!(quiet.contains(&(7, 0)));
    assert!(quiet.contains(&(0, 3)));
    go(&mut b, (0, 4), (1, 4));
    go(&mut b, (0, 0), (5, 5));
    assert_eq!(piece(&b, 5, 5).kind, PieceType::Queen);
    let mut b = board("4k3/8/8/8/8/8/p7/4K3 b - - 0 1");
    go(&mut b, (6, 0), (7, 0));
    assert_eq!(b.state.promtion_pending, Some((7, 0)));
    b.promote_pawn((7, 0), PieceType::Knight);
    assert_eq!(piece(&b, 7, 0).kind, PieceType::Knight);
    let knight = piece(&b, 7, 0);
    assert_eq!(b.get_all_moves(&knight), vec![(6, 2), (5, 1)]);
}

#[test]
fn promotion_of_an_empty_square_changes_nothing() {
    let mut b = Board::default();
    let text = b.to_string();
    b.promote_pawn((4, 4), PieceType::Queen);
    b.promote_pawn((8, 8), PieceType::Queen);
    assert_eq!(b.to_string(), text);
}

#[test]
fn selection_caches_the_legal_moves() {
    let mut b = Board::default();
    let knight = piece(&b, 7, 1);
    b.select_piece(knight);
    assert_eq!(b.state.selected_piece.unwrap().position, (7, 1));
    assert_eq!(b.state.quiet_moves, Some(vec![(5, 2), (5, 0)]));
    assert_eq!(b.state.capture_moves, Some(vec![]));
    b.deselect_piece();
    assert!(b.state.selected_piece.is_none());
    assert!(b.state.quiet_moves.is_none());
    assert!(b.state.capture_moves.is_none());
    b.set_legal_moves(&knight);
    assert!(b.state.selected_piece.is_none());
    assert_eq!(b.state.quiet_moves, Some(vec![(5, 2), (5, 0)]));
    go(&mut b, (7, 1), (5, 2));
    assert!(b.state.quiet_moves.is_none());
    assert!(b.state.capture_moves.is_none());
}

#[test]
fn turn_changes_hands() {
    let mut b = Board::default();
    assert_eq!(b.turn, PieceColor::White);
    b.change_turn();
    assert_eq!(b.turn, PieceColor::Black);
    b.change_turn();
    assert_eq!(b.turn, PieceColor::White);
    assert_eq!(PieceColor::White.opposite(), PieceColor::Black);
    assert_eq!(PieceColor::Black.opposite(), PieceColor::White);
}

#[test]
fn piece_on_a_square() {
    let b = Board::default();
    assert_eq!(b.piece_on((7, 4)).unwrap().kind, PieceType::King);
    assert!(b.piece_on((4, 4)).is_none());
    assert!(b.piece_on((8, 0)).is_none());
    assert!(b.piece_on((0, 255)).is_none());
    let d = ChessPiece::default();
    assert_eq!((d.kind, d.color, d.position, d.times_moved), (PieceType::Pawn, PieceColor::Black, (0, 0), 0));
}

#[test]
fn counters_at_their_limit_leave_no_room() {
    let b = board("4k3/8/8/8/8/8/8/4K3 w - - 4294967295 1");
    assert!(!b.has_room());
    let b = board("4k3/8/8/8/8/8/8/4K3 w - - 0 4294967295");
    assert!(!b.has_room());
    let mut b = board("4k3/8/8/8/8/8/8/4K3 w - - 0 1");
    assert!(b.has_room());
    b.squares[7][4].as_mut().unwrap().times_moved = i32::MAX;
    assert!(!b.has_room());
    assert!(!b.has_room_at((7, 4)));
    assert!(b.has_room_at((0, 4)));
    assert!(b.has_room_at((3, 3)));
    assert!(b.has_room_at((9, 9)));
}

#[test]
fn uci_move_is_left_to_the_caller() {
    let mut b = Board::default();
    let text = b.to_string();
    assert_eq!(b.decode_uci_move("e2e4".to_owned()), Ok(Some(((6, 4), (4, 4)))));
    assert_eq!(b.to_string(), text);
    assert_eq!(b.decode_uci_move("a1a8".to_owned()), Ok(Some(((7, 0), (0, 0)))));
    assert_eq!(b.to_string(), text);
    assert_eq!(b.decode_uci_move("e2e".to_owned()), Err(UciError::InvalidLength));
    assert_eq!(b.decode_uci_move("e2z4".to_owned()), Err(UciError::InvalidSquare));
    assert_eq!(b.decode_uci_move("e7e8k".to_owned()), Err(UciError::InvalidPromotion('k')));
    assert_eq!(b.to_string(), text);
}

#[test]
fn uci_castling_moves_castle() {
    let mut b = board("r3k2r/8/8/8/8/8/8/R3K2R w KQkq - 0 1");
    assert_eq!(b.decode_uci_move("e1g1".to_owned()), Ok(None));
    assert_eq!(b.to_string(), "r3k2r/8/8/8/8/8/8/R4RK1 b kq - 1 1");
    assert_eq!(b.decode_uci_move("e8c8".to_owned()), Ok(None));
    assert_eq!(b.to_string(), "2kr3r/8/8/8/8/8/8/R4RK1 w - - 2 2");
    let mut b = board("r3k2r/8/8/8/8/8/8/R3K2R w KQkq - 0 1");
    assert_eq!(b.decode_uci_move("e1c1".to_owned()), Ok(None));
    assert_eq!(b.to_string(), "r3k2r/8/8/8/8/8/8/2KR3R b kq - 1 1");
    assert_eq!(b.decode_uci_move("e8g8".to_owned()), Ok(None));
    assert_eq!(b.to_string(), "r4rk1/8/8/8/8/8/8/2KR3R w - - 2 2");
    let mut b = Board::default();
    let text = b.to_string();
    assert_eq!(b.decode_uci_move("e1g1".to_owned()), Ok(None));
    assert_eq!(b.to_string(), text);
}

#[test]
fn uci_promotion_moves_and_promotes() {
    let mut b = board("4k3/P7/8/8/8/8/8/4K3 w - - 0 1");
    assert_eq!(b.decode_uci_move("a7a8q".to_owned()), Ok(Some(((1, 0), (0, 0)))));
    assert_eq!(b.to_string(), "Q3k3/8/8/8/8/8/8/4K3 b - - 0 1");
    assert_eq!(b.state.promtion_pending, None);
    let mut b = board("4k3/P7/8/8/8/8/8/4K3 w - - 0 1");
    assert_eq!(b.decode_uci_move("a7a8N".to_owned()), Ok(Some(((1, 0), (0, 0)))));
    assert_eq!(b.to_string(), "N3k3/8/8/8/8/8/8/4K3 b - - 0 1");
    let mut b = board("4k3/P7/8/8/8/8/8/4K3 w - - 0 1");
    assert_eq!(b.decode_uci_move("b7b8q".to_owned()), Ok(None));
    assert_eq!(b.decode_uci_move("a7a8x".to_owned()), Err(UciError::InvalidPromotion('x')));
    assert_eq!(b.to_string(), "4k3/P7/8/8/8/8/8/4K3 w - - 0 1");
}

#[test]
fn drawn_number_gives_a_side() {
    assert_eq!(color_of_draw(0), PieceColor::White);
    assert_eq!(color_of_draw(1), PieceColor::Black);
    assert_eq!(color_of_draw(-1), PieceColor::Black);
    assert_eq!(color_of_draw(-2), PieceColor::White);
    assert_eq!(color_of_draw(i32::MAX), PieceColor::Black);
    assert_eq!(color_of_draw(i32::MIN), PieceColor::White);
    let mut seen_white = false;
    let mut seen_black = false;
    for _ in 0..200 {
        match random_color() {
            PieceColor::White => seen_white = true,
            PieceColor::Black => seen_black = true,
        }
    }
    assert!(seen_white && seen_black);
}

#[test]
fn player_is_seated_on_their_side() {
    let mut b = Board::default();
    b.seat_player(PieceColor::White);
    assert_eq!(b.state.pov, PieceColor::White);
    b.seat_player(PieceColor::White);
    assert_eq!(b.state.pov, PieceColor::White);
    b.seat_player(PieceColor::Black);
    assert_eq!(b.state.pov, PieceColor::Black);
}

#[test]
fn game_stays_in_play_move_by_move() {
    let mut b = Board::default();
    assert!(b.is_in_play());
    let moves = [
        ((6, 4), (4, 4)),
        ((1, 4), (3, 4)),
        ((7, 6), (5, 5)),
        ((0, 1), (2, 2)),
        ((7, 5), (4, 2)),
        ((0, 5), (3, 2)),
    ];
    for (from, to) in moves {
        go(&mut b, from, to);
        assert!(b.is_in_play());
        assert_eq!(b.count_kings(PieceColor::White), 1);
        assert_eq!(b.count_kings(PieceColor::Black), 1);
    }
    b.execute_castle((7, 4), (7, 7));
    assert_eq!(b.to_string(), "r1bqk1nr/pppp1ppp/2n5/2b1p3/2B1P3/5N2/PPPP1PPP/RNBQ1RK1 b kq - 5 4");
    assert!(b.is_in_play());
    let mut b = board("4k3/P7/8/8/8/8/8/4K3 w - - 0 1");
    assert!(b.is_in_play());
    go(&mut b, (1, 0), (0, 0));
    assert!(b.is_in_play());
    b.promote_pawn((0, 0), PieceType::Rook);
    assert!(b.is_in_play());
    assert!(b.is_in_check(PieceColor::Black));
}

#[test]
fn positions_that_no_game_reaches_are_not_in_play() {
    assert!(!board("8/8/8/8/8/8/8/8 w - - 0 1").is_in_play());
    assert!(!board("4k3/8/8/8/8/8/8/8 w - - 0 1").is_in_play());
    assert!(!board("4k3/8/8/8/8/8/8/3KK3 w - - 0 1").is_in_play());
    assert!(!board("4k3/8/8/8/8/8/8/4R1K1 w - - 0 1").is_in_play());
    assert!(board("4k3/8/8/8/8/8/8/4R1K1 b - - 0 1").is_in_play());
    assert_eq!(board("kk6/8/8/8/8/8/8/KKK5 w - - 0 1").count_kings(PieceColor::White), 3);
    assert_eq!(board("kk6/8/8/8/8/8/8/KKK5 w - - 0 1").count_kings(PieceColor::Black), 2);
    assert_eq!(board("8/8/8/8/8/8/8/8 w - - 0 1").count_kings(PieceColor::Black), 0);
    let mut b = Board::default();
    assert!(b.is_well_formed());
    b.squares[7][4].as_mut().unwrap().position = (0, 0);
    assert!(!b.is_well_formed());
    assert!(!b.is_in_play());
    let mut b = Board::default();
    b.squares[0][0].as_mut().unwrap().times_moved = -1;
    assert!(!b.is_well_formed());
}

#[test]
fn threats_follow_the_rules() {
    let mut b = board("8/8/8/3P4/8/8/8/R3K3 w - - 0 1");
    let pawn = piece(&b, 3, 3);
    assert_eq!(b.get_threat_squares(&pawn), vec![(2, 2), (2, 4)]);
    b.flip_board();
    assert_eq!(b.get_threat_squares(&pawn), vec![(2, 2), (2, 4)]);
    let king = piece(&b, 7, 4);
    assert_eq!(b.get_threat_squares(&king), vec![(6, 3), (6, 5), (6, 4), (7, 3), (7, 5)]);
    assert_eq!(b.get_all_moves(&king), vec![(6, 3), (6, 5), (6, 4), (7, 3), (7, 2), (7, 1), (7, 0), (7, 5), (7, 6), (7, 7)]);
    let rook = piece(&b, 7, 0);
    assert_eq!(b.get_threat_squares(&rook), b.get_all_moves(&rook));
    let b = board("8/8/8/3p4/8/8/8/8 b - - 0 1");
    let pawn = piece(&b, 3, 3);
    assert_eq!(b.get_threat_squares(&pawn), vec![(4, 2), (4, 4)]);
}

#[test]
fn screen_places_follow_the_point_of_view() {
    let mut b = Board::default();
    assert_eq!(b.state.pov, PieceColor::Black);
    assert_eq!(b.square_on_screen((0, 0)), (7, 7));
    assert_eq!(b.square_on_screen((7, 2)), (0, 5));
    b.flip_board();
    assert_eq!(b.square_on_screen((0, 0)), (0, 0));
    assert_eq!(b.square_on_screen((7, 2)), (7, 2));
    assert!(is_light_square((0, 0)));
    assert!(!is_light_square((0, 1)));
    assert!(is_light_square((7, 7)));
    assert!(!is_light_square((7, 0)));
    assert!(is_light_square((3, 5)));
}
