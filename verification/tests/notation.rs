use chess_app::board::Board;
use chess_app::fen::{fen_parser, FenError, DEFAULT_FEN};
use chess_app::piece::{PieceColor, PieceType};
use chess_app::uci::{best_move_of_line, parse_uci_move, UciError};

fn parse(text: &str) -> Result<Board, FenError> {
    fen_parser(&text.to_owned())
}

fn error_of(text: &str) -> FenError {
    match parse(text) {
        Ok(_) => panic!("{} was read", text),
        Err(why) => why,
    }
}

#[test]
fn default_fen_reads_as_the_default_board() {
    let board = parse(DEFAULT_FEN).ok().unwrap();
    let start = Board::default();
    for r in 0..8 {
        for c in 0..8 {
            match (board.squares[r][c], start.squares[r][c]) {
                (Some(a), Some(b)) => {
                    assert_eq!(a.kind, b.kind);
                    assert_eq!(a.color, b.color);
                    assert_eq!(a.position, (r as u8, c as u8));
                    assert_eq!(b.position, (r as u8, c as u8));
                    assert_eq!(a.times_moved, 0);
                    assert_eq!(b.times_moved, 0);
                }
                (None, None) => {}
                _ => panic!("square ({}, {}) differs", r, c),
            }
        }
    }
    assert_eq!(board.turn, PieceColor::White);
    assert!(board.white_big_castle && board.white_small_castle);
    assert!(board.black_big_castle && board.black_small_castle);
    assert_eq!(board.en_passant_target, None);
    assert_eq!(board.halfmove_clock, 0);
    assert_eq!(board.fullmove_number, 1);
    assert_eq!(start.to_string(), DEFAULT_FEN);
}

#[test]
fn default_board_has_pieces_on_their_squares() {
    let board = Board::default();
    let black_king = board.squares[0][4].unwrap();
    assert_eq!(black_king.kind, PieceType::King);
    assert_eq!(black_king.color, PieceColor::Black);
    let white_queen = board.squares[7][3].unwrap();
    assert_eq!(white_queen.kind, PieceType::Queen);
    assert_eq!(white_queen.color, PieceColor::White);
    let white_pawn = board.squares[6][0].unwrap();
    assert_eq!(white_pawn.kind, PieceType::Pawn);
    assert_eq!(white_pawn.color, PieceColor::White);
    assert!(board.squares[3][3].is_none());
    assert_eq!(board.state.pov, PieceColor::Black);
    assert!(board.state.selected_piece.is_none());
    assert!(board.state.white_taken.is_empty());
}

#[test]
fn written_text_is_read_and_written_again() {
    let texts = [
        DEFAULT_FEN,
        "rnbqkbnr/pppppppp/1P2P3/8/8/8/PPPPPPPP/RNBQKBNR w KQkq - 0 1",
        "r3k2r/8/8/8/8/8/8/R3K2R b Kq - 12 34",
        "8/8/8/8/8/8/8/8 w - - 0 1",
        "7k/5Q2/6K1/8/8/8/8/8 b - - 4294967295 4294967295",
        "rnbqkbnr/ppp1pppp/8/3pP3/8/8/PPPP1PPP/RNBQKBNR w KQkq d5 0 3",
        "p6P/1p4P1/2p2P2/3pP3/3Pp3/2P2p2/1P4p1/P6p b Qk a1 7 100",
    ];
    for text in texts {
        let board = parse(text).ok().unwrap();
        assert_eq!(board.to_string(), text);
    }
}

#[test]
fn fields_may_be_parted_by_any_white_space() {
    let board = parse("  8/8/8/8/8/8/8/4K3\t\tb \n Kk\u{a0}h8\u{3000}7   9 \r\n").ok().unwrap();
    assert_eq!(board.to_string(), "8/8/8/8/8/8/8/4K3 b Kk h8 7 9");
    assert_eq!(board.en_passant_target, Some((0, 7)));
}

#[test]
fn en_passant_field_names_a_square() {
    let board = parse("8/8/8/8/8/8/8/8 w - e3 0 1").ok().unwrap();
    assert_eq!(board.en_passant_target, Some((5, 4)));
    let board = parse("8/8/8/8/8/8/8/8 w - a8 0 1").ok().unwrap();
    assert_eq!(board.en_passant_target, Some((0, 0)));
    let board = parse("8/8/8/8/8/8/8/8 w - h1 0 1").ok().unwrap();
    assert_eq!(board.en_passant_target, Some((7, 7)));
    for odd in ["-", "i3", "e9", "e0", "e", "e33", "E3"] {
        let text = format!("8/8/8/8/8/8/8/8 w - {} 0 1", odd);
        assert_eq!(parse(&text).ok().unwrap().en_passant_target, None);
    }
}

#[test]
fn side_and_castling_fields_are_read_leniently() {
    let board = parse("8/8/8/8/8/8/8/8 white xQkx - 0 1").ok().unwrap();
    assert_eq!(board.turn, PieceColor::Black);
    assert!(board.white_big_castle);
    assert!(board.black_small_castle);
    assert!(!board.white_small_castle);
    assert!(!board.black_big_castle);
    assert_eq!(board.to_string(), "8/8/8/8/8/8/8/8 b Qk - 0 1");
}

#[test]
fn foreign_character_is_reported() {
    assert_eq!(error_of("rnbqkbnr/ppppxppp/8/8/8/8/PPPPPPPP/RNBQKBNR w KQkq - 0 1"), FenError::InvalidChar('x'));
    assert_eq!(error_of("8/8/8/8/8/8/8/7? w - - 0 1"), FenError::InvalidChar('?'));
    assert_eq!(error_of("9z/8 w - - 0 1"), FenError::InvalidChar('z'));
    assert_eq!(error_of("8/8/8/8/8/8/8/8- w - - a b"), FenError::InvalidChar('-'));
}

#[test]
fn wrong_number_of_fields_is_reported() {
    assert_eq!(error_of(""), FenError::FieldCount);
    assert_eq!(error_of("   "), FenError::FieldCount);
    assert_eq!(error_of("8/8/8/8/8/8/8/8 w - - 0"), FenError::FieldCount);
    assert_eq!(error_of("8/8/8/8/8/8/8/8 w - - 0 1 extra"), FenError::FieldCount);
    assert_eq!(error_of("x w - - 0"), FenError::FieldCount);
}

#[test]
fn misshapen_board_is_reported() {
    assert_eq!(error_of("8/8/8/8/8/8/8 w - - 0 1"), FenError::InvalidBoard);
    assert_eq!(error_of("8/8/8/8/8/8/8/8/8 w - - 0 1"), FenError::InvalidBoard);
    assert_eq!(error_of("8/8/8/8/8/8/8/7 w - - 0 1"), FenError::InvalidBoard);
    assert_eq!(error_of("8/8/8/8/8/8/8/9 w - - 0 1"), FenError::InvalidBoard);
    assert_eq!(error_of("8/8/8/8/8/8/8/8p w - - 0 1"), FenError::InvalidBoard);
    assert_eq!(error_of("8/8/8/8//8/8/8 w - - 0 1"), FenError::InvalidBoard);
    assert_eq!(error_of("ppppppppp/8/8/8/8/8/8/8 w - - 0 1"), FenError::InvalidBoard);
    assert_eq!(error_of("8/8/8/8/8/8/8/8/ w - - 0 1"), FenError::InvalidBoard);
}

#[test]
fn zero_is_a_run_of_no_squares() {
    let board = parse("08/8/8/8/8/8/8/4K0P02 w - - 0 1").ok().unwrap();
    assert_eq!(board.to_string(), "8/8/8/8/8/8/8/4KP2 w - - 0 1");
}

#[test]
fn bad_counter_is_reported() {
    assert_eq!(error_of("8/8/8/8/8/8/8/8 w - - x 1"), FenError::InvalidNumber);
    assert_eq!(error_of("8/8/8/8/8/8/8/8 w - - 0 -1"), FenError::InvalidNumber);
    assert_eq!(error_of("8/8/8/8/8/8/8/8 w - - 0 4294967296"), FenError::InvalidNumber);
    assert_eq!(error_of("8/8/8/8/8/8/8/8 w - - 0 99999999999999999999999999"), FenError::InvalidNumber);
    assert_eq!(error_of("8/8/8/8/8/8/8/8 w - - 1.5 1"), FenError::InvalidNumber);
    assert_eq!(error_of("8/8/8/8/8/8/8/8 w - - 12a 1"), FenError::InvalidNumber);
}

#[test]
fn counters_are_read_in_base_ten() {
    let board = parse("8/8/8/8/8/8/8/8 w - - 007 4294967295").ok().unwrap();
    assert_eq!(board.halfmove_clock, 7);
    assert_eq!(board.fullmove_number, 4294967295);
    assert_eq!(board.to_string(), "8/8/8/8/8/8/8/8 w - - 7 4294967295");
    let board = parse("8/8/8/8/8/8/8/8 w - - 120 1030").ok().unwrap();
    assert_eq!(board.halfmove_clock, 120);
    assert_eq!(board.fullmove_number, 1030);
}

#[test]
fn errors_come_in_the_order_of_the_fields() {
    assert_eq!(error_of("8/8/8/8/8/8/8/x w - - y z"), FenError::InvalidChar('x'));
    assert_eq!(error_of("8/8/8/8/8/8/8 w - - y z"), FenError::InvalidBoard);
    assert_eq!(error_of("8/8/8/8/8/8/8/8 w - - 1 z"), FenError::InvalidNumber);
}

#[test]
fn board_from_text_falls_back_to_the_start() {
    let board = Board::from(&"no position".to_owned());
    assert_eq!(board.to_string(), DEFAULT_FEN);
    let board = Board::from(&"8/8/8/8/8/8/8/8 b - - 3 4".to_owned());
    assert_eq!(board.to_string(), "8/8/8/8/8/8/8/8 b - - 3 4");
}

#[test]
fn names_of_sides_and_kinds() {
    assert_eq!(PieceColor::White.to_string(), "White");
    assert_eq!(PieceColor::Black.to_string(), "Black");
    assert_eq!(PieceType::King.to_string(), "King");
    assert_eq!(PieceType::Queen.to_string(), "Queen");
    assert_eq!(PieceType::Bishop.to_string(), "Bishop");
    assert_eq!(PieceType::Knight.to_string(), "Knight");
    assert_eq!(PieceType::Pawn.to_string(), "Pawn");
    assert_eq!(PieceType::Rook.to_string(), "Rook");
}

#[test]
fn uci_text_is_read_as_two_squares() {
    let m = parse_uci_move(&"e2e4".to_owned()).ok().unwrap();
    assert_eq!(m.from, (6, 4));
    assert_eq!(m.to, (4, 4));
    assert!(m.promotion.is_none());
    let m = parse_uci_move(&"a1h8".to_owned()).ok().unwrap();
    assert_eq!(m.from, (7, 0));
    assert_eq!(m.to, (0, 7));
    let m = parse_uci_move(&"b7b8N".to_owned()).ok().unwrap();
    assert_eq!(m.from, (1, 1));
    assert_eq!(m.to, (0, 1));
    assert_eq!(m.promotion, Some(PieceType::Knight));
    assert_eq!(parse_uci_move(&"b7b8q".to_owned()).ok().unwrap().promotion, Some(PieceType::Queen));
    assert_eq!(parse_uci_move(&"b7b8R".to_owned()).ok().unwrap().promotion, Some(PieceType::Rook));
    assert_eq!(parse_uci_move(&"b7b8b".to_owned()).ok().unwrap().promotion, Some(PieceType::Bishop));
}

#[test]
fn uci_text_that_writes_no_move_is_reported() {
    let error_of = |text: &str| match parse_uci_move(&text.to_owned()) {
        Ok(_) => panic!("{} was read", text),
        Err(why) => why,
    };
    assert_eq!(error_of(""), UciError::InvalidLength);
    assert_eq!(error_of("e2e"), UciError::InvalidLength);
    assert_eq!(error_of("e2e4qq"), UciError::InvalidLength);
    assert_eq!(error_of("i2e4"), UciError::InvalidSquare);
    assert_eq!(error_of("e2e9"), UciError::InvalidSquare);
    assert_eq!(error_of("e0e4"), UciError::InvalidSquare);
    assert_eq!(error_of("E2E4"), UciError::InvalidSquare);
    assert_eq!(error_of("e7e8k"), UciError::InvalidPromotion('k'));
    assert_eq!(error_of("e7e8x"), UciError::InvalidPromotion('x'));
    assert_eq!(error_of("x7e8x"), UciError::InvalidSquare);
}

#[test]
fn engine_line_announces_a_move() {
    assert_eq!(best_move_of_line(&"bestmove e2e4 ponder e7e5".to_owned()), Some("e2e4".to_owned()));
    assert_eq!(best_move_of_line(&"bestmove a7a8q".to_owned()), Some("a7a8q".to_owned()));
    assert_eq!(best_move_of_line(&"  bestmove\t(none)\n".to_owned()), Some("(none)".to_owned()));
    assert_eq!(best_move_of_line(&"bestmove".to_owned()), None);
    assert_eq!(best_move_of_line(&"bestmove ".to_owned()), None);
    assert_eq!(best_move_of_line(&"".to_owned()), None);
    assert_eq!(best_move_of_line(&"info depth 12 score cp 31 pv e2e4".to_owned()), None);
    assert_eq!(best_move_of_line(&"bestmoves e2e4".to_owned()), None);
    assert_eq!(best_move_of_line(&"Bestmove e2e4".to_owned()), None);
    assert_eq!(best_move_of_line(&"best move".to_owned()), None);
}
