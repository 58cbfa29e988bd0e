use chess_app::board::Board;
use chess_app::fen::fen_parser;
use chess_app::game::{GameController, GameMode, Step};
use chess_app::piece::{PieceColor, PieceType};

fn board(text: &str) -> Board {
    fen_parser(&text.to_owned()).ok().unwrap()
}

fn sandbox() -> GameController {
    let mut game = GameController::default();
    game.mode = GameMode::Sandbox;
    game
}

fn against_engine(player: PieceColor) -> GameController {
    let mut game = GameController::default();
    game.mode = GameMode::PvE;
    game.game_over = false;
    game.player = player;
    game.enemey = player.opposite();
    game
}

fn click(game: &mut GameController, b: &mut Board, pos: (u8, u8)) -> (Step, bool) {
    let piece = b.piece_on(pos);
    assert!(b.has_room());
    game.on_square(b, piece, pos, true, false)
}

fn hover(game: &mut GameController, b: &mut Board, pos: (u8, u8)) -> (Step, bool) {
    let piece = b.piece_on(pos);
    assert!(b.has_room());
    game.on_square(b, piece, pos, false, false)
}

fn is_rest(step: &Step) -> bool {
    matches!(step, Step::Rest)
}

#[test]
fn fresh_controller_plays_no_game() {
    let game = GameController::default();
    assert_eq!(game.mode, GameMode::Sandbox);
    assert!(game.game_over);
    assert_eq!(game.player, PieceColor::White);
    assert_eq!(game.enemey, PieceColor::Black);
    assert!(!game.stockfish_move_pending);
    assert_eq!(game.asked_position, "");
}

#[test]
fn by_hand_a_click_selects_and_a_second_click_moves() {
    let mut game = sandbox();
    let mut b = Board::default();
    let (step, lost) = click(&mut game, &mut b, (1, 4));
    assert!(is_rest(&step) && !lost);
    assert!(b.state.selected_piece.is_none());
    click(&mut game, &mut b, (6, 4));
    assert_eq!(b.state.selected_piece.unwrap().position, (6, 4));
    assert_eq!(b.state.quiet_moves, Some(vec![(5, 4), (4, 4)]));
    click(&mut game, &mut b, (4, 4));
    assert!(b.state.selected_piece.is_none());
    assert!(b.state.quiet_moves.is_none());
    assert_eq!(b.to_string(), "rnbqkbnr/pppppppp/8/8/4P3/8/PPPP1PPP/RNBQKBNR b KQkq e4 0 1");
    click(&mut game, &mut b, (6, 0));
    assert!(b.state.selected_piece.is_none());
    click(&mut game, &mut b, (1, 3));
    assert_eq!(b.state.selected_piece.unwrap().position, (1, 3));
    click(&mut game, &mut b, (1, 2));
    assert_eq!(b.state.selected_piece.unwrap().position, (1, 2));
    click(&mut game, &mut b, (5, 5));
    assert!(b.state.selected_piece.is_none());
    assert_eq!(b.to_string(), "rnbqkbnr/pppppppp/8/8/4P3/8/PPPP1PPP/RNBQKBNR b KQkq e4 0 1");
}

#[test]
fn by_hand_a_click_on_an_enemy_captures() {
    let mut game = sandbox();
    let mut b = board("4k3/8/8/3p4/4P3/8/8/4K3 w - - 0 1");
    click(&mut game, &mut b, (4, 4));
    assert_eq!(b.state.capture_moves, Some(vec![(3, 3)]));
    click(&mut game, &mut b, (3, 3));
    assert_eq!(b.to_string(), "4k3/8/8/3P4/8/8/8/4K3 b - - 0 1");
    assert_eq!(b.state.white_taken.len(), 1);
}

#[test]
fn secondary_click_drops_the_selection() {
    let mut game = sandbox();
    let mut b = Board::default();
    click(&mut game, &mut b, (6, 4));
    assert!(b.state.selected_piece.is_some());
    let piece = b.piece_on((0, 0));
    game.on_square(&mut b, piece, (0, 0), false, true);
    assert!(b.state.selected_piece.is_none());
    assert!(b.state.quiet_moves.is_none());
    click(&mut game, &mut b, (6, 4));
    let text = b.to_string();
    hover(&mut game, &mut b, (4, 4));
    assert!(b.state.selected_piece.is_some());
    assert_eq!(b.to_string(), text);
}

#[test]
fn king_sent_to_its_rook_castles() {
    let mut game = sandbox();
    let mut b = board("r3k2r/8/8/8/8/8/8/R3K2R w KQkq - 0 1");
    click(&mut game, &mut b, (7, 4));
    assert_eq!(b.state.capture_moves, Some(vec![(7, 0), (7, 7)]));
    click(&mut game, &mut b, (7, 7));
    assert_eq!(b.to_string(), "r3k2r/8/8/8/8/8/8/R4RK1 b kq - 1 1");
    assert!(b.state.selected_piece.is_none());
    click(&mut game, &mut b, (0, 4));
    click(&mut game, &mut b, (0, 0));
    assert_eq!(b.to_string(), "2kr3r/8/8/8/8/8/8/R4RK1 w - - 2 2");
}

#[test]
fn king_in_check_does_not_castle_by_click() {
    let mut game = sandbox();
    let mut b = board("4r1k1/8/8/8/8/8/8/R3K2R w KQ - 0 1");
    click(&mut game, &mut b, (7, 4));
    click(&mut game, &mut b, (7, 7));
    assert_eq!(b.to_string(), "4r1k1/8/8/8/8/8/8/R3K2R w KQ - 0 1");
    assert_eq!(b.state.selected_piece.unwrap().position, (7, 7));
}

#[test]
fn idle_board_takes_no_input() {
    let mut game = GameController::default();
    game.mode = GameMode::Idle;
    let mut b = Board::default();
    let (step, lost) = click(&mut game, &mut b, (6, 4));
    assert!(is_rest(&step) && !lost);
    assert!(b.state.selected_piece.is_none());
    let mut game = against_engine(PieceColor::White);
    game.game_over = true;
    let (step, lost) = click(&mut game, &mut b, (6, 4));
    assert!(is_rest(&step) && !lost);
    assert!(b.state.selected_piece.is_none());
}

#[test]
fn player_moves_and_the_engine_is_asked_once() {
    let mut game = against_engine(PieceColor::White);
    let mut b = Board::default();
    click(&mut game, &mut b, (1, 4));
    assert!(b.state.selected_piece.is_none());
    click(&mut game, &mut b, (6, 4));
    assert_eq!(b.state.selected_piece.unwrap().position, (6, 4));
    let (step, lost) = click(&mut game, &mut b, (4, 4));
    assert!(is_rest(&step) && !lost);
    assert_eq!(b.turn, PieceColor::Black);
    let (step, lost) = hover(&mut game, &mut b, (0, 0));
    assert!(!lost);
    match step {
        Step::AskEngine(text) => {
            assert_eq!(text, "rnbqkbnr/pppppppp/8/8/4P3/8/PPPP1PPP/RNBQKBNR b KQkq e4 0 1");
            assert_eq!(game.asked_position, text);
        }
        _ => panic!("the engine was not asked"),
    }
    assert!(game.stockfish_move_pending);
    let (step, _) = click(&mut game, &mut b, (1, 4));
    assert!(matches!(step, Step::PollEngine));
    assert!(b.state.selected_piece.is_none());
    assert!(!game.engine_replied(&mut b, None));
    assert!(game.stockfish_move_pending);
    let (step, _) = hover(&mut game, &mut b, (0, 1));
    assert!(matches!(step, Step::PollEngine));
    assert!(!game.engine_replied(&mut b, Some("e7e5".to_owned())));
    assert!(!game.stockfish_move_pending);
    assert_eq!(b.to_string(), "rnbqkbnr/pppp1ppp/8/4p3/4P3/8/PPPP1PPP/RNBQKBNR w KQkq e5 0 2");
    let (step, _) = hover(&mut game, &mut b, (0, 1));
    assert!(is_rest(&step));
}

#[test]
fn reply_that_is_not_awaited_is_dropped() {
    let mut game = against_engine(PieceColor::White);
    let mut b = Board::default();
    assert!(!game.engine_replied(&mut b, Some("e2e4".to_owned())));
    assert_eq!(b.to_string(), "rnbqkbnr/pppppppp/8/8/8/8/PPPPPPPP/RNBQKBNR w KQkq - 0 1");
    let mut game = against_engine(PieceColor::Black);
    assert!(!game.engine_replied(&mut b, Some("e2e4".to_owned())));
    assert_eq!(b.to_string(), "rnbqkbnr/pppppppp/8/8/8/8/PPPPPPPP/RNBQKBNR w KQkq - 0 1");
    let (step, _) = hover(&mut game, &mut b, (0, 0));
    assert!(matches!(step, Step::AskEngine(_)));
    game.mode = GameMode::Sandbox;
    assert!(!game.engine_replied(&mut b, Some("e2e4".to_owned())));
    assert_eq!(b.to_string(), "rnbqkbnr/pppppppp/8/8/8/8/PPPPPPPP/RNBQKBNR w KQkq - 0 1");
    assert!(game.stockfish_move_pending);
}

#[test]
fn reply_for_a_changed_position_is_dropped() {
    let mut game = against_engine(PieceColor::Black);
    let mut b = Board::default();
    let (step, _) = hover(&mut game, &mut b, (0, 0));
    assert!(matches!(step, Step::AskEngine(_)));
    let mut b = board("rnbqkbnr/pppppppp/8/8/8/P7/1PPPPPPP/RNBQKBNR w KQkq - 0 1");
    let (step, _) = hover(&mut game, &mut b, (0, 0));
    assert!(matches!(step, Step::PollEngine));
    assert!(!game.engine_replied(&mut b, Some("e2e4".to_owned())));
    assert_eq!(b.to_string(), "rnbqkbnr/pppppppp/8/8/8/P7/1PPPPPPP/RNBQKBNR w KQkq - 0 1");
    assert!(!game.stockfish_move_pending);
    let (step, _) = hover(&mut game, &mut b, (0, 0));
    match step {
        Step::AskEngine(text) => assert_eq!(text, "rnbqkbnr/pppppppp/8/8/8/P7/1PPPPPPP/RNBQKBNR w KQkq - 0 1"),
        _ => panic!("the engine was not asked again"),
    }
}

#[test]
fn engine_reply_may_castle_or_promote() {
    let mut game = against_engine(PieceColor::Black);
    let mut b = board("r3k2r/8/8/8/8/8/8/R3K2R w KQkq - 0 1");
    hover(&mut game, &mut b, (0, 0));
    assert!(!game.engine_replied(&mut b, Some("e1g1".to_owned())));
    assert_eq!(b.to_string(), "r3k2r/8/8/8/8/8/8/R4RK1 b kq - 1 1");
    let mut game = against_engine(PieceColor::Black);
    let mut b = board("4k3/P7/8/8/8/8/8/4K3 w - - 0 1");
    hover(&mut game, &mut b, (0, 0));
    assert!(!game.engine_replied(&mut b, Some("a7a8q".to_owned())));
    assert_eq!(b.to_string(), "Q3k3/8/8/8/8/8/8/4K3 b - - 0 1");
    assert_eq!(b.state.promtion_pending, None);
    let mut game = against_engine(PieceColor::Black);
    let mut b = Board::default();
    hover(&mut game, &mut b, (0, 0));
    assert!(!game.engine_replied(&mut b, Some("nonsense".to_owned())));
    assert_eq!(b.to_string(), "rnbqkbnr/pppppppp/8/8/8/8/PPPPPPPP/RNBQKBNR w KQkq - 0 1");
    assert!(!game.stockfish_move_pending);
}

#[test]
fn pending_promotion_holds_the_players_clicks() {
    let mut game = against_engine(PieceColor::White);
    let mut b = board("4k3/P7/8/8/8/8/8/4K3 w - - 0 1");
    b.state.promtion_pending = Some((0, 0));
    click(&mut game, &mut b, (1, 0));
    assert!(b.state.selected_piece.is_none());
    b.state.promtion_pending = None;
    click(&mut game, &mut b, (1, 0));
    assert_eq!(b.state.selected_piece.unwrap().kind, PieceType::Pawn);
    let mut game = sandbox();
    let mut b = board("4k3/P7/8/8/8/8/8/4K3 w - - 0 1");
    b.state.promtion_pending = Some((0, 0));
    click(&mut game, &mut b, (1, 0));
    assert!(b.state.selected_piece.is_some());
}

#[test]
fn checkmate_ends_the_game_and_marks_the_king() {
    let mut game = against_engine(PieceColor::Black);
    let mut b = board("rnbqkbnr/pppp1ppp/8/4p3/6P1/5P2/PPPPP2P/RNBQKBNR b KQkq - 0 2");
    click(&mut game, &mut b, (0, 3));
    let (step, lost) = click(&mut game, &mut b, (4, 7));
    assert!(is_rest(&step));
    assert!(lost);
    assert!(game.game_over);
    assert_eq!(b.state.checkmate_square, Some((7, 4)));
    assert_eq!(b.to_string(), "rnb1kbnr/pppp1ppp/8/4p3/6Pq/5P2/PPPPP2P/RNBQKBNR w KQkq - 1 3");
    let (step, lost) = hover(&mut game, &mut b, (0, 0));
    assert!(is_rest(&step) && !lost);
    let mut game = against_engine(PieceColor::White);
    let mut b = board("rnbqkbnr/pppp1ppp/8/4p3/6P1/5P2/PPPPP2P/RNBQKBNR b KQkq - 0 2");
    hover(&mut game, &mut b, (0, 0));
    assert!(game.engine_replied(&mut b, Some("d8h4".to_owned())));
    assert!(game.game_over);
    assert_eq!(b.state.checkmate_square, Some((7, 4)));
}
