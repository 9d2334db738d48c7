use falling_blocks::board::Board;
use falling_blocks::game::{Command, Config, Effects, Game, Phase};
use falling_blocks::piece::Piece;
use falling_blocks::scoring::ScoringPolicy;
use falling_blocks::shape::{ColorTag, ShapeKind};

const NOTHING: Effects =
    Effects { lines_cleared: 0, game_over: false, bonus_content: false, restarted: false };

const RESTARTED: Effects =
    Effects { lines_cleared: 0, game_over: false, bonus_content: false, restarted: true };

fn o_at(x: i32) -> Piece {
    Piece::new(vec![vec![true, true], vec![true, true]], x, 0, ColorTag::Pink).unwrap()
}

fn o() -> Piece {
    Piece::from_kind(ShapeKind::O, ColorTag::Yellow, 10)
}

fn upright(x: i32) -> Piece {
    Piece::new(vec![vec![true], vec![true]], x, 0, ColorTag::Yellow).unwrap()
}

fn filled_cells(board: &Board) -> usize {
    let mut count = 0;
    for row in 0..board.height() {
        for col in 0..board.width() {
            if board.cell(row, col).is_some() {
                count += 1;
            }
        }
    }
    count
}

fn sized(board_width: usize, board_height: usize) -> Config {
    Config { board_width, board_height, ..Config::standard() }
}

/// Stacks O pieces in the spawn columns of the standard board until the
/// game is over; returns the time of the last tick.
fn play_until_game_over(game: &mut Game, mut now: u64) -> u64 {
    for _ in 0..10 {
        assert!(!game.is_frozen());
        game.apply_command(Command::HardDrop);
        now += 1000;
        game.tick_with(now, o(), o());
    }
    assert!(game.is_frozen());
    now
}

#[test]
fn standard_config_has_the_design_constants() {
    let config = Config::standard();
    assert_eq!((config.board_width, config.board_height), (10, 20));
    assert_eq!(config.freeze_ms, 5000);
    assert_eq!(config.cell_size, 30);
    assert_eq!(config.scoring.score_per_line, 100);
    assert_eq!(config.scoring.base_interval_ms, 1000);
    assert!(config.is_valid());
}

#[test]
fn config_is_valid_for_boards_of_at_least_one_cell() {
    assert!(sized(1, 1).is_valid());
    assert!(sized(2147483647, 2147483647).is_valid());
    assert!(!sized(0, 20).is_valid());
    assert!(!sized(10, 0).is_valid());
    assert!(!sized(2147483648, 20).is_valid());
    assert!(!sized(10, 2147483648).is_valid());
    let scoring = ScoringPolicy { speed_denominator: 0, ..ScoringPolicy::standard() };
    assert!(!Config { scoring, ..Config::standard() }.is_valid());
}

#[test]
fn new_game_starts_empty_and_playing() {
    let game = Game::with_piece(Config::standard(), o());
    assert_eq!(game.score(), 0);
    assert_eq!(game.fall_interval_ms(), 1000);
    assert_eq!(game.last_fall_ms(), 0);
    assert_eq!(game.phase(), Phase::Playing);
    assert!(!game.is_frozen());
    assert_eq!(game.death_count(), 0);
    assert!(!game.show_hint());
    assert_eq!((game.board().width(), game.board().height()), (10, 20));
    assert_eq!(filled_cells(game.board()), 0);
    assert_eq!((game.piece().x(), game.piece().y()), (4, 0));
    assert_eq!(game.config().freeze_ms, 5000);
}

#[test]
fn new_game_draws_its_first_piece() {
    for _ in 0..50 {
        let game = Game::new(Config::standard());
        let piece = game.piece();
        assert_eq!(piece.y(), 0);
        assert_eq!(piece.x(), (10 - piece.cols() as i32) / 2);
        assert!(piece.can_move(0, 0, game.board()));
        assert_eq!(game.score(), 0);
        assert_eq!(filled_cells(game.board()), 0);
    }
}

#[test]
fn gravity_waits_for_the_fall_interval() {
    let mut game = Game::with_piece(Config::standard(), o());
    assert_eq!(game.tick_with(0, o(), o()), NOTHING);
    assert_eq!(game.tick_with(999, o(), o()), NOTHING);
    assert_eq!(game.piece().y(), 0);
    assert_eq!(game.last_fall_ms(), 0);
    assert_eq!(game.tick_with(1000, o(), o()), NOTHING);
    assert_eq!(game.piece().y(), 1);
    assert_eq!(game.last_fall_ms(), 1000);
    assert_eq!(game.tick_with(1999, o(), o()), NOTHING);
    assert_eq!(game.piece().y(), 1);
    assert_eq!(game.tick_with(2500, o(), o()), NOTHING);
    assert_eq!(game.piece().y(), 2);
    assert_eq!(game.last_fall_ms(), 2500);
    // One step a tick, however late the tick.
    assert_eq!(game.tick_with(60_000, o(), o()), NOTHING);
    assert_eq!(game.piece().y(), 3);
    assert_eq!(game.last_fall_ms(), 60_000);
}

#[test]
fn a_piece_that_cannot_fall_locks_and_the_next_comes_in() {
    let mut game = Game::with_piece(Config::standard(), o());
    game.apply_command(Command::HardDrop);
    assert_eq!(game.piece().y(), 18);
    assert_eq!(filled_cells(game.board()), 0);
    // A hard drop does not lock by itself.
    assert_eq!(game.tick_with(500, o(), o_at(0)), NOTHING);
    assert_eq!(filled_cells(game.board()), 0);
    assert_eq!(game.tick_with(1000, o(), o_at(0)), NOTHING);
    assert_eq!(filled_cells(game.board()), 4);
    for (row, col) in [(18, 4), (18, 5), (19, 4), (19, 5)] {
        assert_eq!(game.board().cell(row, col), Some(ColorTag::Yellow));
    }
    assert_eq!((game.piece().x(), game.piece().y()), (0, 0));
    assert_eq!(game.piece().color(), ColorTag::Pink);
    assert_eq!(game.last_fall_ms(), 1000);
    assert_eq!(game.score(), 0);
    assert!(!game.is_frozen());
}

#[test]
fn commands_move_the_piece() {
    let mut game = Game::with_piece(Config::standard(), o());
    game.apply_command(Command::MoveLeft);
    assert_eq!((game.piece().x(), game.piece().y()), (3, 0));
    game.apply_command(Command::MoveRight);
    game.apply_command(Command::MoveRight);
    assert_eq!((game.piece().x(), game.piece().y()), (5, 0));
    game.apply_command(Command::SoftDrop);
    assert_eq!((game.piece().x(), game.piece().y()), (5, 1));
    game.apply_command(Command::HardDrop);
    assert_eq!((game.piece().x(), game.piece().y()), (5, 18));
    game.apply_command(Command::SoftDrop);
    assert_eq!((game.piece().x(), game.piece().y()), (5, 18));
    assert_eq!(game.last_fall_ms(), 0);
    assert_eq!(filled_cells(game.board()), 0);
}

#[test]
fn rotate_command_turns_the_piece() {
    let t = Piece::from_kind(ShapeKind::T, ColorTag::Pink, 10);
    let mut game = Game::with_piece(Config::standard(), t);
    game.apply_command(Command::Rotate);
    let piece = game.piece();
    let cells: Vec<(usize, usize)> = (0..3)
        .flat_map(|r| (0..3).map(move |c| (r, c)))
        .filter(|&(r, c)| piece.is_occupied(r, c))
        .collect();
    assert_eq!(cells, vec![(0, 1), (1, 1), (1, 2), (2, 1)]);
    assert_eq!((piece.x(), piece.y()), (3, 0));
}

#[test]
fn move_left_at_the_wall_is_rejected() {
    let mut game = Game::with_piece(Config::standard(), o_at(0));
    assert!(!game.piece().can_move(-1, 0, game.board()));
    game.apply_command(Command::MoveLeft);
    assert_eq!((game.piece().x(), game.piece().y()), (0, 0));
}

#[test]
fn five_o_pieces_side_by_side_clear_two_rows() {
    let mut game = Game::with_piece(Config::standard(), o_at(0));
    let mut now = 0;
    for placement in 1..=5 {
        game.apply_command(Command::HardDrop);
        assert_eq!(game.piece().y(), 18);
        now += 1000;
        let effects = game.tick_with(now, o(), o_at(2 * placement));
        if placement < 5 {
            assert_eq!(effects, NOTHING);
            assert_eq!(game.score(), 0);
            assert_eq!(filled_cells(game.board()), 4 * placement as usize);
        } else {
            assert_eq!(effects, Effects { lines_cleared: 2, ..NOTHING });
            assert_eq!(game.score(), 200);
            assert_eq!(filled_cells(game.board()), 0);
        }
    }
    assert_eq!(game.board().height(), 20);
    assert_eq!(game.fall_interval_ms(), 1000);
    assert!(!game.is_frozen());
}

#[test]
fn o_pieces_steered_by_commands_clear_two_rows() {
    let mut game = Game::with_piece(Config::standard(), o());
    let mut now = 0;
    let steering = [
        (Command::MoveLeft, 4),
        (Command::MoveLeft, 2),
        (Command::MoveLeft, 0),
        (Command::MoveRight, 2),
        (Command::MoveRight, 4),
    ];
    for (placement, (command, times)) in steering.iter().enumerate() {
        assert_eq!((game.piece().x(), game.piece().y()), (4, 0));
        for _ in 0..*times {
            game.apply_command(*command);
        }
        // One more step than the wall allows changes nothing.
        if *times == 4 {
            let x = game.piece().x();
            game.apply_command(*command);
            assert_eq!(game.piece().x(), x);
        }
        game.apply_command(Command::HardDrop);
        assert_eq!(game.piece().y(), 18);
        now += 1000;
        let effects = game.tick_with(now, o(), o());
        if placement < 4 {
            assert_eq!(effects, NOTHING);
            assert_eq!(game.score(), 0);
        } else {
            assert_eq!(effects, Effects { lines_cleared: 2, ..NOTHING });
            assert_eq!(game.score(), 200);
        }
    }
    assert_eq!(filled_cells(game.board()), 0);
    assert!(!game.board().is_spawn_row_blocked());
}

#[test]
fn four_o_pieces_fill_two_rows_of_eight_columns() {
    let mut game = Game::with_piece(sized(8, 20), o_at(0));
    let mut now = 0;
    for placement in 1..=4 {
        game.apply_command(Command::HardDrop);
        now += 1000;
        let effects = game.tick_with(now, o(), o_at(2 * placement));
        if placement < 4 {
            assert_eq!(effects, NOTHING);
            assert_eq!(game.score(), 0);
        } else {
            assert_eq!(effects, Effects { lines_cleared: 2, ..NOTHING });
            assert_eq!(game.score(), 200);
        }
    }
    assert_eq!(filled_cells(game.board()), 0);
}

#[test]
fn rows_above_a_cleared_row_move_down() {
    let mut game = Game::with_piece(sized(4, 6), o_at(0));
    game.apply_command(Command::HardDrop);
    game.tick_with(1000, o(), upright(0));
    game.apply_command(Command::HardDrop);
    assert_eq!(game.piece().y(), 2);
    game.tick_with(2000, o(), o_at(2));
    game.apply_command(Command::HardDrop);
    let effects = game.tick_with(3000, o(), o_at(0));
    assert_eq!(effects, Effects { lines_cleared: 2, ..NOTHING });
    assert_eq!(game.score(), 200);
    assert_eq!(filled_cells(game.board()), 2);
    assert_eq!(game.board().cell(4, 0), Some(ColorTag::Yellow));
    assert_eq!(game.board().cell(5, 0), Some(ColorTag::Yellow));
}

#[test]
fn the_interval_follows_the_score() {
    // On two columns every O piece clears two rows.
    let mut game = Game::with_piece(sized(2, 2), o_at(0));
    let mut now = 0;
    for lock in 1..=5 {
        now += 1000;
        let effects = game.tick_with(now, o_at(0), o_at(0));
        assert_eq!(effects, Effects { lines_cleared: 2, ..NOTHING });
        assert_eq!(game.score(), 200 * lock);
    }
    assert_eq!(game.score(), 1000);
    assert_eq!(game.fall_interval_ms(), 900);
    assert_eq!(game.tick_with(now + 899, o_at(0), o_at(0)), NOTHING);
    assert_eq!(game.score(), 1000);
    now += 900;
    game.tick_with(now, o_at(0), o_at(0));
    assert_eq!(game.score(), 1200);
    assert_eq!(game.fall_interval_ms(), 900);
    for _ in 0..4 {
        now += 900;
        game.tick_with(now, o_at(0), o_at(0));
    }
    assert_eq!(game.score(), 2000);
    assert_eq!(game.fall_interval_ms(), 810);
}

#[test]
fn large_scores_add_up() {
    let scoring = ScoringPolicy { score_per_line: u32::MAX, ..ScoringPolicy::standard() };
    // On two columns every O piece clears two rows.
    let mut game = Game::with_piece(Config { scoring, ..sized(2, 2) }, o_at(0));
    game.tick_with(1000, o_at(0), o_at(0));
    assert_eq!(game.score(), 2 * 4294967295);
    // Far beyond the last speed step the interval is zero: every tick locks.
    assert_eq!(game.fall_interval_ms(), 0);
    for lock in 2..=4 {
        game.tick_with(1000, o_at(0), o_at(0));
        assert_eq!(game.score(), 2 * lock * 4294967295);
    }
}

#[test]
fn first_game_over_fires_the_bonus_once() {
    let mut game = Game::with_piece(Config::standard(), o());
    let mut now = 0;
    for lock in 1..=10 {
        game.apply_command(Command::HardDrop);
        now += 1000;
        let effects = game.tick_with(now, o(), o());
        if lock < 10 {
            assert_eq!(effects, NOTHING);
            assert!(!game.is_frozen());
            assert_eq!(game.death_count(), 0);
        } else {
            assert_eq!(
                effects,
                Effects { lines_cleared: 0, game_over: true, bonus_content: true, restarted: false }
            );
        }
    }
    assert_eq!(game.phase(), Phase::Frozen { since_ms: 10_000 });
    assert_eq!(game.death_count(), 1);
    assert!(game.show_hint());
    // A new piece came in all the same.
    assert_eq!((game.piece().x(), game.piece().y()), (4, 0));

    // After the restart the second game over leaves the bonus alone.
    assert_eq!(game.tick_with(15_000, o(), o()), RESTARTED);
    assert_eq!(game.death_count(), 1);
    assert!(!game.show_hint());
    let mut now = 15_000;
    for lock in 1..=10 {
        game.apply_command(Command::HardDrop);
        now += 1000;
        let effects = game.tick_with(now, o(), o());
        if lock < 10 {
            assert_eq!(effects, NOTHING);
        } else {
            assert_eq!(
                effects,
                Effects { lines_cleared: 0, game_over: true, bonus_content: false, restarted: false }
            );
        }
    }
    assert_eq!(game.death_count(), 2);
    assert!(game.is_frozen());
    assert!(!game.show_hint());
}

#[test]
fn a_frozen_game_ignores_ticks_and_commands() {
    let mut game = Game::with_piece(Config::standard(), o());
    let frozen_at = play_until_game_over(&mut game, 0);
    assert_eq!(frozen_at, 10_000);
    let cells = filled_cells(game.board());
    assert_eq!(cells, 40);
    for command in [
        Command::MoveLeft,
        Command::MoveRight,
        Command::SoftDrop,
        Command::Rotate,
        Command::HardDrop,
    ] {
        game.apply_command(command);
        assert_eq!((game.piece().x(), game.piece().y()), (4, 0));
    }
    for now in [10_000, 10_001, 12_500, 14_999] {
        assert_eq!(game.tick_with(now, o(), o()), NOTHING);
        assert_eq!(game.phase(), Phase::Frozen { since_ms: 10_000 });
        assert_eq!(game.death_count(), 1);
        assert_eq!(filled_cells(game.board()), cells);
        assert_eq!(game.last_fall_ms(), 10_000);
        assert_eq!((game.piece().x(), game.piece().y()), (4, 0));
    }
}

#[test]
fn the_game_restarts_when_the_freeze_has_run_out() {
    let mut game = Game::with_piece(Config::standard(), o());
    play_until_game_over(&mut game, 0);
    let effects = game.tick_with(15_000, o_at(7), o());
    assert_eq!(effects, RESTARTED);
    assert_eq!(game.phase(), Phase::Playing);
    assert_eq!(filled_cells(game.board()), 0);
    assert_eq!(game.score(), 0);
    assert_eq!(game.death_count(), 1);
    // The fresh piece takes its first gravity step in the same tick.
    assert_eq!((game.piece().x(), game.piece().y()), (7, 1));
    assert_eq!(game.last_fall_ms(), 15_000);
    game.apply_command(Command::MoveLeft);
    assert_eq!(game.piece().x(), 6);
}

#[test]
fn a_restart_brings_the_base_interval_back() {
    let mut game = Game::with_piece(sized(2, 2), o_at(0));
    let mut now = 0;
    for _ in 0..4 {
        now += 1000;
        game.tick_with(now, o_at(0), o_at(0));
    }
    now += 1000;
    game.tick_with(now, o_at(0), upright(0));
    assert_eq!((game.score(), game.fall_interval_ms()), (1000, 900));
    // The upright piece fills the left column and ends the game.
    now += 900;
    let effects = game.tick_with(now, o_at(0), o_at(0));
    assert_eq!(
        effects,
        Effects { lines_cleared: 0, game_over: true, bonus_content: true, restarted: false }
    );
    assert_eq!((game.score(), game.fall_interval_ms()), (1000, 900));
    // Freeze of five seconds, then the restart; the one-cell piece falls a row.
    assert_eq!(game.tick_with(now + 4999, o_at(0), o_at(0)), NOTHING);
    assert_eq!((game.score(), game.fall_interval_ms()), (1000, 900));
    now += 5000;
    let dot = Piece::new(vec![vec![true]], 0, 0, ColorTag::Pink).unwrap();
    assert_eq!(game.tick_with(now, dot, o_at(0)), RESTARTED);
    assert_eq!((game.score(), game.fall_interval_ms()), (0, 1000));
    assert_eq!(game.piece().y(), 1);
    assert_eq!(game.death_count(), 1);
    // The fresh session falls at the base interval, not at the old one.
    assert_eq!(game.tick_with(now + 900, o_at(0), o_at(0)), NOTHING);
    assert_eq!(game.tick_with(now + 999, o_at(0), o_at(0)), NOTHING);
    assert_eq!(filled_cells(game.board()), 0);
    now += 1000;
    assert_eq!(game.tick_with(now, o_at(0), o_at(0)), NOTHING);
    assert_eq!((game.score(), game.fall_interval_ms()), (0, 1000));
    assert_eq!(filled_cells(game.board()), 1);
}

#[test]
fn the_interval_is_the_one_of_the_score_at_every_tick() {
    let scoring = ScoringPolicy::standard();
    let mut game = Game::with_piece(sized(2, 2), o_at(0));
    let mut now = 0;
    for round in 0..200 {
        now += 1000;
        // Every seventh piece ends the game; the others clear two rows.
        let next = if round % 7 == 5 { upright(0) } else { o_at(0) };
        game.tick_with(now, o_at(0), next);
        assert_eq!(game.fall_interval_ms(), scoring.fall_interval(game.score()));
        if game.is_frozen() {
            now += 5000;
            let effects = game.tick_with(now, o_at(0), o_at(0));
            assert!(effects.restarted);
            assert_eq!(game.fall_interval_ms(), scoring.fall_interval(game.score()));
        }
    }
    assert!(game.death_count() >= 20);
}

#[test]
fn restart_and_game_over_can_share_a_tick() {
    // On two rows an O piece can never fall: it locks with its first
    // gravity step, and on three columns it leaves the top row blocked.
    let mut game = Game::with_piece(sized(3, 2), o_at(0));
    let effects = game.tick_with(1000, o_at(0), o_at(0));
    assert_eq!(
        effects,
        Effects { lines_cleared: 0, game_over: true, bonus_content: true, restarted: false }
    );
    assert_eq!(game.death_count(), 1);
    assert!(game.show_hint());
    assert_eq!(game.tick_with(5999, o_at(0), o_at(0)), NOTHING);
    let effects = game.tick_with(6000, o_at(1), o_at(0));
    assert_eq!(
        effects,
        Effects { lines_cleared: 0, game_over: true, bonus_content: false, restarted: true }
    );
    assert_eq!(game.death_count(), 2);
    assert_eq!(game.phase(), Phase::Frozen { since_ms: 6000 });
    assert!(!game.show_hint());
    assert_eq!(game.board().cell(0, 0), None);
    assert_eq!(game.board().cell(0, 1), Some(ColorTag::Pink));
    assert_eq!(game.board().cell(1, 2), Some(ColorTag::Pink));
}

#[test]
fn a_piece_spawned_onto_locked_cells_ends_the_game() {
    let mut game = Game::with_piece(Config::standard(), o());
    let mut now = 0;
    for _ in 0..9 {
        game.apply_command(Command::HardDrop);
        now += 1000;
        game.tick_with(now, o(), o());
    }
    // Rows 2 to 19 of the spawn columns are filled; a T piece comes in.
    game.apply_command(Command::HardDrop);
    now += 1000;
    let t = Piece::from_kind(ShapeKind::T, ColorTag::Pink, 10);
    let effects = game.tick_with(now, o(), t);
    assert!(effects.game_over);
    assert_eq!(game.death_count(), 1);
}

#[test]
fn random_play_keeps_the_game_in_shape() {
    let commands = [
        Command::MoveLeft,
        Command::Rotate,
        Command::MoveRight,
        Command::SoftDrop,
        Command::MoveLeft,
        Command::HardDrop,
        Command::MoveRight,
        Command::MoveRight,
    ];
    let mut game = Game::new(Config::standard());
    let mut now = 0;
    let mut deaths = 0;
    let mut restarts = 0;
    let mut bonuses = 0;
    for step in 0..20_000 {
        now += 137;
        let score_before = game.score();
        let frozen_before = game.is_frozen();
        assert!(now >= game.last_fall_ms());
        let effects = game.tick(now);
        if frozen_before && !effects.restarted {
            assert_eq!(effects, NOTHING);
            assert!(game.is_frozen());
        }
        if effects.restarted {
            restarts += 1;
            assert!(frozen_before);
        }
        if effects.game_over {
            deaths += 1;
            assert!(game.is_frozen());
        } else if !frozen_before {
            assert!(!game.is_frozen());
            assert_eq!(game.score(), score_before + 100 * effects.lines_cleared as u64);
        }
        if effects.bonus_content {
            bonuses += 1;
            assert_eq!(deaths, 1);
        }
        assert!(effects.lines_cleared <= 4);
        assert_eq!(game.death_count(), deaths);
        assert_eq!(game.show_hint(), game.is_frozen() && deaths == 1);
        assert_eq!((game.board().width(), game.board().height()), (10, 20));
        assert_eq!(game.score() % 100, 0);
        for row in 0..20 {
            assert!(!game.board().is_row_full(row));
        }
        assert_eq!(game.is_frozen(), game.board().is_spawn_row_blocked());
        game.apply_command(commands[step % commands.len()]);
    }
    assert!(deaths >= 2);
    assert!(restarts >= 1);
    assert_eq!(bonuses, 1);
}
