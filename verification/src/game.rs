//! The game loop as a state machine: gravity, commands, locking, scoring,
//! and the game-over freeze with its automatic restart.
//!
//! Time is a count of milliseconds since the program started, handed in by
//! the caller.  What the outside world has to do (play a sound, show the
//! bonus content) comes back from [`Game::tick`] as [`Effects`].

use vstd::prelude::*;
use crate::board::{
    cleared, empty_rows, full_rows, grid_height, grid_valid, grid_width, law_cleared_shape, placed,
    spawn_row_blocked, Board, Grid,
};
use crate::piece::{
    is_spawn, law_commands_keep_fit, lemma_commands_keep_valid, Piece, PieceModel,
};
use crate::scoring::{lemma_interval_bounds, ScoringPolicy};
use crate::shape::{has_cell, ColorTag, ShapeKind, MAX_DIM};

verus! {

/// The sum of two counters, held at `u64::MAX` where it would pass it.
pub open spec fn capped_add(a: int, b: int) -> int {
    if a + b > u64::MAX {
        u64::MAX as int
    } else {
        a + b
    }
}

/// What can be set before a game starts.
#[derive(Clone, Copy, Debug)]
pub struct Config {
    /// Number of columns of the playfield.
    pub board_width: usize,
    /// Number of rows of the playfield.
    pub board_height: usize,
    /// Side of a cell on the screen, in pixels.  The engine only carries it
    /// to the renderer.
    pub cell_size: u32,
    /// Points per row and the fall interval's course.
    pub scoring: ScoringPolicy,
    /// How long the game stays frozen after a game over, in milliseconds.
    pub freeze_ms: u64,
}

impl Config {
    /// Both sides of the playfield lie between 1 and `MAX_DIM`, and the
    /// scoring policy is valid.
    pub open spec fn valid(self) -> bool {
        &&& 1 <= self.board_width <= MAX_DIM
        &&& 1 <= self.board_height <= MAX_DIM
        &&& self.scoring.valid()
    }

    /// Ten columns by twenty rows of thirty pixels, the standard scoring
    /// policy, and a freeze of five seconds.
    pub fn standard() -> (config: Config)
        ensures
            config.valid(),
            config.board_width == 10,
            config.board_height == 20,
            config.cell_size == 30,
            config.scoring == ScoringPolicy::standard_spec(),
            config.freeze_ms == 5000,
    {
        Config {
            board_width: 10,
            board_height: 20,
            cell_size: 30,
            scoring: ScoringPolicy::standard(),
            freeze_ms: 5000,
        }
    }

    /// Whether the configuration is valid.
    pub fn is_valid(&self) -> (ok: bool)
        ensures
            ok == self.valid(),
    {
        1 <= self.board_width && self.board_width <= MAX_DIM && 1 <= self.board_height
            && self.board_height <= MAX_DIM && self.scoring.is_valid()
    }
}

/// What a player can ask of the falling piece.
#[derive(Clone, Copy, PartialEq, Eq, Structural, Debug)]
pub enum Command {
    MoveLeft,
    MoveRight,
    SoftDrop,
    Rotate,
    HardDrop,
}

/// Whether the game runs or waits out a game over.
#[derive(Clone, Copy, PartialEq, Eq, Structural, Debug)]
pub enum Phase {
    /// Pieces fall and commands are obeyed.
    Playing,
    /// The game is over since the given time and restarts once the freeze
    /// has run out.
    Frozen { since_ms: u64 },
}

/// What one tick asks of the outside world.
#[derive(Clone, Copy, PartialEq, Eq, Structural, Debug)]
pub struct Effects {
    /// Rows cleared by this tick; a sound is due for each.
    pub lines_cleared: u32,
    /// The game went over in this tick.
    pub game_over: bool,
    /// The bonus content is due: set at most once, with the first game over.
    pub bonus_content: bool,
    /// The freeze ran out in this tick and a new game began.
    pub restarted: bool,
}

impl Effects {
    /// Nothing to do.
    pub open spec fn none_spec() -> Effects {
        Effects { lines_cleared: 0, game_over: false, bonus_content: false, restarted: false }
    }

    /// Nothing to do.
    pub fn none() -> (effects: Effects)
        ensures
            effects == Self::none_spec(),
    {
        Effects { lines_cleared: 0, game_over: false, bonus_content: false, restarted: false }
    }
}

/// What a game is at one moment.
pub struct GameModel {
    /// The configuration the game was started with.
    pub config: Config,
    /// The locked cells.
    pub board: Grid,
    /// The falling piece.
    pub piece: PieceModel,
    /// Points so far.
    pub score: int,
    /// Time from one gravity step to the next, in milliseconds.
    pub fall_interval_ms: int,
    /// Time of the last gravity step.
    pub last_fall_ms: int,
    /// Playing or frozen.
    pub phase: Phase,
    /// Number of game overs so far.
    pub death_count: int,
    /// The bonus content was asked for since the last restart.
    pub bonus_shown: bool,
}

impl GameModel {
    /// The parts are valid and belong together: the playfield has the
    /// configured sides, the piece holds an occupied cell, and the fall
    /// interval is the one that goes with the score.
    pub open spec fn valid(self) -> bool {
        &&& self.config.valid()
        &&& grid_valid(self.board)
        &&& grid_width(self.board) == self.config.board_width
        &&& grid_height(self.board) == self.config.board_height
        &&& self.piece.valid()
        &&& has_cell(self.piece.matrix)
        &&& 0 <= self.score <= u64::MAX
        &&& self.fall_interval_ms == self.config.scoring.spec_fall_interval(self.score)
        &&& 0 <= self.fall_interval_ms <= self.config.scoring.base_interval_ms
        &&& 0 <= self.last_fall_ms <= u64::MAX
        &&& 0 <= self.death_count <= u64::MAX
        &&& (self.phase matches Phase::Frozen { since_ms } ==> since_ms <= self.last_fall_ms)
    }

    /// A new game with `first` as its piece.
    pub open spec fn start(config: Config, first: PieceModel) -> GameModel {
        GameModel {
            config,
            board: empty_rows(config.board_height as int, config.board_width as int),
            piece: first,
            score: 0,
            fall_interval_ms: config.scoring.spec_fall_interval(0),
            last_fall_ms: 0,
            phase: Phase::Playing,
            death_count: 0,
            bonus_shown: false,
        }
    }

    /// The game is waiting out a game over.
    pub open spec fn is_frozen(self) -> bool {
        self.phase is Frozen
    }

    /// The game is frozen and at `now` the freeze has not run out.
    pub open spec fn holds_still(self, now: int) -> bool {
        self.phase matches Phase::Frozen { since_ms } && now - since_ms < self.config.freeze_ms
    }

    /// The hint is shown during the first game over only.
    pub open spec fn show_hint(self) -> bool {
        self.is_frozen() && self.death_count == 1
    }

    /// The game after the freeze has run out, a fresh session: an empty
    /// playfield, no points and the fall interval that goes with them, the
    /// bonus flag cleared, `fresh` as the piece.  The count of game overs
    /// stays.
    pub open spec fn restarted(self, fresh: PieceModel) -> GameModel {
        GameModel {
            config: self.config,
            board: empty_rows(self.config.board_height as int, self.config.board_width as int),
            piece: fresh,
            score: 0,
            fall_interval_ms: self.config.scoring.spec_fall_interval(0),
            last_fall_ms: self.last_fall_ms,
            phase: Phase::Playing,
            death_count: self.death_count,
            bonus_shown: false,
        }
    }

    /// At `now` a gravity step is due.
    pub open spec fn gravity_due(self, now: int) -> bool {
        now - self.last_fall_ms >= self.fall_interval_ms
    }

    /// The playfield once the piece is locked into it, before clearing.
    pub open spec fn filled(self) -> Grid {
        placed(self.board, self.piece)
    }

    /// Rows that locking the piece completes.
    pub open spec fn lock_lines(self) -> int {
        full_rows(self.filled()) as int
    }

    /// Locking the piece ends the game: after clearing, the top row still
    /// holds a cell.
    pub open spec fn lock_ends_game(self) -> bool {
        spawn_row_blocked(cleared(self.filled()))
    }

    /// Locking the piece calls for the bonus content: it ends the game for
    /// the first time, and the bonus has not been shown.
    pub open spec fn lock_shows_bonus(self) -> bool {
        self.lock_ends_game() && capped_add(self.death_count, 1) == 1 && !self.bonus_shown
    }

    /// The game after the piece is locked at `now`: the piece is written
    /// into the playfield, full rows are cleared and scored, the fall
    /// interval follows the new score, `next` becomes the piece, and the
    /// gravity timer restarts.  Where the top row is left blocked the game
    /// freezes and the count of game overs goes up by one.
    pub open spec fn locked(self, now: int, next: PieceModel) -> GameModel {
        let score = capped_add(
            self.score,
            self.config.scoring.spec_score_delta(self.lock_lines()),
        );
        GameModel {
            config: self.config,
            board: cleared(self.filled()),
            piece: next,
            score,
            fall_interval_ms: self.config.scoring.spec_fall_interval(score),
            last_fall_ms: now,
            phase: if self.lock_ends_game() {
                Phase::Frozen { since_ms: now as u64 }
            } else {
                self.phase
            },
            death_count: if self.lock_ends_game() {
                capped_add(self.death_count, 1)
            } else {
                self.death_count
            },
            bonus_shown: self.bonus_shown || self.lock_shows_bonus(),
        }
    }

    /// What locking the piece asks of the outside world.
    pub open spec fn lock_effects(self) -> Effects {
        Effects {
            lines_cleared: self.lock_lines() as u32,
            game_over: self.lock_ends_game(),
            bonus_content: self.lock_shows_bonus(),
            restarted: false,
        }
    }

    /// The piece can fall one row.
    pub open spec fn can_fall(self) -> bool {
        self.piece.can_move(0, 1, self.board)
    }

    /// The game after a gravity step at `now`: the piece one row lower, or,
    /// where it cannot fall, locked.  Either way the gravity timer restarts
    /// at `now`.
    pub open spec fn fallen(self, now: int, next: PieceModel) -> GameModel {
        if self.can_fall() {
            GameModel { piece: self.piece.shifted(0, 1), last_fall_ms: now, ..self }
        } else {
            self.locked(now, next)
        }
    }

    /// The game after a tick at `now`.  `fresh` is the piece a restart
    /// takes, `next` the piece that follows a lock.
    pub open spec fn tick(self, now: int, fresh: PieceModel, next: PieceModel) -> GameModel {
        if self.holds_still(now) {
            self
        } else {
            let running = if self.is_frozen() {
                self.restarted(fresh)
            } else {
                self
            };
            if running.gravity_due(now) {
                running.fallen(now, next)
            } else {
                running
            }
        }
    }

    /// What a tick at `now` asks of the outside world.
    pub open spec fn tick_effects(self, now: int, fresh: PieceModel) -> Effects {
        if self.holds_still(now) {
            Effects::none_spec()
        } else {
            let running = if self.is_frozen() {
                self.restarted(fresh)
            } else {
                self
            };
            let locking = if running.gravity_due(now) && !running.can_fall() {
                running.lock_effects()
            } else {
                Effects::none_spec()
            };
            Effects { restarted: self.is_frozen(), ..locking }
        }
    }

    /// The piece after `command`.
    pub open spec fn commanded(self, command: Command) -> PieceModel {
        match command {
            Command::MoveLeft => self.piece.step(-1, 0, self.board),
            Command::MoveRight => self.piece.step(1, 0, self.board),
            Command::SoftDrop => self.piece.step(0, 1, self.board),
            Command::Rotate => self.piece.rotate(self.board),
            Command::HardDrop => self.piece.landed(self.board),
        }
    }

    /// The game after `command`: nothing changes while frozen; otherwise
    /// only the piece moves.  A hard drop does not lock the piece: the next
    /// gravity step does.
    pub open spec fn apply(self, command: Command) -> GameModel {
        if self.is_frozen() {
            self
        } else {
            GameModel { piece: self.commanded(command), ..self }
        }
    }
}

/// A frozen game is inert: while the freeze lasts a tick changes nothing
/// and asks for nothing, so a game over cannot be entered a second time;
/// and no command moves the piece.
pub proof fn law_frozen_game_is_inert(
    g: GameModel,
    now: int,
    fresh: PieceModel,
    next: PieceModel,
    command: Command,
)
    requires
        g.is_frozen(),
    ensures
        g.apply(command) == g,
        g.holds_still(now) ==> g.tick(now, fresh, next) == g,
        g.holds_still(now) ==> g.tick_effects(now, fresh) == Effects::none_spec(),
{
}

/// A lock freezes the game exactly when it leaves the top row blocked.  It
/// then counts one game over and reports it, and the freeze lasts the
/// configured time; otherwise the game plays on and the count stays.  The
/// counter stands still only at `u64::MAX`, which is left out here.
pub proof fn law_lock_freezes_once(g: GameModel, now: int, next: PieceModel)
    requires
        g.valid(),
        !g.is_frozen(),
        g.last_fall_ms <= now <= u64::MAX,
        g.death_count < u64::MAX,
    ensures
        g.lock_ends_game() <==> spawn_row_blocked(g.locked(now, next).board),
        g.locked(now, next).is_frozen() <==> g.lock_ends_game(),
        g.lock_effects().game_over <==> g.lock_ends_game(),
        g.lock_ends_game() ==> g.locked(now, next).phase == (Phase::Frozen { since_ms: now as u64 })
            && g.locked(now, next).death_count == g.death_count + 1,
        !g.lock_ends_game() ==> g.locked(now, next).phase == Phase::Playing && g.locked(
            now,
            next,
        ).death_count == g.death_count,
        g.lock_ends_game() ==> forall|later: int| #[trigger]
            g.locked(now, next).holds_still(later) <==> later - now < g.config.freeze_ms,
{
}

/// A tick locks the piece exactly when the game plays, a gravity step is
/// due and the piece cannot fall; it is then the lock and asks for what the
/// lock asks.  A tick of a playing game does nothing else that could freeze
/// it.
pub proof fn law_tick_locks(g: GameModel, now: int, fresh: PieceModel, next: PieceModel)
    requires
        g.valid(),
        !g.is_frozen(),
    ensures
        g.gravity_due(now) && !g.can_fall() ==> g.tick(now, fresh, next) == g.locked(now, next)
            && g.tick_effects(now, fresh) == g.lock_effects(),
        !(g.gravity_due(now) && !g.can_fall()) ==> !g.tick(now, fresh, next).is_frozen()
            && g.tick(now, fresh, next).death_count == g.death_count && g.tick_effects(now, fresh)
            == Effects::none_spec(),
{
}

/// A restart is a fresh session: the game is the one a new game with the
/// same configuration and piece would be, but for the count of game overs
/// and the time of the last gravity step.  Its fall interval is the base
/// interval.
pub proof fn law_restart_is_a_fresh_session(g: GameModel, fresh: PieceModel)
    requires
        g.config.valid(),
    ensures
        g.restarted(fresh) == (GameModel {
            death_count: g.death_count,
            last_fall_ms: g.last_fall_ms,
            ..GameModel::start(g.config, fresh)
        }),
        g.restarted(fresh).fall_interval_ms == g.config.scoring.base_interval_ms,
        GameModel::start(g.config, fresh).fall_interval_ms == g.config.scoring.base_interval_ms,
{
    lemma_interval_bounds(g.config.scoring, 0);
}

/// At every moment the fall interval is the one the scoring policy gives
/// for the score: a valid game says so, and ticks and commands keep a game
/// valid.
pub proof fn law_command_keeps_valid(g: GameModel, command: Command)
    requires
        g.valid(),
    ensures
        g.apply(command).valid(),
        g.apply(command).fall_interval_ms == g.config.scoring.spec_fall_interval(
            g.apply(command).score,
        ),
{
    lemma_commands_keep_valid(g.piece, g.board);
}

/// The bonus content is asked for with the first game over and never
/// again: once a game over has been counted, no lock asks for it.
pub proof fn law_bonus_with_first_game_over_only(g: GameModel)
    requires
        g.valid(),
    ensures
        g.lock_shows_bonus() ==> g.death_count == 0 && g.lock_ends_game(),
        g.death_count >= 1 ==> !g.lock_effects().bonus_content,
{
}

/// A tick keeps a valid game valid, so that the fall interval stays the
/// one that goes with the score; it never takes the count of game overs
/// down, and leaves the playfield's sides as they are.
pub proof fn law_tick_keeps_valid(g: GameModel, now: int, fresh: PieceModel, next: PieceModel)
    requires
        g.valid(),
        fresh.valid(),
        has_cell(fresh.matrix),
        next.valid(),
        has_cell(next.matrix),
        g.last_fall_ms <= now <= u64::MAX,
    ensures
        g.tick(now, fresh, next).valid(),
        g.tick(now, fresh, next).fall_interval_ms == g.config.scoring.spec_fall_interval(
            g.tick(now, fresh, next).score,
        ),
        g.tick(now, fresh, next).death_count >= g.death_count,
        g.tick(now, fresh, next).config == g.config,
{
    if !g.holds_still(now) {
        let running = if g.is_frozen() {
            g.restarted(fresh)
        } else {
            g
        };
        if running.gravity_due(now) && !running.can_fall() {
            let after = running.locked(now, next);
            law_cleared_shape(running.filled());
            lemma_interval_bounds(g.config.scoring, ScoringPolicy::level(after.score));
        }
    }
}

/// A command never makes a piece that fits collide: where the piece fits
/// before the command it fits after it.
pub proof fn law_command_keeps_fit(g: GameModel, command: Command)
    requires
        g.valid(),
        g.piece.fits(g.board),
    ensures
        g.apply(command).piece.fits(g.apply(command).board),
        g.apply(command).board == g.board,
{
    law_commands_keep_fit(g.piece, g.board);
}

/// `model` is the piece that `given` stands for: the piece handed over or,
/// where none is, some freshly spawned piece.
spec fn stands_for(given: Option<Piece>, model: PieceModel, width: int) -> bool {
    match given {
        Some(piece) => model == piece@,
        None => is_spawn(model, width),
    }
}

/// Gravity never makes a piece that fits collide: where the piece fits
/// before a tick that does not lock it, it fits after the tick.
pub proof fn law_piece_fits_until_locked(
    g: GameModel,
    now: int,
    fresh: PieceModel,
    next: PieceModel,
)
    requires
        g.valid(),
        !g.is_frozen(),
        g.piece.fits(g.board),
    ensures
        !(g.gravity_due(now) && !g.can_fall()) ==> g.tick(now, fresh, next).piece.fits(
            g.tick(now, fresh, next).board,
        ),
{
}

/// The model of the piece handed over or, where none is, `fallback`.
spec fn model_or(given: Option<Piece>, fallback: PieceModel) -> PieceModel {
    match given {
        Some(piece) => piece@,
        None => fallback,
    }
}

/// A game in progress.
pub struct Game {
    config: Config,
    board: Board,
    piece: Piece,
    score: u64,
    fall_interval_ms: u64,
    last_fall_ms: u64,
    phase: Phase,
    death_count: u64,
    bonus_shown: bool,
}

impl View for Game {
    type V = GameModel;

    closed spec fn view(&self) -> GameModel {
        GameModel {
            config: self.config,
            board: self.board@,
            piece: self.piece@,
            score: self.score as int,
            fall_interval_ms: self.fall_interval_ms as int,
            last_fall_ms: self.last_fall_ms as int,
            phase: self.phase,
            death_count: self.death_count as int,
            bonus_shown: self.bonus_shown,
        }
    }
}

impl Game {
    /// The playfield and the piece are well-formed.
    pub closed spec fn parts_wf(&self) -> bool {
        self.board.wf() && self.piece.wf()
    }

    /// Well-formedness: the model is valid and so are the parts.
    pub open spec fn wf(&self) -> bool {
        self@.valid() && self.parts_wf()
    }

    /// A new game on an empty playfield with `first` as its piece, which
    /// must hold an occupied cell.  The game starts at the base interval.
    pub fn with_piece(config: Config, first: Piece) -> (game: Game)
        requires
            config.valid(),
            first.wf(),
            has_cell(first@.matrix),
        ensures
            game.wf(),
            game@ == GameModel::start(config, first@),
            game@.fall_interval_ms == config.scoring.base_interval_ms,
    {
        proof {
            lemma_interval_bounds(config.scoring, 0);
        }
        Game {
            config,
            board: Board::new(config.board_width, config.board_height),
            piece: first,
            score: 0,
            fall_interval_ms: config.scoring.base_interval_ms,
            last_fall_ms: 0,
            phase: Phase::Playing,
            death_count: 0,
            bonus_shown: false,
        }
    }

    /// A new game on an empty playfield with a freshly drawn piece.
    pub fn new(config: Config) -> (game: Game)
        requires
            config.valid(),
        ensures
            game.wf(),
            exists|first: PieceModel|
                is_spawn(first, config.board_width as int) && game@ == #[trigger] GameModel::start(
                    config,
                    first,
                ),
    {
        let first = Piece::spawn(config.board_width);
        Self::with_piece(config, first)
    }

    /// Starts over after a game over, with `fresh` as the piece and the
    /// base interval.
    fn restart(&mut self, fresh: Piece)
        requires
            old(self).wf(),
            fresh.wf(),
            has_cell(fresh@.matrix),
        ensures
            final(self).wf(),
            final(self)@ == old(self)@.restarted(fresh@),
    {
        proof {
            lemma_interval_bounds(self.config.scoring, 0);
        }
        self.board = Board::new(self.config.board_width, self.config.board_height);
        self.piece = fresh;
        self.score = 0;
        self.fall_interval_ms = self.config.scoring.base_interval_ms;
        self.bonus_shown = false;
        self.phase = Phase::Playing;
    }

    /// Locks the piece at `now_ms` and takes `next` as the new piece.
    fn lock(&mut self, now_ms: u64, next: Piece) -> (effects: Effects)
        requires
            old(self).wf(),
            next.wf(),
            has_cell(next@.matrix),
            old(self)@.last_fall_ms <= now_ms,
        ensures
            final(self).wf(),
            final(self)@ == old(self)@.locked(now_ms as int, next@),
            effects == old(self)@.lock_effects(),
    {
        self.board.place(&self.piece);
        let lines = self.board.clear_full_rows() as u32;
        let delta = self.config.scoring.score_delta(lines);
        self.score = if delta > u64::MAX - self.score {
            u64::MAX
        } else {
            self.score + delta
        };
        self.fall_interval_ms = self.config.scoring.fall_interval(self.score);
        proof {
            lemma_interval_bounds(self.config.scoring, ScoringPolicy::level(self.score as int));
        }
        let game_over = self.board.is_spawn_row_blocked();
        let mut bonus_content = false;
        if game_over {
            self.phase = Phase::Frozen { since_ms: now_ms };
            if self.death_count < u64::MAX {
                self.death_count = self.death_count + 1;
            }
            if self.death_count == 1 && !self.bonus_shown {
                self.bonus_shown = true;
                bonus_content = true;
            }
        }
        self.piece = next;
        self.last_fall_ms = now_ms;
        Effects { lines_cleared: lines, game_over, bonus_content, restarted: false }
    }

    /// The piece handed over or, where none is, a freshly drawn one.
    fn given_or_drawn(given: Option<Piece>, board_width: usize) -> (piece: Piece)
        requires
            board_width <= MAX_DIM,
            given matches Some(p) ==> p.wf() && has_cell(p@.matrix),
        ensures
            piece.wf(),
            has_cell(piece@.matrix),
            stands_for(given, piece@, board_width as int),
    {
        match given {
            Some(piece) => piece,
            None => Piece::spawn(board_width),
        }
    }

    /// One tick.  A piece that has to come in is taken from `fresh` (after
    /// a restart) or `next` (after a lock) or, where that is `None`, drawn
    /// at random, and only then.
    fn advance(&mut self, now_ms: u64, fresh: Option<Piece>, next: Option<Piece>) -> (effects:
        Effects)
        requires
            old(self).wf(),
            fresh matches Some(p) ==> p.wf() && has_cell(p@.matrix),
            next matches Some(p) ==> p.wf() && has_cell(p@.matrix),
            old(self)@.last_fall_ms <= now_ms,
        ensures
            final(self).wf(),
            exists|f: PieceModel, n: PieceModel|
                {
                    &&& stands_for(fresh, f, old(self)@.config.board_width as int)
                    &&& stands_for(next, n, old(self)@.config.board_width as int)
                    &&& final(self)@ == #[trigger] old(self)@.tick(now_ms as int, f, n)
                    &&& effects == old(self)@.tick_effects(now_ms as int, f)
                },
    {
        let ghost before = self@;
        let ghost width = self.config.board_width as int;
        let ghost any = PieceModel::spawned(ShapeKind::I, ColorTag::Pink, width);
        let ghost mut f = model_or(fresh, any);
        let ghost n = model_or(next, any);
        let mut restarted = false;
        match self.phase {
            Phase::Frozen { since_ms } => {
                if now_ms - since_ms < self.config.freeze_ms {
                    assert(self@ == before.tick(now_ms as int, f, n));
                    return Effects::none();
                }
                let piece = Self::given_or_drawn(fresh, self.config.board_width);
                proof {
                    f = piece@;
                }
                self.restart(piece);
                restarted = true;
            },
            Phase::Playing => {},
        }
        if now_ms - self.last_fall_ms >= self.fall_interval_ms {
            if self.piece.move_down(&self.board) {
                self.last_fall_ms = now_ms;
            } else {
                let piece = Self::given_or_drawn(next, self.config.board_width);
                let ghost drawn = piece@;
                let locking = self.lock(now_ms, piece);
                assert(self@ == before.tick(now_ms as int, f, drawn));
                return Effects {
                    lines_cleared: locking.lines_cleared,
                    game_over: locking.game_over,
                    bonus_content: locking.bonus_content,
                    restarted,
                };
            }
        }
        assert(self@ == before.tick(now_ms as int, f, n));
        Effects { lines_cleared: 0, game_over: false, bonus_content: false, restarted }
    }

    /// Advances the game to `now_ms`, with the pieces to bring in handed
    /// over by the caller: `fresh` where the freeze runs out and the game
    /// starts over, `next` where the falling piece locks.
    ///
    /// While the freeze lasts nothing happens.  Otherwise, once the fall
    /// interval has passed since the last gravity step, the piece falls one
    /// row or, where it cannot, locks.  Time does not run backwards:
    /// `now_ms` must not lie before the last gravity step.  Both pieces
    /// must hold an occupied cell.
    pub fn tick_with(&mut self, now_ms: u64, fresh: Piece, next: Piece) -> (effects: Effects)
        requires
            old(self).wf(),
            fresh.wf(),
            has_cell(fresh@.matrix),
            next.wf(),
            has_cell(next@.matrix),
            old(self)@.last_fall_ms <= now_ms,
        ensures
            final(self).wf(),
            final(self)@ == old(self)@.tick(now_ms as int, fresh@, next@),
            effects == old(self)@.tick_effects(now_ms as int, fresh@),
    {
        self.advance(now_ms, Some(fresh), Some(next))
    }

    /// Advances the game to `now_ms`; a piece that has to come in is drawn
    /// at random.  The outcome is that of `tick_with` for some pair of
    /// freshly spawned pieces.  `now_ms` must not lie before the last
    /// gravity step.
    pub fn tick(&mut self, now_ms: u64) -> (effects: Effects)
        requires
            old(self).wf(),
            old(self)@.last_fall_ms <= now_ms,
        ensures
            final(self).wf(),
            exists|fresh: PieceModel, next: PieceModel|
                {
                    &&& is_spawn(fresh, old(self)@.config.board_width as int)
                    &&& is_spawn(next, old(self)@.config.board_width as int)
                    &&& final(self)@ == #[trigger] old(self)@.tick(now_ms as int, fresh, next)
                    &&& effects == old(self)@.tick_effects(now_ms as int, fresh)
                },
    {
        self.advance(now_ms, None, None)
    }

    /// Obeys `command`, unless the game is frozen.  Moves that the
    /// playfield bars are passed over.
    pub fn apply_command(&mut self, command: Command)
        requires
            old(self).wf(),
        ensures
            final(self).wf(),
            final(self)@ == old(self)@.apply(command),
    {
        if self.is_frozen() {
            return ;
        }
        match command {
            Command::MoveLeft => {
                self.piece.move_left(&self.board);
            },
            Command::MoveRight => {
                self.piece.move_right(&self.board);
            },
            Command::SoftDrop => {
                self.piece.move_down(&self.board);
            },
            Command::Rotate => {
                self.piece.rotate(&self.board);
            },
            Command::HardDrop => {
                self.piece.hard_drop(&self.board);
            },
        }
    }

    /// The configuration the game was started with.
    pub fn config(&self) -> (config: Config)
        ensures
            config == self@.config,
    {
        self.config
    }

    /// The playfield.
    pub fn board(&self) -> (board: &Board)
        requires
            self.wf(),
        ensures
            board.wf(),
            board@ == self@.board,
    {
        &self.board
    }

    /// The falling piece.
    pub fn piece(&self) -> (piece: &Piece)
        requires
            self.wf(),
        ensures
            piece.wf(),
            piece@ == self@.piece,
    {
        &self.piece
    }

    /// Points so far.
    pub fn score(&self) -> (score: u64)
        ensures
            score == self@.score,
    {
        self.score
    }

    /// Time from one gravity step to the next, in milliseconds.
    pub fn fall_interval_ms(&self) -> (ms: u64)
        ensures
            ms == self@.fall_interval_ms,
    {
        self.fall_interval_ms
    }

    /// Time of the last gravity step; a tick must not lie before it.
    pub fn last_fall_ms(&self) -> (ms: u64)
        ensures
            ms == self@.last_fall_ms,
    {
        self.last_fall_ms
    }

    /// Playing or frozen.
    pub fn phase(&self) -> (phase: Phase)
        ensures
            phase == self@.phase,
    {
        self.phase
    }

    /// Whether the game is waiting out a game over.
    pub fn is_frozen(&self) -> (frozen: bool)
        ensures
            frozen == self@.is_frozen(),
    {
        match self.phase {
            Phase::Frozen { .. } => true,
            Phase::Playing => false,
        }
    }

    /// Number of game overs so far.
    pub fn death_count(&self) -> (count: u64)
        ensures
            count == self@.death_count,
    {
        self.death_count
    }

    /// Whether the hint is to be shown: during the first game over only.
    pub fn show_hint(&self) -> (show: bool)
        ensures
            show == self@.show_hint(),
    {
        self.is_frozen() && self.death_count == 1
    }
}

} // verus!
