//! A game session: the engine, the quiz pool, the quiz put to the player,
//! and the decisions the input loop takes on each key press.
use vstd::prelude::*;

use crate::grid::Grid;
use crate::model::GridState;
use crate::quiz::{CurrentQuiz, Quiz};
use crate::random::{random_at_most, shuffle};

verus! {

/// Escape, alone or as the first byte of an arrow key's sequence.
pub const KEY_ESCAPE: u8 = 27;

/// Second byte of an arrow key's escape sequence.
pub const KEY_BRACKET: u8 = 91;

/// Third byte of the arrow keys' escape sequences.
pub const ARROW_UP: u8 = 65;
pub const ARROW_DOWN: u8 = 66;
pub const ARROW_RIGHT: u8 = 67;
pub const ARROW_LEFT: u8 = 68;

/// Letter keys: `q`, `h`, `l`, `k`, `j` and `r`.
pub const KEY_QUIT: u8 = 113;
pub const KEY_LEFT: u8 = 104;
pub const KEY_RIGHT: u8 = 108;
pub const KEY_ROTATE: u8 = 107;
pub const KEY_DROP: u8 = 106;
pub const KEY_RESET: u8 = 114;

/// The answer keys, the digits `1` to `4`.
pub const KEY_FIRST_ANSWER: u8 = 49;
pub const KEY_LAST_ANSWER: u8 = 52;

/// What a key press asks for.
#[derive(Debug, Clone, Copy, PartialEq, Eq)]
pub enum Command {
    Quit,
    /// An answer key, as the ASCII digit pressed.
    Answer(u8),
    MoveLeft,
    MoveRight,
    Rotate,
    SoftDrop,
    Reset,
    Nothing,
}

/// The command the bytes `b` of a key press stand for, while a quiz is open
/// or not and the game is over or not: escape or `q` quits; a digit 1 to 4
/// alone answers; `h`/`l`/`k`/`j` or the arrows move, turn and drop while no
/// quiz is open; `r` resets once the game is over.
pub open spec fn command_of(b: Seq<u8>, quiz_open: bool, game_over: bool) -> Command {
    let arrow = b[0] == KEY_ESCAPE && b[1] == KEY_BRACKET;
    if (b[0] == KEY_ESCAPE && b[1] == 0 && b[2] == 0) || b[0] == KEY_QUIT {
        Command::Quit
    } else if KEY_FIRST_ANSWER <= b[0] <= KEY_LAST_ANSWER && b[1] == 0 && b[2] == 0 {
        Command::Answer(b[0])
    } else if !quiz_open && (b[0] == KEY_LEFT || (arrow && b[2] == ARROW_LEFT)) {
        Command::MoveLeft
    } else if !quiz_open && (b[0] == KEY_RIGHT || (arrow && b[2] == ARROW_RIGHT)) {
        Command::MoveRight
    } else if !quiz_open && (b[0] == KEY_ROTATE || (arrow && b[2] == ARROW_UP)) {
        Command::Rotate
    } else if !quiz_open && (b[0] == KEY_DROP || (arrow && b[2] == ARROW_DOWN)) {
        Command::SoftDrop
    } else if game_over && b[0] == KEY_RESET {
        Command::Reset
    } else {
        Command::Nothing
    }
}

/// Decodes the bytes of a key press.
pub fn decode_input(b: [u8; 3], quiz_open: bool, game_over: bool) -> (c: Command)
    ensures
        c == command_of(b@, quiz_open, game_over),
{
    let arrow = b[0] == KEY_ESCAPE && b[1] == KEY_BRACKET;
    if (b[0] == KEY_ESCAPE && b[1] == 0 && b[2] == 0) || b[0] == KEY_QUIT {
        Command::Quit
    } else if KEY_FIRST_ANSWER <= b[0] && b[0] <= KEY_LAST_ANSWER && b[1] == 0 && b[2] == 0 {
        Command::Answer(b[0])
    } else if !quiz_open && (b[0] == KEY_LEFT || (arrow && b[2] == ARROW_LEFT)) {
        Command::MoveLeft
    } else if !quiz_open && (b[0] == KEY_RIGHT || (arrow && b[2] == ARROW_RIGHT)) {
        Command::MoveRight
    } else if !quiz_open && (b[0] == KEY_ROTATE || (arrow && b[2] == ARROW_UP)) {
        Command::Rotate
    } else if !quiz_open && (b[0] == KEY_DROP || (arrow && b[2] == ARROW_DOWN)) {
        Command::SoftDrop
    } else if game_over && b[0] == KEY_RESET {
        Command::Reset
    } else {
        Command::Nothing
    }
}

/// A game session.
pub struct Game {
    pub grid: Grid,
    pub quizzes: Vec<Quiz>,
    /// The quiz put to the player, if any.
    pub quiz: Option<CurrentQuiz>,
}

impl Game {
    /// The session's engine is well formed.
    pub open spec fn wf(&self) -> bool {
        self.grid@.wf()
    }

    /// A session with a fresh engine, the given quiz pool and no open quiz.
    pub fn new(quizzes: Vec<Quiz>) -> (g: Game)
        ensures
            g.wf(),
            g.grid@ == GridState::fresh(),
            g.quizzes == quizzes,
            g.quiz is None,
    {
        Game { grid: Grid::new(), quizzes, quiz: None }
    }

    /// Whether `n`, an ASCII digit counting from 1, names a wrong answer of
    /// quiz `q`.
    pub open spec fn is_wrong_answer(q: CurrentQuiz, n: u8) -> bool {
        n as int - 48 != q.correct_answer_id as int + 1
    }

    /// Answers the open quiz with the ASCII digit `n`, counting answers from
    /// 1: a wrong answer punishes the engine. The quiz closes either way.
    /// Tells whether the answer was wrong.
    pub fn answer(&mut self, n: u8) -> (wrong: bool)
        requires
            old(self).wf(),
        ensures
            final(self).wf(),
            final(self).quiz is None,
            final(self).quizzes == old(self).quizzes,
            wrong == (old(self).quiz matches Some(q) && Self::is_wrong_answer(q, n)),
            wrong ==> exists|row: Seq<bool>|
                row.len() == 10 && row.contains(true) && final(self).grid@ == #[trigger] old(self).grid@.punished(row),
            !wrong ==> final(self).grid@ == old(self).grid@,
    {
        let wrong = match &self.quiz {
            Some(q) => n as u16 != q.correct_answer_id as u16 + 49,
            None => false,
        };
        if wrong {
            self.grid.punish();
        }
        self.quiz = None;
        wrong
    }

    /// Puts a quiz drawn at random from the pool to the player, its wrong
    /// answers shuffled and its right answer at a random place; does nothing
    /// while a quiz is open.
    pub fn quiz_rng(&mut self)
        requires
            old(self).wf(),
            old(self).quizzes@.len() > 0,
        ensures
            final(self).wf(),
            final(self).grid@ == old(self).grid@,
            final(self).quizzes == old(self).quizzes,
            old(self).quiz is Some ==> final(self).quiz == old(self).quiz,
            old(self).quiz is None ==> (final(self).quiz matches Some(q) && exists|id: int|
                0 <= id < old(self).quizzes@.len() && #[trigger] old(self).quizzes@[id].presented_as(
                    q,
                )),
    {
        if self.quiz.is_some() {
            return;
        }
        let id = random_at_most(&mut self.grid.rng, self.quizzes.len() - 1);
        let quiz = &self.quizzes[id];
        let mut wrong = quiz.copy_wrong_answers();
        shuffle(&mut wrong, &mut self.grid.rng);
        let position = random_at_most(&mut self.grid.rng, wrong.len());
        let ghost shuffled = wrong@;
        let q = quiz.present(wrong, position);
        assert(q.answers@.remove(position as int) =~= shuffled);
        self.quiz = Some(q);
        assert(old(self).quizzes@[id as int].presented_as(self.quiz->0));
    }

    /// What carrying out `command` does: `after` is the session once
    /// `before` has carried it out.
    pub open spec fn carried_out(before: Game, after: Game, command: Command) -> bool {
        &&& after.quizzes == before.quizzes
        &&& command == Command::MoveLeft ==> after.grid@ == before.grid@.horizontal_move(-1)
        &&& command == Command::MoveRight ==> after.grid@ == before.grid@.horizontal_move(1)
        &&& command == Command::Rotate ==> after.grid@ == before.grid@.rotate()
        &&& command == Command::SoftDrop ==> exists|k: int|
            0 <= k < 7 && after.grid@ == #[trigger] before.grid@.fall(false, k)
        &&& command == Command::Reset ==> after.grid@ == GridState::fresh()
        &&& (command == Command::Quit || command == Command::Nothing) ==> after.grid@
            == before.grid@
        &&& !(command is Answer) ==> after.quiz == before.quiz
        &&& command matches Command::Answer(n) ==> after.quiz is None && (if (
        before.quiz matches Some(q) && Self::is_wrong_answer(q, n)) {
            exists|row: Seq<bool>|
                row.len() == 10 && row.contains(true) && after.grid@ == #[trigger] before.grid@.punished(row)
        } else {
            after.grid@ == before.grid@
        })
    }

    /// Carries out a command; tells whether the session goes on.
    pub fn apply(&mut self, command: Command) -> (running: bool)
        requires
            old(self).wf(),
        ensures
            final(self).wf(),
            running == (command != Command::Quit),
            Self::carried_out(*old(self), *final(self), command),
    {
        match command {
            Command::Quit => {
                return false;
            },
            Command::Answer(n) => {
                self.answer(n);
            },
            Command::MoveLeft => {
                self.grid.horizontal_move(-1);
            },
            Command::MoveRight => {
                self.grid.horizontal_move(1);
            },
            Command::Rotate => {
                self.grid.rotate();
            },
            Command::SoftDrop => {
                self.grid.fall(false);
            },
            Command::Reset => {
                self.grid.reset();
            },
            Command::Nothing => {},
        }
        true
    }

    /// Decodes a key press against the session's state and carries it out;
    /// tells whether the session goes on.
    pub fn handle_input(&mut self, b: [u8; 3]) -> (running: bool)
        requires
            old(self).wf(),
        ensures
            final(self).wf(),
            running == (command_of(b@, old(self).quiz is Some, old(self).grid.game_over)
                != Command::Quit),
            Self::carried_out(
                *old(self),
                *final(self),
                command_of(b@, old(self).quiz is Some, old(self).grid.game_over),
            ),
    {
        let command = decode_input(b, self.quiz.is_some(), self.grid.game_over);
        self.apply(command)
    }
}

} // verus!
