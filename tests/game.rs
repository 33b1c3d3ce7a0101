use quiz_tetris::game::{decode_input, Command, Game};
use quiz_tetris::grid::{CELL_COUNT, WIDTH};
use quiz_tetris::layout::{layout_offsets, split_into_lines, Scale};
use quiz_tetris::quiz::{CurrentQuiz, Quiz};

fn sample_quiz() -> Quiz {
    Quiz {
        question: String::from("What is two plus two?"),
        answer: String::from("four"),
        wrong_answers: vec![
            String::from("three"),
            String::from("five"),
            String::from("twenty-two"),
        ],
    }
}

fn strings(v: &[&str]) -> Vec<String> {
    v.iter().map(|s| s.to_string()).collect()
}

#[test]
fn scale_new_keeps_fields() {
    let s = Scale::new(2, 1);
    assert_eq!(s.x, 2);
    assert_eq!(s.y, 1);
}

#[test]
fn current_quiz_new_keeps_fields() {
    let q = CurrentQuiz::new(String::from("q"), strings(&["a", "b"]), 1);
    assert_eq!(q.question, "q");
    assert_eq!(q.answers, strings(&["a", "b"]));
    assert_eq!(q.correct_answer_id, 1);
}

#[test]
fn present_inserts_right_answer() {
    let quiz = sample_quiz();
    let q = quiz.present(strings(&["five", "three", "twenty-two"]), 2);
    assert_eq!(q.question, quiz.question);
    assert_eq!(q.answers, strings(&["five", "three", "four", "twenty-two"]));
    assert_eq!(q.correct_answer_id, 2);
    let q = quiz.present(strings(&["five"]), 0);
    assert_eq!(q.answers, strings(&["four", "five"]));
    assert_eq!(q.correct_answer_id, 0);
}

#[test]
fn quiz_rng_presents_a_pool_quiz() {
    for _ in 0..20 {
        let mut game = Game::new(vec![sample_quiz()]);
        game.quiz_rng();
        let q = game.quiz.as_ref().unwrap();
        assert_eq!(q.question, "What is two plus two?");
        assert_eq!(q.answers.len(), 4);
        assert_eq!(q.answers[q.correct_answer_id as usize], "four");
        let mut sorted = q.answers.clone();
        sorted.sort();
        assert_eq!(sorted, strings(&["five", "four", "three", "twenty-two"]));
    }
}

#[test]
fn quiz_rng_keeps_open_quiz() {
    let mut game = Game::new(vec![sample_quiz()]);
    game.quiz = Some(CurrentQuiz::new(String::from("open"), strings(&["x"]), 0));
    game.quiz_rng();
    assert_eq!(game.quiz.as_ref().unwrap().question, "open");
}

#[test]
fn right_answer_closes_quiz_without_punishment() {
    let mut game = Game::new(vec![]);
    game.grid.spawn_tetromino(1);
    game.grid.cells[150] = true;
    game.quiz = Some(CurrentQuiz::new(String::from("q"), strings(&["a", "b", "c"]), 1));
    let before = game.grid.cells.clone();
    assert!(!game.answer(b'2'));
    assert!(game.quiz.is_none());
    assert_eq!(game.grid.cells, before);
}

#[test]
fn wrong_answer_punishes() {
    let mut game = Game::new(vec![]);
    game.grid.spawn_tetromino(1);
    game.grid.cells[150] = true;
    game.quiz = Some(CurrentQuiz::new(String::from("q"), strings(&["a", "b", "c"]), 1));
    assert!(game.answer(b'1'));
    assert!(game.quiz.is_none());
    assert!(game.grid.cells[140]);
    assert!(!game.grid.cells[150]);
    assert!((190..CELL_COUNT).any(|i| game.grid.cells[i]));
}

#[test]
fn answer_without_quiz_does_nothing() {
    let mut game = Game::new(vec![]);
    game.grid.spawn_tetromino(1);
    let before = game.grid.cells.clone();
    assert!(!game.answer(b'3'));
    assert_eq!(game.grid.cells, before);
}

#[test]
fn decode_input_maps_keys() {
    assert_eq!(decode_input([27, 0, 0], false, false), Command::Quit);
    assert_eq!(decode_input([b'q', 0, 0], true, false), Command::Quit);
    assert_eq!(decode_input([b'3', 0, 0], true, false), Command::Answer(b'3'));
    assert_eq!(decode_input([b'h', 0, 0], false, false), Command::MoveLeft);
    assert_eq!(decode_input([27, 91, 68], false, false), Command::MoveLeft);
    assert_eq!(decode_input([b'l', 0, 0], false, false), Command::MoveRight);
    assert_eq!(decode_input([27, 91, 67], false, false), Command::MoveRight);
    assert_eq!(decode_input([b'k', 0, 0], false, false), Command::Rotate);
    assert_eq!(decode_input([27, 91, 65], false, false), Command::Rotate);
    assert_eq!(decode_input([b'j', 0, 0], false, false), Command::SoftDrop);
    assert_eq!(decode_input([27, 91, 66], false, false), Command::SoftDrop);
    assert_eq!(decode_input([b'h', 0, 0], true, false), Command::Nothing);
    assert_eq!(decode_input([b'r', 0, 0], false, true), Command::Reset);
    assert_eq!(decode_input([b'r', 0, 0], false, false), Command::Nothing);
    assert_eq!(decode_input([0, 0, 0], false, false), Command::Nothing);
    assert_eq!(decode_input([b'5', 0, 0], false, false), Command::Nothing);
}

#[test]
fn handle_input_drives_the_grid() {
    let mut game = Game::new(vec![]);
    game.grid.spawn_tetromino(1);
    assert!(game.handle_input([b'h', 0, 0]));
    assert_eq!(game.grid.position, 3);
    assert!(game.handle_input([27, 91, 66]));
    assert_eq!(game.grid.position, 13);
    assert!(game.handle_input([b'x', 0, 0]));
    assert!(!game.handle_input([b'q', 0, 0]));
}

#[test]
fn reset_key_restarts_after_game_over() {
    let mut game = Game::new(vec![]);
    game.grid.cells[4] = true;
    game.grid.spawn_tetromino(1);
    assert!(game.grid.game_over);
    assert!(game.handle_input([b'r', 0, 0]));
    assert!(!game.grid.game_over);
    assert!(game.grid.cells.iter().all(|c| !c));
}

#[test]
fn layout_offsets_centre_board() {
    let s = Scale::new(2, 1);
    assert_eq!(layout_offsets(200, 50, &s), Some((58, 22)));
    assert_eq!(layout_offsets(80, 50, &s), None);
    assert_eq!(layout_offsets(200, 27, &s), None);
    assert_eq!(layout_offsets(64 + 2 * WIDTH as u16, 28, &s), Some((0, 0)));
}

#[test]
fn split_into_lines_wraps_words() {
    let text = String::from("the quick  brown\tfox");
    assert_eq!(split_into_lines(&text, 10), strings(&["the quick", "brown fox"]));
}

#[test]
fn split_into_lines_long_word_gets_own_line() {
    let text = String::from("abcdefghijkl x");
    assert_eq!(split_into_lines(&text, 5), strings(&["", "abcdefghijkl", "x"]));
}

#[test]
fn split_into_lines_empty_text() {
    assert_eq!(split_into_lines(&String::from("   "), 10), Vec::<String>::new());
}
