use deet::hangman::{pick_a_random_word, HangmanGame, NUM_INCORRECT_GUESSES};

#[test]
fn random_word_comes_from_the_list() {
    let words = vec!["alpha".to_string(), "beta".to_string(), "gamma".to_string()];
    for _ in 0..20 {
        let w = pick_a_random_word(&words);
        assert!(words.contains(&w));
    }
}

#[test]
fn hit_reveals_all_positions_without_cost() {
    let mut game = HangmanGame::new(vec!['l', 'e', 'v', 'e', 'l']);
    assert!(game.guess('e'));
    assert_eq!(game.revealed, vec!['-', 'e', '-', 'e', '-']);
    assert_eq!(game.wrong, 0);
    assert_eq!(game.guessed, vec!['e']);
    assert!(!game.is_won());
    assert!(!game.is_lost());
}

#[test]
fn miss_costs_one_guess_and_reveals_nothing() {
    let mut game = HangmanGame::new(vec!['a', 'b']);
    assert!(!game.guess('z'));
    assert_eq!(game.revealed, vec!['-', '-']);
    assert_eq!(game.wrong, 1);
    assert_eq!(game.guesses_left(), NUM_INCORRECT_GUESSES - 1);
}

#[test]
fn game_is_won_when_every_letter_shows() {
    let mut game = HangmanGame::new(vec!['h', 'i']);
    game.guess('h');
    assert!(!game.is_won());
    game.guess('i');
    assert!(game.is_won());
}

#[test]
fn game_is_lost_after_the_allowed_misses() {
    let mut game = HangmanGame::new(vec!['a']);
    for c in ['b', 'c', 'd', 'e', 'f'] {
        assert!(!game.is_lost());
        game.guess(c);
    }
    assert!(game.is_lost());
    assert_eq!(game.wrong, NUM_INCORRECT_GUESSES);
}
