use duel_notation::generator::{PlayError, PlayGenerator};
use duel_notation::lexer::TokenParser;
use duel_notation::{Move, Play, Token, TokenType};

fn tokens_of(text: &str) -> Vec<Token> {
    TokenParser::new(text.to_string()).parse_tokens().expect("the text lexes")
}

fn plays_of(text: &str) -> Result<Vec<Play>, PlayError> {
    let tokens = tokens_of(text);
    let mut generator = PlayGenerator::new(&tokens);
    generator.create_plays()
}

fn play(player1: &str, player2: &str, move1: Move, move2: Move) -> Play {
    Play::new(player1.to_string(), player2.to_string(), move1, move2)
}

#[test]
fn a_play_holds_what_it_was_made_of() {
    let made = play("ann", "bob", Move::Rock, Move::Scissors);
    assert_eq!(made.player1(), "ann");
    assert_eq!(made.player2(), "bob");
    assert_eq!(made.move1(), Move::Rock);
    assert_eq!(made.move2(), Move::Scissors);
    assert_eq!(made.clone(), made);
    assert_ne!(made, play("bob", "ann", Move::Rock, Move::Scissors));
    assert_ne!(made, play("ann", "bob", Move::Scissors, Move::Rock));
}

#[test]
fn one_declaration_and_one_duel_make_one_play() {
    assert_eq!(plays_of("'a' vs 'b' rock-rock"), Ok(vec![play("a", "b", Move::Rock, Move::Rock)]));
}

#[test]
fn the_first_move_is_the_first_rivals() {
    assert_eq!(
        plays_of("'ann' vs 'bob' paper~scissors"),
        Ok(vec![play("ann", "bob", Move::Paper, Move::Scissors)])
    );
}

#[test]
fn chained_duels_reuse_the_rivals() {
    assert_eq!(
        plays_of("'a' vs 'b' rock-rock paper~paper"),
        Ok(vec![play("a", "b", Move::Rock, Move::Rock), play("a", "b", Move::Paper, Move::Paper)])
    );
}

#[test]
fn a_later_declaration_replaces_the_rivals() {
    assert_eq!(
        plays_of("'a' vs 'b' rock-paper 'c' vs 'd' scissors-rock paper-paper"),
        Ok(vec![
            play("a", "b", Move::Rock, Move::Paper),
            play("c", "d", Move::Scissors, Move::Rock),
            play("c", "d", Move::Paper, Move::Paper),
        ])
    );
    assert_eq!(
        plays_of("'a' vs 'b' 'c' vs 'd' rock-rock"),
        Ok(vec![play("c", "d", Move::Rock, Move::Rock)])
    );
}

#[test]
fn a_session_of_several_declarations_and_duels() {
    assert_eq!(
        plays_of(
            "'yedaya' vs 'john' paper ~scIssors\nrock-rock 'jake'  vs  'percy' paper-paper rock-rock"
        ),
        Ok(vec![
            play("yedaya", "john", Move::Paper, Move::Scissors),
            play("yedaya", "john", Move::Rock, Move::Rock),
            play("jake", "percy", Move::Paper, Move::Paper),
            play("jake", "percy", Move::Rock, Move::Rock),
        ])
    );
}

#[test]
fn names_may_be_empty_or_hold_spaces() {
    assert_eq!(
        plays_of("'' vs 'mary ann' rock-paper"),
        Ok(vec![play("", "mary ann", Move::Rock, Move::Paper)])
    );
}

#[test]
fn no_duels_make_no_plays() {
    assert_eq!(plays_of(""), Ok(vec![]));
    assert_eq!(plays_of("'a' vs 'b'"), Ok(vec![]));
}

#[test]
fn stray_signs_and_vs_mean_nothing() {
    assert_eq!(plays_of("- ~ vs vs -"), Ok(vec![]));
    assert_eq!(
        plays_of("vs 'a' vs 'b' - rock-rock ~ vs"),
        Ok(vec![play("a", "b", Move::Rock, Move::Rock)])
    );
}

#[test]
fn moves_without_a_sign_are_refused() {
    assert_eq!(plays_of("rock rock"), Err(PlayError::MissingSeparator { position: 0 }));
    assert_eq!(
        plays_of("'a' vs 'b' rock paper"),
        Err(PlayError::MissingSeparator { position: 3 })
    );
    assert_eq!(plays_of("'a' vs 'b' rock"), Err(PlayError::MissingSeparator { position: 3 }));
    assert_eq!(plays_of("'a' vs 'b' rock vs"), Err(PlayError::MissingSeparator { position: 3 }));
}

#[test]
fn a_move_and_a_sign_without_a_second_move_are_refused() {
    assert_eq!(plays_of("'a' vs 'b' rock-"), Err(PlayError::IncompletePlay { position: 3 }));
    assert_eq!(plays_of("'a' vs 'b' rock - -"), Err(PlayError::IncompletePlay { position: 3 }));
    assert_eq!(plays_of("'a' vs 'b' rock ~ 'c'"), Err(PlayError::IncompletePlay { position: 3 }));
    assert_eq!(
        plays_of("'a' vs 'b' rock-rock paper~"),
        Err(PlayError::IncompletePlay { position: 6 })
    );
}

#[test]
fn a_rival_without_vs_is_refused() {
    assert_eq!(plays_of("'a'"), Err(PlayError::ExpectedVs { position: 0 }));
    assert_eq!(plays_of("'a' 'b'"), Err(PlayError::ExpectedVs { position: 0 }));
    assert_eq!(plays_of("'a' rock-rock"), Err(PlayError::ExpectedVs { position: 0 }));
    assert_eq!(
        plays_of("'a' vs 'b' rock-rock 'c' - 'd'"),
        Err(PlayError::ExpectedVs { position: 6 })
    );
}

#[test]
fn a_rival_and_vs_without_a_second_rival_are_refused() {
    assert_eq!(plays_of("'a' vs"), Err(PlayError::ExpectedRival { position: 0 }));
    assert_eq!(plays_of("'a' vs rock-rock"), Err(PlayError::ExpectedRival { position: 0 }));
    assert_eq!(plays_of("'a' vs vs 'b'"), Err(PlayError::ExpectedRival { position: 0 }));
}

#[test]
fn a_duel_before_any_declaration_is_refused() {
    assert_eq!(plays_of("rock-paper"), Err(PlayError::UndeclaredRivals { position: 0 }));
    assert_eq!(
        plays_of("vs rock-paper 'a' vs 'b'"),
        Err(PlayError::UndeclaredRivals { position: 1 })
    );
}

#[test]
fn the_first_failure_of_the_tokens_is_the_one_reported() {
    assert_eq!(plays_of("rock- 'a'"), Err(PlayError::IncompletePlay { position: 0 }));
    assert_eq!(plays_of("'a' rock rock"), Err(PlayError::ExpectedVs { position: 0 }));
    assert_eq!(
        plays_of("'a' vs 'b' rock-rock rock rock 'c'"),
        Err(PlayError::MissingSeparator { position: 6 })
    );
}

#[test]
fn plays_are_made_from_tokens_built_by_hand() {
    let tokens = vec![
        Token::new(TokenType::Rival, "left".to_string()),
        Token::new(TokenType::Vs, "VS".to_string()),
        Token::new(TokenType::Rival, "right".to_string()),
        Token::new(TokenType::Move(Move::Scissors), "SCISSORS".to_string()),
        Token::new(TokenType::PlaySeparator, "~".to_string()),
        Token::new(TokenType::Move(Move::Paper), "Paper".to_string()),
    ];
    let mut generator = PlayGenerator::new(&tokens);
    assert_eq!(
        generator.create_plays(),
        Ok(vec![play("left", "right", Move::Scissors, Move::Paper)])
    );
}

#[test]
fn a_generator_that_has_finished_makes_no_more_plays() {
    let tokens = tokens_of("'a' vs 'b' rock-rock");
    let mut generator = PlayGenerator::new(&tokens);
    assert_eq!(generator.create_plays().map(|plays| plays.len()), Ok(1));
    assert_eq!(generator.create_plays(), Ok(vec![]));
}

#[test]
fn a_generator_that_has_failed_fails_again() {
    let tokens = tokens_of("'a' vs 'b' rock-rock paper paper");
    let mut generator = PlayGenerator::new(&tokens);
    assert_eq!(generator.create_plays(), Err(PlayError::MissingSeparator { position: 6 }));
    assert_eq!(generator.create_plays(), Err(PlayError::MissingSeparator { position: 6 }));
}
