//! The textual move grammar: parsing in either case with free spacing at
//! the token borders, and canonical rendering.

use skat_core::cards::{Actor, Card, CardValue, OptCard, Player, Suit};
use skat_core::codec::DeclarationMove;
use skat_core::decl::{Declaration, GameLevel, NormalMode};
use skat_core::error::SkatError;
use skat_core::game::Skat;
use skat_core::text::{
    parse_bid_text, parse_card_text, parse_declaration_move_text, parse_opt_card_text,
    parse_skat_decision_text, render_card, render_declaration_move, render_opt_card, render_u64,
};

#[test]
fn card_tokens_parse_in_any_case() {
    assert_eq!(
        parse_card_text("10S"),
        Some(Card { value: CardValue::Num10, suit: Suit::Spades })
    );
    assert_eq!(
        parse_card_text("  aH "),
        Some(Card { value: CardValue::Ace, suit: Suit::Hearts })
    );
    assert_eq!(
        parse_card_text("Jc"),
        Some(Card { value: CardValue::Jack, suit: Suit::Clubs })
    );
    assert_eq!(parse_card_text("11S"), None);
    assert_eq!(parse_card_text("A"), None);
    assert_eq!(parse_card_text("AS extra"), None);
    assert_eq!(parse_card_text("?"), None);
}

#[test]
fn hidden_slots_parse_as_a_question_mark() {
    assert_eq!(parse_opt_card_text(" ? "), Some(OptCard::Hidden));
    assert_eq!(
        parse_opt_card_text("7d"),
        Some(OptCard::Known(Card { value: CardValue::Num7, suit: Suit::Diamonds }))
    );
    assert_eq!(parse_opt_card_text("??"), None);
}

#[test]
fn bidding_tokens_parse() {
    assert_eq!(parse_bid_text("pass"), Some(0));
    assert_eq!(parse_bid_text("PASS"), Some(0));
    assert_eq!(parse_bid_text("accept"), Some(1));
    assert_eq!(parse_bid_text("Yes"), Some(1));
    assert_eq!(parse_bid_text(" 24 "), Some(24));
    assert_eq!(parse_bid_text("264"), Some(264));
    assert_eq!(parse_bid_text("18446744073709551615"), Some(u64::MAX));
    assert_eq!(parse_bid_text("18446744073709551616"), None);
    assert_eq!(parse_bid_text("twenty"), None);
    assert_eq!(parse_bid_text("2 4"), None);
}

#[test]
fn skat_decision_tokens_parse() {
    assert_eq!(parse_skat_decision_text("hand"), Some(0));
    assert_eq!(parse_skat_decision_text("HAND"), Some(0));
    assert_eq!(parse_skat_decision_text("pick"), Some(1));
    assert_eq!(parse_skat_decision_text("fold"), None);
}

#[test]
fn declaration_tokens_parse() {
    assert_eq!(
        parse_declaration_move_text("cLubs"),
        Some(DeclarationMove::Declare(Declaration::Normal(
            NormalMode::Color(Suit::Clubs),
            GameLevel::Normal
        )))
    );
    assert_eq!(
        parse_declaration_move_text("null  Ouvert hand"),
        Some(DeclarationMove::Declare(Declaration::NullOuvertHand))
    );
    assert_eq!(
        parse_declaration_move_text("grand sChWaRz"),
        Some(DeclarationMove::Declare(Declaration::Normal(
            NormalMode::Grand,
            GameLevel::Schwarz
        )))
    );
    assert_eq!(
        parse_declaration_move_text("overbidden"),
        Some(DeclarationMove::Overbidden)
    );
    assert_eq!(
        parse_declaration_move_text("null"),
        Some(DeclarationMove::Declare(Declaration::Null))
    );
    assert_eq!(
        parse_declaration_move_text("null hand"),
        Some(DeclarationMove::Declare(Declaration::NullHand))
    );
    assert_eq!(
        parse_declaration_move_text("null ouvert"),
        Some(DeclarationMove::Declare(Declaration::NullOuvert))
    );
    // the level order is fixed, and made-up levels fail
    assert_eq!(parse_declaration_move_text("null hand ouvert"), None);
    assert_eq!(parse_declaration_move_text("grand offen"), None);
    assert_eq!(parse_declaration_move_text("hand"), None);
}

#[test]
fn rendering_is_canonical() {
    assert_eq!(
        render_card(Card { value: CardValue::Num10, suit: Suit::Spades }),
        "10S"
    );
    assert_eq!(
        render_card(Card { value: CardValue::Ace, suit: Suit::Clubs }),
        "AC"
    );
    assert_eq!(render_opt_card(OptCard::Hidden), "?");
    assert_eq!(render_u64(0), "0");
    assert_eq!(render_u64(264), "264");
    assert_eq!(render_u64(18446744073709551615), "18446744073709551615");
    assert_eq!(
        render_declaration_move(DeclarationMove::Declare(Declaration::Normal(
            NormalMode::Grand,
            GameLevel::Schwarz
        ))),
        "grand Schwarz"
    );
    assert_eq!(
        render_declaration_move(DeclarationMove::Declare(Declaration::NullOuvertHand)),
        "Null Ouvert Hand"
    );
    assert_eq!(
        render_declaration_move(DeclarationMove::Overbidden),
        "overbidden"
    );
}

#[test]
fn every_card_round_trips_through_its_text() {
    for i in 0..32 {
        let c = Card::of_index(i);
        let text = render_card(c);
        assert_eq!(parse_card_text(&text), Some(c));
        assert_eq!(parse_card_text(&text.to_lowercase()), Some(c));
    }
}

#[test]
fn move_text_follows_the_phase() {
    let mut game = Skat::new();
    assert_eq!(game.get_move_data("10S"), Ok(17)); // card index while dealing
    assert_eq!(game.get_move_data("?"), Ok(32));
    assert_eq!(game.get_move_data("pass"), Err(SkatError::InvalidInput));
    assert_eq!(game.get_move_str(17), Ok(String::from("10S")));
    assert_eq!(game.get_move_str(32), Ok(String::from("?")));

    for i in 0..32u64 {
        game.make_move(Actor::Environment, i).unwrap();
    }
    // now bidding: numbers and the fixed words
    assert_eq!(game.get_move_data("18"), Ok(18));
    assert_eq!(game.get_move_data("Accept"), Ok(1));
    assert_eq!(game.get_move_data("10S"), Err(SkatError::InvalidInput));
    assert_eq!(game.get_move_str(0), Ok(String::from("pass")));
    assert_eq!(game.get_move_str(1), Ok(String::from("accept")));
    assert_eq!(game.get_move_str(22), Ok(String::from("22")));

    game.make_move(Actor::Seat(Player::Middlehand), 18).unwrap();
    game.make_move(Actor::Seat(Player::Forehand), 0).unwrap();
    game.make_move(Actor::Seat(Player::Rearhand), 0).unwrap();
    // the widow decision
    assert_eq!(game.get_move_data("hand"), Ok(0));
    assert_eq!(game.get_move_data("pick"), Ok(1));
    assert_eq!(game.get_move_str(0), Ok(String::from("Hand")));
    assert_eq!(game.get_move_str(1), Ok(String::from("pick")));

    game.make_move(Actor::Seat(Player::Middlehand), 0).unwrap();
    // declaring
    assert_eq!(game.get_move_data("null hand"), Ok(1));
    assert_eq!(game.get_move_str(1), Ok(String::from("Null Hand")));
    assert_eq!(game.get_move_data("nonsense"), Err(SkatError::InvalidInput));
}
