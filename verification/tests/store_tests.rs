//! Card store behaviour: taking with the hidden fallback, display
//! sorting, trump classification and the trick-winner rule.

use skat_core::cards::{Card, CardValue, OptCard, Player, Suit};
use skat_core::decl::{Declaration, GameLevel, NormalMode};
use skat_core::error::SkatError;
use skat_core::store::CardStruct;
use skat_core::trick::{trick_winner, TrumpSuit};

fn c(value: CardValue, suit: Suit) -> Card {
    Card { value, suit }
}

fn empty_store() -> CardStruct {
    CardStruct {
        hands: [Vec::new(), Vec::new(), Vec::new()],
        skat: Vec::new(),
        trick: Vec::new(),
        last_trick: None,
        played: [Vec::new(), Vec::new(), Vec::new()],
    }
}

#[test]
fn take_removes_the_card_or_a_hidden_stand_in() {
    let mut store = empty_store();
    let ace = c(CardValue::Ace, Suit::Clubs);
    let king = c(CardValue::King, Suit::Clubs);
    store.give(Some(Player::Forehand), OptCard::Known(ace));
    store.give(Some(Player::Forehand), OptCard::Hidden);

    // a known card leaves directly
    assert_eq!(store.take(Player::Forehand, OptCard::Known(ace)), Ok(()));
    assert_eq!(store.hand(Player::Forehand).len(), 1);

    // an unheld card consumes the hidden stand-in
    assert_eq!(store.take(Player::Forehand, OptCard::Known(king)), Ok(()));
    assert!(store.hand(Player::Forehand).is_empty());

    // nothing left to take
    assert_eq!(
        store.take(Player::Forehand, OptCard::Known(king)),
        Err(SkatError::InvalidMove)
    );
}

#[test]
fn taking_a_hidden_card_collapses_the_hand() {
    let mut store = empty_store();
    store.give(Some(Player::Rearhand), OptCard::Known(c(CardValue::Ace, Suit::Clubs)));
    store.give(Some(Player::Rearhand), OptCard::Known(c(CardValue::King, Suit::Clubs)));
    assert_eq!(store.take(Player::Rearhand, OptCard::Hidden), Ok(()));
    assert_eq!(store.hand(Player::Rearhand).len(), 1);
    assert_eq!(store.hand(Player::Rearhand)[0], OptCard::Hidden);
}

#[test]
fn sorting_puts_jacks_first_and_hidden_slots_last() {
    let mut store = empty_store();
    for card in [
        c(CardValue::Num7, Suit::Diamonds),
        c(CardValue::Jack, Suit::Diamonds),
        c(CardValue::Ace, Suit::Clubs),
        c(CardValue::Jack, Suit::Clubs),
    ] {
        store.give(Some(Player::Forehand), OptCard::Known(card));
    }
    store.give(Some(Player::Forehand), OptCard::Hidden);
    store.sort(false);
    let hand = store.hand(Player::Forehand);
    assert_eq!(hand[0], OptCard::Known(c(CardValue::Jack, Suit::Clubs)));
    assert_eq!(hand[1], OptCard::Known(c(CardValue::Jack, Suit::Diamonds)));
    assert_eq!(hand[2], OptCard::Known(c(CardValue::Ace, Suit::Clubs)));
    assert_eq!(hand[3], OptCard::Known(c(CardValue::Num7, Suit::Diamonds)));
    assert_eq!(hand[4], OptCard::Hidden);
}

#[test]
fn null_sorting_ranks_the_ten_between_jack_and_queen() {
    let mut store = empty_store();
    for card in [
        c(CardValue::Num10, Suit::Clubs),
        c(CardValue::Jack, Suit::Clubs),
        c(CardValue::Ace, Suit::Clubs),
    ] {
        store.give(None, OptCard::Known(card));
    }
    store.sort(true);
    assert_eq!(store.skat[0], OptCard::Known(c(CardValue::Ace, Suit::Clubs)));
    assert_eq!(store.skat[1], OptCard::Known(c(CardValue::Jack, Suit::Clubs)));
    assert_eq!(store.skat[2], OptCard::Known(c(CardValue::Num10, Suit::Clubs)));
}

#[test]
fn trump_classification_follows_the_declaration() {
    let hearts = Declaration::Normal(NormalMode::Color(Suit::Hearts), GameLevel::Normal);
    let grand = Declaration::Normal(NormalMode::Grand, GameLevel::Normal);
    let jack = c(CardValue::Jack, Suit::Spades);
    let heart = c(CardValue::Num9, Suit::Hearts);
    assert_eq!(jack.trump_suit(hearts), TrumpSuit::Trump);
    assert_eq!(heart.trump_suit(hearts), TrumpSuit::Trump);
    assert_eq!(jack.trump_suit(grand), TrumpSuit::Trump);
    assert_eq!(heart.trump_suit(grand), TrumpSuit::Color(Suit::Hearts));
    assert_eq!(jack.trump_suit(Declaration::Null), TrumpSuit::Color(Suit::Spades));
}

#[test]
fn the_highest_trump_takes_a_ruffed_trick() {
    let hearts = Declaration::Normal(NormalMode::Color(Suit::Hearts), GameLevel::Normal);
    // a spade lead, ruffed by the nine of hearts, overruffed by a jack
    let trick = vec![
        c(CardValue::Ace, Suit::Spades),
        c(CardValue::Num9, Suit::Hearts),
        c(CardValue::Jack, Suit::Diamonds),
    ];
    assert_eq!(trick_winner(&trick, hearts), 2);
}

#[test]
fn off_suit_cards_never_take_a_trick() {
    let grand = Declaration::Normal(NormalMode::Grand, GameLevel::Normal);
    // under Grand only jacks are trump; the off-suit ace changes nothing
    let trick = vec![
        c(CardValue::Num7, Suit::Spades),
        c(CardValue::Ace, Suit::Hearts),
        c(CardValue::Num8, Suit::Spades),
    ];
    assert_eq!(trick_winner(&trick, grand), 2);
}

#[test]
fn under_null_the_lead_suit_decides_by_plain_rank() {
    let trick = vec![
        c(CardValue::King, Suit::Clubs),
        c(CardValue::Jack, Suit::Clubs),
        c(CardValue::Ace, Suit::Hearts),
    ];
    assert_eq!(trick_winner(&trick, Declaration::Null), 0);
    let trick = vec![
        c(CardValue::Jack, Suit::Clubs),
        c(CardValue::Num10, Suit::Clubs),
        c(CardValue::Ace, Suit::Clubs),
    ];
    assert_eq!(trick_winner(&trick, Declaration::Null), 2);
}

#[test]
fn counting_tracks_the_managed_slots() {
    let mut store = empty_store();
    assert_eq!(store.count(), 0);
    store.give(Some(Player::Forehand), OptCard::Hidden);
    store.give(None, OptCard::Known(c(CardValue::Ace, Suit::Clubs)));
    assert_eq!(store.count(), 2);
}

#[test]
fn players_rotate_and_know_their_others() {
    assert_eq!(Player::Forehand.next(), Player::Middlehand);
    assert_eq!(Player::Middlehand.next(), Player::Rearhand);
    assert_eq!(Player::Rearhand.next(), Player::Forehand);
    assert_eq!(
        Player::Middlehand.others(),
        [Player::Forehand, Player::Rearhand]
    );
}
