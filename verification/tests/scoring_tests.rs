//! Final scoring: the multiplier formula, the Null penalty and the
//! overbid penalty, plus the monotone overbidding bound.

use skat_core::cards::{Card, OptCard, Player, Suit};
use skat_core::decl::{Declaration, GameLevel, Matadors, NormalMode};
use skat_core::game::{GameState, PlayingState, Skat};
use skat_core::store::CardStruct;

fn card(i: usize) -> Card {
    Card::of_index(i)
}

/// A late-deal position: all 30 hand cards already played, two in the
/// widow.  The declarer (forehand) played the three top jacks but not the
/// jack of diamonds, so every matador count starts from a three-jack run.
fn played_out(declaration: Declaration, bid: u16, dp: Option<u16>, tp: Option<u16>) -> Skat {
    let mut store = CardStruct {
        hands: [Vec::new(), Vec::new(), Vec::new()],
        skat: Vec::new(),
        trick: Vec::new(),
        last_trick: None,
        played: [Vec::new(), Vec::new(), Vec::new()],
    };
    // forehand: the jacks of clubs, spades and hearts, plus seven more
    for i in [12, 13, 14, 0, 1, 2, 4, 5, 6, 8] {
        store.played[0].push(card(i));
    }
    // middlehand: the jack of diamonds among ten others
    for i in [3, 7, 9, 10, 11, 15, 16, 17, 18, 19] {
        store.played[1].push(card(i));
    }
    // rearhand
    for i in [20, 21, 22, 23, 24, 25, 26, 27, 28, 29] {
        store.played[2].push(card(i));
    }
    store.skat.push(OptCard::Known(card(30)));
    store.skat.push(OptCard::Known(card(31)));
    Skat {
        cards: store,
        bid,
        declarer: Player::Forehand,
        declaration,
        state: GameState::Playing(PlayingState {
            player: Player::Forehand,
            declarer_points: dp,
            team_points: tp,
        }),
    }
}

#[test]
fn grand_hand_with_three_matadors_pays_five_times_the_base() {
    let game = played_out(
        Declaration::Normal(NormalMode::Grand, GameLevel::Hand),
        18,
        Some(61),
        Some(59),
    );
    // multiplier: 1 base + 1 hand + 3 matadors = 5; value 24 * 5 = 120
    assert_eq!(game.calculate_points(), 120);
}

#[test]
fn a_null_contract_is_lost_once_the_declarer_holds_points() {
    let game = played_out(Declaration::Null, 18, Some(7), Some(113));
    assert_eq!(game.calculate_points(), -2 * 23);
    let game = played_out(Declaration::Null, 18, Some(0), Some(120));
    assert_eq!(game.calculate_points(), -2 * 23);
}

#[test]
fn a_null_contract_without_declarer_tricks_pays_its_value() {
    let game = played_out(Declaration::Null, 18, None, Some(120));
    assert_eq!(game.calculate_points(), 23);
    let game = played_out(Declaration::NullOuvertHand, 18, None, Some(120));
    assert_eq!(game.calculate_points(), 59);
}

#[test]
fn winning_under_the_bid_costs_twice_the_bid() {
    // value 120 stays under an accepted bid of 144
    let game = played_out(
        Declaration::Normal(NormalMode::Grand, GameLevel::Hand),
        144,
        Some(61),
        Some(59),
    );
    assert_eq!(game.calculate_points(), -2 * 144);
}

#[test]
fn losing_a_regular_game_costs_twice_its_value() {
    let game = played_out(
        Declaration::Normal(NormalMode::Grand, GameLevel::Hand),
        18,
        Some(30), // declarer is even schneider
        Some(90),
    );
    // multiplier: 1 + 1 hand + 1 schneider + 3 matadors = 6; 24 * 6 = 144
    assert_eq!(game.calculate_points(), -2 * 144);
}

#[test]
fn schneider_and_schwarz_raise_the_multiplier() {
    // the opponents took nothing at all: schneider and schwarz achieved
    let game = played_out(
        Declaration::Normal(NormalMode::Grand, GameLevel::Hand),
        18,
        Some(120),
        None,
    );
    // 1 + 1 hand + 1 schneider + 1 schwarz + 3 matadors = 7; 24 * 7 = 168
    assert_eq!(game.calculate_points(), 168);
}

#[test]
fn matadors_count_held_and_missing_runs() {
    // holding the top three jacks: with three matadors
    let held = vec![card(12), card(13), card(14), card(0)];
    let mats = Matadors::from_cards(&held);
    assert_eq!(mats.get(NormalMode::Grand), 3);
    // clubs: jacks run stops at the jack of diamonds
    assert_eq!(mats.get(NormalMode::Color(Suit::Clubs)), 3);

    // missing the jack of clubs: counting absent trumps instead
    let held = vec![card(15), card(16)];
    let mats = Matadors::from_cards(&held);
    // jack of clubs, spades, hearts are missing, the jack of diamonds held
    assert_eq!(mats.get(NormalMode::Grand), 3);

    // holding everything of clubs: eleven matadors
    let held = vec![
        card(12),
        card(13),
        card(14),
        card(15),
        card(0),
        card(16),
        card(4),
        card(8),
        card(20),
        card(24),
        card(28),
    ];
    let mats = Matadors::from_cards(&held);
    assert_eq!(mats.get(NormalMode::Color(Suit::Clubs)), 11);
    assert_eq!(mats.get(NormalMode::Grand), 4);
}

#[test]
fn the_overbidding_bound_grows_with_the_level() {
    let held = vec![card(12), card(13), card(14), card(0)];
    let mats = Matadors::from_cards(&held);
    // clubs with three matadors: bound (3 + rank + 2) * 12
    let d = |level| Declaration::Normal(NormalMode::Color(Suit::Clubs), level);
    assert!(d(GameLevel::Normal).allowed(72, &mats));
    assert!(!d(GameLevel::Normal).allowed(73, &mats));
    // a bid a level supports is supported by every higher level
    for (low, high) in [
        (GameLevel::Normal, GameLevel::Hand),
        (GameLevel::Hand, GameLevel::Schneider),
        (GameLevel::Schneider, GameLevel::Schwarz),
        (GameLevel::Schwarz, GameLevel::Ouvert),
    ] {
        for bid in [18u16, 60, 72, 84, 96, 108] {
            if d(low).allowed(bid, &mats) {
                assert!(d(high).allowed(bid, &mats));
            }
        }
    }
}
