//! End-to-end deals: dealing, the bidding table's terminal outcomes, the
//! widow phases, declaring and trick play.

use skat_core::cards::{Actor, OptCard, Player};
use skat_core::codec::HIDDEN_CODE;
use skat_core::error::SkatError;
use skat_core::game::{GameState, Skat};

const ENV: Actor = Actor::Environment;
const FORE: Actor = Actor::Seat(Player::Forehand);
const MID: Actor = Actor::Seat(Player::Middlehand);
const REAR: Actor = Actor::Seat(Player::Rearhand);

/// Deal the 32 cards in stable index order.
fn dealt() -> Skat {
    let mut game = Skat::new();
    for i in 0..32u64 {
        game.make_move(ENV, i).expect("dealing a fresh card");
    }
    game
}

#[test]
fn dealing_fills_all_hands_and_the_widow() {
    let game = dealt();
    assert!(matches!(game.state, GameState::Bidding(_)));
    for p in [Player::Forehand, Player::Middlehand, Player::Rearhand] {
        assert_eq!(game.cards.hand(p).len(), 10);
    }
    assert_eq!(game.cards.skat.len(), 2);
    // every pair appears exactly once: 32 known cards, all distinct
    let known = game.cards.known_cards();
    assert_eq!(known.len(), 32);
    let mut seen = [false; 32];
    for c in &known {
        assert!(!seen[c.index()]);
        seen[c.index()] = true;
    }
    assert_eq!(game.cards.undealt_cards().len(), 0);
}

#[test]
fn dealing_rejects_duplicates_and_wrong_actors() {
    let mut game = Skat::new();
    assert_eq!(game.make_move(FORE, 0), Err(SkatError::InvalidPlayer));
    game.make_move(ENV, 0).unwrap();
    assert_eq!(game.make_move(ENV, 0), Err(SkatError::InvalidMove));
    // a hidden slot is always acceptable while dealing
    game.make_move(ENV, HIDDEN_CODE).unwrap();
}

#[test]
fn bidding_ends_at_forehand_after_a_contested_raise() {
    let mut game = dealt();
    game.make_move(MID, 18).unwrap(); // middlehand calls 18
    game.make_move(FORE, 1).unwrap(); // forehand accepts
    game.make_move(MID, 0).unwrap(); // middlehand passes
    game.make_move(REAR, 0).unwrap(); // rearhand passes with a bid made
    assert!(matches!(game.state, GameState::SkatDecision));
    assert_eq!(game.declarer, Player::Forehand);
    assert_eq!(game.bid, 18);
}

#[test]
fn bidding_ends_at_rearhand_after_its_raise_stands() {
    let mut game = dealt();
    game.make_move(MID, 18).unwrap();
    game.make_move(FORE, 0).unwrap(); // forehand passes
    game.make_move(REAR, 20).unwrap(); // rearhand calls 20 to middlehand
    game.make_move(MID, 0).unwrap(); // middlehand passes
    assert!(matches!(game.state, GameState::SkatDecision));
    assert_eq!(game.declarer, Player::Rearhand);
    assert_eq!(game.bid, 20);
}

#[test]
fn bidding_ends_at_middlehand_when_rearhand_stays_out() {
    let mut game = dealt();
    game.make_move(MID, 18).unwrap();
    game.make_move(FORE, 0).unwrap();
    game.make_move(REAR, 0).unwrap(); // rearhand passes middlehand's bid
    assert!(matches!(game.state, GameState::SkatDecision));
    assert_eq!(game.declarer, Player::Middlehand);
    assert_eq!(game.bid, 18);
}

#[test]
fn bidding_falls_back_to_forehand_without_any_bid() {
    let mut game = dealt();
    game.make_move(MID, 0).unwrap();
    game.make_move(REAR, 0).unwrap();
    game.make_move(FORE, 1).unwrap(); // forehand decides to play
    assert!(matches!(game.state, GameState::SkatDecision));
    assert_eq!(game.declarer, Player::Forehand);
}

#[test]
fn bidding_ends_in_a_draw_when_all_pass() {
    let mut game = dealt();
    game.make_move(MID, 0).unwrap();
    game.make_move(REAR, 0).unwrap();
    game.make_move(FORE, 0).unwrap();
    match &game.state {
        GameState::Finished(winners) => assert!(winners.is_empty()),
        other => panic!("expected a draw, found {other:?}"),
    }
}

#[test]
fn bidding_rejects_low_bids_and_out_of_turn_statements() {
    let mut game = dealt();
    assert_eq!(game.make_move(FORE, 18), Err(SkatError::InvalidPlayer));
    assert_eq!(game.make_move(MID, 17), Err(SkatError::InvalidMove));
    assert_eq!(game.make_move(MID, 265), Err(SkatError::InvalidMove));
    game.make_move(MID, 264).unwrap();
    // the response may only pass or accept
    assert_eq!(game.make_move(FORE, 2), Err(SkatError::InvalidMove));
}

/// A full Null Hand deal lost on the first trick the declarer takes.
#[test]
fn null_hand_deal_ends_when_the_declarer_takes_a_trick() {
    let mut game = dealt();
    game.make_move(MID, 18).unwrap();
    game.make_move(FORE, 0).unwrap();
    game.make_move(REAR, 0).unwrap();
    assert_eq!(game.declarer, Player::Middlehand);

    game.make_move(MID, 0).unwrap(); // play without the widow
    assert!(matches!(game.state, GameState::Declaring));

    let code = game.get_move_data("null hand").unwrap();
    assert_eq!(code, 1);
    game.make_move(MID, code).unwrap();
    assert!(matches!(game.state, GameState::Playing(_)));

    // forehand leads the eight of clubs; the declarer's king takes it
    game.make_move(FORE, game.get_move_data("8C").unwrap()).unwrap();
    game.make_move(MID, game.get_move_data("KC").unwrap()).unwrap();
    game.make_move(REAR, game.get_move_data("QC").unwrap()).unwrap();

    match &game.state {
        GameState::Finished(winners) => {
            assert_eq!(winners.as_slice(), &[Player::Forehand, Player::Rearhand]);
        },
        other => panic!("expected the deal to end, found {other:?}"),
    }
}

#[test]
fn following_suit_is_enforced() {
    let mut game = dealt();
    game.make_move(MID, 18).unwrap();
    game.make_move(FORE, 0).unwrap();
    game.make_move(REAR, 0).unwrap();
    game.make_move(MID, 0).unwrap();
    game.make_move(MID, game.get_move_data("null hand").unwrap()).unwrap();

    // forehand leads a club, so the declarer must follow with a club
    game.make_move(FORE, game.get_move_data("8C").unwrap()).unwrap();
    let err = game.make_move(MID, game.get_move_data("AD").unwrap());
    assert_eq!(err, Err(SkatError::InvalidMove));
    let moves = game.get_concrete_moves();
    for m in &moves {
        let text = game.get_move_str(*m).unwrap();
        assert!(text.ends_with('C'), "offered {text} off suit");
    }
}

#[test]
fn picking_and_putting_move_the_widow_through_the_declarer() {
    let mut game = dealt();
    game.make_move(MID, 18).unwrap();
    game.make_move(FORE, 0).unwrap();
    game.make_move(REAR, 0).unwrap();
    game.make_move(MID, 1).unwrap(); // pick up the widow
    assert!(matches!(game.state, GameState::Picking));

    // the widow holds the queens of spades and hearts, picked top-down
    let top = game.get_concrete_moves();
    assert_eq!(top.len(), 1);
    game.make_move(ENV, top[0]).unwrap();
    let top = game.get_concrete_moves();
    assert_eq!(top.len(), 1);
    game.make_move(ENV, top[0]).unwrap();
    assert!(matches!(game.state, GameState::Putting));
    assert_eq!(game.cards.hand(Player::Middlehand).len(), 12);

    // put two cards back
    game.make_move(MID, game.get_move_data("QS").unwrap()).unwrap();
    game.make_move(MID, game.get_move_data("QH").unwrap()).unwrap();
    assert!(matches!(game.state, GameState::Declaring));
    assert_eq!(game.cards.hand(Player::Middlehand).len(), 10);
    assert_eq!(game.cards.skat.len(), 2);

    // a Hand game can no longer be declared
    assert_eq!(
        game.make_move(MID, game.get_move_data("null hand").unwrap()),
        Err(SkatError::InvalidMove)
    );
    game.make_move(MID, game.get_move_data("null").unwrap()).unwrap();
    assert!(matches!(game.state, GameState::Playing(_)));
}

#[test]
fn finished_deals_take_no_further_moves() {
    let mut game = dealt();
    game.make_move(MID, 0).unwrap();
    game.make_move(REAR, 0).unwrap();
    game.make_move(FORE, 0).unwrap();
    assert_eq!(game.make_move(FORE, 0), Err(SkatError::InvalidState));
    assert_eq!(game.get_random_move(7), Err(SkatError::InvalidState));
    assert!(game.get_concrete_moves().is_empty());
    assert_eq!(game.players_to_move(), None);
}

#[test]
fn random_moves_come_from_the_enumerated_list() {
    let game = dealt();
    let moves = game.get_concrete_moves();
    for seed in [0u64, 1, 7, 1_000_003] {
        let m = game.get_random_move(seed).unwrap();
        assert_eq!(m, moves[(seed as usize) % moves.len()]);
    }
}

#[test]
fn observers_see_hidden_codes_for_cards_dealt_to_others() {
    let game = Skat::new();
    // position 0 goes to forehand: middlehand must not learn it
    assert_eq!(game.move_to_action(ENV, 5, FORE), 5);
    assert_eq!(game.move_to_action(ENV, 5, MID), HIDDEN_CODE);
    assert_eq!(game.move_to_action(ENV, 5, ENV), 5);
}

#[test]
fn an_ouvert_contract_reveals_the_declarer_hand_before_play() {
    let mut game = dealt();
    game.make_move(MID, 18).unwrap();
    game.make_move(FORE, 0).unwrap();
    game.make_move(REAR, 0).unwrap();
    game.make_move(MID, 0).unwrap(); // hand game
    let code = game.get_move_data("grand ouvert").unwrap();
    game.make_move(MID, code).unwrap();
    assert!(matches!(game.state, GameState::Revealing(0)));
    for step in 0..10usize {
        assert!(matches!(game.state, GameState::Revealing(i) if i == step));
        // each step offers exactly the true card of the next slot
        let moves = game.get_concrete_moves();
        assert_eq!(moves.len(), 1);
        // a different card is rejected
        let wrong = (moves[0] + 1) % 32;
        assert_eq!(game.make_move(MID, wrong), Err(SkatError::InvalidMove));
        game.make_move(MID, moves[0]).unwrap();
    }
    assert!(matches!(game.state, GameState::Playing(_)));
}

#[test]
fn cloned_deals_are_independent() {
    let original = dealt();
    let mut fork = original.deep_clone();
    fork.make_move(MID, 18).unwrap();
    fork.make_move(FORE, 0).unwrap();
    fork.make_move(REAR, 0).unwrap();
    assert!(matches!(fork.state, GameState::SkatDecision));
    assert!(matches!(original.state, GameState::Bidding(_)));
    assert_eq!(original.bid, 17);
    assert_eq!(fork.bid, 18);
    // copying back restores the position
    let mut third = Skat::new();
    third.copy_from(&original);
    assert!(matches!(third.state, GameState::Bidding(_)));
    assert_eq!(third.cards.known_cards().len(), 32);
}

#[test]
fn putting_moves_are_hidden_from_every_observer() {
    let mut game = dealt();
    game.make_move(MID, 18).unwrap();
    game.make_move(FORE, 0).unwrap();
    game.make_move(REAR, 0).unwrap();
    game.make_move(MID, 1).unwrap();
    let top = game.get_concrete_moves();
    game.make_move(ENV, top[0]).unwrap();
    // picking: only the declarer learns the picked card
    let top = game.get_concrete_moves();
    assert_eq!(game.move_to_action(ENV, top[0], MID), top[0]);
    assert_eq!(game.move_to_action(ENV, top[0], FORE), HIDDEN_CODE);
    game.make_move(ENV, top[0]).unwrap();
    // putting: nobody else learns what went back
    let code = game.get_move_data("QS").unwrap();
    assert_eq!(game.move_to_action(MID, code, FORE), HIDDEN_CODE);
    assert_eq!(game.move_to_action(MID, code, REAR), HIDDEN_CODE);
    assert_eq!(game.move_to_action(MID, code, MID), code);
}

#[test]
fn redaction_hides_other_hands_and_the_widow() {
    let mut game = dealt();
    game.redact_keep_state([true, false, false]);
    for oc in game.cards.hand(Player::Forehand).iter() {
        assert!(matches!(oc, OptCard::Known(_)));
    }
    for p in [Player::Middlehand, Player::Rearhand] {
        for oc in game.cards.hand(p).iter() {
            assert!(matches!(oc, OptCard::Hidden));
        }
    }
    for oc in game.cards.skat.iter() {
        assert!(matches!(oc, OptCard::Hidden));
    }
    // redacting again with the same observer set changes nothing
    let once = game.deep_clone();
    game.redact_keep_state([true, false, false]);
    for p in [Player::Forehand, Player::Middlehand, Player::Rearhand] {
        assert_eq!(game.cards.hand(p), once.cards.hand(p));
    }
    assert_eq!(game.cards.skat, once.cards.skat);
}

#[test]
fn redacted_states_offer_every_undealt_card() {
    let mut game = dealt();
    game.make_move(MID, 18).unwrap();
    game.make_move(FORE, 0).unwrap();
    game.make_move(REAR, 0).unwrap();
    game.make_move(MID, 0).unwrap();
    game.make_move(MID, 1).unwrap(); // null hand
    // an observer keeping only forehand's knowledge
    game.redact_keep_state([true, false, false]);
    match &game.state {
        GameState::Playing(ps) => assert_eq!(ps.player, Player::Forehand),
        other => panic!("expected play, found {other:?}"),
    }
    game.make_move(FORE, game.get_move_data("8C").unwrap()).unwrap();
    // the declarer's hand is hidden, so all 22 cards outside forehand's
    // knowledge are offered
    let moves = game.get_concrete_moves();
    assert_eq!(moves.len(), 22);
}
