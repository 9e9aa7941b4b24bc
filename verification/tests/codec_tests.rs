//! Move-codec round trips and bitfield widths.

use skat_core::cards::{Card, CardValue, OptCard, Suit};
use skat_core::codec::{
    count_bits, decode_card, decode_declaration_move, decode_opt_card, encode_card,
    encode_declaration_move, encode_opt_card, DeclarationMove, HIDDEN_CODE, OVERBIDDEN_CODE,
};
use skat_core::decl::{Declaration, GameLevel, NormalMode};

fn all_declarations() -> Vec<Declaration> {
    let mut all = vec![
        Declaration::Null,
        Declaration::NullHand,
        Declaration::NullOuvert,
        Declaration::NullOuvertHand,
    ];
    for mode in [
        NormalMode::Color(Suit::Clubs),
        NormalMode::Color(Suit::Spades),
        NormalMode::Color(Suit::Hearts),
        NormalMode::Color(Suit::Diamonds),
        NormalMode::Grand,
    ] {
        for level in [
            GameLevel::Normal,
            GameLevel::Hand,
            GameLevel::Schneider,
            GameLevel::Schwarz,
            GameLevel::Ouvert,
        ] {
            all.push(Declaration::Normal(mode, level));
        }
    }
    all
}

#[test]
fn card_codes_round_trip() {
    for i in 0..32u64 {
        let card = decode_card(i).expect("index in range");
        assert_eq!(encode_card(card), i);
        assert_eq!(card.index() as u64, i);
    }
    assert!(decode_card(32).is_err());
    assert!(decode_card(u64::MAX).is_err());
}

#[test]
fn hidden_sentinel_round_trips() {
    assert_eq!(encode_opt_card(OptCard::Hidden), HIDDEN_CODE);
    assert_eq!(decode_opt_card(HIDDEN_CODE), Ok(OptCard::Hidden));
    for i in 0..32u64 {
        let oc = decode_opt_card(i).expect("card code");
        assert_eq!(encode_opt_card(oc), i);
        assert!(matches!(oc, OptCard::Known(_)));
    }
    assert!(decode_opt_card(33).is_err());
}

#[test]
fn declaration_moves_round_trip() {
    for d in all_declarations() {
        let m = DeclarationMove::Declare(d);
        let code = encode_declaration_move(m);
        assert_eq!(decode_declaration_move(code), Ok(m));
    }
    assert_eq!(
        encode_declaration_move(DeclarationMove::Overbidden),
        OVERBIDDEN_CODE
    );
    assert_eq!(
        decode_declaration_move(OVERBIDDEN_CODE),
        Ok(DeclarationMove::Overbidden)
    );
}

#[test]
fn null_declarations_use_literal_codes() {
    assert_eq!(
        encode_declaration_move(DeclarationMove::Declare(Declaration::Null)),
        0
    );
    assert_eq!(
        encode_declaration_move(DeclarationMove::Declare(Declaration::NullHand)),
        1
    );
    assert_eq!(
        encode_declaration_move(DeclarationMove::Declare(Declaration::NullOuvert)),
        2
    );
    assert_eq!(
        encode_declaration_move(DeclarationMove::Declare(Declaration::NullOuvertHand)),
        3
    );
}

#[test]
fn invalid_declaration_codes_are_rejected() {
    // bit 6 clear, or mode and level fields out of range
    for code in [4u64, 63, 64 + 5 * 8, 64 + 5, 129, 1_000_000] {
        assert!(decode_declaration_move(code).is_err(), "code {code}");
    }
}

#[test]
fn bit_widths_of_the_move_fields() {
    assert_eq!(count_bits(32), 5); // cards
    assert_eq!(count_bits(4), 2); // suits
    assert_eq!(count_bits(5), 3); // levels, and modes
    assert_eq!(count_bits(2), 1);
}

#[test]
fn every_card_index_is_distinct() {
    let mut seen = [false; 32];
    for v in [
        CardValue::Ace,
        CardValue::King,
        CardValue::Queen,
        CardValue::Jack,
        CardValue::Num10,
        CardValue::Num9,
        CardValue::Num8,
        CardValue::Num7,
    ] {
        for s in [Suit::Clubs, Suit::Spades, Suit::Hearts, Suit::Diamonds] {
            let idx = Card { value: v, suit: s }.index();
            assert!(!seen[idx]);
            seen[idx] = true;
        }
    }
    assert!(seen.iter().all(|&b| b));
}
