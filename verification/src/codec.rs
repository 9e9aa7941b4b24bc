//! The move codec: every move travels as one fixed-width unsigned integer
//! whose reading depends on the current phase.
//!
//! Card moves use the card's stable 0..32 index; one bit above those five
//! marks the hidden placeholder.  Declaration moves put the four Null games
//! at the literal codes 0..4, set bit 6 for a regular game with a 3-bit mode
//! field above a 3-bit level field, and reserve one bit above all of these
//! for the overbidden outcome.

use vstd::prelude::*;
use crate::cards::{Card, OptCard, Suit};
use crate::decl::{Declaration, GameLevel, NormalMode};
use crate::error::SkatError;

verus! {

/// Move code of the hidden-card placeholder: one above the 5 bits that
/// 32 cards need.
pub const HIDDEN_CODE: u64 = 32;

/// Move code of the overbidden outcome: one above the 7 bits a declaration
/// needs.
pub const OVERBIDDEN_CODE: u64 = 128;

/// Chosen at declaration time: a contract, or the admission that the
/// accepted bid can no longer be satisfied.
#[derive(Clone, Copy, PartialEq, Eq, Structural, Debug)]
pub enum DeclarationMove {
    Declare(Declaration),
    Overbidden,
}

pub open spec fn spec_card_code(c: Card) -> u64 {
    c.spec_index() as u64
}

pub open spec fn spec_decode_card(m: u64) -> Option<Card> {
    if m < 32 {
        Some(Card::from_index(m as int))
    } else {
        None
    }
}

pub open spec fn spec_opt_card_code(oc: OptCard) -> u64 {
    match oc {
        OptCard::Hidden => HIDDEN_CODE,
        OptCard::Known(c) => spec_card_code(c),
    }
}

pub open spec fn spec_decode_opt_card(m: u64) -> Option<OptCard> {
    if m == HIDDEN_CODE {
        Some(OptCard::Hidden)
    } else {
        match spec_decode_card(m) {
            Some(c) => Some(OptCard::Known(c)),
            None => None,
        }
    }
}

pub open spec fn spec_mode_code(mode: NormalMode) -> u64 {
    match mode {
        NormalMode::Color(s) => s.ordinal() as u64,
        NormalMode::Grand => 4,
    }
}

pub open spec fn spec_decode_mode(m: u64) -> Option<NormalMode> {
    if m < 4 {
        Some(NormalMode::Color(Suit::from_ordinal(m as int)))
    } else if m == 4 {
        Some(NormalMode::Grand)
    } else {
        None
    }
}

pub open spec fn spec_level_code(level: GameLevel) -> u64 {
    (level.spec_rank() - 1) as u64
}

pub open spec fn spec_decode_level(m: u64) -> Option<GameLevel> {
    if m == 0 {
        Some(GameLevel::Normal)
    } else if m == 1 {
        Some(GameLevel::Hand)
    } else if m == 2 {
        Some(GameLevel::Schneider)
    } else if m == 3 {
        Some(GameLevel::Schwarz)
    } else if m == 4 {
        Some(GameLevel::Ouvert)
    } else {
        None
    }
}

pub open spec fn spec_declaration_code(d: Declaration) -> u64 {
    match d {
        Declaration::Normal(mode, level) => (64 + spec_mode_code(mode) * 8 + spec_level_code(
            level,
        )) as u64,
        Declaration::Null => 0,
        Declaration::NullHand => 1,
        Declaration::NullOuvert => 2,
        Declaration::NullOuvertHand => 3,
    }
}

pub open spec fn spec_decode_declaration(m: u64) -> Option<Declaration> {
    if m == 0 {
        Some(Declaration::Null)
    } else if m == 1 {
        Some(Declaration::NullHand)
    } else if m == 2 {
        Some(Declaration::NullOuvert)
    } else if m == 3 {
        Some(Declaration::NullOuvertHand)
    } else if m >= 128 || (m / 64) % 2 == 0 {
        None
    } else {
        match (spec_decode_mode((m / 8) % 8), spec_decode_level(m % 8)) {
            (Some(mode), Some(level)) => Some(Declaration::Normal(mode, level)),
            _ => None,
        }
    }
}

pub open spec fn spec_declaration_move_code(dm: DeclarationMove) -> u64 {
    match dm {
        DeclarationMove::Declare(d) => spec_declaration_code(d),
        DeclarationMove::Overbidden => OVERBIDDEN_CODE,
    }
}

pub open spec fn spec_decode_declaration_move(m: u64) -> Option<DeclarationMove> {
    if m == OVERBIDDEN_CODE {
        Some(DeclarationMove::Overbidden)
    } else {
        match spec_decode_declaration(m) {
            Some(d) => Some(DeclarationMove::Declare(d)),
            None => None,
        }
    }
}

/// The move code of a concrete card: its stable index.
pub fn encode_card(c: Card) -> (r: u64)
    ensures
        r == spec_card_code(c),
{
    c.index() as u64
}

/// Reads a card move; codes of 32 and above are no card.
pub fn decode_card(m: u64) -> (r: Result<Card, SkatError>)
    ensures
        r == (match spec_decode_card(m) {
            Some(c) => Ok::<Card, SkatError>(c),
            None => Err::<Card, SkatError>(SkatError::InvalidMove),
        }),
{
    if m < 32 {
        Ok(Card::of_index(m as usize))
    } else {
        Err(SkatError::InvalidMove)
    }
}

/// The move code of a card slot, hidden or known.
pub fn encode_opt_card(oc: OptCard) -> (r: u64)
    ensures
        r == spec_opt_card_code(oc),
{
    match oc {
        OptCard::Hidden => HIDDEN_CODE,
        OptCard::Known(c) => encode_card(c),
    }
}

/// Reads a card-or-hidden move.
pub fn decode_opt_card(m: u64) -> (r: Result<OptCard, SkatError>)
    ensures
        r == (match spec_decode_opt_card(m) {
            Some(oc) => Ok::<OptCard, SkatError>(oc),
            None => Err::<OptCard, SkatError>(SkatError::InvalidMove),
        }),
{
    if m == HIDDEN_CODE {
        Ok(OptCard::Hidden)
    } else {
        match decode_card(m) {
            Ok(c) => Ok(OptCard::Known(c)),
            Err(e) => Err(e),
        }
    }
}

fn encode_mode(mode: NormalMode) -> (r: u64)
    ensures
        r == spec_mode_code(mode),
{
    match mode {
        NormalMode::Color(s) => s.index() as u64,
        NormalMode::Grand => 4,
    }
}

fn decode_mode(m: u64) -> (r: Result<NormalMode, SkatError>)
    ensures
        r == (match spec_decode_mode(m) {
            Some(mode) => Ok::<NormalMode, SkatError>(mode),
            None => Err::<NormalMode, SkatError>(SkatError::InvalidMove),
        }),
{
    match m {
        0 => Ok(NormalMode::Color(Suit::Clubs)),
        1 => Ok(NormalMode::Color(Suit::Spades)),
        2 => Ok(NormalMode::Color(Suit::Hearts)),
        3 => Ok(NormalMode::Color(Suit::Diamonds)),
        4 => Ok(NormalMode::Grand),
        _ => Err(SkatError::InvalidMove),
    }
}

fn decode_level(m: u64) -> (r: Result<GameLevel, SkatError>)
    ensures
        r == (match spec_decode_level(m) {
            Some(level) => Ok::<GameLevel, SkatError>(level),
            None => Err::<GameLevel, SkatError>(SkatError::InvalidMove),
        }),
{
    match m {
        0 => Ok(GameLevel::Normal),
        1 => Ok(GameLevel::Hand),
        2 => Ok(GameLevel::Schneider),
        3 => Ok(GameLevel::Schwarz),
        4 => Ok(GameLevel::Ouvert),
        _ => Err(SkatError::InvalidMove),
    }
}

/// The move code of a declaration.
pub fn encode_declaration(d: Declaration) -> (r: u64)
    ensures
        r == spec_declaration_code(d),
{
    match d {
        Declaration::Normal(mode, level) => 64 + encode_mode(mode) * 8 + (level.rank() as u64 - 1),
        Declaration::Null => 0,
        Declaration::NullHand => 1,
        Declaration::NullOuvert => 2,
        Declaration::NullOuvertHand => 3,
    }
}

/// Reads a declaration move code.
pub fn decode_declaration(m: u64) -> (r: Result<Declaration, SkatError>)
    ensures
        r == (match spec_decode_declaration(m) {
            Some(d) => Ok::<Declaration, SkatError>(d),
            None => Err::<Declaration, SkatError>(SkatError::InvalidMove),
        }),
{
    if m == 0 {
        Ok(Declaration::Null)
    } else if m == 1 {
        Ok(Declaration::NullHand)
    } else if m == 2 {
        Ok(Declaration::NullOuvert)
    } else if m == 3 {
        Ok(Declaration::NullOuvertHand)
    } else if m >= 128 || (m / 64) % 2 == 0 {
        Err(SkatError::InvalidMove)
    } else {
        let mode = match decode_mode((m / 8) % 8) {
            Ok(mode) => mode,
            Err(e) => {
                return Err(e);
            },
        };
        match decode_level(m % 8) {
            Ok(level) => Ok(Declaration::Normal(mode, level)),
            Err(e) => Err(e),
        }
    }
}

/// The move code of a declaration move.
pub fn encode_declaration_move(dm: DeclarationMove) -> (r: u64)
    ensures
        r == spec_declaration_move_code(dm),
{
    match dm {
        DeclarationMove::Declare(d) => encode_declaration(d),
        DeclarationMove::Overbidden => OVERBIDDEN_CODE,
    }
}

/// Reads a declaration-or-overbidden move code.
pub fn decode_declaration_move(m: u64) -> (r: Result<DeclarationMove, SkatError>)
    ensures
        r == (match spec_decode_declaration_move(m) {
            Some(dm) => Ok::<DeclarationMove, SkatError>(dm),
            None => Err::<DeclarationMove, SkatError>(SkatError::InvalidMove),
        }),
{
    if m == OVERBIDDEN_CODE {
        Ok(DeclarationMove::Overbidden)
    } else {
        match decode_declaration(m) {
            Ok(d) => Ok(DeclarationMove::Declare(d)),
            Err(e) => Err(e),
        }
    }
}

/// Two to the given power.
pub open spec fn pow2(e: int) -> int
    decreases e,
{
    if e <= 0 {
        1
    } else {
        2 * pow2(e - 1)
    }
}

/// Returns the number of bits needed to tell `count` states apart: the
/// smallest width whose range covers them.
pub fn count_bits(count: u64) -> (r: u32)
    requires
        2 <= count <= 65536,
    ensures
        pow2(r as int) >= count,
        pow2(r as int - 1) < count,
        1 <= r <= 17,
{
    let mut r: u32 = 1;
    let mut cap: u64 = 2;
    proof {
        reveal_with_fuel(pow2, 3);
        assert(pow2(1) == 2);
    }
    while cap < count
        invariant
            1 <= r <= 17,
            2 <= count <= 65536,
            cap == pow2(r as int),
            pow2(r as int - 1) < count,
        decreases 17 - r,
    {
        proof {
            if r >= 17 {
                reveal_with_fuel(pow2, 20);
                assert(pow2(17) == 131072);
                assert(false);
            }
        }
        cap = cap * 2;
        r = r + 1;
    }
    r
}

/// Decoding the encoding of any concrete card returns that card.
pub proof fn lemma_card_code_round_trip(c: Card)
    ensures
        spec_decode_card(spec_card_code(c)) == Some(c),
{
}

/// Decoding the encoding of any card slot, the hidden placeholder included,
/// returns that slot.
pub proof fn lemma_opt_card_code_round_trip(oc: OptCard)
    ensures
        spec_decode_opt_card(spec_opt_card_code(oc)) == Some(oc),
{
}

/// Decoding the encoding of any declaration move, the overbidden outcome
/// included, returns that move.
pub proof fn lemma_declaration_move_round_trip(dm: DeclarationMove)
    ensures
        spec_decode_declaration_move(spec_declaration_move_code(dm)) == Some(dm),
{
    match dm {
        DeclarationMove::Declare(Declaration::Normal(mode, level)) => {
            let mc = spec_mode_code(mode);
            let lc = spec_level_code(level);
            let m = spec_declaration_code(Declaration::Normal(mode, level));
            assert(mc <= 4 && lc <= 4);
            assert(m == 64 + mc * 8 + lc);
            assert((m / 64) % 2 == 1);
            assert((m / 8) % 8 == mc);
            assert(m % 8 == lc);
        },
        _ => {},
    }
}

} // verus!
