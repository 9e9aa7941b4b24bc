//! Trump classification and the trick-winner rule.

use vstd::prelude::*;
use crate::cards::{Card, CardValue, Suit};
use crate::decl::{Declaration, NormalMode};

verus! {

/// How a card classifies under a declaration: a trump, or a plain card of
/// its suit.  Under Null declarations nothing is trump.
#[derive(Clone, Copy, PartialEq, Eq, Structural, Debug)]
pub enum TrumpSuit {
    Color(Suit),
    Trump,
}

impl Card {
    pub open spec fn spec_trump_suit(self, declaration: Declaration) -> TrumpSuit {
        match declaration {
            Declaration::Normal(mode, _) => if self.value == CardValue::Jack {
                TrumpSuit::Trump
            } else if mode == NormalMode::Color(self.suit) {
                TrumpSuit::Trump
            } else {
                TrumpSuit::Color(self.suit)
            },
            _ => TrumpSuit::Color(self.suit),
        }
    }

    /// Classify the card under the declaration: any jack and any card of a
    /// declared colour suit are trumps of a regular game; everything else,
    /// and every card of a Null game, counts as its plain suit.
    pub fn trump_suit(&self, declaration: Declaration) -> (r: TrumpSuit)
        ensures
            r == self.spec_trump_suit(declaration),
    {
        match declaration {
            Declaration::Normal(mode, _) => {
                if matches!(self.value, CardValue::Jack) {
                    TrumpSuit::Trump
                } else if mode == NormalMode::Color(self.suit) {
                    TrumpSuit::Trump
                } else {
                    TrumpSuit::Color(self.suit)
                }
            },
            _ => TrumpSuit::Color(self.suit),
        }
    }

    /// Rank of the card among cards of its own classification: jacks by
    /// suit above every other trump, the remaining ranks in the order of the
    /// declared game (ace high; the ten falls between jack and queen only
    /// under Null, where jacks are plain).
    pub open spec fn spec_strength(self, declaration: Declaration) -> int {
        if declaration.spec_is_null() {
            8 - self.value.num()
        } else if self.value == CardValue::Jack {
            20 + 3 - self.suit.ordinal()
        } else {
            7 - self.value.spec_ordinal()
        }
    }

    fn strength(&self, declaration: Declaration) -> (r: u8)
        ensures
            r == self.spec_strength(declaration),
    {
        if declaration.is_null() {
            match self.value {
                CardValue::Ace => 8,
                CardValue::King => 7,
                CardValue::Queen => 6,
                CardValue::Jack => 5,
                CardValue::Num10 => 4,
                CardValue::Num9 => 3,
                CardValue::Num8 => 2,
                CardValue::Num7 => 1,
            }
        } else if matches!(self.value, CardValue::Jack) {
            23 - (self.suit.index() as u8)
        } else {
            match self.value {
                CardValue::Ace => 7,
                CardValue::Num10 => 6,
                CardValue::King => 5,
                CardValue::Queen => 4,
                CardValue::Num9 => 3,
                CardValue::Num8 => 2,
                CardValue::Num7 => 1,
                CardValue::Jack => 0,
            }
        }
    }
}

/// Whether a newly played card takes the trick from the currently winning
/// one: a trump beats any non-trump, and within one classification the
/// stronger card wins.  A card that neither matches the current winner's
/// classification nor is trump never takes over.
pub open spec fn spec_takes(new: Card, cur: Card, declaration: Declaration) -> bool {
    let nc = new.spec_trump_suit(declaration);
    let cc = cur.spec_trump_suit(declaration);
    if nc == TrumpSuit::Trump && cc != TrumpSuit::Trump {
        true
    } else {
        nc == cc && new.spec_strength(declaration) > cur.spec_strength(declaration)
    }
}

pub fn takes(new: Card, cur: Card, declaration: Declaration) -> (r: bool)
    ensures
        r == spec_takes(new, cur, declaration),
{
    let nc = new.trump_suit(declaration);
    let cc = cur.trump_suit(declaration);
    if matches!(nc, TrumpSuit::Trump) && !matches!(cc, TrumpSuit::Trump) {
        true
    } else {
        nc == cc && new.strength(declaration) > cur.strength(declaration)
    }
}

/// Index of the winning card of a completed trick: the first card fixes the
/// class to follow, and each later card takes over only by ruffing or by
/// outranking the current winner within its class.
pub open spec fn spec_trick_winner(trick: Seq<Card>, declaration: Declaration) -> int {
    let w1: int = if spec_takes(trick[1], trick[0], declaration) {
        1
    } else {
        0
    };
    if spec_takes(trick[2], trick[w1], declaration) {
        2
    } else {
        w1
    }
}

/// Position, within a completed three-card trick, of the card that wins it.
pub fn trick_winner(trick: &Vec<Card>, declaration: Declaration) -> (r: usize)
    requires
        trick@.len() == 3,
    ensures
        r == spec_trick_winner(trick@, declaration),
        r < 3,
{
    let w1: usize = if takes(trick[1], trick[0], declaration) {
        1
    } else {
        0
    };
    if takes(trick[2], trick[w1], declaration) {
        2
    } else {
        w1
    }
}

} // verus!
