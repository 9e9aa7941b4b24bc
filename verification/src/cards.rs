//! The card domain: seats, suits, ranks, the 32-card deck, point values and
//! the two total display orderings.

use vstd::prelude::*;

verus! {

/// One of the three playing seats of a deal.
#[derive(Clone, Copy, PartialEq, Eq, Structural, Debug)]
pub enum Player {
    Forehand,
    Middlehand,
    Rearhand,
}

/// Whoever must act next: a seat, or the environment that stands for the
/// chance source dealing cards and disclosing hidden information.  The
/// environment never occupies a playing seat.
#[derive(Clone, Copy, PartialEq, Eq, Structural, Debug)]
pub enum Actor {
    Seat(Player),
    Environment,
}

impl Player {
    /// Position of the seat in the fixed rotation order.
    pub open spec fn ordinal(self) -> int {
        match self {
            Player::Forehand => 0,
            Player::Middlehand => 1,
            Player::Rearhand => 2,
        }
    }

    /// Seat with the given rotation position.
    pub open spec fn from_ordinal(i: int) -> Player {
        if i == 0 {
            Player::Forehand
        } else if i == 1 {
            Player::Middlehand
        } else {
            Player::Rearhand
        }
    }

    pub fn index(self) -> (r: usize)
        ensures
            r == self.ordinal(),
    {
        match self {
            Player::Forehand => 0,
            Player::Middlehand => 1,
            Player::Rearhand => 2,
        }
    }

    /// All seats, in rotation order.
    pub fn all() -> (r: [Player; 3])
        ensures
            r@ == seq![Player::Forehand, Player::Middlehand, Player::Rearhand],
    {
        [Player::Forehand, Player::Middlehand, Player::Rearhand]
    }

    /// The other two seats, in rotation order.
    pub open spec fn spec_others(self) -> Seq<Player> {
        match self {
            Player::Forehand => seq![Player::Middlehand, Player::Rearhand],
            Player::Middlehand => seq![Player::Forehand, Player::Rearhand],
            Player::Rearhand => seq![Player::Forehand, Player::Middlehand],
        }
    }

    /// Return the other two seats, in rotation order.
    pub fn others(&self) -> (r: [Player; 2])
        ensures
            r@ == self.spec_others(),
            forall|p: Player| r@.contains(p) <==> p != *self,
    {
        match self {
            Player::Forehand => [Player::Middlehand, Player::Rearhand],
            Player::Middlehand => [Player::Forehand, Player::Rearhand],
            Player::Rearhand => [Player::Forehand, Player::Middlehand],
        }
    }

    pub open spec fn spec_next(self) -> Player {
        match self {
            Player::Forehand => Player::Middlehand,
            Player::Middlehand => Player::Rearhand,
            Player::Rearhand => Player::Forehand,
        }
    }

    /// The seat acting after `self` in the fixed rotation.
    pub fn next(self) -> (r: Player)
        ensures
            r == self.spec_next(),
            r.ordinal() == (self.ordinal() + 1) % 3,
    {
        match self {
            Player::Forehand => Player::Middlehand,
            Player::Middlehand => Player::Rearhand,
            Player::Rearhand => Player::Forehand,
        }
    }
}

/// The four suits, in the conventional Skat base-value order (clubs highest).
#[derive(Clone, Copy, PartialEq, Eq, Structural, Debug)]
pub enum Suit {
    Clubs,
    Spades,
    Hearts,
    Diamonds,
}

impl Suit {
    /// Position of the suit in the fixed declaration order.
    pub open spec fn ordinal(self) -> int {
        match self {
            Suit::Clubs => 0,
            Suit::Spades => 1,
            Suit::Hearts => 2,
            Suit::Diamonds => 3,
        }
    }

    pub open spec fn from_ordinal(i: int) -> Suit {
        if i == 0 {
            Suit::Clubs
        } else if i == 1 {
            Suit::Spades
        } else if i == 2 {
            Suit::Hearts
        } else {
            Suit::Diamonds
        }
    }

    pub fn index(self) -> (r: usize)
        ensures
            r == self.ordinal(),
    {
        match self {
            Suit::Clubs => 0,
            Suit::Spades => 1,
            Suit::Hearts => 2,
            Suit::Diamonds => 3,
        }
    }

    /// All suits, in declaration order.
    pub fn all() -> (r: [Suit; 4])
        ensures
            r@ == seq![Suit::Clubs, Suit::Spades, Suit::Hearts, Suit::Diamonds],
            forall|i: int| 0 <= i < 4 ==> (#[trigger] r@[i]).ordinal() == i,
    {
        let r = [Suit::Clubs, Suit::Spades, Suit::Hearts, Suit::Diamonds];
        assert(forall|i: int| 0 <= i < 4 ==> (#[trigger] r@[i]).ordinal() == i) by {
            assert(r@[0].ordinal() == 0);
            assert(r@[1].ordinal() == 1);
            assert(r@[2].ordinal() == 2);
            assert(r@[3].ordinal() == 3);
        }
        r
    }
}

/// The eight card ranks of the 32-card deck.
#[derive(Clone, Copy, PartialEq, Eq, Structural, Debug)]
pub enum CardValue {
    Ace,
    King,
    Queen,
    Jack,
    Num10,
    Num9,
    Num8,
    Num7,
}

impl CardValue {
    /// Position of the rank in the fixed declaration order; together with the
    /// suit position it makes the stable 0..32 card index.
    pub open spec fn num(self) -> int {
        match self {
            CardValue::Ace => 0,
            CardValue::King => 1,
            CardValue::Queen => 2,
            CardValue::Jack => 3,
            CardValue::Num10 => 4,
            CardValue::Num9 => 5,
            CardValue::Num8 => 6,
            CardValue::Num7 => 7,
        }
    }

    pub open spec fn from_num(i: int) -> CardValue {
        if i == 0 {
            CardValue::Ace
        } else if i == 1 {
            CardValue::King
        } else if i == 2 {
            CardValue::Queen
        } else if i == 3 {
            CardValue::Jack
        } else if i == 4 {
            CardValue::Num10
        } else if i == 5 {
            CardValue::Num9
        } else if i == 6 {
            CardValue::Num8
        } else {
            CardValue::Num7
        }
    }

    /// All ranks, from the weakest upward.
    pub fn all() -> (r: [CardValue; 8])
        ensures
            r@ == seq![
                CardValue::Num7,
                CardValue::Num8,
                CardValue::Num9,
                CardValue::Jack,
                CardValue::Queen,
                CardValue::King,
                CardValue::Num10,
                CardValue::Ace,
            ],
    {
        [
            CardValue::Num7,
            CardValue::Num8,
            CardValue::Num9,
            CardValue::Jack,
            CardValue::Queen,
            CardValue::King,
            CardValue::Num10,
            CardValue::Ace,
        ]
    }

    /// Rank position in a regular (non-Null) game, the ace being 0 and the
    /// seven being 6.  Jacks are trumps of their own and have no such
    /// position.
    pub open spec fn spec_ordinal(self) -> int {
        match self {
            CardValue::Ace => 0,
            CardValue::Num10 => 1,
            CardValue::King => 2,
            CardValue::Queen => 3,
            CardValue::Num9 => 4,
            CardValue::Num8 => 5,
            CardValue::Num7 => 6,
            CardValue::Jack => 7,
        }
    }

    /// Returns the ordinal number of this card value in a regular game:
    /// the ace maps to 0, the ten to 1, and so on down to the seven at 6.
    pub fn ordinal(&self) -> (r: usize)
        requires
            *self != CardValue::Jack,
        ensures
            r == self.spec_ordinal(),
    {
        match self {
            CardValue::Ace => 0,
            CardValue::Num10 => 1,
            CardValue::King => 2,
            CardValue::Queen => 3,
            CardValue::Num9 => 4,
            CardValue::Num8 => 5,
            CardValue::Num7 => 6,
            CardValue::Jack => 7,
        }
    }

    /// Trick points this rank is worth.  The whole deck totals 120.
    pub open spec fn spec_points(self) -> int {
        match self {
            CardValue::Ace => 11,
            CardValue::Num10 => 10,
            CardValue::King => 4,
            CardValue::Queen => 3,
            CardValue::Jack => 2,
            CardValue::Num9 => 0,
            CardValue::Num8 => 0,
            CardValue::Num7 => 0,
        }
    }
}

/// One of the 32 cards: a rank together with a suit.
#[derive(Clone, Copy, PartialEq, Eq, Structural, Debug)]
pub struct Card {
    pub value: CardValue,
    pub suit: Suit,
}

impl Card {
    /// The stable index of the card, `rank * 4 + suit`, in `0..32`.
    pub open spec fn spec_index(self) -> int {
        self.value.num() * 4 + self.suit.ordinal()
    }

    /// The card with the given stable index.
    pub open spec fn from_index(i: int) -> Card {
        Card { value: CardValue::from_num(i / 4), suit: Suit::from_ordinal(i % 4) }
    }

    /// Returns the stable 0..32 index of this card.
    pub fn index(&self) -> (r: usize)
        ensures
            r == self.spec_index(),
            r < 32,
    {
        let v: usize = match self.value {
            CardValue::Ace => 0,
            CardValue::King => 1,
            CardValue::Queen => 2,
            CardValue::Jack => 3,
            CardValue::Num10 => 4,
            CardValue::Num9 => 5,
            CardValue::Num8 => 6,
            CardValue::Num7 => 7,
        };
        v * 4 + self.suit.index()
    }

    /// Trick points of the card.
    pub fn points(&self) -> (r: u8)
        ensures
            r == self.value.spec_points(),
    {
        match self.value {
            CardValue::Ace => 11,
            CardValue::Num10 => 10,
            CardValue::King => 4,
            CardValue::Queen => 3,
            CardValue::Jack => 2,
            CardValue::Num9 => 0,
            CardValue::Num8 => 0,
            CardValue::Num7 => 0,
        }
    }

    /// The card with the given stable index.
    pub fn of_index(i: usize) -> (r: Card)
        requires
            i < 32,
        ensures
            r == Card::from_index(i as int),
            r.spec_index() == i,
    {
        let value = match i / 4 {
            0 => CardValue::Ace,
            1 => CardValue::King,
            2 => CardValue::Queen,
            3 => CardValue::Jack,
            4 => CardValue::Num10,
            5 => CardValue::Num9,
            6 => CardValue::Num8,
            _ => CardValue::Num7,
        };
        let suit = match i % 4 {
            0 => Suit::Clubs,
            1 => Suit::Spades,
            2 => Suit::Hearts,
            _ => Suit::Diamonds,
        };
        Card { value, suit }
    }

    /// Position of the card in the display order of a regular game, the jack
    /// of clubs coming first: jacks by suit, then each suit from the ace
    /// down.  The position is distinct for distinct cards.
    pub open spec fn spec_display_key(self) -> int {
        if self.value == CardValue::Jack {
            self.suit.ordinal()
        } else {
            4 + self.suit.ordinal() * 7 + self.value.spec_ordinal()
        }
    }

    /// Position of the card in the display order of a Null game, the ace of
    /// clubs coming first: suits in declaration order, ranks from the ace
    /// down to the seven.
    pub open spec fn spec_null_key(self) -> int {
        self.suit.ordinal() * 8 + self.value.num()
    }

    fn display_key(&self) -> (r: usize)
        ensures
            r == self.spec_display_key(),
            r < 32,
    {
        if matches!(self.value, CardValue::Jack) {
            self.suit.index()
        } else {
            4 + self.suit.index() * 7 + self.value.ordinal()
        }
    }

    fn null_key(&self) -> (r: usize)
        ensures
            r == self.spec_null_key(),
            r < 32,
    {
        let v: usize = match self.value {
            CardValue::Ace => 0,
            CardValue::King => 1,
            CardValue::Queen => 2,
            CardValue::Jack => 3,
            CardValue::Num10 => 4,
            CardValue::Num9 => 5,
            CardValue::Num8 => 6,
            CardValue::Num7 => 7,
        };
        self.suit.index() * 8 + v
    }

    /// Display comparison for a regular game: true when `self` sorts before
    /// `other`, with the jack of clubs the lowest.
    pub fn cmp(&self, other: &Card) -> (r: bool)
        ensures
            r == (self.spec_display_key() < other.spec_display_key()),
    {
        self.display_key() < other.display_key()
    }

    /// Display comparison for a Null game: true when `self` sorts before
    /// `other`, with the ace of clubs the lowest.
    pub fn cmp_null(&self, other: &Card) -> (r: bool)
        ensures
            r == (self.spec_null_key() < other.spec_null_key()),
    {
        self.null_key() < other.null_key()
    }
}

/// Two distinct cards always have distinct stable indexes, and the index
/// round-trips through `from_index`.
pub proof fn lemma_card_index_bijective(c: Card)
    ensures
        0 <= c.spec_index() < 32,
        Card::from_index(c.spec_index()) == c,
{
}

/// A slot whose card may be unobserved by the current viewer.  `Hidden` is
/// never the same as "no card": the slot is occupied, only its identity is
/// unknown.
#[derive(Clone, Copy, PartialEq, Eq, Structural, Debug)]
pub enum OptCard {
    Hidden,
    Known(Card),
}

impl OptCard {
    /// The known card, if any.
    pub fn ok(self) -> (r: Option<Card>)
        ensures
            r == (match self {
                OptCard::Hidden => Option::<Card>::None,
                OptCard::Known(c) => Option::<Card>::Some(c),
            }),
    {
        match self {
            OptCard::Hidden => None,
            OptCard::Known(card) => Some(card),
        }
    }

    pub open spec fn spec_sort_key(self, null: bool) -> int {
        match self {
            OptCard::Hidden => 32,
            OptCard::Known(c) => if null {
                c.spec_null_key()
            } else {
                c.spec_display_key()
            },
        }
    }

    /// Display comparison, hidden slots sorting last; `null` picks the Null
    /// ordering over the regular one.
    pub fn cmp(&self, other: &OptCard, null: bool) -> (r: bool)
        ensures
            r == (self.spec_sort_key(null) < other.spec_sort_key(null)),
    {
        let a: usize = match self {
            OptCard::Hidden => 32,
            OptCard::Known(c) => if null {
                c.null_key()
            } else {
                c.display_key()
            },
        };
        let b: usize = match other {
            OptCard::Hidden => 32,
            OptCard::Known(c) => if null {
                c.null_key()
            } else {
                c.display_key()
            },
        };
        a < b
    }
}

} // verus!
