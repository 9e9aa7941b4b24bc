//! Contract taxonomy: game modes, announcement levels, declarations,
//! matador counting and the overbidding bound.

use vstd::prelude::*;
use crate::cards::{Card, CardValue, Suit};

verus! {

/// Mode of a regular (non-Null) game: one of the four colour games or Grand.
#[derive(Clone, Copy, PartialEq, Eq, Structural, Debug)]
pub enum NormalMode {
    Color(Suit),
    Grand,
}

impl NormalMode {
    /// Base value of the mode: diamonds 9, hearts 10, spades 11, clubs 12,
    /// Grand 24.
    pub open spec fn spec_base_value(self) -> int {
        match self {
            NormalMode::Color(Suit::Diamonds) => 9,
            NormalMode::Color(Suit::Hearts) => 10,
            NormalMode::Color(Suit::Spades) => 11,
            NormalMode::Color(Suit::Clubs) => 12,
            NormalMode::Grand => 24,
        }
    }

    pub fn base_value(self) -> (r: u16)
        ensures
            r == self.spec_base_value(),
    {
        match self {
            NormalMode::Color(Suit::Diamonds) => 9,
            NormalMode::Color(Suit::Hearts) => 10,
            NormalMode::Color(Suit::Spades) => 11,
            NormalMode::Color(Suit::Clubs) => 12,
            NormalMode::Grand => 24,
        }
    }

    /// All modes: the four colour games in declaration order, then Grand.
    pub fn all() -> (r: [NormalMode; 5])
        ensures
            r@ == seq![
                NormalMode::Color(Suit::Clubs),
                NormalMode::Color(Suit::Spades),
                NormalMode::Color(Suit::Hearts),
                NormalMode::Color(Suit::Diamonds),
                NormalMode::Grand,
            ],
    {
        [
            NormalMode::Color(Suit::Clubs),
            NormalMode::Color(Suit::Spades),
            NormalMode::Color(Suit::Hearts),
            NormalMode::Color(Suit::Diamonds),
            NormalMode::Grand,
        ]
    }
}

/// Announcement level of a regular game.  The levels are cumulative: every
/// level above `Normal` is a Hand game, `Schwarz` includes a Schneider
/// announcement, and `Ouvert` includes both.
#[derive(Clone, Copy, PartialEq, Eq, Structural, Debug)]
pub enum GameLevel {
    Normal,
    Hand,
    Schneider,
    Schwarz,
    Ouvert,
}

impl GameLevel {
    /// The level's rank in the value formula: Normal 1 up to Ouvert 5.
    pub open spec fn spec_rank(self) -> int {
        match self {
            GameLevel::Normal => 1,
            GameLevel::Hand => 2,
            GameLevel::Schneider => 3,
            GameLevel::Schwarz => 4,
            GameLevel::Ouvert => 5,
        }
    }

    pub fn rank(self) -> (r: u16)
        ensures
            r == self.spec_rank(),
    {
        match self {
            GameLevel::Normal => 1,
            GameLevel::Hand => 2,
            GameLevel::Schneider => 3,
            GameLevel::Schwarz => 4,
            GameLevel::Ouvert => 5,
        }
    }

    pub open spec fn spec_is_hand(self) -> bool {
        self != GameLevel::Normal
    }

    /// Whether the level announces a Hand game (every level above Normal).
    pub fn is_hand(&self) -> (r: bool)
        ensures
            r == self.spec_is_hand(),
    {
        !matches!(self, GameLevel::Normal)
    }

    /// The levels available given whether the widow was skipped: a Hand game
    /// opens the four announcement levels, otherwise only Normal is allowed.
    pub fn all(hand: bool) -> (r: Vec<GameLevel>)
        ensures
            hand ==> r@ == seq![
                GameLevel::Hand,
                GameLevel::Schneider,
                GameLevel::Schwarz,
                GameLevel::Ouvert,
            ],
            !hand ==> r@ == seq![GameLevel::Normal],
    {
        let mut r: Vec<GameLevel> = Vec::new();
        if hand {
            r.push(GameLevel::Hand);
            r.push(GameLevel::Schneider);
            r.push(GameLevel::Schwarz);
            r.push(GameLevel::Ouvert);
            assert(r@ =~= seq![
                GameLevel::Hand,
                GameLevel::Schneider,
                GameLevel::Schwarz,
                GameLevel::Ouvert,
            ]);
        } else {
            r.push(GameLevel::Normal);
            assert(r@ =~= seq![GameLevel::Normal]);
        }
        r
    }
}

/// A declared contract: a regular game with a mode and a level, or one of
/// the four fixed-value Null games.
#[derive(Clone, Copy, PartialEq, Eq, Structural, Debug)]
pub enum Declaration {
    Normal(NormalMode, GameLevel),
    Null,
    NullHand,
    NullOuvert,
    NullOuvertHand,
}

impl Declaration {
    pub open spec fn spec_is_hand(self) -> bool {
        match self {
            Declaration::Normal(_, l) => l.spec_is_hand(),
            Declaration::Null => false,
            Declaration::NullHand => true,
            Declaration::NullOuvert => false,
            Declaration::NullOuvertHand => true,
        }
    }

    /// Whether the contract is played without picking up the widow.
    pub fn is_hand(&self) -> (r: bool)
        ensures
            r == self.spec_is_hand(),
    {
        match self {
            Declaration::Normal(_, l) => l.is_hand(),
            Declaration::Null => false,
            Declaration::NullHand => true,
            Declaration::NullOuvert => false,
            Declaration::NullOuvertHand => true,
        }
    }

    pub open spec fn spec_is_ouvert(self) -> bool {
        match self {
            Declaration::Normal(_, l) => l == GameLevel::Ouvert,
            Declaration::NullOuvert => true,
            Declaration::NullOuvertHand => true,
            _ => false,
        }
    }

    /// Whether the declarer's hand is revealed before play.
    pub fn is_ouvert(&self) -> (r: bool)
        ensures
            r == self.spec_is_ouvert(),
    {
        matches!(
            self,
            Declaration::Normal(_, GameLevel::Ouvert)
                | Declaration::NullOuvert
                | Declaration::NullOuvertHand,
        )
    }

    pub open spec fn spec_is_null(self) -> bool {
        !(self matches Declaration::Normal(_, _))
    }

    /// Whether this is one of the four Null contracts.
    pub fn is_null(&self) -> (r: bool)
        ensures
            r == self.spec_is_null(),
    {
        !matches!(self, Declaration::Normal(_, _))
    }

    /// Whether Schneider was announced (level Schneider or above).
    pub open spec fn spec_is_schneider(self) -> bool {
        match self {
            Declaration::Normal(_, l) => l.spec_rank() >= 3,
            _ => false,
        }
    }

    pub fn is_schneider(&self) -> (r: bool)
        ensures
            r == self.spec_is_schneider(),
    {
        matches!(
            self,
            Declaration::Normal(_, GameLevel::Schneider)
                | Declaration::Normal(_, GameLevel::Schwarz)
                | Declaration::Normal(_, GameLevel::Ouvert),
        )
    }

    /// Whether Schwarz was announced (level Schwarz or Ouvert).
    pub open spec fn spec_is_schwarz(self) -> bool {
        match self {
            Declaration::Normal(_, l) => l.spec_rank() >= 4,
            _ => false,
        }
    }

    pub fn is_schwarz(&self) -> (r: bool)
        ensures
            r == self.spec_is_schwarz(),
    {
        matches!(
            self,
            Declaration::Normal(_, GameLevel::Schwarz)
                | Declaration::Normal(_, GameLevel::Ouvert),
        )
    }

    /// Fixed base value of a Null contract.
    pub open spec fn spec_null_value(self) -> int {
        match self {
            Declaration::Null => 23,
            Declaration::NullHand => 35,
            Declaration::NullOuvert => 46,
            Declaration::NullOuvertHand => 59,
            Declaration::Normal(_, _) => 0,
        }
    }

    pub fn null_value(&self) -> (r: u16)
        requires
            self.spec_is_null(),
        ensures
            r == self.spec_null_value(),
    {
        match self {
            Declaration::Null => 23,
            Declaration::NullHand => 35,
            Declaration::NullOuvert => 46,
            Declaration::NullOuvertHand => 59,
            Declaration::Normal(_, _) => 0,
        }
    }

    /// The ceiling the accepted bid may not exceed for this declaration,
    /// given the matador count of the declared mode: Null games have their
    /// fixed value, a regular game supports `(matadors + level rank + 2) *
    /// base`, the 2 covering a possible Schneider and Schwarz.
    pub open spec fn spec_bound(self, matadors: int) -> int {
        match self {
            Declaration::Normal(mode, level) => (matadors + level.spec_rank() + 2)
                * mode.spec_base_value(),
            _ => self.spec_null_value(),
        }
    }

    /// Whether declaring this contract with the given accepted `bid` avoids
    /// overbidding.
    pub fn allowed(&self, bid: u16, matadors: &Matadors) -> (r: bool)
        ensures
            r == (bid <= self.spec_bound(matadors.spec_get(match *self {
                Declaration::Normal(mode, _) => mode,
                _ => NormalMode::Grand,
            }))),
    {
        match *self {
            Declaration::Normal(mode, level) => {
                let m = matadors.get(mode) as u16;
                let sum = m + level.rank() + 2;
                let base = mode.base_value();
                proof {
                    assert(sum * base <= 6288) by (nonlinear_arith)
                        requires sum <= 262 && base <= 24;
                }
                bid <= sum * base
            },
            Declaration::Null => bid <= 23,
            Declaration::NullHand => bid <= 35,
            Declaration::NullOuvert => bid <= 46,
            Declaration::NullOuvertHand => bid <= 59,
        }
    }

    /// All declarations consistent with the Hand flag: the two matching Null
    /// games first, then every regular mode with every available level.
    pub fn all(hand: bool) -> (r: Vec<Declaration>)
        ensures
            r@ == Declaration::spec_all(hand),
    {
        let mut r: Vec<Declaration> = Vec::new();
        let modes = NormalMode::all();
        let levels = GameLevel::all(hand);
        if hand {
            r.push(Declaration::NullHand);
            r.push(Declaration::NullOuvertHand);
        } else {
            r.push(Declaration::Null);
            r.push(Declaration::NullOuvert);
        }
        let mut mi: usize = 0;
        while mi < 5
            invariant
                mi <= 5,
                modes@ == seq![
                    NormalMode::Color(Suit::Clubs),
                    NormalMode::Color(Suit::Spades),
                    NormalMode::Color(Suit::Hearts),
                    NormalMode::Color(Suit::Diamonds),
                    NormalMode::Grand,
                ],
                levels@ == GameLevel::spec_all_levels(hand),
                r@ == Declaration::spec_nulls(hand) + Seq::new(mi as nat, |m: int|
                    modes@[m]).flat_map(|m: NormalMode| GameLevel::spec_all_levels(
                    hand).map_values(|l: GameLevel| Declaration::Normal(m, l))),
            decreases 5 - mi,
        {
            let mode = modes[mi];
            let ghost before = r@;
            let mut li: usize = 0;
            while li < levels.len()
                invariant
                    mi < 5,
                    li <= levels@.len(),
                    mode == modes@[mi as int],
                    levels@ == GameLevel::spec_all_levels(hand),
                    r@ == before + levels@.take(li as int).map_values(
                        |l: GameLevel| Declaration::Normal(mode, l)),
                decreases levels@.len() - li,
            {
                r.push(Declaration::Normal(mode, levels[li]));
                proof {
                    assert(levels@.take(li as int + 1).map_values(
                        |l: GameLevel| Declaration::Normal(mode, l))
                        =~= levels@.take(li as int).map_values(
                        |l: GameLevel| Declaration::Normal(mode, l)).push(
                        Declaration::Normal(mode, levels@[li as int])));
                }
                li += 1;
            }
            proof {
                assert(levels@.take(levels@.len() as int) =~= levels@);
                let f = |m: NormalMode| GameLevel::spec_all_levels(hand).map_values(
                    |l: GameLevel| Declaration::Normal(m, l));
                let pre = Seq::new(mi as nat, |m: int| modes@[m]);
                let post = Seq::new(mi as nat + 1, |m: int| modes@[m]);
                assert(post =~= pre.push(modes@[mi as int]));
                pre.lemma_flat_map_push(f, modes@[mi as int]);
                assert(r@ =~= Declaration::spec_nulls(hand) + post.flat_map(f));
            }
            mi += 1;
        }
        proof {
            assert(Seq::new(5nat, |m: int| modes@[m]) =~= modes@);
        }
        r
    }

    /// The two Null games matching the Hand flag.
    pub open spec fn spec_nulls(hand: bool) -> Seq<Declaration> {
        if hand {
            seq![Declaration::NullHand, Declaration::NullOuvertHand]
        } else {
            seq![Declaration::Null, Declaration::NullOuvert]
        }
    }

    /// The list `Declaration::all` returns: the two matching Null games,
    /// then, mode by mode, every available level.
    pub open spec fn spec_all(hand: bool) -> Seq<Declaration> {
        Declaration::spec_nulls(hand) + seq![
            NormalMode::Color(Suit::Clubs),
            NormalMode::Color(Suit::Spades),
            NormalMode::Color(Suit::Hearts),
            NormalMode::Color(Suit::Diamonds),
            NormalMode::Grand,
        ].flat_map(|m: NormalMode| GameLevel::spec_all_levels(hand).map_values(
            |l: GameLevel| Declaration::Normal(m, l)))
    }
}

impl GameLevel {
    pub open spec fn spec_all_levels(hand: bool) -> Seq<GameLevel> {
        if hand {
            seq![GameLevel::Hand, GameLevel::Schneider, GameLevel::Schwarz, GameLevel::Ouvert]
        } else {
            seq![GameLevel::Normal]
        }
    }
}

/// Every declaration the Hand flag admits carries that flag itself: the
/// list never mixes Hand and non-Hand contracts.
pub proof fn lemma_spec_all_is_hand(hand: bool)
    ensures
        forall|j: int| 0 <= j < Declaration::spec_all(hand).len() ==> (#[trigger] Declaration::spec_all(
            hand,
        )[j]).spec_is_hand() == hand,
{
    let modes = seq![
        NormalMode::Color(Suit::Clubs),
        NormalMode::Color(Suit::Spades),
        NormalMode::Color(Suit::Hearts),
        NormalMode::Color(Suit::Diamonds),
        NormalMode::Grand,
    ];
    let g = |m: NormalMode| GameLevel::spec_all_levels(hand).map_values(
        |l: GameLevel| Declaration::Normal(m, l),
    );
    let fm = modes.map_values(g);
    reveal_with_fuel(Seq::flatten, 7);
    assert(fm.drop_first() =~= seq![g(modes[1]), g(modes[2]), g(modes[3]), g(modes[4])]);
    assert(fm.drop_first().drop_first() =~= seq![g(modes[2]), g(modes[3]), g(modes[4])]);
    assert(fm.drop_first().drop_first().drop_first() =~= seq![g(modes[3]), g(modes[4])]);
    assert(fm.drop_first().drop_first().drop_first().drop_first() =~= seq![g(modes[4])]);
    assert(fm.drop_first().drop_first().drop_first().drop_first().drop_first()
        =~= Seq::<Seq<Declaration>>::empty());
    assert(modes.flat_map(g) =~= g(modes[0]) + g(modes[1]) + g(modes[2]) + g(modes[3]) + g(
        modes[4],
    ));
    assert forall|j: int| 0 <= j < Declaration::spec_all(hand).len() implies (
    #[trigger] Declaration::spec_all(hand)[j]).spec_is_hand() == hand by {
        let levels = GameLevel::spec_all_levels(hand);
        assert(forall|k: int| 0 <= k < levels.len() ==> (#[trigger] levels[k]).spec_is_hand()
            == hand);
    }
}

/// For a fixed mode and matador count the overbidding ceiling is
/// non-decreasing in the level rank, so a bid that a level supports is also
/// supported by every level of higher rank.
pub proof fn lemma_allowed_monotone(
    bid: u16,
    matadors: int,
    mode: NormalMode,
    low: GameLevel,
    high: GameLevel,
)
    requires
        0 <= matadors,
        low.spec_rank() <= high.spec_rank(),
        bid <= Declaration::Normal(mode, low).spec_bound(matadors),
    ensures
        bid <= Declaration::Normal(mode, high).spec_bound(matadors),
{
    let lo = low.spec_rank();
    let hi = high.spec_rank();
    let base = mode.spec_base_value();
    assert(base >= 0);
    assert(Declaration::Normal(mode, low).spec_bound(matadors) == (matadors + lo + 2) * base);
    assert(Declaration::Normal(mode, high).spec_bound(matadors) == (matadors + hi + 2) * base);
    assert(bid <= (matadors + hi + 2) * base) by (nonlinear_arith)
        requires
            lo <= hi,
            base >= 0,
            bid <= (matadors + lo + 2) * base,
    ;
}

/// Matador counts of the declarer's cards, one per candidate colour suit.
#[derive(Clone, Copy, PartialEq, Eq, Structural, Debug)]
pub struct Matadors {
    pub clubs: u8,
    pub spades: u8,
    pub hearts: u8,
    pub diamonds: u8,
}

impl Matadors {
    /// The count for a candidate mode.  For Grand only the four jacks count,
    /// which is the common prefix of all four colour counts capped at 4.
    pub open spec fn spec_get(self, mode: NormalMode) -> int {
        match mode {
            NormalMode::Color(Suit::Clubs) => self.clubs as int,
            NormalMode::Color(Suit::Spades) => self.spades as int,
            NormalMode::Color(Suit::Hearts) => self.hearts as int,
            NormalMode::Color(Suit::Diamonds) => self.diamonds as int,
            NormalMode::Grand => {
                let m = vstd::math::min(
                    vstd::math::min(self.clubs as int, self.spades as int),
                    vstd::math::min(self.hearts as int, self.diamonds as int),
                );
                vstd::math::min(m, 4)
            },
        }
    }

    pub fn get(&self, mode: NormalMode) -> (r: u8)
        ensures
            r == self.spec_get(mode),
    {
        match mode {
            NormalMode::Color(Suit::Clubs) => self.clubs,
            NormalMode::Color(Suit::Spades) => self.spades,
            NormalMode::Color(Suit::Hearts) => self.hearts,
            NormalMode::Color(Suit::Diamonds) => self.diamonds,
            NormalMode::Grand => {
                let mut m = self.clubs;
                if self.spades < m {
                    m = self.spades;
                }
                if self.hearts < m {
                    m = self.hearts;
                }
                if self.diamonds < m {
                    m = self.diamonds;
                }
                if m > 4 {
                    m = 4;
                }
                m
            },
        }
    }

    /// The run of trumps, top-down from the jack of clubs, that the counting
    /// walks for a colour suit: the four jacks, then the suit from the ace
    /// downward.
    pub open spec fn trump_run(suit: Suit) -> Seq<Card> {
        seq![
            Card { value: CardValue::Jack, suit: Suit::Clubs },
            Card { value: CardValue::Jack, suit: Suit::Spades },
            Card { value: CardValue::Jack, suit: Suit::Hearts },
            Card { value: CardValue::Jack, suit: Suit::Diamonds },
            Card { value: CardValue::Ace, suit },
            Card { value: CardValue::Num10, suit },
            Card { value: CardValue::King, suit },
            Card { value: CardValue::Queen, suit },
            Card { value: CardValue::Num9, suit },
            Card { value: CardValue::Num8, suit },
            Card { value: CardValue::Num7, suit },
        ]
    }

    /// Length of the prefix of `run` whose cards are all held (`with` true)
    /// or all missing (`with` false) in `cards`.
    pub open spec fn prefix_run(cards: Seq<Card>, run: Seq<Card>, with: bool) -> int
        decreases run.len(),
    {
        if run.len() == 0 {
            0
        } else if cards.contains(run[0]) == with {
            1 + Self::prefix_run(cards, run.drop_first(), with)
        } else {
            0
        }
    }

    /// The matador count a card list yields for one colour suit: whether the
    /// jack of clubs is held decides between counting held or missing
    /// trumps, top-down.
    pub open spec fn spec_count(cards: Seq<Card>, suit: Suit) -> int {
        Self::prefix_run(
            cards,
            Self::trump_run(suit),
            cards.contains(Card { value: CardValue::Jack, suit: Suit::Clubs }),
        )
    }

    /// Count the matadors (or missing matadors) the given cards hold, for
    /// each candidate colour suit.
    pub fn from_cards(cards: &Vec<Card>) -> (r: Matadors)
        ensures
            r.clubs == Self::spec_count(cards@, Suit::Clubs),
            r.spades == Self::spec_count(cards@, Suit::Spades),
            r.hearts == Self::spec_count(cards@, Suit::Hearts),
            r.diamonds == Self::spec_count(cards@, Suit::Diamonds),
    {
        let with = contains_card(cards, Card { value: CardValue::Jack, suit: Suit::Clubs });
        Matadors {
            clubs: Self::count_suit(cards, Suit::Clubs, with),
            spades: Self::count_suit(cards, Suit::Spades, with),
            hearts: Self::count_suit(cards, Suit::Hearts, with),
            diamonds: Self::count_suit(cards, Suit::Diamonds, with),
        }
    }

    fn count_suit(cards: &Vec<Card>, suit: Suit, with: bool) -> (r: u8)
        requires
            with == cards@.contains(Card { value: CardValue::Jack, suit: Suit::Clubs }),
        ensures
            r == Self::spec_count(cards@, suit),
            r <= 11,
    {
        let run: [Card; 11] = [
            Card { value: CardValue::Jack, suit: Suit::Clubs },
            Card { value: CardValue::Jack, suit: Suit::Spades },
            Card { value: CardValue::Jack, suit: Suit::Hearts },
            Card { value: CardValue::Jack, suit: Suit::Diamonds },
            Card { value: CardValue::Ace, suit },
            Card { value: CardValue::Num10, suit },
            Card { value: CardValue::King, suit },
            Card { value: CardValue::Queen, suit },
            Card { value: CardValue::Num9, suit },
            Card { value: CardValue::Num8, suit },
            Card { value: CardValue::Num7, suit },
        ];
        proof {
            assert(run@ =~= Self::trump_run(suit));
            assert(Self::trump_run(suit).skip(0) =~= Self::trump_run(suit));
        }
        let mut i: usize = 0;
        while i < 11
            invariant
                i <= 11,
                run@ == Self::trump_run(suit),
                with == cards@.contains(Card { value: CardValue::Jack, suit: Suit::Clubs }),
                forall|j: int| 0 <= j < i ==> cards@.contains(#[trigger] run@[j]) == with,
                Self::prefix_run(cards@, Self::trump_run(suit).skip(i as int), with) + i
                    == Self::spec_count(cards@, suit),
            decreases 11 - i,
        {
            proof {
                assert(Self::trump_run(suit).skip(i as int)[0] == run@[i as int]);
                assert(Self::trump_run(suit).skip(i as int).drop_first()
                    =~= Self::trump_run(suit).skip(i as int + 1));
            }
            if contains_card(cards, run[i]) != with {
                proof {
                    assert(Self::prefix_run(cards@, Self::trump_run(suit).skip(i as int), with)
                        == 0);
                }
                return i as u8;
            }
            i += 1;
        }
        proof {
            assert(Self::trump_run(suit).skip(11).len() == 0);
        }
        11
    }
}

/// Whether the card list contains the given card.
pub fn contains_card(cards: &Vec<Card>, c: Card) -> (r: bool)
    ensures
        r == cards@.contains(c),
{
    let mut i: usize = 0;
    while i < cards.len()
        invariant
            i <= cards@.len(),
            forall|j: int| 0 <= j < i ==> cards@[j] != c,
        decreases cards@.len() - i,
    {
        if cards[i] == c {
            return true;
        }
        i += 1;
    }
    false
}

} // verus!
