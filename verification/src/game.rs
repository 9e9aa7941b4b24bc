//! The top-level phase state machine: one value of [`Skat`] owns the whole
//! state of a deal, every action passes through move validation, and a
//! validated move is applied atomically.

use vstd::prelude::*;
use crate::bidding::{BiddingResult, BiddingState};
use crate::cards::{Actor, Card, OptCard, Player, Suit};
use crate::codec::{
    spec_decode_card, spec_decode_declaration_move, spec_decode_opt_card, DeclarationMove,
};
use crate::decl::{Declaration, Matadors, NormalMode};
use crate::error::SkatError;
use crate::store::{knowns, redacted, spec_take, CardStruct};

verus! {

/// The smallest bid a player may call.
pub const MINIMUM_BID: u16 = 18;

/// The largest bid a player may call.
pub const MAXIMUM_BID: u16 = 264;

/// The declarer wins a regular game with at least this many trick points.
pub const POINTS_WINNING: u16 = 61;

/// A side is Schneider with at most this many trick points.
pub const POINTS_SCHNEIDER: u16 = 30;

/// Progress of the trick-taking phase: whose turn it is and the running
/// point tallies.  A tally of `None` means the side has taken no trick yet,
/// which is not the same as having taken tricks worth zero points.
#[derive(Clone, Copy, Debug)]
pub struct PlayingState {
    pub player: Player,
    pub declarer_points: Option<u16>,
    pub team_points: Option<u16>,
}

impl PlayingState {
    /// The state play starts from: forehand leads, no tricks taken.
    pub fn new() -> (r: PlayingState)
        ensures
            r == (PlayingState {
                player: Player::Forehand,
                declarer_points: None,
                team_points: None,
            }),
    {
        PlayingState { player: Player::Forehand, declarer_points: None, team_points: None }
    }
}

impl Default for PlayingState {
    fn default() -> (r: PlayingState)
        ensures
            r == (PlayingState {
                player: Player::Forehand,
                declarer_points: None,
                team_points: None,
            }),
    {
        PlayingState::new()
    }
}

/// The phase of the deal, with phase-local data.
#[derive(Clone, Debug)]
pub enum GameState {
    /// Cards are being dealt.
    Dealing,
    /// The bidding automaton is running.
    Bidding(BiddingState),
    /// The declarer decides whether to pick up the widow.
    SkatDecision,
    /// The two widow cards transfer to the declarer one at a time.
    Picking,
    /// The declarer puts two cards back into the widow.
    Putting,
    /// The declarer chooses the contract.
    Declaring,
    /// The declarer's hand is disclosed card by card; holds the index of
    /// the next slot to reveal.
    Revealing(usize),
    /// Tricks are being played.
    Playing(PlayingState),
    /// Terminal: holds the winning seats, an empty list meaning a draw.
    Finished(Vec<Player>),
}

impl GameState {
    pub open spec fn spec_has_declarer(self) -> bool {
        !match self {
            GameState::Dealing => true,
            GameState::Bidding(_) => true,
            GameState::Finished(_) => true,
            _ => false,
        }
    }

    /// Whether the deal has a declarer at this stage.
    pub fn has_declarer(&self) -> (r: bool)
        ensures
            r == self.spec_has_declarer(),
    {
        !matches!(self, GameState::Dealing | GameState::Bidding(_) | GameState::Finished(_))
    }

    pub open spec fn spec_has_declaration(self) -> bool {
        match self {
            GameState::Revealing(_) => true,
            GameState::Playing(_) => true,
            _ => false,
        }
    }

    /// Whether the contract has been fixed at this stage.
    pub fn has_declaration(&self) -> (r: bool)
        ensures
            r == self.spec_has_declaration(),
    {
        matches!(self, GameState::Revealing(_) | GameState::Playing(_))
    }
}

/// Which target the card at dealing position `d` goes to: `None` is the
/// widow.  Positions 0-2, 11-14 and 23-25 belong to forehand, 3-5, 15-18
/// and 26-28 to middlehand, 6-8, 19-22 and 29-31 to rearhand, 9-10 to the
/// widow.
pub open spec fn deal_target(d: int) -> Option<Player> {
    if d <= 2 {
        Some(Player::Forehand)
    } else if d <= 5 {
        Some(Player::Middlehand)
    } else if d <= 8 {
        Some(Player::Rearhand)
    } else if d <= 10 {
        None
    } else if d <= 14 {
        Some(Player::Forehand)
    } else if d <= 18 {
        Some(Player::Middlehand)
    } else if d <= 22 {
        Some(Player::Rearhand)
    } else if d <= 25 {
        Some(Player::Forehand)
    } else if d <= 28 {
        Some(Player::Middlehand)
    } else {
        Some(Player::Rearhand)
    }
}

/// How many of the first `d` dealt cards go to `target`.
pub open spec fn dealt_to_count(d: int, target: Option<Player>) -> int
    decreases d,
{
    if d <= 0 {
        0
    } else {
        dealt_to_count(d - 1, target) + if deal_target(d - 1) == target {
            1int
        } else {
            0int
        }
    }
}

/// After all 32 cards are dealt each hand holds 10 and the widow 2.
pub proof fn lemma_deal_counts_full()
    ensures
        dealt_to_count(32, Some(Player::Forehand)) == 10,
        dealt_to_count(32, Some(Player::Middlehand)) == 10,
        dealt_to_count(32, Some(Player::Rearhand)) == 10,
        dealt_to_count(32, None) == 2,
{
    reveal_with_fuel(dealt_to_count, 33);
}

/// Returns the target the next card is dealt to, `dealt` being the number
/// of cards dealt so far; `None` is the widow.
pub fn deal_to(dealt: u8) -> (r: Option<Player>)
    requires
        dealt < 32,
    ensures
        r == deal_target(dealt as int),
{
    if dealt <= 2 {
        Some(Player::Forehand)
    } else if dealt <= 5 {
        Some(Player::Middlehand)
    } else if dealt <= 8 {
        Some(Player::Rearhand)
    } else if dealt <= 10 {
        None
    } else if dealt <= 14 {
        Some(Player::Forehand)
    } else if dealt <= 18 {
        Some(Player::Middlehand)
    } else if dealt <= 22 {
        Some(Player::Rearhand)
    } else if dealt <= 25 {
        Some(Player::Forehand)
    } else if dealt <= 28 {
        Some(Player::Middlehand)
    } else {
        Some(Player::Rearhand)
    }
}

/// The authoritative state of one deal.
#[derive(Clone, Debug)]
pub struct Skat {
    pub cards: CardStruct,
    /// The running highest bid; one under [`MINIMUM_BID`] while none was
    /// made.
    pub bid: u16,
    /// The seat playing alone against the other two.  Meaningful once
    /// bidding finished.
    pub declarer: Player,
    /// Before the contract is fixed this doubles as the Hand flag: a
    /// declarer who skipped the widow carries a Null-Hand marker here.
    pub declaration: Declaration,
    pub state: GameState,
}

impl Skat {
    /// Well-formedness of a deal state: the bid stays in range, no concrete
    /// card sits in two places, and each phase carries the slot counts its
    /// transitions keep up.
    pub open spec fn inv(self) -> bool {
        &&& MINIMUM_BID - 1 <= self.bid <= MAXIMUM_BID
        &&& self.cards.no_dup_cards()
        &&& match self.state {
            GameState::Dealing => {
                &&& self.bid == MINIMUM_BID - 1
                &&& self.cards.store_len() <= 31
                &&& forall|p: Player| #[trigger] self.cards.spec_hand(p).len() == dealt_to_count(
                    self.cards.store_len(),
                    Some(p),
                )
                &&& self.cards.skat@.len() == dealt_to_count(self.cards.store_len(), None)
                &&& self.cards.trick@.len() == 0
                &&& forall|p: Player| #[trigger] self.cards.spec_played(p).len() == 0
            },
            GameState::Bidding(_) => self.full_hands(),
            GameState::SkatDecision => self.full_hands(),
            GameState::Picking => {
                &&& 1 <= self.cards.skat@.len() <= 2
                &&& self.cards.spec_hand(self.declarer).len() == 12 - self.cards.skat@.len()
                &&& forall|p: Player| p != self.declarer ==> (#[trigger] self.cards.spec_hand(
                    p,
                ).len()) == 10
                &&& self.cards.trick@.len() == 0
                &&& forall|p: Player| #[trigger] self.cards.spec_played(p).len() == 0
            },
            GameState::Putting => {
                &&& self.cards.skat@.len() <= 1
                &&& self.cards.spec_hand(self.declarer).len() == 12 - self.cards.skat@.len()
                &&& forall|p: Player| p != self.declarer ==> (#[trigger] self.cards.spec_hand(
                    p,
                ).len()) == 10
                &&& self.cards.trick@.len() == 0
                &&& forall|p: Player| #[trigger] self.cards.spec_played(p).len() == 0
            },
            GameState::Declaring => self.full_hands(),
            GameState::Revealing(i) => {
                &&& self.full_hands()
                &&& i < self.cards.spec_hand(self.declarer).len()
            },
            GameState::Playing(ps) => {
                &&& self.cards.skat@.len() == 2
                &&& self.cards.trick@.len() <= 2
                &&& forall|p: Player| #[trigger] self.cards.spec_hand(p).len() <= 10
                &&& self.cards.store_len() == 32
                &&& opt_points(ps.declarer_points) + opt_points(ps.team_points) <= 11 * (
                self.cards.spec_played(Player::Forehand).len() + self.cards.spec_played(
                    Player::Middlehand,
                ).len() + self.cards.spec_played(Player::Rearhand).len())
            },
            GameState::Finished(_) => true,
        }
    }

    /// Slot counts between bidding and declaring: full hands and widow, no
    /// trick and nothing played.
    pub open spec fn full_hands(self) -> bool {
        &&& forall|p: Player| #[trigger] self.cards.spec_hand(p).len() == 10
        &&& self.cards.skat@.len() == 2
        &&& self.cards.trick@.len() == 0
        &&& forall|p: Player| #[trigger] self.cards.spec_played(p).len() == 0
    }

    /// A fresh deal, ready for dealing.
    pub fn new() -> (r: Skat)
        ensures
            r.inv(),
            r.state is Dealing,
            r.bid == MINIMUM_BID - 1,
            r.declarer == Player::Forehand,
            r.declaration == Declaration::Null,
            r.cards.store_len() == 0,
    {
        let r = Skat {
            cards: CardStruct::new(),
            bid: MINIMUM_BID - 1,
            declarer: Player::Forehand,
            declaration: Declaration::Null,
            state: GameState::Dealing,
        };
        proof {
            broadcast use vstd::seq_lib::group_to_multiset_ensures;

            assert(r.cards.all_cards() =~= Seq::<Card>::empty());
            assert(forall|c: Card| !r.cards.all_cards().contains(c));
            assert(forall|c: Card| #[trigger] r.cards.card_count(c) <= 1) by {
                assert(forall|c: Card| !r.cards.all_cards().contains(c));
            }
            assert(forall|p: Player| #[trigger] r.cards.spec_hand(p).len() == 0);
            assert(forall|p: Player| #[trigger] r.cards.spec_played(p).len() == 0);
        }
        r
    }

    /// Who must act next; a finished deal has nobody to move.
    pub open spec fn spec_actor(self) -> Option<Actor> {
        match self.state {
            GameState::Dealing => Some(Actor::Environment),
            GameState::Picking => Some(Actor::Environment),
            GameState::Bidding(b) => Some(Actor::Seat(b.spec_source())),
            GameState::SkatDecision => Some(Actor::Seat(self.declarer)),
            GameState::Putting => Some(Actor::Seat(self.declarer)),
            GameState::Declaring => Some(Actor::Seat(self.declarer)),
            GameState::Revealing(_) => Some(Actor::Seat(self.declarer)),
            GameState::Playing(ps) => Some(Actor::Seat(ps.player)),
            GameState::Finished(_) => None,
        }
    }

    /// The actor who must move in the current phase, or `None` once the
    /// deal is finished.
    pub fn players_to_move(&self) -> (r: Option<Actor>)
        ensures
            r == self.spec_actor(),
    {
        match &self.state {
            GameState::Dealing => Some(Actor::Environment),
            GameState::Picking => Some(Actor::Environment),
            GameState::Bidding(b) => Some(Actor::Seat(b.source())),
            GameState::SkatDecision => Some(Actor::Seat(self.declarer)),
            GameState::Putting => Some(Actor::Seat(self.declarer)),
            GameState::Declaring => Some(Actor::Seat(self.declarer)),
            GameState::Revealing(_) => Some(Actor::Seat(self.declarer)),
            GameState::Playing(ps) => Some(Actor::Seat(ps.player)),
            GameState::Finished(_) => None,
        }
    }

    /// The fixed contract, once one exists.
    pub fn declaration(&self) -> (r: Option<Declaration>)
        ensures
            r == (if self.state.spec_has_declaration() {
                Some(self.declaration)
            } else {
                Option::<Declaration>::None
            }),
    {
        if self.state.has_declaration() {
            Some(self.declaration)
        } else {
            None
        }
    }

    /// The card slots the matador count of the declarer reads: the
    /// declarer's hand, and the widow unless the game is a Hand game.
    pub open spec fn spec_decl_hidden(self) -> bool {
        self.cards.spec_hand(self.declarer).contains(OptCard::Hidden) || (
        !self.declaration.spec_is_hand() && self.cards.skat@.contains(OptCard::Hidden))
    }

    /// The concrete cards the matador count of the declarer reads.
    pub open spec fn spec_decl_cards(self) -> Seq<Card> {
        knowns(self.cards.spec_hand(self.declarer)) + (if self.declaration.spec_is_hand() {
            Seq::<Card>::empty()
        } else {
            knowns(self.cards.skat@)
        })
    }

    /// Calculate the matadors of the declarer over hand and, unless a Hand
    /// game is set up, the widow.  Returns `None` while any of those slots
    /// is still hidden.
    pub fn calculate_matadors(&self) -> (r: Option<Matadors>)
        ensures
            r is Some <==> !self.spec_decl_hidden(),
            match r {
                Some(m) => {
                    &&& m.clubs == Matadors::spec_count(self.spec_decl_cards(), Suit::Clubs)
                    &&& m.spades == Matadors::spec_count(self.spec_decl_cards(), Suit::Spades)
                    &&& m.hearts == Matadors::spec_count(self.spec_decl_cards(), Suit::Hearts)
                    &&& m.diamonds == Matadors::spec_count(self.spec_decl_cards(), Suit::Diamonds)
                },
                None => true,
            },
    {
        let hand = &self.cards.hands[self.declarer.index()];
        let include_skat = !self.declaration.is_hand();
        if crate::store::row_has_hidden(hand) {
            return None;
        }
        if include_skat && crate::store::row_has_hidden(&self.cards.skat) {
            return None;
        }
        let mut cards = crate::store::known_row(hand);
        if include_skat {
            let mut more = crate::store::known_row(&self.cards.skat);
            cards.append(&mut more);
        } else {
            proof {
                assert(cards@ =~= self.spec_decl_cards());
            }
        }
        proof {
            assert(cards@ =~= self.spec_decl_cards());
        }
        Some(Matadors::from_cards(&cards))
    }
}

/// The matador count a set of concrete cards yields for a mode: the count
/// of the colour suit, or for Grand the jacks-only run, which is the common
/// prefix of all four colour counts capped at four.
pub open spec fn spec_mats(cards: Seq<Card>, mode: NormalMode) -> int {
    match mode {
        NormalMode::Color(s) => Matadors::spec_count(cards, s),
        NormalMode::Grand => vstd::math::min(
            vstd::math::min(
                vstd::math::min(
                    Matadors::spec_count(cards, Suit::Clubs),
                    Matadors::spec_count(cards, Suit::Spades),
                ),
                vstd::math::min(
                    Matadors::spec_count(cards, Suit::Hearts),
                    Matadors::spec_count(cards, Suit::Diamonds),
                ),
            ),
            4,
        ),
    }
}

impl Skat {
    /// Whether declaring `d` would stay within the accepted bid, reading
    /// the matadors off the declarer's relevant cards.
    pub open spec fn spec_decl_allowed(self, d: Declaration) -> bool {
        self.bid <= d.spec_bound(spec_mats(self.spec_decl_cards(), match d {
            Declaration::Normal(mode, _) => mode,
            _ => NormalMode::Grand,
        }))
    }

    /// Whether any declaration consistent with the Hand flag stays within
    /// the accepted bid.
    pub open spec fn spec_any_allowed(self) -> bool {
        exists|i: int| 0 <= i < Declaration::spec_all(self.declaration.spec_is_hand()).len()
            && self.spec_decl_allowed(
            #[trigger] Declaration::spec_all(self.declaration.spec_is_hand())[i],
        )
    }

    /// Why the move would be rejected in the current state, or `None` when
    /// it is legal.  This is the single definition of legality: validation
    /// reports it and application commits exactly when it is `None`.
    pub open spec fn spec_legal_err(self, actor: Actor, m: u64) -> Option<SkatError> {
        match self.state {
            GameState::Dealing => {
                if actor != Actor::Environment {
                    Some(SkatError::InvalidPlayer)
                } else {
                    match spec_decode_opt_card(m) {
                        None => Some(SkatError::InvalidMove),
                        Some(OptCard::Hidden) => None,
                        Some(OptCard::Known(c)) => if self.cards.all_cards().contains(c) {
                            Some(SkatError::InvalidMove)
                        } else {
                            None
                        },
                    }
                }
            },
            GameState::Bidding(b) => {
                if actor != Actor::Seat(b.spec_source()) {
                    Some(SkatError::InvalidPlayer)
                } else if b.spec_respond() {
                    if m > 1 {
                        Some(SkatError::InvalidMove)
                    } else {
                        None
                    }
                } else if m != 0 && (m <= self.bid as u64 || m > MAXIMUM_BID as u64) {
                    Some(SkatError::InvalidMove)
                } else {
                    None
                }
            },
            GameState::SkatDecision => {
                if actor != Actor::Seat(self.declarer) {
                    Some(SkatError::InvalidPlayer)
                } else if m > 1 {
                    Some(SkatError::InvalidMove)
                } else {
                    None
                }
            },
            GameState::Picking => {
                if actor != Actor::Environment {
                    Some(SkatError::InvalidPlayer)
                } else if self.cards.skat@.len() == 0 {
                    Some(SkatError::InvalidState)
                } else {
                    match spec_decode_opt_card(m) {
                        None => Some(SkatError::InvalidMove),
                        Some(OptCard::Hidden) => None,
                        Some(OptCard::Known(c)) => match self.cards.skat@.last() {
                            OptCard::Known(k) => if c == k {
                                None
                            } else {
                                Some(SkatError::InvalidMove)
                            },
                            OptCard::Hidden => if self.cards.all_cards().contains(c) {
                                Some(SkatError::InvalidMove)
                            } else {
                                None
                            },
                        },
                    }
                }
            },
            GameState::Putting => {
                let hand = self.cards.spec_hand(self.declarer);
                if actor != Actor::Seat(self.declarer) {
                    Some(SkatError::InvalidPlayer)
                } else if hand.len() == 0 {
                    Some(SkatError::InvalidState)
                } else {
                    match spec_decode_opt_card(m) {
                        None => Some(SkatError::InvalidMove),
                        Some(OptCard::Hidden) => None,
                        Some(OptCard::Known(c)) => if knowns(hand).contains(c) {
                            None
                        } else if hand.contains(OptCard::Hidden) {
                            if self.cards.all_cards().contains(c) {
                                Some(SkatError::InvalidMove)
                            } else {
                                None
                            }
                        } else {
                            Some(SkatError::InvalidMove)
                        },
                    }
                }
            },
            GameState::Declaring => {
                if actor != Actor::Seat(self.declarer) {
                    Some(SkatError::InvalidPlayer)
                } else {
                    match spec_decode_declaration_move(m) {
                        None => Some(SkatError::InvalidMove),
                        Some(dm) => if self.spec_decl_hidden() {
                            None
                        } else {
                            match dm {
                                DeclarationMove::Declare(d) => if d.spec_is_hand()
                                    != self.declaration.spec_is_hand() {
                                    Some(SkatError::InvalidMove)
                                } else if !self.spec_decl_allowed(d) {
                                    Some(SkatError::InvalidMove)
                                } else {
                                    None
                                },
                                DeclarationMove::Overbidden => if self.spec_any_allowed() {
                                    Some(SkatError::InvalidMove)
                                } else {
                                    None
                                },
                            }
                        },
                    }
                }
            },
            GameState::Revealing(i) => {
                let hand = self.cards.spec_hand(self.declarer);
                if actor != Actor::Seat(self.declarer) {
                    Some(SkatError::InvalidPlayer)
                } else {
                    match spec_decode_card(m) {
                        None => Some(SkatError::InvalidMove),
                        Some(c) => if i >= hand.len() {
                            Some(SkatError::InvalidState)
                        } else {
                            match hand[i as int] {
                                OptCard::Hidden => if self.cards.all_cards().contains(c) {
                                    Some(SkatError::InvalidMove)
                                } else {
                                    None
                                },
                                OptCard::Known(t) => if c == t {
                                    None
                                } else {
                                    Some(SkatError::InvalidMove)
                                },
                            }
                        },
                    }
                }
            },
            GameState::Playing(ps) => {
                if actor != Actor::Seat(ps.player) {
                    Some(SkatError::InvalidPlayer)
                } else {
                    match spec_decode_card(m) {
                        None => Some(SkatError::InvalidMove),
                        Some(c) => if self.cards.spec_allowed(ps.player, self.declaration)
                            .contains(c) {
                            None
                        } else {
                            Some(SkatError::InvalidMove)
                        },
                    }
                }
            },
            GameState::Finished(_) => Some(SkatError::InvalidState),
        }
    }

    /// Validate a candidate move without applying it: the acting identity,
    /// the move's structure for the phase, and the phase's rules.
    pub fn is_legal_move(&self, actor: Actor, m: u64) -> (r: Result<(), SkatError>)
        ensures
            r == (match self.spec_legal_err(actor, m) {
                Some(e) => Err::<(), SkatError>(e),
                None => Ok::<(), SkatError>(()),
            }),
    {
        match &self.state {
            GameState::Dealing => {
                if actor != Actor::Environment {
                    return Err(SkatError::InvalidPlayer);
                }
                match crate::codec::decode_opt_card(m) {
                    Err(e) => Err(e),
                    Ok(OptCard::Hidden) => Ok(()),
                    Ok(OptCard::Known(c)) => {
                        if self.cards.contains_known(c) {
                            Err(SkatError::InvalidMove)
                        } else {
                            Ok(())
                        }
                    },
                }
            },
            GameState::Bidding(b) => {
                if actor != Actor::Seat(b.source()) {
                    return Err(SkatError::InvalidPlayer);
                }
                if b.respond() {
                    if m > 1 {
                        Err(SkatError::InvalidMove)
                    } else {
                        Ok(())
                    }
                } else if m != 0 && (m <= self.bid as u64 || m > MAXIMUM_BID as u64) {
                    Err(SkatError::InvalidMove)
                } else {
                    Ok(())
                }
            },
            GameState::SkatDecision => {
                if actor != Actor::Seat(self.declarer) {
                    Err(SkatError::InvalidPlayer)
                } else if m > 1 {
                    Err(SkatError::InvalidMove)
                } else {
                    Ok(())
                }
            },
            GameState::Picking => {
                if actor != Actor::Environment {
                    return Err(SkatError::InvalidPlayer);
                }
                if self.cards.skat.len() == 0 {
                    return Err(SkatError::InvalidState);
                }
                match crate::codec::decode_opt_card(m) {
                    Err(e) => Err(e),
                    Ok(OptCard::Hidden) => Ok(()),
                    Ok(OptCard::Known(c)) => {
                        match self.cards.skat[self.cards.skat.len() - 1] {
                            OptCard::Known(k) => {
                                if c == k {
                                    Ok(())
                                } else {
                                    Err(SkatError::InvalidMove)
                                }
                            },
                            OptCard::Hidden => {
                                if self.cards.contains_known(c) {
                                    Err(SkatError::InvalidMove)
                                } else {
                                    Ok(())
                                }
                            },
                        }
                    },
                }
            },
            GameState::Putting => {
                if actor != Actor::Seat(self.declarer) {
                    return Err(SkatError::InvalidPlayer);
                }
                let hand = &self.cards.hands[self.declarer.index()];
                if hand.len() == 0 {
                    return Err(SkatError::InvalidState);
                }
                match crate::codec::decode_opt_card(m) {
                    Err(e) => Err(e),
                    Ok(OptCard::Hidden) => Ok(()),
                    Ok(OptCard::Known(c)) => {
                        let held = crate::store::known_row(hand);
                        if crate::decl::contains_card(&held, c) {
                            Ok(())
                        } else if crate::store::row_has_hidden(hand) {
                            if self.cards.contains_known(c) {
                                Err(SkatError::InvalidMove)
                            } else {
                                Ok(())
                            }
                        } else {
                            Err(SkatError::InvalidMove)
                        }
                    },
                }
            },
            GameState::Declaring => {
                if actor != Actor::Seat(self.declarer) {
                    return Err(SkatError::InvalidPlayer);
                }
                match crate::codec::decode_declaration_move(m) {
                    Err(e) => Err(e),
                    Ok(dm) => {
                        let mats = match self.calculate_matadors() {
                            None => {
                                return Ok(());
                            },
                            Some(mats) => mats,
                        };
                        match dm {
                            DeclarationMove::Declare(d) => {
                                if d.is_hand() != self.declaration.is_hand() {
                                    Err(SkatError::InvalidMove)
                                } else if !d.allowed(self.bid, &mats) {
                                    Err(SkatError::InvalidMove)
                                } else {
                                    Ok(())
                                }
                            },
                            DeclarationMove::Overbidden => {
                                if self.any_declaration_allowed(&mats) {
                                    Err(SkatError::InvalidMove)
                                } else {
                                    Ok(())
                                }
                            },
                        }
                    },
                }
            },
            GameState::Revealing(i) => {
                let i = *i;
                if actor != Actor::Seat(self.declarer) {
                    return Err(SkatError::InvalidPlayer);
                }
                match crate::codec::decode_card(m) {
                    Err(e) => Err(e),
                    Ok(c) => {
                        let hand = &self.cards.hands[self.declarer.index()];
                        if i >= hand.len() {
                            return Err(SkatError::InvalidState);
                        }
                        match hand[i] {
                            OptCard::Hidden => {
                                if self.cards.contains_known(c) {
                                    Err(SkatError::InvalidMove)
                                } else {
                                    Ok(())
                                }
                            },
                            OptCard::Known(t) => {
                                if c == t {
                                    Ok(())
                                } else {
                                    Err(SkatError::InvalidMove)
                                }
                            },
                        }
                    },
                }
            },
            GameState::Playing(ps) => {
                if actor != Actor::Seat(ps.player) {
                    return Err(SkatError::InvalidPlayer);
                }
                match crate::codec::decode_card(m) {
                    Err(e) => Err(e),
                    Ok(c) => {
                        let legal = self.cards.allowed(ps.player, self.declaration);
                        if crate::decl::contains_card(&legal, c) {
                            Ok(())
                        } else {
                            Err(SkatError::InvalidMove)
                        }
                    },
                }
            },
            GameState::Finished(_) => Err(SkatError::InvalidState),
        }
    }

    /// Whether any declaration consistent with the Hand flag stays within
    /// the accepted bid, given the declarer's matador counts.
    fn any_declaration_allowed(&self, mats: &Matadors) -> (r: bool)
        requires
            !self.spec_decl_hidden(),
            mats.clubs == Matadors::spec_count(self.spec_decl_cards(), Suit::Clubs),
            mats.spades == Matadors::spec_count(self.spec_decl_cards(), Suit::Spades),
            mats.hearts == Matadors::spec_count(self.spec_decl_cards(), Suit::Hearts),
            mats.diamonds == Matadors::spec_count(self.spec_decl_cards(), Suit::Diamonds),
        ensures
            r == self.spec_any_allowed(),
    {
        let all = Declaration::all(self.declaration.is_hand());
        let ghost f = self.declaration.spec_is_hand();
        let mut i: usize = 0;
        while i < all.len()
            invariant
                i <= all@.len(),
                all@ == Declaration::spec_all(f),
                f == self.declaration.spec_is_hand(),
                !self.spec_decl_hidden(),
                mats.clubs == Matadors::spec_count(self.spec_decl_cards(), Suit::Clubs),
                mats.spades == Matadors::spec_count(self.spec_decl_cards(), Suit::Spades),
                mats.hearts == Matadors::spec_count(self.spec_decl_cards(), Suit::Hearts),
                mats.diamonds == Matadors::spec_count(self.spec_decl_cards(), Suit::Diamonds),
                forall|j: int| 0 <= j < i ==> !self.spec_decl_allowed(
                    #[trigger] Declaration::spec_all(f)[j],
                ),
            decreases all@.len() - i,
        {
            if all[i].allowed(self.bid, mats) {
                proof {
                    assert(mats.spec_get(match all@[i as int] {
                        Declaration::Normal(mode, _) => mode,
                        _ => NormalMode::Grand,
                    }) == spec_mats(self.spec_decl_cards(), match all@[i as int] {
                        Declaration::Normal(mode, _) => mode,
                        _ => NormalMode::Grand,
                    }));
                    assert(self.spec_decl_allowed(Declaration::spec_all(f)[i as int]));
                }
                return true;
            }
            proof {
                assert(mats.spec_get(match all@[i as int] {
                    Declaration::Normal(mode, _) => mode,
                    _ => NormalMode::Grand,
                }) == spec_mats(self.spec_decl_cards(), match all@[i as int] {
                    Declaration::Normal(mode, _) => mode,
                    _ => NormalMode::Grand,
                }));
            }
            i += 1;
        }
        false
    }
}

/// The seat `w` places after `p` in rotation order, for `w` under 3.
pub open spec fn nth_next(p: Player, w: int) -> Player {
    if w == 0 {
        p
    } else if w == 1 {
        p.spec_next()
    } else {
        p.spec_next().spec_next()
    }
}

pub open spec fn bool_to_int(b: bool) -> int {
    if b {
        1
    } else {
        0
    }
}

/// The declarer's final score.  A Null contract pays its fixed value when
/// the declarer took no trick and costs twice that value otherwise.  A
/// regular contract multiplies the mode's base value by one plus the Hand,
/// Schneider and Schwarz increments (achieved or announced, announcements
/// counting twice), the Ouvert increment and the matador count of `cards`;
/// the declarer collects that value after winning with every announcement
/// achieved and the value covering the bid, and otherwise pays twice the
/// larger of value and bid.
pub open spec fn spec_score(
    decl: Declaration,
    bid: u16,
    dp: Option<u16>,
    tp: Option<u16>,
    cards: Seq<Card>,
) -> int {
    match decl {
        Declaration::Normal(mode, _) => {
            let won = opt_points(dp) >= POINTS_WINNING;
            let looser = if won {
                tp
            } else {
                dp
            };
            let schneider = opt_points(looser) <= POINTS_SCHNEIDER;
            let schwarz = looser is None;
            let sa = decl.spec_is_schneider();
            let swa = decl.spec_is_schwarz();
            let multiplier = 1 + bool_to_int(decl.spec_is_hand()) + bool_to_int(schneider || sa)
                + bool_to_int(sa) + bool_to_int(schwarz || swa) + bool_to_int(swa) + bool_to_int(
                decl.spec_is_ouvert(),
            ) + spec_mats(cards, mode);
            let value = mode.spec_base_value() * multiplier;
            if won && (!sa || schneider) && (!swa || schwarz) && value >= bid {
                value
            } else {
                -2 * vstd::math::max(value, bid as int)
            }
        },
        _ => if dp is Some {
            -2 * decl.spec_null_value()
        } else {
            decl.spec_null_value()
        },
    }
}

/// The store after giving `card` to `target`, everything else unchanged.
pub open spec fn give_rel(
    a: CardStruct,
    b: CardStruct,
    target: Option<Player>,
    card: OptCard,
) -> bool {
    &&& match target {
        Some(p) => {
            &&& b.spec_hand(p) == a.spec_hand(p).push(card)
            &&& b.skat@ == a.skat@
            &&& forall|q: Player| q != p ==> b.spec_hand(q) == a.spec_hand(q)
        },
        None => {
            &&& b.skat@ == a.skat@.push(card)
            &&& forall|q: Player| b.spec_hand(q) == a.spec_hand(q)
        },
    }
    &&& b.trick@ == a.trick@
    &&& b.last_trick == a.last_trick
    &&& forall|q: Player| b.spec_played(q) == a.spec_played(q)
}

impl Skat {
    /// The cards the end-of-deal matador count reads: what the declarer
    /// played over the deal, plus the known widow cards.
    pub open spec fn scoring_cards(self) -> Seq<Card> {
        self.cards.spec_played(self.declarer) + knowns(self.cards.skat@)
    }

    /// How applying the legal move `m` transforms the deal: the single
    /// definition of every phase transition.
    pub open spec fn spec_step(pre: Skat, post: Skat, m: u64) -> bool {
        match pre.state {
            GameState::Dealing => {
                let card = spec_decode_opt_card(m).unwrap();
                let d = pre.cards.store_len();
                &&& give_rel(pre.cards, post.cards, deal_target(d), card)
                &&& post.state == (if d + 1 >= 32 {
                    GameState::Bidding(BiddingState::MiddleCallsFore)
                } else {
                    GameState::Dealing
                })
                &&& post.bid == pre.bid
                &&& post.declarer == pre.declarer
                &&& post.declaration == pre.declaration
            },
            GameState::Bidding(b) => {
                let any_bid = pre.bid >= MINIMUM_BID;
                let passed = m == 0;
                let nbid = if m >= 2 {
                    m as u16
                } else {
                    pre.bid
                };
                &&& post.cards == pre.cards
                &&& post.bid == nbid
                &&& post.declaration == pre.declaration
                &&& match b.spec_next(passed, any_bid) {
                    BiddingResult::Continue(s2) => post.state == GameState::Bidding(s2)
                        && post.declarer == pre.declarer,
                    BiddingResult::Finished(p) => post.declarer == p && post.state
                        == GameState::SkatDecision,
                    BiddingResult::Draw => post.declarer == pre.declarer && (post.state matches
                    GameState::Finished(ws) && ws@ == Seq::<Player>::empty()),
                }
            },
            GameState::SkatDecision => {
                &&& post.cards == pre.cards
                &&& post.bid == pre.bid
                &&& post.declarer == pre.declarer
                &&& if m == 0 {
                    post.declaration == Declaration::NullHand && post.state
                        == GameState::Declaring
                } else {
                    post.declaration == pre.declaration && post.state == GameState::Picking
                }
            },
            GameState::Picking => {
                let card = spec_decode_opt_card(m).unwrap();
                &&& post.cards.skat@ == pre.cards.skat@.drop_last()
                &&& post.cards.spec_hand(pre.declarer) == pre.cards.spec_hand(
                    pre.declarer,
                ).push(card)
                &&& forall|q: Player| q != pre.declarer ==> post.cards.spec_hand(q)
                    == pre.cards.spec_hand(q)
                &&& post.cards.trick@ == pre.cards.trick@
                &&& post.cards.last_trick == pre.cards.last_trick
                &&& forall|q: Player| post.cards.spec_played(q) == pre.cards.spec_played(q)
                &&& post.state == (if pre.cards.skat@.len() == 1 {
                    GameState::Putting
                } else {
                    GameState::Picking
                })
                &&& post.bid == pre.bid
                &&& post.declarer == pre.declarer
                &&& post.declaration == pre.declaration
            },
            GameState::Putting => {
                let card = spec_decode_opt_card(m).unwrap();
                let h2 = spec_take(pre.cards.spec_hand(pre.declarer), card).unwrap();
                &&& post.cards.spec_hand(pre.declarer) == h2
                &&& forall|q: Player| q != pre.declarer ==> post.cards.spec_hand(q)
                    == pre.cards.spec_hand(q)
                &&& post.cards.skat@ == pre.cards.skat@.push(card)
                &&& post.cards.trick@ == pre.cards.trick@
                &&& post.cards.last_trick == pre.cards.last_trick
                &&& forall|q: Player| post.cards.spec_played(q) == pre.cards.spec_played(q)
                &&& post.state == (if pre.cards.skat@.len() + 1 >= 2 {
                    GameState::Declaring
                } else {
                    GameState::Putting
                })
                &&& post.bid == pre.bid
                &&& post.declarer == pre.declarer
                &&& post.declaration == pre.declaration
            },
            GameState::Declaring => {
                let dm = spec_decode_declaration_move(m).unwrap();
                &&& post.cards == pre.cards
                &&& post.bid == pre.bid
                &&& post.declarer == pre.declarer
                &&& match dm {
                    DeclarationMove::Declare(d) => {
                        &&& post.declaration == d
                        &&& post.state == (if d.spec_is_ouvert() {
                            GameState::Revealing(0)
                        } else {
                            GameState::Playing(
                                PlayingState {
                                    player: Player::Forehand,
                                    declarer_points: None,
                                    team_points: None,
                                },
                            )
                        })
                    },
                    DeclarationMove::Overbidden => {
                        &&& post.declaration == pre.declaration
                        &&& post.state matches GameState::Finished(ws) && ws@ == pre.declarer.spec_others()
                    },
                }
            },
            GameState::Revealing(i) => {
                let c = spec_decode_card(m).unwrap();
                let h = pre.cards.spec_hand(pre.declarer);
                &&& post.cards.spec_hand(pre.declarer) == h.update(i as int, OptCard::Known(c))
                &&& forall|q: Player| q != pre.declarer ==> post.cards.spec_hand(q)
                    == pre.cards.spec_hand(q)
                &&& post.cards.skat@ == pre.cards.skat@
                &&& post.cards.trick@ == pre.cards.trick@
                &&& post.cards.last_trick == pre.cards.last_trick
                &&& forall|q: Player| post.cards.spec_played(q) == pre.cards.spec_played(q)
                &&& post.state == (if i + 1 >= h.len() {
                    GameState::Playing(
                        PlayingState {
                            player: Player::Forehand,
                            declarer_points: None,
                            team_points: None,
                        },
                    )
                } else {
                    GameState::Revealing((i + 1) as usize)
                })
                &&& post.bid == pre.bid
                &&& post.declarer == pre.declarer
                &&& post.declaration == pre.declaration
            },
            GameState::Playing(ps) => {
                let c = spec_decode_card(m).unwrap();
                let h2 = spec_take(pre.cards.spec_hand(ps.player), OptCard::Known(c)).unwrap();
                let trick2 = pre.cards.trick@.push(c);
                &&& post.cards.spec_hand(ps.player) == h2
                &&& forall|q: Player| q != ps.player ==> post.cards.spec_hand(q)
                    == pre.cards.spec_hand(q)
                &&& post.cards.skat@ == pre.cards.skat@
                &&& post.bid == pre.bid
                &&& post.declarer == pre.declarer
                &&& post.declaration == pre.declaration
                &&& if trick2.len() < 3 {
                    &&& post.cards.trick@ == trick2
                    &&& post.cards.last_trick == pre.cards.last_trick
                    &&& forall|q: Player| post.cards.spec_played(q) == pre.cards.spec_played(q)
                    &&& post.state == GameState::Playing(
                        PlayingState {
                            player: ps.player.spec_next(),
                            declarer_points: ps.declarer_points,
                            team_points: ps.team_points,
                        },
                    )
                } else {
                    let leader = ps.player.spec_next();
                    let w = crate::trick::spec_trick_winner(trick2, pre.declaration);
                    let winner = nth_next(leader, w);
                    let pts = crate::store::card_points_sum(trick2);
                    let dp2 = if winner == pre.declarer {
                        Some((opt_points(ps.declarer_points) + pts) as u16)
                    } else {
                        ps.declarer_points
                    };
                    let tp2 = if winner != pre.declarer {
                        Some((opt_points(ps.team_points) + pts) as u16)
                    } else {
                        ps.team_points
                    };
                    let ended = (pre.declaration.spec_is_null() && dp2 is Some) || (
                    pre.declaration.spec_is_schwarz() && tp2 is Some) || (forall|q: Player|
                        post.cards.spec_hand(q).len() == 0);
                    &&& post.cards.trick@ == Seq::<Card>::empty()
                    &&& post.cards.last_trick matches Some(lt) && lt@ == trick2
                    &&& post.cards.spec_played(leader) == pre.cards.spec_played(leader).push(
                        trick2[0],
                    )
                    &&& post.cards.spec_played(leader.spec_next()) == pre.cards.spec_played(
                        leader.spec_next(),
                    ).push(trick2[1])
                    &&& post.cards.spec_played(leader.spec_next().spec_next())
                        == pre.cards.spec_played(leader.spec_next().spec_next()).push(trick2[2])
                    &&& if ended {
                        post.state matches GameState::Finished(ws) && ws@ == (if spec_score(
                            pre.declaration,
                            pre.bid,
                            dp2,
                            tp2,
                            post.cards.spec_played(pre.declarer) + knowns(post.cards.skat@),
                        ) > 0 {
                            seq![pre.declarer]
                        } else {
                            pre.declarer.spec_others()
                        })
                    } else {
                        post.state == GameState::Playing(
                            PlayingState {
                                player: winner,
                                declarer_points: dp2,
                                team_points: tp2,
                            },
                        )
                    }
                }
            },
            GameState::Finished(_) => false,
        }
    }
}

impl Skat {
    /// Apply a dealing move that was validated: give the card slot to the
    /// seat the rotation designates and advance to bidding on the last one.
    #[verifier::rlimit(100)]
    #[verifier::spinoff_prover]
    fn apply_deal(&mut self, m: u64)
        requires
            old(self).inv(),
            old(self).state is Dealing,
            old(self).spec_legal_err(Actor::Environment, m) is None,
        ensures
            Skat::spec_step(*old(self), *final(self), m),
            final(self).inv(),
    {
        broadcast use vstd::seq_lib::group_to_multiset_ensures;

        let card = match crate::codec::decode_opt_card(m) {
            Ok(c) => c,
            Err(_) => {
                proof {
                    assert(false);
                }
                return ;
            },
        };
        let ghost pre = *old(self);
        let dealt = self.cards.count();
        let target = deal_to(dealt);
        self.cards.give(target, card);
        if dealt as usize + 1 >= 32 {
            self.state = GameState::Bidding(BiddingState::MiddleCallsFore);
        }
        proof {
            let d = pre.cards.store_len();
            let post = *final(self);
            assert(pre.cards.hands@[0]@ == pre.cards.spec_hand(Player::Forehand));
            assert(pre.cards.hands@[1]@ == pre.cards.spec_hand(Player::Middlehand));
            assert(pre.cards.hands@[2]@ == pre.cards.spec_hand(Player::Rearhand));
            assert(post.cards.hands@[0]@ == post.cards.spec_hand(Player::Forehand));
            assert(post.cards.hands@[1]@ == post.cards.spec_hand(Player::Middlehand));
            assert(post.cards.hands@[2]@ == post.cards.spec_hand(Player::Rearhand));
            assert(pre.cards.played@[0]@ == pre.cards.spec_played(Player::Forehand));
            assert(pre.cards.played@[1]@ == pre.cards.spec_played(Player::Middlehand));
            assert(pre.cards.played@[2]@ == pre.cards.spec_played(Player::Rearhand));
            assert(post.cards.played@[0]@ == post.cards.spec_played(Player::Forehand));
            assert(post.cards.played@[1]@ == post.cards.spec_played(Player::Middlehand));
            assert(post.cards.played@[2]@ == post.cards.spec_played(Player::Rearhand));
            // slot counts follow the dealing pattern one step further
            assert(post.cards.store_len() == d + 1);
            assert(forall|p: Player| #[trigger] post.cards.spec_hand(p).len() == dealt_to_count(
                d + 1,
                Some(p),
            ));
            assert(post.cards.skat@.len() == dealt_to_count(d + 1, None));
            if d + 1 >= 32 {
                lemma_deal_counts_full();
            }
            // no concrete card is doubled: a hidden slot adds none, and a
            // known one was checked to be absent everywhere
            pre.cards.lemma_all_cards_mset();
            post.cards.lemma_all_cards_mset();
            match target {
                Some(p) => {
                    crate::store::lemma_knowns_push(pre.cards.spec_hand(p), card);
                },
                None => {
                    crate::store::lemma_knowns_push(pre.cards.skat@, card);
                },
            }
            match card {
                OptCard::Hidden => {
                    assert(forall|c: Card| #[trigger] post.cards.card_count(c)
                        == pre.cards.card_count(c));
                },
                OptCard::Known(x) => {
                    assert(!pre.cards.all_cards().contains(x));
                    assert(pre.cards.card_count(x) == 0);
                    assert(forall|c: Card| c != x ==> #[trigger] post.cards.card_count(c)
                        == pre.cards.card_count(c));
                    assert(post.cards.card_count(x) == 1);
                },
            }
        }
    }
}

impl Skat {
    /// Apply a validated bidding statement: a new bid raises the running
    /// highest, and the automaton decides who speaks next or who declares.
    fn apply_bid(&mut self, m: u64)
        requires
            old(self).inv(),
            old(self).state matches GameState::Bidding(b) && old(self).spec_legal_err(
                Actor::Seat(b.spec_source()),
                m,
            ) is None,
        ensures
            Skat::spec_step(*old(self), *final(self), m),
            final(self).inv(),
    {
        let b = match &self.state {
            GameState::Bidding(b) => *b,
            _ => {
                proof {
                    assert(false);
                }
                return ;
            },
        };
        let any_bid = self.bid >= MINIMUM_BID;
        let passed = m == 0;
        if m >= 2 {
            self.bid = m as u16;
        }
        match b.next(passed, any_bid) {
            BiddingResult::Continue(s2) => {
                self.state = GameState::Bidding(s2);
            },
            BiddingResult::Finished(p) => {
                self.declarer = p;
                self.state = GameState::SkatDecision;
            },
            BiddingResult::Draw => {
                self.state = GameState::Finished(Vec::new());
            },
        }
    }

    /// Apply the declarer's validated widow decision: code 0 commits to a
    /// Hand game, code 1 picks the widow up.
    fn apply_skat_decision(&mut self, m: u64)
        requires
            old(self).inv(),
            old(self).state is SkatDecision,
            old(self).spec_legal_err(Actor::Seat(old(self).declarer), m) is None,
        ensures
            Skat::spec_step(*old(self), *final(self), m),
            final(self).inv(),
    {
        if m == 0 {
            // the Null-Hand marker records the Hand flag until the real
            // declaration replaces it
            self.declaration = Declaration::NullHand;
            self.state = GameState::Declaring;
        } else {
            self.state = GameState::Picking;
        }
    }

    /// Apply a validated picking move: the top widow slot transfers to the
    /// declarer's hand under the identity the move discloses.
    #[verifier::rlimit(100)]
    #[verifier::spinoff_prover]
    fn apply_picking(&mut self, m: u64)
        requires
            old(self).inv(),
            old(self).state is Picking,
            old(self).spec_legal_err(Actor::Environment, m) is None,
        ensures
            Skat::spec_step(*old(self), *final(self), m),
            final(self).inv(),
    {
        broadcast use vstd::seq_lib::group_to_multiset_ensures;

        let card = match crate::codec::decode_opt_card(m) {
            Ok(c) => c,
            Err(_) => {
                proof {
                    assert(false);
                }
                return ;
            },
        };
        let ghost pre = *old(self);
        let declarer = self.declarer;
        let _ = self.cards.skat.pop();
        self.cards.give(Some(declarer), card);
        if self.cards.skat.is_empty() {
            self.state = GameState::Putting;
        }
        proof {
            let post = *final(self);
            assert(pre.cards.hands@[0]@ == pre.cards.spec_hand(Player::Forehand));
            assert(pre.cards.hands@[1]@ == pre.cards.spec_hand(Player::Middlehand));
            assert(pre.cards.hands@[2]@ == pre.cards.spec_hand(Player::Rearhand));
            assert(post.cards.hands@[0]@ == post.cards.spec_hand(Player::Forehand));
            assert(post.cards.hands@[1]@ == post.cards.spec_hand(Player::Middlehand));
            assert(post.cards.hands@[2]@ == post.cards.spec_hand(Player::Rearhand));
            assert(pre.cards.played@[0]@ == pre.cards.spec_played(Player::Forehand));
            assert(pre.cards.played@[1]@ == pre.cards.spec_played(Player::Middlehand));
            assert(pre.cards.played@[2]@ == pre.cards.spec_played(Player::Rearhand));
            assert(post.cards.played@[0]@ == post.cards.spec_played(Player::Forehand));
            assert(post.cards.played@[1]@ == post.cards.spec_played(Player::Middlehand));
            assert(post.cards.played@[2]@ == post.cards.spec_played(Player::Rearhand));
            pre.cards.lemma_all_cards_mset();
            post.cards.lemma_all_cards_mset();
            crate::store::lemma_knowns_push(pre.cards.spec_hand(declarer), card);
            // one unfolding step of the widow's known cards
            assert(knowns(pre.cards.skat@) == knowns(pre.cards.skat@.drop_last()) + (match pre
                .cards.skat@.last() {
                OptCard::Hidden => Seq::<Card>::empty(),
                OptCard::Known(k) => seq![k],
            }));
            match pre.cards.skat@.last() {
                OptCard::Hidden => {
                    crate::store::lemma_to_multiset_add(
                        knowns(pre.cards.skat@.drop_last()),
                        Seq::<Card>::empty(),
                    );
                    assert(knowns(pre.cards.skat@) =~= knowns(pre.cards.skat@.drop_last()));
                },
                OptCard::Known(k) => {
                    crate::store::lemma_to_multiset_add(
                        knowns(pre.cards.skat@.drop_last()),
                        seq![k],
                    );
                    assert(seq![k] =~= Seq::<Card>::empty().push(k));
                },
            }
            assert(forall|c: Card| #[trigger] post.cards.card_count(c) <= pre.cards.card_count(c)
                + (match card {
                OptCard::Known(x) => if c == x {
                    1int
                } else {
                    0
                },
                OptCard::Hidden => 0,
            }));
            match card {
                OptCard::Hidden => {},
                OptCard::Known(x) => {
                    match pre.cards.skat@.last() {
                        OptCard::Known(k) => {
                            assert(x == k);
                            assert(post.cards.card_count(x) <= pre.cards.card_count(x));
                        },
                        OptCard::Hidden => {
                            assert(!pre.cards.all_cards().contains(x));
                            assert(pre.cards.card_count(x) == 0);
                        },
                    }
                },
            }
        }
    }

    /// Apply a validated putting move: the requested card leaves the
    /// declarer's hand, a hidden slot standing in when needed, and goes
    /// back into the widow.
    #[verifier::rlimit(100)]
    #[verifier::spinoff_prover]
    fn apply_putting(&mut self, m: u64)
        requires
            old(self).inv(),
            old(self).state is Putting,
            old(self).spec_legal_err(Actor::Seat(old(self).declarer), m) is None,
        ensures
            Skat::spec_step(*old(self), *final(self), m),
            final(self).inv(),
    {
        broadcast use vstd::seq_lib::group_to_multiset_ensures;

        let card = match crate::codec::decode_opt_card(m) {
            Ok(c) => c,
            Err(_) => {
                proof {
                    assert(false);
                }
                return ;
            },
        };
        let ghost pre = *old(self);
        let declarer = self.declarer;
        proof {
            // the validated request always finds a slot to take
            let h = pre.cards.spec_hand(declarer);
            match card {
                OptCard::Hidden => {
                    assert(redacted(h)[0] == OptCard::Hidden);
                    assert(redacted(h).contains(OptCard::Hidden));
                },
                OptCard::Known(c) => {
                    if knowns(h).contains(c) {
                        crate::store::lemma_knowns_contains(h, c);
                    }
                },
            }
            assert(spec_take(pre.cards.spec_hand(declarer), card) is Some);
        }
        match self.cards.take(declarer, card) {
            Ok(()) => {},
            Err(_) => {
                proof {
                    assert(false);
                }
                return ;
            },
        }
        self.cards.give(None, card);
        if self.cards.skat.len() >= 2 {
            self.state = GameState::Declaring;
        }
        proof {
            let post = *final(self);
            let h = pre.cards.spec_hand(declarer);
            assert(pre.cards.hands@[0]@ == pre.cards.spec_hand(Player::Forehand));
            assert(pre.cards.hands@[1]@ == pre.cards.spec_hand(Player::Middlehand));
            assert(pre.cards.hands@[2]@ == pre.cards.spec_hand(Player::Rearhand));
            assert(post.cards.hands@[0]@ == post.cards.spec_hand(Player::Forehand));
            assert(post.cards.hands@[1]@ == post.cards.spec_hand(Player::Middlehand));
            assert(post.cards.hands@[2]@ == post.cards.spec_hand(Player::Rearhand));
            assert(pre.cards.played@[0]@ == pre.cards.spec_played(Player::Forehand));
            assert(pre.cards.played@[1]@ == pre.cards.spec_played(Player::Middlehand));
            assert(pre.cards.played@[2]@ == pre.cards.spec_played(Player::Rearhand));
            assert(post.cards.played@[0]@ == post.cards.spec_played(Player::Forehand));
            assert(post.cards.played@[1]@ == post.cards.spec_played(Player::Middlehand));
            assert(post.cards.played@[2]@ == post.cards.spec_played(Player::Rearhand));
            pre.cards.lemma_all_cards_mset();
            post.cards.lemma_all_cards_mset();
            crate::store::lemma_take_counts(h, card);
            crate::store::lemma_knowns_push(pre.cards.skat@, card);
            match card {
                OptCard::Hidden => {
                    assert(forall|c: Card| #[trigger] post.cards.card_count(c)
                        <= pre.cards.card_count(c));
                },
                OptCard::Known(x) => {
                    if h.contains(card) {
                        assert(forall|c: Card| #[trigger] post.cards.card_count(c)
                            == pre.cards.card_count(c));
                    } else {
                        assert(!knowns(h).contains(x)) by {
                            crate::store::lemma_knowns_contains(h, x);
                        }
                        assert(!pre.cards.all_cards().contains(x));
                        assert(pre.cards.card_count(x) == 0);
                        assert(forall|c: Card| c != x ==> #[trigger] post.cards.card_count(c)
                            == pre.cards.card_count(c));
                        assert(post.cards.card_count(x) <= 1);
                    }
                },
            }
        }
    }
}

fn bool_increment(b: bool) -> (r: i16)
    ensures
        r == bool_to_int(b),
{
    if b {
        1
    } else {
        0
    }
}

/// The declarer's score, computed from the contract, the accepted bid, the
/// two tallies and the cards the matador count reads.
#[verifier::rlimit(100)]
#[verifier::spinoff_prover]
fn score_value(decl: Declaration, bid: u16, dp: Option<u16>, tp: Option<u16>, cards: &Vec<Card>)
    -> (r: i16)
    requires
        bid <= MAXIMUM_BID,
    ensures
        r as int == spec_score(decl, bid, dp, tp, cards@),
        (r > 0) == (spec_score(decl, bid, dp, tp, cards@) > 0),
{
    if decl.is_null() {
        let v = decl.null_value() as i16;
        if dp.is_some() {
            -2 * v
        } else {
            v
        }
    } else {
        let mode = match decl {
            Declaration::Normal(mode, _) => mode,
            _ => {
                proof {
                    assert(false);
                }
                return 0;
            },
        };
        let dpts: u16 = match dp {
            Some(x) => x,
            None => 0,
        };
        let won = dpts >= POINTS_WINNING;
        let looser = if won {
            tp
        } else {
            dp
        };
        let lpts: u16 = match looser {
            Some(x) => x,
            None => 0,
        };
        let schneider = lpts <= POINTS_SCHNEIDER;
        let schwarz = looser.is_none();
        let sa = decl.is_schneider();
        let swa = decl.is_schwarz();
        let mats = Matadors::from_cards(cards).get(mode);
        let multiplier: i16 = 1 + bool_increment(decl.is_hand()) + bool_increment(schneider || sa)
            + bool_increment(sa) + bool_increment(schwarz || swa) + bool_increment(swa)
            + bool_increment(decl.is_ouvert()) + mats as i16;
        let base = mode.base_value() as i16;
        proof {
            assert(base * multiplier <= 6288 && base * multiplier >= 0) by (nonlinear_arith)
                requires 0 <= base <= 24 && 0 <= multiplier <= 262;
        }
        let value = base * multiplier;
        assert(0 <= value <= 6288);
        let bid_i = bid as i16;
        if won && (!sa || schneider) && (!swa || schwarz) && value >= bid_i {
            value
        } else {
            let loss = if value >= bid_i {
                value
            } else {
                bid_i
            };
            assert(0 <= loss <= 6288);
            assert(-32768 <= -2 * (loss as int) <= 32767);
            let penalty: i16 = -2 * loss;
            penalty
        }
    }
}

impl Skat {
    /// Calculates the declarer's score of the deal in progress, from the
    /// tallies so far, the contract, the bid, and the matadors read off the
    /// declarer's played cards and the known widow.
    pub fn calculate_points(&self) -> (r: i16)
        requires
            self.inv(),
            self.state matches GameState::Playing(_),
        ensures
            self.state matches GameState::Playing(ps) ==> r as int == spec_score(
                self.declaration,
                self.bid,
                ps.declarer_points,
                ps.team_points,
                self.scoring_cards(),
            ),
    {
        let ps = match &self.state {
            GameState::Playing(ps) => *ps,
            _ => {
                proof {
                    assert(false);
                }
                return 0;
            },
        };
        let mut scoring: Vec<Card> = Vec::new();
        crate::store::push_all(&mut scoring, &self.cards.played[self.declarer.index()]);
        let mut widow = crate::store::known_row(&self.cards.skat);
        scoring.append(&mut widow);
        proof {
            assert(scoring@ =~= self.scoring_cards());
        }
        score_value(self.declaration, self.bid, ps.declarer_points, ps.team_points, &scoring)
    }

    /// A Null contract is lost, at twice its fixed value, as soon as the
    /// declarer has taken any trick.
    pub proof fn lemma_null_loss(
        decl: Declaration,
        bid: u16,
        dp: Option<u16>,
        tp: Option<u16>,
        cards: Seq<Card>,
    )
        requires
            decl.spec_is_null(),
            dp is Some,
        ensures
            spec_score(decl, bid, dp, tp, cards) == -2 * decl.spec_null_value(),
    {
    }

    /// Apply a validated declaration: fix the contract and open play, with
    /// a reveal first for Ouvert contracts; an overbidden admission ends
    /// the deal for the opposing pair.
    fn apply_declaring(&mut self, m: u64)
        requires
            old(self).inv(),
            old(self).state is Declaring,
            old(self).spec_legal_err(Actor::Seat(old(self).declarer), m) is None,
        ensures
            Skat::spec_step(*old(self), *final(self), m),
            final(self).inv(),
    {
        let dm = match crate::codec::decode_declaration_move(m) {
            Ok(dm) => dm,
            Err(_) => {
                proof {
                    assert(false);
                }
                return ;
            },
        };
        match dm {
            DeclarationMove::Declare(d) => {
                self.declaration = d;
                if d.is_ouvert() {
                    self.state = GameState::Revealing(0);
                } else {
                    self.state = GameState::Playing(PlayingState::new());
                }
                proof {
                    assert(final(self).cards.store_len() == 32) by {
                        let s = *old(self);
                        assert(s.cards.hands@[0]@ == s.cards.spec_hand(Player::Forehand));
                        assert(s.cards.hands@[1]@ == s.cards.spec_hand(Player::Middlehand));
                        assert(s.cards.hands@[2]@ == s.cards.spec_hand(Player::Rearhand));
                        assert(s.cards.played@[0]@ == s.cards.spec_played(Player::Forehand));
                        assert(s.cards.played@[1]@ == s.cards.spec_played(Player::Middlehand));
                        assert(s.cards.played@[2]@ == s.cards.spec_played(Player::Rearhand));
                    }
                }
            },
            DeclarationMove::Overbidden => {
                let others = self.declarer.others();
                let mut ws: Vec<Player> = Vec::new();
                ws.push(others[0]);
                ws.push(others[1]);
                proof {
                    assert(ws@ =~= self.declarer.spec_others());
                }
                self.state = GameState::Finished(ws);
            },
        }
    }

    /// Apply a validated reveal: the next hand slot of the declarer becomes
    /// known as the disclosed card; after the last slot play begins.
    #[verifier::rlimit(100)]
    #[verifier::spinoff_prover]
    fn apply_revealing(&mut self, m: u64)
        requires
            old(self).inv(),
            old(self).state is Revealing,
            old(self).spec_legal_err(Actor::Seat(old(self).declarer), m) is None,
        ensures
            Skat::spec_step(*old(self), *final(self), m),
            final(self).inv(),
    {
        broadcast use vstd::seq_lib::group_to_multiset_ensures;

        let i = match &self.state {
            GameState::Revealing(i) => *i,
            _ => {
                proof {
                    assert(false);
                }
                return ;
            },
        };
        let c = match crate::codec::decode_card(m) {
            Ok(c) => c,
            Err(_) => {
                proof {
                    assert(false);
                }
                return ;
            },
        };
        let ghost pre = *old(self);
        let di = self.declarer.index();
        let n = self.cards.hands[di].len();
        self.cards.hands[di][i] = OptCard::Known(c);
        if i + 1 >= n {
            self.state = GameState::Playing(PlayingState::new());
        } else {
            self.state = GameState::Revealing(i + 1);
        }
        proof {
            let post = *final(self);
            let declarer = pre.declarer;
            let h = pre.cards.spec_hand(declarer);
            assert(pre.cards.hands@[0]@ == pre.cards.spec_hand(Player::Forehand));
            assert(pre.cards.hands@[1]@ == pre.cards.spec_hand(Player::Middlehand));
            assert(pre.cards.hands@[2]@ == pre.cards.spec_hand(Player::Rearhand));
            assert(post.cards.hands@[0]@ == post.cards.spec_hand(Player::Forehand));
            assert(post.cards.hands@[1]@ == post.cards.spec_hand(Player::Middlehand));
            assert(post.cards.hands@[2]@ == post.cards.spec_hand(Player::Rearhand));
            assert(pre.cards.played@[0]@ == pre.cards.spec_played(Player::Forehand));
            assert(pre.cards.played@[1]@ == pre.cards.spec_played(Player::Middlehand));
            assert(pre.cards.played@[2]@ == pre.cards.spec_played(Player::Rearhand));
            assert(post.cards.played@[0]@ == post.cards.spec_played(Player::Forehand));
            assert(post.cards.played@[1]@ == post.cards.spec_played(Player::Middlehand));
            assert(post.cards.played@[2]@ == post.cards.spec_played(Player::Rearhand));
            assert(forall|q: Player| q != declarer ==> #[trigger] q.ordinal() != declarer.ordinal());
            assert(post.cards.spec_hand(declarer) == h.update(i as int, OptCard::Known(c)));
            pre.cards.lemma_all_cards_mset();
            post.cards.lemma_all_cards_mset();
            crate::store::lemma_update_to_multiset(h, i as int, OptCard::Known(c));
            assert forall|x: Card| true implies #[trigger] knowns(
                h.update(i as int, OptCard::Known(c)),
            ).to_multiset().count(x) == knowns(h).to_multiset().count(x) - (if h[i as int]
                == OptCard::Known(x) {
                1int
            } else {
                0
            }) + (if x == c {
                1int
            } else {
                0
            }) by {
                crate::store::lemma_knowns_count(h, x);
                crate::store::lemma_knowns_count(h.update(i as int, OptCard::Known(c)), x);
            }
            match h[i as int] {
                OptCard::Hidden => {
                    assert(!pre.cards.all_cards().contains(c));
                    assert(pre.cards.card_count(c) == 0);
                    assert(forall|x: Card| x != c ==> #[trigger] post.cards.card_count(x)
                        == pre.cards.card_count(x));
                    assert(post.cards.card_count(c) <= 1);
                },
                OptCard::Known(t) => {
                    assert(t == c);
                    assert(forall|x: Card| #[trigger] post.cards.card_count(x)
                        == pre.cards.card_count(x));
                },
            }
        }
    }

    /// Apply a validated play: the card leaves the mover's hand for the
    /// trick; a completed trick is resolved, tallied and archived, and the
    /// deal ends as soon as its outcome is settled.
    #[verifier::rlimit(100)]
    #[verifier::spinoff_prover]
    fn apply_playing(&mut self, m: u64)
        requires
            old(self).inv(),
            old(self).state is Playing,
            old(self).state matches GameState::Playing(ps) && old(self).spec_legal_err(
                Actor::Seat(ps.player),
                m,
            ) is None,
        ensures
            Skat::spec_step(*old(self), *final(self), m),
            final(self).inv(),
    {
        broadcast use vstd::seq_lib::group_to_multiset_ensures;

        let ps = match &self.state {
            GameState::Playing(ps) => *ps,
            _ => {
                proof {
                    assert(false);
                }
                return ;
            },
        };
        let c = match crate::codec::decode_card(m) {
            Ok(c) => c,
            Err(_) => {
                proof {
                    assert(false);
                }
                return ;
            },
        };
        let ghost pre = *old(self);
        proof {
            broadcast use vstd::seq_lib::group_filter_ensures;
            broadcast use Seq::lemma_filter_contains_rev;

            let h = pre.cards.spec_hand(ps.player);
            if h.contains(OptCard::Hidden) {
            } else {
                assert(pre.cards.spec_allowed(ps.player, pre.declaration).contains(c));
                assert(knowns(h).contains(c));
                crate::store::lemma_knowns_contains(h, c);
            }
            assert(spec_take(h, OptCard::Known(c)) is Some);
        }
        match self.cards.take(ps.player, OptCard::Known(c)) {
            Ok(()) => {},
            Err(_) => {
                proof {
                    assert(false);
                }
                return ;
            },
        }
        let ghost mid = self.cards;
        self.cards.trick.push(c);
        let ghost mid2 = self.cards;
        proof {
            // the played card leaves the mover's hand, or a hidden stand-in
            // does while the card itself was still undealt; either way no
            // concrete card is doubled
            let h = pre.cards.spec_hand(ps.player);
            assert(pre.cards.hands@[0]@ == pre.cards.spec_hand(Player::Forehand));
            assert(pre.cards.hands@[1]@ == pre.cards.spec_hand(Player::Middlehand));
            assert(pre.cards.hands@[2]@ == pre.cards.spec_hand(Player::Rearhand));
            assert(mid2.hands@[0]@ == mid2.spec_hand(Player::Forehand));
            assert(mid2.hands@[1]@ == mid2.spec_hand(Player::Middlehand));
            assert(mid2.hands@[2]@ == mid2.spec_hand(Player::Rearhand));
            assert(pre.cards.played@[0]@ == pre.cards.spec_played(Player::Forehand));
            assert(pre.cards.played@[1]@ == pre.cards.spec_played(Player::Middlehand));
            assert(pre.cards.played@[2]@ == pre.cards.spec_played(Player::Rearhand));
            assert(mid2.played@[0]@ == mid2.spec_played(Player::Forehand));
            assert(mid2.played@[1]@ == mid2.spec_played(Player::Middlehand));
            assert(mid2.played@[2]@ == mid2.spec_played(Player::Rearhand));
            pre.cards.lemma_all_cards_mset();
            mid2.lemma_all_cards_mset();
            crate::store::lemma_take_counts(h, OptCard::Known(c));
            if h.contains(OptCard::Known(c)) {
                assert(forall|x: Card| #[trigger] mid2.card_count(x) == pre.cards.card_count(x));
            } else {
                assert(!knowns(h).contains(c)) by {
                    crate::store::lemma_knowns_contains(h, c);
                }
                assert(pre.cards.spec_allowed(ps.player, pre.declaration).contains(c));
                assert(!pre.cards.all_cards().contains(c)) by {
                    assert(h.contains(OptCard::Hidden));
                    let al = pre.cards.spec_allowed(ps.player, pre.declaration);
                    assert(al == knowns(h) + pre.cards.spec_undealt());
                    let j = choose|j: int| 0 <= j < al.len() && al[j] == c;
                    assert(j >= knowns(h).len());
                    assert(pre.cards.spec_undealt().contains(c));
                    lemma_undealt_not_held(pre.cards, c);
                }
                assert(pre.cards.card_count(c) == 0);
                assert(forall|x: Card| x != c ==> #[trigger] mid2.card_count(x)
                    == pre.cards.card_count(x));
                assert(mid2.card_count(c) <= 1);
            }
            assert(mid2.no_dup_cards());
            assert(mid2.store_len() == 32);
        }
        if self.cards.trick.len() < 3 {
            self.state = GameState::Playing(
                PlayingState {
                    player: ps.player.next(),
                    declarer_points: ps.declarer_points,
                    team_points: ps.team_points,
                },
            );
            return ;
        }
        let leader = ps.player.next();
        let w = crate::trick::trick_winner(&self.cards.trick, self.declaration);
        let winner = if w == 0 {
            leader
        } else if w == 1 {
            leader.next()
        } else {
            leader.next().next()
        };
        let pts = self.cards.trick_points();
        proof {
            // both tallies stay under what the played piles bound allows
            assert(pre.cards.hands@[0]@ == pre.cards.spec_hand(Player::Forehand));
            assert(pre.cards.hands@[1]@ == pre.cards.spec_hand(Player::Middlehand));
            assert(pre.cards.hands@[2]@ == pre.cards.spec_hand(Player::Rearhand));
            assert(pre.cards.played@[0]@ == pre.cards.spec_played(Player::Forehand));
            assert(pre.cards.played@[1]@ == pre.cards.spec_played(Player::Middlehand));
            assert(pre.cards.played@[2]@ == pre.cards.spec_played(Player::Rearhand));
            assert(opt_points(ps.declarer_points) + opt_points(ps.team_points) <= 330);
        }
        let dp = if winner == self.declarer {
            Some(
                match ps.declarer_points {
                    Some(x) => x + pts as u16,
                    None => pts as u16,
                },
            )
        } else {
            ps.declarer_points
        };
        let tp = if winner != self.declarer {
            Some(
                match ps.team_points {
                    Some(x) => x + pts as u16,
                    None => pts as u16,
                },
            )
        } else {
            ps.team_points
        };
        self.cards.put_trick(leader);
        let ghost mid3 = self.cards;
        proof {
            // archiving the trick moves each card to a played pile: the
            // card multiset of the store does not change
            let trick2 = mid2.trick@;
            assert(trick2 =~= Seq::<Card>::empty().push(trick2[0]).push(trick2[1]).push(
                trick2[2],
            ));
            assert(mid2.hands@[0]@ == mid2.spec_hand(Player::Forehand));
            assert(mid2.hands@[1]@ == mid2.spec_hand(Player::Middlehand));
            assert(mid2.hands@[2]@ == mid2.spec_hand(Player::Rearhand));
            assert(mid3.hands@[0]@ == mid3.spec_hand(Player::Forehand));
            assert(mid3.hands@[1]@ == mid3.spec_hand(Player::Middlehand));
            assert(mid3.hands@[2]@ == mid3.spec_hand(Player::Rearhand));
            assert(mid2.played@[0]@ == mid2.spec_played(Player::Forehand));
            assert(mid2.played@[1]@ == mid2.spec_played(Player::Middlehand));
            assert(mid2.played@[2]@ == mid2.spec_played(Player::Rearhand));
            assert(mid3.played@[0]@ == mid3.spec_played(Player::Forehand));
            assert(mid3.played@[1]@ == mid3.spec_played(Player::Middlehand));
            assert(mid3.played@[2]@ == mid3.spec_played(Player::Rearhand));
            mid2.lemma_all_cards_mset();
            mid3.lemma_all_cards_mset();
            assert(leader.spec_next().ordinal() != leader.ordinal());
            assert(forall|x: Card| #[trigger] mid3.card_count(x) == mid2.card_count(x));
            assert(mid3.no_dup_cards());
            assert(mid3.store_len() == 32);
        }
        let hands_empty = self.cards.hands[0].is_empty() && self.cards.hands[1].is_empty()
            && self.cards.hands[2].is_empty();
        let ended = (self.declaration.is_null() && dp.is_some()) || (self.declaration.is_schwarz()
            && tp.is_some()) || hands_empty;
        proof {
            assert(mid3.hands@[0]@ == mid3.spec_hand(Player::Forehand));
            assert(mid3.hands@[1]@ == mid3.spec_hand(Player::Middlehand));
            assert(mid3.hands@[2]@ == mid3.spec_hand(Player::Rearhand));
            assert(hands_empty == (forall|q: Player| mid3.spec_hand(q).len() == 0));
        }
        if ended {
            let mut scoring: Vec<Card> = Vec::new();
            crate::store::push_all(&mut scoring, &self.cards.played[self.declarer.index()]);
            let mut widow = crate::store::known_row(&self.cards.skat);
            scoring.append(&mut widow);
            proof {
                assert(scoring@ =~= mid3.spec_played(pre.declarer) + knowns(mid3.skat@));
            }
            let score = score_value(self.declaration, self.bid, dp, tp, &scoring);
            let ws: Vec<Player> = if score > 0 {
                let mut ws: Vec<Player> = Vec::new();
                ws.push(self.declarer);
                proof {
                    assert(ws@ =~= seq![pre.declarer]);
                }
                ws
            } else {
                let others = self.declarer.others();
                let mut ws: Vec<Player> = Vec::new();
                ws.push(others[0]);
                ws.push(others[1]);
                proof {
                    assert(ws@ =~= pre.declarer.spec_others());
                }
                ws
            };
            self.state = GameState::Finished(ws);
        } else {
            self.state = GameState::Playing(
                PlayingState { player: winner, declarer_points: dp, team_points: tp },
            );
        }
    }
}

impl Skat {
    /// Validate and apply one move.  A rejected move reports why and
    /// leaves the state untouched; an accepted one commits exactly the
    /// transition [`Skat::spec_step`] describes and keeps the state
    /// well-formed.
    pub fn make_move(&mut self, actor: Actor, m: u64) -> (r: Result<(), SkatError>)
        requires
            old(self).inv(),
        ensures
            match old(self).spec_legal_err(actor, m) {
                Some(e) => r == Err::<(), SkatError>(e) && *final(self) == *old(self),
                None => r == Ok::<(), SkatError>(()) && Skat::spec_step(
                    *old(self),
                    *final(self),
                    m,
                ) && final(self).inv(),
            },
    {
        match self.is_legal_move(actor, m) {
            Err(e) => {
                return Err(e);
            },
            Ok(()) => {},
        }
        if matches!(self.state, GameState::Dealing) {
            self.apply_deal(m);
        } else if matches!(self.state, GameState::Bidding(_)) {
            self.apply_bid(m);
        } else if matches!(self.state, GameState::SkatDecision) {
            self.apply_skat_decision(m);
        } else if matches!(self.state, GameState::Picking) {
            self.apply_picking(m);
        } else if matches!(self.state, GameState::Putting) {
            self.apply_putting(m);
        } else if matches!(self.state, GameState::Declaring) {
            self.apply_declaring(m);
        } else if matches!(self.state, GameState::Revealing(_)) {
            self.apply_revealing(m);
        } else if matches!(self.state, GameState::Playing(_)) {
            self.apply_playing(m);
        } else {
            proof {
                assert(false);
            }
        }
        Ok(())
    }
}

/// The move codes of a card list, in order.
fn card_codes(cards: &Vec<Card>) -> (r: Vec<u64>)
    ensures
        r@ == cards@.map_values(|c: Card| crate::codec::spec_card_code(c)),
{
    let mut r: Vec<u64> = Vec::new();
    let mut i: usize = 0;
    while i < cards.len()
        invariant
            i <= cards@.len(),
            r@ == cards@.take(i as int).map_values(|c: Card| crate::codec::spec_card_code(c)),
        decreases cards@.len() - i,
    {
        r.push(crate::codec::encode_card(cards[i]));
        proof {
            assert(cards@.take(i as int + 1).map_values(|c: Card| crate::codec::spec_card_code(c))
                =~= cards@.take(i as int).map_values(|c: Card| crate::codec::spec_card_code(c))
                .push(crate::codec::spec_card_code(cards@[i as int])));
        }
        i += 1;
    }
    proof {
        assert(cards@.take(cards@.len() as int) =~= cards@);
    }
    r
}

impl Skat {
    /// The move codes the current phase offers, in a fixed enumeration
    /// order.  Wherever relevant slots are hidden, every globally undealt
    /// card is among the candidates; a finished deal offers nothing.
    pub open spec fn spec_moves(self) -> Seq<u64> {
        match self.state {
            GameState::Dealing => self.cards.spec_undealt().map_values(
                |c: Card| crate::codec::spec_card_code(c),
            ),
            GameState::Bidding(b) => if b.spec_respond() {
                seq![0u64, 1u64]
            } else {
                seq![0u64] + Seq::new((MAXIMUM_BID - self.bid) as nat, |k: int| (self.bid + 1 + k)
                    as u64)
            },
            GameState::SkatDecision => seq![0u64, 1u64],
            GameState::Picking => match self.cards.skat@.last() {
                OptCard::Known(c) => seq![crate::codec::spec_card_code(c)],
                OptCard::Hidden => self.cards.spec_undealt().map_values(
                    |c: Card| crate::codec::spec_card_code(c),
                ),
            },
            GameState::Putting => knowns(self.cards.spec_hand(self.declarer)).map_values(
                |c: Card| crate::codec::spec_card_code(c),
            ) + (if self.cards.spec_hand(self.declarer).contains(OptCard::Hidden) {
                self.cards.spec_undealt().map_values(|c: Card| crate::codec::spec_card_code(c))
            } else {
                Seq::<u64>::empty()
            }),
            GameState::Declaring => {
                let cands = if self.spec_decl_hidden() {
                    Seq::<u64>::empty()
                } else {
                    Declaration::spec_all(self.declaration.spec_is_hand()).filter(
                        |d: Declaration| self.spec_decl_allowed(d),
                    ).map_values(|d: Declaration| crate::codec::spec_declaration_code(d))
                };
                if cands.len() == 0 {
                    seq![crate::codec::OVERBIDDEN_CODE]
                } else {
                    cands
                }
            },
            GameState::Revealing(i) => match self.cards.spec_hand(self.declarer)[i as int] {
                OptCard::Known(c) => seq![crate::codec::spec_card_code(c)],
                OptCard::Hidden => self.cards.spec_undealt().map_values(
                    |c: Card| crate::codec::spec_card_code(c),
                ),
            },
            GameState::Playing(ps) => self.cards.spec_allowed(ps.player, self.declaration)
                .map_values(|c: Card| crate::codec::spec_card_code(c)),
            GameState::Finished(_) => Seq::<u64>::empty(),
        }
    }

    /// Enumerate the moves the current phase offers.
    #[verifier::rlimit(100)]
    pub fn get_concrete_moves(&self) -> (r: Vec<u64>)
        requires
            self.inv(),
        ensures
            r@ == self.spec_moves(),
    {
        match &self.state {
            GameState::Dealing => card_codes(&self.cards.undealt_cards()),
            GameState::Bidding(b) => {
                let mut r: Vec<u64> = Vec::new();
                r.push(0);
                if b.respond() {
                    r.push(1);
                    proof {
                        assert(r@ =~= seq![0u64, 1u64]);
                    }
                    r
                } else {
                    let mut v: u64 = self.bid as u64 + 1;
                    while v <= MAXIMUM_BID as u64
                        invariant
                            self.bid as u64 + 1 <= v <= MAXIMUM_BID as u64 + 1,
                            r@ == seq![0u64] + Seq::new((v - self.bid - 1) as nat, |k: int| (
                            self.bid + 1 + k) as u64),
                        decreases MAXIMUM_BID as int + 1 - v,
                    {
                        r.push(v);
                        proof {
                            assert(seq![0u64] + Seq::new((v + 1 - self.bid - 1) as nat, |k: int| (
                            self.bid + 1 + k) as u64) =~= (seq![0u64] + Seq::new((v - self.bid
                                - 1) as nat, |k: int| (self.bid + 1 + k) as u64)).push(v));
                        }
                        v += 1;
                    }
                    r
                }
            },
            GameState::SkatDecision => {
                let mut r: Vec<u64> = Vec::new();
                r.push(0);
                r.push(1);
                proof {
                    assert(r@ =~= seq![0u64, 1u64]);
                }
                r
            },
            GameState::Picking => {
                match self.cards.skat[self.cards.skat.len() - 1] {
                    OptCard::Known(c) => {
                        let mut r: Vec<u64> = Vec::new();
                        r.push(crate::codec::encode_card(c));
                        proof {
                            assert(r@ =~= seq![crate::codec::spec_card_code(c)]);
                        }
                        r
                    },
                    OptCard::Hidden => card_codes(&self.cards.undealt_cards()),
                }
            },
            GameState::Putting => {
                let hand = &self.cards.hands[self.declarer.index()];
                let mut r = card_codes(&crate::store::known_row(hand));
                if crate::store::row_has_hidden(hand) {
                    let mut u = card_codes(&self.cards.undealt_cards());
                    r.append(&mut u);
                } else {
                    proof {
                        assert(r@ =~= self.spec_moves());
                    }
                }
                proof {
                    assert(r@ =~= self.spec_moves());
                }
                r
            },
            GameState::Declaring => {
                let ghost f = self.declaration.spec_is_hand();
                let ghost pred = |d: Declaration| self.spec_decl_allowed(d);
                let mut r: Vec<u64> = Vec::new();
                match self.calculate_matadors() {
                    None => {
                        proof {
                            assert(self.spec_decl_hidden());
                        }
                    },
                    Some(mats) => {
                        let all = Declaration::all(self.declaration.is_hand());
                        let mut i: usize = 0;
                        while i < all.len()
                            invariant
                                i <= all@.len(),
                                all@ == Declaration::spec_all(f),
                                f == self.declaration.spec_is_hand(),
                                pred == (|d: Declaration| self.spec_decl_allowed(d)),
                                !self.spec_decl_hidden(),
                                mats.clubs == Matadors::spec_count(
                                    self.spec_decl_cards(),
                                    Suit::Clubs,
                                ),
                                mats.spades == Matadors::spec_count(
                                    self.spec_decl_cards(),
                                    Suit::Spades,
                                ),
                                mats.hearts == Matadors::spec_count(
                                    self.spec_decl_cards(),
                                    Suit::Hearts,
                                ),
                                mats.diamonds == Matadors::spec_count(
                                    self.spec_decl_cards(),
                                    Suit::Diamonds,
                                ),
                                r@ == all@.take(i as int).filter(pred).map_values(
                                    |d: Declaration| crate::codec::spec_declaration_code(d),
                                ),
                            decreases all@.len() - i,
                        {
                            let d = all[i];
                            proof {
                                reveal(Seq::filter);
                                assert(all@.take(i as int + 1).drop_last() =~= all@.take(
                                    i as int,
                                ));
                                assert(all@.take(i as int + 1).last() == all@[i as int]);
                                assert(mats.spec_get(match d {
                                    Declaration::Normal(mode, _) => mode,
                                    _ => NormalMode::Grand,
                                }) == spec_mats(self.spec_decl_cards(), match d {
                                    Declaration::Normal(mode, _) => mode,
                                    _ => NormalMode::Grand,
                                }));
                            }
                            if d.allowed(self.bid, &mats) {
                                r.push(crate::codec::encode_declaration(d));
                                proof {
                                    assert(all@.take(i as int + 1).filter(pred) =~= all@.take(
                                        i as int,
                                    ).filter(pred).push(d));
                                    assert(all@.take(i as int + 1).filter(pred).map_values(
                                        |x: Declaration| crate::codec::spec_declaration_code(x),
                                    ) =~= all@.take(i as int).filter(pred).map_values(
                                        |x: Declaration| crate::codec::spec_declaration_code(x),
                                    ).push(crate::codec::spec_declaration_code(d)));
                                }
                            } else {
                                proof {
                                    assert(all@.take(i as int + 1).filter(pred) =~= all@.take(
                                        i as int,
                                    ).filter(pred));
                                }
                            }
                            i += 1;
                        }
                        proof {
                            assert(all@.take(all@.len() as int) =~= all@);
                        }
                    },
                }
                if r.len() == 0 {
                    r.push(crate::codec::OVERBIDDEN_CODE);
                    proof {
                        assert(r@ =~= seq![crate::codec::OVERBIDDEN_CODE]);
                    }
                }
                r
            },
            GameState::Revealing(i) => {
                let i = *i;
                match self.cards.hands[self.declarer.index()][i] {
                    OptCard::Known(c) => {
                        let mut r: Vec<u64> = Vec::new();
                        r.push(crate::codec::encode_card(c));
                        proof {
                            assert(r@ =~= seq![crate::codec::spec_card_code(c)]);
                        }
                        r
                    },
                    OptCard::Hidden => card_codes(&self.cards.undealt_cards()),
                }
            },
            GameState::Playing(ps) => card_codes(
                &self.cards.allowed(ps.player, self.declaration),
            ),
            GameState::Finished(_) => Vec::new(),
        }
    }

    /// Pick a legal move of the current phase from a uniform seed, or
    /// report that the finished deal has none.
    pub fn get_random_move(&self, seed: u64) -> (r: Result<u64, SkatError>)
        requires
            self.inv(),
        ensures
            match r {
                Ok(mv) => self.spec_moves().len() > 0 && mv == self.spec_moves()[(seed as int) % (
                self.spec_moves().len() as int)],
                Err(e) => e == SkatError::InvalidState && self.spec_moves().len() == 0,
            },
    {
        let moves = self.get_concrete_moves();
        if moves.len() == 0 {
            Err(SkatError::InvalidState)
        } else {
            Ok(moves[(seed % (moves.len() as u64)) as usize])
        }
    }

    /// What a given observer is entitled to learn of a move: concrete
    /// dealing, pickup and putting cards directed at other seats read as
    /// the hidden placeholder, everything else passes through.
    pub open spec fn spec_move_view(self, actor: Actor, m: u64, target: Actor) -> u64 {
        if actor == target || target == Actor::Environment {
            m
        } else {
            match self.state {
                GameState::Dealing => if deal_target(self.cards.store_len()) == (match target {
                    Actor::Seat(t) => Some(t),
                    Actor::Environment => None,
                }) {
                    m
                } else {
                    crate::codec::HIDDEN_CODE
                },
                GameState::Picking => if target == Actor::Seat(self.declarer) {
                    m
                } else {
                    crate::codec::HIDDEN_CODE
                },
                GameState::Putting => crate::codec::HIDDEN_CODE,
                _ => m,
            }
        }
    }

    /// Translate a move into what the target observer sees of it.
    pub fn move_to_action(&self, actor: Actor, m: u64, target: Actor) -> (r: u64)
        requires
            self.inv(),
        ensures
            r == self.spec_move_view(actor, m, target),
    {
        if actor == target || matches!(target, Actor::Environment) {
            return m;
        }
        match &self.state {
            GameState::Dealing => {
                let dealt = self.cards.count();
                let goes_to = deal_to(dealt);
                let to_target = match (goes_to, target) {
                    (Some(t), Actor::Seat(p)) => t == p,
                    _ => false,
                };
                if to_target {
                    m
                } else {
                    crate::codec::HIDDEN_CODE
                }
            },
            GameState::Picking => {
                if target == Actor::Seat(self.declarer) {
                    m
                } else {
                    crate::codec::HIDDEN_CODE
                }
            },
            GameState::Putting => crate::codec::HIDDEN_CODE,
            _ => m,
        }
    }
}

/// Enumeration and validation agree: every move the enumeration of a
/// well-formed deal offers passes validation for the actor whose turn it
/// is.
pub proof fn lemma_offered_moves_are_legal(s: Skat, i: int)
    requires
        s.inv(),
        0 <= i < s.spec_moves().len(),
    ensures
        s.spec_actor() matches Some(a) && s.spec_legal_err(a, s.spec_moves()[i]) is None,
{
    broadcast use vstd::seq_lib::group_filter_ensures;
    broadcast use Seq::lemma_filter_contains_rev;

    let m = s.spec_moves()[i];
    match s.state {
        GameState::Dealing => {
            let c = s.cards.spec_undealt()[i];
            crate::cards::lemma_card_index_bijective(c);
            lemma_undealt_not_held(s.cards, c);
            assert(s.cards.spec_undealt().contains(c));
        },
        GameState::Bidding(b) => {
            if !b.spec_respond() && i > 0 {
                assert(m == (s.bid + 1 + (i - 1)) as u64);
            }
        },
        GameState::SkatDecision => {},
        GameState::Picking => {
            match s.cards.skat@.last() {
                OptCard::Known(k) => {
                    crate::cards::lemma_card_index_bijective(k);
                },
                OptCard::Hidden => {
                    let c = s.cards.spec_undealt()[i];
                    crate::cards::lemma_card_index_bijective(c);
                    lemma_undealt_not_held(s.cards, c);
                    assert(s.cards.spec_undealt().contains(c));
                },
            }
        },
        GameState::Putting => {
            let h = s.cards.spec_hand(s.declarer);
            let held = knowns(h);
            if i < held.len() {
                let c = held[i];
                crate::cards::lemma_card_index_bijective(c);
                assert(held.contains(c));
            } else {
                let c = s.cards.spec_undealt()[i - held.len()];
                crate::cards::lemma_card_index_bijective(c);
                lemma_undealt_not_held(s.cards, c);
                assert(s.cards.spec_undealt().contains(c));
                if held.contains(c) {
                } else {
                    assert(!s.cards.all_cards().contains(c));
                }
            }
            assert(h.len() >= 11);
        },
        GameState::Declaring => {
            let f = s.declaration.spec_is_hand();
            let pred = |d: Declaration| s.spec_decl_allowed(d);
            let cands = Declaration::spec_all(f).filter(pred);
            if s.spec_decl_hidden() {
                assert(m == crate::codec::OVERBIDDEN_CODE);
            } else if cands.len() == 0 {
                assert(m == crate::codec::OVERBIDDEN_CODE);
                // nothing passed the filter, so nothing is allowed
                assert(!s.spec_any_allowed()) by {
                    if s.spec_any_allowed() {
                        let j = choose|j: int|
                            0 <= j < Declaration::spec_all(f).len() && s.spec_decl_allowed(
                                #[trigger] Declaration::spec_all(f)[j],
                            );
                        assert(cands.contains(Declaration::spec_all(f)[j]));
                    }
                }
            } else {
                let d = cands[i];
                assert(pred(d));
                assert(cands.contains(d));
                assert(Declaration::spec_all(f).contains(d));
                crate::decl::lemma_spec_all_is_hand(f);
                assert(d.spec_is_hand() == f);
                crate::codec::lemma_declaration_move_round_trip(DeclarationMove::Declare(d));
            }
        },
        GameState::Revealing(ri) => {
            match s.cards.spec_hand(s.declarer)[ri as int] {
                OptCard::Known(t) => {
                    crate::cards::lemma_card_index_bijective(t);
                },
                OptCard::Hidden => {
                    let c = s.cards.spec_undealt()[i];
                    crate::cards::lemma_card_index_bijective(c);
                    lemma_undealt_not_held(s.cards, c);
                    assert(s.cards.spec_undealt().contains(c));
                },
            }
        },
        GameState::Playing(ps) => {
            let c = s.cards.spec_allowed(ps.player, s.declaration)[i];
            crate::cards::lemma_card_index_bijective(c);
            assert(s.cards.spec_allowed(ps.player, s.declaration).contains(c));
        },
        GameState::Finished(_) => {
            assert(false);
        },
    }
}

/// Bidding terminates: every legal bidding move applied to a well-formed
/// deal either leaves the bidding phase for good or strictly decreases the
/// non-negative measure of the auction position, so no bidding sequence is
/// infinite.
pub proof fn lemma_bidding_terminates(pre: Skat, post: Skat, actor: Actor, m: u64)
    requires
        pre.inv(),
        pre.state matches GameState::Bidding(_),
        pre.spec_legal_err(actor, m) is None,
        Skat::spec_step(pre, post, m),
    ensures
        pre.state matches GameState::Bidding(b) ==> {
            &&& b.spec_measure(pre.bid as int) >= 0
            &&& match post.state {
                GameState::Bidding(b2) => b2.spec_measure(post.bid as int) < b.spec_measure(
                    pre.bid as int,
                ) && b2.spec_measure(post.bid as int) >= 0,
                _ => true,
            }
        },
{
    let b = pre.state->Bidding_0;
    let passed = m == 0;
    let nbid: int = if m >= 2 {
        m as int
    } else {
        pre.bid as int
    };
    crate::bidding::lemma_bidding_measure_decreases(b, pre.bid as int, passed, nbid);
}

/// Whether two phase values are the same state, comparing the winner list
/// of a finished deal by contents.
pub open spec fn spec_state_eq(a: GameState, b: GameState) -> bool {
    match (a, b) {
        (GameState::Finished(x), GameState::Finished(y)) => x@ == y@,
        _ => a == b,
    }
}

impl Skat {
    /// Redact the deal to what the kept seats legitimately know: every
    /// other hand and the whole widow read as hidden afterwards.  The
    /// result is an independent, still well-formed state.
    pub fn redact_keep_state(&mut self, keep: [bool; 3])
        requires
            old(self).inv(),
        ensures
            final(self).inv(),
            crate::store::redact_rel(old(self).cards, final(self).cards, keep@),
            final(self).bid == old(self).bid,
            final(self).declarer == old(self).declarer,
            final(self).declaration == old(self).declaration,
            final(self).state == old(self).state,
    {
        broadcast use vstd::seq_lib::group_to_multiset_ensures;

        let ghost pre = *old(self);
        self.cards.redact(keep);
        proof {
            let post = *final(self);
            assert(pre.cards.hands@[0]@ == pre.cards.spec_hand(Player::Forehand));
            assert(pre.cards.hands@[1]@ == pre.cards.spec_hand(Player::Middlehand));
            assert(pre.cards.hands@[2]@ == pre.cards.spec_hand(Player::Rearhand));
            assert(post.cards.hands@[0]@ == post.cards.spec_hand(Player::Forehand));
            assert(post.cards.hands@[1]@ == post.cards.spec_hand(Player::Middlehand));
            assert(post.cards.hands@[2]@ == post.cards.spec_hand(Player::Rearhand));
            assert(pre.cards.played@[0]@ == pre.cards.spec_played(Player::Forehand));
            assert(pre.cards.played@[1]@ == pre.cards.spec_played(Player::Middlehand));
            assert(pre.cards.played@[2]@ == pre.cards.spec_played(Player::Rearhand));
            assert(post.cards.played@[0]@ == post.cards.spec_played(Player::Forehand));
            assert(post.cards.played@[1]@ == post.cards.spec_played(Player::Middlehand));
            assert(post.cards.played@[2]@ == post.cards.spec_played(Player::Rearhand));
            pre.cards.lemma_all_cards_mset();
            post.cards.lemma_all_cards_mset();
            crate::store::lemma_knowns_redacted(pre.cards.spec_hand(Player::Forehand));
            crate::store::lemma_knowns_redacted(pre.cards.spec_hand(Player::Middlehand));
            crate::store::lemma_knowns_redacted(pre.cards.spec_hand(Player::Rearhand));
            crate::store::lemma_knowns_redacted(pre.cards.skat@);
            assert(forall|c: Card| #[trigger] post.cards.card_count(c) <= pre.cards.card_count(
                c,
            ));
            assert(forall|p: Player| #[trigger] post.cards.spec_hand(p).len()
                == pre.cards.spec_hand(p).len());
        }
    }

    /// An independent copy of the deal state, sharing nothing with the
    /// original, for speculative exploration.
    pub fn deep_clone(&self) -> (r: Skat)
        ensures
            r.bid == self.bid,
            r.declarer == self.declarer,
            r.declaration == self.declaration,
            spec_state_eq(r.state, self.state),
            forall|p: Player| r.cards.spec_hand(p) == self.cards.spec_hand(p),
            r.cards.skat@ == self.cards.skat@,
            r.cards.trick@ == self.cards.trick@,
            r.cards.last_trick == self.cards.last_trick,
            forall|p: Player| r.cards.spec_played(p) == self.cards.spec_played(p),
            self.inv() ==> r.inv(),
    {
        let state = match &self.state {
            GameState::Dealing => GameState::Dealing,
            GameState::Bidding(b) => GameState::Bidding(*b),
            GameState::SkatDecision => GameState::SkatDecision,
            GameState::Picking => GameState::Picking,
            GameState::Putting => GameState::Putting,
            GameState::Declaring => GameState::Declaring,
            GameState::Revealing(i) => GameState::Revealing(*i),
            GameState::Playing(ps) => GameState::Playing(*ps),
            GameState::Finished(ws) => {
                let mut c: Vec<Player> = Vec::new();
                let mut i: usize = 0;
                while i < ws.len()
                    invariant
                        i <= ws@.len(),
                        c@ == ws@.take(i as int),
                    decreases ws@.len() - i,
                {
                    c.push(ws[i]);
                    proof {
                        assert(ws@.take(i as int + 1) =~= ws@.take(i as int).push(
                            ws@[i as int],
                        ));
                    }
                    i += 1;
                }
                proof {
                    assert(ws@.take(ws@.len() as int) =~= ws@);
                }
                GameState::Finished(c)
            },
        };
        let r = Skat {
            cards: self.cards.deep_clone(),
            bid: self.bid,
            declarer: self.declarer,
            declaration: self.declaration,
            state,
        };
        proof {
            if self.inv() {
                assert(forall|c: Card| #[trigger] r.cards.card_count(c) == self.cards.card_count(
                    c,
                ));
                assert(forall|p: Player| #[trigger] r.cards.spec_hand(p).len()
                    == self.cards.spec_hand(p).len());
                assert(forall|p: Player| #[trigger] r.cards.spec_played(p).len()
                    == self.cards.spec_played(p).len());
                if !(r.state matches GameState::Finished(_)) {
                    assert(r.state == self.state);
                }
            }
        }
        r
    }

    /// Replace this deal state with an independent copy of another.
    pub fn copy_from(&mut self, other: &Skat)
        ensures
            final(self).bid == other.bid,
            final(self).declarer == other.declarer,
            final(self).declaration == other.declaration,
            spec_state_eq(final(self).state, other.state),
            forall|p: Player| final(self).cards.spec_hand(p) == other.cards.spec_hand(p),
            final(self).cards.skat@ == other.cards.skat@,
            final(self).cards.trick@ == other.cards.trick@,
            final(self).cards.last_trick == other.cards.last_trick,
            forall|p: Player| final(self).cards.spec_played(p) == other.cards.spec_played(p),
            other.inv() ==> final(self).inv(),
    {
        *self = other.deep_clone();
    }
}

impl Default for Skat {
    fn default() -> (r: Skat)
        ensures
            r.inv(),
            r.state is Dealing,
            r.bid == MINIMUM_BID - 1,
            r.cards.store_len() == 0,
    {
        Skat::new()
    }
}

/// After dealing completes with every slot disclosed, the 32 cards of the
/// deck each sit in exactly one slot across the hands and the widow: no
/// duplicates and no omissions.
pub proof fn lemma_deal_complete_unique(s: Skat)
    requires
        s.inv(),
        s.state matches GameState::Bidding(_),
        forall|p: Player| !(#[trigger] s.cards.spec_hand(p)).contains(OptCard::Hidden),
        !s.cards.skat@.contains(OptCard::Hidden),
    ensures
        forall|c: Card| #[trigger] s.cards.card_count(c) == 1,
{
    broadcast use vstd::seq_lib::group_to_multiset_ensures;
    broadcast use vstd::seq_lib::seq_to_set_is_finite;

    let all = s.cards.all_cards();
    assert(s.cards.hands@[0]@ == s.cards.spec_hand(Player::Forehand));
    assert(s.cards.hands@[1]@ == s.cards.spec_hand(Player::Middlehand));
    assert(s.cards.hands@[2]@ == s.cards.spec_hand(Player::Rearhand));
    assert(s.cards.played@[0]@ == s.cards.spec_played(Player::Forehand));
    assert(s.cards.played@[1]@ == s.cards.spec_played(Player::Middlehand));
    assert(s.cards.played@[2]@ == s.cards.spec_played(Player::Rearhand));
    crate::store::lemma_knowns_len(s.cards.spec_hand(Player::Forehand));
    crate::store::lemma_knowns_len(s.cards.spec_hand(Player::Middlehand));
    crate::store::lemma_knowns_len(s.cards.spec_hand(Player::Rearhand));
    crate::store::lemma_knowns_len(s.cards.skat@);
    assert(all.len() == 32);
    assert forall|x: Card| all.to_multiset().contains(x) implies all.to_multiset().count(x)
        == 1 by {
        assert(s.cards.card_count(x) <= 1);
    }
    all.lemma_multiset_has_no_duplicates_conv();
    all.unique_seq_to_set();
    let deck = Seq::new(32nat, |i: int| Card::from_index(i));
    assert forall|i: int| 0 <= i < 32 implies (#[trigger] deck[i]).spec_index() == i by {
        crate::cards::lemma_card_index_bijective(Card::from_index(i));
        assert(Card::from_index(i).spec_index() * 4 >= 0);
    }
    assert(deck.no_duplicates()) by {
        assert(forall|i: int, j: int| 0 <= i < 32 && 0 <= j < 32 && i != j ==> #[trigger] deck[i]
            != #[trigger] deck[j]);
    }
    assert forall|c: Card| #[trigger] deck.contains(c) by {
        crate::cards::lemma_card_index_bijective(c);
        assert(deck[c.spec_index()] == c);
    }
    deck.unique_seq_to_set();
    assert(all.to_set().subset_of(deck.to_set())) by {
        assert(forall|x: Card| #[trigger] all.to_set().contains(x) ==> deck.to_set().contains(
            x,
        ));
    }
    vstd::set_lib::lemma_subset_equality(all.to_set(), deck.to_set());
    assert forall|c: Card| #[trigger] s.cards.card_count(c) == 1 by {
        assert(deck.to_set().contains(c));
        assert(all.to_set().contains(c));
        assert(all.contains(c));
        assert(all.to_multiset().count(c) > 0);
        assert(s.cards.card_count(c) <= 1);
    }
}

impl Skat {
    /// Translate a move string into the move code the current phase reads,
    /// following the textual grammar; malformed text is rejected.
    pub fn get_move_data(&self, string: &str) -> (r: Result<u64, SkatError>)
        ensures
            r == (match self.state {
                GameState::Dealing | GameState::Picking | GameState::Putting => match crate::text::spec_parse_opt_card_text(
                    string@,
                ) {
                    Some(oc) => Ok::<u64, SkatError>(crate::codec::spec_opt_card_code(oc)),
                    None => Err::<u64, SkatError>(SkatError::InvalidInput),
                },
                GameState::Bidding(_) => match crate::text::spec_parse_bid_text(string@) {
                    Some(v) => Ok::<u64, SkatError>(v),
                    None => Err::<u64, SkatError>(SkatError::InvalidInput),
                },
                GameState::SkatDecision => match crate::text::spec_parse_skat_decision_text(
                    string@,
                ) {
                    Some(v) => Ok::<u64, SkatError>(v),
                    None => Err::<u64, SkatError>(SkatError::InvalidInput),
                },
                GameState::Declaring => match crate::text::spec_parse_declaration_move_text(
                    string@,
                ) {
                    Some(dm) => Ok::<u64, SkatError>(crate::codec::spec_declaration_move_code(
                        dm,
                    )),
                    None => Err::<u64, SkatError>(SkatError::InvalidInput),
                },
                GameState::Revealing(_) | GameState::Playing(_) => match crate::text::spec_parse_card_text(
                    string@,
                ) {
                    Some(c) => Ok::<u64, SkatError>(crate::codec::spec_card_code(c)),
                    None => Err::<u64, SkatError>(SkatError::InvalidInput),
                },
                GameState::Finished(_) => Err::<u64, SkatError>(SkatError::InvalidState),
            }),
    {
        match &self.state {
            GameState::Dealing | GameState::Picking | GameState::Putting => {
                match crate::text::parse_opt_card_text(string) {
                    Some(oc) => Ok(crate::codec::encode_opt_card(oc)),
                    None => Err(SkatError::InvalidInput),
                }
            },
            GameState::Bidding(_) => {
                match crate::text::parse_bid_text(string) {
                    Some(v) => Ok(v),
                    None => Err(SkatError::InvalidInput),
                }
            },
            GameState::SkatDecision => {
                match crate::text::parse_skat_decision_text(string) {
                    Some(v) => Ok(v),
                    None => Err(SkatError::InvalidInput),
                }
            },
            GameState::Declaring => {
                match crate::text::parse_declaration_move_text(string) {
                    Some(dm) => Ok(crate::codec::encode_declaration_move(dm)),
                    None => Err(SkatError::InvalidInput),
                }
            },
            GameState::Revealing(_) | GameState::Playing(_) => {
                match crate::text::parse_card_text(string) {
                    Some(c) => Ok(crate::codec::encode_card(c)),
                    None => Err(SkatError::InvalidInput),
                }
            },
            GameState::Finished(_) => Err(SkatError::InvalidState),
        }
    }

    /// Render a move code into the text the current phase would show for
    /// it; a code no card or declaration of the phase carries is rejected.
    pub fn get_move_str(&self, m: u64) -> (r: Result<String, SkatError>)
        ensures
            match self.state {
                GameState::Dealing | GameState::Picking | GameState::Putting => match crate::codec::spec_decode_opt_card(
                    m,
                ) {
                    Some(oc) => r matches Ok(t) && t@ == crate::text::spec_opt_card_str(oc),
                    None => r matches Err(e) && e == SkatError::InvalidMove,
                },
                GameState::Bidding(_) => r matches Ok(t) && t@ == (if m == 0 {
                    "pass"@
                } else if m == 1 {
                    "accept"@
                } else {
                    crate::text::spec_dec_str(m as int)
                }),
                GameState::SkatDecision => r matches Ok(t) && t@ == (if m == 0 {
                    "Hand"@
                } else {
                    "pick"@
                }),
                GameState::Declaring => match crate::codec::spec_decode_declaration_move(m) {
                    Some(dm) => r matches Ok(t) && t@ == crate::text::spec_declaration_move_str(
                        dm,
                    ),
                    None => r matches Err(e) && e == SkatError::InvalidMove,
                },
                GameState::Revealing(_) | GameState::Playing(_) => match crate::codec::spec_decode_card(
                    m,
                ) {
                    Some(c) => r matches Ok(t) && t@ == crate::text::spec_card_str(c),
                    None => r matches Err(e) && e == SkatError::InvalidMove,
                },
                GameState::Finished(_) => r matches Err(e) && e == SkatError::InvalidState,
            },
    {
        match &self.state {
            GameState::Dealing | GameState::Picking | GameState::Putting => {
                match crate::codec::decode_opt_card(m) {
                    Ok(oc) => Ok(crate::text::render_opt_card(oc)),
                    Err(e) => Err(e),
                }
            },
            GameState::Bidding(_) => {
                if m == 0 {
                    let mut out = String::new();
                    out.append("pass");
                    proof {
                        assert(out@ =~= "pass"@);
                    }
                    Ok(out)
                } else if m == 1 {
                    let mut out = String::new();
                    out.append("accept");
                    proof {
                        assert(out@ =~= "accept"@);
                    }
                    Ok(out)
                } else {
                    Ok(crate::text::render_u64(m))
                }
            },
            GameState::SkatDecision => {
                let mut out = String::new();
                if m == 0 {
                    out.append("Hand");
                    proof {
                        assert(out@ =~= "Hand"@);
                    }
                } else {
                    out.append("pick");
                    proof {
                        assert(out@ =~= "pick"@);
                    }
                }
                Ok(out)
            },
            GameState::Declaring => {
                match crate::codec::decode_declaration_move(m) {
                    Ok(dm) => Ok(crate::text::render_declaration_move(dm)),
                    Err(e) => Err(e),
                }
            },
            GameState::Revealing(_) | GameState::Playing(_) => {
                match crate::codec::decode_card(m) {
                    Ok(c) => Ok(crate::text::render_card(c)),
                    Err(e) => Err(e),
                }
            },
            GameState::Finished(_) => Err(SkatError::InvalidState),
        }
    }
}

/// An undealt card is held nowhere.
pub proof fn lemma_undealt_not_held(s: CardStruct, c: Card)
    requires
        s.spec_undealt().contains(c),
    ensures
        !s.all_cards().contains(c),
{
    lemma_undealt_prefix_not_held(s, c, 32);
}

proof fn lemma_undealt_prefix_not_held(s: CardStruct, c: Card, n: int)
    requires
        s.undealt_prefix(n).contains(c),
    ensures
        !s.all_cards().contains(c),
    decreases n,
{
    if n > 0 {
        if s.undealt_prefix(n - 1).contains(c) {
            lemma_undealt_prefix_not_held(s, c, n - 1);
        } else {
            assert(!s.all_cards().contains(Card::from_index(n - 1)) && c == Card::from_index(
                n - 1,
            ));
        }
    }
}

/// A missing tally counts as zero points.
pub open spec fn opt_points(o: Option<u16>) -> int {
    match o {
        Some(x) => x as int,
        None => 0,
    }
}

} // verus!
