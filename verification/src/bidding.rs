//! The bidding sub-automaton: who calls whom, how a pass or a bid moves the
//! machine on, and a measure showing every auction ends.

use vstd::prelude::*;
use crate::cards::Player;

verus! {

/// A position of the bidding conversation.  Each state names who makes the
/// next statement and to whom; `Forehand` is the terminal self-decision
/// after both others passed without a bid.
#[derive(Clone, Copy, PartialEq, Eq, Structural, Debug)]
pub enum BiddingState {
    MiddleCallsFore,
    ForeRespondsMiddle,
    RearCallsFore,
    ForeRespondsRear,
    RearCallsMiddle,
    MiddleRespondsRear,
    Forehand,
}

/// Outcome of one bidding statement.
#[derive(Clone, Copy, PartialEq, Eq, Structural, Debug)]
pub enum BiddingResult {
    /// Bidding continues in the given state.
    Continue(BiddingState),
    /// Bidding finished with the given player becoming declarer.
    Finished(Player),
    /// All three passed before any bid was made.
    Draw,
}

impl BiddingState {
    pub open spec fn spec_respond(self) -> bool {
        match self {
            BiddingState::MiddleCallsFore => false,
            BiddingState::ForeRespondsMiddle => true,
            BiddingState::RearCallsFore => false,
            BiddingState::ForeRespondsRear => true,
            BiddingState::RearCallsMiddle => false,
            BiddingState::MiddleRespondsRear => true,
            BiddingState::Forehand => true,
        }
    }

    /// Whether the next statement responds to a call (accept or pass) rather
    /// than naming a bid.  The terminal `Forehand` decision counts as a
    /// response.
    pub fn respond(&self) -> (r: bool)
        ensures
            r == self.spec_respond(),
    {
        match self {
            BiddingState::MiddleCallsFore => false,
            BiddingState::ForeRespondsMiddle => true,
            BiddingState::RearCallsFore => false,
            BiddingState::ForeRespondsRear => true,
            BiddingState::RearCallsMiddle => false,
            BiddingState::MiddleRespondsRear => true,
            BiddingState::Forehand => true,
        }
    }

    pub open spec fn spec_source(self) -> Player {
        match self {
            BiddingState::MiddleCallsFore => Player::Middlehand,
            BiddingState::ForeRespondsMiddle => Player::Forehand,
            BiddingState::RearCallsFore => Player::Rearhand,
            BiddingState::ForeRespondsRear => Player::Forehand,
            BiddingState::RearCallsMiddle => Player::Rearhand,
            BiddingState::MiddleRespondsRear => Player::Middlehand,
            BiddingState::Forehand => Player::Forehand,
        }
    }

    /// Who makes the next statement.
    pub fn source(&self) -> (r: Player)
        ensures
            r == self.spec_source(),
    {
        match self {
            BiddingState::MiddleCallsFore => Player::Middlehand,
            BiddingState::ForeRespondsMiddle => Player::Forehand,
            BiddingState::RearCallsFore => Player::Rearhand,
            BiddingState::ForeRespondsRear => Player::Forehand,
            BiddingState::RearCallsMiddle => Player::Rearhand,
            BiddingState::MiddleRespondsRear => Player::Middlehand,
            BiddingState::Forehand => Player::Forehand,
        }
    }

    pub open spec fn spec_target(self) -> Player {
        match self {
            BiddingState::MiddleCallsFore => Player::Forehand,
            BiddingState::ForeRespondsMiddle => Player::Middlehand,
            BiddingState::RearCallsFore => Player::Forehand,
            BiddingState::ForeRespondsRear => Player::Rearhand,
            BiddingState::RearCallsMiddle => Player::Middlehand,
            BiddingState::MiddleRespondsRear => Player::Rearhand,
            BiddingState::Forehand => Player::Forehand,
        }
    }

    /// Who the statement is addressed to.  The terminal `Forehand` decision
    /// has no audience, so it is excluded.
    pub fn target(&self) -> (r: Player)
        requires
            *self != BiddingState::Forehand,
        ensures
            r == self.spec_target(),
    {
        match self {
            BiddingState::MiddleCallsFore => Player::Forehand,
            BiddingState::ForeRespondsMiddle => Player::Middlehand,
            BiddingState::RearCallsFore => Player::Forehand,
            BiddingState::ForeRespondsRear => Player::Rearhand,
            BiddingState::RearCallsMiddle => Player::Middlehand,
            BiddingState::MiddleRespondsRear => Player::Rearhand,
            BiddingState::Forehand => Player::Forehand,
        }
    }

    pub open spec fn spec_next(self, passed: bool, any_bid: bool) -> BiddingResult {
        if passed {
            match self {
                BiddingState::MiddleCallsFore => BiddingResult::Continue(
                    BiddingState::RearCallsFore,
                ),
                BiddingState::ForeRespondsMiddle => BiddingResult::Continue(
                    BiddingState::RearCallsMiddle,
                ),
                BiddingState::RearCallsFore => if any_bid {
                    BiddingResult::Finished(Player::Forehand)
                } else {
                    BiddingResult::Continue(BiddingState::Forehand)
                },
                BiddingState::ForeRespondsRear => BiddingResult::Finished(Player::Rearhand),
                BiddingState::RearCallsMiddle => BiddingResult::Finished(Player::Middlehand),
                BiddingState::MiddleRespondsRear => BiddingResult::Finished(Player::Rearhand),
                BiddingState::Forehand => BiddingResult::Draw,
            }
        } else {
            match self {
                BiddingState::MiddleCallsFore => BiddingResult::Continue(
                    BiddingState::ForeRespondsMiddle,
                ),
                BiddingState::ForeRespondsMiddle => BiddingResult::Continue(
                    BiddingState::MiddleCallsFore,
                ),
                BiddingState::RearCallsFore => BiddingResult::Continue(
                    BiddingState::ForeRespondsRear,
                ),
                BiddingState::ForeRespondsRear => BiddingResult::Continue(
                    BiddingState::RearCallsFore,
                ),
                BiddingState::RearCallsMiddle => BiddingResult::Continue(
                    BiddingState::MiddleRespondsRear,
                ),
                BiddingState::MiddleRespondsRear => BiddingResult::Continue(
                    BiddingState::RearCallsMiddle,
                ),
                BiddingState::Forehand => BiddingResult::Finished(Player::Forehand),
            }
        }
    }

    /// Evaluate the next position after the source passed or not; `any_bid`
    /// says whether some bid has been made already.
    pub fn next(&self, passed: bool, any_bid: bool) -> (r: BiddingResult)
        ensures
            r == self.spec_next(passed, any_bid),
    {
        if passed {
            match self {
                BiddingState::MiddleCallsFore => BiddingResult::Continue(
                    BiddingState::RearCallsFore,
                ),
                BiddingState::ForeRespondsMiddle => BiddingResult::Continue(
                    BiddingState::RearCallsMiddle,
                ),
                BiddingState::RearCallsFore => if any_bid {
                    BiddingResult::Finished(Player::Forehand)
                } else {
                    BiddingResult::Continue(BiddingState::Forehand)
                },
                BiddingState::ForeRespondsRear => BiddingResult::Finished(Player::Rearhand),
                BiddingState::RearCallsMiddle => BiddingResult::Finished(Player::Middlehand),
                BiddingState::MiddleRespondsRear => BiddingResult::Finished(Player::Rearhand),
                BiddingState::Forehand => BiddingResult::Draw,
            }
        } else {
            match self {
                BiddingState::MiddleCallsFore => BiddingResult::Continue(
                    BiddingState::ForeRespondsMiddle,
                ),
                BiddingState::ForeRespondsMiddle => BiddingResult::Continue(
                    BiddingState::MiddleCallsFore,
                ),
                BiddingState::RearCallsFore => BiddingResult::Continue(
                    BiddingState::ForeRespondsRear,
                ),
                BiddingState::ForeRespondsRear => BiddingResult::Continue(
                    BiddingState::RearCallsFore,
                ),
                BiddingState::RearCallsMiddle => BiddingResult::Continue(
                    BiddingState::MiddleRespondsRear,
                ),
                BiddingState::MiddleRespondsRear => BiddingResult::Continue(
                    BiddingState::RearCallsMiddle,
                ),
                BiddingState::Forehand => BiddingResult::Finished(Player::Forehand),
            }
        }
    }

    /// Per-state part of the termination measure: strictly drops along every
    /// transition that leaves the running bid unchanged (passes and
    /// acceptances).
    pub open spec fn spec_measure_state(self) -> int {
        match self {
            BiddingState::Forehand => 0,
            BiddingState::RearCallsFore => 1,
            BiddingState::RearCallsMiddle => 1,
            BiddingState::MiddleCallsFore => 2,
            BiddingState::MiddleRespondsRear => 2,
            BiddingState::ForeRespondsRear => 2,
            BiddingState::ForeRespondsMiddle => 3,
        }
    }

    /// Full termination measure of an auction position: dominated by how
    /// much bidding room up to the maximum bid of 264 is left, refined by
    /// the state part.  Always non-negative while the bid stays in range.
    pub open spec fn spec_measure(self, bid: int) -> int {
        (264 - bid) * 8 + self.spec_measure_state()
    }
}

/// The bidding automaton terminates: every statement either ends the auction
/// or strictly decreases a non-negative measure of the position, so from any
/// position at most `measure` further statements can occur.  A pass or an
/// acceptance keeps the bid and drops the state part; a new bid must exceed
/// the running bid, shrinking the dominant bidding-room part.
pub proof fn lemma_bidding_measure_decreases(
    state: BiddingState,
    bid: int,
    passed: bool,
    new_bid: int,
)
    requires
        17 <= bid <= 264,
        // a non-pass statement in a call state names a higher bid within
        // range; any other statement keeps the bid
        if !passed && !state.spec_respond() {
            bid < new_bid <= 264
        } else {
            new_bid == bid
        },
    ensures
        state.spec_measure(bid) >= 0,
        match state.spec_next(passed, bid >= 18) {
            BiddingResult::Continue(s) => s.spec_measure(new_bid) < state.spec_measure(bid)
                && s.spec_measure(new_bid) >= 0,
            _ => true,
        },
{
    assert((264 - bid) * 8 >= 0) by (nonlinear_arith)
        requires bid <= 264;
    match state.spec_next(passed, bid >= 18) {
        BiddingResult::Continue(s) => {
            assert((264 - new_bid) * 8 >= 0) by (nonlinear_arith)
                requires new_bid <= 264;
            if new_bid == bid {
                assert(s.spec_measure_state() < state.spec_measure_state());
            } else {
                assert((264 - new_bid) * 8 + 8 <= (264 - bid) * 8) by (nonlinear_arith)
                    requires bid < new_bid;
            }
        },
        _ => {},
    }
}

} // verus!
