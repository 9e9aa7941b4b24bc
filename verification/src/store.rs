//! The card store: per-player hands, the two-card widow, the trick in
//! progress, the archived last trick and the piles of already played cards.
//! Hands and the widow hold partial-knowledge slots; redaction turns slots
//! one-way from known to hidden.

use vstd::prelude::*;
use vstd::multiset::Multiset;
use crate::cards::{Card, OptCard, Player};
use crate::decl::Declaration;
use crate::error::SkatError;

verus! {

/// The known cards of a row of slots, in slot order.
pub open spec fn knowns(s: Seq<OptCard>) -> Seq<Card>
    decreases s.len(),
{
    if s.len() == 0 {
        Seq::empty()
    } else {
        knowns(s.drop_last()) + (match s.last() {
            OptCard::Hidden => Seq::<Card>::empty(),
            OptCard::Known(c) => seq![c],
        })
    }
}

/// A row of slots of the same length with every slot hidden.
pub open spec fn redacted(s: Seq<OptCard>) -> Seq<OptCard> {
    Seq::new(s.len(), |i: int| OptCard::Hidden)
}

/// Removing the slot at `i` by moving the last slot into its place.
pub open spec fn seq_swap_remove<A>(s: Seq<A>, i: int) -> Seq<A> {
    s.update(i, s.last()).drop_last()
}

/// What taking `card` away leaves of a hand: a hidden request first
/// collapses the whole hand to hidden slots, then the first slot equal to
/// the request leaves, a hidden slot standing in when no slot matches; with
/// neither, the take fails.
pub open spec fn spec_take(h0: Seq<OptCard>, card: OptCard) -> Option<Seq<OptCard>> {
    let h = if card == OptCard::Hidden {
        redacted(h0)
    } else {
        h0
    };
    if h.contains(card) {
        Some(seq_swap_remove(h, h.index_of_first(card).unwrap()))
    } else if h.contains(OptCard::Hidden) {
        Some(seq_swap_remove(h, h.index_of_first(OptCard::Hidden).unwrap()))
    } else {
        None
    }
}

/// All card locations of one deal.
#[derive(Clone, Debug)]
pub struct CardStruct {
    /// The three hands, by seat order.
    pub hands: [Vec<OptCard>; 3],
    /// The widow.
    pub skat: Vec<OptCard>,
    /// The trick in progress.
    pub trick: Vec<Card>,
    /// The completed previous trick, in play order.
    pub last_trick: Option<[Card; 3]>,
    /// The cards each seat has played over the deal, by seat order.
    pub played: [Vec<Card>; 3],
}

impl CardStruct {
    pub open spec fn spec_hand(self, p: Player) -> Seq<OptCard> {
        self.hands@[p.ordinal()]@
    }

    pub open spec fn spec_played(self, p: Player) -> Seq<Card> {
        self.played@[p.ordinal()]@
    }

    /// Every concrete card the store holds, in a fixed traversal order:
    /// hand knowns by seat, widow knowns, the open trick, then the played
    /// piles by seat.  The archived last trick repeats played cards and is
    /// not listed again.
    pub open spec fn all_cards(self) -> Seq<Card> {
        knowns(self.hands@[0]@) + knowns(self.hands@[1]@) + knowns(self.hands@[2]@) + knowns(
            self.skat@,
        ) + self.trick@ + self.played@[0]@ + self.played@[1]@ + self.played@[2]@
    }

    /// Number of managed slots, hidden ones included.
    pub open spec fn store_len(self) -> int {
        self.hands@[0]@.len() + self.hands@[1]@.len() + self.hands@[2]@.len() + self.skat@.len()
            + self.trick@.len() + self.played@[0]@.len() + self.played@[1]@.len()
            + self.played@[2]@.len() as int
    }

    /// The undealt cards: those of the deck, in stable index order up to
    /// `n`, that no location holds as a concrete card.
    pub open spec fn undealt_prefix(self, n: int) -> Seq<Card>
        decreases n,
    {
        if n <= 0 {
            Seq::empty()
        } else {
            self.undealt_prefix(n - 1) + (if self.all_cards().contains(Card::from_index(n - 1)) {
                Seq::<Card>::empty()
            } else {
                seq![Card::from_index(n - 1)]
            })
        }
    }

    pub open spec fn spec_undealt(self) -> Seq<Card> {
        self.undealt_prefix(32)
    }

    /// An empty store.
    pub fn new() -> (r: CardStruct)
        ensures
            r.spec_hand(Player::Forehand) == Seq::<OptCard>::empty(),
            r.spec_hand(Player::Middlehand) == Seq::<OptCard>::empty(),
            r.spec_hand(Player::Rearhand) == Seq::<OptCard>::empty(),
            r.skat@ == Seq::<OptCard>::empty(),
            r.trick@ == Seq::<Card>::empty(),
            r.last_trick is None,
            r.spec_played(Player::Forehand) == Seq::<Card>::empty(),
            r.spec_played(Player::Middlehand) == Seq::<Card>::empty(),
            r.spec_played(Player::Rearhand) == Seq::<Card>::empty(),
            r.store_len() == 0,
    {
        CardStruct {
            hands: [Vec::new(), Vec::new(), Vec::new()],
            skat: Vec::new(),
            trick: Vec::new(),
            last_trick: None,
            played: [Vec::new(), Vec::new(), Vec::new()],
        }
    }

    /// The hand of a seat.
    pub fn hand(&self, p: Player) -> (r: &Vec<OptCard>)
        ensures
            r@ == self.spec_hand(p),
    {
        &self.hands[p.index()]
    }

    /// Give the target a card slot: append it to a hand, or to the widow
    /// when the target is `None`.
    pub fn give(&mut self, target: Option<Player>, card: OptCard)
        ensures
            match target {
                Some(p) => final(self).spec_hand(p) == old(self).spec_hand(p).push(card)
                    && final(self).skat == old(self).skat && (forall|q: Player| q != p
                    ==> final(self).spec_hand(q) == old(self).spec_hand(q)),
                None => final(self).skat@ == old(self).skat@.push(card) && (forall|q: Player|
                    final(self).spec_hand(q) == old(self).spec_hand(q)),
            },
            final(self).trick == old(self).trick,
            final(self).last_trick == old(self).last_trick,
            final(self).played == old(self).played,
    {
        match target {
            Some(player) => {
                let i = player.index();
                self.hands[i].push(card);
                assert(forall|q: Player| q != player ==> #[trigger] q.ordinal() != player.ordinal());
            },
            None => self.skat.push(card),
        }
    }

    /// Count the managed slots; during dealing this is the number of dealt
    /// cards.
    pub fn count(&self) -> (r: u8)
        requires
            self.store_len() <= 255,
        ensures
            r == self.store_len(),
    {
        let total: usize = self.hands[0].len() + self.hands[1].len() + self.hands[2].len()
            + self.skat.len() + self.trick.len() + self.played[0].len() + self.played[1].len()
            + self.played[2].len();
        total as u8
    }

    /// Redact hidden information: the hands of all seats not kept, and
    /// always the whole widow, collapse to hidden slots.
    pub fn redact(&mut self, keep: [bool; 3])
        ensures
            forall|p: Player| keep@[p.ordinal()] ==> final(self).spec_hand(p) == old(
                self,
            ).spec_hand(p),
            forall|p: Player| !keep@[p.ordinal()] ==> final(self).spec_hand(p) == redacted(old(
                self,
            ).spec_hand(p)),
            final(self).skat@ == redacted(old(self).skat@),
            final(self).trick == old(self).trick,
            final(self).last_trick == old(self).last_trick,
            final(self).played == old(self).played,
    {
        if !keep[0] {
            redact_row(&mut self.hands[0]);
        }
        if !keep[1] {
            redact_row(&mut self.hands[1]);
        }
        if !keep[2] {
            redact_row(&mut self.hands[2]);
        }
        redact_row(&mut self.skat);
        assert(forall|p: Player| 0 <= #[trigger] p.ordinal() < 3);
    }

    /// Take the card away from the player, as the putting and playing
    /// phases require; fails when the hand neither holds the card nor a
    /// hidden stand-in.
    pub fn take(&mut self, player: Player, card: OptCard) -> (r: Result<(), SkatError>)
        ensures
            match spec_take(old(self).spec_hand(player), card) {
                Some(h2) => r == Ok::<(), SkatError>(()) && final(self).spec_hand(player) == h2
                    && (forall|q: Player| q != player ==> final(self).spec_hand(q) == old(
                    self,
                ).spec_hand(q)),
                None => r == Err::<(), SkatError>(SkatError::InvalidMove) && (forall|q: Player|
                    final(self).spec_hand(q) == old(self).spec_hand(q)),
            },
            final(self).skat == old(self).skat,
            final(self).trick == old(self).trick,
            final(self).last_trick == old(self).last_trick,
            final(self).played == old(self).played,
    {
        let i = player.index();
        let r = hand_take(&mut self.hands[i], card);
        assert(forall|q: Player| q != player ==> #[trigger] q.ordinal() != player.ordinal());
        r
    }

    /// Every concrete card the store holds, in the fixed traversal order.
    pub fn known_cards(&self) -> (r: Vec<Card>)
        ensures
            r@ == self.all_cards(),
    {
        let mut r = known_row(&self.hands[0]);
        let mut t = known_row(&self.hands[1]);
        r.append(&mut t);
        let mut t = known_row(&self.hands[2]);
        r.append(&mut t);
        let mut t = known_row(&self.skat);
        r.append(&mut t);
        push_all(&mut r, &self.trick);
        push_all(&mut r, &self.played[0]);
        push_all(&mut r, &self.played[1]);
        push_all(&mut r, &self.played[2]);
        proof {
            assert(r@ =~= self.all_cards());
        }
        r
    }

    /// Whether some location holds the concrete card.
    pub fn contains_known(&self, c: Card) -> (r: bool)
        ensures
            r == self.all_cards().contains(c),
    {
        let all = self.known_cards();
        crate::decl::contains_card(&all, c)
    }

    /// The globally undealt cards, in stable index order.
    pub fn undealt_cards(&self) -> (r: Vec<Card>)
        ensures
            r@ == self.spec_undealt(),
    {
        let all = self.known_cards();
        let mut r: Vec<Card> = Vec::new();
        let mut i: usize = 0;
        while i < 32
            invariant
                i <= 32,
                all@ == self.all_cards(),
                r@ == self.undealt_prefix(i as int),
            decreases 32 - i,
        {
            let c = Card::of_index(i);
            if !crate::decl::contains_card(&all, c) {
                r.push(c);
            }
            i += 1;
        }
        r
    }
}

impl CardStruct {
    /// The cards the seat may play into the current trick.  While any of the
    /// seat's slots is hidden the true constraint cannot be known, so the
    /// seat's known cards and every globally undealt card are offered.
    /// Otherwise the first card of the trick fixes the class to follow: a
    /// seat holding a card of that class must play from it, and a seat
    /// holding none may play anything.
    pub open spec fn spec_allowed(self, p: Player, d: Declaration) -> Seq<Card> {
        let h = self.spec_hand(p);
        if h.contains(OptCard::Hidden) {
            knowns(h) + self.spec_undealt()
        } else {
            let held = knowns(h);
            if self.trick@.len() == 0 {
                held
            } else {
                let follow = self.trick@[0].spec_trump_suit(d);
                if exists|i: int|
                    0 <= i < held.len() && (#[trigger] held[i]).spec_trump_suit(d) == follow {
                    held.filter(|c: Card| c.spec_trump_suit(d) == follow)
                } else {
                    held
                }
            }
        }
    }

    /// The cards the seat is allowed to play, considering the first card of
    /// the current trick, if any.
    pub fn allowed(&self, player: Player, declaration: Declaration) -> (r: Vec<Card>)
        ensures
            r@ == self.spec_allowed(player, declaration),
    {
        let hand = &self.hands[player.index()];
        if row_has_hidden(hand) {
            let mut r = known_row(hand);
            let mut u = self.undealt_cards();
            r.append(&mut u);
            return r;
        }
        let held = known_row(hand);
        if self.trick.len() == 0 {
            return held;
        }
        let follow = self.trick[0].trump_suit(declaration);
        let mut must = false;
        let mut i: usize = 0;
        while i < held.len()
            invariant
                i <= held@.len(),
                !must ==> forall|j: int| 0 <= j < i
                    ==> (#[trigger] held@[j]).spec_trump_suit(declaration) != follow,
                must ==> exists|j: int| 0 <= j < held@.len()
                    && (#[trigger] held@[j]).spec_trump_suit(declaration) == follow,
            decreases held@.len() - i,
        {
            if held[i].trump_suit(declaration) == follow {
                must = true;
            }
            i += 1;
        }
        if !must {
            return held;
        }
        let pred = Ghost(|c: Card| c.spec_trump_suit(declaration) == follow);
        let mut r: Vec<Card> = Vec::new();
        let mut i: usize = 0;
        while i < held.len()
            invariant
                i <= held@.len(),
                pred@ == (|c: Card| c.spec_trump_suit(declaration) == follow),
                r@ == held@.take(i as int).filter(pred@),
            decreases held@.len() - i,
        {
            proof {
                reveal(Seq::filter);
                assert(held@.take(i as int + 1).drop_last() =~= held@.take(i as int));
                assert(held@.take(i as int + 1).last() == held@[i as int]);
            }
            if held[i].trump_suit(declaration) == follow {
                r.push(held[i]);
            }
            i += 1;
        }
        proof {
            assert(held@.take(held@.len() as int) =~= held@);
        }
        r
    }

    /// Archive the completed trick: each card joins the played pile of the
    /// seat that played it, starting from the trick's leader, the trick is
    /// remembered as the last trick, and the table empties.
    pub fn put_trick(&mut self, leader: Player)
        requires
            old(self).trick@.len() == 3,
        ensures
            final(self).trick@ == Seq::<Card>::empty(),
            final(self).last_trick matches Some(lt) && lt@ == old(self).trick@,
            final(self).spec_played(leader) == old(self).spec_played(leader).push(
                old(self).trick@[0],
            ),
            final(self).spec_played(leader.spec_next()) == old(self).spec_played(
                leader.spec_next(),
            ).push(old(self).trick@[1]),
            final(self).spec_played(leader.spec_next().spec_next()) == old(self).spec_played(
                leader.spec_next().spec_next(),
            ).push(old(self).trick@[2]),
            forall|q: Player| final(self).spec_hand(q) == old(self).spec_hand(q),
            final(self).skat == old(self).skat,
    {
        let t0 = self.trick[0];
        let t1 = self.trick[1];
        let t2 = self.trick[2];
        let second = leader.next();
        let third = second.next();
        self.played[leader.index()].push(t0);
        self.played[second.index()].push(t1);
        self.played[third.index()].push(t2);
        self.last_trick = Some([t0, t1, t2]);
        self.trick.clear();
        proof {
            assert(forall|q: Player| 0 <= #[trigger] q.ordinal() < 3);
            assert(final(self).last_trick->Some_0@ =~= old(self).trick@);
        }
    }

    /// Trick points the open trick holds.
    pub fn trick_points(&self) -> (r: u8)
        requires
            self.trick@.len() <= 3,
        ensures
            r == card_points_sum(self.trick@),
            r <= 33,
    {
        proof {
            lemma_card_points_bound(self.trick@);
        }
        let mut sum: u8 = 0;
        let mut i: usize = 0;
        while i < self.trick.len()
            invariant
                i <= self.trick@.len(),
                self.trick@.len() <= 3,
                sum == card_points_sum(self.trick@.take(i as int)),
                sum <= 11 * i,
            decreases self.trick@.len() - i,
        {
            proof {
                assert(self.trick@.take(i as int + 1).drop_last() =~= self.trick@.take(i as int));
                assert(self.trick@.take(i as int + 1).last() == self.trick@[i as int]);
            }
            sum = sum + self.trick[i].points();
            i += 1;
        }
        proof {
            assert(self.trick@.take(self.trick@.len() as int) =~= self.trick@);
        }
        sum
    }

    /// Sort the hands and the widow for display, hidden slots last; `null`
    /// picks the Null ordering.
    pub fn sort(&mut self, null: bool)
        ensures
            forall|p: Player| #![all_triggers] final(self).spec_hand(p).to_multiset() == old(
                self,
            ).spec_hand(p).to_multiset() && sorted_by_key(final(self).spec_hand(p), null),
            final(self).skat@.to_multiset() == old(self).skat@.to_multiset(),
            sorted_by_key(final(self).skat@, null),
            final(self).trick == old(self).trick,
            final(self).last_trick == old(self).last_trick,
            final(self).played == old(self).played,
    {
        sort_row(&mut self.hands[0], null);
        sort_row(&mut self.hands[1], null);
        sort_row(&mut self.hands[2], null);
        sort_row(&mut self.skat, null);
        proof {
            assert(forall|p: Player| 0 <= #[trigger] p.ordinal() < 3);
        }
    }
}

/// Sum of the trick points of the cards.
pub open spec fn card_points_sum(s: Seq<Card>) -> int
    decreases s.len(),
{
    if s.len() == 0 {
        0
    } else {
        card_points_sum(s.drop_last()) + s.last().value.spec_points()
    }
}

/// Each card is worth at most 11 points, so any prefix of a card row is
/// worth at most 11 per card.
pub proof fn lemma_card_points_bound(s: Seq<Card>)
    ensures
        forall|n: int| 0 <= n <= s.len() ==> #[trigger] card_points_sum(s.take(n)) <= 11 * n
            && card_points_sum(s.take(n)) >= 0,
    decreases s.len(),
{
    assert forall|n: int| 0 <= n <= s.len() implies #[trigger] card_points_sum(s.take(n)) <= 11 * n
        && card_points_sum(s.take(n)) >= 0 by {
        lemma_card_points_prefix(s, n);
    }
}

proof fn lemma_card_points_prefix(s: Seq<Card>, n: int)
    requires
        0 <= n <= s.len(),
    ensures
        card_points_sum(s.take(n)) <= 11 * n,
        card_points_sum(s.take(n)) >= 0,
    decreases n,
{
    if n > 0 {
        lemma_card_points_prefix(s, n - 1);
        assert(s.take(n).drop_last() =~= s.take(n - 1));
        assert(s.take(n).last().value.spec_points() <= 11);
    }
}

/// Whether the slots are in display order for the chosen game kind, hidden
/// slots last.
pub open spec fn sorted_by_key(s: Seq<OptCard>, null: bool) -> bool {
    forall|i: int, j: int| 0 <= i < j < s.len() ==> (#[trigger] s[i]).spec_sort_key(null)
        <= (#[trigger] s[j]).spec_sort_key(null)
}

/// Selection sort of one row by the display key.
fn sort_row(h: &mut Vec<OptCard>, null: bool)
    ensures
        final(h)@.to_multiset() == old(h)@.to_multiset(),
        sorted_by_key(final(h)@, null),
{
    broadcast use vstd::seq_lib::group_to_multiset_ensures;

    let mut src: Vec<OptCard> = Vec::new();
    core::mem::swap(&mut src, h);
    let ghost orig = src@;
    while src.len() > 0
        invariant
            src@.to_multiset().add(h@.to_multiset()) =~= orig.to_multiset(),
            sorted_by_key(h@, null),
            forall|k: int, j: int| 0 <= k < h@.len() && 0 <= j < src@.len()
                ==> (#[trigger] h@[k]).spec_sort_key(null) <= (#[trigger] src@[j]).spec_sort_key(
                null,
            ),
        decreases src@.len(),
    {
        let mut min: usize = 0;
        let mut i: usize = 1;
        while i < src.len()
            invariant
                min < i <= src@.len() || (min == 0 && i <= src@.len()),
                min < src@.len(),
                forall|j: int| 0 <= j < i ==> (#[trigger] src@[min as int]).spec_sort_key(null)
                    <= src@[j].spec_sort_key(null),
            decreases src@.len() - i,
        {
            if src[i].cmp(&src[min], null) {
                min = i;
            }
            i += 1;
        }
        let ghost src0 = src@;
        let ghost h0 = h@;
        let x = src.remove(min);
        h.push(x);
        proof {
            src0.to_multiset_ensures();
            h0.to_multiset_ensures();
            assert(src@ == src0.remove(min as int));
            assert(src@.to_multiset() =~= src0.to_multiset().remove(src0[min as int]));
            assert(h@.to_multiset() =~= h0.to_multiset().insert(x));
            assert(src0.contains(src0[min as int]));
            assert(src0.to_multiset().count(src0[min as int]) > 0);
            assert forall|y: OptCard|
                #[trigger] src@.to_multiset().add(h@.to_multiset()).count(y)
                    == orig.to_multiset().count(y) by {
                assert(src0.to_multiset().add(h0.to_multiset()).count(y) == orig.to_multiset()
                    .count(y));
            }
            assert(src@.to_multiset().add(h@.to_multiset()) =~= orig.to_multiset());
        }
    }
    proof {
        assert(src@.to_multiset() =~= Multiset::<OptCard>::empty());
        assert(h@.to_multiset() =~= orig.to_multiset());
    }
}

impl CardStruct {
    /// How often the store holds the concrete card, over all locations.
    pub open spec fn card_count(self, c: Card) -> int {
        self.all_cards().to_multiset().count(c) as int
    }

    /// No two locations hold the same concrete card.
    pub open spec fn no_dup_cards(self) -> bool {
        forall|c: Card| #[trigger] self.card_count(c) <= 1
    }

    /// The store's card multiset, location by location.
    pub proof fn lemma_all_cards_mset(self)
        ensures
            self.all_cards().to_multiset() =~= knowns(self.hands@[0]@).to_multiset().add(
                knowns(self.hands@[1]@).to_multiset(),
            ).add(knowns(self.hands@[2]@).to_multiset()).add(knowns(self.skat@).to_multiset()).add(
                self.trick@.to_multiset(),
            ).add(self.played@[0]@.to_multiset()).add(self.played@[1]@.to_multiset()).add(
                self.played@[2]@.to_multiset(),
            ),
    {
        let k0 = knowns(self.hands@[0]@);
        let k1 = knowns(self.hands@[1]@);
        let k2 = knowns(self.hands@[2]@);
        let ks = knowns(self.skat@);
        let t = self.trick@;
        let p0 = self.played@[0]@;
        let p1 = self.played@[1]@;
        let p2 = self.played@[2]@;
        lemma_to_multiset_add(k0, k1);
        lemma_to_multiset_add(k0 + k1, k2);
        lemma_to_multiset_add(k0 + k1 + k2, ks);
        lemma_to_multiset_add(k0 + k1 + k2 + ks, t);
        lemma_to_multiset_add(k0 + k1 + k2 + ks + t, p0);
        lemma_to_multiset_add(k0 + k1 + k2 + ks + t + p0, p1);
        lemma_to_multiset_add(k0 + k1 + k2 + ks + t + p0 + p1, p2);
    }
}

/// Concatenating rows adds their multisets.
pub proof fn lemma_to_multiset_add<A>(a: Seq<A>, b: Seq<A>)
    ensures
        (a + b).to_multiset() =~= a.to_multiset().add(b.to_multiset()),
    decreases b.len(),
{
    broadcast use vstd::seq_lib::group_to_multiset_ensures;

    if b.len() == 0 {
        assert(a + b =~= a);
        assert forall|x: A| #[trigger] b.to_multiset().count(x) == 0 by {
            assert(!b.contains(x));
        }
        assert((a + b).to_multiset() =~= a.to_multiset().add(b.to_multiset()));
    } else {
        lemma_to_multiset_add(a, b.drop_last());
        assert(a + b =~= (a + b.drop_last()).push(b.last()));
        assert(b =~= b.drop_last().push(b.last()));
        assert((a + b).to_multiset() =~= (a + b.drop_last()).to_multiset().insert(b.last()));
        assert(b.to_multiset() =~= b.drop_last().to_multiset().insert(b.last()));
        assert((a + b).to_multiset() =~= a.to_multiset().add(b.to_multiset()));
    }
}

/// Overwriting one slot swaps its old value for the new one in the row's
/// multiset.
pub proof fn lemma_update_to_multiset<A>(s: Seq<A>, i: int, x: A)
    requires
        0 <= i < s.len(),
    ensures
        s.update(i, x).to_multiset() =~= s.to_multiset().remove(s[i]).insert(x),
        s.to_multiset().count(s[i]) > 0,
{
    broadcast use vstd::seq_lib::group_to_multiset_ensures;

    let pre = s.take(i);
    let post = s.skip(i + 1);
    assert(s =~= pre + seq![s[i]] + post);
    assert(s.update(i, x) =~= pre + seq![x] + post);
    lemma_to_multiset_add(pre, seq![s[i]]);
    lemma_to_multiset_add(pre + seq![s[i]], post);
    lemma_to_multiset_add(pre, seq![x]);
    lemma_to_multiset_add(pre + seq![x], post);
    assert(seq![s[i]] =~= Seq::empty().push(s[i]));
    assert(seq![x] =~= Seq::empty().push(x));
    assert(seq![s[i]].to_multiset() =~= Multiset::empty().insert(s[i]));
    assert(seq![x].to_multiset() =~= Multiset::empty().insert(x));
    assert(s.contains(s[i]));
}

/// Removing a slot by swapping the last one in takes exactly that slot's
/// value out of the row's multiset.
pub proof fn lemma_swap_remove_to_multiset<A>(s: Seq<A>, i: int)
    requires
        0 <= i < s.len(),
    ensures
        seq_swap_remove(s, i).to_multiset() =~= s.to_multiset().remove(s[i]),
        s.to_multiset().count(s[i]) > 0,
    decreases 0int,
{
    broadcast use vstd::seq_lib::group_to_multiset_ensures;

    let u = s.update(i, s.last());
    lemma_update_to_multiset(s, i, s.last());
    assert(u.drop_last() =~= u.remove(u.len() - 1));
    assert(u.remove(u.len() - 1).to_multiset() =~= u.to_multiset().remove(u[u.len() - 1]));
    if i == s.len() - 1 {
        assert(u[u.len() - 1] == s.last());
    } else {
        assert(u[u.len() - 1] == s.last());
    }
    assert(seq_swap_remove(s, i).to_multiset() =~= s.to_multiset().remove(s[i]).insert(
        s.last(),
    ).remove(s.last()));
    assert(seq_swap_remove(s, i).to_multiset() =~= s.to_multiset().remove(s[i]));
}

/// A row holds a concrete card exactly as often as its known cards do.
pub proof fn lemma_knowns_count(h: Seq<OptCard>, c: Card)
    ensures
        knowns(h).to_multiset().count(c) == h.to_multiset().count(OptCard::Known(c)),
    decreases h.len(),
{
    broadcast use vstd::seq_lib::group_to_multiset_ensures;

    if h.len() == 0 {
        assert(!knowns(h).contains(c));
        assert(!h.contains(OptCard::Known(c)));
    } else {
        lemma_knowns_count(h.drop_last(), c);
        assert(h =~= h.drop_last().push(h.last()));
        assert(h.to_multiset() =~= h.drop_last().to_multiset().insert(h.last()));
        match h.last() {
            OptCard::Hidden => {
                assert(knowns(h) =~= knowns(h.drop_last()));
            },
            OptCard::Known(k) => {
                assert(knowns(h) =~= knowns(h.drop_last()).push(k));
                assert(knowns(h).to_multiset() =~= knowns(h.drop_last()).to_multiset().insert(k));
            },
        }
    }
}

/// A row has at most as many known cards as slots, and exactly as many when
/// no slot is hidden.
pub proof fn lemma_knowns_len(h: Seq<OptCard>)
    ensures
        knowns(h).len() <= h.len(),
        !h.contains(OptCard::Hidden) ==> knowns(h).len() == h.len(),
    decreases h.len(),
{
    if h.len() > 0 {
        lemma_knowns_len(h.drop_last());
        if h.contains(OptCard::Hidden) {
        } else {
            assert(forall|i: int| 0 <= i < h.len() - 1 ==> h.drop_last()[i] == h[i]);
            assert(!h.drop_last().contains(OptCard::Hidden));
            assert(h.last() != OptCard::Hidden) by {
                assert(h[h.len() - 1] == h.last());
            }
        }
    }
}

/// A fully redacted row has no known cards.
pub proof fn lemma_knowns_redacted(h: Seq<OptCard>)
    ensures
        knowns(redacted(h)) =~= Seq::<Card>::empty(),
    decreases h.len(),
{
    if h.len() > 0 {
        lemma_knowns_redacted(h.drop_last());
        assert(redacted(h).drop_last() =~= redacted(h.drop_last()));
        assert(redacted(h).last() == OptCard::Hidden);
    }
}

/// Appending a known card appends it to the row's known cards; appending a
/// hidden slot changes nothing of them.
pub proof fn lemma_knowns_push(h: Seq<OptCard>, x: OptCard)
    ensures
        knowns(h.push(x)) == (match x {
            OptCard::Hidden => knowns(h),
            OptCard::Known(c) => knowns(h).push(c),
        }),
{
    assert(h.push(x).drop_last() =~= h);
    match x {
        OptCard::Hidden => {
            assert(knowns(h.push(x)) =~= knowns(h));
        },
        OptCard::Known(c) => {
            assert(knowns(h.push(x)) =~= knowns(h).push(c));
        },
    }
}

/// A row's known cards hold a card exactly when some slot knows it.
pub proof fn lemma_knowns_contains(h: Seq<OptCard>, c: Card)
    ensures
        knowns(h).contains(c) <==> h.contains(OptCard::Known(c)),
{
    broadcast use vstd::seq_lib::group_to_multiset_ensures;

    lemma_knowns_count(h, c);
}

/// How taking one slot out changes the known cards of a hand: a concrete
/// request removes one occurrence of that card when the hand knows it, and
/// otherwise only a hidden slot leaves; a hidden request leaves no known
/// card at all.
pub proof fn lemma_take_counts(h: Seq<OptCard>, card: OptCard)
    requires
        spec_take(h, card) is Some,
    ensures
        spec_take(h, card).unwrap().len() == h.len() - 1,
        card == OptCard::Hidden ==> forall|c: Card| #[trigger] knowns(
            spec_take(h, card).unwrap(),
        ).to_multiset().count(c) == 0,
        card != OptCard::Hidden && h.contains(card) ==> forall|c: Card| #[trigger] knowns(
            spec_take(h, card).unwrap(),
        ).to_multiset().count(c) == knowns(h).to_multiset().count(c) - (if OptCard::Known(c)
            == card {
            1int
        } else {
            0
        }),
        card != OptCard::Hidden && !h.contains(card) ==> forall|c: Card| #[trigger] knowns(
            spec_take(h, card).unwrap(),
        ).to_multiset().count(c) == knowns(h).to_multiset().count(c),
{
    broadcast use vstd::seq_lib::group_to_multiset_ensures;

    let h1 = if card == OptCard::Hidden {
        redacted(h)
    } else {
        h
    };
    let h2 = spec_take(h, card).unwrap();
    if h1.contains(card) {
        h1.index_of_first_ensures(card);
        let i = h1.index_of_first(card).unwrap();
        lemma_swap_remove_to_multiset(h1, i);
        assert(h2 == seq_swap_remove(h1, i));
    } else {
        h1.index_of_first_ensures(OptCard::Hidden);
        let i = h1.index_of_first(OptCard::Hidden).unwrap();
        lemma_swap_remove_to_multiset(h1, i);
        assert(h2 == seq_swap_remove(h1, i));
    }
    assert forall|c: Card| #[trigger] knowns(h2).to_multiset().count(c) >= 0 implies true by {}
    if card == OptCard::Hidden {
        assert forall|c: Card| #[trigger] knowns(h2).to_multiset().count(c) == 0 by {
            lemma_knowns_count(h2, c);
            lemma_knowns_count(h1, c);
            assert(forall|j: int| 0 <= j < h1.len() ==> h1[j] == OptCard::Hidden);
            assert(!h1.contains(OptCard::Known(c)));
            assert(h1.to_multiset().count(OptCard::Known(c)) == 0);
        }
    } else {
        if h.contains(card) {
            assert forall|c: Card| #[trigger] knowns(h2).to_multiset().count(c) == knowns(
                h,
            ).to_multiset().count(c) - (if OptCard::Known(c) == card {
                1int
            } else {
                0
            }) by {
                lemma_knowns_count(h2, c);
                lemma_knowns_count(h, c);
            }
        } else {
            assert forall|c: Card| #[trigger] knowns(h2).to_multiset().count(c) == knowns(
                h,
            ).to_multiset().count(c) by {
                lemma_knowns_count(h2, c);
                lemma_knowns_count(h, c);
            }
        }
    }
}

/// Redacting with the same observer set a second time changes nothing: a
/// redacted row redacts to itself.
pub proof fn lemma_redact_idempotent(h: Seq<OptCard>)
    ensures
        redacted(redacted(h)) == redacted(h),
{
    assert(redacted(redacted(h)) =~= redacted(h));
}

/// How one redaction pass relates the store before and after: hands of
/// kept seats stay, every other hand and the whole widow collapse to
/// hidden slots, and all other locations stay.
pub open spec fn redact_rel(a: CardStruct, b: CardStruct, keep: Seq<bool>) -> bool {
    &&& forall|p: Player| keep[p.ordinal()] ==> b.spec_hand(p) == a.spec_hand(p)
    &&& forall|p: Player| !keep[p.ordinal()] ==> b.spec_hand(p) == redacted(a.spec_hand(p))
    &&& b.skat@ == redacted(a.skat@)
    &&& b.trick@ == a.trick@
    &&& b.last_trick == a.last_trick
    &&& forall|p: Player| b.spec_played(p) == a.spec_played(p)
}

/// Redaction is idempotent: redacting a second time with the same observer
/// set leaves every location as the first pass did.
pub proof fn lemma_redact_rel_idempotent(
    a: CardStruct,
    b: CardStruct,
    c: CardStruct,
    keep: Seq<bool>,
)
    requires
        redact_rel(a, b, keep),
        redact_rel(b, c, keep),
    ensures
        forall|p: Player| c.spec_hand(p) == b.spec_hand(p),
        c.skat@ == b.skat@,
        c.trick@ == b.trick@,
        c.last_trick == b.last_trick,
        forall|p: Player| c.spec_played(p) == b.spec_played(p),
{
    assert forall|p: Player| c.spec_hand(p) == b.spec_hand(p) by {
        if !keep[p.ordinal()] {
            assert(redacted(redacted(a.spec_hand(p))) =~= redacted(a.spec_hand(p)));
        }
    }
    assert(redacted(redacted(a.skat@)) =~= redacted(a.skat@));
}

/// A copy of an optional-card row.
pub(crate) fn clone_opt_row(h: &Vec<OptCard>) -> (r: Vec<OptCard>)
    ensures
        r@ == h@,
{
    let mut r: Vec<OptCard> = Vec::new();
    let mut i: usize = 0;
    while i < h.len()
        invariant
            i <= h@.len(),
            r@ == h@.take(i as int),
        decreases h@.len() - i,
    {
        r.push(h[i]);
        proof {
            assert(h@.take(i as int + 1) =~= h@.take(i as int).push(h@[i as int]));
        }
        i += 1;
    }
    proof {
        assert(h@.take(h@.len() as int) =~= h@);
    }
    r
}

/// A copy of a card row.
pub(crate) fn clone_card_row(h: &Vec<Card>) -> (r: Vec<Card>)
    ensures
        r@ == h@,
{
    let mut r: Vec<Card> = Vec::new();
    crate::store::push_all(&mut r, h);
    proof {
        assert(r@ =~= h@);
    }
    r
}

impl CardStruct {
    /// An independent copy of the store, sharing nothing with the
    /// original.
    pub fn deep_clone(&self) -> (r: CardStruct)
        ensures
            forall|p: Player| r.spec_hand(p) == self.spec_hand(p),
            r.skat@ == self.skat@,
            r.trick@ == self.trick@,
            r.last_trick == self.last_trick,
            forall|p: Player| r.spec_played(p) == self.spec_played(p),
            r.store_len() == self.store_len(),
            r.all_cards() == self.all_cards(),
    {
        let r = CardStruct {
            hands: [
                clone_opt_row(&self.hands[0]),
                clone_opt_row(&self.hands[1]),
                clone_opt_row(&self.hands[2]),
            ],
            skat: clone_opt_row(&self.skat),
            trick: clone_card_row(&self.trick),
            last_trick: self.last_trick,
            played: [
                clone_card_row(&self.played[0]),
                clone_card_row(&self.played[1]),
                clone_card_row(&self.played[2]),
            ],
        };
        proof {
            assert(forall|p: Player| 0 <= #[trigger] p.ordinal() < 3);
        }
        r
    }
}

/// Whether any slot of the row is hidden.
pub(crate) fn row_has_hidden(h: &Vec<OptCard>) -> (r: bool)
    ensures
        r == h@.contains(OptCard::Hidden),
{
    let mut i: usize = 0;
    while i < h.len()
        invariant
            i <= h@.len(),
            forall|j: int| 0 <= j < i ==> h@[j] != OptCard::Hidden,
        decreases h@.len() - i,
    {
        if matches!(h[i], OptCard::Hidden) {
            assert(h@.contains(OptCard::Hidden));
            return true;
        }
        i += 1;
    }
    false
}

/// Turn every slot of the row hidden.
fn redact_row(h: &mut Vec<OptCard>)
    ensures
        final(h)@ == redacted(old(h)@),
{
    let n = h.len();
    let mut i: usize = 0;
    while i < n
        invariant
            i <= n,
            h@.len() == n,
            forall|j: int| 0 <= j < i ==> h@[j] == OptCard::Hidden,
            forall|j: int| i <= j < n ==> h@[j] == old(h)@[j],
        decreases n - i,
    {
        h.set(i, OptCard::Hidden);
        i += 1;
    }
    proof {
        assert(h@ =~= redacted(old(h)@));
    }
}

/// The known cards of a row, in slot order.
pub(crate) fn known_row(h: &Vec<OptCard>) -> (r: Vec<Card>)
    ensures
        r@ == knowns(h@),
{
    let mut r: Vec<Card> = Vec::new();
    let mut i: usize = 0;
    while i < h.len()
        invariant
            i <= h@.len(),
            r@ == knowns(h@.take(i as int)),
        decreases h@.len() - i,
    {
        proof {
            assert(h@.take(i as int + 1).drop_last() =~= h@.take(i as int));
            assert(h@.take(i as int + 1).last() == h@[i as int]);
        }
        match h[i] {
            OptCard::Hidden => {
                proof {
                    assert(knowns(h@.take(i as int + 1)) =~= knowns(h@.take(i as int)));
                }
            },
            OptCard::Known(c) => {
                r.push(c);
                proof {
                    assert(knowns(h@.take(i as int + 1)) =~= knowns(h@.take(i as int)).push(c));
                }
            },
        }
        i += 1;
    }
    proof {
        assert(h@.take(h@.len() as int) =~= h@);
    }
    r
}

/// Append a copy of every card of `src` to `dst`.
pub(crate) fn push_all(dst: &mut Vec<Card>, src: &Vec<Card>)
    ensures
        final(dst)@ == old(dst)@ + src@,
{
    let mut i: usize = 0;
    while i < src.len()
        invariant
            i <= src@.len(),
            dst@ == old(dst)@ + src@.take(i as int),
        decreases src@.len() - i,
    {
        dst.push(src[i]);
        proof {
            assert(old(dst)@ + src@.take(i as int + 1) =~= (old(dst)@ + src@.take(i as int)).push(
                src@[i as int],
            ));
        }
        i += 1;
    }
    proof {
        assert(src@.take(src@.len() as int) =~= src@);
        assert(dst@ =~= old(dst)@ + src@);
    }
}

/// Take one slot out of a hand: a hidden request first collapses the hand,
/// then the first matching slot leaves, a hidden slot standing in.
fn hand_take(h: &mut Vec<OptCard>, card: OptCard) -> (r: Result<(), SkatError>)
    ensures
        match spec_take(old(h)@, card) {
            Some(h2) => r == Ok::<(), SkatError>(()) && final(h)@ == h2,
            None => r == Err::<(), SkatError>(SkatError::InvalidMove) && final(h)@ == old(h)@,
        },
{
    if matches!(card, OptCard::Hidden) {
        redact_row(h);
    }
    let ghost hs = h@;
    proof {
        assert(hs == if card == OptCard::Hidden {
            redacted(old(h)@)
        } else {
            old(h)@
        });
    }
    let mut idx: usize = 0;
    let mut found = false;
    let n = h.len();
    let mut i: usize = 0;
    while i < n
        invariant
            i <= n,
            h@ == hs,
            n == hs.len(),
            !found ==> forall|j: int| 0 <= j < i ==> hs[j] != card,
            found ==> idx < i && hs[idx as int] == card && (forall|j: int|
                0 <= j < idx ==> hs[j] != card),
        decreases n - i,
    {
        if !found {
            let hi = h[i];
            if hi == card {
                idx = i;
                found = true;
            }
        }
        i += 1;
    }
    if !found {
        let mut j: usize = 0;
        while j < n
            invariant
                j <= n,
                h@ == hs,
                n == hs.len(),
                !found ==> forall|k: int| 0 <= k < j ==> hs[k] != OptCard::Hidden,
                found ==> idx < j && hs[idx as int] == OptCard::Hidden && (forall|k: int|
                    0 <= k < idx ==> hs[k] != OptCard::Hidden),
                forall|k: int| 0 <= k < n ==> hs[k] != card,
            decreases n - j,
        {
            if !found {
                let hj = h[j];
                if matches!(hj, OptCard::Hidden) {
                    idx = j;
                    found = true;
                }
            }
            j += 1;
        }
        if !found {
            proof {
                assert(!hs.contains(card));
                assert(!hs.contains(OptCard::Hidden));
            }
            return Err(SkatError::InvalidMove);
        }
        proof {
            assert(hs.contains(OptCard::Hidden));
            assert(!hs.contains(card));
            hs.index_of_first_ensures(OptCard::Hidden);
            assert(hs.index_of_first(OptCard::Hidden) == Some(idx as int));
        }
    } else {
        proof {
            assert(hs.contains(card));
            hs.index_of_first_ensures(card);
            assert(hs.index_of_first(card) == Some(idx as int));
        }
    }
    h.swap_remove(idx);
    Ok(())
}

} // verus!
