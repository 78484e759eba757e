use crate::card::CardKind;
use rand::rngs::StdRng;
use rand::seq::SliceRandom;
use vstd::multiset::Multiset;
use vstd::prelude::*;

verus! {

pub type PlayerIndex = usize;

pub type HandIndex = usize;

/// rand's `StdRng`, held opaque: the library only hands it to the shuffle below.
#[verifier::external_type_specification]
#[verifier::external_body]
pub struct ExStdRng(StdRng);

/// Relies on `SliceRandom::shuffle` of rand: a Fisher-Yates pass made only of
/// swaps, so the cards come back as a permutation of the cards handed in.
#[verifier::external_body]
fn shuffle_cards(cards: &mut Vec<CardKind>, rng: &mut StdRng)
    ensures
        final(cards)@.len() == old(cards)@.len(),
        final(cards)@.to_multiset() == old(cards)@.to_multiset(),
{
    cards.shuffle(rng)
}

/// Sum of the victory points of `s` in a deck of `deck_size` cards.
pub open spec fn points_of(s: Seq<CardKind>, deck_size: int) -> int
    decreases s.len(),
{
    if s.len() == 0 {
        0
    } else {
        points_of(s.drop_last(), deck_size) + s.last().spec_victory_points(deck_size)
    }
}

/// The four zones of a player as sequences; the top of `draw` is its last element.
pub struct PlayerView {
    pub draw: Seq<CardKind>,
    pub hand: Seq<CardKind>,
    pub play: Seq<CardKind>,
    pub discard: Seq<CardKind>,
}

impl PlayerView {
    /// Every card the player holds, in any zone.
    pub open spec fn cards(self) -> Multiset<CardKind> {
        self.draw.to_multiset().add(self.hand.to_multiset()).add(self.play.to_multiset()).add(
            self.discard.to_multiset(),
        )
    }

    pub open spec fn deck_size(self) -> int {
        (self.play.len() + self.hand.len() + self.draw.len() + self.discard.len()) as int
    }

    pub open spec fn points(self) -> int {
        let d = self.deck_size();
        points_of(self.play, d) + points_of(self.hand, d) + points_of(self.draw, d) + points_of(
            self.discard,
            d,
        )
    }

    /// The player after the card at `index` left the hand for the play zone.
    pub open spec fn after_play(self, index: int) -> PlayerView {
        PlayerView {
            hand: self.hand.remove(index),
            play: self.play.push(self.hand[index]),
            ..self
        }
    }

    /// `new` is `self` after `k` cards went from the top of the draw pile to the hand.
    pub open spec fn took_from_draw(self, new: PlayerView, k: int) -> bool {
        let dl = self.draw.len() as int;
        &&& 0 <= k <= dl
        &&& new.hand == self.hand + self.draw.subrange(dl - k, dl).reverse()
        &&& new.draw == self.draw.subrange(0, dl - k)
        &&& new.play == self.play
        &&& new.discard == self.discard
    }

    /// `new` is `self` after drawing `count` cards: the hand grows by `count`
    /// cards, or by every card left in the draw and discard piles where there
    /// are fewer. The draw pile is taken from the top; once it runs out, the
    /// discard pile is shuffled into it and drawing goes on.
    pub open spec fn drawn(self, new: PlayerView, count: int) -> bool {
        let hl = self.hand.len() as int;
        let dl = self.draw.len() as int;
        let avail = dl + self.discard.len();
        let n = if count <= avail {
            count
        } else {
            avail
        };
        &&& new.play == self.play
        &&& new.hand.len() == hl + n
        &&& new.cards() == self.cards()
        &&& if count <= dl {
            self.took_from_draw(new, count)
        } else {
            &&& new.hand.subrange(0, hl + dl) == self.hand + self.draw.reverse()
            &&& new.discard.len() == 0
            &&& (new.hand.subrange(hl + dl, new.hand.len() as int) + new.draw).to_multiset()
                == self.discard.to_multiset()
        }
    }
}

/// One participant's cards, split over four zones.
#[derive(Debug)]
pub struct Player {
    pub play: Vec<CardKind>,
    pub hand: Vec<CardKind>,
    pub draw: Vec<CardKind>,
    pub discard: Vec<CardKind>,
}

impl View for Player {
    type V = PlayerView;

    open spec fn view(&self) -> PlayerView {
        PlayerView { draw: self.draw@, hand: self.hand@, play: self.play@, discard: self.discard@ }
    }
}

proof fn lemma_points_of_prefix(s: Seq<CardKind>, i: int, d: int)
    requires
        0 <= i <= s.len(),
        d >= 0,
    ensures
        points_of(s.subrange(0, i), d) <= points_of(s, d),
    decreases s.len() - i,
{
    if i < s.len() {
        lemma_points_of_prefix(s, i + 1, d);
        assert(s.subrange(0, i + 1).drop_last() =~= s.subrange(0, i));
    }
    assert(s.subrange(0, s.len() as int) =~= s);
}

proof fn lemma_points_of_nonneg(s: Seq<CardKind>, d: int)
    requires
        d >= 0,
    ensures
        points_of(s, d) >= 0,
    decreases s.len(),
{
    if s.len() > 0 {
        lemma_points_of_nonneg(s.drop_last(), d);
    }
}

/// Sum of the victory points of `cards`, in a deck of `deck_size` cards.
fn zone_points(cards: &Vec<CardKind>, deck_size: usize) -> (r: usize)
    requires
        points_of(cards@, deck_size as int) <= usize::MAX,
    ensures
        r == points_of(cards@, deck_size as int),
{
    let mut sum: usize = 0;
    let mut i: usize = 0;
    while i < cards.len()
        invariant
            i <= cards@.len(),
            sum == points_of(cards@.subrange(0, i as int), deck_size as int),
            points_of(cards@, deck_size as int) <= usize::MAX,
        decreases cards@.len() - i,
    {
        proof {
            assert(cards@.subrange(0, i + 1).drop_last() =~= cards@.subrange(0, i as int));
            lemma_points_of_prefix(cards@, i + 1, deck_size as int);
        }
        sum = sum + cards[i].victory_points(deck_size);
        i = i + 1;
    }
    assert(cards@.subrange(0, i as int) =~= cards@);
    sum
}

impl Player {
    pub fn new(deck: Vec<CardKind>) -> (r: Player)
        ensures
            r@ == (PlayerView {
                draw: deck@,
                hand: Seq::empty(),
                play: Seq::empty(),
                discard: Seq::empty(),
            }),
    {
        Player { draw: deck, hand: vec![], play: vec![], discard: vec![] }
    }

    /// Moves cards from the top of the draw pile to the hand until the hand
    /// holds `target` cards or the draw pile is empty.
    fn take_from_draw(&mut self, target: usize)
        ensures
            old(self)@.took_from_draw(
                final(self)@,
                if target <= old(self).hand@.len() {
                    0
                } else if target - old(self).hand@.len() <= old(self).draw@.len() {
                    target - old(self).hand@.len()
                } else {
                    old(self).draw@.len() as int
                },
            ),
    {
        let ghost start = self@;
        let ghost dl = self.draw@.len() as int;
        proof {
            assert(start.draw.subrange(dl, dl).reverse() =~= Seq::<CardKind>::empty());
            assert(start.hand + Seq::<CardKind>::empty() =~= start.hand);
            assert(start.draw.subrange(0, dl) =~= start.draw);
        }
        while self.hand.len() < target && self.draw.len() > 0
            invariant
                start.draw.len() == dl,
                0 <= start.draw.len() - self.draw@.len(),
                start.took_from_draw(self@, dl - self.draw@.len()),
                start.hand.len() <= self.hand@.len(),
                self.hand@.len() - start.hand.len() == dl - self.draw@.len(),
                target <= start.hand.len() ==> self.hand@.len() == start.hand.len(),
                target > start.hand.len() ==> self.hand@.len() <= target,
            decreases self.draw@.len(),
        {
            let ghost before = self@;
            let card = self.draw.pop().unwrap();
            self.hand.push(card);
            proof {
                let k = dl - before.draw.len();
                assert(start.draw.subrange(dl - (k + 1), dl).reverse() =~= start.draw.subrange(
                    dl - k,
                    dl,
                ).reverse().push(card));
                assert(self.draw@ =~= start.draw.subrange(0, dl - (k + 1)));
                assert(self.hand@ =~= start.hand + start.draw.subrange(dl - (k + 1), dl).reverse());
            }
        }
    }

    /// Draws `count` cards into the hand, reshuffling the discard pile into
    /// the draw pile with `rng` when the draw pile runs out. Where both run
    /// out, fewer cards are drawn.
    pub fn draw(&mut self, rng: &mut StdRng, count: usize)
        requires
            old(self).hand@.len() + count <= usize::MAX,
        ensures
            old(self)@.drawn(final(self)@, count as int),
            count <= old(self).draw@.len() || old(self).discard@.len() == 0 ==> *final(rng)
                == *old(rng),
    {
        broadcast use vstd::seq_lib::group_to_multiset_ensures;

        let ghost start = self@;
        let target = self.hand.len() + count;
        self.take_from_draw(target);
        proof {
            lemma_took_keeps_cards(start, self@, start.draw.len() - self.draw@.len());
        }
        if self.hand.len() < target && self.discard.len() > 0 {
            let ghost mid = self@;
            std::mem::swap(&mut self.draw, &mut self.discard);
            shuffle_cards(&mut self.draw, rng);
            let ghost shuffled = self@;
            self.take_from_draw(target);
            proof {
                let k = shuffled.draw.len() - self.draw@.len();
                lemma_took_keeps_cards(shuffled, self@, k);
                assert(shuffled.cards() =~= mid.cards());
                let hl = start.hand.len() as int;
                let dl = start.draw.len() as int;
                assert(self.hand@.subrange(0, hl + dl) =~= start.hand + start.draw.reverse()) by {
                    assert(start.draw.subrange(0, dl) =~= start.draw);
                }
                let extra = shuffled.draw.subrange(shuffled.draw.len() - k, shuffled.draw.len() as int);
                assert(self.hand@.subrange(hl + dl, self.hand@.len() as int) =~= extra.reverse());
                assert(shuffled.draw =~= self.draw@ + extra);
                vstd::seq_lib::lemma_multiset_commutative(self.draw@, extra);
                vstd::seq_lib::lemma_multiset_commutative(extra.reverse(), self.draw@);
                extra.lemma_reverse_to_multiset();
                assert(shuffled.draw.to_multiset() == start.discard.to_multiset());
                assert((self.hand@.subrange(hl + dl, self.hand@.len() as int) + self.draw@).to_multiset() == start.discard.to_multiset());
                assert(start.drawn(self@, count as int));
            }
        } else {
            proof {
                let hl = start.hand.len() as int;
                let dl = start.draw.len() as int;
                if count > dl {
                    assert(start.draw.subrange(0, dl) =~= start.draw);
                    assert(self.hand@.subrange(0, hl + dl) =~= self.hand@);
                    assert(self.hand@.subrange(hl + dl, self.hand@.len() as int) =~= Seq::<CardKind>::empty());
                    assert(self.draw@ =~= Seq::<CardKind>::empty());
                    assert(self.hand@.subrange(hl + dl, self.hand@.len() as int) + self.draw@ =~= Seq::<CardKind>::empty());
                    assert(self.hand@.len() == hl + dl);
                    assert(start.discard =~= Seq::<CardKind>::empty());
                } else {
                    assert(start.took_from_draw(self@, count as int));
                    assert(self.hand@.len() == hl + count);
                }
                assert(start.drawn(self@, count as int));
            }
        }
    }

    /// Removes the card at `index` from the hand, shifting later cards down,
    /// and returns it; `None` where `index` is not a hand position.
    pub fn play(&mut self, index: HandIndex) -> (r: Option<CardKind>)
        ensures
            final(self).draw@ == old(self).draw@,
            final(self).play@ == old(self).play@,
            final(self).discard@ == old(self).discard@,
            index < old(self).hand@.len() ==> r == Some(old(self).hand@[index as int])
                && final(self).hand@ == old(self).hand@.remove(index as int),
            index >= old(self).hand@.len() ==> r is None && final(self).hand@ == old(self).hand@,
    {
        if index < self.hand.len() {
            let card = self.hand.remove(index);
            Some(card)
        } else {
            None
        }
    }

    /// Victory points over all four zones; the result must fit in a `usize`.
    pub fn points(&self) -> (r: usize)
        requires
            self@.deck_size() <= usize::MAX,
            self@.points() <= usize::MAX,
        ensures
            r == self@.points(),
    {
        let deck_size = self.play.len() + self.hand.len() + self.draw.len() + self.discard.len();
        proof {
            let d = deck_size as int;
            lemma_points_of_nonneg(self.play@, d);
            lemma_points_of_nonneg(self.hand@, d);
            lemma_points_of_nonneg(self.draw@, d);
            lemma_points_of_nonneg(self.discard@, d);
        }
        let a = zone_points(&self.play, deck_size);
        let b = zone_points(&self.hand, deck_size);
        let c = zone_points(&self.draw, deck_size);
        let d = zone_points(&self.discard, deck_size);
        a + b + c + d
    }
}

proof fn lemma_took_keeps_cards(old_v: PlayerView, new_v: PlayerView, k: int)
    requires
        old_v.took_from_draw(new_v, k),
    ensures
        new_v.cards() == old_v.cards(),
{
    broadcast use vstd::seq_lib::group_to_multiset_ensures;

    let dl = old_v.draw.len() as int;
    let moved = old_v.draw.subrange(dl - k, dl);
    assert(old_v.draw =~= new_v.draw + moved);
    vstd::seq_lib::lemma_multiset_commutative(new_v.draw, moved);
    vstd::seq_lib::lemma_multiset_commutative(old_v.hand, moved.reverse());
    moved.lemma_reverse_to_multiset();
    assert(new_v.cards() =~= old_v.cards());
}

} // verus!
