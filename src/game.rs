use crate::card::{CardKind, Pile, PileIndex};
use crate::player::{HandIndex, Player, PlayerIndex, PlayerView};
use rand::rngs::StdRng;
use vstd::multiset::Multiset;
use vstd::prelude::*;

verus! {

/// The two phases of a player's turn.
#[derive(Debug, Clone, Copy, PartialEq, Eq, Structural)]
pub enum TurnPhase {
    Action,
    Buy,
}

/// The inputs that drive a game.
#[derive(Debug, Clone, Copy, PartialEq, Eq, Structural)]
pub enum Event {
    EndPhase,
    PlayCard(HandIndex),
    BuyCard(PileIndex),
}

/// No two piles hold the same card kind.
pub open spec fn kinds_distinct(piles: Seq<Pile>) -> bool {
    forall|i: int, j: int|
        0 <= i < piles.len() && 0 <= j < piles.len() && i != j ==> piles[i].card != piles[j].card
}

pub open spec fn has_pile(piles: Seq<Pile>, k: CardKind) -> bool {
    exists|i: int| 0 <= i < piles.len() && piles[i].card == k
}

/// Number of piles with no card left.
pub open spec fn empty_piles(piles: Seq<Pile>) -> int
    decreases piles.len(),
{
    if piles.len() == 0 {
        0
    } else {
        empty_piles(piles.drop_last()) + if piles.last().count == 0 {
            1int
        } else {
            0
        }
    }
}

pub open spec fn province_empty(piles: Seq<Pile>) -> bool {
    exists|i: int| 0 <= i < piles.len() && piles[i].card == CardKind::Province && piles[i].count == 0
}

/// The game ends once more than three piles, or the Province pile, are empty.
pub open spec fn game_over(piles: Seq<Pile>) -> bool {
    empty_piles(piles) > 3 || province_empty(piles)
}

/// Player `w` has the most points, and every player before it has fewer.
pub open spec fn is_leader(players: Seq<Player>, w: int) -> bool {
    &&& 0 <= w < players.len()
    &&& forall|j: int| 0 <= j < players.len() ==> players[j]@.points() <= players[w]@.points()
    &&& forall|j: int| 0 <= j < w ==> players[j]@.points() < players[w]@.points()
}

/// Copies of `k` held by the players, over all their zones.
pub open spec fn players_total(players: Seq<Player>, k: CardKind) -> int
    decreases players.len(),
{
    if players.len() == 0 {
        0
    } else {
        players_total(players.drop_last(), k) + players.last()@.cards().count(k)
    }
}

/// Copies of `k` left in the supply.
pub open spec fn piles_total(piles: Seq<Pile>, k: CardKind) -> int
    decreases piles.len(),
{
    if piles.len() == 0 {
        0
    } else {
        piles_total(piles.drop_last(), k) + if piles.last().card == k {
            piles.last().count as int
        } else {
            0
        }
    }
}

proof fn lemma_players_total_update(s: Seq<Player>, i: int, p: Player, k: CardKind)
    requires
        0 <= i < s.len(),
    ensures
        players_total(s.update(i, p), k) == players_total(s, k) - s[i]@.cards().count(k)
            + p@.cards().count(k),
    decreases s.len(),
{
    if i == s.len() - 1 {
        assert(s.update(i, p).drop_last() =~= s.drop_last());
    } else {
        lemma_players_total_update(s.drop_last(), i, p, k);
        assert(s.update(i, p).drop_last() =~= s.drop_last().update(i, p));
    }
}

proof fn lemma_piles_total_update(s: Seq<Pile>, i: int, p: Pile, k: CardKind)
    requires
        0 <= i < s.len(),
    ensures
        piles_total(s.update(i, p), k) == piles_total(s, k) - (if s[i].card == k {
            s[i].count as int
        } else {
            0
        }) + (if p.card == k {
            p.count as int
        } else {
            0
        }),
    decreases s.len(),
{
    if i == s.len() - 1 {
        assert(s.update(i, p).drop_last() =~= s.drop_last());
    } else {
        lemma_piles_total_update(s.drop_last(), i, p, k);
        assert(s.update(i, p).drop_last() =~= s.drop_last().update(i, p));
    }
}

proof fn lemma_empty_piles_bound(s: Seq<Pile>)
    ensures
        0 <= empty_piles(s) <= s.len(),
    decreases s.len(),
{
    if s.len() > 0 {
        lemma_empty_piles_bound(s.drop_last());
    }
}

proof fn lemma_piles_total_distinct(piles: Seq<Pile>, i: int)
    requires
        kinds_distinct(piles),
        0 <= i < piles.len(),
    ensures
        piles_total(piles, piles[i].card) == piles[i].count,
    decreases piles.len(),
{
    let k = piles[i].card;
    let rest = piles.drop_last();
    if i == piles.len() - 1 {
        lemma_piles_total_absent(rest, k);
    } else {
        lemma_piles_total_distinct(rest, i);
    }
}

proof fn lemma_piles_total_absent(piles: Seq<Pile>, k: CardKind)
    requires
        forall|j: int| 0 <= j < piles.len() ==> piles[j].card != k,
    ensures
        piles_total(piles, k) == 0,
    decreases piles.len(),
{
    if piles.len() > 0 {
        lemma_piles_total_absent(piles.drop_last(), k);
    }
}

proof fn lemma_players_total_empty(players: Seq<Player>, k: CardKind)
    requires
        forall|j: int| 0 <= j < players.len() ==> #[trigger] players[j]@.deck_size() == 0,
    ensures
        players_total(players, k) == 0,
    decreases players.len(),
{
    broadcast use vstd::multiset::group_multiset_axioms;
    broadcast use vstd::seq_lib::group_to_multiset_ensures;

    if players.len() > 0 {
        let last = players.last()@;
        assert(last.deck_size() == 0);
        assert(last.draw =~= Seq::<CardKind>::empty());
        assert(last.hand =~= Seq::<CardKind>::empty());
        assert(last.play =~= Seq::<CardKind>::empty());
        assert(last.discard =~= Seq::<CardKind>::empty());
        vstd::multiset::lemma_multiset_empty_len(last.draw.to_multiset());
        vstd::multiset::lemma_multiset_empty_len(last.hand.to_multiset());
        vstd::multiset::lemma_multiset_empty_len(last.play.to_multiset());
        vstd::multiset::lemma_multiset_empty_len(last.discard.to_multiset());
        assert(last.cards() =~= Multiset::<CardKind>::empty());
        lemma_players_total_empty(players.drop_last(), k);
    }
}

/// A game set up with empty-handed players and every pile at its initial
/// count holds, for each kind with a pile, exactly the initial count of that
/// kind; `process_event` keeps it so.
pub proof fn lemma_setup_conserved(g: Game)
    requires
        kinds_distinct(g.piles@),
        forall|i: int|
            0 <= i < g.piles@.len() ==> #[trigger] g.piles@[i].count
                == g.piles@[i].card.spec_initial_count(g.players@.len() as int),
        forall|j: int| 0 <= j < g.players@.len() ==> #[trigger] g.players@[j]@.deck_size() == 0,
    ensures
        g.conserved(),
{
    assert forall|k: CardKind| has_pile(g.piles@, k) implies #[trigger] g.card_total(k)
        == k.spec_initial_count(g.players@.len() as int) by {
        let i = choose|i: int| 0 <= i < g.piles@.len() && g.piles@[i].card == k;
        lemma_piles_total_distinct(g.piles@, i);
        lemma_players_total_empty(g.players@, k);
    }
}

/// Among players tied on the most points, the winner is the one with the
/// lowest index: a leader never comes after a player with as many points.
pub proof fn lemma_tie_goes_to_lower_index(players: Seq<Player>, w: int, a: int, b: int)
    requires
        is_leader(players, w),
        0 <= a < b < players.len(),
        players[a]@.points() == players[b]@.points(),
        forall|j: int| 0 <= j < players.len() ==> players[j]@.points() <= players[a]@.points(),
    ensures
        w <= a,
        w != b,
        players[w]@.points() == players[a]@.points(),
{
}

/// An empty Province pile ends the game, whatever the other piles hold.
pub proof fn lemma_empty_province_ends_game(piles: Seq<Pile>, i: int)
    requires
        0 <= i < piles.len(),
        piles[i].card == CardKind::Province,
        piles[i].count == 0,
    ensures
        game_over(piles),
{
}

/// The game: supply piles, players in turn order, turn and phase counters,
/// the budgets of the current turn and, once decided, the winner.
#[derive(Debug)]
pub struct Game {
    pub rng: StdRng,
    pub piles: Vec<Pile>,
    pub players: Vec<Player>,
    pub turn: usize,
    pub current_phase: TurnPhase,
    pub current_player: PlayerIndex,
    pub actions_remaining: usize,
    pub buys_remaining: usize,
    pub winner: Option<PlayerIndex>,
}

impl Game {
    /// At least one player, the current player among them, one pile per
    /// kind, and a Province pile.
    pub open spec fn wf(&self) -> bool {
        &&& self.players@.len() > 0
        &&& self.current_player < self.players@.len()
        &&& kinds_distinct(self.piles@)
        &&& has_pile(self.piles@, CardKind::Province)
    }

    /// Copies of `k` in the game, in the players' zones and in the supply.
    pub open spec fn card_total(&self, k: CardKind) -> int {
        players_total(self.players@, k) + piles_total(self.piles@, k)
    }

    /// Every kind with a pile has exactly as many copies in the game as the
    /// supply starts with for this number of players.
    pub open spec fn conserved(&self) -> bool {
        forall|k: CardKind|
            has_pile(self.piles@, k) ==> #[trigger] self.card_total(k)
                == k.spec_initial_count(self.players@.len() as int)
    }

    /// Each player's deck size and points fit in a `usize`.
    pub open spec fn points_fit(&self) -> bool {
        forall|j: int|
            0 <= j < self.players@.len() ==> #[trigger] self.players@[j]@.deck_size()
                <= usize::MAX && self.players@[j]@.points() <= usize::MAX
    }

    /// The player whose turn follows the current one.
    pub open spec fn next_player(&self) -> int {
        if self.current_player + 1 >= self.players@.len() {
            0
        } else {
            self.current_player + 1
        }
    }

    /// What `process_event` needs to go through: a live game, and an event
    /// that is legal and whose effect is resolved.
    pub open spec fn accepts(&self, event: Event) -> bool {
        &&& self.winner is None
        &&& match event {
            Event::EndPhase => self.current_phase == TurnPhase::Buy ==> self.turn < usize::MAX
                && self.points_fit(),
            Event::PlayCard(i) => {
                let hand = self.players@[self.current_player as int]@.hand;
                &&& i < hand.len()
                &&& hand[i as int] == CardKind::Village
                &&& self.current_phase == TurnPhase::Action
                &&& self.actions_remaining > 0
            },
            Event::BuyCard(p) => {
                &&& self.buys_remaining > 0
                &&& p < self.piles@.len()
                &&& self.piles@[p as int].count > 0
            },
        }
    }

    pub fn new(rng: StdRng, piles: Vec<Pile>, players: Vec<Player>) -> (r: Game)
        requires
            players@.len() > 0,
            kinds_distinct(piles@),
            has_pile(piles@, CardKind::Province),
        ensures
            r.wf(),
            r.rng == rng,
            r.piles@ == piles@,
            r.players@ == players@,
            r.turn == 1,
            r.current_phase == TurnPhase::Action,
            r.current_player == 0,
            r.actions_remaining == 1,
            r.buys_remaining == 1,
            r.winner is None,
    {
        Game {
            rng,
            piles,
            players,
            turn: 1,
            current_phase: TurnPhase::Action,
            current_player: 0,
            actions_remaining: 1,
            buys_remaining: 1,
            winner: None,
        }
    }

    /// The winner if the game is over: the player with the most points, the
    /// lowest index among those tied; `None` while the game goes on.
    pub fn winner(&self) -> (r: Option<PlayerIndex>)
        requires
            self.wf(),
            self.points_fit(),
        ensures
            !game_over(self.piles@) ==> r is None,
            game_over(self.piles@) ==> (r matches Some(w) && is_leader(self.players@, w as int)),
    {
        let mut empty: usize = 0;
        let mut provinces_empty = false;
        let mut i: usize = 0;
        while i < self.piles.len()
            invariant
                i <= self.piles@.len(),
                empty == empty_piles(self.piles@.subrange(0, i as int)),
                provinces_empty == exists|j: int|
                    0 <= j < i && self.piles@[j].card == CardKind::Province
                        && self.piles@[j].count == 0,
            decreases self.piles@.len() - i,
        {
            proof {
                assert(self.piles@.subrange(0, i + 1).drop_last() =~= self.piles@.subrange(0, i as int));
                lemma_empty_piles_bound(self.piles@.subrange(0, i as int));
            }
            if self.piles[i].is_empty() {
                empty = empty + 1;
                if self.piles[i].card == CardKind::Province {
                    provinces_empty = true;
                }
            }
            i = i + 1;
        }
        assert(self.piles@.subrange(0, i as int) =~= self.piles@);
        if empty > 3 || provinces_empty {
            let mut best: usize = 0;
            let mut best_points = self.players[0].points();
            let mut j: usize = 1;
            while j < self.players.len()
                invariant
                    self.wf(),
                    self.points_fit(),
                    1 <= j <= self.players@.len(),
                    best < j,
                    best_points == self.players@[best as int]@.points(),
                    forall|m: int| 0 <= m < j ==> self.players@[m]@.points() <= best_points,
                    forall|m: int| 0 <= m < best ==> self.players@[m]@.points() < best_points,
                decreases self.players@.len() - j,
            {
                let p = self.players[j].points();
                if p > best_points {
                    best = j;
                    best_points = p;
                }
                j = j + 1;
            }
            Some(best)
        } else {
            None
        }
    }
    /// Applies one event to a live game.
    ///
    /// Ending the Action phase enters the Buy phase. Ending the Buy phase ends
    /// the turn: the turn counter grows by one, the next player (wrapping to
    /// the first) starts in the Action phase with one action and one buy, and
    /// the winner is decided if the game is over. Playing a Village in the
    /// Action phase spends an action, grants one back and draws a card.
    /// Buying takes a buy and one card of the chosen pile into the current
    /// player's discard pile. Cards are only ever moved, never made or lost.
    pub fn process_event(&mut self, event: Event)
        requires
            old(self).wf(),
            old(self).accepts(event),
        ensures
            final(self).wf(),
            final(self).players@.len() == old(self).players@.len(),
            forall|k: CardKind| #[trigger]
                final(self).card_total(k) == old(self).card_total(k),
            old(self).conserved() ==> final(self).conserved(),
            match event {
                Event::EndPhase => {
                    &&& final(self).players@ == old(self).players@
                    &&& final(self).piles@ == old(self).piles@
                    &&& if old(self).current_phase == TurnPhase::Action {
                        &&& final(self).current_phase == TurnPhase::Buy
                        &&& final(self).turn == old(self).turn
                        &&& final(self).current_player == old(self).current_player
                        &&& final(self).actions_remaining == old(self).actions_remaining
                        &&& final(self).buys_remaining == old(self).buys_remaining
                        &&& final(self).winner is None
                    } else {
                        &&& final(self).current_phase == TurnPhase::Action
                        &&& final(self).turn == old(self).turn + 1
                        &&& final(self).current_player == old(self).next_player()
                        &&& final(self).actions_remaining == 1
                        &&& final(self).buys_remaining == 1
                        &&& !game_over(old(self).piles@) ==> final(self).winner is None
                        &&& game_over(old(self).piles@) ==> (final(self).winner matches Some(w)
                            && is_leader(old(self).players@, w as int))
                    }
                },
                Event::PlayCard(i) => {
                    let cp = old(self).current_player as int;
                    &&& final(self).current_phase == old(self).current_phase
                    &&& final(self).turn == old(self).turn
                    &&& final(self).current_player == old(self).current_player
                    &&& final(self).actions_remaining == old(self).actions_remaining
                    &&& final(self).buys_remaining == old(self).buys_remaining
                    &&& final(self).winner is None
                    &&& final(self).piles@ == old(self).piles@
                    &&& final(self).players@ == old(self).players@.update(cp, final(self).players@[cp])
                    &&& old(self).players@[cp]@.after_play(i as int).drawn(final(self).players@[cp]@, 1)
                },
                Event::BuyCard(p) => {
                    let cp = old(self).current_player as int;
                    let pile = old(self).piles@[p as int];
                    &&& final(self).current_phase == old(self).current_phase
                    &&& final(self).turn == old(self).turn
                    &&& final(self).current_player == old(self).current_player
                    &&& final(self).actions_remaining == old(self).actions_remaining
                    &&& final(self).buys_remaining == old(self).buys_remaining - 1
                    &&& final(self).winner is None
                    &&& final(self).piles@ == old(self).piles@.update(
                        p as int,
                        Pile { card: pile.card, count: (pile.count - 1) as usize },
                    )
                    &&& final(self).players@ == old(self).players@.update(cp, final(self).players@[cp])
                    &&& final(self).players@[cp]@ == (PlayerView {
                        discard: old(self).players@[cp]@.discard.push(pile.card),
                        ..old(self).players@[cp]@
                    })
                },
            },
    {
        broadcast use vstd::seq_lib::group_to_multiset_ensures;

        let ghost start = *self;
        match event {
            Event::EndPhase => {
                match self.current_phase {
                    TurnPhase::Action => {
                        self.current_phase = TurnPhase::Buy;
                    },
                    TurnPhase::Buy => {
                        self.turn = self.turn + 1;
                        if self.current_player >= self.players.len() - 1 {
                            self.current_player = 0;
                        } else {
                            self.current_player = self.current_player + 1;
                        }
                        self.actions_remaining = 1;
                        self.buys_remaining = 1;
                        self.winner = self.winner();
                        self.current_phase = TurnPhase::Action;
                    },
                }
            },
            Event::PlayCard(hand_index) => {
                let cp = self.current_player;
                let hand_len = self.players[cp].hand.len();
                let card = self.players[cp].play(hand_index).unwrap();
                self.players[cp].play.push(card);
                if card.is_action() {
                    self.actions_remaining = self.actions_remaining - 1;
                }
                // `accepts` admits a card only where its effect is resolved: a
                // Village in the Action phase grants an action and draws a card.
                self.actions_remaining = self.actions_remaining + 1;
                self.players[cp].draw(&mut self.rng, 1);
                proof {
                    let old_p = start.players@[cp as int];
                    let new_p = self.players@[cp as int];
                    let mid = old_p@.after_play(hand_index as int);
                    assert(old_p@.hand =~= old_p@.hand.remove(hand_index as int).insert(hand_index as int, card));
                    vstd::seq_lib::lemma_multiset_commutative(mid.draw, mid.hand);
                    assert(mid.cards() =~= old_p@.cards());
                    assert(new_p@.cards() == old_p@.cards());
                    assert(self.players@ =~= start.players@.update(cp as int, new_p));
                    assert forall|k: CardKind| #[trigger]
                        self.card_total(k) == start.card_total(k) by {
                        lemma_players_total_update(start.players@, cp as int, new_p, k);
                    }
                }
            },
            Event::BuyCard(pile_index) => {
                let cp = self.current_player;
                let card = self.piles[pile_index].card;
                let count = self.piles[pile_index].count;
                self.buys_remaining = self.buys_remaining - 1;
                self.piles.set(pile_index, Pile { card, count: count - 1 });
                self.players[cp].discard.push(card);
                proof {
                    let new_p = self.players@[cp as int];
                    assert forall|k: CardKind| #[trigger]
                        self.card_total(k) == start.card_total(k) by {
                        lemma_players_total_update(start.players@, cp as int, new_p, k);
                        lemma_piles_total_update(start.piles@, pile_index as int, self.piles@[pile_index as int], k);
                    }
                    assert(has_pile(self.piles@, CardKind::Province)) by {
                        let w = choose|w: int| 0 <= w < start.piles@.len() && start.piles@[w].card == CardKind::Province;
                        assert(self.piles@[w].card == CardKind::Province);
                    }
                }
            },
        }
        proof {
            assert(self.piles@.len() == start.piles@.len());
            assert(forall|i: int| 0 <= i < self.piles@.len() ==> self.piles@[i].card == start.piles@[i].card);
            if start.conserved() {
                assert forall|k: CardKind| has_pile(self.piles@, k) implies #[trigger] self.card_total(k)
                    == k.spec_initial_count(self.players@.len() as int) by {
                    let w = choose|w: int| 0 <= w < self.piles@.len() && self.piles@[w].card == k;
                    assert(start.piles@[w].card == k);
                    assert(start.card_total(k) == k.spec_initial_count(start.players@.len() as int));
                }
            }
        }
    }
}

} // verus!
