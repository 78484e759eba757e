use crate::card::{victory_pile_size, CardKind, Pile};
use crate::game::{has_pile, kinds_distinct};
use vstd::prelude::*;

verus! {

/// The base cards every game's supply holds, in the order their piles are laid out.
pub open spec fn base_kinds() -> Seq<CardKind> {
    seq![
        CardKind::Copper,
        CardKind::Silver,
        CardKind::Gold,
        CardKind::Estate,
        CardKind::Duchy,
        CardKind::Province,
    ]
}

/// Size of a kingdom pile: Estate, Duchy and Province scale with the number
/// of players, every other kingdom card comes ten to a pile. For every kind
/// but the three treasures this is the kind's initial count.
pub fn kingdom_card_size(card_id: &CardKind, num_players: usize) -> (r: usize)
    ensures
        r == match *card_id {
            CardKind::Estate | CardKind::Duchy | CardKind::Province => victory_pile_size(
                num_players as int,
            ),
            _ => 10,
        },
        *card_id != CardKind::Copper && *card_id != CardKind::Silver && *card_id != CardKind::Gold
            ==> r == card_id.spec_initial_count(num_players as int),
{
    match *card_id {
        CardKind::Estate | CardKind::Duchy | CardKind::Province => {
            if num_players > 2 {
                12
            } else {
                8
            }
        },
        _ => 10,
    }
}

/// The purchasable piles of a game, one per card kind in play.
#[derive(Debug)]
pub struct Supply {
    pub piles: Vec<Pile>,
}

fn find_pile(piles: &Vec<Pile>, card: CardKind) -> (r: bool)
    ensures
        r == has_pile(piles@, card),
{
    let mut i: usize = 0;
    while i < piles.len()
        invariant
            i <= piles@.len(),
            forall|j: int| 0 <= j < i ==> piles@[j].card != card,
        decreases piles@.len() - i,
    {
        if piles[i].card == card {
            return true;
        }
        i = i + 1;
    }
    false
}

/// Appends a pile of `card` sized for `num_players`, unless one is there already.
fn add_pile(piles: &mut Vec<Pile>, card: CardKind, num_players: usize)
    requires
        num_players <= 8,
    ensures
        has_pile(old(piles)@, card) ==> final(piles)@ == old(piles)@,
        !has_pile(old(piles)@, card) ==> final(piles)@ == old(piles)@.push(
            Pile { card, count: card.spec_initial_count(num_players as int) as usize },
        ),
{
    if !find_pile(piles, card) {
        let count = card.initial_count(num_players);
        piles.push(Pile { card, count });
    }
}

impl Supply {
    /// Lays out the base piles, then one pile for each kingdom card kind not
    /// already present, each sized by the kind's initial count.
    pub fn new(kingdom_card_ids: &[CardKind], num_players: usize) -> (r: Supply)
        requires
            num_players <= 8,
        ensures
            kinds_distinct(r.piles@),
            r.piles@.len() >= 6,
            forall|i: int| 0 <= i < 6 ==> r.piles@[i].card == base_kinds()[i],
            forall|i: int|
                0 <= i < r.piles@.len() ==> r.piles@[i].count == r.piles@[i].card.spec_initial_count(
                    num_players as int,
                ),
            forall|k: CardKind|
                has_pile(r.piles@, k) <==> (base_kinds().contains(k) || kingdom_card_ids@.contains(
                    k,
                )),
    {
        let mut piles: Vec<Pile> = Vec::new();
        add_pile(&mut piles, CardKind::Copper, num_players);
        add_pile(&mut piles, CardKind::Silver, num_players);
        add_pile(&mut piles, CardKind::Gold, num_players);
        add_pile(&mut piles, CardKind::Estate, num_players);
        add_pile(&mut piles, CardKind::Duchy, num_players);
        add_pile(&mut piles, CardKind::Province, num_players);
        proof {
            assert(base_kinds().len() == 6);
            assert forall|k: CardKind| base_kinds().contains(k) implies has_pile(piles@, k) by {
                if base_kinds().contains(k) {
                    let i = choose|i: int| 0 <= i < 6 && base_kinds()[i] == k;
                    assert(piles@[i].card == k);
                }
            }
        }
        let mut i: usize = 0;
        while i < kingdom_card_ids.len()
            invariant
                num_players <= 8,
                i <= kingdom_card_ids@.len(),
                kinds_distinct(piles@),
                piles@.len() >= 6,
                forall|j: int| 0 <= j < 6 ==> piles@[j].card == base_kinds()[j],
                forall|j: int|
                    0 <= j < piles@.len() ==> piles@[j].count == piles@[j].card.spec_initial_count(
                        num_players as int,
                    ),
                forall|k: CardKind|
                    #[trigger] has_pile(piles@, k) <==> (base_kinds().contains(k)
                        || kingdom_card_ids@.subrange(0, i as int).contains(k)),
            decreases kingdom_card_ids@.len() - i,
        {
            let card = kingdom_card_ids[i];
            let ghost before = piles@;
            let ghost seen = kingdom_card_ids@.subrange(0, i + 1);
            add_pile(&mut piles, card, num_players);
            proof {
                assert(seen =~= kingdom_card_ids@.subrange(0, i as int).push(card));
                let prev = kingdom_card_ids@.subrange(0, i as int);
                assert forall|k: CardKind|
                    #[trigger] has_pile(piles@, k) <==> (base_kinds().contains(k) || seen.contains(k)) by {
                    if has_pile(before, k) {
                        let j = choose|j: int| 0 <= j < before.len() && before[j].card == k;
                        assert(piles@[j].card == k);
                    }
                    if prev.contains(k) {
                        let j = choose|j: int| 0 <= j < prev.len() && prev[j] == k;
                        assert(seen[j] == k);
                    }
                    if seen.contains(k) && !prev.contains(k) {
                        let j = choose|j: int| 0 <= j < seen.len() && seen[j] == k;
                        if j < i {
                            assert(prev[j] == k);
                        }
                        assert(k == card);
                        if !has_pile(before, k) {
                            assert(piles@[before.len() as int].card == k);
                        }
                    }
                    if has_pile(piles@, k) && !has_pile(before, k) {
                        let j = choose|j: int| 0 <= j < piles@.len() && piles@[j].card == k;
                        if j < before.len() {
                            assert(before[j].card == k);
                        }
                        assert(k == card);
                        assert(seen[i as int] == k);
                    }
                }
            }
            i = i + 1;
            assert(kingdom_card_ids@.subrange(0, i as int) == seen);
        }
        assert(kingdom_card_ids@.subrange(0, i as int) =~= kingdom_card_ids@);
        Supply { piles }
    }
}

} // verus!
