use vstd::prelude::*;

verus! {

/// The type tags a card kind may carry.
#[derive(Debug, Clone, Copy, PartialEq, Eq, Hash, Structural)]
pub enum CardType {
    Action,
    Attack,
    Reaction,
    Treasure,
    Victory,
}

/// Every card kind of the game. Cards carry no identity beyond their kind.
#[derive(Debug, Clone, Copy, PartialEq, Eq, Hash, Structural)]
pub enum CardKind {
    Copper,
    Silver,
    Gold,
    Estate,
    Duchy,
    Province,
    Gardens,
    Cellar,
    Market,
    Merchant,
    Militia,
    Mine,
    Moat,
    Remodel,
    Smithy,
    Village,
    Workshop,
}

/// The effects a card may grant when played.
#[derive(Debug, Clone, Copy, PartialEq, Eq, Hash, Structural)]
pub enum CardEffect {
    GainCopper,
    GainAction,
    GainBuy,
}

/// Number of cards a victory pile starts with for the given number of players.
pub open spec fn victory_pile_size(player_count: int) -> int {
    if player_count <= 2 {
        8
    } else {
        12
    }
}

impl CardKind {
    /// Victory points of one card of this kind in a deck of `deck_size` cards.
    pub open spec fn spec_victory_points(self, deck_size: int) -> int {
        match self {
            CardKind::Estate => 1,
            CardKind::Duchy => 3,
            CardKind::Province => 6,
            CardKind::Gardens => deck_size / 10,
            _ => 0,
        }
    }

    /// Whether this kind carries the Action tag.
    pub open spec fn spec_is_action(self) -> bool {
        match self {
            CardKind::Cellar | CardKind::Market | CardKind::Merchant | CardKind::Militia
            | CardKind::Mine | CardKind::Moat | CardKind::Remodel | CardKind::Smithy
            | CardKind::Village | CardKind::Workshop => true,
            _ => false,
        }
    }

    /// Whether this kind carries the Victory tag.
    pub open spec fn spec_is_victory(self) -> bool {
        match self {
            CardKind::Estate | CardKind::Duchy | CardKind::Province | CardKind::Gardens => true,
            _ => false,
        }
    }

    /// How many cards of this kind the supply holds at the start of a game.
    pub open spec fn spec_initial_count(self, player_count: int) -> int {
        match self {
            CardKind::Copper => 60 - 7 * player_count,
            CardKind::Silver => 40,
            CardKind::Gold => 30,
            CardKind::Estate | CardKind::Duchy | CardKind::Province => victory_pile_size(
                player_count,
            ),
            _ => 10,
        }
    }

    pub fn victory_points(self, deck_size: usize) -> (r: usize)
        ensures
            r == self.spec_victory_points(deck_size as int),
    {
        match self {
            CardKind::Estate => 1,
            CardKind::Duchy => 3,
            CardKind::Province => 6,
            CardKind::Gardens => deck_size / 10,
            _ => 0,
        }
    }

    pub fn is_action(self) -> (r: bool)
        ensures
            r == self.spec_is_action(),
    {
        match self {
            CardKind::Cellar | CardKind::Market | CardKind::Merchant | CardKind::Militia
            | CardKind::Mine | CardKind::Moat | CardKind::Remodel | CardKind::Smithy
            | CardKind::Village | CardKind::Workshop => true,
            _ => false,
        }
    }

    pub fn is_victory(self) -> (r: bool)
        ensures
            r == self.spec_is_victory(),
    {
        match self {
            CardKind::Estate | CardKind::Duchy | CardKind::Province | CardKind::Gardens => true,
            _ => false,
        }
    }

    /// Copper is dealt out of a fixed stock of sixty, so more than eight
    /// players leave none for the supply.
    pub fn initial_count(self, player_count: usize) -> (r: usize)
        requires
            self == CardKind::Copper ==> player_count <= 8,
        ensures
            r == self.spec_initial_count(player_count as int),
    {
        match self {
            CardKind::Copper => 60 - 7 * player_count,
            CardKind::Silver => 40,
            CardKind::Gold => 30,
            CardKind::Estate | CardKind::Duchy | CardKind::Province => {
                if player_count <= 2 {
                    8
                } else {
                    12
                }
            },
            _ => 10,
        }
    }
}

pub type PileIndex = usize;

/// One supply pile: a card kind and how many cards of it remain.
#[derive(Debug)]
pub struct Pile {
    pub card: CardKind,
    pub count: usize,
}

impl Pile {
    pub fn is_empty(&self) -> (r: bool)
        ensures
            r == (self.count == 0),
    {
        self.count == 0
    }
}

} // verus!
