//! The game aggregate and the turn engine's decisions: whose turn it is,
//! the once-per-turn gem rule, committing a paid creature, the creature
//! cost table, and the end-of-round victory check.

use vstd::prelude::*;

use crate::cards::face_rank;
use crate::cards::Card;
use crate::cards::Face;
use crate::player::creature_key_fn;
use crate::player::gem_key_fn;
use crate::player::Creature;
use crate::player::CreatureStatus;
use crate::player::Gem;
use crate::player::Player;
use crate::sorted::inserted_at;
use crate::sorted::sorted_by_key;

verus! {

/// What the end-of-round victory check decides.
#[derive(Clone, Copy, Debug, PartialEq, Eq, Structural)]
pub enum TurnOutcome {
    /// Both players still stand; play passes to the other player.
    Continue,
    /// The first player's life is gone; the second player wins.
    Player2Wins,
    /// The second player's life is gone; the first player wins.
    Player1Wins,
    /// Both players' lives are gone at once.
    Draw,
}

/// The whole match: two players and whose turn it is.
#[derive(Debug)]
pub struct Game {
    pub current_player: u32,
    pub player0: Player,
    pub player1: Player,
}

/// Gem cost of casting a card as a creature: Jack 2, Queen 4, King 5,
/// Ace 3. Gem-range faces are never cast as creatures and carry no cost.
pub open spec fn spec_creature_cost(f: Face) -> u32 {
    match f {
        Face::Jack => 2,
        Face::Queen => 4,
        Face::King => 5,
        Face::Ace => 3,
        _ => 0,
    }
}

/// The decision the victory check takes from the two life totals: both
/// gone is a draw, one gone hands the win to the opponent, otherwise
/// the match goes on.
pub open spec fn victory_outcome(p0_life: int, p1_life: int) -> TurnOutcome {
    if p0_life <= 0 && p1_life <= 0 {
        TurnOutcome::Draw
    } else if p0_life <= 0 {
        TurnOutcome::Player2Wins
    } else if p1_life <= 0 {
        TurnOutcome::Player1Wins
    } else {
        TurnOutcome::Continue
    }
}

/// The new player state after legally playing a gem card: the flag is
/// spent, the card sits in the gem pool as a fresh untapped gem, and
/// nothing else moved.
pub open spec fn gem_played(prev: Player, new: Player, card: Card) -> bool {
    &&& new.has_played_gem == true
    &&& exists|i: int|
        inserted_at(prev.gems@, new.gems@, (Gem { card, tapped: false }), gem_key_fn(), i)
    &&& (sorted_by_key(prev.gems@, gem_key_fn()) ==> sorted_by_key(new.gems@, gem_key_fn()))
    &&& new.gems@.to_multiset() == prev.gems@.to_multiset().insert((Gem { card, tapped: false }))
    &&& new.library@ == prev.library@
    &&& new.graveyard@ == prev.graveyard@
    &&& new.hand@ == prev.hand@
    &&& new.creatures@ == prev.creatures@
    &&& new.life == prev.life
}

/// The new player state after a paid cast: a fresh untrained creature of
/// exactly the played card, carrying the royal charge exactly when the
/// payment was a straight, stands sorted among the creatures; nothing
/// else moved.
pub open spec fn creature_committed(prev: Player, new: Player, card: Card, royal: bool) -> bool {
    &&& exists|c: Creature, i: int|
        {
            &&& c.cards@ == seq![card]
            &&& c.royal_charge == royal
            &&& c.status == CreatureStatus::Untrained
            &&& c.equipment@.len() == 0
            &&& inserted_at(prev.creatures@, new.creatures@, c, creature_key_fn(), i)
        }
    &&& (sorted_by_key(prev.creatures@, creature_key_fn()) ==> sorted_by_key(
        new.creatures@,
        creature_key_fn(),
    ))
    &&& new.creatures@.len() == prev.creatures@.len() + 1
    &&& new.library@ == prev.library@
    &&& new.graveyard@ == prev.graveyard@
    &&& new.hand@ == prev.hand@
    &&& new.gems@ == prev.gems@
    &&& new.life == prev.life
    &&& new.has_played_gem == prev.has_played_gem
}

/// Gem cost of casting the given card as a creature.
pub fn creature_cost(face: Face) -> (c: u32)
    requires
        face_rank(face) >= 6,
    ensures
        c == spec_creature_cost(face),
{
    match face {
        Face::Jack => 2,
        Face::Queen => 4,
        Face::King => 5,
        _ => 3,
    }
}

impl Game {
    /// The turn marker names one of the two players.
    pub open spec fn wf(self) -> bool {
        self.current_player == 0 || self.current_player == 1
    }

    /// The player with the given seat.
    pub open spec fn spec_player(self, player: int) -> Player {
        if player == 0 {
            self.player0
        } else {
            self.player1
        }
    }

    /// The player whose turn it is.
    pub open spec fn spec_us(self) -> Player {
        self.spec_player(self.current_player as int)
    }

    /// The player whose turn it is not.
    pub open spec fn spec_enemy(self) -> Player {
        self.spec_player(1 - self.current_player as int)
    }

    /// A fresh match between two players; the first player opens.
    pub fn new(player0: Player, player1: Player) -> (g: Game)
        ensures
            g.current_player == 0,
            g.player0 == player0,
            g.player1 == player1,
            g.wf(),
    {
        Game { current_player: 0, player0, player1 }
    }

    /// The player whose turn it is.
    pub fn us(&self) -> (p: &Player)
        requires
            self.wf(),
        ensures
            *p == self.spec_us(),
    {
        if self.current_player == 0 {
            &self.player0
        } else {
            &self.player1
        }
    }

    /// Mutable access to the player whose turn it is.
    pub fn us_mut(&mut self) -> (p: &mut Player)
        requires
            old(self).wf(),
        ensures
            *p == old(self).spec_us(),
            final(self).current_player == old(self).current_player,
            old(self).current_player == 0 ==> final(self).player0 == *final(p)
                && final(self).player1 == old(self).player1,
            old(self).current_player == 1 ==> final(self).player1 == *final(p)
                && final(self).player0 == old(self).player0,
    {
        if self.current_player == 0 {
            &mut self.player0
        } else {
            &mut self.player1
        }
    }

    /// The player whose turn it is not.
    pub fn enemy(&self) -> (p: &Player)
        requires
            self.wf(),
        ensures
            *p == self.spec_enemy(),
    {
        if self.current_player == 0 {
            &self.player1
        } else {
            &self.player0
        }
    }

    /// Pass the turn to the other player.
    pub fn next_turn(&mut self)
        requires
            old(self).wf(),
        ensures
            final(self).wf(),
            final(self).current_player == 1 - old(self).current_player,
            final(self).player0 == old(self).player0,
            final(self).player1 == old(self).player1,
    {
        self.current_player = 1 - self.current_player;
    }

    /// The end-of-round victory check over the two life totals.
    pub fn victory_check(&self) -> (r: TurnOutcome)
        ensures
            r == victory_outcome(self.player0.life as int, self.player1.life as int),
    {
        if self.player0.life <= 0 && self.player1.life <= 0 {
            TurnOutcome::Draw
        } else if self.player0.life <= 0 {
            TurnOutcome::Player2Wins
        } else if self.player1.life <= 0 {
            TurnOutcome::Player1Wins
        } else {
            TurnOutcome::Continue
        }
    }

    /// Play a gem-range card from the hand: at most one gem may be
    /// played per turn, so if the flag is already spent the card comes
    /// back untouched and nothing changes; otherwise the card joins the
    /// gem pool untapped and the flag is spent.
    pub fn play_gem_card(&mut self, card: Card, player: u32) -> (r: Option<Card>)
        requires
            player < 2,
            face_rank(card.face) <= 5,
        ensures
            final(self).current_player == old(self).current_player,
            old(self).spec_player(player as int).has_played_gem ==> {
                &&& r == Some(card)
                &&& final(self).player0 == old(self).player0
                &&& final(self).player1 == old(self).player1
            },
            !old(self).spec_player(player as int).has_played_gem ==> {
                &&& r is None
                &&& gem_played(
                    old(self).spec_player(player as int),
                    final(self).spec_player(player as int),
                    card,
                )
                &&& final(self).spec_player(1 - player as int) == old(self).spec_player(
                    1 - player as int,
                )
            },
    {
        if player == 0 {
            if self.player0.has_played_gem {
                Some(card)
            } else {
                self.player0.has_played_gem = true;
                self.player0.add_gem(card);
                None
            }
        } else {
            if self.player1.has_played_gem {
                Some(card)
            } else {
                self.player1.has_played_gem = true;
                self.player1.add_gem(card);
                None
            }
        }
    }

    /// Commit a paid cast: the card becomes a fresh untrained creature,
    /// with the royal charge exactly when the payment was a straight,
    /// inserted in sorted position among the player's creatures.
    pub fn commit_creature(&mut self, card: Card, royal: bool, player: u32)
        requires
            player < 2,
            forall|i: int|
                0 <= i < old(self).spec_player(player as int).creatures@.len() ==> (#[trigger] old(
                    self,
                ).spec_player(player as int).creatures@[i]).wf(),
        ensures
            final(self).current_player == old(self).current_player,
            creature_committed(
                old(self).spec_player(player as int),
                final(self).spec_player(player as int),
                card,
                royal,
            ),
            final(self).spec_player(1 - player as int) == old(self).spec_player(1 - player as int),
    {
        let mut cards: Vec<Card> = Vec::new();
        cards.push(card);
        proof {
            assert(cards@ =~= seq![card]);
        }
        let creature = Creature {
            cards,
            royal_charge: royal,
            status: CreatureStatus::Untrained,
            equipment: Vec::new(),
        };
        if player == 0 {
            proof {
                assert forall|i: int| 0 <= i < self.player0.creatures@.len() implies (
                #[trigger] self.player0.creatures@[i]).wf() by {
                    assert(old(self).spec_player(player as int).creatures@[i].wf());
                }
            }
            self.player0.add_creature(creature);
        } else {
            proof {
                assert forall|i: int| 0 <= i < self.player1.creatures@.len() implies (
                #[trigger] self.player1.creatures@[i]).wf() by {
                    assert(old(self).spec_player(player as int).creatures@[i].wf());
                }
            }
            self.player1.add_creature(creature);
        }
    }
}

} // verus!
