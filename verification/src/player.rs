//! Player state: gems, creatures, the always-sorted collections and the
//! operations that maintain them, the start-of-turn reset, and the
//! royal-sacrifice availability check.

use vstd::prelude::*;
use vstd::pervasive::VecAdditionalExecFns;

use crate::cards::card_color;
use crate::cards::card_key;
use crate::cards::card_key_exec;
use crate::cards::color_rank;
use crate::cards::face_rank;
use crate::cards::suit_rank;
use crate::cards::Card;
use crate::cards::Color;
use crate::cards::Face;
use crate::cards::Suit;
use crate::sorted::inserted_at;
use crate::sorted::lemma_insert_multiset;
use crate::sorted::lemma_sorted_insert;
use crate::sorted::sorted_by_key;

verus! {

/// A card played face-up as a spendable resource of its color. A tapped
/// gem has been spent this turn cycle and becomes usable again at its
/// owner's next reset.
#[derive(Clone, Copy, Debug, PartialEq, Eq, Structural)]
pub struct Gem {
    pub card: Card,
    pub tapped: bool,
}

/// Lifecycle state of a creature.
#[derive(Clone, Copy, Debug, PartialEq, Eq, Structural)]
pub enum CreatureStatus {
    Ready,
    Tapped,
    Untrained,
}

/// A creature in play: one or more cards, a flag recording that its cost
/// was paid with a straight, and its lifecycle status.
#[derive(Debug)]
pub struct Creature {
    pub cards: Vec<Card>,
    pub royal_charge: bool,
    pub status: CreatureStatus,
    pub equipment: Vec<[Card; 2]>,
}

/// Sort key of a hand card and of a gem's card: (color, face, suit).
pub open spec fn card_key_fn() -> spec_fn(Card) -> int {
    |c: Card| card_key(c)
}

/// Sort key of a gem: the key of its underlying card.
pub open spec fn gem_key_fn() -> spec_fn(Gem) -> int {
    |g: Gem| card_key(g.card)
}

/// Sort key of a creature: its first card under (face, color, suit) —
/// note the attribute order differs from the hand and gem key.
pub open spec fn creature_key(c: Creature) -> int {
    face_rank(c.cards@[0].face) * 8 + color_rank(card_color(c.cards@[0])) * 4 + suit_rank(
        c.cards@[0].suit,
    )
}

/// Sort key of a creature, as a key function.
pub open spec fn creature_key_fn() -> spec_fn(Creature) -> int {
    |c: Creature| creature_key(c)
}

/// One player's whole state: draw pile, graveyard, sorted hand, life
/// total, sorted gem pool, sorted creatures, and the once-per-turn gem
/// flag.
#[derive(Debug)]
pub struct Player {
    pub library: Vec<Card>,
    pub graveyard: Vec<Card>,
    pub hand: Vec<Card>,
    pub life: i32,
    pub gems: Vec<Gem>,
    pub creatures: Vec<Creature>,
    pub has_played_gem: bool,
}

/// Number of untapped gems in a gem row.
pub open spec fn count_untapped(s: Seq<Gem>) -> int
    decreases s.len(),
{
    if s.len() == 0 {
        0
    } else {
        count_untapped(s.drop_last()) + if !s.last().tapped {
            1int
        } else {
            0int
        }
    }
}

/// The creature holds a card of the given face and color.
pub open spec fn creature_has_face(c: Creature, col: Color, f: Face) -> bool {
    exists|j: int|
        0 <= j < c.cards@.len() && (#[trigger] c.cards@[j]).face == f && card_color(c.cards@[j])
            == col
}

/// Some creature of the player holds a card of the given face and color.
pub open spec fn player_has_royal(p: Player, col: Color, f: Face) -> bool {
    exists|i: int| 0 <= i < p.creatures@.len() && creature_has_face(#[trigger] p.creatures@[i], col, f)
}

/// A royal sacrifice is available: for some single color the player's
/// creatures hold a Jack, a Queen, and a King of that color, possibly
/// spread over different creatures.
pub open spec fn royal_sacrifice_available(p: Player) -> bool {
    exists|col: Color|
        #[trigger] player_has_royal(p, col, Face::Jack) && player_has_royal(p, col, Face::Queen)
            && player_has_royal(p, col, Face::King)
}

/// Insert a card into a row kept sorted by the (color, face, suit) key,
/// at the first position whose key is not below the new card's key.
fn insert_card_sorted(v: &mut Vec<Card>, card: Card) -> (pos: usize)
    ensures
        inserted_at(old(v)@, final(v)@, card, card_key_fn(), pos as int),
        sorted_by_key(old(v)@, card_key_fn()) ==> sorted_by_key(final(v)@, card_key_fn()),
        final(v)@.to_multiset() == old(v)@.to_multiset().insert(card),
        final(v)@.len() == old(v)@.len() + 1,
{
    let k = card_key_exec(&card);
    let mut pos: usize = 0;
    while pos < v.len()
        invariant
            pos <= v@.len(),
            v@ == old(v)@,
            k as int == card_key(card),
            forall|j: int| 0 <= j < pos ==> card_key(#[trigger] v@[j]) < k as int,
        ensures
            pos <= v@.len(),
            v@ == old(v)@,
            forall|j: int| 0 <= j < pos ==> card_key(#[trigger] v@[j]) < k as int,
            pos < v@.len() ==> card_key(v@[pos as int]) >= k as int,
        decreases v@.len() - pos,
    {
        if card_key_exec(&v[pos]) >= k {
            break ;
        }
        pos += 1;
    }
    let ghost prev = v@;
    v.insert(pos, card);
    proof {
        assert(inserted_at(prev, v@, card, card_key_fn(), pos as int));
        if sorted_by_key(prev, card_key_fn()) {
            lemma_sorted_insert(prev, v@, card, card_key_fn(), pos as int);
        }
        lemma_insert_multiset(prev, card, pos as int);
    }
    pos
}

/// Sort a hand into ascending (color, face, suit) order, keeping exactly
/// the same cards.
pub fn sort_hand(hand: &mut Vec<Card>)
    ensures
        sorted_by_key(final(hand)@, card_key_fn()),
        final(hand)@.to_multiset() == old(hand)@.to_multiset(),
        final(hand)@.len() == old(hand)@.len(),
{
    let mut result: Vec<Card> = Vec::new();
    let mut i: usize = 0;
    proof {
        assert(result@ =~= hand@.take(0));
    }
    while i < hand.len()
        invariant
            i <= hand@.len(),
            hand@ == old(hand)@,
            sorted_by_key(result@, card_key_fn()),
            result@.to_multiset() == hand@.take(i as int).to_multiset(),
            result@.len() == i,
        decreases hand@.len() - i,
    {
        let c = hand[i];
        insert_card_sorted(&mut result, c);
        proof {
            assert(hand@.take(i as int + 1) =~= hand@.take(i as int).push(c));
            vstd::seq_lib::to_multiset_build(hand@.take(i as int), c);
        }
        i += 1;
    }
    proof {
        assert(hand@.take(hand@.len() as int) =~= hand@);
    }
    *hand = result;
}

impl Creature {
    /// The creature holds at least one card, so it has a sort key.
    pub open spec fn wf(self) -> bool {
        self.cards@.len() >= 1
    }
}

/// The (face, color, suit) key of a creature's first card, as executable
/// code.
fn creature_key_exec(c: &Creature) -> (k: u32)
    requires
        c.wf(),
    ensures
        k as int == creature_key(*c),
{
    let first = c.cards[0];
    let face: u32 = match first.face {
        Face::Two => 0,
        Face::Three => 1,
        Face::Four => 2,
        Face::Five => 3,
        Face::Six => 4,
        Face::Seven => 5,
        Face::Jack => 6,
        Face::Queen => 7,
        Face::King => 8,
        Face::Ace => 9,
    };
    let color: u32 = match first.suit.color() {
        Color::Red => 0,
        Color::Black => 1,
    };
    let suit: u32 = match first.suit {
        Suit::Spades => 0,
        Suit::Hearts => 1,
        Suit::Diamonds => 2,
        Suit::Clubs => 3,
    };
    face * 8 + color * 4 + suit
}

impl Player {
    /// A fresh player with the given draw pile and starting hand, at the
    /// starting life total of 20, with nothing in play.
    pub fn new(library: Vec<Card>, hand: Vec<Card>) -> (p: Player)
        ensures
            p.library@ == library@,
            p.hand@ == hand@,
            p.graveyard@.len() == 0,
            p.life == 20,
            p.gems@.len() == 0,
            p.creatures@.len() == 0,
            p.has_played_gem == false,
    {
        Player {
            library,
            graveyard: Vec::new(),
            hand,
            life: 20,
            gems: Vec::new(),
            creatures: Vec::new(),
            has_played_gem: false,
        }
    }

    /// Add a card to the hand, keeping the hand sorted.
    pub fn add_card(&mut self, card: Card)
        ensures
            exists|i: int| inserted_at(old(self).hand@, final(self).hand@, card, card_key_fn(), i),
            sorted_by_key(old(self).hand@, card_key_fn()) ==> sorted_by_key(
                final(self).hand@,
                card_key_fn(),
            ),
            final(self).hand@.to_multiset() == old(self).hand@.to_multiset().insert(card),
            final(self).hand@.len() == old(self).hand@.len() + 1,
            final(self).library@ == old(self).library@,
            final(self).graveyard@ == old(self).graveyard@,
            final(self).gems@ == old(self).gems@,
            final(self).creatures@ == old(self).creatures@,
            final(self).life == old(self).life,
            final(self).has_played_gem == old(self).has_played_gem,
    {
        let pos = insert_card_sorted(&mut self.hand, card);
        proof {
            assert(inserted_at(old(self).hand@, self.hand@, card, card_key_fn(), pos as int));
        }
    }

    /// Turn a card into a fresh untapped gem, keeping the gem pool
    /// sorted by the underlying card's key.
    pub fn add_gem(&mut self, card: Card)
        ensures
            exists|i: int|
                inserted_at(
                    old(self).gems@,
                    final(self).gems@,
                    (Gem { card, tapped: false }),
                    gem_key_fn(),
                    i,
                ),
            sorted_by_key(old(self).gems@, gem_key_fn()) ==> sorted_by_key(
                final(self).gems@,
                gem_key_fn(),
            ),
            final(self).gems@.to_multiset() == old(self).gems@.to_multiset().insert(
                (Gem { card, tapped: false }),
            ),
            final(self).gems@.len() == old(self).gems@.len() + 1,
            final(self).library@ == old(self).library@,
            final(self).graveyard@ == old(self).graveyard@,
            final(self).hand@ == old(self).hand@,
            final(self).creatures@ == old(self).creatures@,
            final(self).life == old(self).life,
            final(self).has_played_gem == old(self).has_played_gem,
    {
        let k = card_key_exec(&card);
        let gem = Gem { card, tapped: false };
        let mut pos: usize = 0;
        while pos < self.gems.len()
            invariant
                pos <= self.gems@.len(),
                self.gems@ == old(self).gems@,
                k as int == card_key(card),
                forall|j: int| 0 <= j < pos ==> card_key((#[trigger] self.gems@[j]).card) < k as int,
            ensures
                pos <= self.gems@.len(),
                self.gems@ == old(self).gems@,
                forall|j: int| 0 <= j < pos ==> card_key((#[trigger] self.gems@[j]).card) < k as int,
                pos < self.gems@.len() ==> card_key(self.gems@[pos as int].card) >= k as int,
            decreases self.gems@.len() - pos,
        {
            if card_key_exec(&self.gems[pos].card) >= k {
                break ;
            }
            pos += 1;
        }
        let ghost prev = self.gems@;
        self.gems.insert(pos, gem);
        proof {
            assert(inserted_at(prev, self.gems@, gem, gem_key_fn(), pos as int));
            if sorted_by_key(prev, gem_key_fn()) {
                lemma_sorted_insert(prev, self.gems@, gem, gem_key_fn(), pos as int);
            }
            lemma_insert_multiset(prev, gem, pos as int);
        }
    }

    /// Add a creature, keeping the creature row sorted by its first
    /// card's (face, color, suit) key.
    pub fn add_creature(&mut self, creature: Creature)
        requires
            creature.wf(),
            forall|i: int| 0 <= i < old(self).creatures@.len() ==> (#[trigger] old(
                self,
            ).creatures@[i]).wf(),
        ensures
            exists|i: int|
                inserted_at(
                    old(self).creatures@,
                    final(self).creatures@,
                    creature,
                    creature_key_fn(),
                    i,
                ),
            sorted_by_key(old(self).creatures@, creature_key_fn()) ==> sorted_by_key(
                final(self).creatures@,
                creature_key_fn(),
            ),
            final(self).creatures@.to_multiset() == old(self).creatures@.to_multiset().insert(
                creature,
            ),
            final(self).creatures@.len() == old(self).creatures@.len() + 1,
            final(self).library@ == old(self).library@,
            final(self).graveyard@ == old(self).graveyard@,
            final(self).hand@ == old(self).hand@,
            final(self).gems@ == old(self).gems@,
            final(self).life == old(self).life,
            final(self).has_played_gem == old(self).has_played_gem,
    {
        let k = creature_key_exec(&creature);
        let mut pos: usize = 0;
        while pos < self.creatures.len()
            invariant
                pos <= self.creatures@.len(),
                self.creatures@ == old(self).creatures@,
                forall|j: int|
                    0 <= j < self.creatures@.len() ==> (#[trigger] self.creatures@[j]).wf(),
                k as int == creature_key(creature),
                forall|j: int|
                    0 <= j < pos ==> creature_key(#[trigger] self.creatures@[j]) < k as int,
            ensures
                pos <= self.creatures@.len(),
                self.creatures@ == old(self).creatures@,
                forall|j: int|
                    0 <= j < pos ==> creature_key(#[trigger] self.creatures@[j]) < k as int,
                pos < self.creatures@.len() ==> creature_key(self.creatures@[pos as int]) >= k as int,
            decreases self.creatures@.len() - pos,
        {
            if creature_key_exec(&self.creatures[pos]) >= k {
                break ;
            }
            pos += 1;
        }
        let ghost prev = self.creatures@;
        self.creatures.insert(pos, creature);
        proof {
            assert(inserted_at(prev, self.creatures@, creature, creature_key_fn(), pos as int));
            if sorted_by_key(prev, creature_key_fn()) {
                lemma_sorted_insert(prev, self.creatures@, creature, creature_key_fn(), pos as int);
            }
            lemma_insert_multiset(prev, creature, pos as int);
        }
    }

    /// Start-of-turn reset: every gem becomes untapped, every creature
    /// becomes ready (an untrained creature silently readies too), and
    /// the once-per-turn gem flag clears.
    pub fn reset(&mut self)
        ensures
            final(self).gems@.len() == old(self).gems@.len(),
            forall|i: int|
                0 <= i < old(self).gems@.len() ==> final(self).gems@[i] == (Gem {
                    card: old(self).gems@[i].card,
                    tapped: false,
                }),
            final(self).creatures@.len() == old(self).creatures@.len(),
            forall|i: int|
                0 <= i < old(self).creatures@.len() ==> {
                    &&& (#[trigger] final(self).creatures@[i]).cards@ == old(
                        self,
                    ).creatures@[i].cards@
                    &&& final(self).creatures@[i].royal_charge == old(
                        self,
                    ).creatures@[i].royal_charge
                    &&& final(self).creatures@[i].status == CreatureStatus::Ready
                    &&& final(self).creatures@[i].equipment@ == old(self).creatures@[i].equipment@
                },
            final(self).has_played_gem == false,
            final(self).library@ == old(self).library@,
            final(self).graveyard@ == old(self).graveyard@,
            final(self).hand@ == old(self).hand@,
            final(self).life == old(self).life,
    {
        let mut i: usize = 0;
        while i < self.gems.len()
            invariant
                i <= self.gems@.len(),
                self.gems@.len() == old(self).gems@.len(),
                forall|j: int|
                    0 <= j < i ==> self.gems@[j] == (Gem {
                        card: old(self).gems@[j].card,
                        tapped: false,
                    }),
                forall|j: int| i <= j < self.gems@.len() ==> self.gems@[j] == old(self).gems@[j],
                self.library@ == old(self).library@,
                self.graveyard@ == old(self).graveyard@,
                self.hand@ == old(self).hand@,
                self.creatures@ == old(self).creatures@,
                self.life == old(self).life,
                self.has_played_gem == old(self).has_played_gem,
            decreases self.gems@.len() - i,
        {
            let card = self.gems[i].card;
            self.gems.set(i, Gem { card, tapped: false });
            i += 1;
        }
        let mut j: usize = 0;
        while j < self.creatures.len()
            invariant
                j <= self.creatures@.len(),
                self.creatures@.len() == old(self).creatures@.len(),
                forall|m: int|
                    0 <= m < j ==> {
                        &&& (#[trigger] self.creatures@[m]).cards@ == old(
                            self,
                        ).creatures@[m].cards@
                        &&& self.creatures@[m].royal_charge == old(self).creatures@[m].royal_charge
                        &&& self.creatures@[m].status == CreatureStatus::Ready
                        &&& self.creatures@[m].equipment@ == old(self).creatures@[m].equipment@
                    },
                forall|m: int|
                    j <= m < self.creatures@.len() ==> self.creatures@[m] == old(
                        self,
                    ).creatures@[m],
                self.gems@.len() == old(self).gems@.len(),
                forall|m: int|
                    0 <= m < self.gems@.len() ==> self.gems@[m] == (Gem {
                        card: old(self).gems@[m].card,
                        tapped: false,
                    }),
                self.library@ == old(self).library@,
                self.graveyard@ == old(self).graveyard@,
                self.hand@ == old(self).hand@,
                self.life == old(self).life,
                self.has_played_gem == old(self).has_played_gem,
            decreases self.creatures@.len() - j,
        {
            let mut taken = Creature {
                cards: Vec::new(),
                royal_charge: false,
                status: CreatureStatus::Ready,
                equipment: Vec::new(),
            };
            self.creatures.set_and_swap(j, &mut taken);
            taken.status = CreatureStatus::Ready;
            self.creatures.set_and_swap(j, &mut taken);
            j += 1;
        }
        self.has_played_gem = false;
    }

    /// Remove and return the hand card at the given position.
    pub fn take_hand_card(&mut self, index: usize) -> (c: Card)
        requires
            index < old(self).hand@.len(),
        ensures
            c == old(self).hand@[index as int],
            final(self).hand@ == old(self).hand@.remove(index as int),
            final(self).library@ == old(self).library@,
            final(self).graveyard@ == old(self).graveyard@,
            final(self).gems@ == old(self).gems@,
            final(self).creatures@ == old(self).creatures@,
            final(self).life == old(self).life,
            final(self).has_played_gem == old(self).has_played_gem,
    {
        self.hand.remove(index)
    }

    /// Draw: pop the top of the library into the hand, keeping the hand
    /// sorted. Returns the drawn card, or nothing when the library is
    /// empty (an empty draw is skipped, not an error).
    #[verifier::rlimit(50)]
    pub fn draw(&mut self) -> (r: Option<Card>)
        ensures
            old(self).library@.len() == 0 ==> r is None && final(self).library@ == old(
                self,
            ).library@ && final(self).hand@ == old(self).hand@,
            old(self).library@.len() > 0 ==> r == Some(old(self).library@.last()),
            old(self).library@.len() > 0 ==> final(self).library@ == old(
                self,
            ).library@.drop_last(),
            old(self).library@.len() > 0 ==> exists|i: int|
                inserted_at(
                    old(self).hand@,
                    final(self).hand@,
                    old(self).library@.last(),
                    card_key_fn(),
                    i,
                ),
            old(self).library@.len() > 0 && sorted_by_key(old(self).hand@, card_key_fn())
                ==> sorted_by_key(final(self).hand@, card_key_fn()),
            final(self).graveyard@ == old(self).graveyard@,
            final(self).gems@ == old(self).gems@,
            final(self).creatures@ == old(self).creatures@,
            final(self).life == old(self).life,
            final(self).has_played_gem == old(self).has_played_gem,
    {
        match self.library.pop() {
            Some(card) => {
                proof {
                    assert(self.library@ =~= old(self).library@.drop_last());
                }
                let pos = insert_card_sorted(&mut self.hand, card);
                proof {
                    assert(inserted_at(
                        old(self).hand@,
                        self.hand@,
                        card,
                        card_key_fn(),
                        pos as int,
                    ));
                }
                Some(card)
            },
            None => None,
        }
    }

    /// How many gems in the pool are untapped.
    pub fn untapped_gem_count(&self) -> (n: usize)
        ensures
            n as int == count_untapped(self.gems@),
    {
        let mut n: usize = 0;
        let mut i: usize = 0;
        proof {
            assert(self.gems@.take(0) =~= Seq::<Gem>::empty());
        }
        while i < self.gems.len()
            invariant
                i <= self.gems@.len(),
                n <= i,
                n as int == count_untapped(self.gems@.take(i as int)),
            decreases self.gems@.len() - i,
        {
            proof {
                assert(self.gems@.take(i as int + 1).drop_last() =~= self.gems@.take(i as int));
            }
            if !self.gems[i].tapped {
                n += 1;
            }
            i += 1;
        }
        proof {
            assert(self.gems@.take(self.gems@.len() as int) =~= self.gems@);
        }
        n
    }

    /// How many creatures are led by a Jack (their first card's face).
    pub fn jack_creature_count(&self) -> (n: usize)
        requires
            forall|i: int| 0 <= i < self.creatures@.len() ==> (#[trigger] self.creatures@[i]).wf(),
        ensures
            n as int == count_jack_led(self.creatures@),
    {
        let mut n: usize = 0;
        let mut i: usize = 0;
        proof {
            assert(self.creatures@.take(0) =~= Seq::<Creature>::empty());
        }
        while i < self.creatures.len()
            invariant
                i <= self.creatures@.len(),
                n <= i,
                forall|m: int|
                    0 <= m < self.creatures@.len() ==> (#[trigger] self.creatures@[m]).wf(),
                n as int == count_jack_led(self.creatures@.take(i as int)),
            decreases self.creatures@.len() - i,
        {
            proof {
                assert(self.creatures@.take(i as int + 1).drop_last() =~= self.creatures@.take(
                    i as int,
                ));
            }
            let c = &self.creatures[i];
            let lead = c.cards[0];
            if lead.face == Face::Jack {
                n += 1;
            }
            i += 1;
        }
        proof {
            assert(self.creatures@.take(self.creatures@.len() as int) =~= self.creatures@);
        }
        n
    }

    /// Whether some creature holds a card of the given face and color.
    fn has_royal(&self, col: Color, f: Face) -> (r: bool)
        ensures
            r == player_has_royal(*self, col, f),
    {
        let mut i: usize = 0;
        while i < self.creatures.len()
            invariant
                i <= self.creatures@.len(),
                forall|m: int|
                    0 <= m < i ==> !creature_has_face(#[trigger] self.creatures@[m], col, f),
            decreases self.creatures@.len() - i,
        {
            if creature_has(&self.creatures[i], col, f) {
                return true;
            }
            i += 1;
        }
        false
    }

    /// Whether a royal sacrifice is available: some single color for
    /// which the player's creatures hold a Jack, a Queen, and a King.
    pub fn can_royal_sacrifice(&self) -> (r: bool)
        ensures
            r == royal_sacrifice_available(*self),
    {
        let red = self.has_royal(Color::Red, Face::Jack) && self.has_royal(Color::Red, Face::Queen)
            && self.has_royal(Color::Red, Face::King);
        let black = self.has_royal(Color::Black, Face::Jack) && self.has_royal(
            Color::Black,
            Face::Queen,
        ) && self.has_royal(Color::Black, Face::King);
        let r = red || black;
        proof {
            if r {
                if red {
                    assert(player_has_royal(*self, Color::Red, Face::Jack));
                } else {
                    assert(player_has_royal(*self, Color::Black, Face::Jack));
                }
            } else {
                assert forall|col: Color| !(#[trigger] player_has_royal(*self, col, Face::Jack)
                    && player_has_royal(*self, col, Face::Queen) && player_has_royal(
                    *self,
                    col,
                    Face::King,
                )) by {
                    match col {
                        Color::Red => {},
                        Color::Black => {},
                    }
                }
            }
        }
        r
    }
}

/// Number of creatures whose first card is a Jack.
pub open spec fn count_jack_led(s: Seq<Creature>) -> int
    decreases s.len(),
{
    if s.len() == 0 {
        0
    } else {
        count_jack_led(s.drop_last()) + if s.last().cards@[0].face == Face::Jack {
            1int
        } else {
            0int
        }
    }
}

/// Whether the creature holds a card of the given face and color.
fn creature_has(c: &Creature, col: Color, f: Face) -> (r: bool)
    ensures
        r == creature_has_face(*c, col, f),
{
    let mut j: usize = 0;
    while j < c.cards.len()
        invariant
            j <= c.cards@.len(),
            forall|m: int|
                0 <= m < j ==> !((#[trigger] c.cards@[m]).face == f && card_color(c.cards@[m])
                    == col),
        decreases c.cards@.len() - j,
    {
        let card = c.cards[j];
        if card.face == f && card.color() == col {
            return true;
        }
        j += 1;
    }
    false
}

} // verus!
