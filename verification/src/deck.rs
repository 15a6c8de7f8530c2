//! Deck construction: the forty owner-tagged cards, one per (suit, face)
//! combination, handed to the shuffler of the `rand` crate.

use vstd::prelude::*;

use crate::cards::face_rank;
use crate::cards::Card;
use crate::cards::Face;
use crate::cards::Suit;

verus! {

/// The thread-local random number generator of the `rand` crate, used
/// only to shuffle decks. Its state is opaque to the library.
#[verifier::external_type_specification]
#[verifier::external_body]
pub struct ExThreadRng(rand::rngs::ThreadRng);

/// The face at a given position of the ascending rank order.
pub open spec fn face_of_rank(r: int) -> Face {
    if r == 0 {
        Face::Two
    } else if r == 1 {
        Face::Three
    } else if r == 2 {
        Face::Four
    } else if r == 3 {
        Face::Five
    } else if r == 4 {
        Face::Six
    } else if r == 5 {
        Face::Seven
    } else if r == 6 {
        Face::Jack
    } else if r == 7 {
        Face::Queen
    } else if r == 8 {
        Face::King
    } else {
        Face::Ace
    }
}

/// The ten cards of one suit, in ascending face order, tagged with their
/// owner.
pub open spec fn suit_block(player: u32, suit: Suit) -> Seq<Card> {
    Seq::new(10, |j: int| Card { player, suit, face: face_of_rank(j) })
}

/// The whole forty-card deck in canonical order: every (suit, face)
/// combination exactly once, tagged with its owner.
pub open spec fn full_deck(player: u32) -> Seq<Card> {
    suit_block(player, Suit::Spades) + suit_block(player, Suit::Hearts) + suit_block(
        player,
        Suit::Diamonds,
    ) + suit_block(player, Suit::Clubs)
}

/// Going to a face's rank and back lands on the same face.
proof fn lemma_face_of_rank(f: Face)
    ensures
        face_of_rank(face_rank(f)) == f,
{
}

/// Relies on `rand::seq::SliceRandom::shuffle`: it permutes the slice in
/// place, neither adding nor removing an element, so the multiset of
/// cards is unchanged whatever order the generator produces.
#[verifier::external_body]
fn shuffle_cards(deck: &mut Vec<Card>, rng: &mut rand::rngs::ThreadRng)
    ensures
        final(deck)@.to_multiset() == old(deck)@.to_multiset(),
{
    let slice: &mut [Card] = deck.as_mut_slice();
    rand::seq::SliceRandom::shuffle(slice, rng);
}

/// Append the ten cards of one suit, in ascending face order.
fn push_suit(deck: &mut Vec<Card>, player: u32, suit: Suit)
    ensures
        final(deck)@ == old(deck)@ + suit_block(player, suit),
{
    let faces = Face::all();
    let mut fi: usize = 0;
    proof {
        assert(deck@ =~= old(deck)@ + suit_block(player, suit).take(0));
    }
    while fi < faces.len()
        invariant
            fi <= 10,
            faces@.len() == 10,
            forall|i: int| 0 <= i < 10 ==> face_rank(#[trigger] faces@[i]) == i,
            deck@ == old(deck)@ + suit_block(player, suit).take(fi as int),
        decreases 10 - fi,
    {
        let f = faces[fi];
        deck.push(Card { player, suit, face: f });
        proof {
            lemma_face_of_rank(f);
            assert(suit_block(player, suit)[fi as int] == Card { player, suit, face: f });
            assert(deck@ =~= old(deck)@ + suit_block(player, suit).take(fi as int + 1));
        }
        fi += 1;
    }
    proof {
        assert(suit_block(player, suit).take(10) =~= suit_block(player, suit));
    }
}

/// A full forty-card deck for the given owner, shuffled: it holds
/// exactly the cards of the canonical deck, in whatever order the
/// generator produced.
pub fn random_deck(player: u32, rng: &mut rand::rngs::ThreadRng) -> (deck: Vec<Card>)
    ensures
        deck@.len() == 40,
        deck@.to_multiset() == full_deck(player).to_multiset(),
{
    let mut deck: Vec<Card> = Vec::new();
    push_suit(&mut deck, player, Suit::Spades);
    push_suit(&mut deck, player, Suit::Hearts);
    push_suit(&mut deck, player, Suit::Diamonds);
    push_suit(&mut deck, player, Suit::Clubs);
    proof {
        assert(deck@ =~= full_deck(player));
    }
    shuffle_cards(&mut deck, rng);
    proof {
        broadcast use vstd::seq_lib::group_to_multiset_ensures;

        assert(deck@.len() == deck@.to_multiset().len());
        assert(full_deck(player).len() == full_deck(player).to_multiset().len());
    }
    deck
}

} // verus!
