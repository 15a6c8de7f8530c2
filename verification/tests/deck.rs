use card_duel::deck::random_deck;
use card_duel::{Face, Suit};

#[test]
fn random_deck_holds_each_combination_once() {
    let mut rng = rand::thread_rng();
    let deck = random_deck(3, &mut rng);
    assert_eq!(deck.len(), 40);
    assert!(deck.iter().all(|c| c.player == 3));
    for suit in Suit::all() {
        for face in Face::all() {
            let n = deck.iter().filter(|c| c.suit == suit && c.face == face).count();
            assert_eq!(n, 1);
        }
    }
}

#[test]
fn two_decks_keep_their_owners_apart() {
    let mut rng = rand::thread_rng();
    let deck0 = random_deck(0, &mut rng);
    let deck1 = random_deck(1, &mut rng);
    assert!(deck0.iter().all(|c| c.player == 0));
    assert!(deck1.iter().all(|c| c.player == 1));
    assert_eq!(deck1.len(), 40);
}
