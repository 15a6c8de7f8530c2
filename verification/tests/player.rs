use card_duel::player::{CreatureStatus, Creature, Gem, Player, sort_hand};
use card_duel::{Card, Face, Suit};

fn card(suit: Suit, face: Face) -> Card {
    Card { player: 0, suit, face }
}

fn creature_of(cards: Vec<Card>) -> Creature {
    Creature { cards, royal_charge: false, status: CreatureStatus::Ready, equipment: Vec::new() }
}

// Sort key of hand cards and gems: (color, face, suit); red before black,
// suits in the order spades, hearts, diamonds, clubs.
fn hand_key(c: &Card) -> (u8, Face, Suit) {
    let color = match c.suit {
        Suit::Hearts | Suit::Diamonds => 0,
        Suit::Spades | Suit::Clubs => 1,
    };
    (color, c.face, c.suit)
}

fn is_hand_sorted(cards: &[Card]) -> bool {
    cards.windows(2).all(|w| hand_key(&w[0]) <= hand_key(&w[1]))
}

#[test]
fn add_card_keeps_hand_sorted() {
    let mut p = Player::new(Vec::new(), Vec::new());
    p.add_card(card(Suit::Clubs, Face::King));
    p.add_card(card(Suit::Hearts, Face::Two));
    p.add_card(card(Suit::Spades, Face::Ace));
    p.add_card(card(Suit::Diamonds, Face::Two));
    p.add_card(card(Suit::Hearts, Face::Two));
    assert_eq!(p.hand.len(), 5);
    assert!(is_hand_sorted(&p.hand));
    // Red cards first, black cards after.
    assert_eq!(p.hand[0], card(Suit::Hearts, Face::Two));
    assert_eq!(p.hand[1], card(Suit::Hearts, Face::Two));
    assert_eq!(p.hand[2], card(Suit::Diamonds, Face::Two));
    assert_eq!(p.hand[3], card(Suit::Clubs, Face::King));
    assert_eq!(p.hand[4], card(Suit::Spades, Face::Ace));
}

#[test]
fn add_gem_keeps_gems_sorted_and_untapped() {
    let mut p = Player::new(Vec::new(), Vec::new());
    p.add_gem(card(Suit::Clubs, Face::Seven));
    p.add_gem(card(Suit::Hearts, Face::Three));
    p.add_gem(card(Suit::Spades, Face::Two));
    assert_eq!(p.gems.len(), 3);
    assert!(p.gems.iter().all(|g| !g.tapped));
    assert_eq!(p.gems[0].card, card(Suit::Hearts, Face::Three));
    assert_eq!(p.gems[1].card, card(Suit::Spades, Face::Two));
    assert_eq!(p.gems[2].card, card(Suit::Clubs, Face::Seven));
}

#[test]
fn add_creature_sorts_by_face_then_color() {
    let mut p = Player::new(Vec::new(), Vec::new());
    p.add_creature(creature_of(vec![card(Suit::Spades, Face::King)]));
    p.add_creature(creature_of(vec![card(Suit::Hearts, Face::Jack)]));
    p.add_creature(creature_of(vec![card(Suit::Spades, Face::Jack)]));
    assert_eq!(p.creatures.len(), 3);
    // Creatures order by (face, color, suit): Jack-led before King-led,
    // and among Jacks the red one first.
    assert_eq!(p.creatures[0].cards[0], card(Suit::Hearts, Face::Jack));
    assert_eq!(p.creatures[1].cards[0], card(Suit::Spades, Face::Jack));
    assert_eq!(p.creatures[2].cards[0], card(Suit::Spades, Face::King));
}

#[test]
fn reset_untaps_gems_readies_creatures_and_clears_flag() {
    let mut p = Player::new(Vec::new(), Vec::new());
    p.gems.push(Gem { card: card(Suit::Hearts, Face::Two), tapped: true });
    p.gems.push(Gem { card: card(Suit::Spades, Face::Five), tapped: false });
    p.creatures.push(Creature {
        cards: vec![card(Suit::Spades, Face::Jack)],
        royal_charge: true,
        status: CreatureStatus::Untrained,
        equipment: Vec::new(),
    });
    p.creatures.push(Creature {
        cards: vec![card(Suit::Hearts, Face::Queen)],
        royal_charge: false,
        status: CreatureStatus::Tapped,
        equipment: Vec::new(),
    });
    p.has_played_gem = true;
    p.reset();
    assert!(p.gems.iter().all(|g| !g.tapped));
    assert_eq!(p.gems[0].card, card(Suit::Hearts, Face::Two));
    assert!(p.creatures.iter().all(|c| matches!(c.status, CreatureStatus::Ready)));
    assert!(p.creatures[0].royal_charge);
    assert!(!p.has_played_gem);
}

#[test]
fn sort_hand_orders_cards() {
    let mut hand = vec![
        card(Suit::Clubs, Face::Ace),
        card(Suit::Hearts, Face::Seven),
        card(Suit::Diamonds, Face::Two),
        card(Suit::Hearts, Face::Two),
    ];
    sort_hand(&mut hand);
    assert!(is_hand_sorted(&hand));
    assert_eq!(hand.len(), 4);
    assert_eq!(hand[0], card(Suit::Hearts, Face::Two));
    assert_eq!(hand[1], card(Suit::Diamonds, Face::Two));
    assert_eq!(hand[2], card(Suit::Hearts, Face::Seven));
    assert_eq!(hand[3], card(Suit::Clubs, Face::Ace));
}

#[test]
fn draw_pops_library_into_hand() {
    let library = vec![card(Suit::Hearts, Face::Five), card(Suit::Clubs, Face::Two)];
    let mut p = Player::new(library, Vec::new());
    let drawn = p.draw();
    assert_eq!(drawn, Some(card(Suit::Clubs, Face::Two)));
    assert_eq!(p.library.len(), 1);
    assert_eq!(p.hand, vec![card(Suit::Clubs, Face::Two)]);
    let drawn2 = p.draw();
    assert_eq!(drawn2, Some(card(Suit::Hearts, Face::Five)));
    assert!(is_hand_sorted(&p.hand));
    let drawn3 = p.draw();
    assert_eq!(drawn3, None);
    assert_eq!(p.hand.len(), 2);
}

#[test]
fn take_hand_card_removes_chosen_card() {
    let mut p = Player::new(Vec::new(), Vec::new());
    p.add_card(card(Suit::Hearts, Face::Two));
    p.add_card(card(Suit::Hearts, Face::Five));
    p.add_card(card(Suit::Spades, Face::Jack));
    let c = p.take_hand_card(1);
    assert_eq!(c, card(Suit::Hearts, Face::Five));
    assert_eq!(p.hand, vec![card(Suit::Hearts, Face::Two), card(Suit::Spades, Face::Jack)]);
}

#[test]
fn untapped_gem_count_ignores_tapped() {
    let mut p = Player::new(Vec::new(), Vec::new());
    p.gems.push(Gem { card: card(Suit::Hearts, Face::Two), tapped: true });
    p.gems.push(Gem { card: card(Suit::Hearts, Face::Three), tapped: false });
    p.gems.push(Gem { card: card(Suit::Spades, Face::Four), tapped: false });
    assert_eq!(p.untapped_gem_count(), 2);
}

#[test]
fn jack_creature_count_counts_jack_led() {
    let mut p = Player::new(Vec::new(), Vec::new());
    p.add_creature(creature_of(vec![card(Suit::Spades, Face::Jack)]));
    p.add_creature(creature_of(vec![card(Suit::Hearts, Face::Queen)]));
    p.add_creature(creature_of(vec![card(Suit::Hearts, Face::Jack)]));
    assert_eq!(p.jack_creature_count(), 2);
}

#[test]
fn royal_sacrifice_needs_single_color() {
    // A Jack of spades, a Queen of spades, and a King of hearts in three
    // creatures: no single color holds all three ranks.
    let mut p = Player::new(Vec::new(), Vec::new());
    p.add_creature(creature_of(vec![card(Suit::Spades, Face::Jack)]));
    p.add_creature(creature_of(vec![card(Suit::Spades, Face::Queen)]));
    p.add_creature(creature_of(vec![card(Suit::Hearts, Face::King)]));
    assert!(!p.can_royal_sacrifice());

    // Replacing the King of hearts with a King of spades completes the
    // black set.
    let mut q = Player::new(Vec::new(), Vec::new());
    q.add_creature(creature_of(vec![card(Suit::Spades, Face::Jack)]));
    q.add_creature(creature_of(vec![card(Suit::Spades, Face::Queen)]));
    q.add_creature(creature_of(vec![card(Suit::Spades, Face::King)]));
    assert!(q.can_royal_sacrifice());
}

#[test]
fn royal_sacrifice_sees_cards_inside_one_creature() {
    // Clubs count toward black as well, and cards may sit in one stack.
    let mut p = Player::new(Vec::new(), Vec::new());
    p.add_creature(creature_of(vec![
        card(Suit::Clubs, Face::Jack),
        card(Suit::Spades, Face::Queen),
        card(Suit::Clubs, Face::King),
    ]));
    assert!(p.can_royal_sacrifice());
}

#[test]
fn new_player_starts_at_twenty_life() {
    let p = Player::new(Vec::new(), Vec::new());
    assert_eq!(p.life, 20);
    assert!(!p.has_played_gem);
    assert!(p.gems.is_empty());
    assert!(p.creatures.is_empty());
    assert!(p.graveyard.is_empty());
}
