use card_duel::{Card, Color, Face, Suit};

#[test]
fn face_all_lists_ten_ranks_ascending() {
    let faces = Face::all();
    assert_eq!(
        faces,
        vec![
            Face::Two,
            Face::Three,
            Face::Four,
            Face::Five,
            Face::Six,
            Face::Seven,
            Face::Jack,
            Face::Queen,
            Face::King,
            Face::Ace,
        ]
    );
}

#[test]
fn suit_all_lists_four_suits() {
    assert_eq!(Suit::all(), vec![Suit::Spades, Suit::Hearts, Suit::Diamonds, Suit::Clubs]);
}

#[test]
fn color_all_lists_both_colors() {
    assert_eq!(Color::all(), vec![Color::Red, Color::Black]);
}

#[test]
fn face_next_steps_through_the_gem_range_only() {
    assert_eq!(Face::Two.next(), Some(Face::Three));
    assert_eq!(Face::Three.next(), Some(Face::Four));
    assert_eq!(Face::Four.next(), Some(Face::Five));
    assert_eq!(Face::Five.next(), Some(Face::Six));
    assert_eq!(Face::Six.next(), Some(Face::Seven));
    assert_eq!(Face::Seven.next(), None);
    assert_eq!(Face::Jack.next(), None);
    assert_eq!(Face::Queen.next(), None);
    assert_eq!(Face::King.next(), None);
    assert_eq!(Face::Ace.next(), None);
}

#[test]
fn suit_colors_pair_up() {
    assert_eq!(Suit::Spades.color(), Color::Black);
    assert_eq!(Suit::Clubs.color(), Color::Black);
    assert_eq!(Suit::Hearts.color(), Color::Red);
    assert_eq!(Suit::Diamonds.color(), Color::Red);
}

#[test]
fn card_color_follows_its_suit() {
    let c = Card { player: 1, suit: Suit::Diamonds, face: Face::Queen };
    assert_eq!(c.color(), Color::Red);
    let d = Card { player: 0, suit: Suit::Clubs, face: Face::Two };
    assert_eq!(d.color(), Color::Black);
}
