use card_duel::game::{creature_cost, Game, TurnOutcome};
use card_duel::player::{CreatureStatus, Player};
use card_duel::{Card, Face, Suit};

fn card(suit: Suit, face: Face) -> Card {
    Card { player: 0, suit, face }
}

fn fresh_game() -> Game {
    Game::new(Player::new(Vec::new(), Vec::new()), Player::new(Vec::new(), Vec::new()))
}

#[test]
fn creature_costs_match_the_table() {
    assert_eq!(creature_cost(Face::Jack), 2);
    assert_eq!(creature_cost(Face::Queen), 4);
    assert_eq!(creature_cost(Face::King), 5);
    assert_eq!(creature_cost(Face::Ace), 3);
}

#[test]
fn us_and_enemy_follow_the_turn_marker() {
    let mut g = fresh_game();
    g.player0.life = 11;
    g.player1.life = 12;
    assert_eq!(g.us().life, 11);
    assert_eq!(g.enemy().life, 12);
    g.next_turn();
    assert_eq!(g.current_player, 1);
    assert_eq!(g.us().life, 12);
    assert_eq!(g.enemy().life, 11);
    g.next_turn();
    assert_eq!(g.current_player, 0);
    g.us_mut().life = 7;
    assert_eq!(g.player0.life, 7);
}

#[test]
fn first_gem_card_enters_the_pool() {
    let mut g = fresh_game();
    let c = card(Suit::Hearts, Face::Two);
    let r = g.play_gem_card(c, 0);
    assert_eq!(r, None);
    assert!(g.player0.has_played_gem);
    assert_eq!(g.player0.gems.len(), 1);
    assert_eq!(g.player0.gems[0].card, c);
    assert!(!g.player0.gems[0].tapped);
}

#[test]
fn second_gem_card_comes_back_to_hand() {
    let mut g = fresh_game();
    let first = card(Suit::Hearts, Face::Two);
    let second = card(Suit::Diamonds, Face::Six);
    assert_eq!(g.play_gem_card(first, 0), None);
    let r = g.play_gem_card(second, 0);
    assert_eq!(r, Some(second));
    assert!(g.player0.has_played_gem);
    assert_eq!(g.player0.gems.len(), 1);
    assert_eq!(g.player0.gems[0].card, first);
}

#[test]
fn committed_creature_is_untrained_and_sorted() {
    let mut g = fresh_game();
    g.commit_creature(card(Suit::Spades, Face::King), false, 0);
    g.commit_creature(card(Suit::Hearts, Face::Jack), true, 0);
    assert_eq!(g.player0.creatures.len(), 2);
    let jack = &g.player0.creatures[0];
    let king = &g.player0.creatures[1];
    assert_eq!(jack.cards, vec![card(Suit::Hearts, Face::Jack)]);
    assert!(jack.royal_charge);
    assert!(matches!(jack.status, CreatureStatus::Untrained));
    assert_eq!(king.cards, vec![card(Suit::Spades, Face::King)]);
    assert!(!king.royal_charge);
    assert!(matches!(king.status, CreatureStatus::Untrained));
    assert!(g.player0.creatures.iter().all(|c| c.equipment.is_empty()));
}

#[test]
fn victory_check_continues_at_full_life() {
    let g = fresh_game();
    assert_eq!(g.victory_check(), TurnOutcome::Continue);
}

#[test]
fn victory_check_names_the_opponent_of_the_fallen() {
    let mut g = fresh_game();
    g.player0.life = 0;
    assert_eq!(g.victory_check(), TurnOutcome::Player2Wins);

    let mut h = fresh_game();
    h.player1.life = -3;
    assert_eq!(h.victory_check(), TurnOutcome::Player1Wins);
}

#[test]
fn victory_check_calls_a_double_fall_a_draw() {
    let mut g = fresh_game();
    g.player0.life = 0;
    g.player1.life = -1;
    assert_eq!(g.victory_check(), TurnOutcome::Draw);
}

#[test]
fn life_ebbs_to_zero_ends_the_round_loop() {
    // Both players start at 20; an outside effect takes one to zero, and
    // the next victory check ends the match in the opponent's favor.
    let mut g = fresh_game();
    assert_eq!(g.player0.life, 20);
    assert_eq!(g.player1.life, 20);
    let mut rounds = 0;
    let winner = loop {
        match g.victory_check() {
            TurnOutcome::Continue => {
                rounds += 1;
                if rounds == 3 {
                    g.player1.life = 0;
                }
                g.next_turn();
            }
            outcome => break outcome,
        }
    };
    assert_eq!(winner, TurnOutcome::Player1Wins);
    assert_eq!(rounds, 3);
}
