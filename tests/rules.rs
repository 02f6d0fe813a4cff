use hanabi_core::deck::{all_distinct, card_kinds, make_cards, shuffled_deck};
use hanabi_core::{
    Action, Card, CardId, CardInfo, CardInfoKind, Color, Config, CoreError, Field, Game, Number,
    PlayerInfo,
};

fn card(n: Number, c: Color, id: u128) -> Card {
    Card::new(n, c, CardId::new(id))
}

/// Two players; player 0 holds Red 1, player 1 holds two Red cards.
fn scenario_game() -> Game {
    let mut deck = vec![
        card(Number::One, Color::Red, 100),
        card(Number::One, Color::White, 101),
        card(Number::Two, Color::White, 102),
        card(Number::One, Color::Blue, 103),
        card(Number::Three, Color::Green, 104),
        card(Number::Two, Color::Red, 200),
        card(Number::One, Color::Yellow, 201),
        card(Number::Three, Color::Red, 202),
        card(Number::Four, Color::White, 203),
        card(Number::Two, Color::Blue, 204),
    ];
    for i in 0..20u128 {
        deck.push(card(Number::Five, Color::Multi, 300 + i));
    }
    Config::new(2).unwrap().build_with_deck(deck)
}

fn hand_ids(p: &PlayerInfo) -> Vec<u128> {
    p.hands.iter().map(|c| c.id.as_u128()).collect()
}

fn check_full_deck(all: &[Card], is_multi: bool) {
    let suits = if is_multi { 5 } else { 6 };
    assert_eq!(all.len(), suits * 5);
    let ids: Vec<u128> = all.iter().map(|c| c.id.as_u128()).collect();
    assert!(all_distinct(&ids));
    for ci in 0..6 {
        for v in 1..=5 {
            let count = all
                .iter()
                .filter(|c| c.color.to_usize() == ci && c.number.to_usize() == v)
                .count();
            assert_eq!(count, if ci < suits { 1 } else { 0 });
        }
    }
}

fn dealt(g: &Game) -> Vec<Card> {
    let mut all: Vec<Card> = Vec::new();
    for p in &g.players {
        all.extend(p.hands.iter().copied());
    }
    all.extend(g.stack.iter().copied());
    all
}

#[test]
fn color_indices_are_dense() {
    let colors = [Color::White, Color::Red, Color::Blue, Color::Yellow, Color::Green, Color::Multi];
    for (i, c) in colors.iter().enumerate() {
        assert_eq!(c.to_usize(), i);
        assert_eq!(Color::of_index(i), *c);
    }
}

#[test]
fn number_values() {
    let numbers = [Number::One, Number::Two, Number::Three, Number::Four, Number::Five];
    for (i, n) in numbers.iter().enumerate() {
        assert_eq!(n.to_usize(), i + 1);
        assert_eq!(Number::of_value(i + 1), *n);
    }
}

#[test]
fn config_player_count_bounds() {
    assert!(Config::new(0).is_none());
    assert!(Config::new(1).is_none());
    assert!(Config::new(2).is_some());
    assert!(Config::new(5).is_some());
    assert!(Config::new(6).is_none());
}

#[test]
fn config_flags_reach_game() {
    let mut c = Config::new(3).unwrap();
    c.multi(true);
    c.grand_finale(true);
    let g = c.build();
    assert_eq!(g.player_num(), 3);
    assert!(g.is_multi());
    assert!(g.is_grand_finale());
    let g2 = Config::new(3).unwrap().build();
    assert!(!g2.is_multi());
    assert!(!g2.is_grand_finale());
}

#[test]
fn build_two_players_non_multi() {
    let g = Config::new(2).unwrap().build();
    assert_eq!(g.players.len(), 2);
    for (i, p) in g.players.iter().enumerate() {
        assert_eq!(p.player_id, i);
        assert_eq!(p.hands.len(), 5);
    }
    assert_eq!(g.stack.len(), 20);
    assert!(g.discards.is_empty());
    check_full_deck(&dealt(&g), false);
}

#[test]
fn hand_sizes_by_player_count() {
    for n in 2..=5usize {
        for multi in [false, true] {
            let mut c = Config::new(n).unwrap();
            c.multi(multi);
            let g = c.build();
            let h = if n <= 3 { 5 } else { 4 };
            assert_eq!(g.players.len(), n);
            for p in &g.players {
                assert_eq!(p.hands.len(), h);
            }
            let total = if multi { 25 } else { 30 };
            assert_eq!(g.stack.len(), total - n * h);
            check_full_deck(&dealt(&g), multi);
        }
    }
}

#[test]
fn shuffled_deck_is_full() {
    check_full_deck(&shuffled_deck(false), false);
    check_full_deck(&shuffled_deck(true), true);
}

#[test]
fn card_kinds_in_order() {
    let k = card_kinds(true);
    assert_eq!(k.len(), 25);
    assert_eq!(k[0], (Color::White, Number::One));
    assert_eq!(k[7], (Color::Red, Number::Three));
    assert_eq!(k[24], (Color::Green, Number::Five));
    let k6 = card_kinds(false);
    assert_eq!(k6.len(), 30);
    assert_eq!(k6[29], (Color::Multi, Number::Five));
}

#[test]
fn make_cards_pairs_kinds_and_ids() {
    let kinds = vec![(Color::Red, Number::Two), (Color::Blue, Number::Five)];
    let ids = vec![7u128, 9u128];
    let cards = make_cards(&kinds, &ids);
    assert_eq!(cards, vec![card(Number::Two, Color::Red, 7), card(Number::Five, Color::Blue, 9)]);
}

#[test]
fn all_distinct_detects_repeats() {
    assert!(all_distinct(&vec![]));
    assert!(all_distinct(&vec![1, 2, 3]));
    assert!(!all_distinct(&vec![1, 2, 1]));
    assert!(!all_distinct(&vec![4, 4]));
}

#[test]
fn field_accepts_only_next_rank() {
    let mut f = Field::new();
    assert!(!f.add(card(Number::Two, Color::Red, 1)));
    assert!(f.cards(Color::Red).is_empty());
    assert!(f.add(card(Number::One, Color::Red, 2)));
    assert!(!f.add(card(Number::One, Color::Red, 3)));
    assert!(f.add(card(Number::Two, Color::Red, 4)));
    assert!(!f.add(card(Number::Four, Color::Red, 5)));
    assert!(f.add(card(Number::One, Color::Multi, 6)));
    assert_eq!(f.top_number(Color::Red), 2);
    assert_eq!(f.top_number(Color::Blue), 0);
    let ranks: Vec<usize> = f.cards(Color::Red).iter().map(|c| c.number.to_usize()).collect();
    assert_eq!(ranks, vec![1, 2]);
    assert_eq!(f.cards(Color::Multi).len(), 1);
}

#[test]
fn build_with_deck_deals_runs() {
    let g = scenario_game();
    assert_eq!(hand_ids(&g.players[0]), vec![100, 101, 102, 103, 104]);
    assert_eq!(hand_ids(&g.players[1]), vec![200, 201, 202, 203, 204]);
    assert_eq!(g.stack.len(), 20);
    assert_eq!(g.stack[0].id, CardId::new(300));
}

#[test]
fn example_play_then_tell() {
    let mut g = scenario_game();
    let r = g.process_action(0, Action::Play(CardId::new(100)));
    assert!(matches!(r, Ok(None)));
    assert_eq!(g.field.cards(Color::Red), &vec![card(Number::One, Color::Red, 100)]);
    assert_eq!(hand_ids(&g.players[0]), vec![101, 102, 103, 104]);
    assert!(g.discards.is_empty());
    let info = CardInfo::new(CardInfoKind::Color(Color::Red), 1);
    let r = g.process_action(0, Action::Tell(info)).unwrap().unwrap();
    assert_eq!(r.kind, CardInfoKind::Color(Color::Red));
    assert_eq!(r.player, 1);
    assert_eq!(r.cards, vec![CardId::new(200), CardId::new(202)]);
}

#[test]
fn tell_by_number() {
    let mut g = scenario_game();
    let info = CardInfo::new(CardInfoKind::Number(Number::Two), 1);
    let r = g.process_action(0, Action::Tell(info)).unwrap().unwrap();
    assert_eq!(r.cards, vec![CardId::new(200), CardId::new(204)]);
    assert_eq!(hand_ids(&g.players[1]).len(), 5);
}

#[test]
fn tell_matching_nothing_is_incorrect() {
    let mut g = scenario_game();
    let info = CardInfo::new(CardInfoKind::Color(Color::Multi), 1);
    assert_eq!(g.process_action(0, Action::Tell(info)).unwrap_err(), CoreError::IncorrectInfo(info));
}

#[test]
fn tell_to_missing_player_is_incorrect() {
    let mut g = scenario_game();
    let info = CardInfo::new(CardInfoKind::Color(Color::Red), 2);
    assert_eq!(g.process_action(0, Action::Tell(info)).unwrap_err(), CoreError::IncorrectInfo(info));
}

#[test]
fn discard_moves_card() {
    let mut g = scenario_game();
    let r = g.process_action(1, Action::Discard(CardId::new(202)));
    assert!(matches!(r, Ok(None)));
    assert_eq!(hand_ids(&g.players[1]), vec![200, 201, 203, 204]);
    assert_eq!(g.discards, vec![card(Number::Three, Color::Red, 202)]);
    assert_eq!(hand_ids(&g.players[0]).len(), 5);
}

#[test]
fn discard_absent_card_is_invalid() {
    let mut g = scenario_game();
    let r = g.process_action(0, Action::Discard(CardId::new(200)));
    assert_eq!(r.unwrap_err(), CoreError::InvalidCard(CardId::new(200)));
    assert_eq!(hand_ids(&g.players[0]), vec![100, 101, 102, 103, 104]);
    assert_eq!(hand_ids(&g.players[1]), vec![200, 201, 202, 203, 204]);
    assert!(g.discards.is_empty());
}

#[test]
fn play_absent_card_is_invalid() {
    let mut g = scenario_game();
    let r = g.process_action(1, Action::Play(CardId::new(999)));
    assert_eq!(r.unwrap_err(), CoreError::InvalidCard(CardId::new(999)));
    assert_eq!(hand_ids(&g.players[1]).len(), 5);
}

#[test]
fn play_wrong_rank_keeps_card() {
    let mut g = scenario_game();
    let r = g.process_action(1, Action::Play(CardId::new(200)));
    assert_eq!(r.unwrap_err(), CoreError::InvalidCard(CardId::new(200)));
    assert_eq!(hand_ids(&g.players[1]), vec![200, 201, 202, 203, 204]);
    assert!(g.field.cards(Color::Red).is_empty());
    assert!(g.discards.is_empty());
}

#[test]
fn play_sequence_builds_stack() {
    let mut g = scenario_game();
    assert!(g.process_action(0, Action::Play(CardId::new(100))).is_ok());
    assert!(g.process_action(1, Action::Play(CardId::new(200))).is_ok());
    assert!(g.process_action(1, Action::Play(CardId::new(202))).is_ok());
    assert_eq!(g.field.top_number(Color::Red), 3);
    assert_eq!(hand_ids(&g.players[1]), vec![201, 203, 204]);
}

#[test]
fn invalid_actor_is_refused() {
    let mut g = scenario_game();
    let r = g.process_action(2, Action::Discard(CardId::new(100)));
    assert_eq!(r.unwrap_err(), CoreError::InvalidPlayer(2));
    assert_eq!(hand_ids(&g.players[0]).len(), 5);
    assert!(g.discards.is_empty());
}

#[test]
fn card_idx_and_remove_card() {
    let mut p = PlayerInfo::new(0, vec![card(Number::One, Color::Red, 1), card(Number::Two, Color::Blue, 2)]);
    assert_eq!(p.card_idx(CardId::new(2)), Some(1));
    assert_eq!(p.card_idx(CardId::new(3)), None);
    let c = p.remove_card(0);
    assert_eq!(c, card(Number::One, Color::Red, 1));
    assert_eq!(hand_ids(&p), vec![2]);
}

#[test]
fn construct_info_lists_matches() {
    let g = scenario_game();
    let info = CardInfo::new(CardInfoKind::Color(Color::White), 0);
    assert_eq!(g.construct_info(&info), Some(vec![CardId::new(101), CardId::new(102)]));
    let bad = CardInfo::new(CardInfoKind::Color(Color::White), 5);
    assert_eq!(g.construct_info(&bad), None);
    assert!(g.is_valid_player(1));
    assert!(!g.is_valid_player(2));
}
