use dominion::{CardKind, Player};
use rand::rngs::StdRng;
use rand::SeedableRng;

fn sorted(mut v: Vec<CardKind>) -> Vec<CardKind> {
    v.sort_by_key(|c| *c as usize);
    v
}

#[test]
fn new_player_holds_deck_in_draw_pile() {
    let p = Player::new(vec![CardKind::Copper, CardKind::Estate]);
    assert_eq!(p.draw, vec![CardKind::Copper, CardKind::Estate]);
    assert!(p.hand.is_empty());
    assert!(p.play.is_empty());
    assert!(p.discard.is_empty());
}

#[test]
fn draw_takes_from_the_top() {
    let mut rng = StdRng::seed_from_u64(1);
    let mut p = Player::new(vec![CardKind::Copper, CardKind::Silver, CardKind::Gold]);
    p.draw(&mut rng, 2);
    assert_eq!(p.hand, vec![CardKind::Gold, CardKind::Silver]);
    assert_eq!(p.draw, vec![CardKind::Copper]);
}

#[test]
fn draw_zero_changes_nothing() {
    let mut rng = StdRng::seed_from_u64(1);
    let mut p = Player::new(vec![CardKind::Copper]);
    p.discard = vec![CardKind::Estate];
    p.draw(&mut rng, 0);
    assert!(p.hand.is_empty());
    assert_eq!(p.draw, vec![CardKind::Copper]);
    assert_eq!(p.discard, vec![CardKind::Estate]);
}

#[test]
fn draw_reshuffles_discard_when_draw_runs_out() {
    let mut rng = StdRng::seed_from_u64(7);
    let mut p = Player::new(vec![CardKind::Gold]);
    p.discard = vec![CardKind::Copper, CardKind::Estate, CardKind::Silver];
    p.draw(&mut rng, 3);
    assert_eq!(p.hand.len(), 3);
    assert_eq!(p.hand[0], CardKind::Gold);
    assert!(p.discard.is_empty());
    assert_eq!(p.draw.len(), 1);
    let mut rest = p.hand[1..].to_vec();
    rest.extend(p.draw.iter().copied());
    assert_eq!(sorted(rest), sorted(vec![CardKind::Copper, CardKind::Estate, CardKind::Silver]));
}

#[test]
fn draw_is_partial_when_cards_run_out() {
    let mut rng = StdRng::seed_from_u64(3);
    let mut p = Player::new(vec![CardKind::Gold]);
    p.discard = vec![CardKind::Copper];
    p.hand = vec![CardKind::Estate];
    p.draw(&mut rng, 5);
    assert_eq!(p.hand, vec![CardKind::Estate, CardKind::Gold, CardKind::Copper]);
    assert!(p.draw.is_empty());
    assert!(p.discard.is_empty());
}

#[test]
fn draw_from_nothing_draws_nothing() {
    let mut rng = StdRng::seed_from_u64(3);
    let mut p = Player::new(vec![]);
    p.draw(&mut rng, 2);
    assert!(p.hand.is_empty());
}

#[test]
fn draw_is_deterministic_for_a_seed() {
    let deck = vec![CardKind::Copper, CardKind::Silver, CardKind::Gold, CardKind::Estate,
        CardKind::Duchy, CardKind::Province, CardKind::Village, CardKind::Smithy];
    let mut a = Player::new(vec![]);
    a.discard = deck.clone();
    let mut b = Player::new(vec![]);
    b.discard = deck;
    a.draw(&mut StdRng::seed_from_u64(42), 4);
    b.draw(&mut StdRng::seed_from_u64(42), 4);
    assert_eq!(a.hand, b.hand);
    assert_eq!(a.draw, b.draw);
}

#[test]
fn play_removes_card_from_hand() {
    let mut p = Player::new(vec![CardKind::Estate]);
    p.hand = vec![CardKind::Village, CardKind::Copper, CardKind::Gold];
    assert_eq!(p.play(1), Some(CardKind::Copper));
    assert_eq!(p.hand, vec![CardKind::Village, CardKind::Gold]);
    assert!(p.play.is_empty());
    assert_eq!(p.draw, vec![CardKind::Estate]);
    assert!(p.discard.is_empty());
}

#[test]
fn play_out_of_range_is_none() {
    let mut p = Player::new(vec![]);
    p.hand = vec![CardKind::Village];
    assert_eq!(p.play(1), None);
    assert_eq!(p.hand, vec![CardKind::Village]);
    assert!(p.play.is_empty());
}

#[test]
fn points_sum_all_zones() {
    let mut p = Player::new(vec![CardKind::Province, CardKind::Copper]);
    p.hand = vec![CardKind::Estate, CardKind::Copper];
    p.play = vec![CardKind::Duchy];
    p.discard = vec![CardKind::Province, CardKind::Copper, CardKind::Copper, CardKind::Copper];
    assert_eq!(p.points(), 6 + 1 + 3 + 6);
}

#[test]
fn gardens_count_tenths_of_deck() {
    let mut deck = vec![CardKind::Copper; 18];
    deck.push(CardKind::Gardens);
    deck.push(CardKind::Gardens);
    let p = Player::new(deck);
    assert_eq!(p.points(), 4);
}

#[test]
fn draw_without_reshuffle_leaves_rng_alone() {
    let mut rng = StdRng::seed_from_u64(9);
    let copy = rng.clone();
    let mut p = Player::new(vec![CardKind::Copper, CardKind::Silver]);
    p.discard = vec![CardKind::Gold];
    p.draw(&mut rng, 2);
    assert_eq!(rng, copy);
    assert_eq!(p.discard, vec![CardKind::Gold]);
}
