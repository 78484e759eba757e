use dominion::{CardKind, Pile};

#[test]
fn victory_points_of_each_kind() {
    assert_eq!(CardKind::Estate.victory_points(0), 1);
    assert_eq!(CardKind::Duchy.victory_points(7), 3);
    assert_eq!(CardKind::Province.victory_points(100), 6);
    assert_eq!(CardKind::Gardens.victory_points(9), 0);
    assert_eq!(CardKind::Gardens.victory_points(25), 2);
    assert_eq!(CardKind::Gardens.victory_points(40), 4);
    assert_eq!(CardKind::Copper.victory_points(40), 0);
    assert_eq!(CardKind::Village.victory_points(40), 0);
}

#[test]
fn action_tags() {
    assert!(CardKind::Village.is_action());
    assert!(CardKind::Cellar.is_action());
    assert!(CardKind::Workshop.is_action());
    assert!(!CardKind::Copper.is_action());
    assert!(!CardKind::Gardens.is_action());
    assert!(!CardKind::Province.is_action());
}

#[test]
fn victory_tags() {
    assert!(CardKind::Estate.is_victory());
    assert!(CardKind::Gardens.is_victory());
    assert!(!CardKind::Gold.is_victory());
    assert!(!CardKind::Moat.is_victory());
}

#[test]
fn supply_sizing_examples() {
    assert_eq!(CardKind::Copper.initial_count(4), 32);
    assert_eq!(CardKind::Estate.initial_count(2), 8);
    assert_eq!(CardKind::Estate.initial_count(3), 12);
}

#[test]
fn initial_counts_of_other_kinds() {
    assert_eq!(CardKind::Copper.initial_count(2), 46);
    assert_eq!(CardKind::Copper.initial_count(8), 4);
    assert_eq!(CardKind::Silver.initial_count(3), 40);
    assert_eq!(CardKind::Gold.initial_count(3), 30);
    assert_eq!(CardKind::Duchy.initial_count(1), 8);
    assert_eq!(CardKind::Province.initial_count(5), 12);
    assert_eq!(CardKind::Gardens.initial_count(4), 10);
    assert_eq!(CardKind::Smithy.initial_count(2), 10);
}

#[test]
fn pile_emptiness() {
    assert!(Pile { card: CardKind::Gold, count: 0 }.is_empty());
    assert!(!Pile { card: CardKind::Gold, count: 1 }.is_empty());
}
