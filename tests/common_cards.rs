use pokerd_backend::card::{card_to_string, hand_to_string, Card, Deck, DECK_SIZE};

fn c(value: u8, suit: u8) -> Card {
    Card::new(value, suit)
}

#[test]
fn card_codes_use_value_then_suit() {
    assert_eq!(card_to_string(c(0, 0)), "2s");
    assert_eq!(card_to_string(c(8, 1)), "Tc");
    assert_eq!(card_to_string(c(9, 2)), "Jh");
    assert_eq!(card_to_string(c(12, 3)), "Ad");
    assert_eq!(card_to_string(c(11, 0)), "Ks");
    assert_eq!(card_to_string(c(10, 2)), "Qh");
}

#[test]
fn hand_code_concatenates_in_deal_order() {
    assert_eq!(hand_to_string(&[c(12, 0), c(0, 3), c(7, 1)]), "As2d9c");
    assert_eq!(hand_to_string(&[c(0, 3), c(12, 0)]), "2dAs");
}

#[test]
fn empty_hand_code_is_empty() {
    assert_eq!(hand_to_string(&[]), "");
}

#[test]
fn deck_deals_cards_first_to_last() {
    let mut deck = Deck::from_cards(vec![c(1, 0), c(2, 1), c(3, 2)]);
    assert_eq!(deck.len(), 3);
    assert_eq!(deck.deal(), Some(c(1, 0)));
    assert_eq!(deck.deal(), Some(c(2, 1)));
    assert_eq!(deck.deal(), Some(c(3, 2)));
    assert_eq!(deck.deal(), None);
    assert_eq!(deck.len(), 0);
}

#[test]
fn shuffled_deck_holds_every_card_once() {
    let mut deck = Deck::shuffled();
    assert_eq!(deck.len(), DECK_SIZE);
    let mut seen = std::collections::HashSet::new();
    while let Some(card) = deck.deal() {
        assert!(card.value < 13 && card.suit < 4);
        assert!(seen.insert((card.value, card.suit)));
    }
    assert_eq!(seen.len(), 52);
}
